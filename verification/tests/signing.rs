use okx_feed::sign::login_sign;

#[test]
fn login_signature_is_deterministic_base64() {
    let a = login_sign("test-secret-key", "1700000000");
    let b = login_sign("test-secret-key", "1700000000");
    assert_eq!(a, b, "the signature is a function of key and timestamp alone");
    assert_eq!(a.len(), 44, "base64 of a 32-byte tag, padded");
    assert!(a.ends_with('='));
}

#[test]
fn login_signature_depends_on_key_and_timestamp() {
    let a = login_sign("key-one", "1700000000");
    let b = login_sign("key-two", "1700000000");
    let c = login_sign("key-one", "1700000001");
    assert_ne!(a, b);
    assert_ne!(a, c);
    assert_ne!(a, "1700000000", "the signature is not the input handed back");
}
