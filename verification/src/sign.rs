//! Login signing for private sessions: an HMAC-SHA-256 tag over
//! `timestamp + "GET" + "/users/self/verify"`, keyed by the secret and
//! base64-encoded, exactly as the venue's login frame expects it.

use vstd::prelude::*;
use vstd::string::StringExecFns;
use vstd::utf8::encode_utf8;
use hmac::Mac;

verus! {

/// The HMAC-SHA-256 tag over a key and a message: a function of both
/// alone.
pub uninterp spec fn hmac_sha256_of(key: Seq<u8>, msg: Seq<u8>) -> Seq<u8>;

/// The base64 rendering of a byte string, standard alphabet with padding:
/// a function of the bytes alone.
pub uninterp spec fn base64_of(b: Seq<u8>) -> Seq<char>;

/// Relies on hmac::Hmac over sha2::Sha256: any key length is accepted and
/// the tag is 32 bytes, a function of key and message alone.
#[verifier::external_body]
fn hmac_sha256(key: &[u8], msg: &[u8]) -> (r: Vec<u8>)
    ensures
        r@ == hmac_sha256_of(key@, msg@),
        r@.len() == 32,
{
    let mut mac = <hmac::Hmac<sha2::Sha256> as hmac::Mac>::new_from_slice(key).expect(
        "an hmac key of any length is accepted",
    );
    mac.update(msg);
    mac.finalize().into_bytes().to_vec()
}

/// Relies on base64::encode: the standard-alphabet, padded rendering, a
/// function of the bytes alone; four characters per three-byte group.
#[verifier::external_body]
fn base64_encode(b: &[u8]) -> (r: String)
    ensures
        r@ == base64_of(b@),
        r@.len() == 4 * ((b@.len() + 2) / 3),
{
    base64::encode(b)
}

/// What the login signs: the timestamp, then the verb and the path of the
/// venue's verify endpoint.
pub open spec fn login_payload(ts: Seq<char>) -> Seq<char> {
    ts + "GET/users/self/verify"@
}

pub open spec fn login_signature_of(secret: Seq<char>, ts: Seq<char>) -> Seq<char> {
    base64_of(hmac_sha256_of(encode_utf8(secret), encode_utf8(login_payload(ts))))
}

/// The signature a private session presents at login, from the secret key
/// and the timestamp (seconds since the epoch, in decimal).
pub fn login_sign(secret: &str, timestamp: &str) -> (sig: String)
    ensures
        sig@ == login_signature_of(secret@, timestamp@),
{
    let mut msg = timestamp.to_owned();
    msg.append("GET/users/self/verify");
    let tag = hmac_sha256(secret.as_bytes(), msg.as_str().as_bytes());
    base64_encode(tag.as_slice())
}

} // verus!
