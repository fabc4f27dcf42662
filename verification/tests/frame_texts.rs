use okx_feed::frames::{login_frame_text, subscribe_frame_text};
use okx_feed::session::jittered_backoff_ms;
use okx_feed::types::Topic;

#[test]
fn subscribe_text_single_topic() {
    let topics = vec![Topic::Ticker("BTC-USDT".to_string())];
    let text = subscribe_frame_text(&topics).unwrap();
    assert_eq!(
        text,
        "{\"op\":\"subscribe\",\"args\":[{\"channel\":\"tickers\",\"instId\":\"BTC-USDT\"}]}"
    );
}

#[test]
fn subscribe_text_batches_in_order() {
    let topics = vec![
        Topic::Ticker("BTC-USDT".to_string()),
        Topic::SpotOrders("ETH-USDT".to_string()),
        Topic::SwapOrders("BTC-USDT-SWAP".to_string()),
    ];
    let text = subscribe_frame_text(&topics).unwrap();
    assert_eq!(
        text,
        concat_args()
    );
}

fn concat_args() -> String {
    let mut s = String::from("{\"op\":\"subscribe\",\"args\":[");
    s.push_str("{\"channel\":\"tickers\",\"instId\":\"BTC-USDT\"},");
    s.push_str("{\"channel\":\"orders\",\"instType\":\"SPOT\",\"instId\":\"ETH-USDT\"},");
    s.push_str("{\"channel\":\"orders\",\"instType\":\"SWAP\",\"instId\":\"BTC-USDT-SWAP\"}");
    s.push_str("]}");
    s
}

#[test]
fn subscribe_text_refuses_unescapable_instrument() {
    let topics = vec![Topic::Ticker("BTC\"-USDT".to_string())];
    assert!(subscribe_frame_text(&topics).is_none());
    let topics = vec![Topic::Ticker("BTC\\USDT".to_string())];
    assert!(subscribe_frame_text(&topics).is_none());
}

#[test]
fn login_text_exact_layout() {
    let text = login_frame_text("key", "phrase", "1700000000", "c2ln").unwrap();
    assert_eq!(
        text,
        "{\"op\":\"login\",\"args\":[{\"apiKey\":\"key\",\"passphrase\":\"phrase\",\"timestamp\":\"1700000000\",\"sign\":\"c2ln\"}]}"
    );
}

#[test]
fn login_text_refuses_unescapable_credential() {
    assert!(login_frame_text("k\"ey", "phrase", "1", "s").is_none());
    assert!(login_frame_text("key", "phrase", "1", "s\\ign").is_none());
}

#[test]
fn jitter_stays_within_a_fifth() {
    for draw in [0u64, 1, 7, 999, u64::MAX] {
        let r = jittered_backoff_ms(1000, draw);
        assert!((800..=1200).contains(&r), "got {r}");
        let r = jittered_backoff_ms(30_000, draw);
        assert!((24_000..=36_000).contains(&r), "got {r}");
    }
    assert_eq!(jittered_backoff_ms(4, 12345), 4, "too small a base takes no jitter");
    assert_eq!(jittered_backoff_ms(1000, 0), 800);
    assert_eq!(jittered_backoff_ms(1000, 400), 1200);
}
