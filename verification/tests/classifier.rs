use okx_feed::classify::classify;
use okx_feed::types::{Decimal, Event};

#[test]
fn classify_public_ticker_happy_path() {
    let text = "{\"arg\":{\"channel\":\"tickers\",\"instId\":\"BTC-USDT\"},\"data\":[{\"bidPx\":\"60000.1\",\"bidSz\":\"0.5\",\"askPx\":\"60000.2\",\"askSz\":\"0.7\"}]}";
    let evs = classify(text.to_string());
    assert_eq!(evs.len(), 1);
    match &evs[0] {
        Event::Ticker { instrument, is_derivative, book } => {
            assert_eq!(instrument, "BTC-USDT");
            assert!(!is_derivative);
            assert_eq!(book.best_bid, Decimal { mantissa: 600001, scale: 1 });
            assert_eq!(book.best_bid_size, Decimal { mantissa: 5, scale: 1 });
            assert_eq!(book.best_ask, Decimal { mantissa: 600002, scale: 1 });
            assert_eq!(book.best_ask_size, Decimal { mantissa: 7, scale: 1 });
        },
        other => panic!("expected a ticker, got {:?}", std::mem::discriminant(other)),
    }
}

#[test]
fn classify_derivative_flag() {
    let text = "{\"arg\":{\"channel\":\"tickers\",\"instId\":\"BTC-USDT-SWAP\"},\"data\":[{\"bidPx\":\"1\",\"bidSz\":\"1\",\"askPx\":\"2\",\"askSz\":\"1\"}]}";
    let evs = classify(text.to_string());
    assert_eq!(evs.len(), 1);
    match &evs[0] {
        Event::Ticker { instrument, is_derivative, .. } => {
            assert_eq!(instrument, "BTC-USDT-SWAP");
            assert!(*is_derivative);
        },
        _ => panic!("expected a ticker"),
    }
}

#[test]
fn classify_one_event_per_data_row() {
    let text = "{\"arg\":{\"channel\":\"tickers\",\"instId\":\"ETH-USDT\"},\"data\":[{\"bidPx\":\"1\",\"bidSz\":\"1\",\"askPx\":\"2\",\"askSz\":\"1\"},{\"bidPx\":\"3\",\"bidSz\":\"1\",\"askPx\":\"4\",\"askSz\":\"1\"}]}";
    let evs = classify(text.to_string());
    assert_eq!(evs.len(), 2);
    for ev in &evs {
        assert!(matches!(ev, Event::Ticker { .. }));
    }
}

#[test]
fn classify_missing_bid_is_protocol_error() {
    let text = "{\"arg\":{\"channel\":\"tickers\",\"instId\":\"BTC-USDT\"},\"data\":[{\"bidSz\":\"0.5\",\"askPx\":\"60000.2\",\"askSz\":\"0.7\"}]}";
    let evs = classify(text.to_string());
    assert_eq!(evs.len(), 1);
    match &evs[0] {
        Event::ProtocolError { code, .. } => assert_eq!(code, "field"),
        _ => panic!("a missing bidPx must be a protocol error, never a default"),
    }
}

#[test]
fn classify_non_numeric_bid_is_protocol_error() {
    let text = "{\"arg\":{\"channel\":\"tickers\",\"instId\":\"BTC-USDT\"},\"data\":[{\"bidPx\":\"oops\",\"bidSz\":\"0.5\",\"askPx\":\"60000.2\",\"askSz\":\"0.7\"}]}";
    let evs = classify(text.to_string());
    assert_eq!(evs.len(), 1);
    assert!(matches!(&evs[0], Event::ProtocolError { .. }));
}

#[test]
fn classify_crossed_book_is_protocol_error() {
    let text = "{\"arg\":{\"channel\":\"tickers\",\"instId\":\"BTC-USDT\"},\"data\":[{\"bidPx\":\"3.5\",\"bidSz\":\"1\",\"askPx\":\"3.4\",\"askSz\":\"1\"}]}";
    let evs = classify(text.to_string());
    assert_eq!(evs.len(), 1);
    match &evs[0] {
        Event::ProtocolError { code, .. } => assert_eq!(code, "crossed"),
        _ => panic!("a crossed book must be reported, not forwarded"),
    }
}

#[test]
fn classify_malformed_json_is_parse_error() {
    let evs = classify("{not json".to_string());
    assert_eq!(evs.len(), 1);
    match &evs[0] {
        Event::ProtocolError { code, .. } => assert_eq!(code, "parse"),
        _ => panic!("malformed input must be a parse error"),
    }
}

#[test]
fn classify_pong_is_heartbeat() {
    let evs = classify("pong".to_string());
    assert_eq!(evs.len(), 1);
    assert!(matches!(&evs[0], Event::Heartbeat));
}

#[test]
fn classify_subscribe_ack() {
    let text = "{\"event\":\"subscribe\",\"arg\":{\"channel\":\"tickers\",\"instId\":\"BTC-USDT\"}}";
    let evs = classify(text.to_string());
    assert_eq!(evs.len(), 1);
    match &evs[0] {
        Event::Subscribed { channel, inst_id } => {
            assert_eq!(channel, "tickers");
            assert_eq!(inst_id, "BTC-USDT");
        },
        _ => panic!("expected a subscribe acknowledgement"),
    }
}

#[test]
fn classify_unsubscribe_ack() {
    let text = "{\"event\":\"unsubscribe\",\"arg\":{\"channel\":\"tickers\",\"instId\":\"ETH-USDT\"}}";
    let evs = classify(text.to_string());
    assert_eq!(evs.len(), 1);
    assert!(matches!(&evs[0], Event::Unsubscribed { .. }));
}

#[test]
fn classify_venue_error() {
    let text = "{\"event\":\"error\",\"code\":\"60009\",\"msg\":\"login failed\"}";
    let evs = classify(text.to_string());
    assert_eq!(evs.len(), 1);
    match &evs[0] {
        Event::ProtocolError { code, message } => {
            assert_eq!(code, "60009");
            assert_eq!(message, "login failed");
        },
        _ => panic!("expected a protocol error"),
    }
}

#[test]
fn classify_order_ack_with_first_row() {
    let text = "{\"arg\":{\"channel\":\"orders\",\"instId\":\"BTC-USDT\"},\"data\":[{\"instId\":\"BTC-USDT\",\"state\":\"filled\"}]}";
    let evs = classify(text.to_string());
    assert_eq!(evs.len(), 1);
    match &evs[0] {
        Event::OrderAck { derived, raw } => {
            assert_eq!(derived.as_deref(), Some("BTC-USDT"));
            assert!(raw.contains("filled"));
        },
        _ => panic!("expected an order acknowledgement"),
    }
}

#[test]
fn classify_order_ack_empty_data_forwarded() {
    let text = "{\"arg\":{\"channel\":\"orders\",\"instId\":\"BTC-USDT\"},\"data\":[]}";
    let evs = classify(text.to_string());
    assert_eq!(evs.len(), 1);
    match &evs[0] {
        Event::OrderAck { derived, .. } => assert!(derived.is_none()),
        _ => panic!("an empty order acknowledgement is still forwarded"),
    }
}

#[test]
fn classify_batch_order_ack() {
    let text = "{\"code\":\"1\",\"id\":[\"a\",\"b\"],\"msg\":\"partial\"}";
    let evs = classify(text.to_string());
    assert_eq!(evs.len(), 1);
    match &evs[0] {
        Event::BatchOrderAck { code, .. } => assert_eq!(code, "1"),
        _ => panic!("expected a batch-order acknowledgement"),
    }
}

#[test]
fn classify_unmatched_shape_is_unknown() {
    let text = "{\"event\":\"login\",\"code\":\"0\"}";
    let evs = classify(text.to_string());
    assert_eq!(evs.len(), 1);
    assert!(matches!(&evs[0], Event::Unknown { .. }));
}
