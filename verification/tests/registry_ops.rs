use okx_feed::registry::Registry;
use okx_feed::types::{order_topics, Topic};

fn btc() -> Topic {
    Topic::Ticker("BTC-USDT".to_string())
}

fn eth() -> Topic {
    Topic::Ticker("ETH-USDT".to_string())
}

#[test]
fn registry_add_is_idempotent_and_ordered() {
    let mut r = Registry::new();
    assert!(r.add(btc()));
    assert!(r.add(eth()));
    assert!(!r.add(btc()), "a duplicate add does not grow the registry");
    assert_eq!(r.len(), 2);
    let snap = r.snapshot();
    assert!(matches!(&snap[0], Topic::Ticker(i) if i == "BTC-USDT"));
    assert!(matches!(&snap[1], Topic::Ticker(i) if i == "ETH-USDT"));
}

#[test]
fn registry_remove_keeps_the_rest() {
    let mut r = Registry::new();
    r.add(btc());
    r.add(eth());
    r.remove(&btc());
    assert!(!r.contains(&btc()));
    assert!(r.contains(&eth()));
    assert_eq!(r.len(), 1);
    r.remove(&btc());
    assert_eq!(r.len(), 1, "removing an absent topic is a no-op");
}

#[test]
fn order_topics_expand_each_coin_three_ways() {
    let ts = order_topics(&vec!["BTC-USDT".to_string(), "ETH-USDT".to_string()]);
    assert_eq!(ts.len(), 6);
    assert!(matches!(&ts[0], Topic::SpotOrders(i) if i == "BTC-USDT"));
    assert!(matches!(&ts[1], Topic::MarginOrders(i) if i == "BTC-USDT"));
    assert!(matches!(&ts[2], Topic::SwapOrders(i) if i == "BTC-USDT"));
    assert!(matches!(&ts[3], Topic::SpotOrders(i) if i == "ETH-USDT"));
    assert!(matches!(&ts[4], Topic::MarginOrders(i) if i == "ETH-USDT"));
    assert!(matches!(&ts[5], Topic::SwapOrders(i) if i == "ETH-USDT"));
}

#[test]
fn registry_distinguishes_topic_kinds() {
    let mut r = Registry::new();
    r.add(Topic::SpotOrders("BTC-USDT".to_string()));
    assert!(!r.contains(&btc()), "same instrument, different channel");
    assert!(r.contains(&Topic::SpotOrders("BTC-USDT".to_string())));
}
