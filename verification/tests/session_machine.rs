use okx_feed::session::{
    Action, Config, Controller, FatalKind, Input, SessionKind, SessionState,
};
use okx_feed::types::{Event, Frame, Topic};

fn public_config() -> Config {
    Config {
        kind: SessionKind::Public,
        has_credentials: false,
        keepalive_interval_s: 25,
        idle_timeout_s: 40,
        backoff_initial_s: 1,
        backoff_max_s: 30,
    }
}

fn private_config() -> Config {
    Config { kind: SessionKind::Private, has_credentials: true, ..public_config() }
}

fn ticker_text(inst: &str) -> String {
    format!(
        "{{\"arg\":{{\"channel\":\"tickers\",\"instId\":\"{}\"}},\"data\":[{{\"bidPx\":\"1\",\"bidSz\":\"1\",\"askPx\":\"2\",\"askSz\":\"1\"}}]}}",
        inst
    )
}

fn sub_ack(inst: &str) -> String {
    format!(
        "{{\"event\":\"subscribe\",\"arg\":{{\"channel\":\"tickers\",\"instId\":\"{}\"}}}}",
        inst
    )
}

#[test]
fn session_public_happy_path() {
    let mut c = Controller::new(public_config());
    assert_eq!(c.state, SessionState::Disconnected);

    let a = c.step(Input::AddTopic(Topic::Ticker("BTC-USDT".to_string())), 1);
    assert!(a.is_empty(), "a subscription added before connecting sends nothing");

    let a = c.step(Input::Start, 2);
    assert!(matches!(a.as_slice(), [Action::Connect]));
    assert_eq!(c.state, SessionState::Connecting);

    let a = c.step(Input::ConnectOk, 3);
    assert_eq!(c.state, SessionState::Subscribing);
    match a.as_slice() {
        [Action::SendSubscribe(topics)] => {
            assert_eq!(topics.len(), 1);
            assert!(matches!(&topics[0], Topic::Ticker(i) if i == "BTC-USDT"));
        },
        _ => panic!("connecting must replay the registry in one subscribe frame"),
    }

    let a = c.step(Input::Inbound(Frame::Text(sub_ack("BTC-USDT"))), 4);
    assert_eq!(c.state, SessionState::Live);
    assert_eq!(a.len(), 1, "the acknowledgement itself is forwarded");

    let a = c.step(Input::Inbound(Frame::Text(ticker_text("BTC-USDT"))), 5);
    assert_eq!(a.len(), 1);
    match &a[0] {
        Action::Emit(te) => {
            assert_eq!(te.ingest_ts_micros, 5);
            assert!(matches!(&te.event, Event::Ticker { .. }));
        },
        _ => panic!("a live ticker frame is delivered to consumers"),
    }
}

#[test]
fn session_ping_answered_with_same_payload() {
    let mut c = Controller::new(public_config());
    c.step(Input::Start, 1);
    c.step(Input::ConnectOk, 2);
    let a = c.step(Input::Inbound(Frame::Ping(vec![97, 98, 99])), 3);
    match a.as_slice() {
        [Action::SendPong(p)] => assert_eq!(p.as_slice(), &[97, 98, 99]),
        _ => panic!("a ping is answered by exactly one pong, nothing reaches consumers"),
    }
}

#[test]
fn session_auth_failure_is_fatal() {
    let mut c = Controller::new(private_config());
    let a = c.step(Input::Start, 1);
    assert!(matches!(a.as_slice(), [Action::Connect]));
    let a = c.step(Input::ConnectOk, 2);
    assert!(matches!(a.as_slice(), [Action::SendLogin]));
    assert_eq!(c.state, SessionState::Authenticating);

    let err = "{\"event\":\"error\",\"code\":\"60009\",\"msg\":\"Login failed.\"}";
    let a = c.step(Input::Inbound(Frame::Text(err.to_string())), 3);
    assert_eq!(c.state, SessionState::Terminated);
    assert!(a.iter().any(|x| matches!(x, Action::Fatal(FatalKind::AuthFailure))));
    assert!(a.iter().all(|x| !matches!(x, Action::StartBackoff(_))), "no reconnect attempt");

    let a = c.step(Input::BackoffElapsed, 4);
    assert!(a.is_empty(), "a terminated session stays terminated");
}

#[test]
fn session_missing_credentials_is_fatal() {
    let mut cfg = private_config();
    cfg.has_credentials = false;
    let mut c = Controller::new(cfg);
    let a = c.step(Input::Start, 1);
    assert_eq!(c.state, SessionState::Terminated);
    assert!(matches!(a.as_slice(), [Action::Fatal(FatalKind::MissingCredentials)]));
}

#[test]
fn session_add_twice_sends_one_subscribe() {
    let mut c = Controller::new(public_config());
    c.step(Input::Start, 1);
    c.step(Input::ConnectOk, 2);
    assert_eq!(c.state, SessionState::Live, "an empty registry goes straight to live");

    let t = || Topic::Ticker("ETH-USDT".to_string());
    let a1 = c.step(Input::AddTopic(t()), 3);
    assert!(
        matches!(a1.as_slice(), [Action::SendSubscribe(ts)] if ts.len() == 1),
        "the first add subscribes at once"
    );
    let a2 = c.step(Input::AddTopic(t()), 4);
    assert!(a2.is_empty(), "the second add is idempotent");
}

#[test]
fn session_removed_topic_not_replayed_after_reconnect() {
    let mut c = Controller::new(public_config());
    c.step(Input::AddTopic(Topic::Ticker("BTC-USDT".to_string())), 1);
    c.step(Input::AddTopic(Topic::Ticker("ETH-USDT".to_string())), 2);
    c.step(Input::Start, 3);
    c.step(Input::ConnectOk, 4);
    c.step(Input::Inbound(Frame::Text(sub_ack("BTC-USDT"))), 5);
    c.step(Input::Inbound(Frame::Text(sub_ack("ETH-USDT"))), 6);
    assert_eq!(c.state, SessionState::Live);

    c.step(Input::RemoveTopic(Topic::Ticker("BTC-USDT".to_string())), 7);
    let a = c.step(Input::TransportError, 8);
    assert!(matches!(a.as_slice(), [Action::StartBackoff(_)]));
    assert_eq!(c.state, SessionState::Reconnecting);

    let a = c.step(Input::BackoffElapsed, 9);
    assert!(matches!(a.as_slice(), [Action::Connect]));
    let a = c.step(Input::ConnectOk, 10);
    match a.as_slice() {
        [Action::SendSubscribe(topics)] => {
            assert_eq!(topics.len(), 1);
            assert!(matches!(&topics[0], Topic::Ticker(i) if i == "ETH-USDT"));
        },
        _ => panic!("the reconnect replays the registry once"),
    }
}

#[test]
fn session_reconnect_replays_both_topics_before_next_ticker() {
    let mut c = Controller::new(public_config());
    c.step(Input::AddTopic(Topic::Ticker("BTC-USDT".to_string())), 1);
    c.step(Input::AddTopic(Topic::Ticker("ETH-USDT".to_string())), 2);
    c.step(Input::Start, 3);
    c.step(Input::ConnectOk, 4);
    c.step(Input::Inbound(Frame::Text(sub_ack("BTC-USDT"))), 5);
    c.step(Input::Inbound(Frame::Text(sub_ack("ETH-USDT"))), 6);
    let a = c.step(Input::Inbound(Frame::Text(ticker_text("BTC-USDT"))), 7);
    assert!(matches!(&a[0], Action::Emit(_)));

    // The transport drops; the way back up resubscribes everything in one
    // batch before any further ticker can be delivered.
    c.step(Input::PeerClosed, 8);
    assert_eq!(c.state, SessionState::Reconnecting);
    let a = c.step(Input::BackoffElapsed, 9);
    assert!(a.iter().all(|x| !matches!(x, Action::Emit(_))));
    let a = c.step(Input::ConnectOk, 10);
    assert!(a.iter().all(|x| !matches!(x, Action::Emit(_))));
    match a.as_slice() {
        [Action::SendSubscribe(topics)] => {
            assert_eq!(topics.len(), 2);
            assert!(matches!(&topics[0], Topic::Ticker(i) if i == "BTC-USDT"));
            assert!(matches!(&topics[1], Topic::Ticker(i) if i == "ETH-USDT"));
        },
        _ => panic!("one batched subscribe frame carries the whole registry"),
    }
    assert_eq!(c.state, SessionState::Subscribing);
}

#[test]
fn session_add_while_subscribing_subscribes_at_once() {
    let mut c = Controller::new(public_config());
    c.step(Input::AddTopic(Topic::Ticker("BTC-USDT".to_string())), 1);
    c.step(Input::Start, 2);
    c.step(Input::ConnectOk, 3);
    assert_eq!(c.state, SessionState::Subscribing);

    // A topic added while the replay is still being acknowledged goes out
    // on this same connection, and its acknowledgement is awaited too.
    let a = c.step(Input::AddTopic(Topic::Ticker("ETH-USDT".to_string())), 4);
    match a.as_slice() {
        [Action::SendSubscribe(topics)] => {
            assert_eq!(topics.len(), 1);
            assert!(matches!(&topics[0], Topic::Ticker(i) if i == "ETH-USDT"));
        },
        _ => panic!("the newcomer is subscribed on this connection"),
    }
    assert_eq!(c.pending_acks, 2);

    c.step(Input::Inbound(Frame::Text(sub_ack("BTC-USDT"))), 5);
    assert_eq!(c.state, SessionState::Subscribing, "one acknowledgement is still owed");
    c.step(Input::Inbound(Frame::Text(sub_ack("ETH-USDT"))), 6);
    assert_eq!(c.state, SessionState::Live);
}

#[test]
fn session_ticker_held_back_until_live() {
    let mut c = Controller::new(public_config());
    c.step(Input::AddTopic(Topic::Ticker("BTC-USDT".to_string())), 1);
    c.step(Input::Start, 2);
    c.step(Input::ConnectOk, 3);
    assert_eq!(c.state, SessionState::Subscribing);

    // A row arriving before the acknowledgement is delivered to nobody.
    let a = c.step(Input::Inbound(Frame::Text(ticker_text("BTC-USDT"))), 4);
    assert!(a.is_empty(), "no ticker reaches a consumer while resubscribing");

    // The acknowledgement completes the replay: the held-back row comes
    // first, the acknowledgement's own event after it, identically stamped.
    let a = c.step(Input::Inbound(Frame::Text(sub_ack("BTC-USDT"))), 5);
    assert_eq!(c.state, SessionState::Live);
    assert_eq!(a.len(), 2);
    match (&a[0], &a[1]) {
        (Action::Emit(row), Action::Emit(ack)) => {
            assert!(matches!(&row.event, Event::Ticker { .. }));
            assert!(matches!(&ack.event, Event::Subscribed { .. }));
            assert_eq!(row.ingest_ts_micros, 5);
            assert_eq!(ack.ingest_ts_micros, 5);
        },
        _ => panic!("the held-back row is flushed at the live transition"),
    }
}

#[test]
fn session_idle_timeout_triggers_reconnect() {
    let mut c = Controller::new(public_config());
    c.step(Input::Start, 0);
    c.step(Input::ConnectOk, 1_000_000);
    assert_eq!(c.state, SessionState::Live);

    // One microsecond short of the idle limit: nothing happens.
    let a = c.step(Input::Tick, 1_000_000 + 40_000_000 - 1);
    assert_eq!(c.state, SessionState::Live);
    assert!(a.iter().all(|x| !matches!(x, Action::StartBackoff(_))));

    // Exactly the idle limit: reconnect.
    let a = c.step(Input::Tick, 1_000_000 + 40_000_000);
    assert_eq!(c.state, SessionState::Reconnecting);
    assert!(matches!(a.as_slice(), [Action::StartBackoff(1000)]));
}

#[test]
fn session_keepalive_ping_on_outbound_idle() {
    let mut c = Controller::new(public_config());
    c.step(Input::Start, 0);
    c.step(Input::ConnectOk, 0);
    // Inbound traffic keeps the idle clock fresh, outbound stays quiet.
    let a = c.step(Input::Inbound(Frame::Text(ticker_text("BTC-USDT"))), 24_000_000);
    assert_eq!(a.len(), 1);
    let a = c.step(Input::Tick, 25_000_000);
    assert!(matches!(a.as_slice(), [Action::SendPing]));
}

#[test]
fn session_backoff_doubles_to_cap() {
    let mut c = Controller::new(public_config());
    c.step(Input::Start, 1);
    let mut expected: u64 = 1000;
    for i in 0..8 {
        let a = c.step(Input::ConnectFailed, 2 + i);
        match a.as_slice() {
            [Action::StartBackoff(ms)] => assert_eq!(*ms, expected),
            _ => panic!("a failed connect schedules a backoff"),
        }
        expected = (expected * 2).min(30_000);
        let a = c.step(Input::BackoffElapsed, 3 + i);
        assert!(matches!(a.as_slice(), [Action::Connect]));
    }
}

#[test]
fn session_stop_is_idempotent() {
    let mut c = Controller::new(public_config());
    c.step(Input::Start, 1);
    c.step(Input::ConnectOk, 2);
    let a = c.step(Input::Stop, 3);
    assert!(
        matches!(a.as_slice(), [Action::SendClose(1000)]),
        "one close frame, with the normal-closure code"
    );
    assert_eq!(c.state, SessionState::Terminated);
    let a = c.step(Input::Stop, 4);
    assert!(a.is_empty());
}

#[test]
fn session_live_protocol_error_keeps_session_live() {
    let mut c = Controller::new(public_config());
    c.step(Input::Start, 1);
    c.step(Input::ConnectOk, 2);
    assert_eq!(c.state, SessionState::Live);
    let err = "{\"event\":\"error\",\"code\":\"60012\",\"msg\":\"bad request\"}";
    let a = c.step(Input::Inbound(Frame::Text(err.to_string())), 3);
    assert_eq!(c.state, SessionState::Live, "venue errors while live are forwarded only");
    assert!(matches!(&a[0], Action::Emit(te) if matches!(&te.event, Event::ProtocolError { .. })));
}
