//! The library's laws: properties of the classifier and of the session
//! state machine that hold for all inputs, each proved against the
//! transition function `step_spec`.

use vstd::prelude::*;
use crate::types::{TopicV, FrameV, EventV, TimestampedEventV};
use crate::registry::{no_dup, lemma_remove_topic_not_contains};
use crate::dispatch::stamp_spec;
use crate::classify::{classify_spec, jv_bid_px, ticker_row_event};
use crate::decimal::dec_of;
use crate::json::Jv;
use crate::session::{
    ControllerV, InputV, ActionV, step_spec, event_step_spec, events_step_spec,
};

verus! {

pub open spec fn emit_ts(a: ActionV) -> u64
    recommends
        a is Emit,
{
    a->Emit_0.ingest_ts_micros
}

/// One event's effect on the clock: it never goes backwards, and every
/// delivery the event causes — the event itself, or rows flushed at the
/// live transition — carries one and the same stamp, the clock's value
/// after the step. (A ticker held back while resubscribing delivers
/// nothing and leaves the clock alone.)
pub proof fn lemma_event_step_emits(c: ControllerV, ev: EventV, now: u64)
    ensures
        ({
            let (c1, a1) = event_step_spec(c, ev, now);
            &&& c.last_ts_us <= c1.last_ts_us
            &&& c1.last_ts_us <= stamp_spec(c.last_ts_us, now)
            &&& forall|i: int|
                0 <= i < a1.len() && a1[i] is Emit ==> emit_ts(a1[i]) == c1.last_ts_us
                    && c1.last_ts_us == stamp_spec(c.last_ts_us, now)
        }),
{
}

/// Law: within one session, ingestion timestamps are monotone
/// non-decreasing: over one classified frame, every delivered event
/// carries a stamp between the clock's value before and after, and the
/// deliveries are stamped in non-decreasing order.
pub proof fn lemma_events_emit_monotone(c: ControllerV, evs: Seq<EventV>, now: u64)
    ensures
        ({
            let (c2, acts) = events_step_spec(c, evs, now);
            &&& c2.last_ts_us >= c.last_ts_us
            &&& forall|i: int|
                0 <= i < acts.len() && acts[i] is Emit ==> c.last_ts_us <= emit_ts(acts[i])
                    <= c2.last_ts_us
            &&& forall|i: int, j: int|
                0 <= i < j < acts.len() && acts[i] is Emit && acts[j] is Emit ==> emit_ts(
                    acts[i],
                ) <= emit_ts(acts[j])
        }),
    decreases evs.len(),
{
    if evs.len() == 0 {
    } else {
        let (c1, a1) = event_step_spec(c, evs.first(), now);
        lemma_event_step_emits(c, evs.first(), now);
        lemma_events_emit_monotone(c1, evs.drop_first(), now);
        let (c2, a2) = events_step_spec(c1, evs.drop_first(), now);
        let acts = a1.add(a2);
        assert forall|i: int|
            0 <= i < acts.len() && acts[i] is Emit implies c.last_ts_us <= emit_ts(acts[i])
            <= c2.last_ts_us by {
            if i < a1.len() {
                assert(acts[i] == a1[i]);
            } else {
                assert(acts[i] == a2[i - a1.len()]);
            }
        }
        assert forall|i: int, j: int|
            0 <= i < j < acts.len() && acts[i] is Emit && acts[j] is Emit implies emit_ts(acts[i])
            <= emit_ts(acts[j]) by {
            if j < a1.len() {
                assert(acts[i] == a1[i]);
                assert(acts[j] == a1[j]);
            } else if i < a1.len() {
                assert(acts[i] == a1[i]);
                assert(acts[j] == a2[j - a1.len()]);
                assert(emit_ts(acts[i]) == c1.last_ts_us);
            } else {
                assert(acts[i] == a2[i - a1.len()]);
                assert(acts[j] == a2[j - a1.len()]);
            }
        }
    }
}

/// Law: `ingest_ts_micros` is monotone non-decreasing within a session.
/// One step never moves the ingestion clock backwards; every event it
/// delivers is stamped between the clock's value at entry and at exit, in
/// non-decreasing order. Chained over the session's steps — each step's
/// exit clock is the next step's entry clock — every delivered timestamp
/// is at least every earlier one.
pub proof fn lemma_step_emits_monotone(c: ControllerV, inp: InputV, now: u64)
    ensures
        ({
            let (c2, acts) = step_spec(c, inp, now);
            &&& c2.last_ts_us >= c.last_ts_us
            &&& forall|i: int|
                0 <= i < acts.len() && acts[i] is Emit ==> c.last_ts_us <= emit_ts(acts[i])
                    <= c2.last_ts_us
            &&& forall|i: int, j: int|
                0 <= i < j < acts.len() && acts[i] is Emit && acts[j] is Emit ==> emit_ts(
                    acts[i],
                ) <= emit_ts(acts[j])
        }),
{
    match inp {
        InputV::Inbound(f) => match f {
            FrameV::Text(t) => {
                if !(c.state is Disconnected) && !(c.state is Terminated) {
                    let c_in = ControllerV { last_inbound_us: now, ..c };
                    lemma_events_emit_monotone(c_in, classify_spec(t), now);
                }
            },
            _ => {},
        },
        _ => {},
    }
}

/// Law: the classifier is total: every text frame yields at least one
/// event. (Together with `step`, whose only precondition is
/// well-formedness, no input can crash the controller.)
pub proof fn lemma_classifier_total(text: Seq<char>)
    ensures
        classify_spec(text).len() >= 1,
{
}

/// Law: a ticker row whose `bidPx` is missing or does not parse as a
/// decimal is reported as a protocol error — never forwarded with a
/// default price.
pub proof fn lemma_bad_price_never_defaults(inst: Seq<char>, row: Jv)
    requires
        jv_bid_px(row) is None || dec_of(jv_bid_px(row)->Some_0) is None,
    ensures
        ticker_row_event(inst, row) is ProtocolError,
        !(ticker_row_event(inst, row) is Ticker),
{
}

/// Law: a transport ping is answered within the same step by a pong
/// carrying the identical payload, and by nothing else.
pub proof fn lemma_ping_answered_same_payload(c: ControllerV, p: Seq<u8>, now: u64)
    requires
        !(c.state is Disconnected),
        !(c.state is Terminated),
    ensures
        ({
            let (c2, acts) = step_spec(c, InputV::Inbound(FrameV::Ping(p)), now);
            acts == seq![ActionV::SendPong(p)]
        }),
{
}

/// Law: reaching `Subscribing` from a fresh public connection sends
/// exactly one subscribe frame, carrying every registered topic, each
/// exactly once (the registry is duplicate-free).
pub proof fn lemma_connect_replays_registry(c: ControllerV, now: u64)
    requires
        c.wf(),
        c.state is Connecting,
        c.cfg.kind is Public,
        c.registry.len() > 0,
    ensures
        ({
            let (c2, acts) = step_spec(c, InputV::ConnectOk, now);
            &&& c2.state is Subscribing
            &&& c2.registry == c.registry
            &&& acts == seq![ActionV::SendSubscribe(c.registry)]
            &&& no_dup(c.registry)
        }),
{
}

/// Law: on a private session the registry is replayed the same way, right
/// after the login acknowledgement.
pub proof fn lemma_login_ack_replays_registry(c: ControllerV, ev: EventV, now: u64)
    requires
        c.wf(),
        c.state is Authenticating,
        ev is Unknown,
        c.registry.len() > 0,
    ensures
        ({
            let (c2, acts) = event_step_spec(c, ev, now);
            &&& c2.state is Subscribing
            &&& c2.registry == c.registry
            &&& acts.len() == 2
            &&& acts[1] == ActionV::SendSubscribe(c.registry)
        }),
{
}

/// Law: re-entering the connected path after `Reconnecting` replays the
/// unchanged registry in full, and nothing is delivered to consumers
/// before that subscribe frame is sent. The stronger half — no ticker is
/// delivered until every acknowledgement is in — is
/// `lemma_ticker_held_back_while_subscribing` with
/// `lemma_live_entry_flushes_deferred`.
pub proof fn lemma_reconnect_replays_before_tickers(c: ControllerV, now1: u64, now2: u64)
    requires
        c.wf(),
        c.state is Reconnecting,
        c.cfg.kind is Public,
    ensures
        ({
            let (c1, a1) = step_spec(c, InputV::BackoffElapsed, now1);
            let (c2, a2) = step_spec(c1, InputV::ConnectOk, now2);
            &&& c1.registry == c.registry
            &&& c2.registry == c.registry
            &&& (c.registry.len() > 0 ==> c2.state is Subscribing && a2 == seq![
                ActionV::SendSubscribe(c.registry),
            ])
            &&& (c.registry.len() == 0 ==> c2.state is Live)
            &&& forall|i: int| 0 <= i < a1.len() ==> !(a1[i] is Emit)
            &&& forall|i: int| 0 <= i < a2.len() ==> !(a2[i] is Emit)
        }),
{
}

/// Law: no ticker reaches a consumer while the registry's resubscription
/// is still being acknowledged: a ticker arriving in `Subscribing` causes
/// no action at all; it is held back.
pub proof fn lemma_ticker_held_back_while_subscribing(c: ControllerV, ev: EventV, now: u64)
    requires
        c.state is Subscribing,
        ev is Ticker,
    ensures
        ({
            let (c1, a1) = event_step_spec(c, ev, now);
            &&& a1 == Seq::<ActionV>::empty()
            &&& c1.deferred == c.deferred.push(ev)
            &&& c1.state is Subscribing
        }),
{
}

/// Law: the registry is fully re-subscribed — every acknowledgement in —
/// before any new ticker is emitted: the rows held back are delivered at
/// the live transition, oldest first, and only there.
pub proof fn lemma_live_entry_flushes_deferred(c: ControllerV, ev: EventV, now: u64)
    requires
        c.state is Subscribing,
        ev is Subscribed,
        c.pending_acks <= 1,
    ensures
        ({
            let (c1, a1) = event_step_spec(c, ev, now);
            let ts = stamp_spec(c.last_ts_us, now);
            &&& c1.state is Live
            &&& c1.deferred == Seq::<EventV>::empty()
            &&& a1.len() == c.deferred.len() + 1
            &&& forall|i: int|
                0 <= i < c.deferred.len() ==> a1[i] == ActionV::Emit(
                    TimestampedEventV { ingest_ts_micros: ts, event: c.deferred[i] },
                )
            &&& a1.last() == ActionV::Emit(TimestampedEventV { ingest_ts_micros: ts, event: ev })
        }),
{
    let flushed = Seq::new(
        c.deferred.len(),
        |i: int| ActionV::Emit(TimestampedEventV { ingest_ts_micros: stamp_spec(c.last_ts_us, now), event: c.deferred[i] }),
    );
    assert(event_step_spec(c, ev, now).1 =~= flushed.push(
        ActionV::Emit(
            TimestampedEventV { ingest_ts_micros: stamp_spec(c.last_ts_us, now), event: ev },
        ),
    ));
}

/// Law: a topic added while the replay is still being acknowledged is
/// subscribed at once on the same connection — one frame, one more
/// acknowledgement expected — so this connection too sends exactly one
/// frame for it.
pub proof fn lemma_add_while_subscribing_sends_frame(c: ControllerV, t: TopicV, now: u64)
    requires
        c.wf(),
        c.state is Subscribing,
        !c.registry.contains(t),
    ensures
        ({
            let (c1, a1) = step_spec(c, InputV::AddTopic(t), now);
            &&& a1 == seq![ActionV::SendSubscribe(seq![t])]
            &&& c1.registry == c.registry.push(t)
            &&& c1.pending_acks == c.pending_acks + 1
        }),
{
}

/// Law: adding the same topic twice while live produces exactly one
/// subscribe frame; the second request is a no-op.
pub proof fn lemma_add_twice_one_subscribe(c: ControllerV, t: TopicV, now1: u64, now2: u64)
    requires
        c.wf(),
        c.state is Live,
        !c.registry.contains(t),
    ensures
        ({
            let (c1, a1) = step_spec(c, InputV::AddTopic(t), now1);
            let (c2, a2) = step_spec(c1, InputV::AddTopic(t), now2);
            &&& a1 == seq![ActionV::SendSubscribe(seq![t])]
            &&& a2 == Seq::<ActionV>::empty()
            &&& c2.registry == c.registry.push(t)
        }),
{
    let c1 = step_spec(c, InputV::AddTopic(t), now1).0;
    assert(c1.registry == c.registry.push(t));
    assert(c.registry.push(t)[c.registry.len() as int] == t);
    assert(c1.registry.contains(t));
}

/// Law: a removed topic is not resubscribed by a reconnection: no
/// subscribe frame sent on the way back up carries it.
pub proof fn lemma_removed_topic_not_replayed(
    c: ControllerV,
    t: TopicV,
    now1: u64,
    now2: u64,
    now3: u64,
    now4: u64,
)
    requires
        c.wf(),
        c.state is Live,
    ensures
        ({
            let (c1, a1) = step_spec(c, InputV::RemoveTopic(t), now1);
            let (c2, a2) = step_spec(c1, InputV::TransportError, now2);
            let (c3, a3) = step_spec(c2, InputV::BackoffElapsed, now3);
            let (c4, a4) = step_spec(c3, InputV::ConnectOk, now4);
            &&& !c4.registry.contains(t)
            &&& forall|i: int|
                0 <= i < a4.len() && a4[i] is SendSubscribe ==> !a4[i]->SendSubscribe_0.contains(
                    t,
                )
        }),
{
    lemma_remove_topic_not_contains(c.registry, t);
}

/// Law: a live session with no inbound frame for exactly the configured
/// idle timeout reconnects on the next tick.
pub proof fn lemma_idle_timeout_reconnects(c: ControllerV, now: u64)
    requires
        c.wf(),
        c.state is Live,
        crate::session::elapsed(now, c.last_inbound_us) == c.cfg.idle_timeout_s * 1000000,
    ensures
        ({
            let (c2, acts) = step_spec(c, InputV::Tick, now);
            &&& c2.state is Reconnecting
            &&& acts == seq![ActionV::StartBackoff(c.backoff_ms)]
        }),
{
}

} // verus!
