//! The session controller: one WebSocket session's lifecycle as a pure,
//! total transition function. The surrounding runtime owns the transport;
//! it feeds the controller inputs (connection outcomes, inbound frames,
//! timer ticks, subscription commands) and performs the actions the
//! controller returns (connect, send a frame, sleep a backoff, deliver an
//! event). Every transition is given by `step_spec`.

use vstd::prelude::*;
use crate::types::{Topic, TopicV, Frame, FrameV, Event, EventV, TimestampedEvent, TimestampedEventV};
use crate::registry::{Registry, no_dup, remove_topic};
use crate::dispatch::{Stamper, stamp_spec};
use crate::classify::{classify_spec, classify};
use crate::types::str_eq;

verus! {

#[derive(Clone, Copy, PartialEq, Eq, Structural, Debug)]
pub enum SessionKind {
    Public,
    Private,
}

#[derive(Clone, Copy, PartialEq, Eq, Structural, Debug)]
pub enum SessionState {
    Disconnected,
    Connecting,
    Authenticating,
    Subscribing,
    Live,
    Reconnecting,
    Terminated,
}

#[derive(Clone, Copy, PartialEq, Eq, Structural, Debug)]
pub enum FatalKind {
    /// A private session without credentials never leaves the ground.
    MissingCredentials,
    /// The venue rejected the login; retrying blindly is wrong.
    AuthFailure,
}

#[derive(Clone, Copy, PartialEq, Eq, Structural, Debug)]
pub enum WarnKind {
    /// A batch-order response with a non-zero venue code.
    BatchOrderError,
    /// A consumer queue was full and an event was dropped for it.
    SlowConsumer,
}

/// Per-session configuration. Bounds on the intervals keep every
/// microsecond computation inside a machine word.
#[derive(Clone, Copy, PartialEq, Eq, Structural, Debug)]
pub struct Config {
    pub kind: SessionKind,
    pub has_credentials: bool,
    pub keepalive_interval_s: u64,
    pub idle_timeout_s: u64,
    pub backoff_initial_s: u64,
    pub backoff_max_s: u64,
}

impl Config {
    pub open spec fn wf(&self) -> bool {
        &&& 1 <= self.keepalive_interval_s <= 86400
        &&& 1 <= self.idle_timeout_s <= 86400
        &&& 1 <= self.backoff_initial_s <= self.backoff_max_s
        &&& self.backoff_max_s <= 3600
    }

    pub fn valid(&self) -> (b: bool)
        ensures
            b == self.wf(),
    {
        1 <= self.keepalive_interval_s && self.keepalive_interval_s <= 86400
            && 1 <= self.idle_timeout_s && self.idle_timeout_s <= 86400
            && 1 <= self.backoff_initial_s && self.backoff_initial_s <= self.backoff_max_s
            && self.backoff_max_s <= 3600
    }
}

pub const CONNECT_TIMEOUT_US: u64 = 10000000;
pub const PHASE_TIMEOUT_US: u64 = 5000000;

/// The WebSocket status code of a normal closure.
pub const NORMAL_CLOSE_CODE: u16 = 1000;

/// An input to the controller.
pub enum Input {
    Start,
    ConnectOk,
    ConnectFailed,
    Inbound(Frame),
    TransportError,
    PeerClosed,
    BackoffElapsed,
    Tick,
    AddTopic(Topic),
    RemoveTopic(Topic),
    Stop,
}

pub enum InputV {
    Start,
    ConnectOk,
    ConnectFailed,
    Inbound(FrameV),
    TransportError,
    PeerClosed,
    BackoffElapsed,
    Tick,
    AddTopic(TopicV),
    RemoveTopic(TopicV),
    Stop,
}

impl View for Input {
    type V = InputV;

    open spec fn view(&self) -> InputV {
        match self {
            Input::Start => InputV::Start,
            Input::ConnectOk => InputV::ConnectOk,
            Input::ConnectFailed => InputV::ConnectFailed,
            Input::Inbound(f) => InputV::Inbound(f@),
            Input::TransportError => InputV::TransportError,
            Input::PeerClosed => InputV::PeerClosed,
            Input::BackoffElapsed => InputV::BackoffElapsed,
            Input::Tick => InputV::Tick,
            Input::AddTopic(t) => InputV::AddTopic(t@),
            Input::RemoveTopic(t) => InputV::RemoveTopic(t@),
            Input::Stop => InputV::Stop,
        }
    }
}

/// An action for the runtime to perform, in order.
pub enum Action {
    /// Open the transport to the session's URL.
    Connect,
    /// Build, sign and send the login frame (private sessions).
    SendLogin,
    /// Send one subscribe frame carrying these topics.
    SendSubscribe(Vec<Topic>),
    /// Send the application-level keepalive.
    SendPing,
    /// Answer a transport ping with this exact payload.
    SendPong(Vec<u8>),
    /// Send a close frame with this status code.
    SendClose(u16),
    /// Sleep this many milliseconds (after `jittered_backoff_ms`), then
    /// feed `BackoffElapsed`.
    StartBackoff(u64),
    /// Deliver one timestamped event to the consumers.
    Emit(TimestampedEvent),
    Warn(WarnKind),
    Fatal(FatalKind),
}

pub enum ActionV {
    Connect,
    SendLogin,
    SendSubscribe(Seq<TopicV>),
    SendPing,
    SendPong(Seq<u8>),
    SendClose(u16),
    StartBackoff(u64),
    Emit(TimestampedEventV),
    Warn(WarnKind),
    Fatal(FatalKind),
}

impl View for Action {
    type V = ActionV;

    open spec fn view(&self) -> ActionV {
        match self {
            Action::Connect => ActionV::Connect,
            Action::SendLogin => ActionV::SendLogin,
            Action::SendSubscribe(ts) => ActionV::SendSubscribe(ts@.map_values(|t: Topic| t@)),
            Action::SendPing => ActionV::SendPing,
            Action::SendPong(p) => ActionV::SendPong(p@),
            Action::SendClose(code) => ActionV::SendClose(*code),
            Action::StartBackoff(ms) => ActionV::StartBackoff(*ms),
            Action::Emit(e) => ActionV::Emit(e@),
            Action::Warn(w) => ActionV::Warn(*w),
            Action::Fatal(f) => ActionV::Fatal(*f),
        }
    }
}

/// The controller's mathematical state.
#[verifier::ext_equal]
pub struct ControllerV {
    pub cfg: Config,
    pub state: SessionState,
    pub registry: Seq<TopicV>,
    pub pending_acks: int,
    pub backoff_ms: u64,
    pub last_inbound_us: u64,
    pub last_outbound_us: u64,
    pub last_ts_us: u64,
    pub phase_start_us: u64,
    /// Ticker events that arrived while the registry's resubscription was
    /// still being acknowledged; delivered, oldest first, at the live
    /// transition.
    pub deferred: Seq<EventV>,
}

impl ControllerV {
    pub open spec fn wf(&self) -> bool {
        &&& self.cfg.wf()
        &&& no_dup(self.registry)
        &&& 1 <= self.backoff_ms <= self.cfg.backoff_max_s * 1000
        &&& 0 <= self.pending_acks <= self.registry.len()
        &&& (!(self.state is Subscribing) ==> self.pending_acks == 0)
        &&& (!(self.state is Subscribing) ==> self.deferred.len() == 0)
    }
}

pub open spec fn initial_backoff_ms(cfg: Config) -> u64 {
    (cfg.backoff_initial_s * 1000) as u64
}

/// Doubling with a cap.
pub open spec fn next_backoff_ms(cfg: Config, cur: u64) -> u64 {
    if 2 * cur <= cfg.backoff_max_s * 1000 {
        (2 * cur) as u64
    } else {
        (cfg.backoff_max_s * 1000) as u64
    }
}

pub open spec fn elapsed(now: u64, since: u64) -> int {
    if now >= since {
        now - since
    } else {
        0
    }
}

/// Enter `Reconnecting`: schedule the current backoff, double it for the
/// next failure, forget pending acknowledgements, and drop rows held back
/// on the torn connection — they would be stale after the replay.
pub open spec fn to_reconnecting(c: ControllerV) -> (ControllerV, Seq<ActionV>) {
    (
        ControllerV {
            state: SessionState::Reconnecting,
            pending_acks: 0,
            backoff_ms: next_backoff_ms(c.cfg, c.backoff_ms),
            deferred: Seq::<EventV>::empty(),
            ..c
        },
        seq![ActionV::StartBackoff(c.backoff_ms)],
    )
}

/// The backoff actually slept: the base spread a fifth either way by a
/// draw the caller supplies (the library takes no randomness itself).
pub open spec fn jittered_ms_spec(base_ms: u64, draw: u64) -> u64 {
    let fifth = base_ms as int / 5;
    if fifth == 0 {
        base_ms
    } else {
        (base_ms - fifth + (draw as int) % (2 * fifth + 1)) as u64
    }
}

/// Spread a backoff by the configured jitter. The bound on the base is
/// the largest backoff a well-formed configuration can schedule.
pub fn jittered_backoff_ms(base_ms: u64, draw: u64) -> (r: u64)
    requires
        base_ms <= 3600000,
    ensures
        r == jittered_ms_spec(base_ms, draw),
        base_ms - base_ms / 5 <= r <= base_ms + base_ms / 5,
{
    let fifth = base_ms / 5;
    if fifth == 0 {
        base_ms
    } else {
        base_ms - fifth + draw % (2 * fifth + 1)
    }
}

/// Replay the registry: one subscribe frame carrying every registered
/// topic, then wait for as many acknowledgements; an empty registry goes
/// straight to `Live`.
pub open spec fn enter_subscribing(c: ControllerV, now: u64) -> (ControllerV, Seq<ActionV>) {
    if c.registry.len() == 0 {
        (
            ControllerV {
                state: SessionState::Live,
                backoff_ms: initial_backoff_ms(c.cfg),
                pending_acks: 0,
                phase_start_us: now,
                ..c
            },
            Seq::<ActionV>::empty(),
        )
    } else {
        (
            ControllerV {
                state: SessionState::Subscribing,
                pending_acks: c.registry.len() as int,
                phase_start_us: now,
                last_outbound_us: now,
                ..c
            },
            seq![ActionV::SendSubscribe(c.registry)],
        )
    }
}

/// A venue error code that concerns the login.
pub open spec fn is_auth_error_code(code: Seq<char>) -> bool {
    ||| code == "60004"@
    ||| code == "60005"@
    ||| code == "60006"@
    ||| code == "60007"@
    ||| code == "60008"@
    ||| code == "60009"@
}

/// The effect of one classified event: it is always delivered, stamped
/// with the monotone ingestion clock; some events also move the state
/// machine.
pub open spec fn event_step_spec(c: ControllerV, ev: EventV, now: u64) -> (
    ControllerV,
    Seq<ActionV>,
) {
    let ts = stamp_spec(c.last_ts_us, now);
    let c1 = ControllerV { last_ts_us: ts, ..c };
    let emit = ActionV::Emit(TimestampedEventV { ingest_ts_micros: ts, event: ev });
    match c.state {
        SessionState::Authenticating => match ev {
            EventV::ProtocolError { code, .. } => if is_auth_error_code(code) {
                (
                    ControllerV { state: SessionState::Terminated, ..c1 },
                    seq![
                        emit,
                        ActionV::Fatal(FatalKind::AuthFailure),
                        ActionV::SendClose(NORMAL_CLOSE_CODE),
                    ],
                )
            } else {
                let (c2, acts) = to_reconnecting(c1);
                (c2, seq![emit].add(acts))
            },
            EventV::Unknown { .. } => {
                // The venue's login acknowledgement matches no classified
                // shape; an unclassified document while authenticating is
                // taken as the acknowledgement.
                let (c2, acts) = enter_subscribing(c1, now);
                (c2, seq![emit].add(acts))
            },
            _ => (c1, seq![emit]),
        },
        SessionState::Subscribing => match ev {
            EventV::Subscribed { .. } => if c.pending_acks <= 1 {
                // The last acknowledgement: the registry is fully
                // re-subscribed. Deliver the rows held back meanwhile,
                // oldest first (their source frames came earlier than
                // this one), then the acknowledgement itself.
                let flushed = Seq::new(
                    c.deferred.len(),
                    |i: int| ActionV::Emit(
                        TimestampedEventV { ingest_ts_micros: ts, event: c.deferred[i] },
                    ),
                );
                (
                    ControllerV {
                        state: SessionState::Live,
                        pending_acks: 0,
                        backoff_ms: initial_backoff_ms(c.cfg),
                        deferred: Seq::<EventV>::empty(),
                        ..c1
                    },
                    flushed.add(seq![emit]),
                )
            } else {
                (ControllerV { pending_acks: c.pending_acks - 1, ..c1 }, seq![emit])
            },
            EventV::Ticker { .. } => (
                // No ticker reaches a consumer until the whole registry
                // is re-subscribed: hold the row back, unstamped.
                ControllerV { deferred: c.deferred.push(ev), ..c },
                Seq::<ActionV>::empty(),
            ),
            EventV::ProtocolError { .. } => {
                let (c2, acts) = to_reconnecting(c1);
                (c2, seq![emit].add(acts))
            },
            _ => (c1, seq![emit]),
        },
        SessionState::Live => match ev {
            EventV::BatchOrderAck { code, .. } => if code != "0"@ {
                (c1, seq![emit, ActionV::Warn(WarnKind::BatchOrderError)])
            } else {
                (c1, seq![emit])
            },
            _ => (c1, seq![emit]),
        },
        _ => (c1, seq![emit]),
    }
}

/// The effect of a whole classified frame, front to back.
pub open spec fn events_step_spec(c: ControllerV, evs: Seq<EventV>, now: u64) -> (
    ControllerV,
    Seq<ActionV>,
)
    decreases evs.len(),
{
    if evs.len() == 0 {
        (c, Seq::<ActionV>::empty())
    } else {
        let (c1, a1) = event_step_spec(c, evs.first(), now);
        let (c2, a2) = events_step_spec(c1, evs.drop_first(), now);
        (c2, a1.add(a2))
    }
}

pub open spec fn is_connected(s: SessionState) -> bool {
    s is Connecting || s is Authenticating || s is Subscribing || s is Live
}

/// One inbound frame. A text frame is classified and its events applied;
/// a transport ping is answered at once with the identical payload; a
/// close from the peer is a transient failure.
pub open spec fn frame_step_spec(c: ControllerV, f: FrameV, now: u64) -> (
    ControllerV,
    Seq<ActionV>,
) {
    if !is_connected(c.state) && !(c.state is Reconnecting) {
        (c, Seq::<ActionV>::empty())
    } else {
        let c_in = ControllerV { last_inbound_us: now, ..c };
        match f {
            FrameV::Text(t) => events_step_spec(c_in, classify_spec(t), now),
            FrameV::Ping(p) => (
                ControllerV { last_outbound_us: now, ..c_in },
                seq![ActionV::SendPong(p)],
            ),
            FrameV::Pong(_) => (c_in, Seq::<ActionV>::empty()),
            FrameV::Binary(_) => (c_in, Seq::<ActionV>::empty()),
            FrameV::Close => to_reconnecting(c_in),
        }
    }
}

/// Timer tick: phase timeouts while bringing the session up; inbound idle
/// and outbound keepalive while live.
pub open spec fn tick_spec(c: ControllerV, now: u64) -> (ControllerV, Seq<ActionV>) {
    match c.state {
        SessionState::Connecting => if elapsed(now, c.phase_start_us) >= CONNECT_TIMEOUT_US {
            to_reconnecting(c)
        } else {
            (c, Seq::<ActionV>::empty())
        },
        SessionState::Authenticating | SessionState::Subscribing => if elapsed(
            now,
            c.phase_start_us,
        ) >= PHASE_TIMEOUT_US {
            to_reconnecting(c)
        } else {
            (c, Seq::<ActionV>::empty())
        },
        SessionState::Live => if elapsed(now, c.last_inbound_us) >= c.cfg.idle_timeout_s
            * 1000000 {
            to_reconnecting(c)
        } else if elapsed(now, c.last_outbound_us) >= c.cfg.keepalive_interval_s * 1000000 {
            (ControllerV { last_outbound_us: now, ..c }, seq![ActionV::SendPing])
        } else {
            (c, Seq::<ActionV>::empty())
        },
        _ => (c, Seq::<ActionV>::empty()),
    }
}

/// The whole transition function: total over states and inputs.
pub open spec fn step_spec(c: ControllerV, inp: InputV, now: u64) -> (ControllerV, Seq<ActionV>) {
    match inp {
        InputV::Start => if c.state is Disconnected {
            if c.cfg.kind is Private && !c.cfg.has_credentials {
                (
                    ControllerV { state: SessionState::Terminated, ..c },
                    seq![ActionV::Fatal(FatalKind::MissingCredentials)],
                )
            } else {
                (
                    ControllerV {
                        state: SessionState::Connecting,
                        backoff_ms: initial_backoff_ms(c.cfg),
                        phase_start_us: now,
                        ..c
                    },
                    seq![ActionV::Connect],
                )
            }
        } else {
            (c, Seq::<ActionV>::empty())
        },
        InputV::ConnectOk => if c.state is Connecting {
            let c1 = ControllerV { last_inbound_us: now, ..c };
            if c.cfg.kind is Private {
                (
                    ControllerV {
                        state: SessionState::Authenticating,
                        phase_start_us: now,
                        last_outbound_us: now,
                        ..c1
                    },
                    seq![ActionV::SendLogin],
                )
            } else {
                enter_subscribing(c1, now)
            }
        } else {
            (c, Seq::<ActionV>::empty())
        },
        InputV::ConnectFailed => if c.state is Connecting {
            to_reconnecting(c)
        } else {
            (c, Seq::<ActionV>::empty())
        },
        InputV::Inbound(f) => frame_step_spec(c, f, now),
        InputV::TransportError | InputV::PeerClosed => if is_connected(c.state) {
            to_reconnecting(c)
        } else {
            (c, Seq::<ActionV>::empty())
        },
        InputV::BackoffElapsed => if c.state is Reconnecting {
            (
                ControllerV { state: SessionState::Connecting, phase_start_us: now, ..c },
                seq![ActionV::Connect],
            )
        } else {
            (c, Seq::<ActionV>::empty())
        },
        InputV::Tick => tick_spec(c, now),
        InputV::AddTopic(t) => if c.state is Terminated {
            (c, Seq::<ActionV>::empty())
        } else if c.registry.contains(t) {
            (c, Seq::<ActionV>::empty())
        } else {
            let c1 = ControllerV { registry: c.registry.push(t), ..c };
            if c.state is Live {
                (
                    ControllerV { last_outbound_us: now, ..c1 },
                    seq![ActionV::SendSubscribe(seq![t])],
                )
            } else if c.state is Subscribing {
                // The transport is up and the replay frame has already
                // gone out: subscribe the newcomer at once and expect one
                // more acknowledgement, so that this connection too sends
                // exactly one frame for it.
                (
                    ControllerV {
                        last_outbound_us: now,
                        pending_acks: c.pending_acks + 1,
                        ..c1
                    },
                    seq![ActionV::SendSubscribe(seq![t])],
                )
            } else {
                (c1, Seq::<ActionV>::empty())
            }
        },
        InputV::RemoveTopic(t) => if c.state is Terminated {
            (c, Seq::<ActionV>::empty())
        } else {
            // An acknowledgement owed for a topic no longer wanted must
            // not gate the live transition: keep the count within the
            // registry that remains.
            let reg2 = remove_topic(c.registry, t);
            let pending2 = if c.pending_acks <= reg2.len() {
                c.pending_acks
            } else {
                reg2.len() as int
            };
            (
                ControllerV { registry: reg2, pending_acks: pending2, ..c },
                Seq::<ActionV>::empty(),
            )
        },
        InputV::Stop => if c.state is Terminated {
            (c, Seq::<ActionV>::empty())
        } else {
            // Pending acknowledgements are abandoned; rows held back by an
            // unfinished resubscription go with them.
            (
                ControllerV {
                    state: SessionState::Terminated,
                    pending_acks: 0,
                    deferred: Seq::<EventV>::empty(),
                    ..c
                },
                seq![ActionV::SendClose(NORMAL_CLOSE_CODE)],
            )
        },
    }
}


fn is_auth_code_exec(code: &String) -> (b: bool)
    ensures
        b == is_auth_error_code(code@),
{
    str_eq(code.as_str(), "60004") || str_eq(code.as_str(), "60005") || str_eq(
        code.as_str(),
        "60006",
    ) || str_eq(code.as_str(), "60007") || str_eq(code.as_str(), "60008") || str_eq(
        code.as_str(),
        "60009",
    )
}

fn elapsed_us(now_us: u64, since: u64) -> (e: u64)
    ensures
        e == elapsed(now_us, since),
{
    if now_us >= since {
        now_us - since
    } else {
        0
    }
}

/// The controller's initial state.
pub open spec fn init_controller(cfg: Config) -> ControllerV {
    ControllerV {
        cfg,
        state: SessionState::Disconnected,
        registry: Seq::<TopicV>::empty(),
        pending_acks: 0,
        backoff_ms: initial_backoff_ms(cfg),
        last_inbound_us: 0,
        last_outbound_us: 0,
        last_ts_us: 0,
        phase_start_us: 0,
        deferred: Seq::<EventV>::empty(),
    }
}

/// One session's controller. `step` is its only mutator.
pub struct Controller {
    pub cfg: Config,
    pub state: SessionState,
    pub registry: Registry,
    pub pending_acks: usize,
    pub backoff_ms: u64,
    pub last_inbound_us: u64,
    pub last_outbound_us: u64,
    pub stamper: Stamper,
    pub phase_start_us: u64,
    pub deferred: Vec<Event>,
}

impl View for Controller {
    type V = ControllerV;

    open spec fn view(&self) -> ControllerV {
        ControllerV {
            cfg: self.cfg,
            state: self.state,
            registry: self.registry@,
            pending_acks: self.pending_acks as int,
            backoff_ms: self.backoff_ms,
            last_inbound_us: self.last_inbound_us,
            last_outbound_us: self.last_outbound_us,
            last_ts_us: self.stamper.last_us,
            phase_start_us: self.phase_start_us,
            deferred: self.deferred@.map_values(|e: Event| e@),
        }
    }
}

impl Controller {
    pub fn new(cfg: Config) -> (c: Controller)
        requires
            cfg.wf(),
        ensures
            c@ == init_controller(cfg),
            c@.wf(),
    {
        let c = Controller {
            cfg,
            state: SessionState::Disconnected,
            registry: Registry::new(),
            pending_acks: 0,
            backoff_ms: cfg.backoff_initial_s * 1000,
            last_inbound_us: 0,
            last_outbound_us: 0,
            stamper: Stamper::new(),
            phase_start_us: 0,
            deferred: Vec::new(),
        };
        proof {
            assert(c@.deferred =~= Seq::<EventV>::empty());
            assert(c@ =~= init_controller(cfg));
        }
        c
    }

    fn go_reconnecting(&mut self) -> (acts: Vec<Action>)
        requires
            old(self)@.wf(),
        ensures
            final(self)@.wf(),
            final(self)@ == to_reconnecting(old(self)@).0,
            acts@.map_values(|a: Action| a@) == to_reconnecting(old(self)@).1,
    {
        let b = self.backoff_ms;
        self.state = SessionState::Reconnecting;
        self.pending_acks = 0;
        self.deferred = Vec::new();
        let cap = self.cfg.backoff_max_s * 1000;
        let doubled = b * 2;
        self.backoff_ms = if doubled <= cap {
            doubled
        } else {
            cap
        };
        let out = vec![Action::StartBackoff(b)];
        proof {
            assert(self@ =~= to_reconnecting(old(self)@).0);
            assert(out@.map_values(|a: Action| a@) =~= to_reconnecting(old(self)@).1);
        }
        out
    }

    fn start_subscribing(&mut self, now_us: u64) -> (acts: Vec<Action>)
        requires
            old(self)@.wf(),
            !(old(self)@.state is Subscribing),
        ensures
            final(self)@.wf(),
            final(self)@ == enter_subscribing(old(self)@, now_us).0,
            acts@.map_values(|a: Action| a@) == enter_subscribing(old(self)@, now_us).1,
    {
        if self.registry.len() == 0 {
            self.state = SessionState::Live;
            self.backoff_ms = self.cfg.backoff_initial_s * 1000;
            self.pending_acks = 0;
            self.phase_start_us = now_us;
            let out: Vec<Action> = Vec::new();
            proof {
                assert(self@ =~= enter_subscribing(old(self)@, now_us).0);
                assert(out@.map_values(|a: Action| a@) =~= enter_subscribing(
                    old(self)@,
                    now_us,
                ).1);
            }
            out
        } else {
            self.state = SessionState::Subscribing;
            self.pending_acks = self.registry.len();
            self.phase_start_us = now_us;
            self.last_outbound_us = now_us;
            let snap = self.registry.snapshot();
            let out = vec![Action::SendSubscribe(snap)];
            proof {
                assert(self@ =~= enter_subscribing(old(self)@, now_us).0);
                assert(out@.map_values(|a: Action| a@) =~= enter_subscribing(
                    old(self)@,
                    now_us,
                ).1);
            }
            out
        }
    }

    fn handle_event(&mut self, ev: Event, now_us: u64) -> (acts: Vec<Action>)
        requires
            old(self)@.wf(),
        ensures
            final(self)@.wf(),
            final(self)@ == event_step_spec(old(self)@, ev@, now_us).0,
            acts@.map_values(|a: Action| a@) == event_step_spec(old(self)@, ev@, now_us).1,
    {
        let st = self.state;
        let is_proto_err = match &ev {
            Event::ProtocolError { .. } => true,
            _ => false,
        };
        let is_auth_err = match &ev {
            Event::ProtocolError { code, .. } => is_auth_code_exec(code),
            _ => false,
        };
        let is_unknown = match &ev {
            Event::Unknown { .. } => true,
            _ => false,
        };
        let is_subscribed = match &ev {
            Event::Subscribed { .. } => true,
            _ => false,
        };
        let batch_nonzero = match &ev {
            Event::BatchOrderAck { code, .. } => !str_eq(code.as_str(), "0"),
            _ => false,
        };
        let is_ticker = match &ev {
            Event::Ticker { .. } => true,
            _ => false,
        };
        let subscribing = match st {
            SessionState::Subscribing => true,
            _ => false,
        };
        if subscribing && is_ticker {
            // Held back, unstamped, until the registry's resubscription
            // is acknowledged in full.
            self.deferred.push(ev);
            let out: Vec<Action> = Vec::new();
            proof {
                assert(self@ =~= event_step_spec(old(self)@, ev@, now_us).0);
                assert(out@.map_values(|a: Action| a@) =~= Seq::<ActionV>::empty());
            }
            return out;
        }
        let ts = self.stamper.stamp(now_us);
        let mut acts: Vec<Action> = Vec::new();
        if subscribing && is_subscribed && self.pending_acks <= 1 {
            // The live transition: deliver the rows held back meanwhile,
            // oldest first, then the acknowledgement itself.
            let ghost held = old(self)@.deferred;
            let n = self.deferred.len();
            let mut i: usize = 0;
            proof {
                assert(acts@.map_values(|a: Action| a@) =~= Seq::new(
                    0,
                    |k: int| ActionV::Emit(
                        TimestampedEventV { ingest_ts_micros: ts, event: held[k] },
                    ),
                ));
            }
            while i < n
                invariant
                    i <= n,
                    n == self.deferred@.len(),
                    held == self.deferred@.map_values(|e: Event| e@),
                    acts@.map_values(|a: Action| a@) == Seq::new(
                        i as nat,
                        |k: int| ActionV::Emit(
                            TimestampedEventV { ingest_ts_micros: ts, event: held[k] },
                        ),
                    ),
                decreases n - i,
            {
                let ghost pre = acts@.map_values(|a: Action| a@);
                let row = self.deferred[i].duplicate();
                acts.push(Action::Emit(TimestampedEvent { ingest_ts_micros: ts, event: row }));
                proof {
                    assert(acts@.map_values(|a: Action| a@) =~= pre.push(
                        ActionV::Emit(
                            TimestampedEventV { ingest_ts_micros: ts, event: held[i as int] },
                        ),
                    ));
                    assert(acts@.map_values(|a: Action| a@) =~= Seq::new(
                        (i + 1) as nat,
                        |k: int| ActionV::Emit(
                            TimestampedEventV { ingest_ts_micros: ts, event: held[k] },
                        ),
                    ));
                }
                i += 1;
            }
            self.deferred = Vec::new();
            self.state = SessionState::Live;
            self.pending_acks = 0;
            self.backoff_ms = self.cfg.backoff_initial_s * 1000;
            acts.push(Action::Emit(TimestampedEvent { ingest_ts_micros: ts, event: ev }));
            proof {
                assert(self@.deferred =~= Seq::<EventV>::empty());
                assert(self@ =~= event_step_spec(old(self)@, ev@, now_us).0);
                assert(acts@.map_values(|a: Action| a@) =~= event_step_spec(
                    old(self)@,
                    ev@,
                    now_us,
                ).1);
            }
            return acts;
        }
        acts.push(Action::Emit(TimestampedEvent { ingest_ts_micros: ts, event: ev }));
        let ghost c1 = ControllerV { last_ts_us: ts, ..old(self)@ };
        proof {
            assert(self@ =~= c1);
        }
        match st {
            SessionState::Authenticating => {
                if is_proto_err {
                    if is_auth_err {
                        self.state = SessionState::Terminated;
                        acts.push(Action::Fatal(FatalKind::AuthFailure));
                        acts.push(Action::SendClose(NORMAL_CLOSE_CODE));
                    } else {
                        let mut r = self.go_reconnecting();
                        acts.append(&mut r);
                    }
                } else if is_unknown {
                    let mut r = self.start_subscribing(now_us);
                    acts.append(&mut r);
                }
            },
            SessionState::Subscribing => {
                if is_subscribed {
                    self.pending_acks = self.pending_acks - 1;
                } else if is_proto_err {
                    let mut r = self.go_reconnecting();
                    acts.append(&mut r);
                }
            },
            SessionState::Live => {
                if batch_nonzero {
                    acts.push(Action::Warn(WarnKind::BatchOrderError));
                }
            },
            _ => {},
        }
        proof {
            assert(self@ =~= event_step_spec(old(self)@, ev@, now_us).0);
            assert(acts@.map_values(|a: Action| a@) =~= event_step_spec(
                old(self)@,
                ev@,
                now_us,
            ).1);
        }
        acts
    }

    fn handle_text(&mut self, text: String, now_us: u64) -> (acts: Vec<Action>)
        requires
            old(self)@.wf(),
        ensures
            final(self)@.wf(),
            final(self)@ == events_step_spec(old(self)@, classify_spec(text@), now_us).0,
            acts@.map_values(|a: Action| a@) == events_step_spec(
                old(self)@,
                classify_spec(text@),
                now_us,
            ).1,
    {
        let ghost c0 = self@;
        let ghost full = classify_spec(text@);
        let mut evs = classify(text);
        let mut acts: Vec<Action> = Vec::new();
        proof {
            assert(acts@.map_values(|a: Action| a@) =~= Seq::<ActionV>::empty());
        }
        while evs.len() > 0
            invariant
                self@.wf(),
                events_step_spec(self@, evs@.map_values(|e: Event| e@), now_us).0
                    == events_step_spec(c0, full, now_us).0,
                acts@.map_values(|a: Action| a@).add(
                    events_step_spec(self@, evs@.map_values(|e: Event| e@), now_us).1,
                ) == events_step_spec(c0, full, now_us).1,
            decreases evs@.len(),
        {
            let ghost pre_evs = evs@.map_values(|e: Event| e@);
            let ghost pre_c = self@;
            let ghost pre_acts = acts@.map_values(|a: Action| a@);
            let ev = evs.remove(0);
            let mut r = self.handle_event(ev, now_us);
            let ghost rv = r@.map_values(|a: Action| a@);
            acts.append(&mut r);
            proof {
                assert(evs@.map_values(|e: Event| e@) =~= pre_evs.drop_first());
                assert(pre_evs.first() == ev@);
                let c1 = event_step_spec(pre_c, pre_evs.first(), now_us).0;
                let a1 = event_step_spec(pre_c, pre_evs.first(), now_us).1;
                let rest = events_step_spec(c1, pre_evs.drop_first(), now_us).1;
                assert(events_step_spec(pre_c, pre_evs, now_us).1 == a1.add(rest));
                assert(acts@.map_values(|a: Action| a@) =~= pre_acts.add(a1));
                assert(pre_acts.add(a1).add(rest) =~= pre_acts.add(a1.add(rest)));
            }
        }
        proof {
            assert(evs@.map_values(|e: Event| e@) =~= Seq::<EventV>::empty());
            assert(acts@.map_values(|a: Action| a@).add(Seq::<ActionV>::empty())
                =~= acts@.map_values(|a: Action| a@));
        }
        acts
    }

    fn handle_frame(&mut self, f: Frame, now_us: u64) -> (acts: Vec<Action>)
        requires
            old(self)@.wf(),
        ensures
            final(self)@.wf(),
            final(self)@ == frame_step_spec(old(self)@, f@, now_us).0,
            acts@.map_values(|a: Action| a@) == frame_step_spec(old(self)@, f@, now_us).1,
    {
        let live_enough = match self.state {
            SessionState::Disconnected => false,
            SessionState::Terminated => false,
            _ => true,
        };
        if !live_enough {
            let out: Vec<Action> = Vec::new();
            proof {
                assert(out@.map_values(|a: Action| a@) =~= Seq::<ActionV>::empty());
            }
            return out;
        }
        self.last_inbound_us = now_us;
        match f {
            Frame::Text(t) => {
                let out = self.handle_text(t, now_us);
                out
            },
            Frame::Ping(p) => {
                self.last_outbound_us = now_us;
                let out = vec![Action::SendPong(p)];
                proof {
                    assert(self@ =~= frame_step_spec(old(self)@, f@, now_us).0);
                    assert(out@.map_values(|a: Action| a@) =~= frame_step_spec(
                        old(self)@,
                        f@,
                        now_us,
                    ).1);
                }
                out
            },
            Frame::Pong(_) => {
                let out: Vec<Action> = Vec::new();
                proof {
                    assert(out@.map_values(|a: Action| a@) =~= Seq::<ActionV>::empty());
                }
                out
            },
            Frame::Binary(_) => {
                let out: Vec<Action> = Vec::new();
                proof {
                    assert(out@.map_values(|a: Action| a@) =~= Seq::<ActionV>::empty());
                }
                out
            },
            Frame::Close => self.go_reconnecting(),
        }
    }

    fn handle_tick(&mut self, now_us: u64) -> (acts: Vec<Action>)
        requires
            old(self)@.wf(),
        ensures
            final(self)@.wf(),
            final(self)@ == tick_spec(old(self)@, now_us).0,
            acts@.map_values(|a: Action| a@) == tick_spec(old(self)@, now_us).1,
    {
        let st = self.state;
        match st {
            SessionState::Connecting => {
                if elapsed_us(now_us, self.phase_start_us) >= CONNECT_TIMEOUT_US {
                    self.go_reconnecting()
                } else {
                    let out: Vec<Action> = Vec::new();
                    proof {
                        assert(out@.map_values(|a: Action| a@) =~= Seq::<ActionV>::empty());
                    }
                    out
                }
            },
            SessionState::Authenticating | SessionState::Subscribing => {
                if elapsed_us(now_us, self.phase_start_us) >= PHASE_TIMEOUT_US {
                    self.go_reconnecting()
                } else {
                    let out: Vec<Action> = Vec::new();
                    proof {
                        assert(out@.map_values(|a: Action| a@) =~= Seq::<ActionV>::empty());
                    }
                    out
                }
            },
            SessionState::Live => {
                if elapsed_us(now_us, self.last_inbound_us) >= self.cfg.idle_timeout_s
                    * 1000000 {
                    self.go_reconnecting()
                } else if elapsed_us(now_us, self.last_outbound_us)
                    >= self.cfg.keepalive_interval_s * 1000000 {
                    self.last_outbound_us = now_us;
                    let out = vec![Action::SendPing];
                    proof {
                        assert(self@ =~= tick_spec(old(self)@, now_us).0);
                        assert(out@.map_values(|a: Action| a@) =~= tick_spec(
                            old(self)@,
                            now_us,
                        ).1);
                    }
                    out
                } else {
                    let out: Vec<Action> = Vec::new();
                    proof {
                        assert(out@.map_values(|a: Action| a@) =~= Seq::<ActionV>::empty());
                    }
                    out
                }
            },
            _ => {
                let out: Vec<Action> = Vec::new();
                proof {
                    assert(out@.map_values(|a: Action| a@) =~= Seq::<ActionV>::empty());
                }
                out
            },
        }
    }

    /// Feed one input; the returned actions are to be performed in order.
    /// Total: any input in any state is answered without panicking.
    pub fn step(&mut self, input: Input, now_us: u64) -> (acts: Vec<Action>)
        requires
            old(self)@.wf(),
        ensures
            final(self)@.wf(),
            final(self)@ == step_spec(old(self)@, input@, now_us).0,
            acts@.map_values(|a: Action| a@) == step_spec(old(self)@, input@, now_us).1,
    {
        let ghost c0 = self@;
        let ghost inpv = input@;
        match input {
            Input::Start => {
                let st_ok = match self.state {
                    SessionState::Disconnected => true,
                    _ => false,
                };
                if !st_ok {
                    let out: Vec<Action> = Vec::new();
                    proof {
                        assert(out@.map_values(|a: Action| a@) =~= Seq::<ActionV>::empty());
                    }
                    return out;
                }
                let is_private = match self.cfg.kind {
                    SessionKind::Private => true,
                    SessionKind::Public => false,
                };
                if is_private && !self.cfg.has_credentials {
                    self.state = SessionState::Terminated;
                    let out = vec![Action::Fatal(FatalKind::MissingCredentials)];
                    proof {
                        assert(self@ =~= step_spec(c0, inpv, now_us).0);
                        assert(out@.map_values(|a: Action| a@) =~= step_spec(c0, inpv, now_us).1);
                    }
                    out
                } else {
                    self.state = SessionState::Connecting;
                    self.backoff_ms = self.cfg.backoff_initial_s * 1000;
                    self.phase_start_us = now_us;
                    let out = vec![Action::Connect];
                    proof {
                        assert(self@ =~= step_spec(c0, inpv, now_us).0);
                        assert(out@.map_values(|a: Action| a@) =~= step_spec(c0, inpv, now_us).1);
                    }
                    out
                }
            },
            Input::ConnectOk => {
                let st_ok = match self.state {
                    SessionState::Connecting => true,
                    _ => false,
                };
                if !st_ok {
                    let out: Vec<Action> = Vec::new();
                    proof {
                        assert(out@.map_values(|a: Action| a@) =~= Seq::<ActionV>::empty());
                    }
                    return out;
                }
                self.last_inbound_us = now_us;
                let is_private = match self.cfg.kind {
                    SessionKind::Private => true,
                    SessionKind::Public => false,
                };
                if is_private {
                    self.state = SessionState::Authenticating;
                    self.phase_start_us = now_us;
                    self.last_outbound_us = now_us;
                    let out = vec![Action::SendLogin];
                    proof {
                        assert(self@ =~= step_spec(c0, inpv, now_us).0);
                        assert(out@.map_values(|a: Action| a@) =~= step_spec(c0, inpv, now_us).1);
                    }
                    out
                } else {
                    self.start_subscribing(now_us)
                }
            },
            Input::ConnectFailed => {
                let st_ok = match self.state {
                    SessionState::Connecting => true,
                    _ => false,
                };
                if st_ok {
                    self.go_reconnecting()
                } else {
                    let out: Vec<Action> = Vec::new();
                    proof {
                        assert(out@.map_values(|a: Action| a@) =~= Seq::<ActionV>::empty());
                    }
                    out
                }
            },
            Input::Inbound(f) => self.handle_frame(f, now_us),
            Input::TransportError | Input::PeerClosed => {
                let st_ok = match self.state {
                    SessionState::Connecting | SessionState::Authenticating
                    | SessionState::Subscribing | SessionState::Live => true,
                    _ => false,
                };
                if st_ok {
                    self.go_reconnecting()
                } else {
                    let out: Vec<Action> = Vec::new();
                    proof {
                        assert(out@.map_values(|a: Action| a@) =~= Seq::<ActionV>::empty());
                    }
                    out
                }
            },
            Input::BackoffElapsed => {
                let st_ok = match self.state {
                    SessionState::Reconnecting => true,
                    _ => false,
                };
                if st_ok {
                    self.state = SessionState::Connecting;
                    self.phase_start_us = now_us;
                    let out = vec![Action::Connect];
                    proof {
                        assert(self@ =~= step_spec(c0, inpv, now_us).0);
                        assert(out@.map_values(|a: Action| a@) =~= step_spec(c0, inpv, now_us).1);
                    }
                    out
                } else {
                    let out: Vec<Action> = Vec::new();
                    proof {
                        assert(out@.map_values(|a: Action| a@) =~= Seq::<ActionV>::empty());
                    }
                    out
                }
            },
            Input::Tick => self.handle_tick(now_us),
            Input::AddTopic(t) => {
                let terminated = match self.state {
                    SessionState::Terminated => true,
                    _ => false,
                };
                if terminated {
                    let out: Vec<Action> = Vec::new();
                    proof {
                        assert(out@.map_values(|a: Action| a@) =~= Seq::<ActionV>::empty());
                    }
                    return out;
                }
                if self.registry.contains(&t) {
                    let out: Vec<Action> = Vec::new();
                    proof {
                        assert(out@.map_values(|a: Action| a@) =~= Seq::<ActionV>::empty());
                    }
                    return out;
                }
                let was_live = match self.state {
                    SessionState::Live => true,
                    _ => false,
                };
                let was_subscribing = match self.state {
                    SessionState::Subscribing => true,
                    _ => false,
                };
                if was_live || was_subscribing {
                    let dup = t.duplicate();
                    self.registry.add(t);
                    if was_subscribing {
                        // The grown registry bounds the count: the push
                        // above fit, so one more acknowledgement fits too.
                        let grown = self.registry.len();
                        proof {
                            assert(self.pending_acks < grown);
                        }
                        self.pending_acks = self.pending_acks + 1;
                    }
                    self.last_outbound_us = now_us;
                    let out = vec![Action::SendSubscribe(vec![dup])];
                    proof {
                        assert(self@ =~= step_spec(c0, inpv, now_us).0);
                        assert(out@[0]@->SendSubscribe_0 =~= seq![dup@]);
                        assert(out@.map_values(|a: Action| a@) =~= step_spec(c0, inpv, now_us).1);
                    }
                    out
                } else {
                    self.registry.add(t);
                    let out: Vec<Action> = Vec::new();
                    proof {
                        assert(self@ =~= step_spec(c0, inpv, now_us).0);
                        assert(out@.map_values(|a: Action| a@) =~= Seq::<ActionV>::empty());
                    }
                    out
                }
            },
            Input::RemoveTopic(t) => {
                let terminated = match self.state {
                    SessionState::Terminated => true,
                    _ => false,
                };
                if terminated {
                    let out: Vec<Action> = Vec::new();
                    proof {
                        assert(out@.map_values(|a: Action| a@) =~= Seq::<ActionV>::empty());
                    }
                    return out;
                }
                self.registry.remove(&t);
                let remaining = self.registry.len();
                if self.pending_acks > remaining {
                    self.pending_acks = remaining;
                }
                let out: Vec<Action> = Vec::new();
                proof {
                    assert(self@ =~= step_spec(c0, inpv, now_us).0);
                    assert(out@.map_values(|a: Action| a@) =~= Seq::<ActionV>::empty());
                }
                out
            },
            Input::Stop => {
                let terminated = match self.state {
                    SessionState::Terminated => true,
                    _ => false,
                };
                if terminated {
                    let out: Vec<Action> = Vec::new();
                    proof {
                        assert(out@.map_values(|a: Action| a@) =~= Seq::<ActionV>::empty());
                    }
                    out
                } else {
                    self.state = SessionState::Terminated;
                    self.pending_acks = 0;
                    self.deferred = Vec::new();
                    let out = vec![Action::SendClose(NORMAL_CLOSE_CODE)];
                    proof {
                        assert(self@.deferred =~= Seq::<EventV>::empty());
                        assert(self@ =~= step_spec(c0, inpv, now_us).0);
                        assert(out@.map_values(|a: Action| a@) =~= step_spec(c0, inpv, now_us).1);
                    }
                    out
                }
            },
        }
    }
}

} // verus!
