//! The data model: instruments, topics, prices, classified events, and
//! transport frames, each with a mathematical view for contracts.

use vstd::prelude::*;
use vstd::string::StrSliceExecFns;

verus! {

/// A non-negative decimal number: `mantissa / 10^scale`. Top-of-book
/// prices and sizes are carried in this exact form; no binary floating
/// point is involved.
#[derive(Clone, Copy, PartialEq, Eq, Structural, Debug)]
pub struct Decimal {
    pub mantissa: u64,
    pub scale: u32,
}

/// The rational value of a decimal, times `10^scale` of the other operand,
/// for comparisons: `a <= b` iff `a.mantissa * 10^b.scale <= b.mantissa * 10^a.scale`.
pub open spec fn pow10(e: nat) -> int
    decreases e,
{
    if e == 0 {
        1
    } else {
        10 * pow10((e - 1) as nat)
    }
}

pub open spec fn dec_le(a: Decimal, b: Decimal) -> bool {
    a.mantissa * pow10(b.scale as nat) <= b.mantissa * pow10(a.scale as nat)
}

/// Top of book: best bid and ask with their sizes.
#[derive(Clone, Copy, PartialEq, Eq, Structural, Debug)]
pub struct Orderbook {
    pub best_bid: Decimal,
    pub best_bid_size: Decimal,
    pub best_ask: Decimal,
    pub best_ask_size: Decimal,
}

/// A subscription selector: a channel together with an instrument.
pub enum Topic {
    Ticker(String),
    SpotOrders(String),
    MarginOrders(String),
    SwapOrders(String),
}

/// Mathematical view of a topic.
pub enum TopicV {
    Ticker(Seq<char>),
    SpotOrders(Seq<char>),
    MarginOrders(Seq<char>),
    SwapOrders(Seq<char>),
}

impl View for Topic {
    type V = TopicV;

    open spec fn view(&self) -> TopicV {
        match self {
            Topic::Ticker(s) => TopicV::Ticker(s@),
            Topic::SpotOrders(s) => TopicV::SpotOrders(s@),
            Topic::MarginOrders(s) => TopicV::MarginOrders(s@),
            Topic::SwapOrders(s) => TopicV::SwapOrders(s@),
        }
    }
}

impl Topic {
    /// An exact copy; the original stays usable.
    pub fn duplicate(&self) -> (r: Topic)
        ensures
            r@ == self@,
    {
        match self {
            Topic::Ticker(s) => Topic::Ticker(s.clone()),
            Topic::SpotOrders(s) => Topic::SpotOrders(s.clone()),
            Topic::MarginOrders(s) => Topic::MarginOrders(s.clone()),
            Topic::SwapOrders(s) => Topic::SwapOrders(s.clone()),
        }
    }

    pub fn topic_eq(&self, other: &Topic) -> (r: bool)
        ensures
            r == (self@ == other@),
    {
        match (self, other) {
            (Topic::Ticker(a), Topic::Ticker(b)) => str_eq(a.as_str(), b.as_str()),
            (Topic::SpotOrders(a), Topic::SpotOrders(b)) => str_eq(a.as_str(), b.as_str()),
            (Topic::MarginOrders(a), Topic::MarginOrders(b)) => str_eq(a.as_str(), b.as_str()),
            (Topic::SwapOrders(a), Topic::SwapOrders(b)) => str_eq(a.as_str(), b.as_str()),
            _ => false,
        }
    }
}

/// The order-status topics one instrument needs: its spot, margin and
/// swap orders, in that order, for each instrument in turn.
pub open spec fn order_topics_of(coins: Seq<Seq<char>>) -> Seq<TopicV>
    decreases coins.len(),
{
    if coins.len() == 0 {
        Seq::<TopicV>::empty()
    } else {
        order_topics_of(coins.drop_last()) + seq![
            TopicV::SpotOrders(coins.last()),
            TopicV::MarginOrders(coins.last()),
            TopicV::SwapOrders(coins.last()),
        ]
    }
}

/// Expand instruments to the order-status topics a private session
/// watches: spot, margin and swap orders for each.
pub fn order_topics(coins: &Vec<String>) -> (r: Vec<Topic>)
    ensures
        r@.map_values(|t: Topic| t@) == order_topics_of(coins@.map_values(|s: String| s@)),
{
    let ghost mapped = coins@.map_values(|s: String| s@);
    let n = coins.len();
    let mut out: Vec<Topic> = Vec::new();
    let mut i: usize = 0;
    proof {
        assert(out@.map_values(|t: Topic| t@) =~= order_topics_of(mapped.take(0)));
    }
    while i < n
        invariant
            i <= n,
            n == coins@.len(),
            mapped == coins@.map_values(|s: String| s@),
            out@.map_values(|t: Topic| t@) == order_topics_of(mapped.take(i as int)),
        decreases n - i,
    {
        let ghost pre = out@.map_values(|t: Topic| t@);
        out.push(Topic::SpotOrders(coins[i].clone()));
        out.push(Topic::MarginOrders(coins[i].clone()));
        out.push(Topic::SwapOrders(coins[i].clone()));
        proof {
            assert(mapped.take(i + 1).drop_last() =~= mapped.take(i as int));
            assert(mapped.take(i + 1).last() == mapped[i as int]);
            assert(out@.map_values(|t: Topic| t@) =~= pre + seq![
                TopicV::SpotOrders(mapped[i as int]),
                TopicV::MarginOrders(mapped[i as int]),
                TopicV::SwapOrders(mapped[i as int]),
            ]);
            assert(out@.map_values(|t: Topic| t@) =~= order_topics_of(mapped.take(i + 1)));
        }
        i += 1;
    }
    proof {
        assert(mapped.take(n as int) =~= mapped);
    }
    out
}

/// A classified inbound event.
pub enum Event {
    /// One top-of-book row for one instrument.
    Ticker { instrument: String, is_derivative: bool, book: Orderbook },
    /// An order-status message; `derived` carries the first row's
    /// instrument when the payload has one, and is `None` on an empty
    /// `data` array (the message is still forwarded).
    OrderAck { raw: String, derived: Option<String> },
    /// A batch-order response: its venue result code and the raw payload.
    BatchOrderAck { code: String, raw: String },
    /// The venue acknowledged a subscription.
    Subscribed { channel: String, inst_id: String },
    /// The venue acknowledged an unsubscription.
    Unsubscribed { channel: String, inst_id: String },
    /// The venue's application-level keepalive reply.
    Heartbeat,
    /// A venue error, a malformed document, or an unparseable number.
    ProtocolError { code: String, message: String },
    /// A well-formed document matching no known shape.
    Unknown { raw: String },
}

/// Mathematical view of an event.
pub enum EventV {
    Ticker { instrument: Seq<char>, is_derivative: bool, book: Orderbook },
    OrderAck { raw: Seq<char>, derived: Option<Seq<char>> },
    BatchOrderAck { code: Seq<char>, raw: Seq<char> },
    Subscribed { channel: Seq<char>, inst_id: Seq<char> },
    Unsubscribed { channel: Seq<char>, inst_id: Seq<char> },
    Heartbeat,
    ProtocolError { code: Seq<char>, message: Seq<char> },
    Unknown { raw: Seq<char> },
}

impl View for Event {
    type V = EventV;

    open spec fn view(&self) -> EventV {
        match self {
            Event::Ticker { instrument, is_derivative, book } => EventV::Ticker {
                instrument: instrument@,
                is_derivative: *is_derivative,
                book: *book,
            },
            Event::OrderAck { raw, derived } => EventV::OrderAck {
                raw: raw@,
                derived: match derived {
                    Some(d) => Some(d@),
                    None => None,
                },
            },
            Event::BatchOrderAck { code, raw } => EventV::BatchOrderAck {
                code: code@,
                raw: raw@,
            },
            Event::Subscribed { channel, inst_id } => EventV::Subscribed {
                channel: channel@,
                inst_id: inst_id@,
            },
            Event::Unsubscribed { channel, inst_id } => EventV::Unsubscribed {
                channel: channel@,
                inst_id: inst_id@,
            },
            Event::Heartbeat => EventV::Heartbeat,
            Event::ProtocolError { code, message } => EventV::ProtocolError {
                code: code@,
                message: message@,
            },
            Event::Unknown { raw } => EventV::Unknown { raw: raw@ },
        }
    }
}

impl Event {
    /// An exact copy; the original stays usable.
    pub fn duplicate(&self) -> (r: Event)
        ensures
            r@ == self@,
    {
        match self {
            Event::Ticker { instrument, is_derivative, book } => Event::Ticker {
                instrument: instrument.clone(),
                is_derivative: *is_derivative,
                book: *book,
            },
            Event::OrderAck { raw, derived } => Event::OrderAck {
                raw: raw.clone(),
                derived: match derived {
                    Some(d) => Some(d.clone()),
                    None => None,
                },
            },
            Event::BatchOrderAck { code, raw } => Event::BatchOrderAck {
                code: code.clone(),
                raw: raw.clone(),
            },
            Event::Subscribed { channel, inst_id } => Event::Subscribed {
                channel: channel.clone(),
                inst_id: inst_id.clone(),
            },
            Event::Unsubscribed { channel, inst_id } => Event::Unsubscribed {
                channel: channel.clone(),
                inst_id: inst_id.clone(),
            },
            Event::Heartbeat => Event::Heartbeat,
            Event::ProtocolError { code, message } => Event::ProtocolError {
                code: code.clone(),
                message: message.clone(),
            },
            Event::Unknown { raw } => Event::Unknown { raw: raw.clone() },
        }
    }
}

/// An event stamped with its ingestion time, microseconds since the epoch.
pub struct TimestampedEvent {
    pub ingest_ts_micros: u64,
    pub event: Event,
}

pub struct TimestampedEventV {
    pub ingest_ts_micros: u64,
    pub event: EventV,
}

impl View for TimestampedEvent {
    type V = TimestampedEventV;

    open spec fn view(&self) -> TimestampedEventV {
        TimestampedEventV { ingest_ts_micros: self.ingest_ts_micros, event: self.event@ }
    }
}

/// A transport frame, as the adapter delivers and accepts them.
pub enum Frame {
    Text(String),
    Binary(Vec<u8>),
    Ping(Vec<u8>),
    Pong(Vec<u8>),
    Close,
}

pub enum FrameV {
    Text(Seq<char>),
    Binary(Seq<u8>),
    Ping(Seq<u8>),
    Pong(Seq<u8>),
    Close,
}

impl View for Frame {
    type V = FrameV;

    open spec fn view(&self) -> FrameV {
        match self {
            Frame::Text(s) => FrameV::Text(s@),
            Frame::Binary(b) => FrameV::Binary(b@),
            Frame::Ping(b) => FrameV::Ping(b@),
            Frame::Pong(b) => FrameV::Pong(b@),
            Frame::Close => FrameV::Close,
        }
    }
}

/// Character-by-character string comparison with an exact contract.
pub fn str_eq(a: &str, b: &str) -> (r: bool)
    ensures
        r == (a@ == b@),
{
    let la = a.unicode_len();
    let lb = b.unicode_len();
    if la != lb {
        return false;
    }
    let mut i: usize = 0;
    while i < la
        invariant
            i <= la,
            la == a@.len(),
            lb == b@.len(),
            la == lb,
            forall|j: int| 0 <= j < i ==> a@[j] == b@[j],
        decreases la - i,
    {
        if a.get_char(i) != b.get_char(i) {
            return false;
        }
        i += 1;
    }
    proof {
        assert(a@ =~= b@);
    }
    true
}

/// The instrument names a derivative contract: it ends in `-SWAP`.
pub open spec fn is_swap_spec(s: Seq<char>) -> bool {
    &&& s.len() >= 5
    &&& s[s.len() - 5] == '-'
    &&& s[s.len() - 4] == 'S'
    &&& s[s.len() - 3] == 'W'
    &&& s[s.len() - 2] == 'A'
    &&& s[s.len() - 1] == 'P'
}

pub fn ends_with_swap(s: &str) -> (r: bool)
    ensures
        r == is_swap_spec(s@),
{
    let n = s.unicode_len();
    if n < 5 {
        return false;
    }
    s.get_char(n - 5) == '-' && s.get_char(n - 4) == 'S' && s.get_char(n - 3) == 'W'
        && s.get_char(n - 2) == 'A' && s.get_char(n - 1) == 'P'
}

} // verus!
