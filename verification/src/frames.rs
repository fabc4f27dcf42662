//! Outbound frame texts. The subscribe and login envelopes the venue
//! expects are built here, character for character, with contracts fixing
//! the whole text; the runtime only puts them on the wire. Instruments
//! and credentials must be plain (printable ASCII without quote or
//! backslash — the venue's canonical forms are); anything else is refused
//! rather than mis-escaped.

use vstd::prelude::*;
use vstd::string::StrSliceExecFns;
use vstd::string::StringExecFns;
use crate::types::{Topic, TopicV};

verus! {

/// Characters that may stand inside a JSON string literal unescaped:
/// printable ASCII (codes 32 through 126) except the quote (34) and the
/// backslash (92).
pub open spec fn plain_chars(s: Seq<char>) -> bool {
    forall|i: int|
        0 <= i < s.len() ==> 32 <= (s[i] as u32) <= 126 && (s[i] as u32) != 34 && (
        s[i] as u32) != 92
}

pub fn is_plain(s: &str) -> (b: bool)
    ensures
        b == plain_chars(s@),
{
    let n = s.unicode_len();
    let mut i: usize = 0;
    while i < n
        invariant
            i <= n,
            n == s@.len(),
            forall|j: int|
                0 <= j < i ==> 32 <= (s@[j] as u32) <= 126 && (s@[j] as u32) != 34 && (
                s@[j] as u32) != 92,
        decreases n - i,
    {
        let u = s.get_char(i) as u32;
        if !(32 <= u && u <= 126) || u == 34 || u == 92 {
            return false;
        }
        i += 1;
    }
    true
}

pub open spec fn topic_inst(t: TopicV) -> Seq<char> {
    match t {
        TopicV::Ticker(i) => i,
        TopicV::SpotOrders(i) => i,
        TopicV::MarginOrders(i) => i,
        TopicV::SwapOrders(i) => i,
    }
}

/// One argument of the subscribe envelope.
pub open spec fn topic_arg_text(t: TopicV) -> Seq<char> {
    match t {
        TopicV::Ticker(i) => "{\"channel\":\"tickers\",\"instId\":\""@ + i + "\"}"@,
        TopicV::SpotOrders(i) => "{\"channel\":\"orders\",\"instType\":\"SPOT\",\"instId\":\""@
            + i + "\"}"@,
        TopicV::MarginOrders(i) => "{\"channel\":\"orders\",\"instType\":\"MARGIN\",\"instId\":\""@
            + i + "\"}"@,
        TopicV::SwapOrders(i) => "{\"channel\":\"orders\",\"instType\":\"SWAP\",\"instId\":\""@
            + i + "\"}"@,
    }
}

/// The arguments joined with commas, in registry order.
pub open spec fn args_text(ts: Seq<TopicV>) -> Seq<char>
    decreases ts.len(),
{
    if ts.len() == 0 {
        Seq::<char>::empty()
    } else if ts.len() == 1 {
        topic_arg_text(ts[0])
    } else {
        args_text(ts.drop_last()) + ","@ + topic_arg_text(ts.last())
    }
}

/// The whole subscribe frame.
pub open spec fn subscribe_text_spec(ts: Seq<TopicV>) -> Seq<char> {
    "{\"op\":\"subscribe\",\"args\":["@ + args_text(ts) + "]}"@
}

/// The whole login frame, from the already-computed signature.
pub open spec fn login_text_spec(
    api_key: Seq<char>,
    passphrase: Seq<char>,
    timestamp: Seq<char>,
    sign: Seq<char>,
) -> Seq<char> {
    "{\"op\":\"login\",\"args\":[{\"apiKey\":\""@ + api_key + "\",\"passphrase\":\""@ + passphrase
        + "\",\"timestamp\":\""@ + timestamp + "\",\"sign\":\""@ + sign + "\"}]}"@
}

fn push_topic_arg(out: &mut String, t: &Topic)
    requires
        plain_chars(topic_inst(t@)),
    ensures
        final(out)@ == old(out)@ + topic_arg_text(t@),
{
    match t {
        Topic::Ticker(i) => {
            out.append("{\"channel\":\"tickers\",\"instId\":\"");
            out.append(i.as_str());
            out.append("\"}");
        },
        Topic::SpotOrders(i) => {
            out.append("{\"channel\":\"orders\",\"instType\":\"SPOT\",\"instId\":\"");
            out.append(i.as_str());
            out.append("\"}");
        },
        Topic::MarginOrders(i) => {
            out.append("{\"channel\":\"orders\",\"instType\":\"MARGIN\",\"instId\":\"");
            out.append(i.as_str());
            out.append("\"}");
        },
        Topic::SwapOrders(i) => {
            out.append("{\"channel\":\"orders\",\"instType\":\"SWAP\",\"instId\":\"");
            out.append(i.as_str());
            out.append("\"}");
        },
    }
    proof {
        assert(final(out)@ =~= old(out)@ + topic_arg_text(t@));
    }
}

/// The subscribe frame for these topics, exactly `subscribe_text_spec`,
/// or `None` when some instrument is not plain.
pub fn subscribe_frame_text(topics: &Vec<Topic>) -> (r: Option<String>)
    ensures
        r is Some <==> (forall|i: int|
            0 <= i < topics@.len() ==> plain_chars(topic_inst(topics@[i]@))),
        r is Some ==> r->Some_0@ == subscribe_text_spec(topics@.map_values(|t: Topic| t@)),
{
    let n = topics.len();
    let mut i: usize = 0;
    while i < n
        invariant
            i <= n,
            n == topics@.len(),
            forall|j: int| 0 <= j < i ==> plain_chars(topic_inst(topics@[j]@)),
        decreases n - i,
    {
        let inst: &str = match &topics[i] {
            Topic::Ticker(s) => s.as_str(),
            Topic::SpotOrders(s) => s.as_str(),
            Topic::MarginOrders(s) => s.as_str(),
            Topic::SwapOrders(s) => s.as_str(),
        };
        if !is_plain(inst) {
            proof {
                assert(!plain_chars(topic_inst(topics@[i as int]@)));
            }
            return None;
        }
        i += 1;
    }

    let ghost mapped = topics@.map_values(|t: Topic| t@);
    let mut out = String::new();
    out.append("{\"op\":\"subscribe\",\"args\":[");
    let mut k: usize = 0;
    proof {
        assert(out@ =~= "{\"op\":\"subscribe\",\"args\":["@ + args_text(mapped.take(0)));
    }
    while k < n
        invariant
            k <= n,
            n == topics@.len(),
            mapped == topics@.map_values(|t: Topic| t@),
            forall|j: int| 0 <= j < n ==> plain_chars(topic_inst(topics@[j]@)),
            out@ == "{\"op\":\"subscribe\",\"args\":["@ + args_text(mapped.take(k as int)),
        decreases n - k,
    {
        let ghost pre = out@;
        if k > 0 {
            out.append(",");
        }
        push_topic_arg(&mut out, &topics[k]);
        proof {
            assert(mapped.take(k + 1).drop_last() =~= mapped.take(k as int));
            assert(mapped.take(k + 1).last() == mapped[k as int]);
            assert(out@ =~= "{\"op\":\"subscribe\",\"args\":["@ + args_text(mapped.take(k + 1)));
        }
        k += 1;
    }
    out.append("]}");
    proof {
        assert(mapped.take(n as int) =~= mapped);
        assert(out@ =~= subscribe_text_spec(mapped));
    }
    Some(out)
}

/// The login frame from credentials, timestamp and signature, exactly
/// `login_text_spec`, or `None` when one of them is not plain.
pub fn login_frame_text(api_key: &str, passphrase: &str, timestamp: &str, sign: &str) -> (r:
    Option<String>)
    ensures
        r is Some <==> plain_chars(api_key@) && plain_chars(passphrase@) && plain_chars(
            timestamp@,
        ) && plain_chars(sign@),
        r is Some ==> r->Some_0@ == login_text_spec(api_key@, passphrase@, timestamp@, sign@),
{
    if !is_plain(api_key) || !is_plain(passphrase) || !is_plain(timestamp) || !is_plain(sign) {
        return None;
    }
    let mut out = String::new();
    out.append("{\"op\":\"login\",\"args\":[{\"apiKey\":\"");
    out.append(api_key);
    out.append("\",\"passphrase\":\"");
    out.append(passphrase);
    out.append("\",\"timestamp\":\"");
    out.append(timestamp);
    out.append("\",\"sign\":\"");
    out.append(sign);
    out.append("\"}]}");
    proof {
        assert(out@ =~= login_text_spec(api_key@, passphrase@, timestamp@, sign@));
    }
    Some(out)
}

} // verus!
