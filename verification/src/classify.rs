//! The frame classifier: one text frame in, a sequence of typed events
//! out. Total and pure: every input yields events; malformed documents,
//! missing fields and unparseable numbers become `ProtocolError`, never a
//! default value. First matching rule wins.

use vstd::prelude::*;
use vstd::string::StrSliceExecFns;
use vstd::string::StringExecFns;
use crate::types::{Decimal, Orderbook, Event, EventV, dec_le, is_swap_spec, str_eq, ends_with_swap, pow10};
use crate::decimal::{dec_of, parse_decimal, lemma_pow10_mono, lemma_pow10_18};
use crate::json::{Jv, json_model, json_of, jv_get, jv_str, parse_json, obj_get, as_str, as_array};

verus! {

pub open spec fn str_or_empty(o: Option<Seq<char>>) -> Seq<char> {
    match o {
        Some(s) => s,
        None => Seq::empty(),
    }
}

/// `arg.channel` of the document, when present as a string.
pub open spec fn chan_of(j: Jv) -> Option<Seq<char>> {
    match jv_get(j, "arg"@) {
        Some(a) => jv_str(a, "channel"@),
        None => None,
    }
}

/// `arg.instId` of the document, when present as a string.
pub open spec fn inst_of(j: Jv) -> Option<Seq<char>> {
    match jv_get(j, "arg"@) {
        Some(a) => jv_str(a, "instId"@),
        None => None,
    }
}

/// The rows of the document's `data` array, when it is one.
pub open spec fn data_arr(j: Jv) -> Option<Seq<Jv>> {
    match jv_get(j, "data"@) {
        Some(Jv::Arr(rows)) => Some(rows),
        _ => None,
    }
}

pub open spec fn is_order_channel(c: Option<Seq<char>>) -> bool {
    c == Some("orders"@) || c == Some("orders-algo"@)
}

/// The first row's instrument of an order message, when the payload has
/// one; `None` on an empty or absent `data` array.
pub open spec fn order_derived(j: Jv) -> Option<Seq<char>> {
    match data_arr(j) {
        Some(rows) => if rows.len() > 0 {
            jv_str(rows[0], "instId"@)
        } else {
            None
        },
        None => None,
    }
}

/// The `bidPx` field of one ticker row, when present as a string.
pub open spec fn jv_bid_px(row: Jv) -> Option<Seq<char>> {
    jv_str(row, "bidPx"@)
}

/// One `data` row of a ticker message: the four top-of-book fields must be
/// present and parse as decimals, and the book must not be crossed;
/// otherwise the row is a `ProtocolError`.
pub open spec fn ticker_row_event(inst: Seq<char>, row: Jv) -> EventV {
    let bid = jv_str(row, "bidPx"@);
    let bsz = jv_str(row, "bidSz"@);
    let ask = jv_str(row, "askPx"@);
    let asz = jv_str(row, "askSz"@);
    if bid is Some && bsz is Some && ask is Some && asz is Some && dec_of(bid->Some_0) is Some
        && dec_of(bsz->Some_0) is Some && dec_of(ask->Some_0) is Some && dec_of(
        asz->Some_0,
    ) is Some {
        let book = Orderbook {
            best_bid: dec_of(bid->Some_0)->Some_0,
            best_bid_size: dec_of(bsz->Some_0)->Some_0,
            best_ask: dec_of(ask->Some_0)->Some_0,
            best_ask_size: dec_of(asz->Some_0)->Some_0,
        };
        if dec_le(book.best_bid, book.best_ask) {
            EventV::Ticker { instrument: inst, is_derivative: is_swap_spec(inst), book }
        } else {
            EventV::ProtocolError { code: "crossed"@, message: inst }
        }
    } else {
        EventV::ProtocolError { code: "field"@, message: inst }
    }
}

/// The classification rules over a parsed document, first match wins.
pub open spec fn classify_doc(j: Jv, raw: Seq<char>) -> Seq<EventV> {
    if jv_str(j, "event"@) == Some("subscribe"@) {
        seq![
            EventV::Subscribed {
                channel: str_or_empty(chan_of(j)),
                inst_id: str_or_empty(inst_of(j)),
            },
        ]
    } else if jv_str(j, "event"@) == Some("unsubscribe"@) {
        seq![
            EventV::Unsubscribed {
                channel: str_or_empty(chan_of(j)),
                inst_id: str_or_empty(inst_of(j)),
            },
        ]
    } else if jv_str(j, "event"@) == Some("error"@) {
        seq![
            EventV::ProtocolError {
                code: str_or_empty(jv_str(j, "code"@)),
                message: str_or_empty(jv_str(j, "msg"@)),
            },
        ]
    } else if chan_of(j) == Some("tickers"@) && data_arr(j) is Some && data_arr(
        j,
    )->Some_0.len() > 0 {
        let rows = data_arr(j)->Some_0;
        let inst = str_or_empty(inst_of(j));
        Seq::new(rows.len(), |i: int| ticker_row_event(inst, rows[i]))
    } else if is_order_channel(chan_of(j)) {
        seq![EventV::OrderAck { raw, derived: order_derived(j) }]
    } else if jv_str(j, "code"@) is Some && (jv_get(j, "id"@) matches Some(Jv::Arr(_))) {
        seq![EventV::BatchOrderAck { code: jv_str(j, "code"@)->Some_0, raw }]
    } else {
        seq![EventV::Unknown { raw }]
    }
}

/// The whole classifier: the venue's application-level keepalive reply is
/// a heartbeat; a document that does not parse is a protocol error; any
/// other document goes through the rules.
pub open spec fn classify_spec(text: Seq<char>) -> Seq<EventV> {
    if text == "pong"@ {
        seq![EventV::Heartbeat]
    } else {
        match json_of(text) {
            None => seq![EventV::ProtocolError { code: "parse"@, message: Seq::empty() }],
            Some(j) => classify_doc(j, text),
        }
    }
}

/// The string field `k` of `v`, when `v` is an object holding one.
pub fn get_str_field<'a>(v: &'a serde_json::Value, k: &str) -> (r: Option<&'a str>)
    ensures
        match r {
            Some(s) => jv_str(json_model(*v), k@) == Some(s@),
            None => jv_str(json_model(*v), k@) is None,
        },
{
    match obj_get(v, k) {
        Some(f) => as_str(f),
        None => None,
    }
}

fn opt_owned(o: Option<&str>) -> (r: Option<String>)
    ensures
        match (o, r) {
            (Some(s), Some(t)) => s@ == t@,
            (None, None) => true,
            _ => false,
        },
{
    match o {
        Some(s) => Some(s.to_owned()),
        None => None,
    }
}

fn str_or_empty_exec(o: Option<&str>) -> (r: String)
    ensures
        r@ == str_or_empty(match o {
            Some(s) => Some(s@),
            None => None,
        }),
{
    match o {
        Some(s) => s.to_owned(),
        None => String::new(),
    }
}

/// `10^e` exactly, for the exponents a parsed decimal can carry.
fn pow10_u128(e: u32) -> (r: u128)
    requires
        e <= 18,
    ensures
        r == pow10(e as nat),
{
    let mut r: u128 = 1;
    let mut k: u32 = 0;
    while k < e
        invariant
            k <= e <= 18,
            r == pow10(k as nat),
        decreases e - k,
    {
        proof {
            lemma_pow10_mono(k as nat, 17);
            lemma_pow10_18();
            assert(pow10(18) == 10 * pow10(17));
            assert(pow10((k + 1) as nat) == 10 * pow10(k as nat));
        }
        r = r * 10;
        k += 1;
    }
    r
}

/// Compare two decimals exactly, by cross-multiplied mantissas.
pub fn dec_le_exec(a: &Decimal, b: &Decimal) -> (r: bool)
    requires
        a.scale <= 18,
        b.scale <= 18,
    ensures
        r == dec_le(*a, *b),
{
    proof {
        lemma_pow10_mono(a.scale as nat, 18);
        lemma_pow10_mono(b.scale as nat, 18);
        lemma_pow10_18();
        crate::decimal::lemma_pow10_pos(a.scale as nat);
        crate::decimal::lemma_pow10_pos(b.scale as nat);
        assert((a.mantissa as int) * pow10(b.scale as nat) <= 0xffffffffffffffffu64
            * 1000000000000000000int) by (nonlinear_arith)
            requires
                a.mantissa <= 0xffffffffffffffffu64,
                0 <= pow10(b.scale as nat) <= 1000000000000000000int,
        ;
        assert((b.mantissa as int) * pow10(a.scale as nat) <= 0xffffffffffffffffu64
            * 1000000000000000000int) by (nonlinear_arith)
            requires
                b.mantissa <= 0xffffffffffffffffu64,
                0 <= pow10(a.scale as nat) <= 1000000000000000000int,
        ;
    }
    let lhs = (a.mantissa as u128) * pow10_u128(b.scale);
    let rhs = (b.mantissa as u128) * pow10_u128(a.scale);
    lhs <= rhs
}

/// A parsed decimal's scale never exceeds its digit budget.
pub proof fn lemma_dec_of_scale(s: Seq<char>)
    ensures
        dec_of(s) is Some ==> dec_of(s)->Some_0.scale <= 18,
{
}

/// Classify one `data` row of a ticker message.
fn ticker_row(row: &serde_json::Value, inst: &str, is_deriv: bool) -> (e: Event)
    requires
        is_deriv == is_swap_spec(inst@),
    ensures
        e@ == ticker_row_event(inst@, json_model(*row)),
{
    let bid = get_str_field(row, "bidPx");
    let bsz = get_str_field(row, "bidSz");
    let ask = get_str_field(row, "askPx");
    let asz = get_str_field(row, "askSz");
    match (bid, bsz, ask, asz) {
        (Some(bid_s), Some(bsz_s), Some(ask_s), Some(asz_s)) => {
            let pb = parse_decimal(bid_s);
            let pbs = parse_decimal(bsz_s);
            let pa = parse_decimal(ask_s);
            let pas = parse_decimal(asz_s);
            match (pb, pbs, pa, pas) {
                (Some(best_bid), Some(best_bid_size), Some(best_ask), Some(best_ask_size)) => {
                    proof {
                        lemma_dec_of_scale(bid_s@);
                        lemma_dec_of_scale(ask_s@);
                    }
                    let book = Orderbook { best_bid, best_bid_size, best_ask, best_ask_size };
                    if dec_le_exec(&best_bid, &best_ask) {
                        Event::Ticker {
                            instrument: inst.to_owned(),
                            is_derivative: is_deriv,
                            book,
                        }
                    } else {
                        Event::ProtocolError {
                            code: String::from_str("crossed"),
                            message: inst.to_owned(),
                        }
                    }
                },
                _ => Event::ProtocolError {
                    code: String::from_str("field"),
                    message: inst.to_owned(),
                },
            }
        },
        _ => Event::ProtocolError { code: String::from_str("field"), message: inst.to_owned() },
    }
}

/// Classify one inbound text frame. Total: every text yields at least one
/// event, and exactly the events `classify_spec` names.
pub fn classify(text: String) -> (evs: Vec<Event>)
    ensures
        evs@.map_values(|e: Event| e@) == classify_spec(text@),
        evs@.len() >= 1,
{
    if str_eq(text.as_str(), "pong") {
        let out = vec![Event::Heartbeat];
        proof {
            assert(out@.map_values(|e: Event| e@) =~= classify_spec(text@));
        }
        return out;
    }
    let parsed = parse_json(text.as_str());
    let v = match parsed {
        None => {
            let out = vec![
                Event::ProtocolError {
                    code: String::from_str("parse"),
                    message: String::new(),
                },
            ];
            proof {
                assert(out@.map_values(|e: Event| e@) =~= classify_spec(text@));
            }
            return out;
        },
        Some(v) => v,
    };
    let ghost j = json_model(v);

    // Rules on the `event` field.
    if let Some(e) = get_str_field(&v, "event") {
        if str_eq(e, "subscribe") || str_eq(e, "unsubscribe") {
            let arg = obj_get(&v, "arg");
            let (channel, inst_id) = match arg {
                Some(a) => (
                    str_or_empty_exec(get_str_field(a, "channel")),
                    str_or_empty_exec(get_str_field(a, "instId")),
                ),
                None => (String::new(), String::new()),
            };
            let out = if str_eq(e, "subscribe") {
                vec![Event::Subscribed { channel, inst_id }]
            } else {
                vec![Event::Unsubscribed { channel, inst_id }]
            };
            proof {
                assert(out@.map_values(|x: Event| x@) =~= classify_spec(text@));
            }
            return out;
        }
        if str_eq(e, "error") {
            let code = str_or_empty_exec(get_str_field(&v, "code"));
            let message = str_or_empty_exec(get_str_field(&v, "msg"));
            let out = vec![Event::ProtocolError { code, message }];
            proof {
                assert(out@.map_values(|x: Event| x@) =~= classify_spec(text@));
            }
            return out;
        }
    }

    // Ticker rows.
    let arg = obj_get(&v, "arg");
    let chan: Option<&str> = match arg {
        Some(a) => get_str_field(a, "channel"),
        None => None,
    };
    let inst: Option<&str> = match arg {
        Some(a) => get_str_field(a, "instId"),
        None => None,
    };
    let chan_is_tickers = match chan {
        Some(c) => str_eq(c, "tickers"),
        None => false,
    };
    if chan_is_tickers {
        if let Some(d) = obj_get(&v, "data") {
            if let Some(rows) = as_array(d) {
                if rows.len() > 0 {
                    let ghost rowsm = data_arr(j)->Some_0;
                    let ghost instm = str_or_empty(inst_of(j));
                    let inst_s = str_or_empty_exec(inst);
                    let is_deriv = ends_with_swap(inst_s.as_str());
                    let n = rows.len();
                    let mut out: Vec<Event> = Vec::new();
                    let mut i: usize = 0;
                    while i < n
                        invariant
                            i <= n,
                            n == rows@.len(),
                            rowsm.len() == n,
                            forall|x: int| 0 <= x < n ==> rowsm[x] == json_model(rows@[x]),
                            inst_s@ == instm,
                            is_deriv == is_swap_spec(instm),
                            out@.map_values(|e: Event| e@) =~= Seq::new(
                                i as nat,
                                |x: int| ticker_row_event(instm, rowsm[x]),
                            ),
                        decreases n - i,
                    {
                        let ghost pre = out@.map_values(|e: Event| e@);
                        let ev = ticker_row(&rows[i], inst_s.as_str(), is_deriv);
                        out.push(ev);
                        proof {
                            assert(out@.map_values(|e: Event| e@) =~= pre.push(ev@));
                            assert(out@.map_values(|e: Event| e@) =~= Seq::new(
                                (i + 1) as nat,
                                |x: int| ticker_row_event(instm, rowsm[x]),
                            ));
                        }
                        i += 1;
                    }
                    proof {
                        assert(out@.map_values(|e: Event| e@) =~= classify_spec(text@));
                    }
                    return out;
                }
            }
        }
    }

    // Order-status messages.
    let chan_is_orders = match chan {
        Some(c) => str_eq(c, "orders") || str_eq(c, "orders-algo"),
        None => false,
    };
    if chan_is_orders {
        let derived = match obj_get(&v, "data") {
            Some(d) => match as_array(d) {
                Some(rows) => if rows.len() > 0 {
                    opt_owned(get_str_field(&rows[0], "instId"))
                } else {
                    None
                },
                None => None,
            },
            None => None,
        };
        proof {
            assert(match derived {
                Some(d) => order_derived(j) == Some(d@),
                None => order_derived(j) is None,
            });
        }
        let out = vec![Event::OrderAck { raw: text, derived }];
        proof {
            assert(out@.map_values(|x: Event| x@) =~= classify_spec(out@[0]->OrderAck_raw@));
        }
        return out;
    }

    // Batch-order responses.
    let code = get_str_field(&v, "code");
    if let Some(code_s) = code {
        let id_is_arr = match obj_get(&v, "id") {
            Some(idv) => as_array(idv).is_some(),
            None => false,
        };
        if id_is_arr {
            let out = vec![
                Event::BatchOrderAck { code: code_s.to_owned(), raw: text },
            ];
            proof {
                assert(out@.map_values(|x: Event| x@) =~= classify_spec(
                    out@[0]->BatchOrderAck_raw@,
                ));
            }
            return out;
        }
    }

    let out = vec![Event::Unknown { raw: text }];
    proof {
        assert(out@.map_values(|x: Event| x@) =~= classify_spec(out@[0]->Unknown_raw@));
    }
    out
}

} // verus!
