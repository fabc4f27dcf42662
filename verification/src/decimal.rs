//! Parsing venue price strings. A price is a non-negative decimal literal,
//! digits with at most one interior point, e.g. `60000.1`. A failed parse
//! is reported to the caller; nothing is ever defaulted.

use vstd::prelude::*;
use vstd::string::StrSliceExecFns;
use crate::types::{Decimal, pow10};

verus! {

/// Digits in this library are at most this many per number, so that every
/// mantissa fits a machine word.
pub const MAX_DEC_DIGITS: usize = 18;

/// `c` is an ASCII digit (code points 48 through 57).
pub open spec fn is_digit(c: char) -> bool {
    48 <= (c as u32) && (c as u32) <= 57
}

pub open spec fn digit_val(c: char) -> int {
    (c as u32) - 48
}

pub open spec fn all_digits(s: Seq<char>) -> bool {
    forall|i: int| 0 <= i < s.len() ==> is_digit(s[i])
}

/// The integer a digit string denotes, most significant digit first.
pub open spec fn digits_val(s: Seq<char>) -> int
    decreases s.len(),
{
    if s.len() == 0 {
        0
    } else {
        digits_val(s.drop_last()) * 10 + digit_val(s.last())
    }
}

/// Split at the first `.`: the characters before it and after it.
/// `None` when the string holds no `.`.
pub open spec fn split_dot(s: Seq<char>) -> Option<(Seq<char>, Seq<char>)>
    decreases s.len(),
{
    if s.len() == 0 {
        None
    } else if s[0] == '.' {
        Some((Seq::empty(), s.drop_first()))
    } else {
        match split_dot(s.drop_first()) {
            None => None,
            Some(p) => Some((seq![s[0]].add(p.0), p.1)),
        }
    }
}

/// What `parse_decimal` returns: the exact decimal denoted by the string,
/// or `None` when the string is not a plain decimal literal of at most
/// `MAX_DEC_DIGITS` digits.
pub open spec fn dec_of(s: Seq<char>) -> Option<Decimal> {
    match split_dot(s) {
        None => if 1 <= s.len() && s.len() <= MAX_DEC_DIGITS && all_digits(s) {
            Some(Decimal { mantissa: digits_val(s) as u64, scale: 0 })
        } else {
            None
        },
        Some(p) => if 1 <= p.0.len() && 1 <= p.1.len() && p.0.len() + p.1.len() <= MAX_DEC_DIGITS
            && all_digits(p.0) && all_digits(p.1) {
            Some(
                Decimal {
                    mantissa: digits_val(p.0.add(p.1)) as u64,
                    scale: p.1.len() as u32,
                },
            )
        } else {
            None
        },
    }
}

pub proof fn lemma_pow10_pos(e: nat)
    ensures
        pow10(e) >= 1,
    decreases e,
{
    if e > 0 {
        lemma_pow10_pos((e - 1) as nat);
    }
}

pub proof fn lemma_pow10_mono(a: nat, b: nat)
    requires
        a <= b,
    ensures
        pow10(a) <= pow10(b),
    decreases b,
{
    if a < b {
        lemma_pow10_mono(a, (b - 1) as nat);
        lemma_pow10_pos((b - 1) as nat);
    }
}

pub proof fn lemma_pow10_18()
    ensures
        pow10(18) == 1000000000000000000,
{
    reveal_with_fuel(pow10, 19);
}

/// When the first `.` of `s` stands at `p`, `split_dot` cuts exactly there.
pub proof fn lemma_split_dot_at(s: Seq<char>, p: int)
    requires
        0 <= p < s.len(),
        s[p] == '.',
        forall|j: int| 0 <= j < p ==> s[j] != '.',
    ensures
        split_dot(s) == Some((s.take(p), s.skip(p + 1))),
    decreases p,
{
    if p == 0 {
        assert(s.take(0) =~= Seq::<char>::empty());
        assert(s.drop_first() =~= s.skip(1));
    } else {
        let t = s.drop_first();
        assert(t[p - 1] == '.');
        assert(forall|j: int| 0 <= j < p - 1 ==> t[j] != '.');
        lemma_split_dot_at(t, p - 1);
        assert(seq![s[0]].add(t.take(p - 1)) =~= s.take(p));
        assert(t.skip(p) =~= s.skip(p + 1));
    }
}

/// A string without `.` splits to `None`.
pub proof fn lemma_split_dot_none(s: Seq<char>)
    requires
        forall|j: int| 0 <= j < s.len() ==> s[j] != '.',
    ensures
        split_dot(s) is None,
    decreases s.len(),
{
    if s.len() > 0 {
        lemma_split_dot_none(s.drop_first());
    }
}

/// Parse a non-negative decimal literal exactly. Returns `None` on any
/// other shape: empty, a stray character, a leading or trailing point,
/// two points, or more than `MAX_DEC_DIGITS` digits.
pub fn parse_decimal(s: &str) -> (r: Option<Decimal>)
    ensures
        r == dec_of(s@),
{
    let n = s.unicode_len();

    // One full scan: the first point's position, and whether every other
    // character is a digit (a second point is not a digit, so it clears
    // `ok` too).
    let mut dot: Option<usize> = None;
    let mut ok: bool = true;
    let mut i: usize = 0;
    while i < n
        invariant
            i <= n,
            n == s@.len(),
            match dot {
                Some(p) => {
                    &&& p < i
                    &&& s@[p as int] == '.'
                    &&& (forall|j: int| 0 <= j < p ==> s@[j] != '.')
                    &&& (ok <==> (forall|j: int| 0 <= j < i && j != p ==> is_digit(s@[j])))
                },
                None => {
                    &&& (forall|j: int| 0 <= j < i ==> s@[j] != '.')
                    &&& (ok <==> (forall|j: int| 0 <= j < i ==> is_digit(s@[j])))
                },
            },
        decreases n - i,
    {
        let c = s.get_char(i);
        let u = c as u32;
        let c_is_digit = 48 <= u && u <= 57;
        proof {
            assert(('.' as u32) == 46);
            assert(c_is_digit ==> s@[i as int] != '.');
        }
        if c == '.' {
            match dot {
                None => {
                    dot = Some(i);
                },
                Some(_) => {
                    ok = false;
                },
            }
        } else if !c_is_digit {
            ok = false;
        }
        i += 1;
    }

    proof {
        match dot {
            Some(p) => {
                lemma_split_dot_at(s@, p as int);
            },
            None => {
                lemma_split_dot_none(s@);
            },
        }
    }

    // Shape checks, mirroring `dec_of` clause by clause.
    let digit_count: usize;
    match dot {
        Some(p) => {
            let ghost parts = split_dot(s@)->Some_0;
            proof {
                assert(parts.0.len() == p);
                assert(parts.1.len() == n - p - 1);
            }
            if !ok {
                proof {
                    let j = choose|j: int| 0 <= j < n && j != p && !is_digit(s@[j]);
                    if j < p {
                        assert(parts.0[j] == s@[j]);
                        assert(!all_digits(parts.0));
                    } else {
                        assert(parts.1[j - p - 1] == s@[j]);
                        assert(!all_digits(parts.1));
                    }
                }
                return None;
            }
            if p == 0 || p + 1 == n {
                return None;
            }
            proof {
                assert forall|x: int| 0 <= x < parts.0.len() implies is_digit(parts.0[x]) by {
                    assert(parts.0[x] == s@[x]);
                }
                assert forall|x: int| 0 <= x < parts.1.len() implies is_digit(parts.1[x]) by {
                    assert(parts.1[x] == s@[x + p + 1]);
                }
            }
            digit_count = n - 1;
        },
        None => {
            if !ok {
                proof {
                    let j = choose|j: int| 0 <= j < n && !is_digit(s@[j]);
                    assert(!all_digits(s@));
                }
                return None;
            }
            if n == 0 {
                return None;
            }
            digit_count = n;
        },
    }
    if digit_count > MAX_DEC_DIGITS {
        return None;
    }

    // Accumulate the mantissa over the digits, skipping the point.
    let mut m: u64 = 0;
    let ghost mut digs: Seq<char> = Seq::empty();
    let mut k: usize = 0;
    proof {
        assert(digs =~= s@.take(0));
    }
    while k < n
        invariant
            k <= n,
            n == s@.len(),
            1 <= digit_count <= MAX_DEC_DIGITS,
            match dot {
                Some(p) => {
                    &&& p < n
                    &&& s@[p as int] == '.'
                    &&& digit_count == n - 1
                    &&& digs == if k <= p {
                        s@.take(k as int)
                    } else {
                        s@.take(p as int).add(s@.subrange(p + 1, k as int))
                    }
                    &&& (forall|j: int| 0 <= j < n && j != p ==> is_digit(s@[j]))
                },
                None => {
                    &&& digs == s@.take(k as int)
                    &&& digit_count == n
                    &&& (forall|j: int| 0 <= j < n ==> is_digit(s@[j]))
                },
            },
            digs.len() <= digit_count,
            all_digits(digs),
            m == digits_val(digs),
            m < pow10(digs.len()),
        decreases n - k,
    {
        let is_dot_pos = match dot {
            Some(p) => k == p,
            None => false,
        };
        if !is_dot_pos {
            let c = s.get_char(k);
            let u = c as u32;
            proof {
                assert(is_digit(s@[k as int]));
                assert(digs.len() < digit_count);
                lemma_pow10_mono(digs.len(), 17);
                lemma_pow10_18();
                assert(pow10(18) == 10 * pow10(17));
            }
            let d = (u - 48) as u64;
            let ghost old_digs = digs;
            proof {
                digs = digs.push(s@[k as int]);
                assert(digs.drop_last() =~= old_digs);
                assert(digs.last() == s@[k as int]);
                assert(pow10(old_digs.len() + 1) == 10 * pow10(old_digs.len()));
            }
            m = m * 10 + d;
        }
        proof {
            match dot {
                Some(p) => {
                    if k < p {
                        assert(digs =~= s@.take(k + 1));
                    } else if k == p {
                        assert(digs =~= s@.take(p as int).add(s@.subrange(p + 1, p + 1)));
                    } else {
                        assert(digs =~= s@.take(p as int).add(s@.subrange(p + 1, k + 1)));
                    }
                },
                None => {
                    assert(digs =~= s@.take(k + 1));
                },
            }
        }
        k += 1;
    }

    match dot {
        Some(p) => {
            let ghost parts = split_dot(s@)->Some_0;
            proof {
                assert(s@.take(p as int) =~= parts.0);
                assert(s@.subrange(p + 1, n as int) =~= parts.1);
                assert(digs =~= parts.0.add(parts.1));
            }
            let scale = (n - 1 - p) as u32;
            Some(Decimal { mantissa: m, scale })
        },
        None => {
            proof {
                assert(digs =~= s@);
            }
            Some(Decimal { mantissa: m, scale: 0 })
        },
    }
}

} // verus!

verus! {

/// The character of one digit value.
pub open spec fn digit_char(d: int) -> char
    recommends
        0 <= d < 10,
{
    if d == 0 {
        '0'
    } else if d == 1 {
        '1'
    } else if d == 2 {
        '2'
    } else if d == 3 {
        '3'
    } else if d == 4 {
        '4'
    } else if d == 5 {
        '5'
    } else if d == 6 {
        '6'
    } else if d == 7 {
        '7'
    } else if d == 8 {
        '8'
    } else {
        '9'
    }
}

/// The decimal digits of `n`, most significant first.
pub open spec fn digits_of(n: int) -> Seq<char>
    decreases n,
{
    if n < 10 {
        seq![digit_char(n)]
    } else {
        digits_of(n / 10).push(digit_char(n % 10))
    }
}

/// The canonical text of a decimal: its mantissa's digits, padded with
/// zeros until the point has a digit on its left, the point inserted
/// `scale` places from the right.
pub open spec fn dec_text(d: Decimal) -> Seq<char> {
    let digs = digits_of(d.mantissa as int);
    let padded = if digs.len() >= d.scale + 1 {
        digs
    } else {
        Seq::new((d.scale + 1 - digs.len()) as nat, |i: int| '0').add(digs)
    };
    if d.scale == 0 {
        padded
    } else {
        padded.take(padded.len() - d.scale).add(seq!['.']).add(
            padded.skip(padded.len() - d.scale),
        )
    }
}

fn push_digit(out: &mut String, d: u64)
    requires
        d < 10,
    ensures
        final(out)@ == old(out)@ + seq![digit_char(d as int)],
{
    proof {
        reveal_strlit("0");
        reveal_strlit("1");
        reveal_strlit("2");
        reveal_strlit("3");
        reveal_strlit("4");
        reveal_strlit("5");
        reveal_strlit("6");
        reveal_strlit("7");
        reveal_strlit("8");
        reveal_strlit("9");
    }
    if d == 0 {
        out.append("0");
    } else if d == 1 {
        out.append("1");
    } else if d == 2 {
        out.append("2");
    } else if d == 3 {
        out.append("3");
    } else if d == 4 {
        out.append("4");
    } else if d == 5 {
        out.append("5");
    } else if d == 6 {
        out.append("6");
    } else if d == 7 {
        out.append("7");
    } else if d == 8 {
        out.append("8");
    } else {
        out.append("9");
    }
    proof {
        assert(final(out)@ =~= old(out)@ + seq![digit_char(d as int)]);
    }
}

fn push_digits(out: &mut String, n: u64)
    ensures
        final(out)@ == old(out)@ + digits_of(n as int),
    decreases n,
{
    if n < 10 {
        push_digit(out, n);
    } else {
        push_digits(out, n / 10);
        push_digit(out, n % 10);
        proof {
            assert(final(out)@ =~= old(out)@ + digits_of(n as int));
        }
    }
}

/// A number below `10^k` has at most `k` digits.
pub proof fn lemma_digits_of_len(n: int, k: nat)
    requires
        k >= 1,
        0 <= n < pow10(k),
    ensures
        1 <= digits_of(n).len() <= k,
    decreases k,
{
    if n < 10 {
    } else {
        if k == 1 {
            assert(pow10(1) == 10) by {
                reveal_with_fuel(pow10, 2);
            }
        }
        assert(pow10(k) == 10 * pow10((k - 1) as nat));
        lemma_pow10_pos((k - 1) as nat);
        assert(n / 10 < pow10((k - 1) as nat)) by (nonlinear_arith)
            requires
                0 <= n < 10 * pow10((k - 1) as nat),
                pow10((k - 1) as nat) >= 1,
        ;
        lemma_digits_of_len(n / 10, (k - 1) as nat);
    }
}

fn ndigits(n: u64) -> (r: usize)
    ensures
        r == digits_of(n as int).len(),
        1 <= r <= 20,
    decreases n,
{
    proof {
        assert(pow10(20) == 100000000000000000000) by {
            reveal_with_fuel(pow10, 21);
        }
        lemma_digits_of_len(n as int, 20);
    }
    if n < 10 {
        1
    } else {
        let rest = ndigits(n / 10);
        proof {
            assert(digits_of(n as int).len() == digits_of(n as int / 10).len() + 1);
        }
        rest + 1
    }
}

impl Decimal {
    /// Render the exact decimal as text, e.g. `60000.1`; the inverse of
    /// `parse_decimal` on canonical inputs.
    pub fn to_text(&self) -> (r: String)
        requires
            self.scale <= MAX_DEC_DIGITS,
        ensures
            r@ == dec_text(*self),
    {
        let nd = ndigits(self.mantissa);
        if self.scale == 0 {
            let mut out = String::new();
            push_digits(&mut out, self.mantissa);
            proof {
                assert(out@ =~= dec_text(*self));
            }
            return out;
        }
        let scale = self.scale as usize;
        let mut digs = String::new();
        let mut pad: usize = if nd >= scale + 1 {
            0
        } else {
            scale + 1 - nd
        };
        let ghost pad0 = pad as int;
        proof {
            reveal_strlit("0");
            assert(digs@ =~= Seq::new((pad0 - pad) as nat, |i: int| '0'));
        }
        while pad > 0
            invariant
                pad <= pad0,
                digs@ == Seq::new((pad0 - pad) as nat, |i: int| '0'),
            decreases pad,
        {
            let ghost pre = digs@;
            digs.append("0");
            proof {
                reveal_strlit("0");
                assert(digs@ =~= Seq::new((pad0 - (pad - 1)) as nat, |i: int| '0'));
            }
            pad -= 1;
        }
        push_digits(&mut digs, self.mantissa);
        let ghost padded = dec_text_padded(*self);
        proof {
            assert(digs@ =~= padded);
        }
        let total = digs.unicode_len();
        let int_part = digs.as_str().substring_char(0, total - scale);
        let mut out = int_part.to_owned();
        out.append(".");
        let frac = digs.as_str().substring_char(total - scale, total);
        out.append(frac);
        proof {
            reveal_strlit(".");
            assert("."@ =~= seq!['.']);
            assert(out@ =~= dec_text(*self));
        }
        out
    }
}

/// The mantissa's digits with the leading zeros the rendering pads in.
pub open spec fn dec_text_padded(d: Decimal) -> Seq<char> {
    let digs = digits_of(d.mantissa as int);
    if digs.len() >= d.scale + 1 {
        digs
    } else {
        Seq::new((d.scale + 1 - digs.len()) as nat, |i: int| '0').add(digs)
    }
}

} // verus!
