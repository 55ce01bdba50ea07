//! The command payload grammar.
//!
//! One frame carries one small object in the familiar brace notation:
//! `{ "p": <number>, "th": <number>, "tu": <number> }`, any subset of
//! the three members, in any order, with optional blanks between
//! tokens.  A number is an optional minus sign, one to seven integer
//! digits, and an optional fraction; fraction digits beyond the third
//! are ignored, since values are held in thousandths.  Exponent forms,
//! duplicate members, unknown members and trailing garbage are all
//! rejected — a rejected payload is discarded and the stream simply
//! awaits the next frame.
//!
//! [`parse_message_model`] is the grammar's mathematical meaning; the
//! executable parser is pinned to it exactly, including rejection.

use vstd::prelude::*;
use crate::command::{MsgModel, RxMessage};
use crate::units::{clamp_millis, Angle, Power, Turn, ANGLE_LIMIT_MILLIS, SCALAR_LIMIT_MILLIS};

verus! {

/// Blank bytes allowed between tokens: space, tab, line feed, return.
pub open spec fn is_blank(b: u8) -> bool {
    b == 32 || b == 9 || b == 10 || b == 13
}

/// Decimal digit bytes.
pub open spec fn is_digit(b: u8) -> bool {
    48 <= b <= 57
}

/// Index of the first non-blank byte at or after `i`.
pub open spec fn blank_end(s: Seq<u8>, i: int) -> int
    recommends
        0 <= i <= s.len(),
    decreases s.len() - i,
        when 0 <= i <= s.len()
{
    if i < s.len() && is_blank(s[i]) {
        blank_end(s, i + 1)
    } else {
        i
    }
}

/// `blank_end` lands on the first non-blank byte and skips only blanks.
pub proof fn lemma_blank_end(s: Seq<u8>, i: int)
    ensures
        0 <= i <= s.len() ==> {
            &&& i <= blank_end(s, i) <= s.len()
            &&& (blank_end(s, i) < s.len() ==> !is_blank(s[blank_end(s, i)]))
            &&& forall|j: int| i <= j < blank_end(s, i) ==> is_blank(s[j])
        },
    decreases s.len() - i,
{
    if 0 <= i < s.len() && is_blank(s[i]) {
        lemma_blank_end(s, i + 1);
    }
}

/// Index of the first non-digit byte at or after `i`.
pub open spec fn digits_end(s: Seq<u8>, i: int) -> int
    recommends
        0 <= i <= s.len(),
    decreases s.len() - i,
        when 0 <= i <= s.len()
{
    if i < s.len() && is_digit(s[i]) {
        digits_end(s, i + 1)
    } else {
        i
    }
}

/// `digits_end` lands on the first non-digit byte and skips only digits.
pub proof fn lemma_digits_end(s: Seq<u8>, i: int)
    ensures
        0 <= i <= s.len() ==> {
            &&& i <= digits_end(s, i) <= s.len()
            &&& (digits_end(s, i) < s.len() ==> !is_digit(s[digits_end(s, i)]))
            &&& forall|j: int| i <= j < digits_end(s, i) ==> is_digit(s[j])
        },
    decreases s.len() - i,
{
    if 0 <= i < s.len() && is_digit(s[i]) {
        lemma_digits_end(s, i + 1);
    }
}

/// The value of the decimal digit run `s[i..j)`.
pub open spec fn digits_val(s: Seq<u8>, i: int, j: int) -> int
    recommends
        0 <= i <= j <= s.len(),
    decreases j - i,
        when i <= j
{
    if i < j {
        digits_val(s, i, j - 1) * 10 + (s[j - 1] - 48)
    } else {
        0
    }
}

/// Powers of ten.
pub open spec fn p10(n: int) -> int
    decreases n,
{
    if n <= 0 {
        1
    } else {
        10 * p10(n - 1)
    }
}

/// A digit run's value is bounded by the power of ten of its length.
pub proof fn lemma_digits_val_bound(s: Seq<u8>, i: int, j: int)
    requires
        0 <= i <= j <= s.len(),
        forall|k: int| i <= k < j ==> is_digit(s[k]),
    ensures
        0 <= digits_val(s, i, j) < p10(j - i),
    decreases j - i,
{
    if i < j {
        lemma_digits_val_bound(s, i, j - 1);
    }
}

/// A parsed number: its value in thousandths, and where it ended.
pub struct NumModel {
    pub millis: int,
    pub end: int,
}

/// The fraction digits `s[f0..f1)` as thousandths: the first three
/// count, further digits are ignored.
pub open spec fn frac_millis(s: Seq<u8>, f0: int, f1: int) -> int {
    if f1 - f0 >= 3 {
        digits_val(s, f0, f0 + 3)
    } else if f1 - f0 == 2 {
        digits_val(s, f0, f1) * 10
    } else {
        digits_val(s, f0, f1) * 100
    }
}

/// Parse a number at `i`: `-? digit{1,7} (. digit+)?`, valued in
/// thousandths with the fraction truncated after three digits.
pub open spec fn parse_number(s: Seq<u8>, i: int) -> Option<NumModel>
    recommends
        0 <= i <= s.len(),
{
    let neg = i < s.len() && s[i] == 45;
    let d0 = if neg {
        i + 1
    } else {
        i
    };
    let d1 = digits_end(s, d0);
    if d1 == d0 || d1 - d0 > 7 {
        None
    } else {
        let whole = digits_val(s, d0, d1);
        if d1 < s.len() && s[d1] == 46 {
            let f0 = d1 + 1;
            let f1 = digits_end(s, f0);
            if f1 == f0 {
                None
            } else {
                let mag = whole * 1000 + frac_millis(s, f0, f1);
                Some(NumModel { millis: if neg {
                    -mag
                } else {
                    mag
                }, end: f1 })
            }
        } else {
            let mag = whole * 1000;
            Some(NumModel { millis: if neg {
                -mag
            } else {
                mag
            }, end: d1 })
        }
    }
}

/// A successfully parsed number makes progress, stays in bounds, and
/// its value in thousandths is below ten thousand million in size.
pub proof fn lemma_parse_number_end(s: Seq<u8>, i: int)
    ensures
        0 <= i <= s.len() && parse_number(s, i) is Some ==> {
            &&& i < parse_number(s, i).unwrap().end <= s.len()
            &&& -10_000_000_000 < parse_number(s, i).unwrap().millis < 10_000_000_000
        },
{
    if 0 <= i <= s.len() {
        let neg = i < s.len() && s[i] == 45;
        let d0: int = if neg {
            i + 1
        } else {
            i
        };
        lemma_digits_end(s, d0);
        let d1 = digits_end(s, d0);
        if d0 < d1 <= d0 + 7 {
            lemma_digits_val_bound(s, d0, d1);
            assert(p10(0) == 1);
            assert(p10(1) == 10);
            assert(p10(2) == 100);
            assert(p10(3) == 1000);
            assert(p10(4) == 10_000);
            assert(p10(5) == 100_000);
            assert(p10(6) == 1_000_000);
            assert(p10(7) == 10_000_000);
            assert(digits_val(s, d0, d1) < 10_000_000) by {
                lemma_p10_mono(d1 - d0, 7);
            }
            if d1 < s.len() && s[d1] == 46 {
                let f0 = d1 + 1;
                lemma_digits_end(s, f0);
                let f1 = digits_end(s, f0);
                if f1 > f0 {
                    lemma_frac_millis_bound(s, f0, f1);
                }
            }
        }
    }
}

/// `p10` is monotone.
pub proof fn lemma_p10_mono(a: int, b: int)
    requires
        a <= b,
    ensures
        p10(a) <= p10(b),
        1 <= p10(a),
    decreases b - a, b,
{
    if a < b {
        lemma_p10_mono(a, b - 1);
    } else if a <= 0 {
    } else {
        lemma_p10_mono(a - 1, a - 1);
    }
}

/// The fraction part is at most 999 thousandths.
pub proof fn lemma_frac_millis_bound(s: Seq<u8>, f0: int, f1: int)
    requires
        0 <= f0 < f1 <= s.len(),
        forall|k: int| f0 <= k < f1 ==> is_digit(s[k]),
    ensures
        0 <= frac_millis(s, f0, f1) <= 999,
{
    if f1 - f0 >= 3 {
        lemma_digits_val_bound(s, f0, f0 + 3);
        assert(p10(0) == 1);
        assert(p10(1) == 10);
        assert(p10(2) == 100);
        assert(p10(3) == 1000);
    } else if f1 - f0 == 2 {
        lemma_digits_val_bound(s, f0, f1);
        assert(p10(0) == 1);
        assert(p10(1) == 10);
        assert(p10(2) == 100);
    } else {
        lemma_digits_val_bound(s, f0, f1);
        assert(p10(0) == 1);
        assert(p10(1) == 10);
    }
}

/// Parse one member's `: <number>` part beginning at `k`, yielding the
/// raw thousandths and the index after the number's trailing blanks.
pub open spec fn parse_member_value(s: Seq<u8>, k: int) -> Option<(int, int)>
    recommends
        0 <= k <= s.len(),
{
    let c = blank_end(s, k);
    if !(c < s.len() && s[c] == 58) {
        None
    } else {
        let v0 = blank_end(s, c + 1);
        match parse_number(s, v0) {
            None => None,
            Some(nm) => Some((nm.millis, blank_end(s, nm.end))),
        }
    }
}

/// A successfully parsed member value makes progress and stays in
/// bounds; the raw thousandths are bounded as in a parsed number.
pub proof fn lemma_parse_member_value_end(s: Seq<u8>, k: int)
    ensures
        0 <= k <= s.len() && parse_member_value(s, k) is Some ==> {
            &&& k < parse_member_value(s, k).unwrap().1 <= s.len()
            &&& -10_000_000_000 < parse_member_value(s, k).unwrap().0 < 10_000_000_000
        },
{
    if 0 <= k <= s.len() {
        lemma_blank_end(s, k);
        let c = blank_end(s, k);
        if c < s.len() && s[c] == 58 {
            lemma_blank_end(s, c + 1);
            let v0 = blank_end(s, c + 1);
            lemma_parse_number_end(s, v0);
            if parse_number(s, v0) is Some {
                lemma_blank_end(s, parse_number(s, v0).unwrap().end);
            }
        }
    }
}

/// Parse the members of the object from position `i` (just inside the
/// brace or just after a comma), accumulating into `m`.  Yields the
/// finished record and the index of the byte expected to close the
/// object.  Values are clamped into their field's range as they land.
pub open spec fn parse_fields(s: Seq<u8>, i: int, m: MsgModel) -> Option<(MsgModel, int)>
    recommends
        0 <= i <= s.len(),
    decreases s.len() - i,
        when 0 <= i <= s.len() via parse_fields_decreases
{
    let j = blank_end(s, i);
    if !(j < s.len() && s[j] == 34) {
        None
    } else if j + 2 < s.len() && s[j + 1] == 112 && s[j + 2] == 34 {
        if m.p is Some {
            None
        } else {
            match parse_member_value(s, j + 3) {
                None => None,
                Some((v, e)) => {
                    let m2 = MsgModel {
                        p: Some(clamp_millis(v, SCALAR_LIMIT_MILLIS as int)),
                        th: m.th,
                        tu: m.tu,
                    };
                    if e < s.len() && s[e] == 44 {
                        parse_fields(s, e + 1, m2)
                    } else {
                        Some((m2, e))
                    }
                },
            }
        }
    } else if j + 3 < s.len() && s[j + 1] == 116 && s[j + 2] == 104 && s[j + 3] == 34 {
        if m.th is Some {
            None
        } else {
            match parse_member_value(s, j + 4) {
                None => None,
                Some((v, e)) => {
                    let m2 = MsgModel {
                        p: m.p,
                        th: Some(clamp_millis(v, ANGLE_LIMIT_MILLIS as int)),
                        tu: m.tu,
                    };
                    if e < s.len() && s[e] == 44 {
                        parse_fields(s, e + 1, m2)
                    } else {
                        Some((m2, e))
                    }
                },
            }
        }
    } else if j + 3 < s.len() && s[j + 1] == 116 && s[j + 2] == 117 && s[j + 3] == 34 {
        if m.tu is Some {
            None
        } else {
            match parse_member_value(s, j + 4) {
                None => None,
                Some((v, e)) => {
                    let m2 = MsgModel {
                        p: m.p,
                        th: m.th,
                        tu: Some(clamp_millis(v, SCALAR_LIMIT_MILLIS as int)),
                    };
                    if e < s.len() && s[e] == 44 {
                        parse_fields(s, e + 1, m2)
                    } else {
                        Some((m2, e))
                    }
                },
            }
        }
    } else {
        None
    }
}

#[via_fn]
proof fn parse_fields_decreases(s: Seq<u8>, i: int, m: MsgModel) {
    lemma_blank_end(s, i);
    let j = blank_end(s, i);
    lemma_parse_member_value_end(s, j + 3);
    lemma_parse_member_value_end(s, j + 4);
}

/// The grammar of a whole payload: blanks, an object of zero or more
/// known members, blanks, end of input.
pub open spec fn parse_message_model(s: Seq<u8>) -> Option<MsgModel> {
    let i = blank_end(s, 0);
    if !(i < s.len() && s[i] == 123) {
        None
    } else {
        let j = blank_end(s, i + 1);
        if j < s.len() && s[j] == 125 {
            if blank_end(s, j + 1) == s.len() {
                Some(MsgModel { p: None, th: None, tu: None })
            } else {
                None
            }
        } else {
            match parse_fields(s, i + 1, MsgModel { p: None, th: None, tu: None }) {
                None => None,
                Some((m, e)) => if e < s.len() && s[e] == 125 && blank_end(s, e + 1) == s.len() {
                    Some(m)
                } else {
                    None
                },
            }
        }
    }
}

/// Skip blanks: the executable twin of [`blank_end`].
fn skip_blanks(s: &Vec<u8>, i: usize) -> (r: usize)
    requires
        i <= s@.len(),
    ensures
        r as int == blank_end(s@, i as int),
        i <= r <= s@.len(),
{
    proof {
        lemma_blank_end(s@, i as int);
    }
    let n = s.len();
    let mut r = i;
    while r < n && (s[r] == 32 || s[r] == 9 || s[r] == 10 || s[r] == 13)
        invariant
            i <= r <= n,
            n == s@.len(),
            blank_end(s@, i as int) == blank_end(s@, r as int),
        decreases n - r,
    {
        r += 1;
    }
    r
}

/// Skip digits: the executable twin of [`digits_end`].
fn skip_digits(s: &Vec<u8>, i: usize) -> (r: usize)
    requires
        i <= s@.len(),
    ensures
        r as int == digits_end(s@, i as int),
        i <= r <= s@.len(),
{
    proof {
        lemma_digits_end(s@, i as int);
    }
    let n = s.len();
    let mut r = i;
    while r < n && 48 <= s[r] && s[r] <= 57
        invariant
            i <= r <= n,
            n == s@.len(),
            digits_end(s@, i as int) == digits_end(s@, r as int),
        decreases n - r,
    {
        r += 1;
    }
    r
}

/// The value of the digit run `s[from..to)`, at most seven digits.
fn digits_value(s: &Vec<u8>, from: usize, to: usize) -> (r: i64)
    requires
        from <= to <= s@.len(),
        to - from <= 7,
        forall|k: int| from <= k < to ==> is_digit(s@[k]),
    ensures
        r as int == digits_val(s@, from as int, to as int),
        0 <= r < 10_000_000,
{
    proof {
        assert(p10(0) == 1);
        assert(p10(1) == 10);
        assert(p10(2) == 100);
        assert(p10(3) == 1000);
        assert(p10(4) == 10_000);
        assert(p10(5) == 100_000);
        assert(p10(6) == 1_000_000);
        assert(p10(7) == 10_000_000);
    }
    let mut acc: i64 = 0;
    let mut k = from;
    while k < to
        invariant
            from <= k <= to,
            to <= s@.len(),
            to - from <= 7,
            forall|k2: int| from <= k2 < to ==> is_digit(s@[k2]),
            acc as int == digits_val(s@, from as int, k as int),
            0 <= acc,
            (acc as int) < p10(k as int - from as int),
            p10(6) == 1_000_000,
            p10(7) == 10_000_000,
        decreases to - k,
    {
        proof {
            lemma_p10_mono(k as int - from as int, 6);
            assert(p10(k as int + 1 - from as int) == 10 * p10(k as int - from as int));
        }
        let d = s[k] - 48;
        acc = acc * 10 + (d as i64);
        k += 1;
    }
    proof {
        lemma_p10_mono(to as int - from as int, 7);
    }
    acc
}

/// The fraction digits as thousandths: executable twin of
/// [`frac_millis`].
fn read_frac(s: &Vec<u8>, f0: usize, f1: usize) -> (r: i64)
    requires
        f0 < f1 <= s@.len(),
        forall|k: int| f0 <= k < f1 ==> is_digit(s@[k]),
    ensures
        r as int == frac_millis(s@, f0 as int, f1 as int),
        0 <= r <= 999,
{
    proof {
        lemma_frac_millis_bound(s@, f0 as int, f1 as int);
        assert(p10(0) == 1);
        assert(p10(1) == 10);
        assert(p10(2) == 100);
        assert(p10(3) == 1000);
    }
    if f1 - f0 >= 3 {
        proof {
            lemma_digits_val_bound(s@, f0 as int, f0 as int + 3);
        }
        digits_value(s, f0, f0 + 3)
    } else if f1 - f0 == 2 {
        proof {
            lemma_digits_val_bound(s@, f0 as int, f1 as int);
        }
        digits_value(s, f0, f1) * 10
    } else {
        proof {
            lemma_digits_val_bound(s@, f0 as int, f1 as int);
        }
        digits_value(s, f0, f1) * 100
    }
}

/// Parse a number: executable twin of [`parse_number`].
fn read_number(s: &Vec<u8>, i: usize) -> (r: Option<(i64, usize)>)
    requires
        i <= s@.len(),
    ensures
        match r {
            Some(ve) => {
                &&& parse_number(s@, i as int) == Some(
                    NumModel { millis: ve.0 as int, end: ve.1 as int },
                )
                &&& i < ve.1 <= s@.len()
                &&& -10_000_000_000 < ve.0 < 10_000_000_000
            },
            None => parse_number(s@, i as int) is None,
        },
{
    let n = s.len();
    let neg = i < n && s[i] == 45;
    let d0 = if neg {
        i + 1
    } else {
        i
    };
    let d1 = skip_digits(s, d0);
    if d1 == d0 || d1 - d0 > 7 {
        return None;
    }
    proof {
        lemma_digits_end(s@, d0 as int);
        lemma_digits_val_bound(s@, d0 as int, d1 as int);
    }
    let whole = digits_value(s, d0, d1);
    if d1 < n && s[d1] == 46 {
        let f0 = d1 + 1;
        let f1 = skip_digits(s, f0);
        if f1 == f0 {
            return None;
        }
        proof {
            lemma_digits_end(s@, f0 as int);
        }
        let frac = read_frac(s, f0, f1);
        let mag = whole * 1000 + frac;
        Some((if neg {
            -mag
        } else {
            mag
        }, f1))
    } else {
        let mag = whole * 1000;
        Some((if neg {
            -mag
        } else {
            mag
        }, d1))
    }
}

/// Parse one member's `: <number>` part: executable twin of
/// [`parse_member_value`].
fn read_member_value(s: &Vec<u8>, k: usize) -> (r: Option<(i64, usize)>)
    requires
        k <= s@.len(),
    ensures
        match r {
            Some(ve) => {
                &&& parse_member_value(s@, k as int) == Some((ve.0 as int, ve.1 as int))
                &&& k < ve.1 <= s@.len()
                &&& -10_000_000_000 < ve.0 < 10_000_000_000
            },
            None => parse_member_value(s@, k as int) is None,
        },
{
    let n = s.len();
    let c = skip_blanks(s, k);
    if !(c < n && s[c] == 58) {
        return None;
    }
    let v0 = skip_blanks(s, c + 1);
    match read_number(s, v0) {
        None => None,
        Some((v, e)) => {
            let after = skip_blanks(s, e);
            Some((v, after))
        },
    }
}

/// Parse the object's members: executable twin of [`parse_fields`].
fn read_fields(s: &Vec<u8>, i: usize, msg: RxMessage) -> (r: Option<(RxMessage, usize)>)
    requires
        i <= s@.len(),
        msg.wf(),
    ensures
        match r {
            Some(me) => {
                &&& parse_fields(s@, i as int, msg.model()) == Some((me.0.model(), me.1 as int))
                &&& me.0.wf()
                &&& me.1 <= s@.len()
            },
            None => parse_fields(s@, i as int, msg.model()) is None,
        },
    decreases s@.len() - i,
{
    let n = s.len();
    let j = skip_blanks(s, i);
    if !(j < n && s[j] == 34) {
        return None;
    }
    if n - j > 2 && s[j + 1] == 112 && s[j + 2] == 34 {
        if msg.p.is_some() {
            return None;
        }
        match read_member_value(s, j + 3) {
            None => None,
            Some((v, e)) => {
                let msg2 = RxMessage { p: Some(Power::new(v)), th: msg.th, tu: msg.tu };
                if e < n && s[e] == 44 {
                    read_fields(s, e + 1, msg2)
                } else {
                    Some((msg2, e))
                }
            },
        }
    } else if n - j > 3 && s[j + 1] == 116 && s[j + 2] == 104 && s[j + 3] == 34 {
        if msg.th.is_some() {
            return None;
        }
        match read_member_value(s, j + 4) {
            None => None,
            Some((v, e)) => {
                let msg2 = RxMessage { p: msg.p, th: Some(Angle::new(v)), tu: msg.tu };
                if e < n && s[e] == 44 {
                    read_fields(s, e + 1, msg2)
                } else {
                    Some((msg2, e))
                }
            },
        }
    } else if n - j > 3 && s[j + 1] == 116 && s[j + 2] == 117 && s[j + 3] == 34 {
        if msg.tu.is_some() {
            return None;
        }
        match read_member_value(s, j + 4) {
            None => None,
            Some((v, e)) => {
                let msg2 = RxMessage { p: msg.p, th: msg.th, tu: Some(Turn::new(v)) };
                if e < n && s[e] == 44 {
                    read_fields(s, e + 1, msg2)
                } else {
                    Some((msg2, e))
                }
            },
        }
    } else {
        None
    }
}

/// Parse one frame's payload into a command message.
///
/// Returns the decoded message exactly when the payload meets the
/// grammar of [`parse_message_model`]; any malformed payload yields
/// `None` and is simply discarded by the caller.
pub fn parse_message(payload: &Vec<u8>) -> (r: Option<RxMessage>)
    ensures
        match r {
            Some(msg) => parse_message_model(payload@) == Some(msg.model()) && msg.wf(),
            None => parse_message_model(payload@) is None,
        },
{
    let n = payload.len();
    let i = skip_blanks(payload, 0);
    if !(i < n && payload[i] == 123) {
        return None;
    }
    let j = skip_blanks(payload, i + 1);
    if j < n && payload[j] == 125 {
        if skip_blanks(payload, j + 1) == n {
            Some(RxMessage::empty())
        } else {
            None
        }
    } else {
        match read_fields(payload, i + 1, RxMessage::empty()) {
            None => None,
            Some((msg, e)) => {
                if e < n && payload[e] == 125 && skip_blanks(payload, e + 1) == n {
                    Some(msg)
                } else {
                    None
                }
            },
        }
    }
}

} // verus!
