//! Durations and their wire text.
use vstd::prelude::*;
use crate::codec::Codec;
use crate::error::{DecodeError, Failure, mismatch, type_mismatch};
use crate::wire::{Json, Kind, Value};

verus! {

/// A span of time with millisecond granularity. On the wire it is a string of decimal digits
/// followed by a unit: `h`, `m`, `s` or `ms` (`"30ms"`, `"1h"`).
#[derive(Clone, Copy, Debug, PartialEq, Eq)]
pub struct Duration {
    pub millis: u64,
}

impl Duration {
    pub fn from_millis(millis: u64) -> (r: Duration)
        ensures
            r.millis == millis,
    {
        Duration { millis }
    }

    pub fn as_millis(&self) -> (r: u64)
        ensures
            r == self.millis,
    {
        self.millis
    }
}

pub open spec fn digit_char(d: nat) -> char {
    if d == 0 {
        '0'
    } else if d == 1 {
        '1'
    } else if d == 2 {
        '2'
    } else if d == 3 {
        '3'
    } else if d == 4 {
        '4'
    } else if d == 5 {
        '5'
    } else if d == 6 {
        '6'
    } else if d == 7 {
        '7'
    } else if d == 8 {
        '8'
    } else {
        '9'
    }
}

pub open spec fn is_digit(c: char) -> bool {
    '0' <= c <= '9'
}

pub open spec fn digit_value(c: char) -> nat {
    (c as int - '0' as int) as nat
}

pub open spec fn all_digits(s: Seq<char>) -> bool {
    forall|i: int| 0 <= i < s.len() ==> is_digit(#[trigger] s[i])
}

/// The number that a string of decimal digits denotes.
pub open spec fn digits_value(s: Seq<char>) -> nat
    decreases s.len(),
{
    if s.len() == 0 {
        0
    } else {
        digits_value(s.drop_last()) * 10 + digit_value(s.last())
    }
}

/// The shortest decimal form of `n`.
pub open spec fn decimal(n: nat) -> Seq<char>
    decreases n,
{
    if n < 10 {
        seq![digit_char(n)]
    } else {
        decimal(n / 10).push(digit_char(n % 10))
    }
}

pub open spec fn unit_millis(c: char) -> nat {
    if c == 'h' {
        3_600_000
    } else if c == 'm' {
        60_000
    } else if c == 's' {
        1000
    } else {
        1
    }
}

/// The wire text of a duration: the largest unit that divides it exactly, and `ms` for zero.
pub open spec fn duration_text(ms: nat) -> Seq<char> {
    if ms > 0 && ms % 3_600_000 == 0 {
        decimal(ms / 3_600_000).push('h')
    } else if ms > 0 && ms % 60_000 == 0 {
        decimal(ms / 60_000).push('m')
    } else if ms > 0 && ms % 1000 == 0 {
        decimal(ms / 1000).push('s')
    } else {
        decimal(ms) + seq!['m', 's']
    }
}

/// The milliseconds that a wire text denotes, if it has the form of a duration.
pub open spec fn parse_duration(s: Seq<char>) -> Option<nat> {
    let n = s.len();
    if n >= 3 && s[n - 2] == 'm' && s[n - 1] == 's' && all_digits(s.take(n - 2)) {
        Some(digits_value(s.take(n - 2)))
    } else if n >= 2 && (s[n - 1] == 'h' || s[n - 1] == 'm' || s[n - 1] == 's') && all_digits(
        s.take(n - 1),
    ) {
        Some(digits_value(s.take(n - 1)) * unit_millis(s[n - 1]))
    } else {
        None
    }
}

/// The milliseconds of a wire text, where it is a duration that fits in `u64`.
pub open spec fn duration_millis(s: Seq<char>) -> Option<nat> {
    match parse_duration(s) {
        Some(v) => if v <= u64::MAX {
            Some(v)
        } else {
            None
        },
        None => None,
    }
}

proof fn lemma_digit(d: nat)
    requires
        d < 10,
    ensures
        is_digit(digit_char(d)),
        digit_value(digit_char(d)) == d,
{
}

proof fn lemma_decimal(n: nat)
    ensures
        all_digits(decimal(n)),
        decimal(n).len() >= 1,
        digits_value(decimal(n)) == n,
    decreases n,
{
    if n < 10 {
        lemma_digit(n);
        assert(decimal(n).drop_last() =~= Seq::<char>::empty());
        assert(digits_value(Seq::<char>::empty()) == 0);
    } else {
        lemma_decimal(n / 10);
        lemma_digit(n % 10);
        let s = decimal(n);
        assert(s.drop_last() =~= decimal(n / 10));
        assert(s.last() == digit_char(n % 10));
        assert(digits_value(s) == (n / 10) * 10 + n % 10);
        assert((n / 10) * 10 + n % 10 == n);
        assert(all_digits(s)) by {
            assert forall|i: int| 0 <= i < s.len() implies is_digit(#[trigger] s[i]) by {
                if i < s.len() - 1 {
                    assert(s[i] == decimal(n / 10)[i]);
                }
            }
        }
    }
}

proof fn lemma_digits_monotone(s: Seq<char>, k: int)
    requires
        0 <= k <= s.len(),
        all_digits(s),
    ensures
        digits_value(s.take(k)) <= digits_value(s),
    decreases s.len() - k,
{
    if k < s.len() {
        let t = s.take(k + 1);
        assert(t.drop_last() =~= s.take(k));
        assert(all_digits(t));
        lemma_digits_monotone(s, k + 1);
        if k + 1 == s.len() {
            assert(t =~= s);
        }
    } else {
        assert(s.take(k) =~= s);
    }
}

pub proof fn lemma_duration_text(ms: nat)
    ensures
        parse_duration(duration_text(ms)) == Some(ms),
{
    let t = duration_text(ms);
    let n = t.len();
    if ms > 0 && ms % 3_600_000 == 0 {
        lemma_decimal(ms / 3_600_000);
        assert(t.take(n - 1) =~= decimal(ms / 3_600_000));
        assert(is_digit(t[n - 2]));
    } else if ms > 0 && ms % 60_000 == 0 {
        lemma_decimal(ms / 60_000);
        assert(t.take(n - 1) =~= decimal(ms / 60_000));
        assert(is_digit(t[n - 2]));
    } else if ms > 0 && ms % 1000 == 0 {
        lemma_decimal(ms / 1000);
        assert(t.take(n - 1) =~= decimal(ms / 1000));
    } else {
        lemma_decimal(ms);
        assert(t.take(n - 2) =~= decimal(ms));
    }
}

fn digit_str(d: u64) -> (r: &'static str)
    requires
        d < 10,
    ensures
        r@ == seq![digit_char(d as nat)],
{
    proof {
        reveal_strlit("0");
        reveal_strlit("1");
        reveal_strlit("2");
        reveal_strlit("3");
        reveal_strlit("4");
        reveal_strlit("5");
        reveal_strlit("6");
        reveal_strlit("7");
        reveal_strlit("8");
        reveal_strlit("9");
    }
    let r = if d == 0 {
        "0"
    } else if d == 1 {
        "1"
    } else if d == 2 {
        "2"
    } else if d == 3 {
        "3"
    } else if d == 4 {
        "4"
    } else if d == 5 {
        "5"
    } else if d == 6 {
        "6"
    } else if d == 7 {
        "7"
    } else if d == 8 {
        "8"
    } else {
        "9"
    };
    assert(r@ =~= seq![digit_char(d as nat)]);
    r
}

/// The decimal digits of `n`.
pub fn decimal_string(n: u64) -> (r: String)
    ensures
        r@ == decimal(n as nat),
    decreases n,
{
    if n < 10 {
        String::from_str(digit_str(n))
    } else {
        let mut s = decimal_string(n / 10);
        s.append(digit_str(n % 10));
        s
    }
}

/// The wire text of a duration.
pub fn format_duration(d: Duration) -> (r: String)
    ensures
        r@ == duration_text(d.millis as nat),
{
    proof {
        reveal_strlit("h");
        reveal_strlit("m");
        reveal_strlit("s");
        reveal_strlit("ms");
    }
    let ms = d.millis;
    if ms > 0 && ms % 3_600_000 == 0 {
        let mut s = decimal_string(ms / 3_600_000);
        s.append("h");
        s
    } else if ms > 0 && ms % 60_000 == 0 {
        let mut s = decimal_string(ms / 60_000);
        s.append("m");
        s
    } else if ms > 0 && ms % 1000 == 0 {
        let mut s = decimal_string(ms / 1000);
        s.append("s");
        s
    } else {
        let mut s = decimal_string(ms);
        s.append("ms");
        s
    }
}

/// Reads `s[0 .. end]` as decimal digits; `None` where a character is not a digit or the
/// number does not fit in `u64`.
fn digits_u64(s: &str, end: usize) -> (r: Option<u64>)
    requires
        end <= s@.len(),
    ensures
        match r {
            Some(v) => all_digits(s@.take(end as int)) && digits_value(s@.take(end as int)) == v,
            None => !all_digits(s@.take(end as int)) || digits_value(s@.take(end as int)) > u64::MAX,
        },
{
    let mut val: u64 = 0;
    let mut i: usize = 0;
    while i < end
        invariant
            i <= end <= s@.len(),
            all_digits(s@.take(i as int)),
            digits_value(s@.take(i as int)) == val,
        decreases end - i,
    {
        let c = s.get_char(i);
        let ghost t = s@.take(i as int + 1);
        assert(t.drop_last() =~= s@.take(i as int));
        assert(t.last() == c);
        if !('0' <= c && c <= '9') {
            assert(!all_digits(s@.take(end as int))) by {
                assert(s@.take(end as int)[i as int] == c);
            }
            return None;
        }
        let d = (c as u32 - '0' as u32) as u64;
        if val > (u64::MAX - d) / 10 {
            proof {
                assert(digits_value(t) > u64::MAX) by (nonlinear_arith)
                    requires
                        digits_value(t) == val * 10 + d,
                        val > (u64::MAX - d) / 10,
                        d <= 9,
                ;
                if all_digits(s@.take(end as int)) {
                    assert(s@.take(end as int).take(i as int + 1) =~= t);
                    lemma_digits_monotone(s@.take(end as int), i as int + 1);
                }
            }
            return None;
        }
        assert(val * 10 + d <= u64::MAX) by (nonlinear_arith)
            requires
                val <= (u64::MAX - d) / 10,
                d <= 9,
        ;
        val = val * 10 + d;
        assert(all_digits(t)) by {
            assert forall|j: int| 0 <= j < t.len() implies is_digit(#[trigger] t[j]) by {
                if j < i {
                    assert(t[j] == s@.take(i as int)[j]);
                }
            }
        }
        i = i + 1;
    }
    Some(val)
}

/// Reads a duration's wire text.
pub fn parse_duration_text(s: &str) -> (r: Option<Duration>)
    ensures
        match r {
            Some(d) => duration_millis(s@) == Some(d.millis as nat),
            None => duration_millis(s@) is None,
        },
{
    let n = s.unicode_len();
    if n >= 3 && s.get_char(n - 2) == 'm' && s.get_char(n - 1) == 's' {
        match digits_u64(s, n - 2) {
            Some(v) => Some(Duration { millis: v }),
            None => None,
        }
    } else if n >= 2 && (s.get_char(n - 1) == 'h' || s.get_char(n - 1) == 'm' || s.get_char(n - 1)
        == 's') {
        let c = s.get_char(n - 1);
        let unit: u64 = if c == 'h' {
            3_600_000
        } else if c == 'm' {
            60_000
        } else {
            1000
        };
        match digits_u64(s, n - 1) {
            Some(v) => if v > u64::MAX / unit {
                assert(v * unit > u64::MAX) by (nonlinear_arith)
                    requires
                        v > u64::MAX / unit,
                        unit > 0,
                ;
                None
            } else {
                assert(v * unit <= u64::MAX) by (nonlinear_arith)
                    requires
                        v <= u64::MAX / unit,
                        unit > 0,
                ;
                Some(Duration { millis: v * unit })
            },
            None => {
                proof {
                    let p = s@.take((n - 1) as int);
                    if all_digits(p) {
                        assert(digits_value(p) * unit_millis(c) > u64::MAX) by (nonlinear_arith)
                            requires
                                digits_value(p) > u64::MAX,
                                unit_millis(c) >= 1,
                        ;
                    }
                }
                None
            },
        }
    } else {
        None
    }
}

/// A duration on the wire: its text.
impl Codec for Duration {
    open spec fn wf(&self) -> bool {
        true
    }

    open spec fn enc(&self) -> Json {
        Json::Str(duration_text(self.millis as nat))
    }

    open spec fn dec(w: Json, at: Seq<char>) -> Result<Json, Failure> {
        match w {
            Json::Str(s) => match duration_millis(s) {
                Some(v) => Ok(Json::Str(duration_text(v))),
                None => Err(Failure::InvalidDuration { raw: s }),
            },
            _ => Err(mismatch(at, Kind::String, w)),
        }
    }

    proof fn lemma_round_trip(&self, at: Seq<char>) {
        lemma_duration_text(self.millis as nat);
    }

    fn encode(&self) -> (r: Value) {
        Value::Str(format_duration(*self))
    }

    fn decode(w: &Value, at: &str) -> (r: Result<Duration, DecodeError>) {
        match w {
            Value::Str(s) => match parse_duration_text(s.as_str()) {
                Some(d) => Ok(d),
                None => Err(DecodeError::InvalidDuration { raw: s.clone() }),
            },
            _ => Err(type_mismatch(at, Kind::String, w)),
        }
    }
}

} // verus!
