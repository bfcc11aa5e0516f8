//! Decimal numbers as text.
use vstd::prelude::*;

use crate::text::chars_of;

verus! {

/// The character of the digit `d`.
pub open spec fn digit_char(d: nat) -> char {
    (d + 48) as u8 as char
}

/// `n` in decimal digits, without leading zeros.
pub open spec fn decimal(n: nat) -> Seq<char>
    decreases n,
{
    if n < 10 {
        seq![digit_char(n)]
    } else {
        decimal(n / 10).push(digit_char(n % 10))
    }
}

/// `n` in decimal digits, with a minus sign where it is negative.
pub open spec fn signed_decimal(n: int) -> Seq<char> {
    if n < 0 {
        seq!['-'] + decimal((-n) as nat)
    } else {
        decimal(n as nat)
    }
}

/// Ten to the power `k`.
spec fn ten_to(k: nat) -> nat
    decreases k,
{
    if k == 0 {
        1
    } else {
        10 * ten_to((k - 1) as nat)
    }
}

/// A number below ten to the power `k` has at most `k` digits.
proof fn lemma_decimal_below(n: nat, k: nat)
    requires
        k > 0,
        n < ten_to(k),
    ensures
        decimal(n).len() <= k,
    decreases k,
{
    if n >= 10 {
        if k == 1 {
            assert(ten_to(0) == 1);
        } else {
            lemma_decimal_below(n / 10, (k - 1) as nat);
        }
    }
}

/// A number of 64 bits has at most twenty digits.
pub proof fn lemma_decimal_len(n: u64)
    ensures
        1 <= decimal(n as nat).len() <= 20,
{
    reveal_with_fuel(ten_to, 21);
    assert(ten_to(20) == 100_000_000_000_000_000_000);
    lemma_decimal_below(n as nat, 20);
}

/// The digits of a number are characters from `0` to `9`.
pub proof fn lemma_decimal_digits(n: nat)
    ensures
        forall|i: int| 0 <= i < decimal(n).len() ==> '0' <= #[trigger] decimal(n)[i] <= '9',
    decreases n,
{
    if n >= 10 {
        let front = decimal(n / 10);
        lemma_decimal_digits(n / 10);
        assert forall|i: int| 0 <= i < decimal(n).len() implies '0' <= #[trigger] decimal(n)[i]
            <= '9' by {
            if i < front.len() {
                assert(decimal(n)[i] == front[i]);
            } else {
                assert(decimal(n)[i] == digit_char(n % 10));
            }
        }
    }
}

/// `n` in decimal digits.
pub fn decimal_text(n: u64) -> (out: String)
    ensures
        out@ == decimal(n as nat),
    decreases n,
{
    let d: u8 = (n % 10) as u8;
    let c: char = (d + 48) as char;
    assert(c == digit_char(n as nat % 10));
    if n < 10 {
        let mut out = String::new();
        out.push(c);
        assert(out@ =~= seq![c]);
        out
    } else {
        let mut out = decimal_text(n / 10);
        out.push(c);
        out
    }
}

/// `n` in decimal digits, with a minus sign where it is negative.
pub fn signed_decimal_text(n: i64) -> (out: String)
    ensures
        out@ == signed_decimal(n as int),
{
    if n < 0 {
        let m: u64 = (-(n as i128)) as u64;
        let mut out = String::new();
        out.push('-');
        out.append(decimal_text(m).as_str());
        assert(out@ =~= seq!['-'] + decimal(m as nat));
        out
    } else {
        decimal_text(n as u64)
    }
}

/// The number that the decimal digits of `s` write, where `s` is nothing else.
pub open spec fn digits_value(s: Seq<char>) -> Option<nat>
    decreases s.len(),
{
    if s.len() == 0 {
        Some(0)
    } else {
        match digits_value(s.drop_last()) {
            Some(v) => if '0' <= s.last() <= '9' {
                Some((v * 10 + (s.last() as nat - 48)) as nat)
            } else {
                None
            },
            None => None,
        }
    }
}

/// The integer that `s` writes: an optional sign and one digit or more, within
/// the bounds. A minus sign belongs only to a type with negative numbers.
pub open spec fn parse_int(s: Seq<char>, min: int, max: int) -> Option<int> {
    let negative = s.len() > 0 && s[0] == '-' && min < 0;
    let body = if s.len() > 0 && (s[0] == '+' || negative) {
        s.skip(1)
    } else {
        s
    };
    if body.len() == 0 {
        None
    } else {
        match digits_value(body) {
            None => None,
            Some(v) => {
                let x = if negative {
                    -(v as int)
                } else {
                    v as int
                };
                if min <= x <= max {
                    Some(x)
                } else {
                    None
                }
            },
        }
    }
}

/// The digits of a number write it.
proof fn lemma_digits_of_decimal(n: nat)
    ensures
        digits_value(decimal(n)) == Some(n),
    decreases n,
{
    reveal_with_fuel(digits_value, 2);
    if n < 10 {
        assert(decimal(n).drop_last() =~= Seq::<char>::empty());
    } else {
        lemma_digits_of_decimal(n / 10);
        assert(decimal(n).drop_last() =~= decimal(n / 10));
    }
}

/// A number within the bounds reads back from its decimal digits.
pub proof fn law_decimal_reads_back(n: int, min: int, max: int)
    requires
        min <= n <= max,
    ensures
        parse_int(signed_decimal(n), min, max) == Some(n),
{
    let m = if n < 0 {
        (-n) as nat
    } else {
        n as nat
    };
    lemma_digits_of_decimal(m);
    lemma_decimal_digits(m);
    let s = signed_decimal(n);
    assert(decimal(m).len() > 0);
    if n < 0 {
        assert(s.skip(1) =~= decimal(m));
    } else {
        assert('0' <= s[0] <= '9');
    }
}

/// A text with more digits writes no smaller number.
proof fn lemma_digits_prefix(s: Seq<char>, n: int)
    requires
        0 <= n <= s.len(),
    ensures
        digits_value(s) matches Some(v) ==> digits_value(s.take(n)) matches Some(w) && w <= v,
    decreases s.len(),
{
    if n == s.len() {
        assert(s.take(n) =~= s);
    } else {
        lemma_digits_prefix(s.drop_last(), n);
        assert(s.drop_last().take(n) =~= s.take(n));
    }
}

/// The integer that `s` writes within the bounds.
fn parse_bounded(s: &str, min: i64, max: i64) -> (out: Option<i64>)
    ensures
        match out {
            Some(v) => parse_int(s@, min as int, max as int) == Some(v as int),
            None => parse_int(s@, min as int, max as int) is None,
        },
{
    let cs = chars_of(s);
    let negative: bool = cs.len() > 0 && cs[0] == '-' && min < 0;
    let start: usize = if cs.len() > 0 && (cs[0] == '+' || negative) {
        1
    } else {
        0
    };
    let ghost body = s@.skip(start as int);
    assert(start == 0 ==> body =~= s@);
    if start == cs.len() {
        return None;
    }
    let mut v: i128 = 0;
    let mut i: usize = start;
    assert(body.take(0) =~= Seq::<char>::empty());
    while i < cs.len()
        invariant
            cs@ == s@,
            start <= i <= cs@.len(),
            body == s@.skip(start as int),
            0 <= v <= 0xffff_ffff_ffff_ffff_ffff,
            digits_value(body.take(i - start)) == Some(v as nat),
            negative == (s@.len() > 0 && s@[0] == '-' && min < 0),
            start == (if s@.len() > 0 && (s@[0] == '+' || negative) {
                1int
            } else {
                0
            }),
            body.len() > 0,
        decreases cs@.len() - i,
    {
        let c = cs[i];
        proof {
            let next = body.take(i + 1 - start);
            assert(next.drop_last() =~= body.take(i - start));
            assert(next.last() == c);
            lemma_digits_prefix(body, i + 1 - start);
            assert(start == 0 ==> body =~= s@);
        }
        if !('0' <= c && c <= '9') {
            return None;
        }
        v = v * 10 + ((c as u32) as i128 - 48);
        if v > 0xffff_ffff_ffff_ffff {
            return None;
        }
        i = i + 1;
    }
    assert(body.take(body.len() as int) =~= body);
    assert(start == 0 ==> body =~= s@);
    let x: i128 = if negative {
        -v
    } else {
        v
    };
    if (min as i128) <= x && x <= (max as i128) {
        Some(x as i64)
    } else {
        None
    }
}

/// The number that `s` writes, as `str::parse::<i32>` reads it.
pub fn parse_i32(s: &str) -> (out: Option<i32>)
    ensures
        match out {
            Some(v) => parse_int(s@, i32::MIN as int, i32::MAX as int) == Some(v as int),
            None => parse_int(s@, i32::MIN as int, i32::MAX as int) is None,
        },
{
    match parse_bounded(s, i32::MIN as i64, i32::MAX as i64) {
        Some(v) => Some(v as i32),
        None => None,
    }
}

/// The number that `s` writes, as `str::parse::<u32>` reads it.
pub fn parse_u32(s: &str) -> (out: Option<u32>)
    ensures
        match out {
            Some(v) => parse_int(s@, 0, u32::MAX as int) == Some(v as int),
            None => parse_int(s@, 0, u32::MAX as int) is None,
        },
{
    match parse_bounded(s, 0, u32::MAX as i64) {
        Some(v) => Some(v as u32),
        None => None,
    }
}

/// The number that `s` writes, as `str::parse::<i64>` reads it.
pub fn parse_i64(s: &str) -> (out: Option<i64>)
    ensures
        match out {
            Some(v) => parse_int(s@, i64::MIN as int, i64::MAX as int) == Some(v as int),
            None => parse_int(s@, i64::MIN as int, i64::MAX as int) is None,
        },
{
    parse_bounded(s, i64::MIN, i64::MAX)
}

/// The digits of a number are those of its tenth, and behind them its last.
pub proof fn law_decimal(n: nat, d: nat)
    requires
        d < 10,
    ensures
        n > 0 ==> decimal(10 * n + d) == decimal(n) + decimal(d),
        decimal(d) == seq!["0123456789"@[d as int]],
{
    reveal_strlit("0123456789");
    let m = 10 * n + d;
    if n > 0 {
        assert(m / 10 == n && m % 10 == d);
        assert(decimal(m) =~= decimal(n) + decimal(d));
    }
}

/// The character is one of the ten digits.
pub open spec fn is_decimal_digit(c: char) -> bool {
    '0' <= c <= '9'
}

/// A number is read digit by digit. A text with anything else in it is none.
pub proof fn law_digits(s: Seq<char>, c: char)
    ensures
        digits_value(Seq::empty()) == Some(0nat),
        !is_decimal_digit(c) ==> digits_value(s.push(c)) is None,
        digits_value(s) is None ==> digits_value(s.push(c)) is None,
        is_decimal_digit(c) && digits_value(s) is Some ==> digits_value(s.push(c)) == Some(
            (digits_value(s)->Some_0 * 10 + (c as nat - '0' as nat)) as nat,
        ),
{
    assert(s.push(c).drop_last() =~= s);
}

/// A number may have a sign before its digits: a plus, or a minus where negative numbers
/// are wanted. Without digits, or outside the bounds, it is none.
pub proof fn law_parse_int(s: Seq<char>, min: int, max: int)
    requires
        s.len() > 0 ==> is_decimal_digit(s[0]),
    ensures
        s.len() == 0 ==> parse_int(s, min, max) is None,
        parse_int(seq!['+'] + s, min, max) == parse_int(s, min, max),
        s.len() > 0 ==> match digits_value(s) {
            Some(v) => if min <= v <= max {
                parse_int(s, min, max) == Some(v as int)
            } else {
                parse_int(s, min, max) is None
            },
            None => parse_int(s, min, max) is None,
        },
        min < 0 && s.len() > 0 ==> match digits_value(s) {
            Some(v) => if min <= -(v as int) <= max {
                parse_int(seq!['-'] + s, min, max) == Some(-(v as int))
            } else {
                parse_int(seq!['-'] + s, min, max) is None
            },
            None => parse_int(seq!['-'] + s, min, max) is None,
        },
        min >= 0 ==> parse_int(seq!['-'] + s, min, max) is None,
{
    let plus = seq!['+'] + s;
    let minus = seq!['-'] + s;
    assert(plus.skip(1) =~= s);
    assert(minus.skip(1) =~= s);
    assert(minus[0] == '-');
    if min >= 0 {
        lemma_no_digits(minus);
    }
}

/// A text that begins with something else than a digit writes no number.
proof fn lemma_no_digits(s: Seq<char>)
    requires
        s.len() > 0,
        !is_decimal_digit(s[0]),
    ensures
        digits_value(s) is None,
    decreases s.len(),
{
    if s.len() > 1 {
        assert(s.drop_last()[0] == s[0]);
        lemma_no_digits(s.drop_last());
    }
}

} // verus!
