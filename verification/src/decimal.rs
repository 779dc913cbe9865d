//! Decimal rendering and parsing of unsigned integers, with the semantics of
//! std's `Display` for integers and `u32::from_str` / `u16::from_str`.

use vstd::prelude::*;
use crate::text::{push_char, to_chars};

verus! {

pub open spec fn is_ascii_digit(c: char) -> bool {
    '0' <= c && c <= '9'
}

/// The ASCII digit for `d` (`0 <= d < 10`).
pub open spec fn digit_char(d: int) -> char {
    if d == 0 {
        '0'
    } else if d == 1 {
        '1'
    } else if d == 2 {
        '2'
    } else if d == 3 {
        '3'
    } else if d == 4 {
        '4'
    } else if d == 5 {
        '5'
    } else if d == 6 {
        '6'
    } else if d == 7 {
        '7'
    } else if d == 8 {
        '8'
    } else {
        '9'
    }
}

/// Decimal rendering of `n` without leading zeros (`"0"` for zero).
pub open spec fn decimal_seq(n: nat) -> Seq<char>
    decreases n,
{
    if n < 10 {
        seq![digit_char(n as int)]
    } else {
        decimal_seq(n / 10).push(digit_char((n % 10) as int))
    }
}

/// The number a sequence of ASCII digits denotes.
pub open spec fn digits_value(s: Seq<char>) -> nat
    decreases s.len(),
{
    if s.len() == 0 {
        0
    } else {
        digits_value(s.drop_last()) * 10 + ((s.last() as int - 48) as nat)
    }
}

pub open spec fn all_digits(s: Seq<char>) -> bool {
    forall|i: int| 0 <= i < s.len() ==> is_ascii_digit(#[trigger] s[i])
}

/// The digits after an optional leading `+`.
pub open spec fn unsigned_body(s: Seq<char>) -> Seq<char> {
    if s.len() > 0 && s[0] == '+' {
        s.drop_first()
    } else {
        s
    }
}

/// What std's `FromStr` for an unsigned integer type with maximum `max`
/// returns: the value of an optional `+` followed by one or more ASCII digits,
/// when it does not exceed `max`; nothing otherwise.
pub open spec fn parse_unsigned(s: Seq<char>, max: nat) -> Option<nat> {
    let d = unsigned_body(s);
    if d.len() > 0 && all_digits(d) && digits_value(d) <= max {
        Some(digits_value(d))
    } else {
        None
    }
}

pub fn digit(d: u64) -> (c: char)
    requires
        d < 10,
    ensures
        c == digit_char(d as int),
{
    if d == 0 {
        '0'
    } else if d == 1 {
        '1'
    } else if d == 2 {
        '2'
    } else if d == 3 {
        '3'
    } else if d == 4 {
        '4'
    } else if d == 5 {
        '5'
    } else if d == 6 {
        '6'
    } else if d == 7 {
        '7'
    } else if d == 8 {
        '8'
    } else {
        '9'
    }
}

/// Appends the decimal rendering of `n` to `out`.
pub fn push_decimal(out: &mut String, n: u64)
    ensures
        final(out)@ == old(out)@ + decimal_seq(n as nat),
    decreases n,
{
    if n >= 10 {
        push_decimal(out, n / 10);
    }
    push_char(out, digit(n % 10));
    assert(final(out)@ =~= old(out)@ + decimal_seq(n as nat));
}

/// `n.to_string()`.
pub fn decimal_string(n: u64) -> (s: String)
    ensures
        s@ == decimal_seq(n as nat),
{
    let mut s = String::new();
    push_decimal(&mut s, n);
    assert(s@ =~= decimal_seq(n as nat));
    s
}

proof fn lemma_digits_push(s: Seq<char>, c: char)
    ensures
        digits_value(s.push(c)) == digits_value(s) * 10 + ((c as int - 48) as nat),
{
    assert(s.push(c).drop_last() =~= s);
}

/// Parses `s` as an unsigned integer no larger than `max`.
pub fn parse_unsigned_bounded(s: &str, max: u64) -> (r: Option<u64>)
    requires
        max <= u32::MAX,
    ensures
        match parse_unsigned(s@, max as nat) {
            Some(v) => r == Some(v as u64),
            None => r is None,
        },
{
    let v = to_chars(s);
    let n = v.len();
    let start: usize = if n > 0 && v[0] == '+' {
        1
    } else {
        0
    };
    let ghost d = unsigned_body(s@);
    assert(d =~= v@.subrange(start as int, n as int));
    if start == n {
        return None;
    }
    let mut acc: u64 = 0;
    let mut i: usize = start;
    assert(v@.subrange(start as int, start as int) =~= Seq::<char>::empty());
    while i < n
        invariant
            n == v@.len(),
            v@ == s@,
            start <= i <= n,
            max <= u32::MAX,
            d == unsigned_body(s@),
            d == v@.subrange(start as int, n as int),
            all_digits(v@.subrange(start as int, i as int)),
            acc as int == if digits_value(v@.subrange(start as int, i as int)) <= max {
                digits_value(v@.subrange(start as int, i as int)) as int
            } else {
                max + 1
            },
        decreases n - i,
    {
        let c = v[i];
        if !('0' <= c && c <= '9') {
            assert(d[i - start] == c);
            assert(!is_ascii_digit(d[i - start]));
            assert(!all_digits(d));
            return None;
        }
        let ghost pre = v@.subrange(start as int, i as int);
        proof {
            lemma_digits_push(pre, c);
            assert(v@.subrange(start as int, i + 1) =~= pre.push(c));
        }
        let dv: u64 = (c as u32 - 48) as u64;
        acc = acc * 10 + dv;
        if acc > max {
            acc = max + 1;
        }
        i = i + 1;
        assert(all_digits(v@.subrange(start as int, i as int))) by {
            assert forall|k: int| 0 <= k < i - start implies is_ascii_digit(
                #[trigger] v@.subrange(start as int, i as int)[k],
            ) by {
                if k < i - 1 - start {
                    assert(v@.subrange(start as int, i as int)[k] == pre[k]);
                }
            }
        }
    }
    assert(v@.subrange(start as int, n as int) == d);
    if acc > max {
        None
    } else {
        Some(acc)
    }
}

/// `u32::from_str`.
pub fn parse_u32(s: &str) -> (r: Option<u32>)
    ensures
        match parse_unsigned(s@, u32::MAX as nat) {
            Some(v) => r == Some(v as u32),
            None => r is None,
        },
{
    match parse_unsigned_bounded(s, u32::MAX as u64) {
        Some(v) => Some(v as u32),
        None => None,
    }
}

/// `u16::from_str`.
pub fn parse_u16(s: &str) -> (r: Option<u16>)
    ensures
        match parse_unsigned(s@, u16::MAX as nat) {
            Some(v) => r == Some(v as u16),
            None => r is None,
        },
{
    match parse_unsigned_bounded(s, u16::MAX as u64) {
        Some(v) => Some(v as u16),
        None => None,
    }
}

proof fn lemma_digit_char(d: int)
    requires
        0 <= d < 10,
    ensures
        digit_char(d) as int - 48 == d,
        is_ascii_digit(digit_char(d)),
        digit_char(d) != '+',
{
    assert(d == 0 || d == 1 || d == 2 || d == 3 || d == 4 || d == 5 || d == 6 || d == 7 || d == 8
        || d == 9);
}

proof fn lemma_decimal_digits(n: nat)
    ensures
        decimal_seq(n).len() > 0,
        all_digits(decimal_seq(n)),
        digits_value(decimal_seq(n)) == n,
        decimal_seq(n)[0] != '+',
    decreases n,
{
    if n >= 10 {
        lemma_decimal_digits(n / 10);
        let p = decimal_seq(n / 10);
        lemma_digit_char((n % 10) as int);
        lemma_digits_push(p, digit_char((n % 10) as int));
        assert(n == (n / 10) * 10 + n % 10) by (nonlinear_arith);
        assert(decimal_seq(n) == p.push(digit_char((n % 10) as int)));
        assert(digits_value(p) == n / 10);
        assert(digits_value(decimal_seq(n)) == (n / 10) * 10 + n % 10);
        assert forall|i: int| 0 <= i < decimal_seq(n).len() implies is_ascii_digit(
            #[trigger] decimal_seq(n)[i],
        ) by {
            if i < p.len() {
                assert(decimal_seq(n)[i] == p[i]);
            }
        }
    } else {
        lemma_digit_char(n as int);
        assert(decimal_seq(n) == seq![digit_char(n as int)]);
        assert(decimal_seq(n).drop_last() =~= Seq::<char>::empty());
        assert(digits_value(Seq::<char>::empty()) == 0);
        assert(decimal_seq(n).last() == digit_char(n as int));
    }
}

/// Rendering a number in decimal and parsing it back gives the number, for
/// every number the target type can hold.
pub proof fn law_parse_decimal_roundtrip(n: nat, max: nat)
    requires
        n <= max,
    ensures
        parse_unsigned(decimal_seq(n), max) == Some(n),
{
    lemma_decimal_digits(n);
    assert(unsigned_body(decimal_seq(n)) == decimal_seq(n));
}

} // verus!
