//! Decimal numbers as text.

use crate::text::chars_of;
use vstd::prelude::*;

verus! {

broadcast use vstd::string::group_string_axioms;

/// The character that stands for the digit `d`.
pub open spec fn digit_char(d: nat) -> char {
    if d == 0 {
        '0'
    } else if d == 1 {
        '1'
    } else if d == 2 {
        '2'
    } else if d == 3 {
        '3'
    } else if d == 4 {
        '4'
    } else if d == 5 {
        '5'
    } else if d == 6 {
        '6'
    } else if d == 7 {
        '7'
    } else if d == 8 {
        '8'
    } else {
        '9'
    }
}

/// Whether `c` is one of the ten ASCII digits.
pub open spec fn is_digit(c: char) -> bool {
    '0' <= c <= '9'
}

/// What the digit `c` is worth.
pub open spec fn digit_value(c: char) -> nat {
    (c as u32 - '0' as u32) as nat
}

/// `n` in decimal, without leading zeros.
pub open spec fn decimal(n: nat) -> Seq<char>
    decreases n,
{
    if n < 10 {
        seq![digit_char(n)]
    } else {
        decimal(n / 10).push(digit_char(n % 10))
    }
}

/// `n` in decimal, with a minus sign where it is negative.
pub open spec fn signed_decimal(n: int) -> Seq<char> {
    if n < 0 {
        seq!['-'] + decimal((-n) as nat)
    } else {
        decimal(n as nat)
    }
}

/// The number that a run of digits writes.
pub open spec fn digits_value(s: Seq<char>) -> nat
    decreases s.len(),
{
    if s.len() == 0 {
        0
    } else {
        digits_value(s.drop_last()) * 10 + digit_value(s.last())
    }
}

/// Whether `s` is a nonempty run of digits.
pub open spec fn is_digits(s: Seq<char>) -> bool {
    s.len() > 0 && forall|i: int| 0 <= i < s.len() ==> is_digit(#[trigger] s[i])
}

/// The natural number that `s` writes: digits, with at most one plus sign before them.
pub open spec fn parsed_nat(s: Seq<char>) -> Option<nat> {
    let t = if s.len() > 0 && s[0] == '+' {
        s.skip(1)
    } else {
        s
    };
    if is_digits(t) {
        Some(digits_value(t))
    } else {
        None
    }
}

/// The integer that `s` writes: digits, with at most one sign before them.
pub open spec fn parsed_int(s: Seq<char>) -> Option<int> {
    if s.len() > 0 && s[0] == '-' {
        if is_digits(s.skip(1)) {
            Some(-digits_value(s.skip(1)))
        } else {
            None
        }
    } else {
        match parsed_nat(s) {
            Some(n) => Some(n as int),
            None => None,
        }
    }
}

/// The number that `s` writes, where it fits in 64 unsigned bits.
pub open spec fn parsed_u64(s: Seq<char>) -> Option<u64> {
    match parsed_nat(s) {
        Some(n) => if n <= u64::MAX {
            Some(n as u64)
        } else {
            None
        },
        None => None,
    }
}

/// The number that `s` writes, where it fits in 64 signed bits.
pub open spec fn parsed_i64(s: Seq<char>) -> Option<i64> {
    match parsed_int(s) {
        Some(n) => if i64::MIN <= n <= i64::MAX {
            Some(n as i64)
        } else {
            None
        },
        None => None,
    }
}

fn digit(d: u64) -> (c: char)
    requires
        d < 10,
    ensures
        c == digit_char(d as nat),
{
    if d == 0 {
        '0'
    } else if d == 1 {
        '1'
    } else if d == 2 {
        '2'
    } else if d == 3 {
        '3'
    } else if d == 4 {
        '4'
    } else if d == 5 {
        '5'
    } else if d == 6 {
        '6'
    } else if d == 7 {
        '7'
    } else if d == 8 {
        '8'
    } else {
        '9'
    }
}

/// Appends `n` in decimal.
pub fn push_decimal(out: &mut String, n: u64)
    ensures
        final(out)@ == old(out)@ + decimal(n as nat),
    decreases n,
{
    let ghost start = out@;
    if n >= 10 {
        push_decimal(out, n / 10);
    }
    let ghost mid = out@;
    out.push(digit(n % 10));
    proof {
        if n >= 10 {
            assert(mid.push(digit_char((n % 10) as nat)) =~= start + decimal((n / 10) as nat).push(
                digit_char((n % 10) as nat),
            ));
        } else {
            assert(start.push(digit_char(n as nat)) =~= start + seq![digit_char(n as nat)]);
        }
    }
}

/// `n` in decimal.
pub fn decimal_string(n: u64) -> (r: String)
    ensures
        r@ == decimal(n as nat),
{
    let mut out = String::new();
    push_decimal(&mut out, n);
    assert(Seq::<char>::empty() + decimal(n as nat) =~= decimal(n as nat));
    out
}

/// `n` in decimal, with a minus sign where it is negative.
pub fn signed_decimal_string(n: i64) -> (r: String)
    ensures
        r@ == signed_decimal(n as int),
{
    if n >= 0 {
        decimal_string(n as u64)
    } else {
        let magnitude: u64 = if n == i64::MIN {
            9_223_372_036_854_775_808u64
        } else {
            (-n) as u64
        };
        let mut out = String::new();
        out.push('-');
        push_decimal(&mut out, magnitude);
        assert(out@ =~= seq!['-'] + decimal(magnitude as nat));
        out
    }
}

fn parse_digits(chars: &Vec<char>, from: usize) -> (r: Option<u64>)
    requires
        from <= chars@.len(),
    ensures
        r matches Some(n) ==> is_digits(chars@.skip(from as int)) && n == digits_value(
            chars@.skip(from as int),
        ),
        r is None ==> !is_digits(chars@.skip(from as int)) || digits_value(
            chars@.skip(from as int),
        ) > u64::MAX,
{
    let ghost s = chars@.skip(from as int);
    if from == chars.len() {
        return None;
    }
    let mut value: u64 = 0;
    let mut over: bool = false;
    let mut i: usize = from;
    assert(s.take(0) =~= Seq::empty());
    while i < chars.len()
        invariant
            from <= i <= chars@.len(),
            s == chars@.skip(from as int),
            forall|k: int| 0 <= k < i - from ==> is_digit(#[trigger] s[k]),
            !over ==> value == digits_value(s.take(i - from)),
            over ==> digits_value(s.take(i - from)) > u64::MAX,
        decreases chars@.len() - i,
    {
        let c = chars[i];
        if c < '0' || c > '9' {
            assert(!is_digit(s[i - from]));
            return None;
        }
        assert(s[i - from] == c);
        let d: u64 = (c as u32 - '0' as u32) as u64;
        proof {
            let t = s.take(i - from + 1);
            assert(t.drop_last() =~= s.take(i - from));
            assert(t.last() == c);
        }
        if !over {
            if value > (u64::MAX - d) / 10 {
                over = true;
            } else {
                value = value * 10 + d;
            }
        }
        i = i + 1;
    }
    assert(s.take(s.len() as int) =~= s);
    if over {
        None
    } else {
        Some(value)
    }
}

/// The number that `s` writes, where it fits in 64 unsigned bits.
pub fn parse_u64(s: &str) -> (r: Option<u64>)
    ensures
        r == parsed_u64(s@),
{
    let chars = chars_of(s);
    if chars.len() > 0 && chars[0] == '+' {
        parse_digits(&chars, 1)
    } else {
        assert(chars@.skip(0) =~= chars@);
        parse_digits(&chars, 0)
    }
}

/// The number that `s` writes, where it fits in 64 signed bits.
pub fn parse_i64(s: &str) -> (r: Option<i64>)
    ensures
        r == parsed_i64(s@),
{
    let chars = chars_of(s);
    if chars.len() > 0 && chars[0] == '-' {
        match parse_digits(&chars, 1) {
            Some(n) => {
                if n <= 9_223_372_036_854_775_807u64 {
                    Some(-(n as i64))
                } else if n == 9_223_372_036_854_775_808u64 {
                    Some(i64::MIN)
                } else {
                    None
                }
            },
            None => None,
        }
    } else {
        match parse_u64(s) {
            Some(n) => {
                if n <= 9_223_372_036_854_775_807u64 {
                    Some(n as i64)
                } else {
                    None
                }
            },
            None => None,
        }
    }
}

/// The decimal form of a number is a run of digits that writes that number.
pub proof fn lemma_decimal_value(n: nat)
    ensures
        is_digits(decimal(n)),
        digits_value(decimal(n)) == n,
    decreases n,
{
    if n < 10 {
        let s = decimal(n);
        assert(s.drop_last() =~= Seq::empty());
        assert(s.last() == digit_char(n));
        assert(digits_value(s.drop_last()) == 0);
    } else {
        lemma_decimal_value(n / 10);
        let s = decimal(n);
        assert(s.drop_last() =~= decimal(n / 10));
        assert(s.last() == digit_char(n % 10));
        assert forall|i: int| 0 <= i < s.len() implies is_digit(#[trigger] s[i]) by {
            if i < s.len() - 1 {
                assert(s[i] == decimal(n / 10)[i]);
            }
        }
    }
}

/// Reading back the decimal form of a number gives the number.
pub proof fn parse_inverts_decimal(n: i64, m: u64)
    ensures
        parsed_i64(signed_decimal(n as int)) == Some(n),
        parsed_u64(decimal(m as nat)) == Some(m),
{
    lemma_decimal_value(m as nat);
    assert(is_digit(decimal(m as nat)[0]));
    if n < 0 {
        lemma_decimal_value((-n) as nat);
        assert(signed_decimal(n as int).skip(1) =~= decimal((-n) as nat));
    } else {
        lemma_decimal_value(n as nat);
        assert(is_digit(decimal(n as nat)[0]));
    }
}

/// The number that a setting writes, where it is at most `max`, else the default.
pub open spec fn setting(value: Option<Seq<char>>, max: nat, default: nat) -> nat {
    match value {
        Some(s) => match parsed_u64(s) {
            Some(n) => if n <= max {
                n as nat
            } else {
                default
            },
            None => default,
        },
        None => default,
    }
}

/// The number that a setting writes, where it fits, else the default.
pub fn setting_u64(value: Option<&str>, default: u64) -> (r: u64)
    ensures
        r == setting(opt_str(value), u64::MAX as nat, default as nat),
{
    match value {
        Some(s) => match parse_u64(s) {
            Some(n) => n,
            None => default,
        },
        None => default,
    }
}

/// The number that a setting writes, where it fits, else the default.
pub fn setting_u32(value: Option<&str>, default: u32) -> (r: u32)
    ensures
        r == setting(opt_str(value), u32::MAX as nat, default as nat),
{
    match value {
        Some(s) => match parse_u64(s) {
            Some(n) => {
                if n <= u32::MAX as u64 {
                    n as u32
                } else {
                    default
                }
            },
            None => default,
        },
        None => default,
    }
}

/// The number that a setting writes, where it fits, else the default.
pub fn setting_u16(value: Option<&str>, default: u16) -> (r: u16)
    ensures
        r == setting(opt_str(value), u16::MAX as nat, default as nat),
{
    match value {
        Some(s) => match parse_u64(s) {
            Some(n) => {
                if n <= u16::MAX as u64 {
                    n as u16
                } else {
                    default
                }
            },
            None => default,
        },
        None => default,
    }
}

/// The number that a setting writes, where it fits, else the default.
pub fn setting_usize(value: Option<&str>, default: usize) -> (r: usize)
    ensures
        r == setting(opt_str(value), usize::MAX as nat, default as nat),
{
    match value {
        Some(s) => match parse_u64(s) {
            Some(n) => {
                if n <= usize::MAX as u64 {
                    n as usize
                } else {
                    default
                }
            },
            None => default,
        },
        None => default,
    }
}

/// The view of an optional string slice.
pub open spec fn opt_str(o: Option<&str>) -> Option<Seq<char>> {
    match o {
        Some(s) => Some(s@),
        None => None,
    }
}

} // verus!
