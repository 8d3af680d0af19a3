//! Decimal numbers as text.
use vstd::prelude::*;

verus! {

/// Whether `c` is one of the ten decimal digits.
pub open spec fn is_digit(c: char) -> bool {
    '0' <= c <= '9'
}

/// Whether `s` holds decimal digits only.
pub open spec fn all_digits(s: Seq<char>) -> bool {
    forall|i: int| 0 <= i < s.len() ==> is_digit(#[trigger] s[i])
}

/// The number that a run of decimal digits writes.
pub open spec fn digits_value(s: Seq<char>) -> nat
    decreases s.len(),
{
    if s.len() == 0 {
        0
    } else {
        (digits_value(s.drop_last()) * 10 + (s.last() as int - '0' as int)) as nat
    }
}

/// The decimal digit of a number below ten.
pub open spec fn digit_char(n: nat) -> char {
    ((n + 48) as u8) as char
}

/// `n` in decimal, without leading zeros.
pub open spec fn decimal(n: nat) -> Seq<char>
    decreases n,
{
    if n < 10 {
        seq![digit_char(n)]
    } else {
        decimal(n / 10).push(digit_char(n % 10))
    }
}

/// `n` in decimal, with a sign where it is negative.
pub open spec fn signed_decimal(n: int) -> Seq<char> {
    if n < 0 {
        seq!['-'] + decimal((-n) as nat)
    } else {
        decimal(n as nat)
    }
}

/// The number that `s` writes, where it is written as one no greater than `max`: one digit or
/// more, with a plus sign before them or not.
pub open spec fn parsed(s: Seq<char>, max: nat) -> Option<nat> {
    let digits = if s.len() > 0 && s[0] == '+' {
        s.skip(1)
    } else {
        s
    };
    if digits.len() > 0 && all_digits(digits) && digits_value(digits) <= max {
        Some(digits_value(digits))
    } else {
        None
    }
}

/// The `i32` that `s` writes: one digit or more, with a sign before them or not.
pub open spec fn parsed_i32(s: Seq<char>) -> Option<int> {
    if s.len() > 0 && s[0] == '-' {
        let digits = s.skip(1);
        if digits.len() > 0 && all_digits(digits) && digits_value(digits) <= 0x80000000 {
            Some(-(digits_value(digits) as int))
        } else {
            None
        }
    } else {
        match parsed(s, i32::MAX as nat) {
            Some(n) => Some(n as int),
            None => None,
        }
    }
}

/// A number's decimal digits are digits, and they write that number.
pub proof fn decimal_value(n: nat)
    ensures
        decimal(n).len() >= 1,
        all_digits(decimal(n)),
        digits_value(decimal(n)) == n,
    decreases n,
{
    reveal_with_fuel(digits_value, 2);
    if n < 10 {
        assert(decimal(n).drop_last() =~= Seq::<char>::empty());
    } else {
        decimal_value(n / 10);
        let front = decimal(n / 10);
        assert(decimal(n).drop_last() =~= front);
        assert forall|i: int| 0 <= i < decimal(n).len() implies is_digit(#[trigger] decimal(n)[i]) by {
            if i < front.len() {
                assert(decimal(n)[i] == front[i]);
            }
        }
    }
}

/// Reading back what was written gives the same number.
pub proof fn decimal_round_trip(n: nat, max: nat)
    requires
        n <= max,
    ensures
        parsed(decimal(n), max) == Some(n),
{
    decimal_value(n);
    assert(is_digit(decimal(n)[0]));
}

/// Whether `s` is a number in plain decimal: digits, and no zero before others.
pub open spec fn is_plain(s: Seq<char>) -> bool {
    s.len() > 0 && all_digits(s) && (s.len() == 1 || s[0] != '0')
}

/// A number in plain decimal is written as it was read.
pub proof fn plain_round_trip(s: Seq<char>)
    requires
        is_plain(s),
    ensures
        decimal(digits_value(s)) == s,
        s.len() > 1 ==> digits_value(s) >= 10,
        s[0] != '0' ==> digits_value(s) >= 1,
    decreases s.len(),
{
    reveal_with_fuel(digits_value, 2);
    let front = s.drop_last();
    let d = (s.last() as int - '0' as int) as nat;
    assert(is_digit(s[s.len() - 1]));
    assert(digit_char(d) == s.last());
    if s.len() == 1 {
        assert(front =~= Seq::<char>::empty());
        assert(s =~= seq![s.last()]);
    } else {
        assert forall|i: int| 0 <= i < front.len() implies is_digit(#[trigger] front[i]) by {
            assert(front[i] == s[i]);
        }
        assert(front[0] == s[0]);
        plain_round_trip(front);
        let n = digits_value(s);
        assert(n == digits_value(front) * 10 + d);
        assert(n / 10 == digits_value(front) && n % 10 == d);
        assert(s =~= front.push(s.last()));
    }
}

/// More digits never write a smaller number.
proof fn digits_value_grows(s: Seq<char>, k: int)
    requires
        all_digits(s),
        0 <= k <= s.len(),
    ensures
        digits_value(s.take(k)) <= digits_value(s),
    decreases s.len() - k,
{
    if k < s.len() {
        assert(is_digit(s[k]));
        assert(s.take(k + 1).drop_last() =~= s.take(k));
        assert(s.take(k + 1).last() == s[k]);
        digits_value_grows(s, k + 1);
    } else {
        assert(s.take(k) =~= s);
    }
}

/// `n` in decimal.
pub fn format_u64(n: u64) -> (r: String)
    ensures
        r@ == decimal(n as nat),
    decreases n,
{
    let last: char = ((n % 10) as u8 + 48) as char;
    if n < 10 {
        let mut s = String::new();
        s.push(last);
        proof {
            assert(s@ =~= seq![last]);
        }
        s
    } else {
        let mut s = format_u64(n / 10);
        s.push(last);
        s
    }
}

/// `n` in decimal, with a sign where it is negative.
pub fn format_i64(n: i64) -> (r: String)
    requires
        n > i64::MIN,
    ensures
        r@ == signed_decimal(n as int),
{
    if n < 0 {
        let mut s = String::new();
        s.push('-');
        s.append(format_u64((-n) as u64).as_str());
        proof {
            assert(s@ =~= seq!['-'] + decimal((-n) as nat));
        }
        s
    } else {
        format_u64(n as u64)
    }
}

/// Reads a number no greater than `max`.
fn parse_up_to(s: &str, max: u64) -> (r: Option<u64>)
    ensures
        r is Some <==> parsed(s@, max as nat) is Some,
        r is Some ==> r->0 == parsed(s@, max as nat)->0,
{
    let chars = crate::text::chars_of(s);
    let n: usize = chars.len();
    let start: usize = if n > 0 && chars[0] == '+' {
        1
    } else {
        0
    };
    let ghost digits = if s@.len() > 0 && s@[0] == '+' {
        s@.skip(1)
    } else {
        s@
    };
    if start == n {
        return None;
    }
    let mut value: u64 = 0;
    let mut i: usize = start;
    let mut fits: bool = true;
    proof {
        assert(digits.take(0) =~= Seq::<char>::empty());
    }
    while i < n
        invariant
            start <= i <= n,
            n == chars@.len(),
            chars@ == s@,
            start == (if s@.len() > 0 && s@[0] == '+' {
                1int
            } else {
                0int
            }),
            digits == (if s@.len() > 0 && s@[0] == '+' {
                s@.skip(1)
            } else {
                s@
            }),
            all_digits(digits.take(i - start)),
            fits ==> value == digits_value(digits.take(i - start)) && value <= max,
            !fits ==> digits_value(digits.take(i - start)) > max,
        decreases n - i,
    {
        let c: char = chars[i];
        let ghost k = i - start;
        proof {
            assert(digits[k] == c);
            assert(digits.take(k + 1).drop_last() =~= digits.take(k));
            assert(digits.take(k + 1).last() == c);
        }
        if !('0' <= c && c <= '9') {
            proof {
                assert(!is_digit(digits[k]));
            }
            return None;
        }
        proof {
            assert forall|j: int| 0 <= j < k + 1 implies is_digit(#[trigger] digits.take(k + 1)[j]) by {
                if j < k {
                    assert(digits.take(k)[j] == digits.take(k + 1)[j]);
                }
            }
            digits_value_grows(digits.take(k + 1), k);
            assert(digits.take(k + 1).take(k) =~= digits.take(k));
        }
        let d: u64 = (c as u32 - 48) as u64;
        if fits {
            match value.checked_mul(10) {
                Some(tens) => match tens.checked_add(d) {
                    Some(sum) if sum <= max => {
                        value = sum;
                    },
                    _ => {
                        fits = false;
                    },
                },
                None => {
                    fits = false;
                },
            }
        }
        i = i + 1;
    }
    proof {
        assert(digits.take(i - start) =~= digits);
    }
    if fits {
        Some(value)
    } else {
        None
    }
}

/// Reads a `u64`.
pub fn parse_u64(s: &str) -> (r: Option<u64>)
    ensures
        r is Some <==> parsed(s@, u64::MAX as nat) is Some,
        r is Some ==> r->0 == parsed(s@, u64::MAX as nat)->0,
{
    parse_up_to(s, u64::MAX)
}

/// Reads a `u32`.
pub fn parse_u32(s: &str) -> (r: Option<u32>)
    ensures
        r is Some <==> parsed(s@, u32::MAX as nat) is Some,
        r is Some ==> r->0 == parsed(s@, u32::MAX as nat)->0,
{
    match parse_up_to(s, u32::MAX as u64) {
        Some(n) => Some(n as u32),
        None => None,
    }
}

/// Reads an `i32`.
pub fn parse_i32(s: &str) -> (r: Option<i32>)
    ensures
        r is Some <==> parsed_i32(s@) is Some,
        r is Some ==> r->0 == parsed_i32(s@)->0,
{
    let chars = crate::text::chars_of(s);
    let n: usize = chars.len();
    if n > 0 && chars[0] == '-' {
        let rest = crate::text::text_of(&chars, 1, n);
        proof {
            assert(rest@ =~= s@.skip(1));
        }
        if n > 1 && chars[1] == '+' {
            proof {
                assert(!is_digit(s@.skip(1)[0]));
            }
            return None;
        }
        match parse_up_to(rest.as_str(), 0x80000000) {
            Some(v) => if v == 0x80000000 {
                Some(i32::MIN)
            } else {
                Some(-(v as i32))
            },
            None => None,
        }
    } else {
        match parse_up_to(s, i32::MAX as u64) {
            Some(v) => Some(v as i32),
            None => None,
        }
    }
}

/// Reads a `u16`.
pub fn parse_u16(s: &str) -> (r: Option<u16>)
    ensures
        r is Some <==> parsed(s@, u16::MAX as nat) is Some,
        r is Some ==> r->0 == parsed(s@, u16::MAX as nat)->0,
{
    match parse_up_to(s, u16::MAX as u64) {
        Some(n) => Some(n as u16),
        None => None,
    }
}

/// Reads a `u8`.
pub fn parse_u8(s: &str) -> (r: Option<u8>)
    ensures
        r is Some <==> parsed(s@, u8::MAX as nat) is Some,
        r is Some ==> r->0 == parsed(s@, u8::MAX as nat)->0,
{
    match parse_up_to(s, u8::MAX as u64) {
        Some(n) => Some(n as u8),
        None => None,
    }
}

} // verus!
