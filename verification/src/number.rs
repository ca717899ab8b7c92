//! Decimal numbers: reading them from text and writing them as text.

use vstd::prelude::*;

verus! {

/// Why a text is not a number of the requested width.
#[derive(Debug, Clone, Copy, PartialEq, Eq, Structural)]
pub enum IntErrorKind {
    /// The text is empty.
    Empty,
    /// The text holds a character that is not a decimal digit (a leading `+`
    /// is allowed, but not alone).
    InvalidDigit,
    /// The number is larger than the largest value of the type.
    PosOverflow,
}

pub open spec fn is_digit(c: char) -> bool {
    '0' <= c && c <= '9'
}

pub open spec fn digit_value(c: char) -> nat {
    (c as int - '0' as int) as nat
}

/// Reading the digits `d` left to right, starting from the value `acc`:
/// the first character that is not a digit is an error, and so is the first
/// prefix whose value exceeds `max`.
pub open spec fn digits_value(d: Seq<char>, acc: nat, max: nat) -> Result<nat, IntErrorKind>
    decreases d.len(),
{
    if d.len() == 0 {
        Ok(acc)
    } else if !is_digit(d[0]) {
        Err(IntErrorKind::InvalidDigit)
    } else if acc * 10 + digit_value(d[0]) > max {
        Err(IntErrorKind::PosOverflow)
    } else {
        digits_value(d.drop_first(), acc * 10 + digit_value(d[0]), max)
    }
}

/// The unsigned number written in `s`, the way `str::parse` reads one for an
/// unsigned integer type whose largest value is `max`: an optional `+`, then
/// decimal digits.
pub open spec fn parse_unsigned(s: Seq<char>, max: nat) -> Result<nat, IntErrorKind> {
    if s.len() == 0 {
        Err(IntErrorKind::Empty)
    } else if (s[0] == '+' || s[0] == '-') && s.len() == 1 {
        Err(IntErrorKind::InvalidDigit)
    } else if s[0] == '+' {
        digits_value(s.drop_first(), 0, max)
    } else {
        digits_value(s, 0, max)
    }
}

/// Digits read under a bound give a value within the bound.
pub proof fn lemma_digits_value_bound(d: Seq<char>, acc: nat, max: nat)
    requires
        acc <= max,
    ensures
        digits_value(d, acc, max) matches Ok(v) ==> v <= max,
    decreases d.len(),
{
    if d.len() > 0 && is_digit(d[0]) && acc * 10 + digit_value(d[0]) <= max {
        lemma_digits_value_bound(d.drop_first(), acc * 10 + digit_value(d[0]), max);
    }
}

/// Reads the unsigned number written in `s`; `max` is the largest value
/// accepted.
fn parse_unsigned_exec(s: &str, max: u32) -> (r: Result<u32, IntErrorKind>)
    ensures
        match parse_unsigned(s@, max as nat) {
            Ok(v) => r == Ok::<u32, IntErrorKind>(v as u32) && v <= max,
            Err(k) => r == Err::<u32, IntErrorKind>(k),
        },
{
    let mut chars: Vec<char> = Vec::new();
    for c in it: s.chars()
        invariant
            chars@ == it.seq().take(it.index() as int),
    {
        chars.push(c);
    }
    let ghost cs = chars@;
    if chars.len() == 0 {
        return Err(IntErrorKind::Empty);
    }
    if (chars[0] == '+' || chars[0] == '-') && chars.len() == 1 {
        return Err(IntErrorKind::InvalidDigit);
    }
    let mut i: usize = if chars[0] == '+' { 1 } else { 0 };
    let ghost start = i as int;
    let mut acc: u32 = 0;
    proof {
        assert(cs.skip(start) == if cs[0] == '+' { cs.drop_first() } else { cs });
    }
    while i < chars.len()
        invariant
            chars@ == cs,
            cs == s@,
            0 <= start <= i <= cs.len(),
            acc <= max,
            parse_unsigned(cs, max as nat) == digits_value(cs.skip(i as int), acc as nat, max as nat),
        decreases cs.len() - i,
    {
        let c = chars[i];
        proof {
            assert(cs.skip(i as int)[0] == c);
            assert(cs.skip(i as int).drop_first() =~= cs.skip(i + 1));
        }
        if !('0' <= c && c <= '9') {
            return Err(IntErrorKind::InvalidDigit);
        }
        let d: u32 = ((c as u32) - ('0' as u32)) as u32;
        proof {
            assert(d == digit_value(c));
        }
        // acc <= max < 2^32, so acc * 10 + d fits in u64
        let next: u64 = (acc as u64) * 10 + (d as u64);
        if next > max as u64 {
            return Err(IntErrorKind::PosOverflow);
        }
        acc = next as u32;
        i = i + 1;
    }
    proof {
        assert(cs.skip(i as int).len() == 0);
    }
    Ok(acc)
}

/// Reads a `u16` written in decimal, as `str::parse::<u16>` does.
pub fn parse_u16(s: &str) -> (r: Result<u16, IntErrorKind>)
    ensures
        match parse_unsigned(s@, u16::MAX as nat) {
            Ok(v) => r == Ok::<u16, IntErrorKind>(v as u16),
            Err(k) => r == Err::<u16, IntErrorKind>(k),
        },
{
    match parse_unsigned_exec(s, 65535) {
        Ok(v) => Ok(v as u16),
        Err(k) => Err(k),
    }
}

/// Reads a `u8` written in decimal, as `str::parse::<u8>` does.
pub fn parse_u8(s: &str) -> (r: Result<u8, IntErrorKind>)
    ensures
        match parse_unsigned(s@, u8::MAX as nat) {
            Ok(v) => r == Ok::<u8, IntErrorKind>(v as u8),
            Err(k) => r == Err::<u8, IntErrorKind>(k),
        },
{
    match parse_unsigned_exec(s, 255) {
        Ok(v) => Ok(v as u8),
        Err(k) => Err(k),
    }
}

pub open spec fn digit_char(d: nat) -> char {
    (d + '0' as nat) as char
}

/// `n` written in decimal, without leading zeros.
pub open spec fn decimal(n: nat) -> Seq<char>
    decreases n,
{
    if n < 10 {
        seq![digit_char(n)]
    } else {
        decimal(n / 10).push(digit_char(n % 10))
    }
}

/// `n` written in decimal, as `format!("{}", n)` writes it.
pub fn decimal_string(n: u64) -> (s: String)
    ensures
        s@ == decimal(n as nat),
{
    // the digits, least significant first
    let mut rev: Vec<char> = Vec::new();
    let mut m: u64 = n;
    loop
        invariant_except_break
            decimal(n as nat) == decimal(m as nat) + rev@.reverse(),
        ensures
            decimal(n as nat) == rev@.reverse(),
        decreases m,
    {
        let d: u64 = m % 10;
        let c = ((d as u8) + 48u8) as char;
        proof {
            assert(c == digit_char(d as nat));
        }
        if m < 10 {
            rev.push(c);
            proof {
                assert(rev@.reverse() =~= seq![c] + rev@.drop_last().reverse());
            }
            break;
        }
        let ghost m0 = m;
        let ghost r0 = rev@;
        rev.push(c);
        m = m / 10;
        proof {
            assert(decimal(m0 as nat) == decimal(m as nat).push(c));
            assert(rev@.reverse() =~= seq![c] + r0.reverse());
            assert(decimal(m as nat).push(c) + r0.reverse() =~= decimal(m as nat) + (seq![c] + r0.reverse()));
        }
    }
    let mut s = String::new();
    let mut j: usize = rev.len();
    while j > 0
        invariant
            j <= rev@.len(),
            s@ == rev@.reverse().take((rev@.len() - j) as int),
        decreases j,
    {
        j = j - 1;
        crate::chars::push_char(&mut s, rev[j]);
        proof {
            assert(rev@.reverse()[(rev@.len() - j - 1) as int] == rev@[j as int]);
            assert(s@ =~= rev@.reverse().take((rev@.len() - j) as int));
        }
    }
    proof {
        assert(rev@.reverse().take(rev@.len() as int) =~= rev@.reverse());
    }
    s
}

/// A number's decimal digits are digits, at least one of them, and more
/// than one from 10 on.
pub proof fn lemma_decimal_digits(n: nat)
    ensures
        decimal(n).len() >= 1,
        n >= 10 ==> decimal(n).len() >= 2,
        forall|i: int| 0 <= i < decimal(n).len() ==> #[trigger] is_digit(decimal(n)[i]),
    decreases n,
{
    if n >= 10 {
        lemma_decimal_digits(n / 10);
        let d = decimal(n / 10);
        assert forall|i: int| 0 <= i < decimal(n).len() implies #[trigger] is_digit(decimal(n)[i]) by {
            if i < d.len() {
                assert(decimal(n)[i] == d[i]);
            }
        }
    }
}

/// Different numbers are written differently.
pub proof fn lemma_decimal_injective(a: nat, b: nat)
    requires
        decimal(a) == decimal(b),
    ensures
        a == b,
    decreases a,
{
    lemma_decimal_digits(a);
    lemma_decimal_digits(b);
    if a >= 10 && b >= 10 {
        assert(decimal(a).drop_last() =~= decimal(a / 10));
        assert(decimal(b).drop_last() =~= decimal(b / 10));
        assert(decimal(a).last() == digit_char(a % 10));
        assert(decimal(b).last() == digit_char(b % 10));
        lemma_decimal_injective(a / 10, b / 10);
    } else if a < 10 && b < 10 {
        assert(decimal(a)[0] == digit_char(a));
        assert(decimal(b)[0] == digit_char(b));
    }
}


/// Reading one more character: a digit extends the value read so far,
/// within the bound.
proof fn lemma_digits_value_push(d: Seq<char>, c: char, acc: nat, max: nat)
    ensures
        digits_value(d.push(c), acc, max) == match digits_value(d, acc, max) {
            Ok(v) => if !is_digit(c) {
                Err(IntErrorKind::InvalidDigit)
            } else if v * 10 + digit_value(c) > max {
                Err(IntErrorKind::PosOverflow)
            } else {
                Ok(v * 10 + digit_value(c))
            },
            Err(k) => Err(k),
        },
    decreases d.len(),
{
    let e = d.push(c);
    if d.len() > 0 {
        assert(e.drop_first() =~= d.drop_first().push(c));
        assert(e[0] == d[0]);
        assert(e.len() > 0);
        if is_digit(d[0]) && acc * 10 + digit_value(d[0]) <= max {
            let acc2 = acc * 10 + digit_value(d[0]);
            lemma_digits_value_push(d.drop_first(), c, acc2, max);
            assert(digits_value(e, acc, max) == digits_value(d.drop_first().push(c), acc2, max));
            assert(digits_value(d, acc, max) == digits_value(d.drop_first(), acc2, max));
        } else {
            assert(digits_value(e, acc, max) == digits_value(d, acc, max));
        }
    } else {
        assert(e.len() == 1 && e[0] == c);
        assert(e.drop_first() =~= Seq::<char>::empty());
        assert(digits_value(d, acc, max) == Ok::<nat, IntErrorKind>(acc));
        if is_digit(c) && acc * 10 + digit_value(c) <= max {
            assert(digits_value(e, acc, max) == digits_value(e.drop_first(), acc * 10 + digit_value(c), max));
            assert(digits_value(e, acc, max) == Ok::<nat, IntErrorKind>(acc * 10 + digit_value(c)));
        }
    }
}

/// A number within the bound reads back from its decimal form.
proof fn lemma_decimal_digits_value(n: nat, max: nat)
    requires
        n <= max,
    ensures
        digits_value(decimal(n), 0, max) == Ok::<nat, IntErrorKind>(n),
    decreases n,
{
    if n < 10 {
        let c = digit_char(n);
        assert(c as int == n + 48);
        assert(decimal(n) =~= Seq::<char>::empty().push(c));
        lemma_digits_value_push(Seq::<char>::empty(), c, 0, max);
    } else {
        lemma_decimal_digits_value(n / 10, max);
        let c = digit_char(n % 10);
        assert(c as int == n % 10 + 48);
        assert(n / 10 * 10 + n % 10 == n);
        lemma_digits_value_push(decimal(n / 10), c, 0, max);
    }
}

/// Reading what writing gives: the decimal form of a number reads back as
/// that number when it is within the bound, and as an overflow when it is
/// above it.
pub proof fn lemma_parse_decimal(n: nat, max: nat)
    ensures
        n <= max ==> parse_unsigned(decimal(n), max) == Ok::<nat, IntErrorKind>(n),
        n > max ==> parse_unsigned(decimal(n), max) == Err::<nat, IntErrorKind>(IntErrorKind::PosOverflow),
{
    lemma_decimal_digits(n);
    assert(is_digit(decimal(n)[0]));
    if n <= max {
        lemma_decimal_digits_value(n, max);
    } else {
        lemma_decimal_overflows(n, max);
    }
}

/// The decimal form of a number above the bound reads as an overflow.
proof fn lemma_decimal_overflows(n: nat, max: nat)
    requires
        n > max,
    ensures
        digits_value(decimal(n), 0, max) == Err::<nat, IntErrorKind>(IntErrorKind::PosOverflow),
    decreases n,
{
    if n < 10 {
        let c = digit_char(n);
        assert(c as int == n + 48);
        assert(decimal(n) =~= Seq::<char>::empty().push(c));
        lemma_digits_value_push(Seq::<char>::empty(), c, 0, max);
    } else {
        let c = digit_char(n % 10);
        assert(c as int == n % 10 + 48);
        assert(n / 10 * 10 + n % 10 == n);
        lemma_digits_value_push(decimal(n / 10), c, 0, max);
        if n / 10 <= max {
            lemma_decimal_digits_value(n / 10, max);
        } else {
            lemma_decimal_overflows(n / 10, max);
        }
    }
}

} // verus!
