//! Numbers as text: fixed-width and shortest hexadecimal, decimal, and the
//! reading of a hexadecimal numeral.

use vstd::prelude::*;

verus! {

/// The lower-case hexadecimal digit for a value below 16.
pub open spec fn hex_digit(d: nat) -> char {
    if d < 10 {
        (('0' as u8) + d) as u8 as char
    } else {
        (('a' as u8) + d - 10) as u8 as char
    }
}

/// The decimal digit for a value below 10.
pub open spec fn decimal_digit(d: nat) -> char {
    (('0' as u8) + d) as u8 as char
}

/// `v` written with exactly `n` lower-case hexadecimal digits, most
/// significant first (the low `4 * n` bits of it).
pub open spec fn hex_fixed(v: nat, n: nat) -> Seq<char>
    decreases n,
{
    if n == 0 {
        Seq::empty()
    } else {
        hex_fixed(v / 16, (n - 1) as nat).push(hex_digit(v % 16))
    }
}

/// `v` written in lower-case hexadecimal with no leading zeros.
pub open spec fn hex_text(v: nat) -> Seq<char>
    decreases v,
{
    if v < 16 {
        seq![hex_digit(v)]
    } else {
        hex_text(v / 16).push(hex_digit(v % 16))
    }
}

/// `v` written in decimal with no leading zeros.
pub open spec fn decimal_text(v: nat) -> Seq<char>
    decreases v,
{
    if v < 10 {
        seq![decimal_digit(v)]
    } else {
        decimal_text(v / 10).push(decimal_digit(v % 10))
    }
}

/// The value of one hexadecimal digit of either case.
pub open spec fn hex_digit_value(c: char) -> Option<nat> {
    if '0' <= c <= '9' {
        Some((c as u32 - '0' as u32) as nat)
    } else if 'a' <= c <= 'f' {
        Some((c as u32 - 'a' as u32 + 10) as nat)
    } else if 'A' <= c <= 'F' {
        Some((c as u32 - 'A' as u32 + 10) as nat)
    } else {
        None
    }
}

/// The value of a run of hexadecimal digits, most significant first; `None`
/// when one of the characters is no digit.
pub open spec fn hex_digits_value(s: Seq<char>) -> Option<nat>
    decreases s.len(),
{
    if s.len() == 0 {
        Some(0)
    } else {
        match (hex_digits_value(s.drop_last()), hex_digit_value(s.last())) {
            (Some(high), Some(low)) => Some(16 * high + low),
            _ => None,
        }
    }
}

/// The value of a hexadecimal numeral: an optional `+`, then at least one
/// digit, the whole fitting in 64 bits.
pub open spec fn hex_numeral(s: Seq<char>) -> Option<u64> {
    let digits = if s.len() > 0 && s[0] == '+' {
        s.drop_first()
    } else {
        s
    };
    if digits.len() == 0 {
        None
    } else {
        match hex_digits_value(digits) {
            Some(v) if v <= u64::MAX => Some(v as u64),
            _ => None,
        }
    }
}

/// Appends one character with `String::push`.
#[verifier::external_body]
pub(crate) fn push_char(s: &mut String, c: char)
    ensures
        final(s)@ == old(s)@.push(c),
{
    s.push(c)
}

fn hex_digit_char(d: u8) -> (c: char)
    requires
        d < 16,
    ensures
        c == hex_digit(d as nat),
{
    if d < 10 {
        (0x30u8 + d) as char
    } else {
        (0x61u8 + (d - 10)) as char
    }
}

/// Appends `v` as exactly `n` lower-case hexadecimal digits.
pub fn push_hex_fixed(s: &mut String, v: u64, n: u8)
    ensures
        final(s)@ == old(s)@ + hex_fixed(v as nat, n as nat),
    decreases n,
{
    if n > 0 {
        push_hex_fixed(s, v / 16, n - 1);
        push_char(s, hex_digit_char((v % 16) as u8));
        assert(s@ =~= old(s)@ + hex_fixed(v as nat, n as nat));
    } else {
        assert(s@ =~= old(s)@ + hex_fixed(v as nat, n as nat));
    }
}

/// Appends `v` in lower-case hexadecimal with no leading zeros.
pub fn push_hex(s: &mut String, v: u64)
    ensures
        final(s)@ == old(s)@ + hex_text(v as nat),
    decreases v,
{
    if v >= 16 {
        push_hex(s, v / 16);
    }
    push_char(s, hex_digit_char((v % 16) as u8));
    assert(s@ =~= old(s)@ + hex_text(v as nat));
}

/// Appends `v` in decimal with no leading zeros.
pub fn push_decimal(s: &mut String, v: u64)
    ensures
        final(s)@ == old(s)@ + decimal_text(v as nat),
    decreases v,
{
    if v >= 10 {
        push_decimal(s, v / 10);
    }
    push_char(s, (0x30u8 + (v % 10) as u8) as char);
    assert(s@ =~= old(s)@ + decimal_text(v as nat));
}

/// Appends the text of `t`.
pub fn push_text(s: &mut String, t: &str)
    ensures
        final(s)@ == old(s)@ + t@,
{
    s.append(t);
}

fn digit_value(c: char) -> (r: Option<u8>)
    ensures
        match r {
            Some(d) => hex_digit_value(c) == Some(d as nat) && d < 16,
            None => hex_digit_value(c) is None,
        },
{
    let code: u32 = c as u32;
    if 0x30 <= code && code <= 0x39 {
        Some((code - 0x30) as u8)
    } else if 0x61 <= code && code <= 0x66 {
        Some((code - 0x61 + 10) as u8)
    } else if 0x41 <= code && code <= 0x46 {
        Some((code - 0x41 + 10) as u8)
    } else {
        None
    }
}

proof fn lemma_hex_digits_prefix(s: Seq<char>, n: int)
    requires
        0 <= n <= s.len(),
    ensures
        hex_digits_value(s.take(n)) is None ==> hex_digits_value(s) is None,
        hex_digits_value(s) matches Some(v) ==> hex_digits_value(s.take(n)).unwrap() <= v,
    decreases s.len() - n,
{
    if n < s.len() {
        lemma_hex_digits_prefix(s, n + 1);
        assert(s.take(n + 1).drop_last() =~= s.take(n));
    } else {
        assert(s.take(n) =~= s);
    }
}

/// Reads a hexadecimal numeral: an optional `+` and then one or more digits
/// of either case. There is no result for any other text, nor for a number
/// that does not fit in 64 bits.
pub fn parse_hex(s: &str) -> (r: Option<u64>)
    ensures
        r == hex_numeral(s@),
{
    let n = s.unicode_len();
    if n == 0 {
        return None;
    }
    let start: usize = if s.get_char(0) == '+' {
        1
    } else {
        0
    };
    if start == n {
        return None;
    }
    let ghost digits = s@.subrange(start as int, n as int);
    assert(digits =~= if s@.len() > 0 && s@[0] == '+' {
        s@.drop_first()
    } else {
        s@
    });
    let mut acc: u64 = 0;
    let mut i: usize = start;
    assert(digits.take(0) =~= Seq::<char>::empty());
    while i < n
        invariant
            start <= i <= n,
            n == s@.len(),
            digits == s@.subrange(start as int, n as int),
            hex_numeral(s@) == match hex_digits_value(digits) {
                Some(v) if v <= u64::MAX => Some(v as u64),
                _ => None,
            },
            hex_digits_value(digits.take(i - start)) == Some(acc as nat),
        decreases n - i,
    {
        let c = s.get_char(i);
        proof {
            lemma_hex_digits_prefix(digits, i - start + 1);
            assert(digits.take(i - start + 1).drop_last() =~= digits.take(i - start));
            assert(digits.take(i - start + 1).last() == c);
        }
        match digit_value(c) {
            None => {
                return None;
            },
            Some(d) => {
                if acc > (u64::MAX - d as u64) / 16 {
                    return None;
                }
                acc = acc * 16 + d as u64;
            },
        }
        i = i + 1;
    }
    assert(digits.take(n - start) =~= digits);
    Some(acc)
}

/// 16 to the power `n`.
pub open spec fn pow16(n: nat) -> nat
    decreases n,
{
    if n == 0 {
        1
    } else {
        16 * pow16((n - 1) as nat)
    }
}

/// A hexadecimal digit has the value that it was made of.
pub proof fn lemma_hex_digit_value(d: nat)
    requires
        d < 16,
    ensures
        hex_digit_value(hex_digit(d)) == Some(d),
        hex_digit(d) != '+',
{
}

/// A number written with `n` hexadecimal digits reads back as the number
/// that its low `4 * n` bits make.
pub proof fn lemma_hex_fixed_value(v: nat, n: nat)
    ensures
        hex_fixed(v, n).len() == n,
        hex_digits_value(hex_fixed(v, n)) == Some(v % pow16(n)),
        n > 0 ==> hex_fixed(v, n)[0] != '+',
    decreases n,
{
    if n > 0 {
        let m = (n - 1) as nat;
        let front = hex_fixed(v / 16, m);
        let all = hex_fixed(v, n);
        lemma_hex_fixed_value(v / 16, m);
        lemma_hex_digit_value(v % 16);
        assert(all.drop_last() =~= front);
        assert(all.last() == hex_digit(v % 16));
        assert(pow16(m) > 0) by {
            lemma_pow16_positive(m);
        }
        vstd::arithmetic::div_mod::lemma_mod_breakdown(v as int, 16, pow16(m) as int);
        if m > 0 {
            assert(all[0] == front[0]);
        }
    }
}

proof fn lemma_pow16_positive(n: nat)
    ensures
        pow16(n) > 0,
    decreases n,
{
    if n > 0 {
        lemma_pow16_positive((n - 1) as nat);
    }
}

/// The sixteen-digit text of a 64-bit number reads back as the number.
pub proof fn lemma_hex16_round_trip(v: u64)
    ensures
        hex_numeral(hex_fixed(v as nat, 16)) == Some(v),
{
    lemma_hex_fixed_value(v as nat, 16);
    assert(pow16(16) == 0x1_0000_0000_0000_0000) by {
        reveal_with_fuel(pow16, 17);
    }
}

} // verus!
