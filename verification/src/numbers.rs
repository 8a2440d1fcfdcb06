//! Decimal numbers as text: reading them, writing them, padding columns.

use vstd::prelude::*;

verus! {

/// An ASCII decimal digit.
pub open spec fn is_digit(c: char) -> bool {
    48 <= c as int <= 57
}

/// The value of a decimal digit.
pub open spec fn digit_value(c: char) -> nat {
    (c as int - 48) as nat
}

/// The character of a one-digit number.
pub open spec fn digit_char(d: nat) -> char {
    (d + 48) as u8 as char
}

/// Every character of `s` is a decimal digit.
pub open spec fn all_digits(s: Seq<char>) -> bool {
    forall|k: int| 0 <= k < s.len() ==> is_digit(#[trigger] s[k])
}

/// The number that the decimal digits of `s` write; zero for the empty text.
pub open spec fn number_of(s: Seq<char>) -> nat
    decreases s.len(),
{
    if s.len() == 0 {
        0
    } else {
        number_of(s.drop_last()) * 10 + digit_value(s.last())
    }
}

/// The decimal digits of `n`, without leading zeros.
pub open spec fn decimal(n: nat) -> Seq<char>
    decreases n,
{
    if n < 10 {
        seq![digit_char(n)]
    } else {
        decimal(n / 10).push(digit_char(n % 10))
    }
}

/// `s` with spaces added on the right until it has `width` characters.
pub open spec fn pad_right(s: Seq<char>, width: nat) -> Seq<char> {
    if s.len() >= width {
        s
    } else {
        s + Seq::new((width - s.len()) as nat, |k: int| ' ')
    }
}

/// `hundredths / 100` written with two decimals, as in `12.05`.
pub open spec fn two_decimals(hundredths: nat) -> Seq<char> {
    decimal(hundredths / 100) + seq!['.', digit_char((hundredths % 100) / 10), digit_char(
        hundredths % 10,
    )]
}

/// `n / unit`, rounded to the nearest integer, halves upwards.
pub open spec fn rounded_div(n: nat, unit: nat) -> nat
    recommends
        unit > 0,
{
    if 2 * (n % unit) >= unit {
        n / unit + 1
    } else {
        n / unit
    }
}

/// Writing a number and reading it back gives the number.
pub proof fn lemma_decimal_round_trip(n: nat)
    ensures
        all_digits(decimal(n)),
        decimal(n).len() > 0,
        number_of(decimal(n)) == n,
    decreases n,
{
    if n < 10 {
        let s = decimal(n);
        assert(s.drop_last() == Seq::<char>::empty());
        assert(number_of(s.drop_last()) == 0);
    } else {
        lemma_decimal_round_trip(n / 10);
        let s = decimal(n);
        assert(s.drop_last() == decimal(n / 10));
        assert(s.last() == digit_char(n % 10));
    }
}

/// A longer run of digits writes a number that is no smaller than the one
/// its prefix writes.
pub proof fn lemma_number_of_prefix(s: Seq<char>, k: int)
    requires
        0 <= k <= s.len(),
    ensures
        number_of(s.subrange(0, k)) <= number_of(s),
    decreases s.len() - k,
{
    if k < s.len() {
        lemma_number_of_prefix(s, k + 1);
        let longer = s.subrange(0, k + 1);
        assert(longer.drop_last() == s.subrange(0, k));
    } else {
        assert(s.subrange(0, k) == s);
    }
}

/// Whether `c` is a decimal digit.
pub fn digit(c: char) -> (r: bool)
    ensures
        r == is_digit(c),
{
    let v: u32 = c as u32;
    48 <= v && v <= 57
}

/// The value of the decimal digit `c`.
pub fn value_of_digit(c: char) -> (d: u64)
    requires
        is_digit(c),
    ensures
        d == digit_value(c),
{
    (c as u32 - 48) as u64
}

/// The character that writes the one-digit number `d`.
pub fn char_of_digit(d: u8) -> (c: char)
    requires
        d < 10,
    ensures
        c == digit_char(d as nat),
{
    (d + 48) as char
}

/// Reads a run of decimal digits.
///
/// Returns the number exactly when `s` is not empty, holds digits only and
/// writes a number that fits 64 bits.
pub fn parse_number(s: &Vec<char>) -> (r: Option<u64>)
    ensures
        r is Some <==> (s@.len() > 0 && all_digits(s@) && number_of(s@) <= u64::MAX),
        r is Some ==> r->Some_0 == number_of(s@),
{
    if s.len() == 0 {
        return None;
    }
    let mut acc: u64 = 0;
    let mut i: usize = 0;
    while i < s.len()
        invariant
            i <= s.len(),
            all_digits(s@.subrange(0, i as int)),
            acc == number_of(s@.subrange(0, i as int)),
        decreases s.len() - i,
    {
        let c = s[i];
        let ghost longer = s@.subrange(0, i + 1);
        proof {
            assert(longer.drop_last() == s@.subrange(0, i as int));
            assert(longer.last() == c);
        }
        if !digit(c) {
            assert(!is_digit(s@[i as int]));
            return None;
        }
        let d: u64 = value_of_digit(c);
        if acc > (u64::MAX - d) / 10 {
            proof {
                assert(number_of(longer) > u64::MAX);
                lemma_number_of_prefix(s@, i + 1);
            }
            return None;
        }
        acc = acc * 10 + d;
        proof {
            assert forall|k: int| 0 <= k < longer.len() implies is_digit(#[trigger] longer[k]) by {
                if k < i {
                    assert(longer[k] == s@.subrange(0, i as int)[k]);
                }
            }
        }
        i += 1;
    }
    assert(s@.subrange(0, s.len() as int) == s@);
    Some(acc)
}

/// Appends the decimal digits of `n` to `out`.
pub fn push_decimal(out: &mut Vec<char>, n: u64)
    ensures
        final(out)@ == old(out)@ + decimal(n as nat),
    decreases n,
{
    if n >= 10 {
        push_decimal(out, n / 10);
    }
    out.push(char_of_digit((n % 10) as u8));
}

/// Appends `hundredths / 100` with two decimals to `out`.
pub fn push_two_decimals(out: &mut Vec<char>, hundredths: u64)
    ensures
        final(out)@ == old(out)@ + two_decimals(hundredths as nat),
{
    push_decimal(out, hundredths / 100);
    out.push('.');
    out.push(char_of_digit(((hundredths % 100) / 10) as u8));
    out.push(char_of_digit((hundredths % 10) as u8));
}

/// Appends the characters of `text` to `out`.
pub fn push_text(out: &mut Vec<char>, text: &Vec<char>)
    ensures
        final(out)@ == old(out)@ + text@,
{
    let mut i: usize = 0;
    while i < text.len()
        invariant
            i <= text.len(),
            out@ == old(out)@ + text@.subrange(0, i as int),
        decreases text.len() - i,
    {
        out.push(text[i]);
        i += 1;
    }
    assert(text@.subrange(0, text.len() as int) == text@);
}

/// Appends `text` to `out`, then spaces until `width` characters were added.
pub fn push_padded(out: &mut Vec<char>, text: &Vec<char>, width: usize)
    ensures
        final(out)@ == old(out)@ + pad_right(text@, width as nat),
{
    push_text(out, text);
    let mut n: usize = text.len();
    while n < width
        invariant
            text.len() <= n,
            n <= width || n == text.len(),
            out@ == old(out)@ + text@ + Seq::new((n - text.len()) as nat, |k: int| ' '),
        decreases width - n,
    {
        out.push(' ');
        n += 1;
    }
}

/// `n / unit`, rounded to the nearest integer, halves upwards.
pub fn round_div(n: u64, unit: u64) -> (r: u64)
    requires
        unit > 0,
    ensures
        r == rounded_div(n as nat, unit as nat),
{
    let q: u64 = n / unit;
    let rest: u64 = n % unit;
    if rest >= unit - rest {
        assert(q < u64::MAX) by (nonlinear_arith)
            requires
                q == n / unit,
                unit >= 2,
                n <= u64::MAX,
        ;
        q + 1
    } else {
        q
    }
}

} // verus!
