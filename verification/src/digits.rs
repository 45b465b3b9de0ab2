//! Decimal and hexadecimal digits, and numbers written with them.
use vstd::prelude::*;
use crate::text::push_char;

verus! {

/// The character of a hexadecimal digit `d < 16`, upper case for `d >= 10`.
pub open spec fn digit_char(d: int) -> char {
    if d == 0 {
        '0'
    } else if d == 1 {
        '1'
    } else if d == 2 {
        '2'
    } else if d == 3 {
        '3'
    } else if d == 4 {
        '4'
    } else if d == 5 {
        '5'
    } else if d == 6 {
        '6'
    } else if d == 7 {
        '7'
    } else if d == 8 {
        '8'
    } else if d == 9 {
        '9'
    } else if d == 10 {
        'A'
    } else if d == 11 {
        'B'
    } else if d == 12 {
        'C'
    } else if d == 13 {
        'D'
    } else if d == 14 {
        'E'
    } else {
        'F'
    }
}

/// The character of the digit `d`.
pub fn digit(d: u64) -> (c: char)
    requires
        d < 16,
    ensures
        c == digit_char(d as int),
{
    if d == 0 {
        '0'
    } else if d == 1 {
        '1'
    } else if d == 2 {
        '2'
    } else if d == 3 {
        '3'
    } else if d == 4 {
        '4'
    } else if d == 5 {
        '5'
    } else if d == 6 {
        '6'
    } else if d == 7 {
        '7'
    } else if d == 8 {
        '8'
    } else if d == 9 {
        '9'
    } else if d == 10 {
        'A'
    } else if d == 11 {
        'B'
    } else if d == 12 {
        'C'
    } else if d == 13 {
        'D'
    } else if d == 14 {
        'E'
    } else {
        'F'
    }
}

/// `n` in decimal, without leading zeros (`format!("{}", n)`).
pub open spec fn dec(n: nat) -> Seq<char>
    decreases n,
{
    if n < 10 {
        seq![digit_char(n as int)]
    } else {
        dec(n / 10).push(digit_char((n % 10) as int))
    }
}

/// `s` with zeros in front up to `width` characters (`{:0width}`).
pub open spec fn zero_pad(s: Seq<char>, width: nat) -> Seq<char> {
    if s.len() >= width {
        s
    } else {
        Seq::new((width - s.len()) as nat, |i: int| '0') + s
    }
}

/// `n` in decimal, padded with zeros to at least `width` digits.
pub open spec fn dec_pad(n: nat, width: nat) -> Seq<char> {
    zero_pad(dec(n), width)
}

/// The byte `b` as two upper-case hexadecimal digits (`{:02X}`).
pub open spec fn hex_pair(b: u8) -> Seq<char> {
    seq![digit_char(b as int / 16), digit_char(b as int % 16)]
}

/// The number of decimal digits of `n`.
pub fn dec_len(n: u64) -> (k: usize)
    ensures
        k == dec(n as nat).len(),
        1 <= k <= 20,
    decreases n,
{
    if n < 10 {
        1
    } else {
        let k = dec_len(n / 10);
        assert(k < 20) by {
            if k == 20 {
                lemma_dec_len_bound(n as nat / 10);
            }
        }
        k + 1
    }
}

/// A number below `10^19` has at most 19 digits.
proof fn lemma_dec_len_bound(n: nat)
    requires
        n <= u64::MAX / 10,
    ensures
        dec(n).len() <= 19,
{
    reveal_with_fuel(pow10, 20);
    assert(pow10(19) == 10000000000000000000nat);
    lemma_dec_len_below(n, 19);
}

/// A number below `10^k` has at most `k` digits.
pub proof fn lemma_dec_len_below(n: nat, k: nat)
    requires
        k >= 1,
        n < pow10(k),
    ensures
        dec(n).len() <= k,
    decreases k,
{
    if n >= 10 {
        if k == 1 {
            assert(pow10(1) == 10 * pow10(0));
        } else {
            assert(pow10(k) == 10 * pow10((k - 1) as nat));
            lemma_dec_len_below(n / 10, (k - 1) as nat);
        }
    }
}

/// `10^k`.
pub open spec fn pow10(k: nat) -> nat
    decreases k,
{
    if k == 0 {
        1
    } else {
        10 * pow10((k - 1) as nat)
    }
}

/// Appends `n` in decimal to `s`.
fn push_dec_digits(s: &mut String, n: u64)
    ensures
        final(s)@ == old(s)@ + dec(n as nat),
    decreases n,
{
    if n >= 10 {
        push_dec_digits(s, n / 10);
    }
    push_char(s, digit(n % 10));
    assert(final(s)@ =~= old(s)@ + dec(n as nat));
}

/// Appends `n` in decimal to `s`, padded with zeros to `width` digits.
pub fn push_dec(s: &mut String, n: u64, width: usize)
    ensures
        final(s)@ == old(s)@ + dec_pad(n as nat, width as nat),
{
    let k = dec_len(n);
    let mut i = k;
    let ghost start = s@;
    while i < width
        invariant
            k <= i <= width || (i == k && k >= width),
            s@ == start + Seq::new((i - k) as nat, |j: int| '0'),
        decreases width - i,
    {
        push_char(s, '0');
        i += 1;
        assert(s@ =~= start + Seq::new((i - k) as nat, |j: int| '0'));
    }
    push_dec_digits(s, n);
    assert(s@ =~= start + dec_pad(n as nat, width as nat));
}

/// Appends the two hexadecimal digits of `b` to `s`.
pub fn push_hex_pair(s: &mut String, b: u8)
    ensures
        final(s)@ == old(s)@ + hex_pair(b),
{
    push_char(s, digit((b / 16) as u64));
    push_char(s, digit((b % 16) as u64));
    assert(final(s)@ =~= old(s)@ + hex_pair(b));
}

/// Decimal digits, zero padded, are ASCII.
pub proof fn lemma_dec_pad_ascii(n: nat, width: nat)
    ensures
        vstd::utf8::is_ascii_chars(dec_pad(n, width)),
{
    lemma_dec_ascii(n);
}

/// Decimal digits are ASCII.
pub proof fn lemma_dec_ascii(n: nat)
    ensures
        vstd::utf8::is_ascii_chars(dec(n)),
    decreases n,
{
    if n >= 10 {
        lemma_dec_ascii(n / 10);
    }
}

/// A number in decimal starts with a digit.
pub proof fn lemma_dec_first_digit(n: nat)
    ensures
        dec(n).len() > 0,
        '0' <= dec(n)[0] <= '9',
    decreases n,
{
    if n >= 10 {
        lemma_dec_first_digit(n / 10);
        assert(dec(n)[0] == dec(n / 10)[0]);
    }
}

/// A number in decimal, padded with zeros, starts with a digit.
pub proof fn lemma_dec_pad_first_digit(n: nat, width: nat)
    ensures
        dec_pad(n, width).len() > 0,
        '0' <= dec_pad(n, width)[0] <= '9',
{
    lemma_dec_first_digit(n);
}

} // verus!
