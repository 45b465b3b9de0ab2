//! Byte counts as the status line shows them: bytes, then kilobytes with
//! one decimal, then megabytes with two.
use vstd::prelude::*;
use vstd::arithmetic::div_mod::{lemma_div_denominator, lemma_fundamental_div_mod};
use crate::digits::{dec, dec_pad, push_dec};
use crate::text::push_char;

verus! {

/// `a / d` rounded to the nearest integer, halves to the even neighbour.
pub open spec fn round_half_even(a: nat, d: nat) -> nat
    recommends
        d > 0,
{
    let q = a / d;
    let r = a % d;
    if 2 * r > d || (2 * r == d && q % 2 == 1) {
        q + 1
    } else {
        q
    }
}

/// The distance between neighbouring `f64` values around `n`: 1 below
/// `2^53`, and doubling with each further bit of `n`.
pub open spec fn f64_spacing(n: nat) -> nat
    decreases n,
{
    if n < 0x20_0000_0000_0000 {
        1
    } else {
        2 * f64_spacing(n / 2)
    }
}

/// `n as f64`, the `f64` nearest to `n` with ties to an even mantissa,
/// as an integer.
pub open spec fn f64_of(n: nat) -> nat {
    let u = f64_spacing(n);
    round_half_even(n, u) * u
}

/// `n` bytes as shown in the status line: `"{n} B"` below 1024,
/// `"{:.1} KB"` of `n / 1024` below 1048576, `"{:.2} MB"` of `n / 1048576`
/// above; the decimals are rounded half to even, as float formatting does.
pub open spec fn size_text(n: nat) -> Seq<char> {
    if n < 1024 {
        dec(n) + seq![' ', 'B']
    } else if n < 1048576 {
        let t = round_half_even(n * 10, 1024);
        dec(t / 10) + seq!['.'] + dec(t % 10) + seq![' ', 'K', 'B']
    } else {
        let h = round_half_even(f64_of(n) * 100, 1048576);
        dec(h / 100) + seq!['.'] + dec_pad(h % 100, 2) + seq![' ', 'M', 'B']
    }
}

/// `a / d` rounded half to even.
fn div_round_even(a: u128, d: u128) -> (q: u128)
    requires
        d > 0,
    ensures
        q == round_half_even(a as nat, d as nat),
{
    let q = a / d;
    let r = a % d;
    if r > d - r || (r == d - r && q % 2 == 1) {
        assert(q < u128::MAX) by (nonlinear_arith)
            requires
                q == a / d,
                r == a % d,
                r > 0,
                d > 0,
                a <= u128::MAX,
        {
            lemma_fundamental_div_mod(a as int, d as int);
        }
        q + 1
    } else {
        q
    }
}

/// The spacing of `f64` values around `n`.
fn spacing(n: u64) -> (u: u128)
    ensures
        u == f64_spacing(n as nat),
        1 <= u <= 4096,
{
    let mut u: u128 = 1;
    let mut t: u64 = n;
    while t >= 0x20_0000_0000_0000
        invariant
            1 <= u <= 4096,
            t == n as nat / u as nat,
            f64_spacing(n as nat) == u * f64_spacing(t as nat),
        decreases t,
    {
        proof {
            lemma_fundamental_div_mod(n as int, u as int);
            assert(u < 2048) by (nonlinear_arith)
                requires
                    u * t + n as nat % u as nat == n,
                    t >= 0x20_0000_0000_0000,
                    n < 0x1_0000_0000_0000_0000,
                    n as nat % u as nat >= 0,
            ;
            lemma_div_denominator(n as int, u as int, 2);
            assert(f64_spacing(t as nat) == 2 * f64_spacing(t as nat / 2));
            assert(u * (2 * f64_spacing(t as nat / 2)) == (u * 2) * f64_spacing(t as nat / 2))
                by (nonlinear_arith);
        }
        t = t / 2;
        u = u * 2;
    }
    assert(f64_spacing(t as nat) == 1);
    assert(u * f64_spacing(t as nat) == u) by (nonlinear_arith)
        requires
            f64_spacing(t as nat) == 1,
    ;
    u
}

/// `n` bytes as the status line shows them.
pub fn fmtsz(n: u64) -> (r: String)
    ensures
        r@ == size_text(n as nat),
{
    let mut r = String::new();
    if n < 1024 {
        push_dec(&mut r, n, 0);
        push_char(&mut r, ' ');
        push_char(&mut r, 'B');
    } else if n < 1048576 {
        let t = div_round_even(n as u128 * 10, 1024);
        assert(t <= 10240) by (nonlinear_arith)
            requires
                t == round_half_even((n * 10) as nat, 1024),
                n < 1048576,
        ;
        push_dec(&mut r, (t / 10) as u64, 0);
        push_char(&mut r, '.');
        push_dec(&mut r, (t % 10) as u64, 0);
        push_char(&mut r, ' ');
        push_char(&mut r, 'K');
        push_char(&mut r, 'B');
    } else {
        let u = spacing(n);
        let q = div_round_even(n as u128, u);
        assert(q * u <= 0x2_0000_0000_0000_0000) by (nonlinear_arith)
            requires
                q == round_half_even(n as nat, u as nat),
                1 <= u <= 4096,
                n < 0x1_0000_0000_0000_0000,
        ;
        let m = q * u;
        let h = div_round_even(m * 100, 1048576);
        assert(h / 100 <= u64::MAX) by (nonlinear_arith)
            requires
                h == round_half_even((m * 100) as nat, 1048576),
                m <= 0x2_0000_0000_0000_0000,
        ;
        push_dec(&mut r, (h / 100) as u64, 0);
        push_char(&mut r, '.');
        push_dec(&mut r, (h % 100) as u64, 2);
        push_char(&mut r, ' ');
        push_char(&mut r, 'M');
        push_char(&mut r, 'B');
    }
    assert(r@ =~= size_text(n as nat));
    r
}

} // verus!
