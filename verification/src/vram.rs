//! Human-readable byte sizes.
use vstd::prelude::*;

use crate::text::{decimal, digit_char, push_decimal, string_of};

verus! {

pub open spec fn pow2(n: nat) -> nat
    decreases n,
{
    if n == 0 {
        1
    } else {
        2 * pow2((n - 1) as nat)
    }
}

/// 2^53: below it every integer is exactly an `f64`.
pub open spec fn f64_exact_limit() -> nat {
    0x20_0000_0000_0000
}

/// How many low bits of `b` an `f64` cannot hold.
pub open spec fn excess_bits(b: nat) -> nat
    decreases b,
{
    if b < f64_exact_limit() {
        0
    } else {
        1 + excess_bits(b / 2)
    }
}

/// `n / d` rounded to the nearest integer, ties to the even one.
pub open spec fn round_half_even(n: nat, d: nat) -> nat
    recommends
        d > 0,
{
    let q = n / d;
    let r = n % d;
    if 2 * r > d || (2 * r == d && q % 2 == 1) {
        q + 1
    } else {
        q
    }
}

/// The integer value of `b as f64` (round to nearest, ties to even).
pub open spec fn as_f64(b: nat) -> nat {
    let u = pow2(excess_bits(b));
    round_half_even(b, u) * u
}

pub open spec fn mib() -> nat {
    1024 * 1024
}

pub open spec fn gib() -> nat {
    1024 * 1024 * 1024
}

/// `h` hundredths written with two decimal places, e.g. 1234 gives `12.34`.
pub open spec fn two_places(h: nat) -> Seq<char> {
    decimal(h / 100) + seq!['.', digit_char((h % 100) / 10), digit_char(h % 10)]
}

/// The text of `format_size(bytes)`: `bytes` as `f64`, divided by the unit and
/// written with two decimals (ties to even), for sizes of a MiB and more;
/// plain bytes below.
pub open spec fn size_text(bytes: nat) -> Seq<char> {
    if bytes >= gib() {
        two_places(round_half_even(as_f64(bytes) * 100, gib())) + seq![' ', 'G', 'B']
    } else if bytes >= mib() {
        two_places(round_half_even(as_f64(bytes) * 100, mib())) + seq![' ', 'M', 'B']
    } else {
        decimal(bytes) + seq![' ', 'B']
    }
}

fn rounded_div(n: u128, d: u128) -> (r: u128)
    requires
        d > 0,
        n < 0x1_0000_0000_0000_0000_0000_0000,
    ensures
        r == round_half_even(n as nat, d as nat),
        r <= n as nat / (d as nat) + 1,
{
    let q = n / d;
    let r = n % d;
    if r > d - r || (r == d - r && q % 2 == 1) {
        q + 1
    } else {
        q
    }
}

/// The integer value of `bytes as f64`.
fn f64_value(bytes: u64) -> (r: u128)
    ensures
        r == as_f64(bytes as nat),
        r <= 0x2_0000_0000_0000_0000,
{
    let mut b: u128 = bytes as u128;
    let mut unit: u128 = 1;
    let ghost mut sh: nat = 0;
    while b >= 0x20_0000_0000_0000
        invariant
            unit == pow2(sh),
            b == bytes as nat / (unit as nat),
            excess_bits(bytes as nat) == sh + excess_bits(b as nat),
            1 <= unit <= bytes as nat || (unit == 1 && sh == 0),
        decreases b,
    {
        proof {
            vstd::arithmetic::div_mod::lemma_div_denominator(bytes as int, unit as int, 2);
            assert(unit * b <= bytes) by (nonlinear_arith)
                requires
                    b == bytes as nat / (unit as nat),
                    unit >= 1,
            ;
            assert(unit * 2 <= bytes) by (nonlinear_arith)
                requires
                    unit * b <= bytes,
                    b >= 2,
                    unit >= 1,
            ;
        }
        b = b / 2;
        unit = unit * 2;
        proof {
            sh = sh + 1;
        }
    }
    proof {
        assert(excess_bits(b as nat) == 0);
    }
    let q = rounded_div(bytes as u128, unit);
    proof {
        assert(q <= bytes as nat / (unit as nat) + 1);
        assert(q * unit <= bytes + unit) by (nonlinear_arith)
            requires
                q <= bytes as nat / (unit as nat) + 1,
                unit >= 1,
        ;
    }
    q * unit
}

fn push_two_places(out: &mut Vec<char>, h: u128)
    requires
        h < 0x1_0000_0000_0000_0000,
    ensures
        final(out)@ == old(out)@ + two_places(h as nat),
{
    push_decimal(out, (h / 100) as u64);
    let tens = ((h % 100) / 10) as u8;
    let ones = (h % 10) as u8;
    out.push('.');
    out.push((48 + tens) as char);
    out.push((48 + ones) as char);
    assert(final(out)@ =~= old(out)@ + two_places(h as nat));
}

/// `bytes` as text: `"1.50 GB"`, `"12.00 MB"` or `"512 B"` (a GB being 2^30
/// bytes and an MB 2^20).
pub fn format_size(bytes: u64) -> (r: String)
    ensures
        r@ == size_text(bytes as nat),
{
    let mut out: Vec<char> = Vec::new();
    let gb: u128 = 1024 * 1024 * 1024;
    let mb: u128 = 1024 * 1024;
    if bytes as u128 >= gb {
        let x = f64_value(bytes);
        let h = rounded_div(x * 100, gb);
        assert((x as nat) * 100 / (gb as nat) < 0x1_0000_0000_0000) by (nonlinear_arith)
            requires
                gb == 1073741824,
                x <= 0x2_0000_0000_0000_0000,
        ;
        push_two_places(&mut out, h);
        out.push(' ');
        out.push('G');
        out.push('B');
    } else if bytes as u128 >= mb {
        let x = f64_value(bytes);
        let h = rounded_div(x * 100, mb);
        assert((x as nat) * 100 / (mb as nat) < 0x1_0000_0000_0000_0000) by (nonlinear_arith)
            requires
                mb == 1048576,
                x <= 0x2_0000_0000_0000_0000,
        ;
        push_two_places(&mut out, h);
        out.push(' ');
        out.push('M');
        out.push('B');
    } else {
        push_decimal(&mut out, bytes);
        out.push(' ');
        out.push('B');
    }
    assert(out@ =~= size_text(bytes as nat));
    string_of(out.as_slice())
}

} // verus!
