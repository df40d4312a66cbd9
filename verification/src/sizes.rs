//! Human-readable file sizes: the byte count in the largest binary unit it
//! reaches, with two decimals, as the `f64` rendering `{:.2}` prints it.

use vstd::prelude::*;
use vstd::arithmetic::div_mod::{
    lemma_div_denominator, lemma_div_multiples_vanish, lemma_fundamental_div_mod, lemma_mod_multiples_basic,
};
use vstd::arithmetic::mul::lemma_mul_is_associative;
use crate::text::{decimal, decimal_string, digit, digit_char, two_digits};

verus! {

/// One kibibyte.
pub const KB: u64 = 1024;
/// One mebibyte.
pub const MB: u64 = 1048576;
/// One gibibyte.
pub const GB: u64 = 1073741824;

/// Integers below this are exact as `f64`.
pub open spec fn f64_exact_limit() -> nat {
    0x20_0000_0000_0000
}

/// The spacing of the `f64` values around `n`: one below 2^53, doubling with
/// every further bit.
pub open spec fn f64_unit(n: nat) -> nat
    decreases n,
{
    if n < f64_exact_limit() {
        1
    } else {
        2 * f64_unit(n / 2)
    }
}

/// `a / b` rounded to the nearest integer, ties to the even one.
pub open spec fn round_half_even(a: nat, b: nat) -> nat {
    let q = a / b;
    let r = a % b;
    if 2 * r > b || (2 * r == b && q % 2 == 1) {
        q + 1
    } else {
        q
    }
}

/// The value of `n as f64`: `n` rounded to the nearest multiple of its
/// `f64` spacing, ties to even.
pub open spec fn f64_value(n: nat) -> nat {
    round_half_even(n, f64_unit(n)) * f64_unit(n)
}

/// `bytes as f64 / unit as f64` in hundredths, rounded to nearest, ties to
/// even (the unit is a power of two, so the division itself is exact).
pub open spec fn hundredths(bytes: nat, unit: nat) -> nat {
    round_half_even(f64_value(bytes) * 100, unit)
}

/// A count of hundredths written with two decimals.
pub open spec fn fixed2(h: nat) -> Seq<char> {
    decimal(h / 100) + seq!['.'] + two_digits(h % 100)
}

/// The text shown for a file size.
pub open spec fn file_size_text(bytes: nat) -> Seq<char> {
    if bytes >= GB {
        fixed2(hundredths(bytes, GB as nat)) + seq![' ', 'G', 'B']
    } else if bytes >= MB {
        fixed2(hundredths(bytes, MB as nat)) + seq![' ', 'M', 'B']
    } else if bytes >= KB {
        fixed2(hundredths(bytes, KB as nat)) + seq![' ', 'K', 'B']
    } else {
        decimal(bytes) + seq![' ', 'b', 'y', 't', 'e', 's']
    }
}

/// A whole number of units, exactly representable, is that number in
/// hundredths.
proof fn lemma_whole_units(k: nat, unit: nat)
    requires
        unit > 0,
        k * unit < f64_exact_limit(),
    ensures
        hundredths(k * unit, unit) == k * 100,
        fixed2(k * 100) == decimal(k) + seq!['.', '0', '0'],
{
    let n = k * unit;
    assert(f64_unit(n) == 1);
    lemma_div_multiples_vanish(n as int, 1);
    assert(n / 1 == n);
    assert(n % 1 == 0);
    assert(round_half_even(n, 1) == n);
    assert(f64_value(n) == n);
    let a = n * 100;
    assert(a == (k * 100) * unit) by (nonlinear_arith)
        requires
            a == n * 100,
            n == k * unit,
    ;
    lemma_div_multiples_vanish((k * 100) as int, unit as int);
    lemma_mod_multiples_basic((k * 100) as int, unit as int);
    assert(unit * (k * 100) == (k * 100) * unit) by (nonlinear_arith);
    assert(a / unit == k * 100);
    assert(a % unit == 0);
    assert(round_half_even(a, unit) == k * 100);
    assert((k * 100) / 100 == k) by (nonlinear_arith);
    assert((k * 100) % 100 == 0) by (nonlinear_arith);
    assert(two_digits(0) =~= seq!['0', '0']);
}

/// A whole number of kilobytes below a megabyte reads as that number with
/// ".00 KB"; a byte count below a kilobyte reads as itself with " bytes".
pub proof fn law_whole_kilobytes(k: nat, bytes: nat)
    requires
        1 <= k < 1024,
        bytes < 1024,
    ensures
        file_size_text(k * 1024) == decimal(k) + seq!['.', '0', '0', ' ', 'K', 'B'],
        file_size_text(bytes) == decimal(bytes) + seq![' ', 'b', 'y', 't', 'e', 's'],
{
    assert(k * 1024 < MB) by (nonlinear_arith)
        requires
            k < 1024,
    ;
    lemma_whole_units(k, 1024);
    assert(decimal(k) + seq!['.', '0', '0'] + seq![' ', 'K', 'B'] =~= decimal(k) + seq!['.', '0', '0', ' ', 'K', 'B']);
}

/// A whole number of megabytes below a gigabyte reads as that number with
/// ".00 MB".
pub proof fn law_whole_megabytes(k: nat)
    requires
        1 <= k < 1024,
    ensures
        file_size_text(k * 1048576) == decimal(k) + seq!['.', '0', '0', ' ', 'M', 'B'],
{
    assert(1048576 <= k * 1048576 < GB) by (nonlinear_arith)
        requires
            1 <= k < 1024,
    ;
    lemma_whole_units(k, 1048576);
    assert(decimal(k) + seq!['.', '0', '0'] + seq![' ', 'M', 'B'] =~= decimal(k) + seq!['.', '0', '0', ' ', 'M', 'B']);
}

/// A whole number of gigabytes, within the integers that `f64` holds
/// exactly, reads as that number with ".00 GB".
pub proof fn law_whole_gigabytes(k: nat)
    requires
        1 <= k,
        k * 1073741824 < f64_exact_limit(),
    ensures
        file_size_text(k * 1073741824) == decimal(k) + seq!['.', '0', '0', ' ', 'G', 'B'],
{
    assert(GB <= k * 1073741824) by (nonlinear_arith)
        requires
            1 <= k,
    ;
    lemma_whole_units(k, 1073741824);
    assert(decimal(k) + seq!['.', '0', '0'] + seq![' ', 'G', 'B'] =~= decimal(k) + seq!['.', '0', '0', ' ', 'G', 'B']);
}

/// Division rounded to nearest, ties to even.
fn round_div(a: u128, b: u128) -> (q: u128)
    requires
        0 < b < 0x1_0000_0000_0000_0000_0000,
        a < 0x1_0000_0000_0000_0000_0000_0000,
    ensures
        q == round_half_even(a as nat, b as nat),
        q <= a / b + 1,
{
    let q = a / b;
    let r = a % b;
    if 2 * r > b || (2 * r == b && q % 2 == 1) {
        q + 1
    } else {
        q
    }
}

proof fn lemma_unit_step(n: nat, unit: nat, m: nat)
    requires
        unit > 0,
        m == n / unit,
        m >= f64_exact_limit(),
        f64_unit(n) == unit * f64_unit(m),
    ensures
        m / 2 == n / (unit * 2),
        f64_unit(n) == (unit * 2) * f64_unit(m / 2),
{
    lemma_div_denominator(n as int, unit as int, 2);
    lemma_mul_is_associative(unit as int, 2, f64_unit(m / 2) as int);
}

/// The value of `n as f64`, exactly.
fn f64_of(n: u64) -> (r: u128)
    ensures
        r == f64_value(n as nat),
        r <= 0x2_0000_0000_0000_0000,
{
    let mut m: u128 = n as u128;
    let mut unit: u128 = 1;
    while m >= 0x20_0000_0000_0000
        invariant
            unit > 0,
            m as int == (n as int) / (unit as int),
            unit * m <= n,
            unit <= 0x1_0000_0000_0000_0000,
            unit == 1 || m >= 1,
            f64_unit(n as nat) == unit * f64_unit(m as nat),
        decreases m,
    {
        proof {
            let ni = n as int;
            let ui = unit as int;
            lemma_unit_step(n as nat, unit as nat, m as nat);
            lemma_fundamental_div_mod(ni, ui * 2);
            let q2 = ni / (ui * 2);
            let r2 = ni % (ui * 2);
            assert((ui * 2) * q2 <= ni) by (nonlinear_arith)
                requires
                    ni == (ui * 2) * q2 + r2,
                    r2 >= 0,
            ;
            assert(ui * 2 <= ni) by (nonlinear_arith)
                requires
                    ui * (m as int) <= ni,
                    m >= 2,
                    ui > 0,
            ;
        }
        m = m / 2;
        unit = unit * 2;
    }
    proof {
        assert(f64_unit(m as nat) == 1);
        assert(f64_unit(n as nat) == unit) by (nonlinear_arith)
            requires
                f64_unit(n as nat) == unit * f64_unit(m as nat),
                f64_unit(m as nat) == 1,
        ;
    }
    let q = round_div(n as u128, unit);
    proof {
        let ni = n as int;
        let ui = unit as int;
        let qi = q as int;
        let mi = m as int;
        lemma_fundamental_div_mod(ni, ui);
        assert(qi * ui <= ni + ui) by (nonlinear_arith)
            requires
                qi <= ni / ui + 1,
                ni == ui * (ni / ui) + ni % ui,
                ni % ui >= 0,
                ui > 0,
        ;
        assert(ui <= ni || ui == 1) by (nonlinear_arith)
            requires
                ui * mi <= ni,
                mi >= 1 || ui == 1,
                ui >= 1,
        ;
    }
    q * unit
}

/// A count of hundredths written with two decimals.
fn fixed2_string(h: u64) -> (r: String)
    ensures
        r@ == fixed2(h as nat),
{
    let mut r = decimal_string(h / 100);
    r.push('.');
    let low = h % 100;
    r.push(digit_char(low / 10));
    r.push(digit_char(low % 10));
    r
}

/// The byte count in `unit`s with two decimals.
fn scaled(bytes: u64, unit: u64) -> (r: String)
    requires
        unit == KB || unit == MB || unit == GB,
    ensures
        r@ == fixed2(hundredths(bytes as nat, unit as nat)),
{
    let f = f64_of(bytes);
    let h = round_div(f * 100, unit as u128);
    proof {
        let a = (f * 100) as int;
        let b = unit as int;
        assert(a / b <= a / 1024) by (nonlinear_arith)
            requires
                b >= 1024,
                a >= 0,
        ;
    }
    assert(h < 0x1_0000_0000_0000_0000);
    fixed2_string(h as u64)
}

/// Formats a byte count for display: plain bytes below one KB, otherwise the
/// largest unit among KB, MB and GB that the size reaches, with two decimals.
pub fn format_file_size(bytes: u64) -> (r: String)
    ensures
        r@ == file_size_text(bytes as nat),
{
    if bytes >= GB {
        let mut r = scaled(bytes, GB);
        r.append(" GB");
        proof { reveal_strlit(" GB"); }
        r
    } else if bytes >= MB {
        let mut r = scaled(bytes, MB);
        r.append(" MB");
        proof { reveal_strlit(" MB"); }
        r
    } else if bytes >= KB {
        let mut r = scaled(bytes, KB);
        r.append(" KB");
        proof { reveal_strlit(" KB"); }
        r
    } else {
        let mut r = decimal_string(bytes);
        r.append(" bytes");
        proof { reveal_strlit(" bytes"); }
        r
    }
}

} // verus!
