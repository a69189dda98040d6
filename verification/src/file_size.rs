//! The size of a file in words.

use vstd::prelude::*;

use crate::single::half_even;
use crate::text::{self, decimal, signed_decimal, two_digits};

verus! {

/// A whole number of units rounded to 53 significant bits, as numbers of double
/// precision are.
pub open spec fn held(n: nat, unit: nat) -> nat
    decreases n - unit,
{
    if unit == 0 {
        0
    } else if n < 0x20_0000_0000_0000 * unit {
        half_even(n, unit)
    } else {
        2 * held(n, 2 * unit)
    }
}

/// A size in words: in bytes, in kilobytes with one decimal, or in megabytes with
/// two.
pub open spec fn size_text(file_size: int) -> Seq<char> {
    if file_size < 1024 {
        signed_decimal(file_size) + " B"@
    } else if file_size < 1024 * 1024 {
        let tenths = half_even((10 * file_size) as nat, 1024);
        decimal(tenths / 10) + "."@ + decimal(tenths % 10) + " KB"@
    } else {
        let hundredths = half_even(100 * held(file_size as nat, 1), 1024 * 1024);
        decimal(hundredths / 100) + "."@ + two_digits(hundredths % 100) + " MB"@
    }
}

fn half_even_of(p: u128, q: u128) -> (r: u128)
    requires
        0 < q <= 0xffff_ffff_ffff_ffff,
        p < 0xffff_ffff_ffff_ffff_ffff_ffff,
    ensures
        r == half_even(p as nat, q as nat),
{
    let f: u128 = p / q;
    let rest: u128 = p % q;
    proof {
        vstd::arithmetic::div_mod::lemma_div_is_ordered_by_denominator(p as int, 1, q as int);
    }
    if 2 * rest > q || (2 * rest == q && f % 2 == 1) {
        f + 1
    } else {
        f
    }
}

fn hold(n: u64) -> (r: u128)
    requires
        n <= 0x7fff_ffff_ffff_ffff,
    ensures
        r == held(n as nat, 1),
        r <= 0x1_0000_0000_0000_0000,
{
    let mut unit: u128 = 1;
    while n as u128 >= 0x20_0000_0000_0000 * unit
        invariant
            n <= 0x7fff_ffff_ffff_ffff,
            1 <= unit <= 0x800,
            held(n as nat, 1) == unit * held(n as nat, unit as nat),
        decreases 0x1000 - unit,
    {
        proof {
            let u = unit as nat;
            let h = held(n as nat, 2 * u);
            assert(held(n as nat, u) == 2 * h);
            assert(u * (2 * h) == (2 * u) * h) by (nonlinear_arith);
        }
        unit = 2 * unit;
    }
    let h: u128 = half_even_of(n as u128, unit);
    proof {
        crate::single::lemma_half_even_bounds(n as nat, unit as nat, 0x20_0000_0000_0000);
        assert(h * unit == unit * h && h * unit <= 0x20_0000_0000_0000 * 0x800) by (nonlinear_arith)
            requires
                h <= 0x20_0000_0000_0000,
                unit <= 0x800,
        ;
    }
    h * unit
}

/// Writes a size in words.
pub fn size_label(file_size: i64) -> (r: String)
    ensures
        r@ == size_text(file_size as int),
{
    if file_size < 1024 {
        text::cat2(text::signed(file_size).as_str(), " B")
    } else if file_size < 1024 * 1024 {
        let tenths: u128 = half_even_of(10 * file_size as u128, 1024);
        text::cat4(
            text::dec(tenths / 10).as_str(),
            ".",
            text::dec(tenths % 10).as_str(),
            " KB",
        )
    } else {
        let hundredths: u128 = half_even_of(100 * hold(file_size as u64), 1024 * 1024);
        text::cat4(
            text::dec(hundredths / 100).as_str(),
            ".",
            text::two(hundredths % 100).as_str(),
            " MB",
        )
    }
}

/// A size below nine thousand terabytes is held as it is.
pub proof fn law_size_is_held(n: nat)
    requires
        n < 0x20_0000_0000_0000,
    ensures
        held(n, 1) == n,
{
    crate::single::lemma_half_even_bounds(n, 1, n);
}

/// A size under a kilobyte is shown in bytes; one under a megabyte in kilobytes to
/// the nearest tenth; any other in megabytes to the nearest hundredth.
pub proof fn law_size_is_shown_to_the_nearest(n: nat)
    requires
        n < 0x20_0000_0000_0000,
    ensures
        n < 1024 ==> size_text(n as int) == decimal(n) + " B"@,
        1024 <= n < 1024 * 1024 ==> exists|tenths: nat|
            #![trigger decimal(tenths / 10)]
            -1024 <= 2 * (1024 * tenths - 10 * n) <= 1024 && size_text(n as int) == decimal(
                tenths / 10,
            ) + "."@ + decimal(tenths % 10) + " KB"@,
        n >= 1024 * 1024 ==> exists|hundredths: nat|
            #![trigger decimal(hundredths / 100)]
            -1048576 <= 2 * (1048576 * hundredths - 100 * n) <= 1048576 && size_text(n as int)
                == decimal(hundredths / 100) + "."@ + two_digits(hundredths % 100) + " MB"@,
{
    law_size_is_held(n);
    if 1024 <= n < 1024 * 1024 {
        crate::single::law_rounded_to_the_nearest(10 * n, 1024);
        let tenths = half_even(10 * n, 1024);
        assert(decimal(tenths / 10) == decimal(tenths / 10));
    }
    if n >= 1024 * 1024 {
        crate::single::law_rounded_to_the_nearest(100 * n, 1024 * 1024);
        let hundredths = half_even(100 * n, 1024 * 1024);
        assert(decimal(hundredths / 100) == decimal(hundredths / 100));
    }
}

} // verus!
