//! Fixed-point scale and rounding division.

use vstd::prelude::*;

verus! {

/// The fixed-point representation of one whole: a saturation, a value, an
/// alpha or a colour channel of `UNIT` is fully on.
pub const UNIT: u32 = 1_000_000;

/// Sixty degrees of hue, the width of one sector of the colour wheel.
pub const SECTOR: u32 = 60_000_000;

/// A full turn of hue, three hundred and sixty degrees.
pub const TURN: u32 = 360_000_000;

/// The integer nearest to the quotient `n / d` for a positive `d`; a
/// quotient that lies exactly between two integers goes away from zero.
pub open spec fn nearest(n: int, d: int) -> int {
    if n >= 0 {
        (2 * n + d) / (2 * d)
    } else {
        -((2 * (-n) + d) / (2 * d))
    }
}

/// `x` limited to the range from zero to `UNIT`.
pub open spec fn clamp_unit(x: int) -> int {
    if x < 0 {
        0
    } else if x > UNIT {
        UNIT as int
    } else {
        x
    }
}

/// The part that `offset` is of `extent`, in millionths: zero at or before
/// the start, `UNIT` at or beyond the end, and the rounded quotient between.
pub open spec fn fraction(offset: int, extent: int) -> int {
    if offset <= 0 {
        0
    } else if offset >= extent {
        UNIT as int
    } else {
        nearest(offset * UNIT as int, extent)
    }
}

/// The defining inequalities of `nearest` for a numerator that is not
/// negative: twice the distance between `q * d` and `n` is at most `d`.
pub proof fn lemma_nearest_bounds(n: int, d: int)
    requires
        n >= 0,
        d > 0,
    ensures
        nearest(n, d) >= 0,
        2 * d * nearest(n, d) <= 2 * n + d,
        2 * n + d < 2 * d * nearest(n, d) + 2 * d,
{
    let q = (2 * n + d) / (2 * d);
    vstd::arithmetic::div_mod::lemma_fundamental_div_mod(2 * n + d, 2 * d);
    vstd::arithmetic::div_mod::lemma_mod_bound(2 * n + d, 2 * d);
    vstd::arithmetic::div_mod::lemma_div_pos_is_pos(2 * n + d, 2 * d);
    assert(2 * d * q == (2 * d) * q) by (nonlinear_arith);
}

/// `nearest` has the sign of its numerator.
pub proof fn lemma_nearest_sign(n: int, d: int)
    requires
        d > 0,
    ensures
        n >= 0 ==> nearest(n, d) >= 0,
        n <= 0 ==> nearest(n, d) <= 0,
{
    if n > 0 {
        lemma_nearest_bounds(n, d);
    } else if n == 0 {
        vstd::arithmetic::div_mod::lemma_basic_div(d, 2 * d);
    } else {
        lemma_nearest_bounds(-n, d);
    }
}

/// A numerator of at most `k` times the divisor gives at most `k`.
pub proof fn lemma_nearest_le(n: int, d: int, k: int)
    requires
        d > 0,
        0 <= n <= k * d,
    ensures
        0 <= nearest(n, d) <= k,
{
    lemma_nearest_bounds(n, d);
    let q = nearest(n, d);
    assert(q <= k) by (nonlinear_arith)
        requires
            2 * d * q <= 2 * n + d,
            n <= k * d,
            d > 0,
    ;
}

/// A numerator that is a multiple of the divisor is divided exactly.
pub proof fn lemma_nearest_exact(k: int, d: int)
    requires
        d > 0,
        k >= 0,
    ensures
        nearest(k * d, d) == k,
{
    assert(k * d >= 0) by (nonlinear_arith)
        requires
            k >= 0,
            d > 0,
    ;
    lemma_nearest_bounds(k * d, d);
    let q = nearest(k * d, d);
    assert(q == k) by (nonlinear_arith)
        requires
            2 * d * q <= 2 * (k * d) + d,
            2 * (k * d) + d < 2 * d * q + 2 * d,
            d > 0,
    ;
}

/// A common factor of numerator and divisor does not change the result.
pub proof fn lemma_nearest_cancel(k: int, n: int, d: int)
    requires
        k > 0,
        n >= 0,
        d > 0,
    ensures
        nearest(k * n, k * d) == nearest(n, d),
{
    assert(k * n >= 0) by (nonlinear_arith)
        requires
            k > 0,
            n >= 0,
    ;
    assert(2 * (k * n) + k * d == k * (2 * n + d)) by (nonlinear_arith);
    assert(2 * (k * d) == k * (2 * d)) by (nonlinear_arith);
    vstd::arithmetic::div_mod::lemma_div_multiples_vanish_quotient(k, 2 * n + d, 2 * d);
}

/// Within an extent of at most `UNIT`, the part that an offset is of the
/// extent gives the offset back when it is applied to the extent.
pub proof fn lemma_fraction_inverts(offset: int, extent: int)
    requires
        0 <= offset <= extent,
        0 < extent <= UNIT,
    ensures
        0 <= fraction(offset, extent) <= UNIT,
        nearest(fraction(offset, extent) * extent, UNIT as int) == offset,
{
    let unit = UNIT as int;
    if offset == 0 {
        assert(0 * extent == 0);
    } else if offset == extent {
        lemma_nearest_exact(extent, unit);
        assert(unit * extent == extent * unit) by (nonlinear_arith);
    } else {
        let part = nearest(offset * unit, extent);
        assert(offset * unit >= 0) by (nonlinear_arith)
            requires
                offset >= 0,
                unit > 0,
        ;
        assert(offset * unit <= unit * extent) by (nonlinear_arith)
            requires
                0 <= offset <= extent,
                unit > 0,
        ;
        lemma_nearest_bounds(offset * unit, extent);
        lemma_nearest_le(offset * unit, extent, unit);
        assert(part * extent >= 0) by (nonlinear_arith)
            requires
                part >= 0,
                extent > 0,
        ;
        // Twice the product differs from twice `offset * unit` by at most
        // the extent, which is at most `UNIT`.
        assert(2 * (part * extent) <= 2 * (offset * unit) + extent) by (nonlinear_arith)
            requires
                2 * extent * part <= 2 * (offset * unit) + extent,
        ;
        assert(2 * (offset * unit) + extent < 2 * (part * extent) + 2 * extent) by (nonlinear_arith)
            requires
                2 * (offset * unit) + extent < 2 * extent * part + 2 * extent,
        ;
        if extent == unit {
            assert(part == offset) by (nonlinear_arith)
                requires
                    2 * (part * extent) <= 2 * (offset * unit) + extent,
                    2 * (offset * unit) + extent < 2 * (part * extent) + 2 * extent,
                    extent == unit,
                    unit > 0,
            ;
            lemma_nearest_exact(offset, unit);
        } else {
            let n = part * extent;
            assert(2 * unit * offset <= 2 * n + unit);
            assert(2 * n + unit < 2 * unit * offset + 2 * unit);
            assert((2 * n + unit) / (2 * unit) == offset);
        }
    }
}

/// Rounding division on machine integers.
pub(crate) fn div_nearest(n: u128, d: u64) -> (q: u128)
    requires
        d > 0,
        n <= 0xffff_ffff_ffff_ffff_ffff_ffff,
    ensures
        q == nearest(n as int, d as int),
        q <= n + 1,
{
    let twice: u128 = 2 * n + d as u128;
    let q: u128 = twice / (2 * d as u128);
    proof {
        lemma_nearest_bounds(n as int, d as int);
        assert(q <= n + 1) by (nonlinear_arith)
            requires
                2 * d * q <= 2 * n + d,
                d > 0,
                q >= 0,
                n >= 0,
        ;
    }
    q
}

/// `fraction` on machine integers.
pub(crate) fn fraction_of(offset: i128, extent: u32) -> (out: u32)
    requires
        extent > 0,
    ensures
        out == fraction(offset as int, extent as int),
        out <= UNIT,
{
    if offset <= 0 {
        0
    } else if offset >= extent as i128 {
        UNIT
    } else {
        let within: u32 = offset as u32;
        proof {
            assert(within as int * UNIT as int <= UNIT as int * extent as int) by (nonlinear_arith)
                requires
                    0 <= within <= extent,
            ;
            lemma_nearest_le(within as int * UNIT as int, extent as int, UNIT as int);
        }
        div_nearest((within as u128) * (UNIT as u128), extent as u64) as u32
    }
}

} // verus!
