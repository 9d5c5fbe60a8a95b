//! Axial resistances of a catalog shape, in newtons.
//!
//! The tensile resistance of a shape is `0.9 * area * 370 / 1000` kilonewtons
//! for a steel yield strength of 370 MPa and a resistance factor of 0.9.
//! Expressed in newtons that is exactly `333 * area_mm2`, an integer.
//!
//! The compressive resistance multiplies the tensile resistance by a buckling
//! reduction factor in `(0, 1]` that depends on the member length and the
//! shape's radius of gyration through the column curve. Its computation is
//! not exact in integers, so the caller supplies the factor scaled to
//! millionths; this module proves that whatever factor in `[0, 1]` is
//! supplied, the compressive resistance never exceeds the tensile one.

use vstd::arithmetic::div_mod::lemma_div_is_ordered;
use vstd::arithmetic::div_mod::lemma_div_multiples_vanish;
use vstd::arithmetic::mul::lemma_mul_inequality;
use vstd::prelude::*;

use crate::catalog::ShapeRecord;
use crate::catalog::valid_shape;

verus! {

/// The buckling reduction factor is scaled to millionths: this value stands
/// for a factor of exactly 1, the largest the column curve can yield.
pub const FACTOR_ONE: u64 = 1_000_000;

/// Tensile resistance in newtons: `0.9 * area * 370` with the area in square
/// millimetres, which is exactly `333 * area`.
pub open spec fn tensile_newtons(s: ShapeRecord) -> int {
    333 * s.area_mm2
}

/// Compressive resistance in newtons for a buckling reduction factor given in
/// millionths: `factor * tensile / 1_000_000`, rounded towards zero.
pub open spec fn compressive_newtons(factor_micro: int, s: ShapeRecord) -> int {
    (factor_micro * tensile_newtons(s)) / (FACTOR_ONE as int)
}

/// Buckling only ever reduces capacity: for any reduction factor at most 1,
/// the compressive resistance is at most the tensile resistance.
pub proof fn lemma_compressive_at_most_tensile(factor_micro: int, s: ShapeRecord)
    requires
        0 <= factor_micro <= FACTOR_ONE,
    ensures
        0 <= compressive_newtons(factor_micro, s) <= tensile_newtons(s),
{
    let t = tensile_newtons(s);
    assert(t >= 0);
    lemma_mul_inequality(0, factor_micro, t);
    lemma_mul_inequality(factor_micro, FACTOR_ONE as int, t);
    lemma_div_is_ordered(0, factor_micro * t, FACTOR_ONE as int);
    lemma_div_is_ordered(factor_micro * t, (FACTOR_ONE as int) * t, FACTOR_ONE as int);
    lemma_div_multiples_vanish(t, FACTOR_ONE as int);
}

/// Computes the tensile resistance of a shape, in newtons.
pub fn tensile_resistance(s: &ShapeRecord) -> (r: u64)
    ensures
        r == tensile_newtons(*s),
{
    333u64 * (s.area_mm2 as u64)
}

/// Computes the compressive resistance of a shape, in newtons, from a
/// buckling reduction factor given in millionths of 1. The result never
/// exceeds the shape's tensile resistance.
pub fn compressive_resistance(s: &ShapeRecord, factor_micro: u64) -> (r: u64)
    requires
        factor_micro <= FACTOR_ONE,
    ensures
        r == compressive_newtons(factor_micro as int, *s),
        r <= tensile_newtons(*s),
{
    let t: u64 = 333u64 * (s.area_mm2 as u64);
    assert((factor_micro as int) * (t as int) <= 1_000_000 * (333int * 0xffff_ffff)) by {
        lemma_mul_inequality(t as int, 333int * 0xffff_ffff, factor_micro as int);
        lemma_mul_inequality(factor_micro as int, 1_000_000int, 333int * 0xffff_ffff);
    }
    let scaled: u64 = factor_micro * t;
    let r: u64 = scaled / 1_000_000u64;
    proof {
        lemma_compressive_at_most_tensile(factor_micro as int, *s);
    }
    r
}

} // verus!
