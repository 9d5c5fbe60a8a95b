//! Selection of the lightest feasible shape, and the derived member values.
//!
//! A shape is feasible when its resistance is at least the internal force
//! (the magnitude of the axial force). Among the feasible shapes the one
//! with the least dead load is chosen; on an exact tie the earliest catalog
//! entry wins, because a later candidate replaces the current best only when
//! it is strictly lighter.

use vstd::arithmetic::mul::lemma_mul_inequality;
use vstd::prelude::*;

use crate::catalog::CATALOG_LEN;
use crate::catalog::ShapeRecord;
use crate::catalog::catalog_spec;
use crate::catalog::hss_catalog;
use crate::catalog::lemma_catalog_valid;
use crate::catalog::valid_shape;
use crate::resistance::FACTOR_ONE;
use crate::resistance::compressive_newtons;
use crate::resistance::compressive_resistance;
use crate::resistance::lemma_compressive_at_most_tensile;
use crate::resistance::tensile_newtons;
use crate::resistance::tensile_resistance;

verus! {

/// Largest internal force the library accepts, in newtons (ten meganewtons,
/// far beyond any catalog resistance; keeps all arithmetic within `u64`).
pub const MAX_FORCE_N: u64 = 10_000_000_000;

/// Largest member length the library accepts, in millimetres (a hundred
/// kilometres; keeps all arithmetic within `u64`).
pub const MAX_LENGTH_MM: u64 = 100_000_000;

/// Shape `i` can carry the internal force: its resistance is at least it.
pub open spec fn feasible(res: Seq<u64>, internal_n: u64, i: int) -> bool {
    0 <= i < res.len() && res[i] >= internal_n
}

/// Index `j` is the selection's answer: feasible, no feasible shape is
/// lighter, and every earlier feasible shape is strictly heavier (so on a
/// tie of dead loads the earliest catalog entry wins).
pub open spec fn chosen_index(
    cat: Seq<ShapeRecord>,
    res: Seq<u64>,
    internal_n: u64,
    j: int,
) -> bool {
    &&& feasible(res, internal_n, j)
    &&& forall|i: int|
        feasible(res, internal_n, i) ==> cat[j].dead_load_g_per_m <= cat[i].dead_load_g_per_m
    &&& forall|i: int|
        i < j && feasible(res, internal_n, i) ==> cat[i].dead_load_g_per_m
            > cat[j].dead_load_g_per_m
}

/// At most one index satisfies `chosen_index`: the selection is a function
/// of its inputs, with no freedom left to an implementation.
pub proof fn lemma_chosen_unique(cat: Seq<ShapeRecord>, res: Seq<u64>, internal_n: u64, j1: int, j2: int)
    requires
        chosen_index(cat, res, internal_n, j1),
        chosen_index(cat, res, internal_n, j2),
    ensures
        j1 == j2,
{
    if j1 < j2 {
        assert(feasible(res, internal_n, j1));
        assert(cat[j1].dead_load_g_per_m > cat[j2].dead_load_g_per_m);
        assert(cat[j2].dead_load_g_per_m >= cat[j1].dead_load_g_per_m);
    } else if j2 < j1 {
        assert(feasible(res, internal_n, j2));
        assert(cat[j2].dead_load_g_per_m > cat[j1].dead_load_g_per_m);
        assert(cat[j1].dead_load_g_per_m >= cat[j2].dead_load_g_per_m);
    }
}

/// A chosen shape always carries the force: its resistance is at least the
/// internal force's magnitude.
pub proof fn lemma_chosen_carries_force(
    cat: Seq<ShapeRecord>,
    res: Seq<u64>,
    internal_n: u64,
    j: int,
)
    requires
        chosen_index(cat, res, internal_n, j),
    ensures
        0 <= j < res.len(),
        res[j] >= internal_n,
{
}

/// Walks the resistances once and keeps the lightest feasible shape seen so
/// far, replacing it only on a strictly smaller dead load. Returns the
/// governing resistance (0 when nothing is feasible) and the chosen index.
pub fn select_lightest(cat: &Vec<ShapeRecord>, res: &Vec<u64>, internal_n: u64) -> (out: (
    u64,
    Option<usize>,
))
    requires
        cat@.len() == res@.len(),
    ensures
        match out.1 {
            Some(j) => j < cat@.len() && chosen_index(cat@, res@, internal_n, j as int) && out.0
                == res@[j as int],
            None => out.0 == 0 && forall|i: int| !feasible(res@, internal_n, i),
        },
{
    let mut best: Option<usize> = None;
    let mut best_res: u64 = 0;
    let mut k: usize = 0;
    while k < res.len()
        invariant
            cat@.len() == res@.len(),
            k <= res@.len(),
            match best {
                Some(j) => {
                    &&& j < k
                    &&& feasible(res@, internal_n, j as int)
                    &&& best_res == res@[j as int]
                    &&& forall|i: int|
                        i < k && feasible(res@, internal_n, i) ==> cat@[j as int].dead_load_g_per_m
                            <= cat@[i].dead_load_g_per_m
                    &&& forall|i: int|
                        i < j && feasible(res@, internal_n, i) ==> cat@[i].dead_load_g_per_m
                            > cat@[j as int].dead_load_g_per_m
                },
                None => best_res == 0 && forall|i: int| i < k ==> !feasible(res@, internal_n, i),
            },
        decreases res@.len() - k,
    {
        if res[k] >= internal_n {
            let lighter = match best {
                None => true,
                Some(j) => cat[k].dead_load_g_per_m < cat[j].dead_load_g_per_m,
            };
            if lighter {
                best = Some(k);
                best_res = res[k];
            }
        }
        k = k + 1;
    }
    (best_res, best)
}

/// Dead load of the member over its length, in millionths of the displayed
/// unit: the catalog rate times the length, `g/m * mm`.
pub open spec fn dead_load_micro_spec(s: ShapeRecord, length_mm: u64) -> int {
    s.dead_load_g_per_m * length_mm
}

/// Stress in thousandths of a megapascal: the internal force in newtons over
/// the area in square millimetres, scaled by 1000 and rounded towards zero.
pub open spec fn stress_milli_spec(s: ShapeRecord, internal_n: u64) -> int {
    (internal_n * 1000) / (s.area_mm2 as int)
}

/// Elongation in millionths of a millimetre under Hooke's law with
/// E = 200000 MPa: `stress * length / 200000`, which over exact integers is
/// `internal * 5 * length / area`, rounded towards zero.
pub open spec fn strain_micro_spec(s: ShapeRecord, internal_n: u64, length_mm: u64) -> int {
    (internal_n * 5 * length_mm) / (s.area_mm2 as int)
}

/// The product of two bounded non-negative values is bounded by the product
/// of the bounds.
proof fn lemma_mul_bounds(a: int, b: int, ca: int, cb: int)
    requires
        0 <= a <= ca,
        0 <= b <= cb,
    ensures
        0 <= a * b <= ca * cb,
{
    lemma_mul_inequality(0, a, b);
    lemma_mul_inequality(a, ca, b);
    lemma_mul_inequality(b, cb, ca);
}

/// Computes the displayed member values for a chosen shape: dead load,
/// stress and elongation, each as an exact scaled integer.
pub fn derive_quantities(s: &ShapeRecord, internal_n: u64, length_mm: u64) -> (out: (u64, u64, u64))
    requires
        valid_shape(*s),
        internal_n <= MAX_FORCE_N,
        0 < length_mm <= MAX_LENGTH_MM,
    ensures
        out.0 == dead_load_micro_spec(*s, length_mm),
        out.1 == stress_milli_spec(*s, internal_n),
        out.2 == strain_micro_spec(*s, internal_n, length_mm),
{
    proof {
        lemma_mul_bounds(
            s.dead_load_g_per_m as int,
            length_mm as int,
            0xffff_ffff,
            MAX_LENGTH_MM as int,
        );
        lemma_mul_bounds(
            internal_n * 5,
            length_mm as int,
            5 * MAX_FORCE_N as int,
            MAX_LENGTH_MM as int,
        );
    }
    let dead: u64 = (s.dead_load_g_per_m as u64) * length_mm;
    let stress: u64 = (internal_n * 1000) / (s.area_mm2 as u64);
    let strain: u64 = (internal_n * 5 * length_mm) / (s.area_mm2 as u64);
    (dead, stress, strain)
}

/// The outcome of one evaluation. When no shape is feasible, `chosen_shape`
/// is `None`, the governing resistance is 0 and the derived values are 0.
#[derive(Clone, Copy, Debug, PartialEq, Eq)]
pub struct SelectionResult {
    /// Catalog position of the chosen shape, if any.
    pub chosen_index: Option<usize>,
    /// The chosen shape itself, if any.
    pub chosen_shape: Option<ShapeRecord>,
    /// Resistance of the chosen shape, in newtons; 0 when none is chosen.
    pub governing_resistance_n: u64,
    /// Dead load over the member, in millionths of the displayed unit.
    pub dead_load_micro: u64,
    /// Stress, in thousandths of a megapascal.
    pub stress_milli_mpa: u64,
    /// Elongation, in millionths of a millimetre.
    pub strain_micro_mm: u64,
}

/// Why an evaluation was rejected.
#[derive(Clone, Copy, Debug, PartialEq, Eq)]
pub enum SelectError {
    /// The member length was not strictly positive.
    InvalidInput,
}

/// The magnitude of the axial force: tension and compression both load the
/// member by their absolute value.
pub open spec fn internal_force_spec(force_n: i64) -> int {
    if force_n >= 0 {
        force_n as int
    } else {
        -(force_n as int)
    }
}

/// Resistance of one shape against the given force: tensile when the force
/// is strictly positive (tension), compressive otherwise, with the buckling
/// reduction factor in millionths.
pub open spec fn resistance_newtons(force_n: i64, factor_micro: u64, s: ShapeRecord) -> int {
    if force_n > 0 {
        tensile_newtons(s)
    } else {
        compressive_newtons(factor_micro as int, s)
    }
}

/// Per-shape resistances over the whole catalog, as 64-bit values.
pub open spec fn resistances_spec(force_n: i64, factors: Seq<u64>) -> Seq<u64> {
    Seq::new(
        catalog_spec().len(),
        |i: int| resistance_newtons(force_n, factors[i], catalog_spec()[i]) as u64,
    )
}

/// What `select_shape` promises of its result for a positive length: the
/// chosen index satisfies `chosen_index` over the catalog and the per-shape
/// resistances, or nothing was feasible; and every other field is the exact
/// consequence of that choice.
pub open spec fn selection_outcome(
    force_n: i64,
    length_mm: u64,
    factors: Seq<u64>,
    r: SelectionResult,
) -> bool {
    let cat = catalog_spec();
    let res = resistances_spec(force_n, factors);
    let internal = internal_force_spec(force_n) as u64;
    match r.chosen_index {
        Some(j) => {
            &&& j < cat.len()
            &&& chosen_index(cat, res, internal, j as int)
            &&& r.chosen_shape == Some(cat[j as int])
            &&& r.governing_resistance_n == res[j as int]
            &&& r.dead_load_micro == dead_load_micro_spec(cat[j as int], length_mm)
            &&& r.stress_milli_mpa == stress_milli_spec(cat[j as int], internal)
            &&& r.strain_micro_mm == strain_micro_spec(cat[j as int], internal, length_mm)
        },
        None => {
            &&& (forall|i: int| !feasible(res, internal, i))
            &&& r.chosen_shape is None
            &&& r.governing_resistance_n == 0
            &&& r.dead_load_micro == 0
            &&& r.stress_milli_mpa == 0
            &&& r.strain_micro_mm == 0
        },
    }
}

/// The outcome determines the result in full: two results that both satisfy
/// `selection_outcome` for the same inputs are equal. Together with
/// `select_shape`'s contract this makes the selection pure: two calls with
/// identical inputs return identical results.
pub proof fn lemma_selection_deterministic(
    force_n: i64,
    length_mm: u64,
    factors: Seq<u64>,
    r1: SelectionResult,
    r2: SelectionResult,
)
    requires
        selection_outcome(force_n, length_mm, factors, r1),
        selection_outcome(force_n, length_mm, factors, r2),
    ensures
        r1 == r2,
{
    let cat = catalog_spec();
    let res = resistances_spec(force_n, factors);
    let internal = internal_force_spec(force_n) as u64;
    match (r1.chosen_index, r2.chosen_index) {
        (Some(j1), Some(j2)) => {
            lemma_chosen_unique(cat, res, internal, j1 as int, j2 as int);
        },
        (Some(j1), None) => {
            assert(feasible(res, internal, j1 as int));
            assert(!feasible(res, internal, j1 as int));
        },
        (None, Some(j2)) => {
            assert(feasible(res, internal, j2 as int));
            assert(!feasible(res, internal, j2 as int));
        },
        (None, None) => {},
    }
}

/// Evaluates one request: computes every catalog shape's resistance against
/// the force, keeps the shapes that carry the force's magnitude, chooses the
/// lightest of them (earliest on ties), and derives the member values.
///
/// `force_n` is the axial force in newtons, tension positive; a force of 0
/// falls to the compressive branch, as the sign test is strict.
/// `compression_factors` hold each shape's buckling reduction factor in
/// millionths of 1 for the member length; they are read only when the force
/// is not strictly positive. A non-positive length is rejected.
pub fn select_shape(force_n: i64, length_mm: u64, compression_factors: &Vec<u64>) -> (out: Result<
    SelectionResult,
    SelectError,
>)
    requires
        -(MAX_FORCE_N as int) <= force_n as int <= MAX_FORCE_N as int,
        length_mm <= MAX_LENGTH_MM,
        compression_factors@.len() == CATALOG_LEN,
        forall|i: int|
            0 <= i < compression_factors@.len() ==> #[trigger] compression_factors@[i]
                <= FACTOR_ONE,
    ensures
        out is Err <==> length_mm == 0,
        out is Err ==> out == Err::<SelectionResult, SelectError>(SelectError::InvalidInput),
        out matches Ok(r) ==> selection_outcome(force_n, length_mm, compression_factors@, r),
{
    if length_mm == 0 {
        return Err(SelectError::InvalidInput);
    }
    let internal: u64 = if force_n >= 0 {
        force_n as u64
    } else {
        (-force_n) as u64
    };
    let cat = hss_catalog();
    let ghost res_spec = resistances_spec(force_n, compression_factors@);
    let mut res: Vec<u64> = Vec::new();
    let mut k: usize = 0;
    while k < cat.len()
        invariant
            cat@ == catalog_spec(),
            res_spec == resistances_spec(force_n, compression_factors@),
            compression_factors@.len() == CATALOG_LEN,
            forall|i: int|
                0 <= i < compression_factors@.len() ==> #[trigger] compression_factors@[i]
                    <= FACTOR_ONE,
            k <= cat@.len(),
            res@.len() == k,
            forall|i: int| 0 <= i < k ==> res@[i] == res_spec[i],
        decreases cat@.len() - k,
    {
        let r: u64 = if force_n > 0 {
            tensile_resistance(&cat[k])
        } else {
            compressive_resistance(&cat[k], compression_factors[k])
        };
        proof {
            lemma_compressive_at_most_tensile(compression_factors@[k as int] as int, cat@[k as int]);
            assert(r == resistance_newtons(force_n, compression_factors@[k as int], cat@[k as int]));
            assert(r == res_spec[k as int]);
        }
        res.push(r);
        k = k + 1;
    }
    let (governing, chosen) = select_lightest(&cat, &res, internal);
    proof {
        assert(res@ =~= res_spec);
    }
    match chosen {
        Some(j) => {
            let shape: ShapeRecord = cat[j];
            proof {
                lemma_catalog_valid();
            }
            let (dead, stress, strain) = derive_quantities(&shape, internal, length_mm);
            Ok(
                SelectionResult {
                    chosen_index: Some(j),
                    chosen_shape: Some(shape),
                    governing_resistance_n: governing,
                    dead_load_micro: dead,
                    stress_milli_mpa: stress,
                    strain_micro_mm: strain,
                },
            )
        },
        None => Ok(
            SelectionResult {
                chosen_index: None,
                chosen_shape: None,
                governing_resistance_n: 0,
                dead_load_micro: 0,
                stress_milli_mpa: 0,
                strain_micro_mm: 0,
            },
        ),
    }
}

} // verus!
