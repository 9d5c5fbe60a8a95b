//! Tests of the shape catalog and of the resistance formulas.

use member_hss::catalog::ShapeRecord;
use member_hss::catalog::hss_catalog;
use member_hss::resistance::FACTOR_ONE;
use member_hss::resistance::compressive_resistance;
use member_hss::resistance::tensile_resistance;

/// Buckling reduction factor for a shape of the given radius of gyration
/// (tenths of a millimetre) and member length (millimetres), in millionths,
/// from the column curve with n = 1.34 and E = 200000 MPa.
fn buckling_factor_micro(radius_tenth_mm: u32, length_mm: u64) -> u64 {
    let r_mm = radius_tenth_mm as f64 / 10.0;
    let l_mm = length_mm as f64;
    let sigma_e = (std::f64::consts::PI.powi(2) * 200_000.0) / (l_mm / r_mm).powi(2);
    let lambda = (370.0 / sigma_e).sqrt();
    let f = 1.0 / (1.0 + lambda.powf(2.0 * 1.34)).powf(1.0 / 1.34);
    let scaled = (f * 1_000_000.0).round();
    if scaled >= 1_000_000.0 {
        1_000_000
    } else if scaled <= 0.0 {
        0
    } else {
        scaled as u64
    }
}

#[test]
fn catalog_has_29_valid_entries() {
    let cat = hss_catalog();
    assert_eq!(cat.len(), 29);
    for s in &cat {
        assert!(s.depth_tenth_mm > 0);
        assert!(s.width_tenth_mm > 0);
        assert!(s.wall_tenth_mm > 0);
        assert!(s.dead_load_g_per_m > 0);
        assert!(s.area_mm2 > 0);
        assert!(s.radius_tenth_mm > 0);
    }
}

#[test]
fn catalog_keeps_reference_order_and_values() {
    let cat = hss_catalog();
    // First entry: HSS 51 x 51 x 6.4, dead load 0.079, area 1030, r 17.6.
    assert_eq!(
        cat[0],
        ShapeRecord {
            depth_tenth_mm: 510,
            width_tenth_mm: 510,
            wall_tenth_mm: 64,
            dead_load_g_per_m: 79,
            area_mm2: 1030,
            radius_tenth_mm: 176,
        }
    );
    // HSS 102 x 102 x 6.4 sits fifth, dead load 0.178, area 2320, r 38.4.
    assert_eq!(
        cat[4],
        ShapeRecord {
            depth_tenth_mm: 1020,
            width_tenth_mm: 1020,
            wall_tenth_mm: 64,
            dead_load_g_per_m: 178,
            area_mm2: 2320,
            radius_tenth_mm: 384,
        }
    );
    // Last entry: HSS 305 x 305 x 13, dead load 1.11, area 14400, r 118.
    assert_eq!(
        cat[28],
        ShapeRecord {
            depth_tenth_mm: 3050,
            width_tenth_mm: 3050,
            wall_tenth_mm: 130,
            dead_load_g_per_m: 1110,
            area_mm2: 14400,
            radius_tenth_mm: 1180,
        }
    );
}

#[test]
fn tensile_resistance_matches_formula_exactly() {
    // 0.9 * area * 370 / 1000 kN is exactly 333 * area newtons.
    let cat = hss_catalog();
    for s in &cat {
        assert_eq!(tensile_resistance(s), 333 * s.area_mm2 as u64);
    }
    // HSS 102 x 102 x 6.4: 0.9 * 2320 * 370 / 1000 = 772.56 kN.
    assert_eq!(tensile_resistance(&cat[4]), 772_560);
    // Lightest shape: 0.9 * 1030 * 370 / 1000 = 342.99 kN.
    assert_eq!(tensile_resistance(&cat[0]), 342_990);
}

#[test]
fn compressive_resistance_exact_at_half_factor() {
    let cat = hss_catalog();
    // A factor of one half exactly halves the tensile resistance of the
    // first shape: 342990 / 2 = 171495 N.
    assert_eq!(compressive_resistance(&cat[0], 500_000), 171_495);
    // A factor of exactly 1 gives the tensile resistance back.
    assert_eq!(compressive_resistance(&cat[0], FACTOR_ONE), 342_990);
    // A factor of 0 gives no resistance.
    assert_eq!(compressive_resistance(&cat[0], 0), 0);
}

#[test]
fn compressive_never_exceeds_tensile() {
    let cat = hss_catalog();
    for length_mm in [500u64, 1_000, 3_500, 6_000, 20_000, 100_000] {
        for s in &cat {
            let factor = buckling_factor_micro(s.radius_tenth_mm, length_mm);
            assert!(factor <= FACTOR_ONE);
            assert!(compressive_resistance(s, factor) <= tensile_resistance(s));
        }
    }
}

#[test]
fn buckling_factor_shrinks_with_length() {
    let cat = hss_catalog();
    for s in &cat {
        let short = buckling_factor_micro(s.radius_tenth_mm, 1_000);
        let long = buckling_factor_micro(s.radius_tenth_mm, 10_000);
        assert!(long < short);
        assert!(compressive_resistance(s, long) < compressive_resistance(s, short));
    }
}
