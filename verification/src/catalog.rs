//! The fixed catalog of Hollow Structural Section shapes.
//!
//! Each record stores the nominal cross-section dimensions in tenths of a
//! millimetre, the dead load in grams per metre, the cross-sectional area in
//! square millimetres, and the radius of gyration in tenths of a millimetre.
//! Every value of the reference table is exactly representable at these
//! scales, so the catalog is exact.

use vstd::prelude::*;

verus! {

/// One catalog entry. All fields of a valid record are strictly positive.
#[derive(Clone, Copy, Debug, PartialEq, Eq, Structural)]
pub struct ShapeRecord {
    /// Nominal depth, in tenths of a millimetre.
    pub depth_tenth_mm: u32,
    /// Nominal width, in tenths of a millimetre.
    pub width_tenth_mm: u32,
    /// Wall thickness, in tenths of a millimetre.
    pub wall_tenth_mm: u32,
    /// Dead load (self-weight rate), in grams per metre.
    pub dead_load_g_per_m: u32,
    /// Cross-sectional area, in square millimetres.
    pub area_mm2: u32,
    /// Radius of gyration, in tenths of a millimetre.
    pub radius_tenth_mm: u32,
}

/// A record is valid when all six fields are strictly positive.
pub open spec fn valid_shape(s: ShapeRecord) -> bool {
    &&& s.depth_tenth_mm > 0
    &&& s.width_tenth_mm > 0
    &&& s.wall_tenth_mm > 0
    &&& s.dead_load_g_per_m > 0
    &&& s.area_mm2 > 0
    &&& s.radius_tenth_mm > 0
}

/// Builds one record from its six field values.
pub fn make_shape(
    depth_tenth_mm: u32,
    width_tenth_mm: u32,
    wall_tenth_mm: u32,
    dead_load_g_per_m: u32,
    area_mm2: u32,
    radius_tenth_mm: u32,
) -> (s: ShapeRecord)
    ensures
        s == (ShapeRecord {
            depth_tenth_mm,
            width_tenth_mm,
            wall_tenth_mm,
            dead_load_g_per_m,
            area_mm2,
            radius_tenth_mm,
        }),
{
    ShapeRecord {
        depth_tenth_mm,
        width_tenth_mm,
        wall_tenth_mm,
        dead_load_g_per_m,
        area_mm2,
        radius_tenth_mm,
    }
}

/// Shorthand used to write the catalog down in specifications.
pub open spec fn shape(
    depth_tenth_mm: u32,
    width_tenth_mm: u32,
    wall_tenth_mm: u32,
    dead_load_g_per_m: u32,
    area_mm2: u32,
    radius_tenth_mm: u32,
) -> ShapeRecord {
    ShapeRecord {
        depth_tenth_mm,
        width_tenth_mm,
        wall_tenth_mm,
        dead_load_g_per_m,
        area_mm2,
        radius_tenth_mm,
    }
}

/// The catalog as a mathematical sequence, in its fixed order.
pub open spec fn catalog_spec() -> Seq<ShapeRecord> {
    seq![
        shape(510, 510, 64, 79, 1030, 176),
        shape(760, 510, 65, 104, 1350, 261),
        shape(760, 510, 80, 155, 1600, 251),
        shape(890, 640, 80, 155, 2010, 305),
        shape(1020, 1020, 64, 178, 2320, 384),
        shape(1020, 760, 80, 186, 2410, 358),
        shape(1020, 760, 95, 215, 2790, 350),
        shape(1270, 640, 95, 234, 3030, 417),
        shape(1270, 760, 95, 252, 3280, 432),
        shape(1520, 1020, 80, 279, 3620, 548),
        shape(1520, 1020, 95, 327, 4240, 540),
        shape(1520, 1020, 110, 373, 4840, 531),
        shape(2030, 1020, 95, 401, 5210, 703),
        shape(2030, 1020, 110, 460, 5870, 693),
        shape(2030, 1020, 130, 514, 6680, 684),
        shape(2030, 1520, 95, 476, 6180, 751),
        shape(2030, 1520, 110, 547, 7100, 742),
        shape(2540, 2540, 80, 590, 7660, 999),
        shape(2540, 2540, 95, 699, 9090, 991),
        shape(2540, 2540, 130, 912, 11800, 976),
        shape(2030, 1520, 130, 614, 7970, 734),
        shape(2540, 1520, 110, 634, 8230, 910),
        shape(2540, 1520, 130, 713, 9260, 901),
        shape(3050, 3050, 80, 714, 9280, 1210),
        shape(3050, 2030, 95, 699, 9090, 1130),
        shape(3050, 2030, 110, 808, 10500, 1120),
        shape(3050, 2030, 130, 912, 11800, 1110),
        shape(3050, 3050, 110, 982, 12800, 1190),
        shape(3050, 3050, 130, 1110, 14400, 1180),
    ]
}

/// Number of shapes in the catalog.
pub const CATALOG_LEN: usize = 29;

/// Every catalog record is valid.
pub proof fn lemma_catalog_valid()
    ensures
        catalog_spec().len() == CATALOG_LEN,
        forall|i: int| 0 <= i < catalog_spec().len() ==> valid_shape(#[trigger] catalog_spec()[i]),
{
    assert forall|i: int| 0 <= i < catalog_spec().len() implies valid_shape(
        #[trigger] catalog_spec()[i],
    ) by {
        assert(valid_shape(catalog_spec()[i]));
    }
}

/// Returns the catalog, in its fixed order.
pub fn hss_catalog() -> (v: Vec<ShapeRecord>)
    ensures
        v@ == catalog_spec(),
        v@.len() == CATALOG_LEN,
{
    let mut v: Vec<ShapeRecord> = Vec::new();
    v.push(make_shape(510, 510, 64, 79, 1030, 176));
    v.push(make_shape(760, 510, 65, 104, 1350, 261));
    v.push(make_shape(760, 510, 80, 155, 1600, 251));
    v.push(make_shape(890, 640, 80, 155, 2010, 305));
    v.push(make_shape(1020, 1020, 64, 178, 2320, 384));
    v.push(make_shape(1020, 760, 80, 186, 2410, 358));
    v.push(make_shape(1020, 760, 95, 215, 2790, 350));
    v.push(make_shape(1270, 640, 95, 234, 3030, 417));
    v.push(make_shape(1270, 760, 95, 252, 3280, 432));
    v.push(make_shape(1520, 1020, 80, 279, 3620, 548));
    v.push(make_shape(1520, 1020, 95, 327, 4240, 540));
    v.push(make_shape(1520, 1020, 110, 373, 4840, 531));
    v.push(make_shape(2030, 1020, 95, 401, 5210, 703));
    v.push(make_shape(2030, 1020, 110, 460, 5870, 693));
    v.push(make_shape(2030, 1020, 130, 514, 6680, 684));
    v.push(make_shape(2030, 1520, 95, 476, 6180, 751));
    v.push(make_shape(2030, 1520, 110, 547, 7100, 742));
    v.push(make_shape(2540, 2540, 80, 590, 7660, 999));
    v.push(make_shape(2540, 2540, 95, 699, 9090, 991));
    v.push(make_shape(2540, 2540, 130, 912, 11800, 976));
    v.push(make_shape(2030, 1520, 130, 614, 7970, 734));
    v.push(make_shape(2540, 1520, 110, 634, 8230, 910));
    v.push(make_shape(2540, 1520, 130, 713, 9260, 901));
    v.push(make_shape(3050, 3050, 80, 714, 9280, 1210));
    v.push(make_shape(3050, 2030, 95, 699, 9090, 1130));
    v.push(make_shape(3050, 2030, 110, 808, 10500, 1120));
    v.push(make_shape(3050, 2030, 130, 912, 11800, 1110));
    v.push(make_shape(3050, 3050, 110, 982, 12800, 1190));
    v.push(make_shape(3050, 3050, 130, 1110, 14400, 1180));
    assert(v@ =~= catalog_spec());
    v
}

} // verus!
