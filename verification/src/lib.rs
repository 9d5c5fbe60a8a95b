//! Sizing of steel Hollow Structural Section (HSS) members under axial load.
//!
//! Given an axial internal force and a member length, the library selects the
//! lightest catalog shape whose resistance carries the force, and derives the
//! member's dead load, stress and strain. All quantities are exact fixed-point
//! integers: forces in newtons, lengths in millimetres, section dimensions in
//! tenths of a millimetre, dead loads in grams per metre, and the buckling
//! reduction factor in millionths. The caller supplies the per-shape buckling
//! reduction factors for compression, since their computation is not exact;
//! everything else, down to the parsing of decimal input into fixed point,
//! is computed and proved here.

pub mod catalog;
pub mod parse;
pub mod resistance;
pub mod selection;
