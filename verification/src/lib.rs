//! Converts a proprietary binary skeletal-animation file into an
//! interchange XML document: binary decoding, joint-hierarchy
//! construction, per-frame transform selection and document generation.
//!
//! Float values never enter the library as floats: every 32-bit float of
//! the input is carried as its bit pattern (`u32`), and the caller
//! supplies decimal text where the output document needs float text.

pub mod bone;
pub mod collada;
pub mod d3d;
pub mod error;
pub mod raw;
pub mod skeleton;
pub mod text;
pub mod transform;

use vstd::prelude::*;

verus! {

/// The lowest file version this library decodes.
pub const MIN_VERSION: u16 = 4010;

/// Parent id of the single root bone.
pub const NO_PARENT_ID: u32 = 0xFFFFFFFF;

} // verus!

