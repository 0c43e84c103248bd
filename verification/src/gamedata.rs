use vstd::prelude::*;

verus! {

/// The side of one map tile, in pixels.
pub const TILE_SIZE: u32 = 64;

} // verus!
