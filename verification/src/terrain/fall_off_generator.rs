//! The generator of fall-off maps, which lower the terrain towards the edges
//! of a map so that it reads as an island. The map itself is a floating-point
//! curve over the distance to the edge and is computed by the application.
use vstd::prelude::*;

verus! {

/// Generates fall-off maps.
#[derive(Clone, Copy, Debug)]
pub struct FallOffGenerator;

} // verus!
