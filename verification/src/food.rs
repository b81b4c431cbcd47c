//! Food items of the arena.
use vstd::prelude::*;
use crate::fx::FX_ONE;
use crate::geom::{unit_point, Point2};
use crate::rng::Prng;

verus! {

/// One food item: a position in the unit arena.  Food is relocated, not
/// destroyed, when a bird eats it.
pub struct Food {
    pub position: Point2,
}

impl Food {
    /// Place a food item uniformly at random in the arena.
    pub fn random(rng: &mut Prng) -> (r: Food)
        ensures
            unit_point(r.position),
    {
        let x = rng.range_i64(0, FX_ONE - 1);
        let y = rng.range_i64(0, FX_ONE - 1);
        Food { position: Point2 { x, y } }
    }

    /// The position of the food item.
    pub fn position(&self) -> (r: Point2)
        ensures
            r == self.position,
    {
        self.position
    }
}

} // verus!
