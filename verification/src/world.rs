//! The world: the birds and the food.
use vstd::prelude::*;
use crate::bird::{bird_wf, Bird, SPEED_START_FX};
use crate::network::net_in_unit_range;
use crate::eye::EYE_CELLS;
use crate::food::Food;
use crate::geom::unit_point;
use crate::rng::Prng;

verus! {

/// Largest supported bird population.
pub const MAX_BIRDS: usize = 10_000;

/// Largest supported food count.
pub const MAX_FOODS: usize = 10_000;

/// The world: a fixed-size population of birds and a fixed-size collection
/// of food.  Population sizes stay constant across the simulation's
/// lifetime; evolution replaces birds one for one.
pub struct World {
    pub birds: Vec<Bird>,
    pub foods: Vec<Food>,
}

/// Well-formedness of a world: a non-empty, bounded population of
/// well-formed birds that share the default eye geometry, and bounded food
/// all within the arena.
pub open spec fn world_wf(w: World) -> bool {
    &&& 1 <= w.birds@.len() <= MAX_BIRDS
    &&& w.foods@.len() <= MAX_FOODS
    &&& forall|k: int| 0 <= k < w.birds@.len() ==> bird_wf(#[trigger] w.birds@[k])
    &&& forall|k: int| 0 <= k < w.birds@.len() ==> (#[trigger] w.birds@[k]).eye.cells == EYE_CELLS
    &&& forall|k: int| 0 <= k < w.foods@.len() ==> unit_point((#[trigger] w.foods@[k]).position)
}

impl World {
    /// Build a world of `nb_birds` random birds and `nb_foods` random food
    /// items.
    pub fn random(nb_birds: usize, nb_foods: usize, rng: &mut Prng) -> (r: World)
        requires
            1 <= nb_birds <= MAX_BIRDS,
            nb_foods <= MAX_FOODS,
        ensures
            world_wf(r),
            r.birds@.len() == nb_birds,
            r.foods@.len() == nb_foods,
            forall|k: int| 0 <= k < r.birds@.len() ==> (#[trigger] r.birds@[k]).satiation == 0,
            forall|k: int| 0 <= k < r.birds@.len() ==> (#[trigger] r.birds@[k]).speed
                == SPEED_START_FX,
            forall|k: int| 0 <= k < r.birds@.len() ==> net_in_unit_range(
                (#[trigger] r.birds@[k]).brain.neural_network,
            ),
    {
        let mut birds: Vec<Bird> = Vec::new();
        let mut i: usize = 0;
        while i < nb_birds
            invariant
                i <= nb_birds,
                birds@.len() == i,
                forall|k: int| 0 <= k < i ==> bird_wf(#[trigger] birds@[k]),
                forall|k: int| 0 <= k < i ==> (#[trigger] birds@[k]).eye.cells == EYE_CELLS,
                forall|k: int| 0 <= k < i ==> (#[trigger] birds@[k]).satiation == 0,
                forall|k: int| 0 <= k < i ==> (#[trigger] birds@[k]).speed == SPEED_START_FX,
                forall|k: int| 0 <= k < i ==> net_in_unit_range(
                    (#[trigger] birds@[k]).brain.neural_network,
                ),
            decreases nb_birds - i,
        {
            birds.push(Bird::random(rng));
            i = i + 1;
        }
        let mut foods: Vec<Food> = Vec::new();
        let mut j: usize = 0;
        while j < nb_foods
            invariant
                j <= nb_foods,
                foods@.len() == j,
                forall|k: int| 0 <= k < j ==> unit_point((#[trigger] foods@[k]).position),
            decreases nb_foods - j,
        {
            foods.push(Food::random(rng));
            j = j + 1;
        }
        World { birds, foods }
    }

    /// The birds of the world.
    pub fn birds(&self) -> (r: &Vec<Bird>)
        ensures
            r == &self.birds,
    {
        &self.birds
    }

    /// The food of the world.
    pub fn foods(&self) -> (r: &Vec<Food>)
        ensures
            r == &self.foods,
    {
        &self.foods
    }
}

} // verus!
