//! One bird: spatial state, eye, brain and satiation.
use vstd::prelude::*;
use crate::brain::{brain_genes, brain_wf, Brain};
use crate::chromosome::Chromosome;
use crate::eye::{eye_wf, Eye, EYE_CELLS};
use crate::fx::FX_ONE;
use crate::geom::{unit_point, Point2, TAU_FX};
use crate::network::{net_flat, net_in_unit_range};
use crate::rng::Prng;

verus! {

/// Minimum speed of a bird; avoids getting stuck.
pub const SPEED_MIN_FX: i64 = 1_000;

/// Maximum speed of a bird; avoids unrealistic behaviors.
pub const SPEED_MAX_FX: i64 = 5_000;

/// Speed of a freshly created bird.
pub const SPEED_START_FX: i64 = 2_000;

/// A bird: a position and rotation in the arena, a bounded speed, one eye,
/// one brain, and the count of foods eaten this generation.
pub struct Bird {
    pub position: Point2,
    pub rotation: i64,
    pub speed: i64,
    pub eye: Eye,
    pub brain: Brain,
    pub satiation: u64,
}

/// Well-formedness of a bird: position in the arena, rotation within one
/// turn, speed within bounds, a well-formed eye, and a brain matching the
/// eye's topology.
pub open spec fn bird_wf(b: Bird) -> bool {
    &&& unit_point(b.position)
    &&& 0 <= b.rotation < TAU_FX
    &&& SPEED_MIN_FX <= b.speed <= SPEED_MAX_FX
    &&& eye_wf(b.eye)
    &&& brain_wf(b.brain, b.eye.cells as int)
}

impl Bird {
    /// Place a bird with the given eye and brain at a random position and
    /// rotation, with the fixed initial speed and no satiation.
    pub fn new(eye: Eye, brain: Brain, rng: &mut Prng) -> (r: Bird)
        requires
            eye_wf(eye),
            brain_wf(brain, eye.cells as int),
        ensures
            bird_wf(r),
            r.eye == eye,
            r.brain == brain,
            r.satiation == 0,
            r.speed == SPEED_START_FX,
    {
        let x = rng.range_i64(0, FX_ONE - 1);
        let y = rng.range_i64(0, FX_ONE - 1);
        let rotation = rng.range_i64(0, TAU_FX - 1);
        Bird {
            position: Point2 { x, y },
            rotation,
            speed: SPEED_START_FX,
            eye,
            brain,
            satiation: 0,
        }
    }

    /// Place a bird with the default eye and a random brain.
    pub fn random(rng: &mut Prng) -> (r: Bird)
        ensures
            bird_wf(r),
            r.eye.cells == EYE_CELLS,
            r.satiation == 0,
            r.speed == SPEED_START_FX,
            net_in_unit_range(r.brain.neural_network),
    {
        let eye = Eye::default();
        let brain = Brain::random(rng, &eye);
        Bird::new(eye, brain, rng)
    }

    /// The position of the bird.
    pub fn position(&self) -> (r: Point2)
        ensures
            r == self.position,
    {
        self.position
    }

    /// The rotation of the bird, in fixed-point radians.
    pub fn rotation(&self) -> (r: i64)
        ensures
            r == self.rotation,
    {
        self.rotation
    }

    /// The number of foods the bird ate this generation.
    pub fn satiation(&self) -> (r: u64)
        ensures
            r == self.satiation,
    {
        self.satiation
    }

    /// The bird's genetic material: its brain as a chromosome.
    pub fn as_chromosome(&self) -> (r: Chromosome)
        ensures
            r@ == net_flat(self.brain.neural_network),
    {
        self.brain.as_chromosome()
    }

    /// Rebuild a bird from a chromosome, with the default eye, a fresh
    /// random position and rotation, the fixed initial speed and no
    /// satiation.
    pub fn from_chromosome(chromosome: Chromosome, rng: &mut Prng) -> (r: Bird)
        requires
            chromosome@.len() == brain_genes(EYE_CELLS as int),
        ensures
            bird_wf(r),
            r.eye.cells == EYE_CELLS,
            r.satiation == 0,
            net_flat(r.brain.neural_network) == chromosome@,
    {
        let eye = Eye::default();
        let brain = Brain::from_chromosome(chromosome, &eye);
        Bird::new(eye, brain, rng)
    }
}

} // verus!
