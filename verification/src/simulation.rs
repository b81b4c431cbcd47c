//! The top-level simulation: per-tick sensing, decision, movement and
//! collision, and periodic generational evolution.
use vstd::prelude::*;
use crate::bird::{bird_wf, Bird, SPEED_MAX_FX, SPEED_MIN_FX};
use crate::network::{net_flat, net_output};
use crate::eye::vision_spec;
use crate::geom::{cos_spec, sin_spec, sq_dist, wrap_tau_spec, wrap_unit_spec};
use crate::bird_individual::BirdIndividual;
use crate::brain::{brain_genes, lemma_brain_flat_len, lemma_brain_net_wf};
use crate::crossover::UniformCrossover;
use crate::eye::EYE_CELLS;
use crate::food::Food;
use crate::fx::{abs_int, clamp_i64, clamp_spec, fx_mul, fx_mul_spec, lemma_fx_mul_unit, FX_ONE};
use crate::genetic::GeneticAlgorithm;
use crate::geom::{cos_fx, sin_fx, wrap_tau, wrap_unit, Point2, HALF_PI_FX, TAU_FX};
use crate::individual::{fitness_seq, Individual};
use crate::mutation::{GaussianMutation, MutationMethod};
use crate::rng::Prng;
use crate::selection::RouletteWheelSelection;
use crate::statistics::{
    lemma_min_ge, lemma_statistics_ordering, lemma_sum_le, lemma_sum_pointwise_le, lemma_sum_scaled,
    seq_sum, Statistics,
};
use crate::world::{world_wf, World, MAX_FOODS};

verus! {

/// How much the brain can change the speed in one tick.
pub const SPEED_ACCEL_FX: i64 = 200_000;

/// How much the brain can change the rotation in one tick.
pub const ROTATION_ACCEL_FX: i64 = HALF_PI_FX;

/// How many ticks each generation lasts.
pub const GENERATION_LENGTH: u64 = 2_500;

/// Mutation probability of the simulation's genetic algorithm.
pub const MUTATION_CHANCE_FX: i64 = 10_000;

/// Mutation magnitude bound of the simulation's genetic algorithm.
pub const MUTATION_COEFF_FX: i64 = 30_000;

/// Bird population size of a random simulation.
pub const NB_BIRDS: usize = 40;

/// Food count of a random simulation.
pub const NB_FOODS: usize = 60;

/// A bird eats a food within this distance.
pub const COLLISION_RADIUS_FX: i64 = 10_000;

/// Largest satiation a bird can reach within one generation.
pub const SATIATION_MAX: u64 = 25_010_000;

/// Why a fast-forward could not finish a generation.
#[derive(Clone, Copy, PartialEq, Eq, Structural, Debug)]
pub enum TrainError {
    /// The generation ended with nothing eaten, so fitness-weighted
    /// selection has no valid choice.
    NothingEaten,
}

/// The satiation counters of a bird population, in order.
pub open spec fn satiation_seq(birds: Seq<Bird>) -> Seq<int> {
    Seq::new(birds.len(), |k: int| birds[k].satiation as int)
}

/// Total satiation of a bird population.
pub open spec fn total_satiation(birds: Seq<Bird>) -> int {
    seq_sum(satiation_seq(birds))
}

/// The fitness scores a satiation snapshot encodes: each counter as a
/// fixed-point value.
pub open spec fn scaled_fitnesses(sats: Seq<int>) -> Seq<int> {
    Seq::new(sats.len(), |k: int| (FX_ONE as int) * sats[k])
}

/// What a bird's eye reads in a world of `foods`.
pub open spec fn bird_vision(b: Bird, foods: Seq<Food>) -> Seq<i64> {
    vision_spec(b.eye, b.position, b.rotation, foods, foods.len() as int)
}

/// What a bird's brain answers to its vision.
pub open spec fn bird_response(b: Bird, foods: Seq<Food>) -> Seq<i64> {
    net_output(b.brain.neural_network, bird_vision(b, foods))
}

/// The speed after one sense-and-decide step: the brain's first output,
/// clamped to the acceleration bound, added to the speed, clamped to the
/// speed bounds.
pub open spec fn brain_step_speed(b: Bird, foods: Seq<Food>) -> int {
    clamp_spec(
        b.speed + clamp_spec(
            bird_response(b, foods)[0] as int,
            -SPEED_ACCEL_FX as int,
            SPEED_ACCEL_FX as int,
        ),
        SPEED_MIN_FX as int,
        SPEED_MAX_FX as int,
    )
}

/// The rotation after one sense-and-decide step: the brain's second
/// output, clamped to the rotation bound, added to the rotation, wrapped
/// into one turn.
pub open spec fn brain_step_rotation(b: Bird, foods: Seq<Food>) -> int {
    wrap_tau_spec(
        b.rotation + clamp_spec(
            bird_response(b, foods)[1] as int,
            -ROTATION_ACCEL_FX as int,
            ROTATION_ACCEL_FX as int,
        ),
    )
}

/// The first coordinate after one movement step: advance along the
/// heading by the speed, wrapped around the toroidal arena.
pub open spec fn moved_x(b: Bird) -> int {
    wrap_unit_spec(b.position.x - fx_mul_spec(b.speed as int, sin_spec(b.rotation as int)))
}

/// The second coordinate after one movement step.
pub open spec fn moved_y(b: Bird) -> int {
    wrap_unit_spec(b.position.y + fx_mul_spec(b.speed as int, cos_spec(b.rotation as int)))
}

/// How many of the first `j` foods lie within the collision radius of a
/// point.
pub open spec fn hits_within(p: Point2, foods: Seq<Food>, j: int) -> int
    decreases j,
{
    if j <= 0 {
        0
    } else {
        hits_within(p, foods, j - 1) + if sq_dist(p, foods[j - 1].position) <= (
        COLLISION_RADIUS_FX as int) * (COLLISION_RADIUS_FX as int) {
            1int
        } else {
            0int
        }
    }
}

/// Whether no bird stands within the collision radius of any food.
pub open spec fn no_contact(birds: Seq<Bird>, foods: Seq<Food>) -> bool {
    forall|k: int, j: int|
        0 <= k < birds.len() && 0 <= j < foods.len() ==> sq_dist(
            (#[trigger] birds[k]).position,
            (#[trigger] foods[j]).position,
        ) > (COLLISION_RADIUS_FX as int) * (COLLISION_RADIUS_FX as int)
}

/// Whether `child` is a possible child of the bird population under
/// mutation method `m`: two parents exist whose brains' flat weights a
/// gene-wise crossover turned into a sequence that `m`'s mutation relation
/// connects to `child`.
pub open spec fn bird_child_of(m: GaussianMutation, birds: Seq<Bird>, child: Seq<i64>) -> bool {
    exists|a: int, b: int, crossed: Seq<i64>|
        {
            &&& 0 <= a < birds.len()
            &&& 0 <= b < birds.len()
            &&& crossed.len() == net_flat(birds[a].brain.neural_network).len()
            &&& crossed.len() == net_flat(birds[b].brain.neural_network).len()
            &&& forall|g: int|
                0 <= g < crossed.len() ==> #[trigger] crossed[g] == net_flat(
                    birds[a].brain.neural_network,
                )[g] || crossed[g] == net_flat(birds[b].brain.neural_network)[g]
            &&& child.len() == crossed.len()
            &&& m.mutate_ens(crossed, child)
        }
}

/// The simulation: a world, the genetic algorithm configuration, and the
/// age of the running generation in ticks.
pub struct Simulation {
    pub world: World,
    pub genetic_algorithm: GeneticAlgorithm<RouletteWheelSelection, UniformCrossover, GaussianMutation>,
    pub age: u64,
}

/// Well-formedness of a simulation: a well-formed world, an age within the
/// generation length, and per-bird satiation bounded by the foods it could
/// have eaten so far.
pub open spec fn sim_wf(s: Simulation) -> bool {
    &&& world_wf(s.world)
    &&& s.age <= GENERATION_LENGTH
    &&& forall|k: int|
        0 <= k < s.world.birds@.len() ==> (#[trigger] s.world.birds@[k]).satiation as int <= (
        s.age as int) * (s.world.foods@.len() as int)
}

impl Simulation {
    /// Build a random simulation: a random world of the fixed population
    /// sizes and the fixed genetic-algorithm configuration, at age zero.
    pub fn random(rng: &mut Prng) -> (r: Simulation)
        ensures
            sim_wf(r),
            r.age == 0,
            r.world.birds@.len() == NB_BIRDS,
            r.world.foods@.len() == NB_FOODS,
            total_satiation(r.world.birds@) == 0,
            r.genetic_algorithm.mutation_spec().chance_spec() == MUTATION_CHANCE_FX as int,
            r.genetic_algorithm.mutation_spec().coeff_spec() == MUTATION_COEFF_FX as int,
    {
        let world = World::random(NB_BIRDS, NB_FOODS, rng);
        let genetic_algorithm = GeneticAlgorithm::new(
            RouletteWheelSelection::new(),
            UniformCrossover::new(),
            GaussianMutation::new(MUTATION_CHANCE_FX, MUTATION_COEFF_FX),
        );
        let r = Simulation { world, genetic_algorithm, age: 0 };
        proof {
            let sats = satiation_seq(r.world.birds@);
            lemma_sum_le(sats, 0);
            crate::statistics::lemma_sum_ge(sats, 0);
            assert(sats.len() * 0int == 0) by (nonlinear_arith);
            assert(forall|k: int|
                0 <= k < r.world.birds@.len() ==> (#[trigger] r.world.birds@[k]).satiation as int
                    <= 0int * (r.world.foods@.len() as int)) by {
                assert(0int * (r.world.foods@.len() as int) == 0) by (nonlinear_arith);
            }
        }
        r
    }

    /// The current world snapshot.
    pub fn world(&self) -> (r: &World)
        ensures
            r == &self.world,
    {
        &self.world
    }

    /// Advance the simulation one tick: every bird senses and decides,
    /// moves, and eats; when the age exceeds the generation length the
    /// population evolves and the generation's statistics are returned.
    ///
    /// The statistics describe the population as it stood at the end of
    /// the generation, before the evolutionary replacement.  Evolution
    /// performs fitness-weighted selection, so at a generation boundary
    /// the population must have eaten something; the caller keeps that
    /// precondition by checking the total satiation before a boundary
    /// tick.
    pub fn step(&mut self, rng: &mut Prng) -> (r: Option<Statistics>)
        requires
            sim_wf(*old(self)),
            old(self).age + 1 > GENERATION_LENGTH ==> total_satiation(old(self).world.birds@) >= 1,
        ensures
            sim_wf(*final(self)),
            final(self).genetic_algorithm == old(self).genetic_algorithm,
            final(self).world.birds@.len() == old(self).world.birds@.len(),
            final(self).world.foods@.len() == old(self).world.foods@.len(),
            (r is Some) <==> old(self).age + 1 > GENERATION_LENGTH,
            r is None ==> final(self).age == old(self).age + 1,
            r is Some ==> final(self).age == 0,
            r is None ==> total_satiation(final(self).world.birds@) >= total_satiation(
                old(self).world.birds@,
            ),
            r is Some ==> total_satiation(final(self).world.birds@) == 0,
            r is None ==> forall|k: int|
                0 <= k < final(self).world.birds@.len() ==> {
                    &&& (#[trigger] final(self).world.birds@[k]).eye == old(
                        self,
                    ).world.birds@[k].eye
                    &&& final(self).world.birds@[k].brain == old(self).world.birds@[k].brain
                },
            r matches Some(st) ==> 0 <= st.min_spec() <= st.avg_spec() <= st.max_spec(),
            r matches Some(st) ==> exists|sats: Seq<int>|
                #![trigger scaled_fitnesses(sats)]
                {
                    &&& sats.len() == old(self).world.birds@.len()
                    &&& forall|k: int|
                        0 <= k < sats.len() ==> {
                            &&& satiation_seq(old(self).world.birds@)[k] <= #[trigger] sats[k]
                            &&& sats[k] <= satiation_seq(old(self).world.birds@)[k] + old(
                                self,
                            ).world.foods@.len()
                            &&& 0 <= sats[k] <= SATIATION_MAX as int
                        }
                    &&& st.describes(scaled_fitnesses(sats))
                },
    {
        self.age = self.age + 1;
        self.process_brains();
        self.process_movement();
        proof {
            assert forall|k: int| 0 <= k < self.world.birds@.len() implies (
            #[trigger] self.world.birds@[k]).satiation <= SATIATION_MAX by {
                let flen = old(self).world.foods@.len() as int;
                let a0 = old(self).age as int;
                assert(old(self).world.birds@[k].satiation as int <= a0 * flen);
                assert(a0 * flen <= 2_500int * 10_000int) by (nonlinear_arith)
                    requires
                        0 <= a0 <= 2_500,
                        0 <= flen <= 10_000,
                ;
            }
        }
        self.process_collisions(rng);
        proof {
            lemma_sum_pointwise_le(
                satiation_seq(old(self).world.birds@),
                satiation_seq(self.world.birds@),
            );
            assert(forall|k: int|
                0 <= k < self.world.birds@.len() ==> (#[trigger] self.world.birds@[k]).satiation
                    as int <= (self.age as int) * (self.world.foods@.len() as int)) by {
                assert forall|k: int| 0 <= k < self.world.birds@.len() implies (
                #[trigger] self.world.birds@[k]).satiation as int <= (self.age as int) * (
                self.world.foods@.len() as int) by {
                    let flen = self.world.foods@.len() as int;
                    let a = old(self).age as int;
                    assert(old(self).world.birds@[k].satiation as int <= a * flen);
                    assert(a * flen + flen == (a + 1) * flen) by (nonlinear_arith);
                }
            }
        }
        if self.age > GENERATION_LENGTH {
            proof {
                assert forall|k: int| 0 <= k < self.world.birds@.len() implies (
                #[trigger] self.world.birds@[k]).satiation as int <= SATIATION_MAX as int by {
                    let flen = self.world.foods@.len() as int;
                    assert((self.age as int) * flen <= 2_501int * 10_000int) by (nonlinear_arith)
                        requires
                            0 <= self.age as int <= 2_501,
                            0 <= flen <= 10_000,
                    ;
                }
            }
            let ghost mid_sats = satiation_seq(self.world.birds@);
            let summary = self.evolve(rng);
            proof {
                assert(summary.describes(scaled_fitnesses(mid_sats)));
                assert(forall|k: int|
                    0 <= k < mid_sats.len() ==> {
                        &&& satiation_seq(old(self).world.birds@)[k] <= #[trigger] mid_sats[k]
                        &&& mid_sats[k] <= satiation_seq(old(self).world.birds@)[k] + old(
                            self,
                        ).world.foods@.len()
                        &&& 0 <= mid_sats[k] <= SATIATION_MAX as int
                    });
            }
            Some(summary)
        } else {
            None
        }
    }

    /// Advance ticks until the next generation boundary and return its
    /// statistics.  Selection is fitness-weighted, so a boundary that
    /// arrives with an all-zero population admits no weighted choice;
    /// that surfaces as the typed error instead of a fatal stop.
    pub fn train(&mut self, rng: &mut Prng) -> (r: Result<Statistics, TrainError>)
        requires
            sim_wf(*old(self)),
        ensures
            sim_wf(*final(self)),
            final(self).genetic_algorithm == old(self).genetic_algorithm,
            r matches Ok(st) ==> {
                &&& final(self).age == 0
                &&& 0 <= st.min_spec() <= st.avg_spec() <= st.max_spec()
                &&& exists|sats: Seq<int>|
                    #![trigger scaled_fitnesses(sats)]
                    {
                        &&& sats.len() == final(self).world.birds@.len()
                        &&& forall|k: int|
                            0 <= k < sats.len() ==> 0 <= #[trigger] sats[k] <= SATIATION_MAX as int
                        &&& st.describes(scaled_fitnesses(sats))
                    }
            },
            r is Err ==> {
                &&& final(self).age == GENERATION_LENGTH
                &&& total_satiation(final(self).world.birds@) == 0
            },
    {
        loop
            invariant
                sim_wf(*self),
                self.genetic_algorithm == old(self).genetic_algorithm,
                self.world.birds@.len() == old(self).world.birds@.len(),
            decreases GENERATION_LENGTH + 1 - self.age,
        {
            if self.age + 1 > GENERATION_LENGTH {
                let total = self.total_eaten();
                if total == 0 {
                    return Result::Err(TrainError::NothingEaten);
                }
            }
            let outcome = self.step(rng);
            match outcome {
                Some(summary) => {
                    return Result::Ok(summary);
                },
                None => {},
            }
        }
    }

    /// The total satiation of the population: how many foods were eaten
    /// this generation so far.
    fn total_eaten(&self) -> (r: u64)
        requires
            sim_wf(*self),
        ensures
            r as int == total_satiation(self.world.birds@),
    {
        let ghost sats = satiation_seq(self.world.birds@);
        let mut sum: u64 = 0;
        let mut i: usize = 0;
        proof {
            assert(sats.take(0) =~= Seq::<int>::empty());
        }
        while i < self.world.birds.len()
            invariant
                i <= self.world.birds@.len(),
                sim_wf(*self),
                sats == satiation_seq(self.world.birds@),
                sum as int == seq_sum(sats.take(i as int)),
                sum as int <= (i as int) * 25_000_000int,
            decreases self.world.birds@.len() - i,
        {
            let satiation = self.world.birds[i].satiation;
            proof {
                let k = i as int;
                assert(sats.take(k + 1).drop_last() =~= sats.take(k));
                assert(sats.take(k + 1).last() == satiation as int);
                let flen = self.world.foods@.len() as int;
                assert(satiation as int <= (self.age as int) * flen);
                assert((self.age as int) * flen <= 2_500int * 10_000int) by (nonlinear_arith)
                    requires
                        0 <= self.age as int <= 2_500,
                        0 <= flen <= 10_000,
                ;
                assert((k + 1) * 25_000_000int == k * 25_000_000int + 25_000_000int)
                    by (nonlinear_arith);
                assert(k * 25_000_000int <= 10_000int * 25_000_000int) by (nonlinear_arith)
                    requires
                        0 <= k <= 10_000int,
                ;
            }
            sum = sum + satiation;
            i = i + 1;
        }
        proof {
            assert(sats.take(self.world.birds@.len() as int) =~= sats);
        }
        sum
    }

    /// Sense and decide: each bird reads its vision, propagates it through
    /// its brain, and applies the clamped speed and rotation deltas.
    fn process_brains(&mut self)
        requires
            world_wf(old(self).world),
        ensures
            final(self).age == old(self).age,
            final(self).genetic_algorithm == old(self).genetic_algorithm,
            final(self).world.foods == old(self).world.foods,
            final(self).world.birds@.len() == old(self).world.birds@.len(),
            world_wf(final(self).world),
            forall|k: int|
                0 <= k < final(self).world.birds@.len() ==> {
                    &&& (#[trigger] final(self).world.birds@[k]).position == old(
                        self,
                    ).world.birds@[k].position
                    &&& final(self).world.birds@[k].satiation == old(
                        self,
                    ).world.birds@[k].satiation
                    &&& final(self).world.birds@[k].eye == old(self).world.birds@[k].eye
                    &&& final(self).world.birds@[k].brain == old(self).world.birds@[k].brain
                    &&& final(self).world.birds@[k].speed as int == brain_step_speed(
                        old(self).world.birds@[k],
                        old(self).world.foods@,
                    )
                    &&& final(self).world.birds@[k].rotation as int == brain_step_rotation(
                        old(self).world.birds@[k],
                        old(self).world.foods@,
                    )
                },
    {
        let n = self.world.birds.len();
        let mut i: usize = 0;
        while i < n
            invariant
                i <= n,
                n == self.world.birds@.len(),
                self.age == old(self).age,
                self.genetic_algorithm == old(self).genetic_algorithm,
                self.world.foods == old(self).world.foods,
                world_wf(old(self).world),
                self.world.birds@.len() == old(self).world.birds@.len(),
                forall|k: int| i <= k < n ==> #[trigger] self.world.birds@[k] == old(
                    self,
                ).world.birds@[k],
                forall|k: int|
                    0 <= k < i ==> {
                        &&& (#[trigger] self.world.birds@[k]).position == old(
                            self,
                        ).world.birds@[k].position
                        &&& self.world.birds@[k].satiation == old(self).world.birds@[k].satiation
                        &&& self.world.birds@[k].eye == old(self).world.birds@[k].eye
                        &&& self.world.birds@[k].brain == old(self).world.birds@[k].brain
                        &&& self.world.birds@[k].speed as int == brain_step_speed(
                            old(self).world.birds@[k],
                            old(self).world.foods@,
                        )
                        &&& self.world.birds@[k].rotation as int == brain_step_rotation(
                            old(self).world.birds@[k],
                            old(self).world.foods@,
                        )
                        &&& bird_wf(self.world.birds@[k])
                    },
            decreases n - i,
        {
            proof {
                assert(self.world.birds@[i as int] == old(self).world.birds@[i as int]);
                assert(bird_wf(self.world.birds@[i as int]));
                lemma_brain_net_wf(
                    self.world.birds@[i as int].brain,
                    self.world.birds@[i as int].eye.cells as int,
                );
            }
            let position = self.world.birds[i].position();
            let rotation = self.world.birds[i].rotation();
            let vision = self.world.birds[i].eye.process_vision(
                position,
                rotation,
                &self.world.foods,
            );
            proof {
                assert(vision@ == bird_vision(
                    old(self).world.birds@[i as int],
                    old(self).world.foods@,
                ));
            }
            let response = self.world.birds[i].brain.neural_network.propagate(vision);
            proof {
                assert(response@ == bird_response(
                    old(self).world.birds@[i as int],
                    old(self).world.foods@,
                ));
            }
            let speed_delta = clamp_i64(response[0], -SPEED_ACCEL_FX, SPEED_ACCEL_FX);
            let rotation_delta = clamp_i64(response[1], -ROTATION_ACCEL_FX, ROTATION_ACCEL_FX);
            let new_speed = clamp_i64(
                self.world.birds[i].speed + speed_delta,
                SPEED_MIN_FX,
                SPEED_MAX_FX,
            );
            let new_rotation = wrap_tau(rotation + rotation_delta);
            proof {
                assert(new_speed as int == brain_step_speed(
                    old(self).world.birds@[i as int],
                    old(self).world.foods@,
                ));
                assert(new_rotation as int == brain_step_rotation(
                    old(self).world.birds@[i as int],
                    old(self).world.foods@,
                ));
            }
            let bird = &mut self.world.birds[i];
            bird.speed = new_speed;
            bird.rotation = new_rotation;
            i = i + 1;
        }
    }

    /// Move: each bird advances along its heading by its speed, and both
    /// coordinates wrap around the toroidal arena.
    fn process_movement(&mut self)
        requires
            world_wf(old(self).world),
        ensures
            final(self).age == old(self).age,
            final(self).genetic_algorithm == old(self).genetic_algorithm,
            final(self).world.foods == old(self).world.foods,
            final(self).world.birds@.len() == old(self).world.birds@.len(),
            world_wf(final(self).world),
            forall|k: int|
                0 <= k < final(self).world.birds@.len() ==> {
                    &&& (#[trigger] final(self).world.birds@[k]).satiation == old(
                        self,
                    ).world.birds@[k].satiation
                    &&& final(self).world.birds@[k].eye == old(self).world.birds@[k].eye
                    &&& final(self).world.birds@[k].brain == old(self).world.birds@[k].brain
                    &&& final(self).world.birds@[k].speed == old(self).world.birds@[k].speed
                    &&& final(self).world.birds@[k].rotation == old(self).world.birds@[k].rotation
                    &&& final(self).world.birds@[k].position.x as int == moved_x(
                        old(self).world.birds@[k],
                    )
                    &&& final(self).world.birds@[k].position.y as int == moved_y(
                        old(self).world.birds@[k],
                    )
                },
    {
        let n = self.world.birds.len();
        let mut i: usize = 0;
        while i < n
            invariant
                i <= n,
                n == self.world.birds@.len(),
                self.age == old(self).age,
                self.genetic_algorithm == old(self).genetic_algorithm,
                self.world.foods == old(self).world.foods,
                world_wf(old(self).world),
                self.world.birds@.len() == old(self).world.birds@.len(),
                forall|k: int| i <= k < n ==> #[trigger] self.world.birds@[k] == old(
                    self,
                ).world.birds@[k],
                forall|k: int|
                    0 <= k < i ==> {
                        &&& (#[trigger] self.world.birds@[k]).satiation == old(
                            self,
                        ).world.birds@[k].satiation
                        &&& self.world.birds@[k].eye == old(self).world.birds@[k].eye
                        &&& self.world.birds@[k].brain == old(self).world.birds@[k].brain
                        &&& self.world.birds@[k].speed == old(self).world.birds@[k].speed
                        &&& self.world.birds@[k].rotation == old(self).world.birds@[k].rotation
                        &&& self.world.birds@[k].position.x as int == moved_x(
                            old(self).world.birds@[k],
                        )
                        &&& self.world.birds@[k].position.y as int == moved_y(
                            old(self).world.birds@[k],
                        )
                        &&& bird_wf(self.world.birds@[k])
                    },
            decreases n - i,
        {
            proof {
                assert(self.world.birds@[i as int] == old(self).world.birds@[i as int]);
                assert(bird_wf(self.world.birds@[i as int]));
            }
            let rotation = self.world.birds[i].rotation();
            let speed = self.world.birds[i].speed;
            let s = sin_fx(rotation);
            let c = cos_fx(rotation);
            let dx = -fx_mul(speed, s);
            let dy = fx_mul(speed, c);
            proof {
                lemma_fx_mul_unit(speed as int, s as int);
                lemma_fx_mul_unit(speed as int, c as int);
                assert(abs_int(fx_mul_spec(speed as int, s as int)) <= SPEED_MAX_FX as int);
                assert(abs_int(fx_mul_spec(speed as int, c as int)) <= SPEED_MAX_FX as int);
            }
            let new_x = wrap_unit(self.world.birds[i].position.x + dx);
            let new_y = wrap_unit(self.world.birds[i].position.y + dy);
            proof {
                assert(new_x as int == moved_x(old(self).world.birds@[i as int]));
                assert(new_y as int == moved_y(old(self).world.birds@[i as int]));
            }
            let bird = &mut self.world.birds[i];
            bird.position = Point2 { x: new_x, y: new_y };
            i = i + 1;
        }
    }

    /// Collide: for every bird and food pair within the collision radius,
    /// the bird's satiation grows by one and the food is relocated to a
    /// fresh random position.  Iteration order is fixed (birds outer, food
    /// inner) for determinism.
    fn process_collisions(&mut self, rng: &mut Prng)
        requires
            world_wf(old(self).world),
            forall|k: int|
                0 <= k < old(self).world.birds@.len() ==> (
                #[trigger] old(self).world.birds@[k]).satiation <= SATIATION_MAX,
        ensures
            final(self).age == old(self).age,
            final(self).genetic_algorithm == old(self).genetic_algorithm,
            final(self).world.foods@.len() == old(self).world.foods@.len(),
            final(self).world.birds@.len() == old(self).world.birds@.len(),
            world_wf(final(self).world),
            forall|k: int|
                0 <= k < final(self).world.birds@.len() ==> {
                    &&& old(self).world.birds@[k].satiation <= (
                    #[trigger] final(self).world.birds@[k]).satiation
                    &&& final(self).world.birds@[k].satiation as int <= old(
                        self,
                    ).world.birds@[k].satiation as int + old(self).world.foods@.len()
                    &&& final(self).world.birds@[k].position == old(self).world.birds@[k].position
                    &&& final(self).world.birds@[k].speed == old(self).world.birds@[k].speed
                    &&& final(self).world.birds@[k].rotation == old(self).world.birds@[k].rotation
                    &&& final(self).world.birds@[k].eye == old(self).world.birds@[k].eye
                    &&& final(self).world.birds@[k].brain == old(self).world.birds@[k].brain
                },
            no_contact(old(self).world.birds@, old(self).world.foods@) ==> {
                &&& final(self).world.foods@ == old(self).world.foods@
                &&& forall|k: int|
                    0 <= k < final(self).world.birds@.len() ==> (
                    #[trigger] final(self).world.birds@[k]).satiation == old(
                        self,
                    ).world.birds@[k].satiation
            },
            old(self).world.birds@.len() > 0 ==> final(self).world.birds@[0].satiation as int
                == old(self).world.birds@[0].satiation as int + hits_within(
                old(self).world.birds@[0].position,
                old(self).world.foods@,
                old(self).world.foods@.len() as int,
            ),
    {
        let n = self.world.birds.len();
        let m = self.world.foods.len();
        let mut i: usize = 0;
        while i < n
            invariant
                i <= n,
                n == self.world.birds@.len(),
                m == self.world.foods@.len(),
                self.age == old(self).age,
                self.genetic_algorithm == old(self).genetic_algorithm,
                world_wf(old(self).world),
                world_wf(self.world),
                self.world.birds@.len() == old(self).world.birds@.len(),
                self.world.foods@.len() == old(self).world.foods@.len(),
                forall|k: int|
                    0 <= k < n ==> (#[trigger] old(self).world.birds@[k]).satiation
                        <= SATIATION_MAX,
                forall|k: int| i <= k < n ==> #[trigger] self.world.birds@[k] == old(
                    self,
                ).world.birds@[k],
                forall|k: int|
                    0 <= k < i ==> {
                        &&& old(self).world.birds@[k].satiation <= (
                        #[trigger] self.world.birds@[k]).satiation
                        &&& self.world.birds@[k].satiation as int <= old(
                            self,
                        ).world.birds@[k].satiation as int + m
                        &&& self.world.birds@[k].position == old(self).world.birds@[k].position
                        &&& self.world.birds@[k].speed == old(self).world.birds@[k].speed
                        &&& self.world.birds@[k].rotation == old(self).world.birds@[k].rotation
                        &&& self.world.birds@[k].eye == old(self).world.birds@[k].eye
                        &&& self.world.birds@[k].brain == old(self).world.birds@[k].brain
                    },
                no_contact(old(self).world.birds@, old(self).world.foods@) ==> {
                    &&& self.world.foods@ == old(self).world.foods@
                    &&& forall|k: int|
                        0 <= k < n ==> (#[trigger] self.world.birds@[k]).satiation == old(
                            self,
                        ).world.birds@[k].satiation
                },
                i >= 1 ==> self.world.birds@[0].satiation as int == old(
                    self,
                ).world.birds@[0].satiation as int + hits_within(
                    old(self).world.birds@[0].position,
                    old(self).world.foods@,
                    m as int,
                ),
                i == 0 ==> self.world.foods@ == old(self).world.foods@,
            decreases n - i,
        {
            let mut j: usize = 0;
            while j < m
                invariant
                    i < n,
                    j <= m,
                    n == self.world.birds@.len(),
                    m == self.world.foods@.len(),
                    self.age == old(self).age,
                    self.genetic_algorithm == old(self).genetic_algorithm,
                self.genetic_algorithm == old(self).genetic_algorithm,
                    world_wf(old(self).world),
                    world_wf(self.world),
                    self.world.birds@.len() == old(self).world.birds@.len(),
                    self.world.foods@.len() == old(self).world.foods@.len(),
                    forall|k: int|
                        0 <= k < n ==> (#[trigger] old(self).world.birds@[k]).satiation
                            <= SATIATION_MAX,
                    forall|k: int| i < k < n ==> #[trigger] self.world.birds@[k] == old(
                        self,
                    ).world.birds@[k],
                    old(self).world.birds@[i as int].satiation <= self.world.birds@[i
                        as int].satiation,
                    self.world.birds@[i as int].satiation as int <= old(self).world.birds@[i
                        as int].satiation as int + j,
                    self.world.birds@[i as int].position == old(self).world.birds@[i
                        as int].position,
                    self.world.birds@[i as int].eye == old(self).world.birds@[i as int].eye,
                    self.world.birds@[i as int].brain == old(self).world.birds@[i as int].brain,
                    self.world.birds@[i as int].rotation == old(self).world.birds@[i
                        as int].rotation,
                    self.world.birds@[i as int].speed == old(self).world.birds@[i as int].speed,
                    forall|k: int|
                        0 <= k < i ==> {
                            &&& old(self).world.birds@[k].satiation <= (
                            #[trigger] self.world.birds@[k]).satiation
                            &&& self.world.birds@[k].satiation as int <= old(
                                self,
                            ).world.birds@[k].satiation as int + m
                            &&& self.world.birds@[k].position == old(self).world.birds@[k].position
                            &&& self.world.birds@[k].speed == old(self).world.birds@[k].speed
                            &&& self.world.birds@[k].rotation == old(
                                self,
                            ).world.birds@[k].rotation
                            &&& self.world.birds@[k].eye == old(self).world.birds@[k].eye
                            &&& self.world.birds@[k].brain == old(self).world.birds@[k].brain
                        },
                    no_contact(old(self).world.birds@, old(self).world.foods@) ==> {
                        &&& self.world.foods@ == old(self).world.foods@
                        &&& forall|k: int|
                            0 <= k < n ==> (#[trigger] self.world.birds@[k]).satiation == old(
                                self,
                            ).world.birds@[k].satiation
                    },
                    i >= 1 ==> self.world.birds@[0].satiation as int == old(
                        self,
                    ).world.birds@[0].satiation as int + hits_within(
                        old(self).world.birds@[0].position,
                        old(self).world.foods@,
                        m as int,
                    ),
                    i == 0 ==> forall|j2: int|
                        j <= j2 < m ==> #[trigger] self.world.foods@[j2] == old(
                            self,
                        ).world.foods@[j2],
                    i == 0 ==> self.world.birds@[0].satiation as int == old(
                        self,
                    ).world.birds@[0].satiation as int + hits_within(
                        old(self).world.birds@[0].position,
                        old(self).world.foods@,
                        j as int,
                    ),
                decreases m - j,
            {
                let bp = self.world.birds[i].position;
                let fp = self.world.foods[j].position;
                let dx = bp.x - fp.x;
                let dy = bp.y - fp.y;
                proof {
                    assert((dx as int) * (dx as int) <= 1_000_000_000_000int) by (nonlinear_arith)
                        requires
                            -1_000_000int <= dx as int <= 1_000_000int,
                    ;
                    assert((dy as int) * (dy as int) <= 1_000_000_000_000int) by (nonlinear_arith)
                        requires
                            -1_000_000int <= dy as int <= 1_000_000int,
                    ;
                    assert((dx as int) * (dx as int) >= 0) by (nonlinear_arith);
                    assert((dy as int) * (dy as int) >= 0) by (nonlinear_arith);
                    assert((COLLISION_RADIUS_FX as int) * (COLLISION_RADIUS_FX as int)
                        == 100_000_000int) by (nonlinear_arith);
                }
                let d2: i128 = (dx as i128) * (dx as i128) + (dy as i128) * (dy as i128);
                proof {
                    assert(d2 as int == sq_dist(bp, fp));
                }
                if d2 <= (COLLISION_RADIUS_FX as i128) * (COLLISION_RADIUS_FX as i128) {
                    proof {
                        if no_contact(old(self).world.birds@, old(self).world.foods@) {
                            assert(self.world.foods@ == old(self).world.foods@);
                            assert(fp == old(self).world.foods@[j as int].position);
                            assert(bp == old(self).world.birds@[i as int].position);
                            assert(sq_dist(
                                old(self).world.birds@[i as int].position,
                                old(self).world.foods@[j as int].position,
                            ) > (COLLISION_RADIUS_FX as int) * (COLLISION_RADIUS_FX as int));
                            assert(false);
                        }
                        if i == 0 {
                            assert(fp == old(self).world.foods@[j as int].position);
                            assert(bp == old(self).world.birds@[0].position);
                        }
                    }
                    let bird = &mut self.world.birds[i];
                    bird.satiation = bird.satiation + 1;
                    let relocated = Food::random(rng);
                    self.world.foods.set(j, relocated);
                } else {
                    proof {
                        if i == 0 {
                            assert(fp == old(self).world.foods@[j as int].position);
                            assert(bp == old(self).world.birds@[0].position);
                            assert(sq_dist(
                                old(self).world.birds@[0].position,
                                old(self).world.foods@[j as int].position,
                            ) > (COLLISION_RADIUS_FX as int) * (COLLISION_RADIUS_FX as int));
                        }
                    }
                }
                j = j + 1;
            }
            i = i + 1;
        }
    }

    /// Evolve one generation: view the birds as individuals with their
    /// satiation as fitness, run the genetic algorithm, replace the
    /// population one for one with freshly placed birds built from the
    /// evolved chromosomes, relocate all food, and reset the age.  The
    /// returned statistics describe exactly the pre-evolution population:
    /// the satiation counters as they stood when the generation ended.
    fn evolve(&mut self, rng: &mut Prng) -> (r: Statistics)
        requires
            world_wf(old(self).world),
            total_satiation(old(self).world.birds@) >= 1,
            forall|k: int|
                0 <= k < old(self).world.birds@.len() ==> (
                #[trigger] old(self).world.birds@[k]).satiation <= SATIATION_MAX,
        ensures
            sim_wf(*final(self)),
            final(self).genetic_algorithm == old(self).genetic_algorithm,
            final(self).age == 0,
            final(self).world.birds@.len() == old(self).world.birds@.len(),
            final(self).world.foods@.len() == old(self).world.foods@.len(),
            total_satiation(final(self).world.birds@) == 0,
            0 <= r.min_spec() <= r.avg_spec() <= r.max_spec(),
            r.describes(scaled_fitnesses(satiation_seq(old(self).world.birds@))),
            forall|k: int|
                0 <= k < final(self).world.birds@.len() ==> bird_child_of(
                    old(self).genetic_algorithm.mutation_spec(),
                    old(self).world.birds@,
                    net_flat((#[trigger] final(self).world.birds@[k]).brain.neural_network),
                ),
    {
        self.age = 0;
        let n = self.world.birds.len();
        // Prepare the current population as individuals.
        let mut individuals: Vec<BirdIndividual> = Vec::new();
        let mut i: usize = 0;
        while i < n
            invariant
                i <= n,
                n == self.world.birds@.len(),
                world_wf(self.world),
                self.genetic_algorithm == old(self).genetic_algorithm,
                forall|k: int|
                    0 <= k < n ==> (#[trigger] self.world.birds@[k]).satiation <= SATIATION_MAX,
                individuals@.len() == i,
                forall|k: int|
                    0 <= k < i ==> (#[trigger] individuals@[k]).fitness as int == (
                    self.world.birds@[k].satiation as int) * (FX_ONE as int),
                forall|k: int|
                    0 <= k < i ==> (#[trigger] individuals@[k]).chromosome@.len() == brain_genes(
                        EYE_CELLS as int,
                    ),
                forall|k: int|
                    0 <= k < i ==> (#[trigger] individuals@[k]).chromosome@ == net_flat(
                        self.world.birds@[k].brain.neural_network,
                    ),
            decreases n - i,
        {
            proof {
                assert(bird_wf(self.world.birds@[i as int]));
                lemma_brain_flat_len(self.world.birds@[i as int].brain, EYE_CELLS as int);
            }
            let ind = BirdIndividual::from_bird(&self.world.birds[i]);
            individuals.push(ind);
            i = i + 1;
        }
        proof {
            let fits = fitness_seq(individuals@);
            let sats = satiation_seq(self.world.birds@);
            assert(fits.len() == sats.len());
            assert(forall|k: int| 0 <= k < fits.len() ==> #[trigger] fits[k] == (
            FX_ONE as int) * sats[k]);
            lemma_sum_scaled(sats, fits, FX_ONE as int);
            lemma_sum_le(sats, SATIATION_MAX as int);
            assert(seq_sum(sats) <= 10_000int * (SATIATION_MAX as int));
            lemma_min_ge(fits, 0);
            lemma_statistics_ordering(fits);
            assert(fits =~= scaled_fitnesses(sats));
        }
        // Evolve the population.
        let (evolved, stats) = self.genetic_algorithm.evolve(rng, &individuals);
        let ghost ga_children = evolved@;
        // Rebuild the birds from the evolved chromosomes.
        let mut evolved = evolved;
        let mut birds: Vec<Bird> = Vec::new();
        let ghost total = evolved@.len();
        while evolved.len() > 0
            invariant
                birds@.len() + evolved@.len() == total,
                total == ga_children.len(),
                evolved@ == ga_children.subrange(birds@.len() as int, total as int),
                forall|k: int| 0 <= k < evolved@.len() ==> (
                #[trigger] evolved@[k]).chromosome_spec().len() == brain_genes(EYE_CELLS as int),
                forall|k: int|
                    0 <= k < birds@.len() ==> {
                        &&& bird_wf(#[trigger] birds@[k])
                        &&& birds@[k].eye.cells == EYE_CELLS
                        &&& birds@[k].satiation == 0
                        &&& net_flat(birds@[k].brain.neural_network)
                            == ga_children[k].chromosome_spec()
                    },
            decreases evolved@.len(),
        {
            let ghost done = birds@.len() as int;
            let ind = evolved.remove(0);
            proof {
                assert(ind == ga_children[done]);
                assert(evolved@ =~= ga_children.subrange(done + 1, total as int));
            }
            let bird = ind.into_bird(rng);
            birds.push(bird);
        }
        self.world.birds = birds;
        let ghost new_birds = self.world.birds@;
        proof {
            let m_spec = old(self).genetic_algorithm.mutation_spec();
            assert forall|k: int| 0 <= k < new_birds.len() implies bird_child_of(
                m_spec,
                old(self).world.birds@,
                net_flat((#[trigger] new_birds[k]).brain.neural_network),
            ) by {
                assert(crate::genetic::child_of(
                    m_spec,
                    individuals@,
                    ga_children[k].chromosome_spec(),
                ));
                let (a, b, crossed) = choose|a: int, b: int, crossed: Seq<i64>|
                    {
                        &&& 0 <= a < individuals@.len()
                        &&& 0 <= b < individuals@.len()
                        &&& crossed.len() == individuals@[a].chromosome_spec().len()
                        &&& crossed.len() == individuals@[b].chromosome_spec().len()
                        &&& forall|g: int|
                            0 <= g < crossed.len() ==> #[trigger] crossed[g]
                                == individuals@[a].chromosome_spec()[g] || crossed[g]
                                == individuals@[b].chromosome_spec()[g]
                        &&& ga_children[k].chromosome_spec().len() == crossed.len()
                        &&& m_spec.mutate_ens(crossed, ga_children[k].chromosome_spec())
                    };
                assert(individuals@[a].chromosome_spec() == net_flat(
                    old(self).world.birds@[a].brain.neural_network,
                ));
                assert(individuals@[b].chromosome_spec() == net_flat(
                    old(self).world.birds@[b].brain.neural_network,
                ));
                assert(net_flat(new_birds[k].brain.neural_network)
                    == ga_children[k].chromosome_spec());
                assert(bird_child_of(
                    m_spec,
                    old(self).world.birds@,
                    net_flat(new_birds[k].brain.neural_network),
                ));
            }
        }
        // Relocate all food, so a new generation is visible.
        let m = self.world.foods.len();
        let mut j: usize = 0;
        while j < m
            invariant
                j <= m,
                m == self.world.foods@.len(),
                self.age == 0,
                self.genetic_algorithm == old(self).genetic_algorithm,
                self.world.birds@ == new_birds,
                self.world.birds@.len() == n,
                1 <= n <= crate::world::MAX_BIRDS,
                m <= MAX_FOODS,
                forall|k: int|
                    0 <= k < self.world.birds@.len() ==> {
                        &&& bird_wf(#[trigger] self.world.birds@[k])
                        &&& self.world.birds@[k].eye.cells == EYE_CELLS
                        &&& self.world.birds@[k].satiation == 0
                    },
                forall|k: int| 0 <= k < m ==> crate::geom::unit_point(
                    (#[trigger] self.world.foods@[k]).position,
                ),
            decreases m - j,
        {
            let relocated = Food::random(rng);
            self.world.foods.set(j, relocated);
            j = j + 1;
        }
        proof {
            let sats = satiation_seq(self.world.birds@);
            lemma_sum_le(sats, 0);
            crate::statistics::lemma_sum_ge(sats, 0);
            assert(sats.len() * 0int == 0) by (nonlinear_arith);
            assert(forall|k: int|
                0 <= k < self.world.birds@.len() ==> (#[trigger] self.world.birds@[k]).satiation
                    as int <= 0int * (self.world.foods@.len() as int)) by {
                assert(0int * (self.world.foods@.len() as int) == 0) by (nonlinear_arith);
            }
        }
        stats
    }
}

} // verus!
