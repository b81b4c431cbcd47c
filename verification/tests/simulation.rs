use birdsim::eye::{Eye, EYE_CELLS};
use birdsim::food::Food;
use birdsim::fx::FX_ONE;
use birdsim::geom::Point2;
use birdsim::rng::Prng;
use birdsim::simulation::{Simulation, NB_BIRDS, NB_FOODS};

fn food_at(x: i64, y: i64) -> Food {
    Food { position: Point2 { x, y } }
}

#[test]
fn vision_shape_test() {
    // The vision vector always has exactly `cells` entries, all
    // non-negative, whatever the food count.
    let eye = Eye::default();
    let position = Point2 { x: FX_ONE / 2, y: FX_ONE / 2 };

    let empty: Vec<Food> = vec![];
    let vision = eye.process_vision(position, 0, &empty);
    assert_eq!(vision.len(), EYE_CELLS);
    assert!(vision.iter().all(|&v| v == 0));

    let crowd: Vec<Food> = (0..50).map(|i| food_at(i * 19_999, i * 7_717)).collect();
    let vision = eye.process_vision(position, 0, &crowd);
    assert_eq!(vision.len(), EYE_CELLS);
    assert!(vision.iter().all(|&v| v >= 0));
}

#[test]
fn vision_straight_ahead_test() {
    // A food 0.1 ahead of a bird looking along the positive y axis lands
    // in the middle cell with energy (0.25 - 0.1) / 0.25 == 0.6, exactly.
    let eye = Eye::default();
    let position = Point2 { x: FX_ONE / 2, y: FX_ONE / 2 };
    let foods = vec![food_at(FX_ONE / 2, FX_ONE / 2 + FX_ONE / 10)];

    let vision = eye.process_vision(position, 0, &foods);

    assert_eq!(vision.len(), EYE_CELLS);
    assert_eq!(vision[4], 6 * FX_ONE / 10);
    for (i, &v) in vision.iter().enumerate() {
        if i != 4 {
            assert_eq!(v, 0);
        }
    }
}

#[test]
fn vision_out_of_range_test() {
    // Food beyond the field-of-view range is invisible.
    let eye = Eye::default();
    let position = Point2 { x: FX_ONE / 2, y: FX_ONE / 2 };
    let foods = vec![food_at(FX_ONE / 2, FX_ONE / 2 + 4 * FX_ONE / 10)];

    let vision = eye.process_vision(position, 0, &foods);
    assert!(vision.iter().all(|&v| v == 0));
}

#[test]
fn random_simulation_test() {
    let mut rng = Prng::from_seed(17);
    let sim = Simulation::random(&mut rng);

    assert_eq!(sim.world().birds().len(), NB_BIRDS);
    assert_eq!(sim.world().foods().len(), NB_FOODS);
    for bird in sim.world().birds() {
        assert_eq!(bird.satiation(), 0);
        let p = bird.position();
        assert!(0 <= p.x && p.x < FX_ONE);
        assert!(0 <= p.y && p.y < FX_ONE);
    }
}

#[test]
fn step_test() {
    // Within a generation, stepping returns no statistics and keeps the
    // population sizes; positions stay inside the arena.
    let mut rng = Prng::from_seed(23);
    let mut sim = Simulation::random(&mut rng);

    for _ in 0..50 {
        let outcome = sim.step(&mut rng);
        assert!(outcome.is_none());
        assert_eq!(sim.world().birds().len(), NB_BIRDS);
        assert_eq!(sim.world().foods().len(), NB_FOODS);
        for bird in sim.world().birds() {
            let p = bird.position();
            assert!(0 <= p.x && p.x < FX_ONE);
            assert!(0 <= p.y && p.y < FX_ONE);
        }
    }
}

#[test]
fn generation_boundary_test() {
    // Run one full generation.  If the birds found food, the boundary
    // step must evolve: same population size, statistics ordered, age
    // reset so the next steps return nothing again.
    let mut rng = Prng::from_seed(31);
    let mut sim = Simulation::random(&mut rng);

    for _ in 0..2_500 {
        assert!(sim.step(&mut rng).is_none());
    }

    let total: u64 = sim.world().birds().iter().map(|b| b.satiation()).sum();
    if total == 0 {
        // A degenerate run: weighted selection would have no valid choice.
        return;
    }

    let outcome = sim.step(&mut rng);
    let stats = outcome.expect("a generation boundary must report statistics");
    assert!(stats.min_fitness() >= 0);
    assert!(stats.min_fitness() <= stats.avg_fitness());
    assert!(stats.avg_fitness() <= stats.max_fitness());
    assert_eq!(sim.world().birds().len(), NB_BIRDS);
    assert_eq!(sim.world().foods().len(), NB_FOODS);
    for bird in sim.world().birds() {
        assert_eq!(bird.satiation(), 0);
    }
    assert!(sim.step(&mut rng).is_none());
}

#[test]
fn vision_boundary_distance_test() {
    // A food exactly at the field-of-view range is invisible; one at the
    // bird's own position shines with energy exactly one.
    let eye = Eye::default();
    let position = Point2 { x: FX_ONE / 2, y: FX_ONE / 2 };

    let at_boundary = vec![food_at(FX_ONE / 2, FX_ONE / 2 + FX_ONE / 4)];
    let vision = eye.process_vision(position, 0, &at_boundary);
    assert!(vision.iter().all(|&v| v == 0));

    let on_top = vec![food_at(FX_ONE / 2, FX_ONE / 2)];
    let vision = eye.process_vision(position, 0, &on_top);
    assert_eq!(vision.iter().sum::<i64>(), FX_ONE);
}

#[test]
fn vision_accumulates_test() {
    // Two foods in the same cell sum their contributions.
    let eye = Eye::default();
    let position = Point2 { x: FX_ONE / 2, y: FX_ONE / 2 };
    let foods = vec![
        food_at(FX_ONE / 2, FX_ONE / 2 + FX_ONE / 10),
        food_at(FX_ONE / 2, FX_ONE / 2 + FX_ONE / 10),
    ];

    let vision = eye.process_vision(position, 0, &foods);
    assert_eq!(vision[4], 2 * (6 * FX_ONE / 10));
}

#[test]
fn train_test() {
    // Fast-forward a fresh simulation to its first generation boundary.
    // The birds forage during the run; only a generation in which nothing
    // at all was eaten surfaces as the typed error.
    let mut rng = Prng::from_seed(37);
    let mut sim = Simulation::random(&mut rng);

    match sim.train(&mut rng) {
        Ok(stats) => {
            assert!(stats.min_fitness() >= 0);
            assert!(stats.min_fitness() <= stats.avg_fitness());
            assert!(stats.avg_fitness() <= stats.max_fitness());
            assert_eq!(sim.world().birds().len(), NB_BIRDS);
            for bird in sim.world().birds() {
                assert_eq!(bird.satiation(), 0);
            }
        }
        Err(_) => {
            let total: u64 = sim.world().birds().iter().map(|b| b.satiation()).sum();
            assert_eq!(total, 0);
        }
    }
}
