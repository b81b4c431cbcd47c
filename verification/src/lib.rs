//! A verified core for a foraging-birds evolution simulator.
//!
//! Birds sense nearby food through an angular eye, decide speed and rotation
//! changes with a feed-forward neural network, and are improved across
//! generations by a genetic algorithm acting on the networks' flattened
//! weight vectors.  All real-valued quantities are fixed-point `i64` values
//! (see [`fx`]), which keeps every computation exact and verifiable.
pub mod bird;
pub mod bird_individual;
pub mod brain;
pub mod chromosome;
pub mod crossover;
pub mod eye;
pub mod food;
pub mod fx;
pub mod genetic;
pub mod geom;
pub mod individual;
pub mod mutation;
pub mod network;
pub mod rng;
pub mod selection;
pub mod simulation;
pub mod statistics;
pub mod world;
