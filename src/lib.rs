//! A population of leaky integrate-and-fire neurons wired by a random spatial
//! synapse graph.
//!
//! Quantities are integers: membrane potential in micro-units (a threshold of
//! `1.0` is `1_000_000`), time in microseconds, and space in whole units of
//! the layout rectangle (the standard layout is `1_000_000` units tall).
//! Each neuron is an actor: `neuron` holds its decisions, `network` builds
//! the population, `observer` reads what the actors publish.
pub mod geometry;
pub mod network;
pub mod neuron;
pub mod observer;
pub mod params;
pub mod random;
