//! A small particle simulation: a population of short-lived points that is
//! spawned, aged and retired once per tick.
//!
//! Every quantity is held in fixed point: lengths in millionths of a pixel,
//! colour channels in billionths of full intensity.
pub mod particle;
pub mod random;
pub mod world;
