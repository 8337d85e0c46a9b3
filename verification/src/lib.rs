//! Simulation core of a 2D bullet-hell shooter.
//!
//! All quantities are fixed-point integers (see `fx`): positions, speeds,
//! durations and angles are `i64` values scaled by one thousand, so the whole
//! simulation is exact integer arithmetic and every pass can be verified.
//! The crate holds the component data model, the kinematics laws, the entity
//! store, the boss attack-pattern engine and the per-frame systems; windowing,
//! rendering and audio are left to the embedding program, which feeds the core
//! sampled input and a frame delta and consumes the cues the core emits.

pub mod attack;
pub mod boss;
pub mod combat;
pub mod components;
pub mod control;
pub mod cpx;
pub mod difficulty;
pub mod entity;
pub mod frame;
pub mod fx;
pub mod motion;
pub mod player;
pub mod rng;
pub mod score;
pub mod stage;
pub mod systems;
pub mod timer;
pub mod trig;
pub mod window;
pub mod world;
