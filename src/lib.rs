//! Simulation core of a 2D asteroid-shooter arcade game.
//!
//! All quantities are fixed-point integers:
//! lengths are in milli-units (1 unit = 1000), times in milliseconds,
//! velocities in milli-units per second, angles in microradians and
//! angular rates in microradians per second.
//!
//! A tick (`states::StatePlay::update`) runs the stages in this order:
//! asteroid spawner, ship control, physics integration, boundary,
//! collision, deletion and scoring, explosion animation. Stages queue
//! creations and deletions in the entity store; the barrier between ticks
//! (`world::World::maintain`) first removes the entities queued for
//! deletion, then makes the queued creations live under fresh ids, so no
//! stage ever sees an entity created in the same tick.

pub mod fixed;
pub mod components;
pub mod world;
pub mod random;
pub mod control;
pub mod motion;
pub mod spawn;
pub mod collision;
pub mod effects;
pub mod states;
pub mod laws;
