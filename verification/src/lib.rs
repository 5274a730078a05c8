//! Simulation core of a 2D arcade survival game.
//!
//! A player avatar dodges or absorbs hostile entities on a bounded playfield,
//! collecting shards and power-ups, building a combo multiplier and a
//! persistent currency that buys permanent upgrades.  This crate holds the
//! fixed-timestep update pipeline: player motion and dash state, enemy
//! steering, boss phases, bullet integration, collision and economy
//! resolution, and transient-effect decay.  Rendering, input polling and the
//! save file live outside; they exchange plain values with this crate.
//!
//! All quantities are fixed-point integers:
//! - lengths and positions in milli-pixels (1000 per pixel),
//! - durations in milliseconds,
//! - angles in milliradians (one turn is 6283),
//! - unit vectors scaled by 1000,
//! - the combo multiplier increment in tenths.

pub mod economy;
pub mod effects;
pub mod entities;
pub mod game;
pub mod geom;
pub mod player;
pub mod rng;
pub mod save;
pub mod trig;
pub mod upgrades;
