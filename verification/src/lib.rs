//! Game rules of a small arena shooter: the pseudo-random generator, the
//! enemy action table, melee and recoil timers, the per-frame game state
//! machine and a few head-up-display computations.
pub mod rng;
pub mod ai;
pub mod melee;
pub mod spray;
pub mod rules;
pub mod combat;
pub mod enemies;
pub mod hud;
pub mod frame;
