//! A Breakout-style arcade simulation, verified.
//!
//! The crate holds the deterministic game core: a paddle tracking the
//! pointer, a ball bouncing off the playfield border, the paddle and a grid
//! of destructible bricks, together with scoring and the lives/game-over
//! lifecycle.  All geometry lives on a fixed-point grid (see [`units`]), so
//! every tick is a total, exactly specified transformation of the game state.
//!
//! Window, rendering and audio plumbing are deliberately outside: the core
//! consumes plain values (pointer position, click edges, elapsed time) and
//! yields plain values (entity positions, a bounce event) for any front end
//! to present.

pub mod control;
pub mod logic;
pub mod units;
pub mod view;
