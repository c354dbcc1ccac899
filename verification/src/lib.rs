//! An interactive Conway's-Game-of-Life engine: a sparse infinite grid of
//! cells, the generation rule, named seed patterns, a pan/zoom viewport, a
//! mouse-gesture state machine, and an orchestrating grid that produces
//! layered draw instructions for an external renderer.
//!
//! All geometry is carried in fixed-point milli-units (1000 steps per screen
//! pixel or grid unit), so every coordinate computation is exact integer
//! arithmetic with a stated rounding rule.

pub mod cell;
pub mod circle;
pub mod grid;
pub mod interaction;
pub mod life;
pub mod preset;
pub mod geometry;
