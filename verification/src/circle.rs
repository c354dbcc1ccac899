//! A minimal circular widget: a radius, and the square layout box the
//! renderer gives it.

use vstd::prelude::*;

verus! {

/// A circle widget; its only state is its radius, in pixels.
#[derive(Debug, Clone, Copy, PartialEq, Eq, Structural)]
pub struct Circle {
    pub radius: u16,
}

impl Circle {
    /// A circle of the given radius.
    pub fn new(radius: u16) -> (r: Circle)
        ensures
            r.radius == radius,
    {
        Circle { radius }
    }

    /// The widget lays out as a square of twice its radius on each side.
    pub fn side(&self) -> (r: u32)
        ensures
            r == 2 * self.radius,
    {
        2 * (self.radius as u32)
    }
}

} // verus!
