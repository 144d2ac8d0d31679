//! Points of interest: fixed attractors or repellers placed by the user.

use vstd::prelude::*;
use crate::math::DIM_LIMIT;

verus! {

/// Most points of interest that may exist at once.
pub const MAX_POIS: usize = 10;

/// A point of interest: an attractor (`toggled == true`) or a repeller
/// (`toggled == false`) fixed in place until moved by the user.
#[derive(Clone, Copy, PartialEq, Eq, Structural, Debug)]
pub struct POI {
    pub x: i64,
    pub y: i64,
    pub toggled: bool,
}

impl POI {
    /// The position lies in the representable coordinate range.
    pub open spec fn bounded(self) -> bool {
        0 <= self.x <= DIM_LIMIT && 0 <= self.y <= DIM_LIMIT
    }

    /// A new point of interest starts as an attractor.
    pub fn new(x: i64, y: i64) -> (p: POI)
        ensures
            p.x == x,
            p.y == y,
            p.toggled,
    {
        POI { x, y, toggled: true }
    }

    /// Flip between attractor and repeller.
    pub fn toggle(&mut self)
        ensures
            final(self).x == old(self).x,
            final(self).y == old(self).y,
            final(self).toggled == !old(self).toggled,
    {
        self.toggled = !self.toggled;
    }

    /// Shift the position by the given step; the caller keeps it in range.
    pub fn step(&mut self, dx: i64, dy: i64)
        requires
            0 <= old(self).x + dx <= DIM_LIMIT,
            0 <= old(self).y + dy <= DIM_LIMIT,
        ensures
            final(self).x == old(self).x + dx,
            final(self).y == old(self).y + dy,
            final(self).toggled == old(self).toggled,
    {
        self.x = self.x + dx;
        self.y = self.y + dy;
    }
}

} // verus!
