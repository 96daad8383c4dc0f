//! Row-major pixel coordinate walking.

use vstd::prelude::*;

verus! {

/// Walks `(x, y)` over a `width x height` grid, row by row.
#[derive(Copy, Clone, Debug, PartialEq, Eq, Structural)]
pub struct ImageCoordinates {
    pub width: u32,
    pub height: u32,
    pub x: u32,
    pub y: u32,
}

impl ImageCoordinates {
    pub fn new(width: u32, height: u32) -> (c: ImageCoordinates)
        ensures
            c == (ImageCoordinates { width, height, x: 0, y: 0 }),
    {
        ImageCoordinates { width, height, x: 0, y: 0 }
    }

    /// The next coordinate pair, or `None` once the grid is walked: `x` runs
    /// fastest, and reaching the end of a row steps `y`.
    pub fn next(&mut self) -> (r: Option<(u32, u32)>)
        ensures
            final (self).width == old(self).width,
            final (self).height == old(self).height,
            old(self).x < old(self).width && old(self).y < old(self).height ==> {
                &&& r == Some((old(self).x, old(self).y))
                &&& (if old(self).x + 1 == old(self).width {
                    final (self).x == 0 && final (self).y == old(self).y + 1
                } else {
                    final (self).x == old(self).x + 1 && final (self).y == old(self).y
                })
            },
            !(old(self).x < old(self).width && old(self).y < old(self).height) ==> r is None
                && *final (self) == *old(self),
    {
        if self.x < self.width && self.y < self.height {
            let i = Some((self.x, self.y));
            self.x = self.x + 1;
            if self.x == self.width {
                self.x = 0;
                self.y = self.y + 1;
            }
            i
        } else {
            None
        }
    }
}

} // verus!
