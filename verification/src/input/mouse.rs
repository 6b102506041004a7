//! Mouse motion gathered between frames.
use vstd::prelude::*;

verus! {

/// Accumulates mouse motion (in pixels) until the next frame takes it, so that no motion
/// is lost when frames are skipped.
pub struct MouseHandler {
    movement: (i32, i32),
}

impl MouseHandler {
    /// Motion gathered since it was last taken, in pixels: (x, y).
    pub closed spec fn pending(&self) -> (int, int) {
        (self.movement.0 as int, self.movement.1 as int)
    }

    /// A handler with no motion gathered.
    pub fn new() -> (handler: Self)
        ensures
            handler.pending() == (0int, 0int),
    {
        MouseHandler { movement: (0, 0) }
    }

    /// Whether a motion of (`dx`, `dy`) can be added to what is gathered without leaving
    /// the range of `i32`.
    pub open spec fn can_record(&self, dx: i32, dy: i32) -> bool {
        &&& i32::MIN <= self.pending().0 + dx <= i32::MAX
        &&& i32::MIN <= self.pending().1 + dy <= i32::MAX
    }

    /// Motion gathered so far, without taking it.
    pub fn pending_movement(&self) -> (moved: (i32, i32))
        ensures
            (moved.0 as int, moved.1 as int) == self.pending(),
    {
        self.movement
    }

    /// Adds a motion of (`dx`, `dy`) pixels to what is gathered.
    pub fn record_movement(&mut self, dx: i32, dy: i32)
        requires
            old(self).can_record(dx, dy),
        ensures
            final(self).pending() == (old(self).pending().0 + dx, old(self).pending().1 + dy),
    {
        self.movement = (self.movement.0 + dx, self.movement.1 + dy);
    }

    /// Takes the motion gathered since the last call, leaving none.
    pub fn movement(&mut self) -> (moved: (i32, i32))
        ensures
            (moved.0 as int, moved.1 as int) == old(self).pending(),
            final(self).pending() == (0int, 0int),
    {
        let res = (self.movement.0, self.movement.1);
        self.movement = (0, 0);
        res
    }
}

} // verus!
