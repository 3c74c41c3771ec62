//! Points of the arena.

use vstd::prelude::*;

verus! {

/// A point of the arena. `x` grows to the right and `y` grows downward.
#[derive(Clone, Copy, Debug, PartialEq, Eq)]
pub struct Position {
    pub x: i64,
    pub y: i64,
}

/// A point with unbounded coordinates.
pub struct PositionView {
    pub x: int,
    pub y: int,
}

impl View for Position {
    type V = PositionView;

    open spec fn view(&self) -> PositionView {
        PositionView { x: self.x as int, y: self.y as int }
    }
}

} // verus!
