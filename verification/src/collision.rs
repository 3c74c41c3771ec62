//! The hit test shared by paddles and power-ups.

use vstd::prelude::*;
use crate::position::Position;

verus! {

/// Whether a circle touches an axis-aligned rectangle, as this game sees it.
///
/// The rectangle has its top-left corner at (`left`, `top`). The circle touches
/// it when its centre lies strictly between the rectangle's top and bottom
/// edges and its horizontal extent strictly overlaps the rectangle's. The
/// vertical extent of the circle plays no part: a ball whose centre passes just
/// above a paddle misses it.
pub open spec fn touches(
    left: int,
    top: int,
    width: int,
    height: int,
    cx: int,
    cy: int,
    radius: int,
) -> bool {
    &&& top < cy < top + height
    &&& cx - radius < left + width
    &&& cx + radius > left
}

/// Tests whether the circle around `center` touches the rectangle whose
/// top-left corner is `corner`.
pub fn overlaps(corner: &Position, width: i64, height: i64, center: &Position, radius: i64) -> (hit:
    bool)
    ensures
        hit == touches(
            corner.x as int,
            corner.y as int,
            width as int,
            height as int,
            center.x as int,
            center.y as int,
            radius as int,
        ),
{
    let top: i128 = corner.y as i128;
    let bottom: i128 = corner.y as i128 + height as i128;
    let left: i128 = corner.x as i128;
    let right: i128 = corner.x as i128 + width as i128;
    let ball_left: i128 = center.x as i128 - radius as i128;
    let ball_right: i128 = center.x as i128 + radius as i128;
    let ball_y: i128 = center.y as i128;
    (top < ball_y && ball_y < bottom) && (ball_left < right && ball_right > left)
}

} // verus!
