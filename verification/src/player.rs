//! The paddles.

use vstd::prelude::*;
use crate::ball::{Ball, BallView};
use crate::collision::{overlaps, touches};
use crate::constants::{HEIGHT, PADDLE_HEIGHT, PADDLE_SPEED, PADDLE_WIDTH};
use crate::position::Position;
use crate::units::{
    fits, half, halve, lemma_quotient_exact, lemma_quotient_monotonic, lemma_quotient_near,
    lemma_quotient_odd, quotient, wide_quotient, UNIT,
};

verus! {

/// A paddle: a rectangle whose top-left corner is `position`, and which
/// travels `speed` up or down per frame while its player holds a key.
#[derive(Clone, Copy, Debug, PartialEq, Eq)]
pub struct Player {
    pub height: i64,
    pub width: i64,
    pub speed: i64,
    pub position: Position,
}

/// A paddle with unbounded numbers.
pub struct PlayerView {
    pub height: int,
    pub width: int,
    pub speed: int,
    pub x: int,
    pub y: int,
}

impl View for Player {
    type V = PlayerView;

    open spec fn view(&self) -> PlayerView {
        PlayerView {
            height: self.height as int,
            width: self.width as int,
            speed: self.speed as int,
            x: self.position.x as int,
            y: self.position.y as int,
        }
    }
}

impl PlayerView {
    /// Whether every number of the paddle can be stored.
    pub open spec fn fits(self) -> bool {
        &&& fits(self.height)
        &&& fits(self.width)
        &&& fits(self.speed)
        &&& fits(self.x)
        &&& fits(self.y)
    }

    /// Whether no number of the paddle is larger in magnitude than `bound`.
    pub open spec fn bounded(self, bound: int) -> bool {
        &&& -bound <= self.height <= bound
        &&& -bound <= self.width <= bound
        &&& -bound <= self.speed <= bound
        &&& -bound <= self.x <= bound
        &&& -bound <= self.y <= bound
    }

    /// Whether the whole paddle lies between the top and the bottom wall.
    pub open spec fn inside(self) -> bool {
        0 <= self.y <= HEIGHT - self.height
    }

    /// Whether `ball` touches the paddle.
    pub open spec fn touched_by(self, ball: BallView) -> bool {
        touches(self.x, self.y, self.width, self.height, ball.x, ball.y, ball.radius)
    }

    /// Where along the paddle a ball at height `ball_y` meets it: -1 at the
    /// paddle's top edge, 0 at its middle and 1 at its bottom edge, in
    /// thousandths, and beyond that range for a ball above or below the
    /// paddle.
    pub open spec fn offset_of(self, ball_y: int) -> int {
        quotient((2 * (ball_y - self.y) - self.height) * UNIT, self.height)
    }

    /// The paddle moved down by `dy`.
    pub open spec fn moved(self, dy: int) -> PlayerView {
        PlayerView { y: self.y + dy, ..self }
    }

    /// The paddle after one correction toward the arena: a paddle above the
    /// top wall moves one step down, and one that then reaches below the
    /// bottom wall moves one step up.
    pub open spec fn nudged(self) -> PlayerView {
        let lowered = if self.y < 0 {
            self.moved(self.speed)
        } else {
            self
        };
        if lowered.y > HEIGHT - lowered.height {
            lowered.moved(-lowered.speed)
        } else {
            lowered
        }
    }

    /// The paddle as a round starts: size and speed as at the start of the
    /// match, centred between the top and the bottom wall, in its own lane.
    pub open spec fn restored(self) -> PlayerView {
        PlayerView {
            height: PADDLE_HEIGHT as int,
            width: PADDLE_WIDTH as int,
            speed: PADDLE_SPEED as int,
            x: self.x,
            y: HEIGHT / 2 - PADDLE_HEIGHT / 2,
        }
    }

    /// The paddle grown by `size` about its middle.
    pub open spec fn resized(self, size: int) -> PlayerView {
        PlayerView { height: self.height + size, y: self.y - half(size), ..self }
    }

    /// The paddle with `speed` added to its speed.
    pub open spec fn hastened(self, speed: int) -> PlayerView {
        PlayerView { speed: self.speed + speed, ..self }
    }
}

/// A ball whose centre lies between a paddle's top and bottom edge meets it at
/// an offset strictly between -1 and 1.
pub proof fn lemma_offset_inside(paddle: PlayerView, ball_y: int)
    requires
        paddle.y < ball_y < paddle.y + paddle.height,
    ensures
        -UNIT < paddle.offset_of(ball_y) < UNIT,
{
    let h = paddle.height;
    let n = 2 * (ball_y - paddle.y) - h;
    let a = if n >= 0 { n } else { -n };
    assert(0 <= (a * 1000) / h < 1000) by (nonlinear_arith)
        requires
            0 <= a < h,
    ;
    assert((-n) * 1000 == -(n * 1000)) by (nonlinear_arith);
}

/// At the paddle's top edge the collision offset is -1, and at its bottom
/// edge it is 1.
pub proof fn lemma_offset_at_edges(paddle: PlayerView)
    requires
        paddle.height != 0,
    ensures
        paddle.offset_of(paddle.y) == -UNIT,
        paddle.offset_of(paddle.y + paddle.height) == UNIT,
{
    let h = paddle.height;
    lemma_quotient_exact(1000, h);
    lemma_quotient_exact(-1000, h);
    assert((2 * (paddle.y - paddle.y) - h) * 1000 == (-1000) * h) by (nonlinear_arith);
    assert((2 * (paddle.y + h - paddle.y) - h) * 1000 == 1000 * h) by (nonlinear_arith);
}

/// The collision offset is antisymmetric about the paddle's middle: two balls
/// as far above the middle as below it meet the paddle at opposite offsets.
pub proof fn lemma_offset_antisymmetric(paddle: PlayerView, above: int, below: int)
    requires
        paddle.height != 0,
        (above - paddle.y) + (below - paddle.y) == paddle.height,
    ensures
        paddle.offset_of(above) == -paddle.offset_of(below),
{
    let h = paddle.height;
    let n = 2 * (below - paddle.y) - h;
    assert((2 * (above - paddle.y) - h) * 1000 == -(n * 1000)) by (nonlinear_arith)
        requires
            (above - paddle.y) + (below - paddle.y) == h,
            n == 2 * (below - paddle.y) - h,
    ;
    lemma_quotient_odd(n * 1000, h);
}

/// The collision offset never falls as the ball moves down the paddle, and
/// from one ball position to the next it rises by no more than the slope
/// `2 / height`, rounded up, and one step of rounding.
pub proof fn lemma_offset_continuous(paddle: PlayerView, ball_y: int)
    requires
        paddle.height > 0,
    ensures
        paddle.offset_of(ball_y) <= paddle.offset_of(ball_y + 1),
        paddle.offset_of(ball_y + 1) - paddle.offset_of(ball_y) <= (2 * UNIT) / paddle.height + 2,
{
    let h = paddle.height;
    let a = (2 * (ball_y - paddle.y) - h) * 1000;
    let b = (2 * (ball_y + 1 - paddle.y) - h) * 1000;
    assert(b == a + 2000) by (nonlinear_arith)
        requires
            a == (2 * (ball_y - paddle.y) - h) * 1000,
            b == (2 * (ball_y + 1 - paddle.y) - h) * 1000,
    ;
    lemma_quotient_monotonic(a, b, h);
    lemma_quotient_near(a, h);
    lemma_quotient_near(b, h);
    let qa = quotient(a, h);
    let qb = quotient(b, h);
    let slope = 2000int / h;
    assert(qb - qa <= slope + 2) by (nonlinear_arith)
        requires
            h > 0,
            b == a + 2000,
            -h < a - qa * h < h,
            -h < b - qb * h < h,
            slope == 2000int / h,
    ;
}

impl Player {
    /// Whether the ball touches the paddle.
    pub fn collided(&self, ball: &Ball) -> (hit: bool)
        ensures
            hit == self@.touched_by(ball@),
    {
        overlaps(&self.position, self.width, self.height, &ball.position, ball.radius)
    }

    /// Where along the paddle the ball meets it: -1 at the top edge, 0 at the
    /// middle, 1 at the bottom edge, in thousandths. Nothing clamps the result
    /// for a ball above or below the paddle.
    pub fn collision_point(&self, ball: &Ball) -> (offset: i64)
        requires
            self.height != 0,
            fits(self@.offset_of(ball@.y)),
        ensures
            offset == self@.offset_of(ball@.y),
    {
        let dy: i128 = ball.position.y as i128 - self.position.y as i128;
        let span: i128 = 2 * dy - self.height as i128;
        let offset: i128 = wide_quotient(span * (UNIT as i128), self.height as i128);
        offset as i64
    }

    /// Moves the paddle down by `dy`, or up where `dy` is negative.
    pub fn move_by(&mut self, dy: i64)
        requires
            fits(old(self).position.y + dy),
        ensures
            final(self)@ == old(self)@.moved(dy as int),
    {
        self.position.y = self.position.y + dy;
    }

    /// Corrects a paddle that has left the arena by one step: down when it is
    /// above the top wall, then up when it reaches below the bottom wall.
    ///
    /// A paddle that lies inside the arena is left as it is. A fast paddle may
    /// still be outside after the correction.
    pub fn prevent_out_of_bounds(&mut self)
        requires
            old(self)@.nudged().fits(),
            old(self).position.y < 0 ==> fits(old(self).position.y + old(self).speed),
        ensures
            final(self)@ == old(self)@.nudged(),
            old(self)@.inside() ==> *final(self) == *old(self),
    {
        if self.position.y < 0 {
            self.position.y = self.position.y + self.speed;
        }
        if self.position.y as i128 > HEIGHT as i128 - self.height as i128 {
            self.position.y = self.position.y - self.speed;
        }
    }

    /// Gives the paddle the size and speed it had at the start of the match
    /// and centres it between the top and the bottom wall. Its lane, `x`,
    /// stays.
    pub fn reset(&mut self)
        ensures
            final(self)@ == old(self)@.restored(),
    {
        self.height = PADDLE_HEIGHT;
        self.width = PADDLE_WIDTH;
        self.speed = PADDLE_SPEED;
        self.position.y = HEIGHT / 2 - self.height / 2;
    }

    /// Adds `size` to the height and keeps the paddle's middle where it is.
    pub fn resize_by(&mut self, size: i64)
        requires
            old(self)@.resized(size as int).fits(),
        ensures
            final(self)@ == old(self)@.resized(size as int),
    {
        self.height = self.height + size;
        self.position.y = self.position.y - halve(size);
    }

    /// Adds `speed` to the speed.
    pub fn change_speed_by(&mut self, speed: i64)
        requires
            fits(old(self).speed + speed),
        ensures
            final(self)@ == old(self)@.hastened(speed as int),
    {
        self.speed = self.speed + speed;
    }
}

} // verus!
