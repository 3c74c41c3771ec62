//! The ball.

use vstd::prelude::*;
use crate::constants::{HALF_TURN, HEIGHT, MAX_DEFLECTION, SERVE_SPEED, SPEED_GAIN};
use crate::position::Position;
use crate::trig::{
    cos, cosine, lemma_cosine_even, lemma_level_flight, lemma_sine_odd, sin, sine,
};
use crate::units::{
    fits, lemma_quotient_bounded, lemma_quotient_exact, lemma_quotient_odd, lemma_scaled_bounded,
    magnitude, scale_wide, scaled, UNIT,
};

verus! {

/// The ball: a circle that flies at `speed` per frame in the direction
/// `angle`.
///
/// An angle of zero points to the right and a positive angle points upward, so
/// a frame adds `cos(angle) * speed` to `x` and takes `sin(angle) * speed` from
/// `y`. `last_hit` is 1 or 2 for the paddle that sent the ball on its way, and
/// 0 while no paddle has.
#[derive(Clone, Copy, Debug, PartialEq, Eq)]
pub struct Ball {
    pub radius: i64,
    pub speed: i64,
    pub angle: i64,
    pub position: Position,
    pub last_hit: usize,
}

/// A ball with unbounded numbers.
pub struct BallView {
    pub radius: int,
    pub speed: int,
    pub angle: int,
    pub x: int,
    pub y: int,
    pub last_hit: int,
}

impl View for Ball {
    type V = BallView;

    open spec fn view(&self) -> BallView {
        BallView {
            radius: self.radius as int,
            speed: self.speed as int,
            angle: self.angle as int,
            x: self.position.x as int,
            y: self.position.y as int,
            last_hit: self.last_hit as int,
        }
    }
}

impl BallView {
    /// Whether every number of the ball can be stored.
    pub open spec fn fits(self) -> bool {
        &&& fits(self.radius)
        &&& fits(self.speed)
        &&& fits(self.angle)
        &&& fits(self.x)
        &&& fits(self.y)
        &&& 0 <= self.last_hit <= usize::MAX
    }

    /// Whether no number of the ball is larger in magnitude than `bound`.
    pub open spec fn bounded(self, bound: int) -> bool {
        &&& -bound <= self.radius <= bound
        &&& -bound <= self.speed <= bound
        &&& -bound <= self.angle <= bound
        &&& -bound <= self.x <= bound
        &&& -bound <= self.y <= bound
    }

    /// Whether the ball reaches past the top or the bottom wall.
    pub open spec fn past_wall(self) -> bool {
        self.y - self.radius < 0 || self.y + self.radius > HEIGHT
    }

    /// The ball after the walls had their say: past a wall its angle is
    /// mirrored, elsewhere nothing changes.
    pub open spec fn bounced(self) -> BallView {
        if self.past_wall() {
            BallView { angle: -self.angle, ..self }
        } else {
            self
        }
    }

    /// The ball one frame further along its angle.
    pub open spec fn advanced(self) -> BallView {
        BallView {
            x: self.x + scaled(cosine(self.angle), self.speed),
            y: self.y - scaled(sine(self.angle), self.speed),
            ..self
        }
    }

    /// The ball after paddle `paddle` has hit it at the collision offset
    /// `offset`.
    ///
    /// Paddle 1 sends the ball to the right and any other paddle to the left,
    /// up to `MAX_DEFLECTION` away from level flight at an offset of one. The
    /// new speed grows with the distance of the hit from the paddle's middle.
    pub open spec fn deflected(self, paddle: int, offset: int) -> BallView {
        BallView {
            angle: if paddle == 1 {
                -scaled(MAX_DEFLECTION as int, offset)
            } else {
                HALF_TURN + scaled(MAX_DEFLECTION as int, offset)
            },
            speed: SERVE_SPEED + magnitude(offset) * SPEED_GAIN,
            last_hit: paddle,
            ..self
        }
    }

    /// The ball at rest at (`x`, `HEIGHT / 2`), waiting to be served along
    /// `angle`.
    pub open spec fn placed(self, x: int, angle: int) -> BallView {
        BallView { speed: 0, angle, x, y: HEIGHT / 2, ..self }
    }

    /// The ball with `size` added to its radius.
    pub open spec fn resized(self, size: int) -> BallView {
        BallView { radius: self.radius + size, ..self }
    }

    /// The ball with `speed` added to its speed.
    pub open spec fn hastened(self, speed: int) -> BallView {
        BallView { speed: self.speed + speed, ..self }
    }
}

/// A ball past a wall bounces: its angle changes sign and keeps its
/// magnitude, so that the next frame carries it as far sideways as before and
/// as far up as it would have gone down. A ball inside the walls does not
/// bounce.
pub proof fn lemma_bounce_mirrors_flight(ball: BallView)
    ensures
        ball.past_wall() ==> ball.bounced().angle == -ball.angle,
        magnitude(ball.bounced().angle) == magnitude(ball.angle),
        ball.past_wall() ==> ball.bounced().advanced().x - ball.x == ball.advanced().x - ball.x,
        ball.past_wall() ==> ball.bounced().advanced().y - ball.y == -(ball.advanced().y - ball.y),
        !ball.past_wall() ==> ball.bounced() == ball,
{
    lemma_sine_odd(ball.angle);
    lemma_cosine_even(ball.angle);
    let rise = sine(ball.angle);
    assert((-rise) * ball.speed == -(rise * ball.speed)) by (nonlinear_arith);
    lemma_quotient_odd(rise * ball.speed, UNIT as int);
}

/// A served ball flies level: at an angle of zero a frame carries it its
/// speed to the right, at half a turn its speed to the left, and in neither
/// case up or down.
pub proof fn lemma_served_ball_flies_level(ball: BallView)
    ensures
        ball.angle == 0 ==> ball.advanced() == (BallView { x: ball.x + ball.speed, ..ball }),
        ball.angle == HALF_TURN ==> ball.advanced() == (BallView {
            x: ball.x - ball.speed,
            ..ball
        }),
{
    lemma_level_flight();
    lemma_quotient_exact(ball.speed, UNIT as int);
    lemma_quotient_exact(-ball.speed, UNIT as int);
    assert(1000 * ball.speed == ball.speed * 1000) by (nonlinear_arith);
    assert((-1000) * ball.speed == (-ball.speed) * 1000) by (nonlinear_arith);
    assert(0 * ball.speed == 0) by (nonlinear_arith);
}

impl Ball {
    /// Mirrors the angle when the ball reaches past the top or the bottom wall.
    ///
    /// The mirrored angle has the opposite sign and the same magnitude. A ball
    /// inside the walls is left as it is.
    pub fn check_and_handle_vertical_collision(&mut self)
        requires
            old(self)@.past_wall() ==> fits(-old(self).angle),
        ensures
            final(self)@ == old(self)@.bounced(),
            old(self)@.past_wall() ==> final(self).angle == -old(self).angle && magnitude(
                final(self).angle as int,
            ) == magnitude(old(self).angle as int),
            !old(self)@.past_wall() ==> *final(self) == *old(self),
    {
        let y: i128 = self.position.y as i128;
        let r: i128 = self.radius as i128;
        if y - r < 0 || y + r > HEIGHT as i128 {
            self.angle = -self.angle;
        }
    }

    /// Moves the ball one frame along its angle.
    pub fn advance(&mut self)
        requires
            old(self)@.advanced().fits(),
        ensures
            final(self)@ == old(self)@.advanced(),
    {
        let c: i64 = cos(self.angle);
        let s: i64 = sin(self.angle);
        let dx: i128 = scale_wide(c, self.speed);
        let dy: i128 = scale_wide(s, self.speed);
        proof {
            lemma_scaled_bounded(c as int, self.speed as int);
            lemma_scaled_bounded(s as int, self.speed as int);
        }
        let x: i128 = self.position.x as i128 + dx;
        let y: i128 = self.position.y as i128 - dy;
        self.position.x = x as i64;
        self.position.y = y as i64;
    }

    /// Sends the ball away from paddle `paddle`, which it met at the collision
    /// offset `offset`, and remembers that paddle as the last to hit it.
    pub fn deflect(&mut self, paddle: usize, offset: i64)
        requires
            old(self)@.deflected(paddle as int, offset as int).fits(),
        ensures
            final(self)@ == old(self)@.deflected(paddle as int, offset as int),
    {
        let turn: i128 = scale_wide(MAX_DEFLECTION, offset);
        let reach: i128 = if offset < 0 { -(offset as i128) } else { offset as i128 };
        proof {
            lemma_quotient_bounded(MAX_DEFLECTION * offset, UNIT as int);
        }
        let angle: i128 = if paddle == 1 { -turn } else { HALF_TURN as i128 + turn };
        let speed: i128 = SERVE_SPEED as i128 + reach * (SPEED_GAIN as i128);
        self.angle = angle as i64;
        self.speed = speed as i64;
        self.last_hit = paddle;
    }

    /// Adds `size` to the radius.
    pub fn resize_by(&mut self, size: i64)
        requires
            fits(old(self).radius + size),
        ensures
            final(self)@ == old(self)@.resized(size as int),
    {
        self.radius = self.radius + size;
    }

    /// Adds `speed` to the speed.
    pub fn change_speed_by(&mut self, speed: i64)
        requires
            fits(old(self).speed + speed),
        ensures
            final(self)@ == old(self)@.hastened(speed as int),
    {
        self.speed = self.speed + speed;
    }
}

} // verus!
