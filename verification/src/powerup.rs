//! Power-ups: squares that lie in the arena until the ball collects them, and
//! then change a paddle.

use vstd::prelude::*;
use crate::ball::{Ball, BallView};
use crate::collision::{overlaps, touches};
use crate::constants::{
    HEIGHT, POWERUP_SIZE, RESIZE_STEP, SPEED_STEP, SPRITE_SPAWN_INSET, SPRITE_SPAWN_MARGIN, WIDTH,
};
use crate::player::{Player, PlayerView};
use crate::position::Position;

verus! {

/// The four kinds of power-up.
#[derive(Clone, Copy, Debug, PartialEq, Eq, Hash)]
pub enum PowerUpType {
    Enlarge,
    Shrink,
    SpeedUp,
    SlowDown,
}

/// What the game knows of a power-up: its kind, its top-left corner and
/// whether it can still be collected.
pub struct PowerUpView {
    pub kind: PowerUpType,
    pub x: int,
    pub y: int,
    pub collectable: bool,
}

impl PowerUpView {
    /// Whether `ball` touches the power-up's square.
    pub open spec fn touched_by(self, ball: BallView) -> bool {
        touches(
            self.x,
            self.y,
            POWERUP_SIZE as int,
            POWERUP_SIZE as int,
            ball.x,
            ball.y,
            ball.radius,
        )
    }

    /// Whether the ball picks the power-up up: it can be collected and the
    /// ball touches it.
    pub open spec fn taken_by(self, ball: BallView) -> bool {
        self.collectable && self.touched_by(ball)
    }

    /// Whether the power-up is one that may be spawned: collectable, with
    /// its corner at least `SPRITE_SPAWN_MARGIN` away from either side wall
    /// and `SPRITE_SPAWN_INSET` away from the top and bottom edges.
    pub open spec fn in_spawn_region(self) -> bool {
        &&& self.collectable
        &&& SPRITE_SPAWN_MARGIN <= self.x <= WIDTH - SPRITE_SPAWN_MARGIN
        &&& SPRITE_SPAWN_INSET <= self.y <= HEIGHT - SPRITE_SPAWN_INSET
    }

    /// The power-up once it has been collected.
    pub open spec fn collected(self) -> PowerUpView {
        PowerUpView { collectable: false, ..self }
    }
}

/// The paddles after a power-up of kind `kind` has been collected by a ball
/// that paddle `last_hit` hit last.
///
/// `Enlarge` and `SpeedUp` reward the paddle that hit the ball; `Shrink` and
/// `SlowDown` punish the other one. Paddle 1 counts as the hitter when
/// `last_hit` is 1, and paddle 2 in every other case.
pub open spec fn effect(kind: PowerUpType, last_hit: int, player1: PlayerView, player2: PlayerView)
    -> (PlayerView, PlayerView) {
    match kind {
        PowerUpType::Enlarge => if last_hit == 1 {
            (player1.resized(RESIZE_STEP as int), player2)
        } else {
            (player1, player2.resized(RESIZE_STEP as int))
        },
        PowerUpType::Shrink => if last_hit == 1 {
            (player1, player2.resized(-RESIZE_STEP))
        } else {
            (player1.resized(-RESIZE_STEP), player2)
        },
        PowerUpType::SpeedUp => if last_hit == 1 {
            (player1.hastened(SPEED_STEP as int), player2)
        } else {
            (player1, player2.hastened(SPEED_STEP as int))
        },
        PowerUpType::SlowDown => if last_hit == 1 {
            (player1, player2.hastened(-SPEED_STEP))
        } else {
            (player1.hastened(-SPEED_STEP), player2)
        },
    }
}

/// Whether both paddles can be stored after the effect of `kind`.
pub open spec fn effect_fits(
    kind: PowerUpType,
    last_hit: int,
    player1: PlayerView,
    player2: PlayerView,
) -> bool {
    effect(kind, last_hit, player1, player2).0.fits() && effect(
        kind,
        last_hit,
        player1,
        player2,
    ).1.fits()
}

/// `Enlarge` adds exactly `RESIZE_STEP` to the height of the paddle that hit
/// the ball last and leaves the other paddle as it is.
pub proof fn lemma_enlarge_rewards_hitter(last_hit: int, player1: PlayerView, player2: PlayerView)
    ensures
        last_hit == 1 ==> effect(PowerUpType::Enlarge, last_hit, player1, player2).0.height
            == player1.height + RESIZE_STEP && effect(
            PowerUpType::Enlarge,
            last_hit,
            player1,
            player2,
        ).1 == player2,
        last_hit != 1 ==> effect(PowerUpType::Enlarge, last_hit, player1, player2).1.height
            == player2.height + RESIZE_STEP && effect(
            PowerUpType::Enlarge,
            last_hit,
            player1,
            player2,
        ).0 == player1,
{
}

/// `Shrink` takes exactly `RESIZE_STEP` from the height of the paddle that did
/// not hit the ball last and leaves the hitter's paddle as it is.
pub proof fn lemma_shrink_punishes_other(last_hit: int, player1: PlayerView, player2: PlayerView)
    ensures
        last_hit == 1 ==> effect(PowerUpType::Shrink, last_hit, player1, player2).1.height
            == player2.height - RESIZE_STEP && effect(
            PowerUpType::Shrink,
            last_hit,
            player1,
            player2,
        ).0 == player1,
        last_hit != 1 ==> effect(PowerUpType::Shrink, last_hit, player1, player2).0.height
            == player1.height - RESIZE_STEP && effect(
            PowerUpType::Shrink,
            last_hit,
            player1,
            player2,
        ).1 == player2,
{
}

/// `SpeedUp` adds exactly `SPEED_STEP` to the speed of the paddle that hit the
/// ball last, and `SlowDown` takes as much from the speed of the other one.
pub proof fn lemma_speed_effects(last_hit: int, player1: PlayerView, player2: PlayerView)
    ensures
        last_hit == 1 ==> effect(PowerUpType::SpeedUp, last_hit, player1, player2) == (
            player1.hastened(SPEED_STEP as int),
            player2,
        ),
        last_hit != 1 ==> effect(PowerUpType::SpeedUp, last_hit, player1, player2) == (
            player1,
            player2.hastened(SPEED_STEP as int),
        ),
        last_hit == 1 ==> effect(PowerUpType::SlowDown, last_hit, player1, player2) == (
            player1,
            player2.hastened(-SPEED_STEP),
        ),
        last_hit != 1 ==> effect(PowerUpType::SlowDown, last_hit, player1, player2) == (
            player1.hastened(-SPEED_STEP),
            player2,
        ),
{
}

/// An `Enlarge` and a `Shrink` that fall on the same paddle, in either order,
/// leave both paddles as they were, and so do a `SpeedUp` and a `SlowDown`.
pub proof fn lemma_opposite_effects_cancel(player1: PlayerView, player2: PlayerView)
    ensures
        ({
            let enlarged = effect(PowerUpType::Enlarge, 1, player1, player2);
            effect(PowerUpType::Shrink, 2, enlarged.0, enlarged.1) == (player1, player2)
        }),
        ({
            let shrunk = effect(PowerUpType::Shrink, 2, player1, player2);
            effect(PowerUpType::Enlarge, 1, shrunk.0, shrunk.1) == (player1, player2)
        }),
        ({
            let enlarged = effect(PowerUpType::Enlarge, 2, player1, player2);
            effect(PowerUpType::Shrink, 1, enlarged.0, enlarged.1) == (player1, player2)
        }),
        ({
            let hastened = effect(PowerUpType::SpeedUp, 1, player1, player2);
            effect(PowerUpType::SlowDown, 2, hastened.0, hastened.1) == (player1, player2)
        }),
        ({
            let hastened = effect(PowerUpType::SpeedUp, 2, player1, player2);
            effect(PowerUpType::SlowDown, 1, hastened.0, hastened.1) == (player1, player2)
        }),
{
}

/// Changes the paddles as a collected power-up of kind `kind` does.
pub fn apply_effect(kind: PowerUpType, last_hit: usize, player1: &mut Player, player2: &mut Player)
    requires
        effect_fits(kind, last_hit as int, old(player1)@, old(player2)@),
    ensures
        (final(player1)@, final(player2)@) == effect(
            kind,
            last_hit as int,
            old(player1)@,
            old(player2)@,
        ),
{
    match kind {
        PowerUpType::Enlarge => {
            if last_hit == 1 {
                player1.resize_by(RESIZE_STEP);
            } else {
                player2.resize_by(RESIZE_STEP);
            }
        },
        PowerUpType::Shrink => {
            if last_hit == 1 {
                player2.resize_by(-RESIZE_STEP);
            } else {
                player1.resize_by(-RESIZE_STEP);
            }
        },
        PowerUpType::SpeedUp => {
            if last_hit == 1 {
                player1.change_speed_by(SPEED_STEP);
            } else {
                player2.change_speed_by(SPEED_STEP);
            }
        },
        PowerUpType::SlowDown => {
            if last_hit == 1 {
                player2.change_speed_by(-SPEED_STEP);
            } else {
                player1.change_speed_by(-SPEED_STEP);
            }
        },
    }
}

/// What every power-up can do.
pub trait PowerUp: View<V = PowerUpView> {
    /// The top-left corner of the power-up's square.
    fn position(&self) -> (position: &Position)
        ensures
            position.x == self@.x,
            position.y == self@.y,
    ;

    /// The width of the power-up's square.
    fn width(&self) -> (width: i64)
        ensures
            width == POWERUP_SIZE,
    {
        POWERUP_SIZE
    }

    /// The height of the power-up's square.
    fn height(&self) -> (height: i64)
        ensures
            height == POWERUP_SIZE,
    {
        POWERUP_SIZE
    }

    /// Whether the power-up can still be collected.
    fn collectable(&self) -> (collectable: bool)
        ensures
            collectable == self@.collectable,
    ;

    /// Says whether the power-up can still be collected.
    fn set_collectable(&mut self, collectable: bool)
        ensures
            final(self)@ == (PowerUpView { collectable, ..old(self)@ }),
    ;

    /// The kind of the power-up.
    fn powerup_type(&self) -> (kind: PowerUpType)
        ensures
            kind == self@.kind,
    ;

    /// Whether the ball touches the power-up.
    fn collided(&self, ball: &Ball) -> (hit: bool)
        ensures
            hit == self@.touched_by(ball@),
    {
        let position = self.position();
        let width: i64 = self.width();
        let height: i64 = self.height();
        overlaps(position, width, height, &ball.position, ball.radius)
    }

    /// Collects the power-up for a ball that paddle `last_hit` hit last: the
    /// power-up can no longer be collected, and the paddles change as
    /// `effect` says for its kind.
    fn collect(&mut self, last_hit: usize, player1: &mut Player, player2: &mut Player)
        requires
            effect_fits(old(self)@.kind, last_hit as int, old(player1)@, old(player2)@),
        ensures
            final(self)@ == old(self)@.collected(),
            (final(player1)@, final(player2)@) == effect(
                old(self)@.kind,
                last_hit as int,
                old(player1)@,
                old(player2)@,
            ),
    ;
}

/// A power-up that makes the paddle that hit the ball last taller.
#[derive(Clone, Copy, Debug, PartialEq, Eq)]
pub struct Enlarge {
    pub position: Position,
    pub collectable: bool,
}

impl View for Enlarge {
    type V = PowerUpView;

    open spec fn view(&self) -> PowerUpView {
        PowerUpView {
            kind: PowerUpType::Enlarge,
            x: self.position.x as int,
            y: self.position.y as int,
            collectable: self.collectable,
        }
    }
}

impl Enlarge {
    /// A collectable power-up whose top-left corner is (`x`, `y`).
    pub fn new(x: i64, y: i64) -> (powerup: Self)
        ensures
            powerup@ == (PowerUpView {
                kind: PowerUpType::Enlarge,
                x: x as int,
                y: y as int,
                collectable: true,
            }),
    {
        Enlarge { position: Position { x, y }, collectable: true }
    }
}

impl PowerUp for Enlarge {
    fn position(&self) -> (position: &Position) {
        &self.position
    }

    fn collectable(&self) -> (collectable: bool) {
        self.collectable
    }

    fn set_collectable(&mut self, collectable: bool) {
        self.collectable = collectable;
    }

    fn powerup_type(&self) -> (kind: PowerUpType) {
        PowerUpType::Enlarge
    }

    fn collect(&mut self, last_hit: usize, player1: &mut Player, player2: &mut Player) {
        self.set_collectable(false);
        apply_effect(PowerUpType::Enlarge, last_hit, player1, player2);
    }
}

/// A power-up that makes the paddle that did not hit the ball last shorter.
#[derive(Clone, Copy, Debug, PartialEq, Eq)]
pub struct Shrink {
    pub position: Position,
    pub collectable: bool,
}

impl View for Shrink {
    type V = PowerUpView;

    open spec fn view(&self) -> PowerUpView {
        PowerUpView {
            kind: PowerUpType::Shrink,
            x: self.position.x as int,
            y: self.position.y as int,
            collectable: self.collectable,
        }
    }
}

impl Shrink {
    /// A collectable power-up whose top-left corner is (`x`, `y`).
    pub fn new(x: i64, y: i64) -> (powerup: Self)
        ensures
            powerup@ == (PowerUpView {
                kind: PowerUpType::Shrink,
                x: x as int,
                y: y as int,
                collectable: true,
            }),
    {
        Shrink { position: Position { x, y }, collectable: true }
    }
}

impl PowerUp for Shrink {
    fn position(&self) -> (position: &Position) {
        &self.position
    }

    fn collectable(&self) -> (collectable: bool) {
        self.collectable
    }

    fn set_collectable(&mut self, collectable: bool) {
        self.collectable = collectable;
    }

    fn powerup_type(&self) -> (kind: PowerUpType) {
        PowerUpType::Shrink
    }

    fn collect(&mut self, last_hit: usize, player1: &mut Player, player2: &mut Player) {
        self.set_collectable(false);
        apply_effect(PowerUpType::Shrink, last_hit, player1, player2);
    }
}

/// A power-up that makes the paddle that hit the ball last faster.
#[derive(Clone, Copy, Debug, PartialEq, Eq)]
pub struct SpeedUp {
    pub position: Position,
    pub collectable: bool,
}

impl View for SpeedUp {
    type V = PowerUpView;

    open spec fn view(&self) -> PowerUpView {
        PowerUpView {
            kind: PowerUpType::SpeedUp,
            x: self.position.x as int,
            y: self.position.y as int,
            collectable: self.collectable,
        }
    }
}

impl SpeedUp {
    /// A collectable power-up whose top-left corner is (`x`, `y`).
    pub fn new(x: i64, y: i64) -> (powerup: Self)
        ensures
            powerup@ == (PowerUpView {
                kind: PowerUpType::SpeedUp,
                x: x as int,
                y: y as int,
                collectable: true,
            }),
    {
        SpeedUp { position: Position { x, y }, collectable: true }
    }
}

impl PowerUp for SpeedUp {
    fn position(&self) -> (position: &Position) {
        &self.position
    }

    fn collectable(&self) -> (collectable: bool) {
        self.collectable
    }

    fn set_collectable(&mut self, collectable: bool) {
        self.collectable = collectable;
    }

    fn powerup_type(&self) -> (kind: PowerUpType) {
        PowerUpType::SpeedUp
    }

    fn collect(&mut self, last_hit: usize, player1: &mut Player, player2: &mut Player) {
        self.set_collectable(false);
        apply_effect(PowerUpType::SpeedUp, last_hit, player1, player2);
    }
}

/// A power-up that makes the paddle that did not hit the ball last slower.
#[derive(Clone, Copy, Debug, PartialEq, Eq)]
pub struct SlowDown {
    pub position: Position,
    pub collectable: bool,
}

impl View for SlowDown {
    type V = PowerUpView;

    open spec fn view(&self) -> PowerUpView {
        PowerUpView {
            kind: PowerUpType::SlowDown,
            x: self.position.x as int,
            y: self.position.y as int,
            collectable: self.collectable,
        }
    }
}

impl SlowDown {
    /// A collectable power-up whose top-left corner is (`x`, `y`).
    pub fn new(x: i64, y: i64) -> (powerup: Self)
        ensures
            powerup@ == (PowerUpView {
                kind: PowerUpType::SlowDown,
                x: x as int,
                y: y as int,
                collectable: true,
            }),
    {
        SlowDown { position: Position { x, y }, collectable: true }
    }
}

impl PowerUp for SlowDown {
    fn position(&self) -> (position: &Position) {
        &self.position
    }

    fn collectable(&self) -> (collectable: bool) {
        self.collectable
    }

    fn set_collectable(&mut self, collectable: bool) {
        self.collectable = collectable;
    }

    fn powerup_type(&self) -> (kind: PowerUpType) {
        PowerUpType::SlowDown
    }

    fn collect(&mut self, last_hit: usize, player1: &mut Player, player2: &mut Player) {
        self.set_collectable(false);
        apply_effect(PowerUpType::SlowDown, last_hit, player1, player2);
    }
}

/// A power-up of any kind, as the match keeps it in its active set.
#[derive(Clone, Copy, Debug, PartialEq, Eq)]
pub enum ActivePowerUp {
    Enlarge(Enlarge),
    Shrink(Shrink),
    SpeedUp(SpeedUp),
    SlowDown(SlowDown),
}

impl View for ActivePowerUp {
    type V = PowerUpView;

    open spec fn view(&self) -> PowerUpView {
        match self {
            ActivePowerUp::Enlarge(p) => p@,
            ActivePowerUp::Shrink(p) => p@,
            ActivePowerUp::SpeedUp(p) => p@,
            ActivePowerUp::SlowDown(p) => p@,
        }
    }
}

impl ActivePowerUp {
    /// A collectable power-up of kind `kind` whose top-left corner is
    /// (`x`, `y`).
    pub fn new(kind: PowerUpType, x: i64, y: i64) -> (powerup: Self)
        ensures
            powerup@ == (PowerUpView { kind, x: x as int, y: y as int, collectable: true }),
    {
        match kind {
            PowerUpType::Enlarge => ActivePowerUp::Enlarge(Enlarge::new(x, y)),
            PowerUpType::Shrink => ActivePowerUp::Shrink(Shrink::new(x, y)),
            PowerUpType::SpeedUp => ActivePowerUp::SpeedUp(SpeedUp::new(x, y)),
            PowerUpType::SlowDown => ActivePowerUp::SlowDown(SlowDown::new(x, y)),
        }
    }
}

impl PowerUp for ActivePowerUp {
    fn position(&self) -> (position: &Position) {
        match self {
            ActivePowerUp::Enlarge(p) => p.position(),
            ActivePowerUp::Shrink(p) => p.position(),
            ActivePowerUp::SpeedUp(p) => p.position(),
            ActivePowerUp::SlowDown(p) => p.position(),
        }
    }

    fn collectable(&self) -> (collectable: bool) {
        match self {
            ActivePowerUp::Enlarge(p) => p.collectable(),
            ActivePowerUp::Shrink(p) => p.collectable(),
            ActivePowerUp::SpeedUp(p) => p.collectable(),
            ActivePowerUp::SlowDown(p) => p.collectable(),
        }
    }

    fn set_collectable(&mut self, collectable: bool) {
        match self {
            ActivePowerUp::Enlarge(p) => p.set_collectable(collectable),
            ActivePowerUp::Shrink(p) => p.set_collectable(collectable),
            ActivePowerUp::SpeedUp(p) => p.set_collectable(collectable),
            ActivePowerUp::SlowDown(p) => p.set_collectable(collectable),
        }
    }

    fn powerup_type(&self) -> (kind: PowerUpType) {
        match self {
            ActivePowerUp::Enlarge(p) => p.powerup_type(),
            ActivePowerUp::Shrink(p) => p.powerup_type(),
            ActivePowerUp::SpeedUp(p) => p.powerup_type(),
            ActivePowerUp::SlowDown(p) => p.powerup_type(),
        }
    }

    fn collect(&mut self, last_hit: usize, player1: &mut Player, player2: &mut Player) {
        match self {
            ActivePowerUp::Enlarge(p) => p.collect(last_hit, player1, player2),
            ActivePowerUp::Shrink(p) => p.collect(last_hit, player1, player2),
            ActivePowerUp::SpeedUp(p) => p.collect(last_hit, player1, player2),
            ActivePowerUp::SlowDown(p) => p.collect(last_hit, player1, player2),
        }
    }
}

} // verus!
