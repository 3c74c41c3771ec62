//! The match: two paddles, the ball, the active power-ups and the score, and
//! the frame that moves them all.

use vstd::prelude::*;
use crate::ball::{Ball, BallView};
use crate::constants::{
    BALL_RADIUS, HALF_TURN, HEIGHT, LANE_OFFSET, LIMIT, PADDLE_HEIGHT, PADDLE_SPEED, PADDLE_WIDTH,
    POWERUP_LIMIT, RESIZE_STEP, SERVE_GAP, SERVE_SPEED, SPAWN_INTERVAL, SPRITE_SPAWN_INSET,
    SPRITE_SPAWN_MARGIN, WIDTH, WIN_SCORE,
};
use crate::input::{Key, PressedKeys};
use crate::player::{lemma_offset_inside, Player, PlayerView};
use crate::position::Position;
use crate::powerup::{effect, ActivePowerUp, PowerUp, PowerUpType, PowerUpView};
use crate::spawn::random_power_up;
use crate::sweep::{
    kept, lemma_kept_split, lemma_taken_indices, lemma_taken_one, lemma_untouched_stretch,
    lemma_rewarded_keeps_lanes, lemma_views_push, lemma_views_remove, rewarded, taken_indices,
    views,
};
use crate::trig::{cosine, lemma_sine_bounded, sine};
use crate::units::{fits, lemma_scaled_bounded};

verus! {

/// The state of a match.
///
/// `kick_off` is the player who serves next and `winner` the player who has
/// won, each 1 or 2; `winner` means nothing before the match is over.
/// `score[0]` is the score of player 1.
#[derive(Debug, PartialEq, Eq)]
pub struct App {
    pub active_powerups: Vec<ActivePowerUp>,
    pub pressed_keys: PressedKeys,
    pub player1: Player,
    pub player2: Player,
    pub kick_off: usize,
    pub ball: Ball,
    pub game_over: bool,
    pub score: [u32; 2],
    pub winner: usize,
    pub time_to_spawn_power_up: u64,
}

/// The state of a match with unbounded numbers.
#[verifier::ext_equal]
pub struct AppView {
    pub powerups: Seq<PowerUpView>,
    pub keys: Set<Key>,
    pub player1: PlayerView,
    pub player2: PlayerView,
    pub kick_off: int,
    pub ball: BallView,
    pub game_over: bool,
    pub score: (int, int),
    pub winner: int,
    pub time_to_spawn: int,
}

impl View for App {
    type V = AppView;

    open spec fn view(&self) -> AppView {
        AppView {
            powerups: views(self.active_powerups@),
            keys: self.pressed_keys@,
            player1: self.player1@,
            player2: self.player2@,
            kick_off: self.kick_off as int,
            ball: self.ball@,
            game_over: self.game_over,
            score: (self.score@[0] as int, self.score@[1] as int),
            winner: self.winner as int,
            time_to_spawn: self.time_to_spawn_power_up as int,
        }
    }
}

impl AppView {
    /// The state in which every match starts: the paddles centred in their
    /// lanes, the ball in front of paddle 1 and about to fly to the right, no
    /// power-up, no key held, no point scored.
    pub open spec fn initial() -> AppView {
        AppView {
            powerups: Seq::empty(),
            keys: Set::empty(),
            player1: PlayerView {
                height: PADDLE_HEIGHT as int,
                width: PADDLE_WIDTH as int,
                speed: PADDLE_SPEED as int,
                x: LANE_OFFSET as int,
                y: HEIGHT / 2 - PADDLE_HEIGHT / 2,
            },
            player2: PlayerView {
                height: PADDLE_HEIGHT as int,
                width: PADDLE_WIDTH as int,
                speed: PADDLE_SPEED as int,
                x: WIDTH - LANE_OFFSET - PADDLE_WIDTH,
                y: HEIGHT / 2 - PADDLE_HEIGHT / 2,
            },
            kick_off: 1,
            ball: BallView {
                radius: BALL_RADIUS as int,
                speed: SERVE_SPEED as int,
                angle: 0,
                x: LANE_OFFSET + PADDLE_WIDTH + SERVE_GAP,
                y: HEIGHT / 2,
                last_hit: 1,
            },
            game_over: false,
            score: (0, 0),
            winner: 0,
            time_to_spawn: SPAWN_INTERVAL as int,
        }
    }

    /// Whether paddle 1 stands far enough to the left of paddle 2 for a ball
    /// to be served between them, whoever serves.
    pub open spec fn lanes_apart(self) -> bool {
        self.player1.x + PADDLE_WIDTH + SERVE_GAP < self.player2.x
    }

    /// What holds of a match between any two frames.
    ///
    /// One of the two players serves next. Paddle 1 stands far enough to the
    /// left of paddle 2 for a ball to be served between them. No score is past
    /// `WIN_SCORE`, and at most one has reached it. The match is over exactly
    /// when a score has reached `WIN_SCORE`, and then the winner is the player
    /// with that score.
    pub open spec fn inv(self) -> bool {
        &&& self.kick_off == 1 || self.kick_off == 2
        &&& self.lanes_apart()
        &&& 0 <= self.score.0 <= WIN_SCORE
        &&& 0 <= self.score.1 <= WIN_SCORE
        &&& !(self.score.0 == WIN_SCORE && self.score.1 == WIN_SCORE)
        &&& self.game_over <==> (self.score.0 == WIN_SCORE || self.score.1 == WIN_SCORE)
        &&& self.game_over ==> self.winner == (if self.score.0 == WIN_SCORE {
            1int
        } else {
            2int
        })
    }

    /// Whether the paddles and the ball have no number larger in magnitude
    /// than `bound`.
    pub open spec fn roomy(self, bound: int) -> bool {
        &&& self.player1.bounded(bound)
        &&& self.player2.bounded(bound)
        &&& self.ball.bounded(bound)
    }

    /// Whether a frame can be simulated without leaving the range of the
    /// machine's numbers: no number of the paddles and the ball is larger in
    /// magnitude than `LIMIT`, and there are at most `POWERUP_LIMIT` active
    /// power-ups.
    pub open spec fn within_limits(self) -> bool {
        &&& self.roomy(LIMIT as int)
        &&& self.powerups.len() <= POWERUP_LIMIT
    }

    /// How far the held keys move paddle `player` down in one frame.
    pub open spec fn travel(self, player: int) -> int {
        if player == 1 {
            (if self.keys.contains(Key::S) {
                self.player1.speed
            } else {
                0
            }) - (if self.keys.contains(Key::W) {
                self.player1.speed
            } else {
                0
            })
        } else {
            (if self.keys.contains(Key::Down) {
                self.player2.speed
            } else {
                0
            }) - (if self.keys.contains(Key::Up) {
                self.player2.speed
            } else {
                0
            })
        }
    }

    /// Whether the player who serves next holds one of their keys.
    pub open spec fn serving(self) -> bool {
        exists|key: Key| self.keys.contains(key) && #[trigger] key.owner() == self.kick_off
    }

    /// The match after the held keys have moved the paddles, each corrected
    /// once toward the arena. A key of the player who serves next also gives
    /// the ball its serve speed.
    pub open spec fn steered(self) -> AppView {
        AppView {
            player1: self.player1.moved(self.travel(1)).nudged(),
            player2: self.player2.moved(self.travel(2)).nudged(),
            ball: if self.serving() {
                BallView { speed: SERVE_SPEED as int, ..self.ball }
            } else {
                self.ball
            },
            ..self
        }
    }

    /// The match after the ball has flown for one frame and met the walls.
    pub open spec fn flown(self) -> AppView {
        AppView { ball: self.ball.advanced().bounced(), ..self }
    }

    /// The match after the paddles have met the ball: paddle 1 first, then
    /// paddle 2, whose deflection stands where both touch the ball.
    pub open spec fn struck(self) -> AppView {
        let first = if self.player1.touched_by(self.ball) {
            self.ball.deflected(1, self.player1.offset_of(self.ball.y))
        } else {
            self.ball
        };
        let second = if self.player2.touched_by(first) {
            first.deflected(2, self.player2.offset_of(first.y))
        } else {
            first
        };
        AppView { ball: second, ..self }
    }

    /// The match after `scoring_player` has scored a point.
    ///
    /// The other player serves next. Both paddles are as at the start of a
    /// round, the ball rests `SERVE_GAP` in front of the server's paddle and
    /// points at the scorer, and no power-up is left.
    pub open spec fn scored(self, scoring_player: int) -> AppView {
        let server = 3 - scoring_player;
        let player1 = self.player1.restored();
        let player2 = self.player2.restored();
        AppView {
            powerups: Seq::empty(),
            player1,
            player2,
            kick_off: server,
            ball: if server == 1 {
                self.ball.placed(player1.x + player1.width + SERVE_GAP, 0)
            } else {
                self.ball.placed(player2.x - SERVE_GAP, HALF_TURN as int)
            },
            score: if scoring_player == 1 {
                (self.score.0 + 1, self.score.1)
            } else {
                (self.score.0, self.score.1 + 1)
            },
            ..self
        }
    }

    /// The match after the points of this frame: a ball to the left of
    /// paddle 1 is a point for player 2, and a ball that is then to the right
    /// of paddle 2 is a point for player 1.
    pub open spec fn refereed(self) -> AppView {
        let first = if self.ball.x < self.player1.x {
            self.scored(2)
        } else {
            self
        };
        if first.ball.x > first.player2.x {
            first.scored(1)
        } else {
            first
        }
    }

    /// The match after the scores have been looked at: the first player found
    /// with `WIN_SCORE` points has won, and the match is over.
    pub open spec fn judged(self) -> AppView {
        if self.score.0 == WIN_SCORE {
            AppView { winner: 1, game_over: true, ..self }
        } else if self.score.1 == WIN_SCORE {
            AppView { winner: 2, game_over: true, ..self }
        } else {
            self
        }
    }

    /// Whether a power-up is spawned in a frame that lasts `elapsed`.
    pub open spec fn spawn_due(self, elapsed: int) -> bool {
        self.time_to_spawn <= elapsed
    }

    /// The match after `elapsed` has passed on the spawn timer. Where the
    /// timer runs out, `spawn` joins the active power-ups as their last and
    /// the timer starts again at `SPAWN_INTERVAL`.
    pub open spec fn aged(self, elapsed: int, spawn: PowerUpView) -> AppView {
        if self.spawn_due(elapsed) {
            AppView {
                powerups: self.powerups.push(spawn),
                time_to_spawn: SPAWN_INTERVAL as int,
                ..self
            }
        } else {
            AppView { time_to_spawn: self.time_to_spawn - elapsed, ..self }
        }
    }

    /// The match after the ball has collected what it touches: the power-ups
    /// it takes are gone, and the paddles have changed as each of them says.
    pub open spec fn swept(self) -> AppView {
        let paddles = rewarded(self.powerups, self.ball, self.player1, self.player2);
        AppView {
            powerups: kept(self.powerups, self.ball),
            player1: paddles.0,
            player2: paddles.1,
            ..self
        }
    }

    /// The match one frame later, where the frame lasts `elapsed` and `spawn`
    /// is the power-up to spawn if one is due. A match that is over stays as
    /// it is.
    pub open spec fn step(self, elapsed: int, spawn: PowerUpView) -> AppView {
        if self.game_over {
            self
        } else {
            self.steered().flown().struck().refereed().judged().aged(elapsed, spawn).swept()
        }
    }
}

/// A frame keeps what holds of a match between frames: from a state that
/// satisfies `inv`, `step` leads to one that does.
pub proof fn lemma_step_keeps_inv(state: AppView, elapsed: int, spawn: PowerUpView)
    requires
        state.inv(),
    ensures
        state.step(elapsed, spawn).inv(),
{
    if !state.game_over {
        let aged = state.steered().flown().struck().refereed().judged().aged(elapsed, spawn);
        lemma_rewarded_keeps_lanes(aged.powerups, aged.ball, aged.player1, aged.player2);
    }
}

/// No ball is a point for both players: a ball is to the left of paddle 1, to
/// the right of paddle 2 or neither, and a frame scores the one point that
/// goes with that, or none.
pub proof fn lemma_scoring_is_exclusive(state: AppView)
    requires
        state.lanes_apart(),
    ensures
        !(state.ball.x < state.player1.x && state.ball.x > state.player2.x),
        state.ball.x < state.player1.x ==> state.refereed() == state.scored(2),
        state.ball.x > state.player2.x ==> state.refereed() == state.scored(1),
        state.player1.x <= state.ball.x <= state.player2.x ==> state.refereed() == state,
{
}

/// After a point the ball rests strictly between the paddles. The player who
/// did not score serves: player 1 to the right, at an angle of zero, and
/// player 2 to the left, at half a turn.
pub proof fn lemma_serve_between_paddles(state: AppView, scoring_player: int)
    requires
        state.lanes_apart(),
        scoring_player == 1 || scoring_player == 2,
    ensures
        ({
            let next = state.scored(scoring_player);
            &&& next.kick_off == 3 - scoring_player
            &&& next.player1.x < next.ball.x < next.player2.x
            &&& next.kick_off == 1 ==> next.ball.angle == 0 && next.ball.x == next.player1.x
                + next.player1.width + SERVE_GAP
            &&& next.kick_off == 2 ==> next.ball.angle == HALF_TURN && next.ball.x
                == next.player2.x - SERVE_GAP
            &&& next.ball.speed == 0
            &&& next.powerups.len() == 0
        }),
{
}

/// When the spawn timer runs out in a frame, exactly one power-up joins the
/// active set and the timer starts again at `SPAWN_INTERVAL`. In every other
/// frame the active set stays and the timer runs on.
pub proof fn lemma_spawn_when_due(state: AppView, elapsed: int, spawn: PowerUpView)
    ensures
        state.spawn_due(elapsed) ==> {
            let next = state.aged(elapsed, spawn);
            &&& next.powerups == state.powerups.push(spawn)
            &&& next.powerups.len() == state.powerups.len() + 1
            &&& next.time_to_spawn == SPAWN_INTERVAL
        },
        !state.spawn_due(elapsed) ==> {
            let next = state.aged(elapsed, spawn);
            &&& next.powerups == state.powerups
            &&& next.time_to_spawn == state.time_to_spawn - elapsed
        },
{
}

/// A match that is over stays as it is: no frame changes the score, the
/// winner or anything else.
pub proof fn lemma_game_over_is_final(state: AppView, elapsed: int, spawn: PowerUpView)
    requires
        state.game_over,
    ensures
        state.step(elapsed, spawn) == state,
{
}

/// Whether `value` is no larger in magnitude than `LIMIT`.
fn in_range(value: i64) -> (inside: bool)
    ensures
        inside == (-LIMIT <= value <= LIMIT),
{
    -LIMIT <= value && value <= LIMIT
}

/// Whether no number of `player` is larger in magnitude than `LIMIT`.
fn within(player: &Player) -> (inside: bool)
    ensures
        inside == player@.bounded(LIMIT as int),
{
    in_range(player.height) && in_range(player.width) && in_range(player.speed) && in_range(
        player.position.x,
    ) && in_range(player.position.y)
}

/// Moves a paddle one step up while `up` is held and one step down while
/// `down` is held, and corrects it once toward the arena.
fn drive(player: &mut Player, up: bool, down: bool)
    requires
        old(player)@.bounded(LIMIT as int),
    ensures
        final(player)@ == old(player)@.moved(
            (if down {
                old(player)@.speed
            } else {
                0
            }) - (if up {
                old(player)@.speed
            } else {
                0
            }),
        ).nudged(),
        final(player)@.bounded(3 * LIMIT),
{
    if up {
        let speed: i64 = player.speed;
        player.move_by(-speed);
    }
    if down {
        let speed: i64 = player.speed;
        player.move_by(speed);
    }
    player.prevent_out_of_bounds();
}

impl App {
    /// A match in the state in which every match starts.
    pub fn new() -> (app: Self)
        ensures
            app@ == AppView::initial(),
            app@.inv(),
            app@.within_limits(),
    {
        let player1 = Player {
            height: PADDLE_HEIGHT,
            width: PADDLE_WIDTH,
            speed: PADDLE_SPEED,
            position: Position { x: LANE_OFFSET, y: HEIGHT / 2 - PADDLE_HEIGHT / 2 },
        };
        let player2 = Player {
            height: PADDLE_HEIGHT,
            width: PADDLE_WIDTH,
            speed: PADDLE_SPEED,
            position: Position {
                x: WIDTH - LANE_OFFSET - PADDLE_WIDTH,
                y: HEIGHT / 2 - PADDLE_HEIGHT / 2,
            },
        };
        let ball = Ball {
            radius: BALL_RADIUS,
            speed: SERVE_SPEED,
            position: Position {
                x: player1.position.x + player1.width + SERVE_GAP,
                y: HEIGHT / 2,
            },
            angle: 0,
            last_hit: 1,
        };
        let app = App {
            active_powerups: Vec::new(),
            pressed_keys: PressedKeys::new(),
            player1,
            player2,
            kick_off: 1,
            ball,
            game_over: false,
            score: [0, 0],
            winner: 0,
            time_to_spawn_power_up: SPAWN_INTERVAL,
        };
        assert(app@.powerups =~= Seq::empty());
        app
    }

    /// Whether a frame can be simulated from this state: what holds of a match
    /// between frames holds of it, and it lies within the limits.
    pub fn ready(&self) -> (ready: bool)
        ensures
            ready == (self@.inv() && self@.within_limits()),
    {
        let first: u32 = self.score[0];
        let second: u32 = self.score[1];
        let servers = self.kick_off == 1 || self.kick_off == 2;
        let left: i128 = self.player1.position.x as i128;
        let right: i128 = self.player2.position.x as i128;
        let lanes = left + (PADDLE_WIDTH as i128) + (SERVE_GAP as i128) < right;
        let scores = first <= WIN_SCORE && second <= WIN_SCORE && !(first == WIN_SCORE && second
            == WIN_SCORE);
        let over = self.game_over == (first == WIN_SCORE || second == WIN_SCORE);
        let won = !self.game_over || self.winner == (if first == WIN_SCORE {
            1
        } else {
            2
        });
        let room = within(&self.player1) && within(&self.player2) && in_range(self.ball.radius)
            && in_range(self.ball.speed) && in_range(self.ball.angle) && in_range(
            self.ball.position.x,
        ) && in_range(self.ball.position.y) && self.active_powerups.len() <= POWERUP_LIMIT;
        servers && lanes && scores && over && won && room
    }

    /// Notes that `key` is held from now on.
    pub fn key_press(&mut self, key: Key)
        ensures
            final(self)@ == (AppView { keys: old(self)@.keys.insert(key), ..old(self)@ }),
    {
        self.pressed_keys.insert(key);
    }

    /// Notes that `key` is no longer held.
    pub fn key_release(&mut self, key: Key)
        ensures
            final(self)@ == (AppView { keys: old(self)@.keys.remove(key), ..old(self)@ }),
    {
        self.pressed_keys.remove(key);
    }

    /// Gives `scoring_player` a point and sets the next round up: the other
    /// player serves, both paddles are as at the start of a round, the ball
    /// rests in front of the server's paddle and no power-up is left.
    ///
    /// Where paddle 1 stands far enough to the left of paddle 2, the ball
    /// rests strictly between them. It points to the right, at an angle of
    /// zero, when player 1 serves, and to the left, at half a turn, when
    /// player 2 does.
    pub fn scored(&mut self, scoring_player: usize)
        requires
            scoring_player == 1 || scoring_player == 2,
            old(self)@.scored(scoring_player as int).score.0 <= u32::MAX,
            old(self)@.scored(scoring_player as int).score.1 <= u32::MAX,
            fits(old(self)@.scored(scoring_player as int).ball.x),
        ensures
            final(self)@ == old(self)@.scored(scoring_player as int),
            final(self).kick_off == 3 - scoring_player,
            final(self).ball.angle == (if final(self).kick_off == 1 {
                0
            } else {
                HALF_TURN
            }),
            old(self)@.lanes_apart() ==> final(self).player1.position.x
                < final(self).ball.position.x < final(self).player2.position.x,
    {
        self.ball.speed = 0;
        if scoring_player == 1 {
            self.score = [self.score[0] + 1, self.score[1]];
        } else {
            self.score = [self.score[0], self.score[1] + 1];
        }
        self.kick_off = 3 - scoring_player;
        self.player1.reset();
        self.player2.reset();
        if self.kick_off == 1 {
            self.ball.position.x = self.player1.position.x + self.player1.width + SERVE_GAP;
            self.ball.angle = 0;
        } else {
            self.ball.position.x = self.player2.position.x - SERVE_GAP;
            self.ball.angle = HALF_TURN;
        }
        self.ball.position.y = HEIGHT / 2;
        self.active_powerups.clear();
        assert(self@.powerups =~= Seq::empty());
    }

    /// Whether the player who serves next holds one of their keys.
    fn serving(&self) -> (held: bool)
        ensures
            held == self@.serving(),
    {
        let keys = &self.pressed_keys;
        let first = self.kick_off == Key::W.player() && (keys.contains(Key::W) || keys.contains(
            Key::S,
        ));
        let second = self.kick_off == Key::Up.player() && (keys.contains(Key::Up) || keys.contains(
            Key::Down,
        ));
        let held = first || second;
        proof {
            if held {
                let key = if keys@.contains(Key::W) && Key::W.owner() == self.kick_off {
                    Key::W
                } else if keys@.contains(Key::S) && Key::S.owner() == self.kick_off {
                    Key::S
                } else if keys@.contains(Key::Up) && Key::Up.owner() == self.kick_off {
                    Key::Up
                } else {
                    Key::Down
                };
                assert(self@.keys.contains(key) && key.owner() == self@.kick_off);
            } else {
                assert forall|key: Key| self@.keys.contains(key) implies #[trigger] key.owner()
                    != self@.kick_off by {
                    match key {
                        Key::W => {},
                        Key::S => {},
                        Key::Up => {},
                        Key::Down => {},
                    }
                }
            }
        }
        held
    }

    /// Moves the paddles as the held keys say, lets the server's keys start
    /// the ball, and corrects each paddle once toward the arena.
    fn steer(&mut self)
        requires
            old(self)@.roomy(LIMIT as int),
        ensures
            final(self)@ == old(self)@.steered(),
            final(self)@.player1.bounded(3 * LIMIT),
            final(self)@.player2.bounded(3 * LIMIT),
            final(self)@.ball.bounded(LIMIT as int),
    {
        let serving = self.serving();
        let keys = self.pressed_keys;
        drive(&mut self.player1, keys.contains(Key::W), keys.contains(Key::S));
        drive(&mut self.player2, keys.contains(Key::Up), keys.contains(Key::Down));
        if serving {
            self.ball.speed = SERVE_SPEED;
        }
    }

    /// Lets the ball fly for one frame and meet the walls.
    fn fly(&mut self)
        requires
            old(self)@.ball.bounded(LIMIT as int),
        ensures
            final(self)@ == old(self)@.flown(),
            final(self)@.ball.bounded(2 * LIMIT),
    {
        proof {
            let ball = self@.ball;
            lemma_sine_bounded(ball.angle);
            lemma_scaled_bounded(cosine(ball.angle), ball.speed);
            lemma_scaled_bounded(sine(ball.angle), ball.speed);
        }
        self.ball.advance();
        self.ball.check_and_handle_vertical_collision();
    }

    /// Lets each paddle that the ball touches send it away.
    fn strike(&mut self)
        requires
            old(self)@.ball.bounded(2 * LIMIT),
            old(self)@.player1.bounded(3 * LIMIT),
            old(self)@.player2.bounded(3 * LIMIT),
        ensures
            final(self)@ == old(self)@.struck(),
            final(self)@.ball.bounded(2 * LIMIT),
    {
        if self.player1.collided(&self.ball) {
            proof {
                lemma_offset_inside(self@.player1, self@.ball.y);
            }
            let offset: i64 = self.player1.collision_point(&self.ball);
            self.ball.deflect(1, offset);
        }
        if self.player2.collided(&self.ball) {
            proof {
                lemma_offset_inside(self@.player2, self@.ball.y);
            }
            let offset: i64 = self.player2.collision_point(&self.ball);
            self.ball.deflect(2, offset);
        }
    }

    /// Scores the points of this frame.
    fn referee(&mut self)
        requires
            old(self)@.inv(),
            !old(self)@.game_over,
            old(self)@.ball.bounded(2 * LIMIT),
            old(self)@.player1.bounded(3 * LIMIT),
            old(self)@.player2.bounded(3 * LIMIT),
        ensures
            final(self)@ == old(self)@.refereed(),
            final(self)@.roomy(3 * LIMIT),
    {
        if self.ball.position.x < self.player1.position.x {
            self.scored(2);
        }
        if self.ball.position.x > self.player2.position.x {
            self.scored(1);
        }
    }

    /// Ends the match when a player has `WIN_SCORE` points.
    fn judge(&mut self)
        ensures
            final(self)@ == old(self)@.judged(),
    {
        if self.score[0] == WIN_SCORE {
            self.winner = 1;
            self.game_over = true;
        } else if self.score[1] == WIN_SCORE {
            self.winner = 2;
            self.game_over = true;
        }
    }

    /// Lets `elapsed` pass on the spawn timer and says whether a power-up is
    /// due. When one is, the timer starts again at `SPAWN_INTERVAL`.
    fn age(&mut self, elapsed: u64) -> (due: bool)
        ensures
            due == old(self)@.spawn_due(elapsed as int),
            final(self)@ == (AppView {
                time_to_spawn: if due {
                    SPAWN_INTERVAL as int
                } else {
                    old(self)@.time_to_spawn - elapsed
                },
                ..old(self)@
            }),
    {
        if self.time_to_spawn_power_up <= elapsed {
            self.time_to_spawn_power_up = SPAWN_INTERVAL;
            true
        } else {
            self.time_to_spawn_power_up = self.time_to_spawn_power_up - elapsed;
            false
        }
    }

    /// The positions, in rising order, of the active power-ups that the ball
    /// takes: those that can be collected and that it touches.
    pub fn collected_indices(&self) -> (indices: Vec<usize>)
        ensures
            indices@.len() == taken_indices(self@.powerups, self@.ball).len(),
            forall|k: int|
                0 <= k < indices@.len() ==> indices@[k] as int == #[trigger] taken_indices(
                    self@.powerups,
                    self@.ball,
                )[k],
    {
        let ghost all = self@.powerups;
        let ghost ball = self@.ball;
        let mut indices: Vec<usize> = Vec::new();
        let count: usize = self.active_powerups.len();
        let mut i: usize = 0;
        assert(all.subrange(0, 0) =~= Seq::<PowerUpView>::empty());
        while i < count
            invariant
                i <= count,
                count == self.active_powerups.len(),
                all == self@.powerups,
                ball == self@.ball,
                indices@.len() == taken_indices(all.subrange(0, i as int), ball).len(),
                forall|k: int|
                    0 <= k < indices@.len() ==> indices@[k] as int == #[trigger] taken_indices(
                        all.subrange(0, i as int),
                        ball,
                    )[k],
            decreases count - i,
        {
            let powerup = &self.active_powerups[i];
            proof {
                assert(all.subrange(0, i + 1).drop_last() =~= all.subrange(0, i as int));
                assert(all.subrange(0, i + 1).last() == powerup@);
            }
            if powerup.collectable() && powerup.collided(&self.ball) {
                indices.push(i);
            }
            i = i + 1;
        }
        assert(all.subrange(0, count as int) =~= all);
        indices
    }

    /// Collects every active power-up that the ball takes: each of them
    /// changes the paddles and leaves the active set, the last one first.
    fn collect_power_ups(&mut self)
        requires
            old(self)@.roomy(3 * LIMIT),
            old(self)@.powerups.len() <= POWERUP_LIMIT + 1,
        ensures
            final(self)@ == old(self)@.swept(),
    {
        let ghost all = self@.powerups;
        let ghost ball = self@.ball;
        let ghost first1 = self@.player1;
        let ghost first2 = self@.player2;
        let ghost total = all.len() as int;
        let indices = self.collected_indices();
        let ghost taken = taken_indices(all, ball);
        let ghost found = indices@.len() as int;
        proof {
            lemma_taken_indices(all, ball);
            let cut = if found == 0 {
                0
            } else {
                taken[found - 1] + 1
            };
            assert forall|i: int| cut <= i < total implies !(#[trigger] all[i]).taken_by(ball) by {
                if all[i].taken_by(ball) {
                    let k = choose|k: int| 0 <= k < taken.len() && taken[k] == i;
                    if k < found - 1 {
                        assert(taken[k] < taken[found - 1]);
                    }
                }
            }
            lemma_untouched_stretch(all, ball, cut, total, first1, first2);
            assert(all.subrange(0, total) =~= all);
            assert(all =~= all.subrange(0, cut) + all.subrange(cut, total));
        }
        let mut left: usize = indices.len();
        while left > 0
            invariant
                left <= found,
                found == indices@.len(),
                found == taken.len(),
                found <= total,
                total == all.len(),
                total <= POWERUP_LIMIT + 1,
                taken == taken_indices(all, ball),
                forall|k: int| 0 <= k < found ==> indices@[k] as int == #[trigger] taken[k],
                forall|k: int|
                    0 <= k < found ==> {
                        let i = #[trigger] taken[k];
                        0 <= i < total && all[i].taken_by(ball)
                    },
                forall|j: int, k: int|
                    0 <= j < k < found ==> #[trigger] taken[j] < #[trigger] taken[k],
                forall|i: int|
                    0 <= i < total && #[trigger] all[i].taken_by(ball) ==> taken.contains(i),
                self@.powerups == ({
                    let cut = if left == 0 {
                        0
                    } else {
                        taken[left - 1] + 1
                    };
                    all.subrange(0, cut) + kept(all.subrange(cut, total), ball)
                }),
                rewarded(
                    all.subrange(
                        0,
                        if left == 0 {
                            0
                        } else {
                            taken[left - 1] + 1
                        },
                    ),
                    ball,
                    self@.player1,
                    self@.player2,
                ) == rewarded(all, ball, first1, first2),
                self@.player1.bounded(3 * LIMIT + (found - left) * RESIZE_STEP),
                self@.player2.bounded(3 * LIMIT + (found - left) * RESIZE_STEP),
                self@ == (AppView {
                    powerups: self@.powerups,
                    player1: self@.player1,
                    player2: self@.player2,
                    ..old(self)@
                }),
                ball == old(self)@.ball,
            decreases left,
        {
            let index: usize = indices[left - 1];
            let ghost i = index as int;
            let ghost cut = i + 1;
            let ghost next = if left == 1 {
                0
            } else {
                taken[left - 2] + 1
            };
            let ghost before1 = self@.player1;
            let ghost before2 = self@.player2;
            proof {
                assert(taken[left - 1] == i);
                assert(all.subrange(0, cut).len() == cut);
                assert(self@.powerups.len() >= cut);
                assert(self@.powerups.len() == self.active_powerups@.len());
                assert(self@.powerups[i] == all.subrange(0, cut)[i]);
                lemma_views_remove(self.active_powerups@, i);
                if left > 1 {
                    assert(taken[left - 2] < taken[left - 1]);
                }
                assert forall|j: int| next <= j < i implies !(#[trigger] all[j]).taken_by(
                    ball,
                ) by {
                    if all[j].taken_by(ball) {
                        let k = choose|k: int| 0 <= k < taken.len() && taken[k] == j;
                        if k < left - 1 {
                            if k < left - 2 {
                                assert(taken[k] < taken[left - 2]);
                            }
                        } else if k > left - 1 {
                            assert(taken[left - 1] < taken[k]);
                        }
                    }
                }
                lemma_untouched_stretch(all, ball, next, i, before1, before2);
            }
            let mut powerup = self.active_powerups.remove(index);
            proof {
                assert(powerup@ == all[i]);
                lemma_taken_one(all, ball, i, before1, before2);
                let after = effect(all[i].kind, ball.last_hit, before1, before2);
                lemma_untouched_stretch(all, ball, next, i, after.0, after.1);
                lemma_kept_split(all, ball, next, i);
                lemma_kept_split(all, ball, i, cut);
                assert(self@.powerups =~= all.subrange(0, next) + kept(
                    all.subrange(next, total),
                    ball,
                ));
            }
            powerup.collect(self.ball.last_hit, &mut self.player1, &mut self.player2);
            left = left - 1;
        }
        proof {
            assert(all.subrange(0, 0) =~= Seq::<PowerUpView>::empty());
            assert(all.subrange(0, total) =~= all);
            assert(self@.powerups =~= kept(all, ball));
        }
    }

    /// Plays the part of a frame that depends on nothing but the match: the
    /// paddles, the ball, the points and the end of the match.
    fn play(&mut self)
        requires
            old(self)@.inv(),
            old(self)@.within_limits(),
            !old(self)@.game_over,
        ensures
            final(self)@ == old(self)@.steered().flown().struck().refereed().judged(),
            final(self)@.roomy(3 * LIMIT),
            final(self)@.powerups.len() <= POWERUP_LIMIT,
    {
        self.steer();
        self.fly();
        self.strike();
        self.referee();
        self.judge();
    }

    /// Spawns a power-up of a random kind at a random place of the spawn
    /// region, as the last of the active power-ups.
    pub fn spawn_power_up(&mut self)
        ensures
            exists|spawn: PowerUpView| #[trigger]
                spawn.in_spawn_region() && final(self)@ == (AppView {
                    powerups: old(self)@.powerups.push(spawn),
                    ..old(self)@
                }),
    {
        let powerup = random_power_up();
        proof {
            lemma_views_push(self.active_powerups@, powerup);
        }
        self.active_powerups.push(powerup);
        assert(powerup@.in_spawn_region() && self@ == (AppView {
            powerups: old(self)@.powerups.push(powerup@),
            ..old(self)@
        }));
    }

    /// Simulates one frame that lasts `elapsed`, with `spawn` as the power-up
    /// to spawn if one is due in this frame.
    ///
    /// In order: the held keys move the paddles and may start the ball; the
    /// ball flies and meets the walls and the paddles; a ball past a paddle is
    /// a point; `WIN_SCORE` points end the match; the spawn timer runs; the
    /// ball collects the power-ups it touches. A match that is over stays as
    /// it is.
    pub fn update_with(&mut self, elapsed: u64, spawn: ActivePowerUp)
        requires
            old(self)@.inv(),
            old(self)@.within_limits(),
        ensures
            final(self)@ == old(self)@.step(elapsed as int, spawn@),
            final(self)@.inv(),
            old(self).game_over ==> final(self)@ == old(self)@,
    {
        proof {
            lemma_step_keeps_inv(self@, elapsed as int, spawn@);
        }
        if self.game_over {
            return ;
        }
        self.play();
        if self.age(elapsed) {
            proof {
                lemma_views_push(self.active_powerups@, spawn);
            }
            self.active_powerups.push(spawn);
        }
        self.collect_power_ups();
    }

    /// Simulates one frame that lasts `elapsed`. If a power-up is due in this
    /// frame, its kind and place are drawn at random.
    ///
    /// The frame is the one that `update_with` simulates for some power-up of
    /// the spawn region.
    pub fn update(&mut self, elapsed: u64)
        requires
            old(self)@.inv(),
            old(self)@.within_limits(),
        ensures
            exists|spawn: PowerUpView| #[trigger]
                spawn.in_spawn_region() && final(self)@ == old(self)@.step(elapsed as int, spawn),
            final(self)@.inv(),
            old(self).game_over ==> final(self)@ == old(self)@,
    {
        let ghost any = PowerUpView {
            kind: PowerUpType::Enlarge,
            x: SPRITE_SPAWN_MARGIN as int,
            y: SPRITE_SPAWN_INSET as int,
            collectable: true,
        };
        if self.game_over {
            assert(any.in_spawn_region() && self@ == old(self)@.step(elapsed as int, any));
            return ;
        }
        self.play();
        let ghost played = self@;
        let ghost spawned = any;
        if self.age(elapsed) {
            let ghost waiting = self@;
            self.spawn_power_up();
            proof {
                spawned = choose|spawn: PowerUpView| #[trigger]
                    spawn.in_spawn_region() && self@ == (AppView {
                        powerups: waiting.powerups.push(spawn),
                        ..waiting
                    });
            }
        }
        assert(self@ == played.aged(elapsed as int, spawned));
        self.collect_power_ups();
        proof {
            lemma_step_keeps_inv(old(self)@, elapsed as int, spawned);
            assert(spawned.in_spawn_region() && self@ == old(self)@.step(elapsed as int, spawned));
        }
    }

    /// Simulates one frame as `update` does where the match is ready for one,
    /// and says whether it was. A match that is not ready stays as it is.
    pub fn try_update(&mut self, elapsed: u64) -> (played: bool)
        ensures
            played == (old(self)@.inv() && old(self)@.within_limits()),
            played ==> final(self)@.inv() && exists|spawn: PowerUpView| #[trigger]
                spawn.in_spawn_region() && final(self)@ == old(self)@.step(elapsed as int, spawn),
            !played ==> final(self)@ == old(self)@,
    {
        if self.ready() {
            self.update(elapsed);
            true
        } else {
            false
        }
    }
}

} // verus!
