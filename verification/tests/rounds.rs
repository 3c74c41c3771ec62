use pong::ball::Ball;
use pong::game::App;
use pong::input::Key;
use pong::player::Player;
use pong::position::Position;
use pong::powerup::{ActivePowerUp, PowerUpType};

fn far_away() -> ActivePowerUp {
    ActivePowerUp::new(PowerUpType::SlowDown, 400_000, 100_000)
}

fn start_paddle(x: i64) -> Player {
    Player { height: 80_000, width: 16_000, speed: 5_000, position: Position { x, y: 360_000 } }
}

/// Puts the ball behind the paddle of `loser` and plays one frame.
fn lose_a_point(app: &mut App, loser: usize) {
    if loser == 1 {
        app.ball.position.x = app.player1.position.x - 1_000;
        app.ball.angle = 180_000;
    } else {
        app.ball.position.x = app.player2.position.x + 1_000;
        app.ball.angle = 0;
    }
    app.ball.speed = 3_000;
    app.update_with(16, far_away());
}

#[test]
fn a_ball_behind_paddle_one_is_a_point_for_player_two() {
    let mut app = App::new();
    app.player1.height = 120_000;
    app.player1.speed = 9_000;
    app.player1.position.y = 100_000;
    app.player2.height = 40_000;
    app.player2.speed = 1_000;
    app.player2.position.y = 700_000;
    app.active_powerups = vec![ActivePowerUp::new(PowerUpType::Enlarge, 300_000, 300_000)];
    app.ball.position = Position { x: 52_000, y: 123_000 };
    app.ball.angle = 150_000;
    app.update_with(16, far_away());
    assert_eq!(app.score, [0, 1]);
    assert_eq!(app.kick_off, 1);
    assert_eq!(
        app.ball.position.x,
        app.player1.position.x + app.player1.width + 20_000
    );
    assert_eq!(app.ball.position, Position { x: 86_000, y: 400_000 });
    assert_eq!(app.ball.angle, 0);
    assert_eq!(app.ball.speed, 0);
    assert_eq!(app.player1, start_paddle(50_000));
    assert_eq!(app.player2, start_paddle(734_000));
    assert_eq!(app.player1.position.y, 800_000 / 2 - 40_000);
    assert!(app.active_powerups.is_empty());
    assert!(!app.game_over);
}

#[test]
fn a_ball_behind_paddle_two_is_a_point_for_player_one() {
    let mut app = App::new();
    app.ball.position = Position { x: 733_000, y: 500_000 };
    app.ball.speed = 3_000;
    app.update_with(16, far_away());
    assert_eq!(app.score, [1, 0]);
    assert_eq!(app.kick_off, 2);
    assert_eq!(app.ball.position, Position { x: 714_000, y: 400_000 });
    assert_eq!(app.ball.angle, 180_000);
    assert_eq!(app.ball.speed, 0);
    assert!(app.player1.position.x < app.ball.position.x);
    assert!(app.ball.position.x < app.player2.position.x);
}

#[test]
fn a_ball_level_with_a_paddle_edge_is_no_point() {
    let mut app = App::new();
    app.ball.position = Position { x: 53_000, y: 100_000 };
    app.ball.angle = 180_000;
    app.update_with(16, far_away());
    assert_eq!(app.ball.position.x, 50_000);
    assert_eq!(app.score, [0, 0]);
    app.update_with(16, far_away());
    assert_eq!(app.score, [0, 1]);
}

#[test]
fn scored_sets_the_next_round_up() {
    let mut app = App::new();
    app.ball.last_hit = 2;
    app.active_powerups = vec![far_away(), far_away()];
    app.scored(1);
    assert_eq!(app.score, [1, 0]);
    assert_eq!(app.kick_off, 2);
    assert_eq!(app.ball.position, Position { x: 714_000, y: 400_000 });
    assert_eq!(app.ball.angle, 180_000);
    assert_eq!(app.ball.speed, 0);
    assert_eq!(app.ball.last_hit, 2);
    assert_eq!(app.ball.radius, 10_000);
    assert!(app.active_powerups.is_empty());
    assert_eq!(app.time_to_spawn_power_up, 10_000);
    app.scored(2);
    assert_eq!(app.score, [1, 1]);
    assert_eq!(app.kick_off, 1);
    assert_eq!(app.ball.position, Position { x: 86_000, y: 400_000 });
    assert_eq!(app.ball.angle, 0);
    assert!(!app.game_over);
}

#[test]
fn scored_leaves_each_paddle_in_its_lane() {
    let mut app = App::new();
    app.player1.position.x = 10_000;
    app.player2.position.x = 600_000;
    app.player1.width = 30_000;
    app.scored(2);
    assert_eq!(app.player1.position.x, 10_000);
    assert_eq!(app.player2.position.x, 600_000);
    assert_eq!(app.player1.width, 16_000);
    assert_eq!(app.ball.position.x, 46_000);
    app.scored(1);
    assert_eq!(app.ball.position.x, 580_000);
}

#[test]
fn the_ball_waits_for_the_server() {
    let mut app = App::new();
    lose_a_point(&mut app, 1);
    assert_eq!(app.kick_off, 1);
    let resting = app.ball;
    app.update_with(16, far_away());
    assert_eq!(app.ball, resting);
    app.key_press(Key::Up);
    app.update_with(16, far_away());
    assert_eq!(app.ball, resting);
    app.key_release(Key::Up);
    app.key_press(Key::S);
    app.update_with(16, far_away());
    assert_eq!(app.ball.speed, 3_000);
    assert_eq!(app.ball.position, Position { x: 89_000, y: 400_000 });
    assert_eq!(app.player1.position.y, 365_000);
}

#[test]
fn player_two_serves_to_the_left() {
    let mut app = App::new();
    lose_a_point(&mut app, 2);
    assert_eq!(app.kick_off, 2);
    app.key_press(Key::W);
    app.update_with(16, far_away());
    assert_eq!(app.ball.speed, 0);
    assert_eq!(app.ball.position, Position { x: 714_000, y: 400_000 });
    app.key_press(Key::Down);
    app.update_with(16, far_away());
    assert_eq!(
        app.ball,
        Ball {
            radius: 10_000,
            speed: 3_000,
            angle: 180_000,
            position: Position { x: 711_000, y: 400_000 },
            // Paddle 2 touched the ball on its way out.
            last_hit: 2,
        }
    );
}

#[test]
fn a_key_of_the_server_gives_a_flying_ball_serve_speed_again() {
    let mut app = App::new();
    app.ball.position = Position { x: 400_000, y: 400_000 };
    app.ball.speed = 5_500;
    app.key_press(Key::W);
    app.update_with(16, far_away());
    assert_eq!(app.ball.speed, 3_000);
    assert_eq!(app.ball.position.x, 403_000);
}

#[test]
fn ten_points_win_the_match_for_player_one() {
    let mut app = App::new();
    for point in 1..=9 {
        lose_a_point(&mut app, 2);
        assert_eq!(app.score, [point, 0]);
        assert!(!app.game_over);
        assert!(app.ready());
    }
    lose_a_point(&mut app, 2);
    assert_eq!(app.score, [10, 0]);
    assert!(app.game_over);
    assert_eq!(app.winner, 1);
    assert!(app.ready());

    let over = App {
        active_powerups: app.active_powerups.clone(),
        pressed_keys: app.pressed_keys,
        player1: app.player1,
        player2: app.player2,
        kick_off: app.kick_off,
        ball: app.ball,
        game_over: app.game_over,
        score: app.score,
        winner: app.winner,
        time_to_spawn_power_up: app.time_to_spawn_power_up,
    };
    lose_a_point(&mut app, 2);
    assert_eq!(app.score, [10, 0]);
    lose_a_point(&mut app, 1);
    assert_eq!(app.score, [10, 0]);
    assert_eq!(app.winner, 1);
    assert!(app.game_over);
    app.ball = over.ball;
    app.key_press(Key::W);
    app.update(50_000);
    app.key_release(Key::W);
    assert_eq!(app, over);
}

#[test]
fn ten_points_win_the_match_for_player_two() {
    let mut app = App::new();
    for _ in 0..4 {
        lose_a_point(&mut app, 2);
    }
    for point in 1..=10 {
        assert!(!app.game_over);
        lose_a_point(&mut app, 1);
        assert_eq!(app.score, [4, point]);
    }
    assert!(app.game_over);
    assert_eq!(app.winner, 2);
    app.update_with(16, far_away());
    assert_eq!(app.score, [4, 10]);
    assert_eq!(app.winner, 2);
}

#[test]
fn the_frame_of_the_last_point_still_runs_the_spawn_timer() {
    let mut app = App::new();
    app.score = [9, 0];
    app.time_to_spawn_power_up = 5;
    lose_a_point(&mut app, 2);
    assert!(app.game_over);
    assert_eq!(app.active_powerups, vec![far_away()]);
    assert_eq!(app.time_to_spawn_power_up, 10_000);
}
