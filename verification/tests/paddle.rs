use pong::ball::Ball;
use pong::constants::{HEIGHT, PADDLE_HEIGHT, PADDLE_SPEED, PADDLE_WIDTH};
use pong::player::Player;
use pong::position::Position;

fn paddle_at(x: i64, y: i64) -> Player {
    Player { height: 80_000, width: 16_000, speed: 5_000, position: Position { x, y } }
}

fn ball_at(x: i64, y: i64) -> Ball {
    Ball { radius: 10_000, speed: 3_000, angle: 0, position: Position { x, y }, last_hit: 0 }
}

#[test]
fn a_paddle_inside_the_arena_is_not_corrected() {
    for y in [0, 1, 5_000, 360_000, 719_999, 720_000] {
        let mut paddle = paddle_at(50_000, y);
        let before = paddle;
        paddle.prevent_out_of_bounds();
        assert_eq!(paddle, before);
    }
}

#[test]
fn a_paddle_inside_the_arena_is_not_corrected_whatever_its_speed() {
    let mut paddle = Player {
        height: 100_000,
        width: 16_000,
        speed: i64::MAX,
        position: Position { x: 50_000, y: 700_000 },
    };
    let before = paddle;
    paddle.prevent_out_of_bounds();
    assert_eq!(paddle, before);
}

#[test]
fn a_paddle_above_the_arena_moves_one_step_down() {
    let mut paddle = paddle_at(50_000, -3_000);
    paddle.prevent_out_of_bounds();
    assert_eq!(paddle.position.y, 2_000);
    assert_eq!(paddle.position.x, 50_000);
    assert_eq!(paddle.height, 80_000);
}

#[test]
fn a_paddle_below_the_arena_moves_one_step_up() {
    let mut paddle = paddle_at(50_000, 723_000);
    paddle.prevent_out_of_bounds();
    assert_eq!(paddle.position.y, 718_000);
}

#[test]
fn the_correction_is_one_step_and_no_more() {
    let mut high = paddle_at(50_000, -12_000);
    high.prevent_out_of_bounds();
    assert_eq!(high.position.y, -7_000);
    let mut low = paddle_at(50_000, 731_000);
    low.prevent_out_of_bounds();
    assert_eq!(low.position.y, 726_000);
}

#[test]
fn a_paddle_taller_than_the_arena_is_pushed_down_and_up_again() {
    let mut paddle = Player {
        height: 900_000,
        width: 16_000,
        speed: 5_000,
        position: Position { x: 50_000, y: -1_000 },
    };
    paddle.prevent_out_of_bounds();
    assert_eq!(paddle.position.y, -1_000);
}

#[test]
fn move_by_adds_to_y() {
    let mut paddle = paddle_at(50_000, 360_000);
    paddle.move_by(5_000);
    assert_eq!(paddle.position.y, 365_000);
    paddle.move_by(-12_000);
    assert_eq!(paddle.position.y, 353_000);
    assert_eq!(paddle.position.x, 50_000);
}

#[test]
fn the_offset_is_minus_one_at_the_top_and_one_at_the_bottom() {
    let paddle = paddle_at(50_000, 360_000);
    assert_eq!(paddle.collision_point(&ball_at(60_000, 360_000)), -1_000);
    assert_eq!(paddle.collision_point(&ball_at(60_000, 440_000)), 1_000);
    assert_eq!(paddle.collision_point(&ball_at(60_000, 400_000)), 0);
    assert_eq!(paddle.collision_point(&ball_at(60_000, 380_000)), -500);
    assert_eq!(paddle.collision_point(&ball_at(60_000, 420_000)), 500);
}

#[test]
fn the_offset_is_not_clamped() {
    let paddle = paddle_at(50_000, 360_000);
    assert_eq!(paddle.collision_point(&ball_at(60_000, 320_000)), -2_000);
    assert_eq!(paddle.collision_point(&ball_at(60_000, 480_000)), 2_000);
    assert_eq!(paddle.collision_point(&ball_at(60_000, 0)), -10_000);
}

#[test]
fn the_offset_is_antisymmetric_about_the_middle() {
    let paddle = Player {
        height: 70_001,
        width: 16_000,
        speed: 5_000,
        position: Position { x: 50_000, y: 123_456 },
    };
    for distance in [0, 1, 7, 333, 35_000, 70_001, 200_000] {
        let above = ball_at(60_000, 123_456 + distance);
        let below = ball_at(60_000, 123_456 + 70_001 - distance);
        assert_eq!(paddle.collision_point(&above), -paddle.collision_point(&below));
    }
}

#[test]
fn the_offset_rises_without_jumps() {
    let paddle = paddle_at(50_000, 360_000);
    let mut last = paddle.collision_point(&ball_at(60_000, 359_000));
    for y in 359_001..=441_000 {
        let next = paddle.collision_point(&ball_at(60_000, y));
        assert!(last <= next);
        assert!(next - last <= 1);
        last = next;
    }
}

#[test]
fn the_offset_of_a_paddle_upside_down() {
    let paddle = Player {
        height: -80_000,
        width: 16_000,
        speed: 5_000,
        position: Position { x: 50_000, y: 440_000 },
    };
    assert_eq!(paddle.collision_point(&ball_at(60_000, 440_000)), -1_000);
    assert_eq!(paddle.collision_point(&ball_at(60_000, 360_000)), 1_000);
}

#[test]
fn a_paddle_is_hit_by_a_ball_in_front_of_it() {
    let paddle = paddle_at(50_000, 360_000);
    assert!(paddle.collided(&ball_at(75_000, 400_000)));
    assert!(paddle.collided(&ball_at(41_000, 361_000)));
    assert!(!paddle.collided(&ball_at(76_000, 400_000)));
    assert!(!paddle.collided(&ball_at(40_000, 400_000)));
    assert!(!paddle.collided(&ball_at(60_000, 360_000)));
    assert!(!paddle.collided(&ball_at(60_000, 440_000)));
    assert!(!paddle.collided(&ball_at(60_000, 355_000)));
}

#[test]
fn reset_restores_size_and_speed_and_centres_the_paddle() {
    let mut paddle = Player {
        height: 140_000,
        width: 3_000,
        speed: 11_000,
        position: Position { x: 734_000, y: 12_000 },
    };
    paddle.reset();
    assert_eq!(paddle.height, PADDLE_HEIGHT);
    assert_eq!(paddle.width, PADDLE_WIDTH);
    assert_eq!(paddle.speed, PADDLE_SPEED);
    assert_eq!(paddle.position.y, HEIGHT / 2 - 40_000);
    assert_eq!(paddle.position.x, 734_000);
}

#[test]
fn resize_by_keeps_the_middle_where_it_is() {
    let mut paddle = paddle_at(50_000, 360_000);
    paddle.resize_by(20_000);
    assert_eq!(paddle.height, 100_000);
    assert_eq!(paddle.position.y, 350_000);
    assert_eq!(paddle.position.y + paddle.height / 2, 400_000);
    paddle.resize_by(-20_000);
    assert_eq!(paddle, paddle_at(50_000, 360_000));
}

#[test]
fn resize_by_an_odd_size_and_back() {
    let mut paddle = paddle_at(50_000, 360_000);
    paddle.resize_by(-21);
    assert_eq!(paddle.height, 79_979);
    assert_eq!(paddle.position.y, 360_010);
    paddle.resize_by(21);
    assert_eq!(paddle, paddle_at(50_000, 360_000));
}

#[test]
fn resize_by_has_no_floor() {
    let mut paddle = paddle_at(50_000, 360_000);
    for _ in 0..5 {
        paddle.resize_by(-20_000);
    }
    assert_eq!(paddle.height, -20_000);
    assert_eq!(paddle.position.y, 410_000);
}

#[test]
fn change_speed_by_adds_to_the_speed() {
    let mut paddle = paddle_at(50_000, 360_000);
    paddle.change_speed_by(2_000);
    assert_eq!(paddle.speed, 7_000);
    paddle.change_speed_by(-9_000);
    assert_eq!(paddle.speed, -2_000);
    assert_eq!(paddle.height, 80_000);
    assert_eq!(paddle.position, Position { x: 50_000, y: 360_000 });
}
