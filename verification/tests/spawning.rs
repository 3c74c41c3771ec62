use pong::game::App;
use pong::position::Position;
use pong::powerup::{ActivePowerUp, PowerUp, PowerUpType};
use pong::spawn::random_power_up;

fn in_spawn_region(powerup: &ActivePowerUp) -> bool {
    let Position { x, y } = *powerup.position();
    (100_000..=700_000).contains(&x) && (50_000..=750_000).contains(&y)
}

#[test]
fn a_random_power_up_lies_in_the_spawn_region() {
    for _ in 0..2_000 {
        let powerup = random_power_up();
        assert!(powerup.collectable());
        assert!(in_spawn_region(&powerup));
    }
}

#[test]
fn random_power_ups_are_of_every_kind() {
    let mut seen = [false; 4];
    for _ in 0..2_000 {
        match random_power_up().powerup_type() {
            PowerUpType::Enlarge => seen[0] = true,
            PowerUpType::Shrink => seen[1] = true,
            PowerUpType::SpeedUp => seen[2] = true,
            PowerUpType::SlowDown => seen[3] = true,
        }
    }
    assert_eq!(seen, [true; 4]);
}

#[test]
fn random_power_ups_lie_in_many_places() {
    let first = random_power_up();
    let mut another_x = false;
    let mut another_y = false;
    let mut off_the_rim_x = false;
    let mut off_the_rim_y = false;
    for _ in 0..2_000 {
        let next = random_power_up();
        another_x |= next.position().x != first.position().x;
        another_y |= next.position().y != first.position().y;
        off_the_rim_x |= next.position().x != 100_000 && next.position().x != 700_000;
        off_the_rim_y |= next.position().y != 50_000 && next.position().y != 750_000;
    }
    assert!(another_x && another_y && off_the_rim_x && off_the_rim_y);
}

#[test]
fn spawn_power_up_adds_one_power_up_at_the_end() {
    let mut app = App::new();
    let kept = ActivePowerUp::new(PowerUpType::Shrink, 1, 2);
    app.active_powerups = vec![kept];
    app.spawn_power_up();
    assert_eq!(app.active_powerups.len(), 2);
    assert_eq!(app.active_powerups[0], kept);
    assert!(app.active_powerups[1].collectable());
    assert!(in_spawn_region(&app.active_powerups[1]));
    assert_eq!(app.time_to_spawn_power_up, 10_000);
    assert_eq!(app.ball, App::new().ball);
    assert_eq!(app.player1, App::new().player1);
}

#[test]
fn update_spawns_where_the_timer_runs_out() {
    let mut app = App::new();
    app.update(9_999);
    assert!(app.active_powerups.is_empty());
    assert_eq!(app.time_to_spawn_power_up, 1);
    app.update(1);
    assert_eq!(app.active_powerups.len(), 1);
    assert!(in_spawn_region(&app.active_powerups[0]));
    assert_eq!(app.time_to_spawn_power_up, 10_000);
    assert_eq!(app.ball.position, Position { x: 92_000, y: 400_000 });
}
