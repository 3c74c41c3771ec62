use pong::collision::overlaps;
use pong::position::Position;
use pong::trig::{cos, sin, wrap};
use pong::units::{halve, scale, UNIT};

#[test]
fn scale_multiplies_thousandths() {
    assert_eq!(scale(1_500, 2_000), 3_000);
    assert_eq!(scale(UNIT, 7_250), 7_250);
    assert_eq!(scale(0, 7_250), 0);
    assert_eq!(scale(75_000, 500), 37_500);
}

#[test]
fn scale_rounds_toward_zero() {
    assert_eq!(scale(1, 999), 0);
    assert_eq!(scale(-1, 999), 0);
    assert_eq!(scale(1_999, 1), 1);
    assert_eq!(scale(-1_999, 1), -1);
    assert_eq!(scale(-1_500, 2_000), -3_000);
    assert_eq!(scale(-1_500, -2_000), 3_000);
}

#[test]
fn scale_takes_the_largest_factors() {
    assert_eq!(scale(i64::MAX, 1_000), i64::MAX);
    assert_eq!(scale(i64::MIN, 1_000), i64::MIN);
    assert_eq!(scale(i64::MIN, 500), i64::MIN / 2);
}

#[test]
fn halve_rounds_toward_zero() {
    assert_eq!(halve(20_000), 10_000);
    assert_eq!(halve(-20_000), -10_000);
    assert_eq!(halve(21), 10);
    assert_eq!(halve(-21), -10);
    assert_eq!(halve(0), 0);
}

#[test]
fn wrap_brings_angles_into_one_turn() {
    assert_eq!(wrap(0), 0);
    assert_eq!(wrap(359_999), 359_999);
    assert_eq!(wrap(360_000), 0);
    assert_eq!(wrap(720_001), 1);
    assert_eq!(wrap(-1), 359_999);
    assert_eq!(wrap(-360_000), 0);
    assert_eq!(wrap(-450_000), 270_000);
}

#[test]
fn sine_is_exact_at_the_marked_angles() {
    assert_eq!(sin(0), 0);
    assert_eq!(sin(30_000), 500);
    assert_eq!(sin(90_000), 1_000);
    assert_eq!(sin(150_000), 500);
    assert_eq!(sin(180_000), 0);
    assert_eq!(sin(210_000), -500);
    assert_eq!(sin(270_000), -1_000);
    assert_eq!(sin(360_000), 0);
}

#[test]
fn sine_between_the_marked_angles() {
    // 4 * 45 * 135 / (40500 - 45 * 135) = 0.70588...
    assert_eq!(sin(45_000), 705);
    // 4 * 75 * 105 / (40500 - 75 * 105) = 0.96551...
    assert_eq!(sin(75_000), 965);
    // 4 * 37.5 * 142.5 / (40500 - 37.5 * 142.5) = 0.608
    assert_eq!(sin(37_500), 608);
}

#[test]
fn sine_is_odd_and_cosine_is_even() {
    let angles: [i64; 7] = [1, 12_345, 37_500, 75_000, 105_000, 217_500, 359_999];
    for angle in angles {
        assert_eq!(sin(-angle), -sin(angle));
        assert_eq!(cos(-angle), cos(angle));
        assert_eq!(sin(angle + 180_000), -sin(angle));
    }
}

#[test]
fn cosine_is_the_sine_a_quarter_turn_on() {
    assert_eq!(cos(0), 1_000);
    assert_eq!(cos(60_000), 500);
    assert_eq!(cos(90_000), 0);
    assert_eq!(cos(180_000), -1_000);
    assert_eq!(cos(270_000), 0);
    assert_eq!(cos(-60_000), 500);
    assert_eq!(cos(30_000), 864);
}

#[test]
fn sine_and_cosine_take_any_angle() {
    for angle in [i64::MIN, i64::MIN + 1, -1, 0, 1, i64::MAX - 1, i64::MAX] {
        let s = sin(angle);
        let c = cos(angle);
        assert!((-1_000..=1_000).contains(&s));
        assert!((-1_000..=1_000).contains(&c));
    }
}

#[test]
fn overlaps_when_the_centre_is_inside() {
    let corner = Position { x: 100_000, y: 100_000 };
    let centre = Position { x: 110_000, y: 120_000 };
    assert!(overlaps(&corner, 32_000, 32_000, &centre, 10_000));
}

#[test]
fn overlaps_needs_the_centre_strictly_between_top_and_bottom() {
    let corner = Position { x: 100_000, y: 100_000 };
    let on_top = Position { x: 110_000, y: 100_000 };
    let on_bottom = Position { x: 110_000, y: 132_000 };
    let just_inside = Position { x: 110_000, y: 100_001 };
    assert!(!overlaps(&corner, 32_000, 32_000, &on_top, 10_000));
    assert!(!overlaps(&corner, 32_000, 32_000, &on_bottom, 10_000));
    assert!(overlaps(&corner, 32_000, 32_000, &just_inside, 10_000));
}

#[test]
fn overlaps_ignores_how_tall_the_circle_is() {
    // The circle reaches ten pixels into the rectangle from above, but its
    // centre is one step above the top edge.
    let corner = Position { x: 100_000, y: 100_000 };
    let above = Position { x: 110_000, y: 99_999 };
    assert!(!overlaps(&corner, 32_000, 32_000, &above, 10_000));
}

#[test]
fn overlaps_counts_the_circle_sideways() {
    let corner = Position { x: 100_000, y: 100_000 };
    // The circle's right edge meets the rectangle's left edge exactly: no hit.
    let touching_left = Position { x: 90_000, y: 110_000 };
    let reaching_left = Position { x: 90_001, y: 110_000 };
    // The circle's left edge meets the rectangle's right edge exactly: no hit.
    let touching_right = Position { x: 142_000, y: 110_000 };
    let reaching_right = Position { x: 141_999, y: 110_000 };
    assert!(!overlaps(&corner, 32_000, 32_000, &touching_left, 10_000));
    assert!(overlaps(&corner, 32_000, 32_000, &reaching_left, 10_000));
    assert!(!overlaps(&corner, 32_000, 32_000, &touching_right, 10_000));
    assert!(overlaps(&corner, 32_000, 32_000, &reaching_right, 10_000));
}

#[test]
fn overlaps_takes_the_largest_numbers() {
    let corner = Position { x: i64::MAX, y: i64::MAX - 10 };
    let centre = Position { x: i64::MAX, y: i64::MAX };
    assert!(overlaps(&corner, i64::MAX, i64::MAX, &centre, i64::MAX));
    let far = Position { x: i64::MIN, y: i64::MAX };
    assert!(!overlaps(&corner, i64::MAX, i64::MAX, &far, i64::MAX));
}
