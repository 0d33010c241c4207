//! Tests of the ball physics: bounce renormalization, acceleration and
//! velocity clamps, scoring, and straight-line movement.

use pong::FP;
use pong::ball::Ball;
use pong::ball::MAX_ACCELERATION_FP;
use pong::ball::MAX_VELOCITY_FP;
use pong::ball::MIN_ACCELERATION_FP;
use pong::ball::MIN_VELOCITY_FP;
use pong::ball::PADDLE_ACCELERATION_BONUS_FP;
use pong::ball::WALL_ACCELERATION_BONUS_FP;
use pong::paddle::Paddle;

fn assert_invariants(ball: &Ball) {
    assert!(MIN_VELOCITY_FP <= ball.velocity && ball.velocity <= MAX_VELOCITY_FP);
    assert!(MIN_ACCELERATION_FP <= ball.acceleration && ball.acceleration <= MAX_ACCELERATION_FP);
    let (dx, dy) = ball.direction;
    assert!(-FP <= dx && dx <= FP);
    assert!(-FP <= dy && dy <= FP);
    assert_eq!(FP, dx.abs().max(dy.abs()));
}

#[test]
fn contains_checks_circular_boundary() {
    let ball = Ball::default();
    // The radius is 13000 units: a point exactly that far along one axis is
    // contained, one unit farther is not.
    assert!(ball.contains(600_000 + 13_000, 350_000));
    assert!(!ball.contains(600_000 + 13_001, 350_000));
    // A diagonal point at 13000 on both axes lies outside the circle.
    assert!(!ball.contains(600_000 + 13_000, 350_000 + 13_000));
}

#[test]
fn default_ball_is_centered() {
    let ball = Ball::default();
    assert_eq!((600_000, 350_000), ball.center);
    assert_eq!(13_000, ball.radius);
    assert_eq!(5_000, ball.velocity);
    assert_eq!(0, ball.acceleration);
    assert_eq!((1_000, 150), ball.direction);
    assert_invariants(&ball);
}

#[test]
fn bounce_renormalizes_direction() {
    let mut ball = Ball::default();
    ball.bounce_with_jitter((-1, 1), WALL_ACCELERATION_BONUS_FP, 25);
    // (-1000 + 25, 150 + 25) renormalized by the dominant magnitude 975.
    assert_eq!((-1_000, 179), ball.direction);
    assert_eq!(WALL_ACCELERATION_BONUS_FP, ball.acceleration);
    assert_invariants(&ball);
}

#[test]
fn bounce_skips_renormalization_when_components_cancel() {
    let mut ball = Ball::default();
    // Both transformed components land exactly on zero: renormalizing would
    // divide by zero, so the previous direction is kept.
    ball.direction = (1_000, 1_000);
    ball.bounce_with_jitter((1, 1), 0, -1_000);
    assert_eq!((1_000, 1_000), ball.direction);
    assert_invariants(&ball);
}

#[test]
fn acceleration_saturates_at_maximum() {
    let mut ball = Ball::default();
    ball.bounce_with_jitter((-1, 1), WALL_ACCELERATION_BONUS_FP, 0);
    assert_eq!(1_400, ball.acceleration);
    ball.bounce_with_jitter((-1, 1), WALL_ACCELERATION_BONUS_FP, 0);
    assert_eq!(MAX_ACCELERATION_FP, ball.acceleration);
    ball.bounce_with_jitter((-1, 1), PADDLE_ACCELERATION_BONUS_FP, 0);
    assert_eq!(MAX_ACCELERATION_FP, ball.acceleration);
    assert_invariants(&ball);
}

#[test]
fn random_bounces_keep_invariants() {
    let mut rng = rand::thread_rng();
    let mut ball = Ball::default();
    let mut seen = Vec::new();
    for _ in 0..200 {
        ball = Ball::default();
        ball.bounce((-1, 1), WALL_ACCELERATION_BONUS_FP, &mut rng);
        assert_invariants(&ball);
        seen.push(ball.direction.1);
    }
    // The jitter draws vary: two hundred bounces from the same state do not
    // all land on the same nudged direction.
    let first = seen[0];
    assert!(seen.iter().any(|d| *d != first));
}

#[test]
fn random_ticks_keep_invariants() {
    let mut rng = rand::thread_rng();
    let mut ball = Ball::default();
    for _ in 0..500 {
        ball.tick(&mut rng);
        assert_invariants(&ball);
        if ball.player_scored().is_some() {
            ball = Ball::default();
        }
    }
}

#[test]
fn straight_flight_matches_closed_form() {
    let mut ball = Ball::default();
    for _ in 0..10 {
        ball.tick_with_jitter(0);
    }
    // The first tick relaxes the velocity to its minimum of 4500; each tick
    // then advances by 4500 thousandths along x and 675 along y.
    assert_eq!((600_000 + 10 * 4_500, 350_000 + 10 * 675), ball.center);
    assert_eq!(MIN_VELOCITY_FP, ball.velocity);
    assert_invariants(&ball);
}

#[test]
fn wall_bounce_inside_tick() {
    let mut ball = Ball::default();
    ball.center = (1_190_000, 350_000);
    let mut expected = ball.center;
    ball.tick_with_jitter(0);
    // The wall flips the direction to (-1000, 150) and grants acceleration
    // 1400, of which one part in 500 becomes velocity.
    assert_eq!((-1_000, 150), ball.direction);
    assert_eq!(1_398, ball.acceleration);
    assert_eq!(5_002, ball.velocity);
    expected.0 -= 5_002;
    expected.1 += 750;
    assert_eq!(expected, ball.center);
    assert_invariants(&ball);
}

#[test]
fn scoring_at_boundaries() {
    let mut ball = Ball::default();
    assert_eq!(None, ball.player_scored());
    ball.center = (600_000, 690_000);
    assert_eq!(Some(0), ball.player_scored());
    ball.center = (600_000, 10_000);
    assert_eq!(Some(1), ball.player_scored());
}

#[test]
fn reset_after_score_clears_scoring() {
    let mut ball = Ball::default();
    ball.center = (600_000, 695_000);
    assert_eq!(Some(0), ball.player_scored());
    ball = Ball::default();
    assert_eq!(None, ball.player_scored());
}

#[test]
fn paddle_face_hit_reverses_vertical_axis() {
    let mut ball = Ball::default();
    ball.center = (600_000, 20_000);
    ball.direction = (1_000, -150);
    let paddle = Paddle::new(0, 600);
    ball.bounce_from_paddle_with_jitter(&paddle, 0);
    assert_eq!((1_000, 150), ball.direction);
    assert_eq!(PADDLE_ACCELERATION_BONUS_FP, ball.acceleration);
    assert_invariants(&ball);
}

#[test]
fn paddle_corner_hit_reverses_both_axes() {
    let mut ball = Ball::default();
    // The ball's boundary contains the paddle's bottom-left corner.
    let paddle = Paddle::new(0, 600);
    ball.center = (575_000 + 5_000, 10_000 + 5_000);
    ball.direction = (1_000, -150);
    ball.bounce_from_paddle_with_jitter(&paddle, 0);
    assert_eq!((-1_000, 150), ball.direction);
    assert_eq!(PADDLE_ACCELERATION_BONUS_FP, ball.acceleration);
}

#[test]
fn paddle_ignores_ball_moving_away() {
    let mut ball = Ball::default();
    ball.center = (600_000, 20_000);
    // Moving downward, away from the top paddle: no bounce even though the
    // ball overlaps the paddle's horizontal band.
    ball.direction = (1_000, 150);
    let paddle = Paddle::new(0, 600);
    let before = (ball.direction, ball.acceleration);
    ball.bounce_from_paddle_with_jitter(&paddle, 0);
    assert_eq!(before, (ball.direction, ball.acceleration));
}

#[test]
fn paddle_ignores_ball_outside_horizontal_extent() {
    let mut ball = Ball::default();
    ball.center = (100_000, 20_000);
    ball.direction = (1_000, -150);
    let paddle = Paddle::new(0, 600);
    let before = (ball.direction, ball.acceleration);
    ball.bounce_from_paddle_with_jitter(&paddle, 0);
    assert_eq!(before, (ball.direction, ball.acceleration));
}
