//! Tests of the paddle geometry, the phase state machine and the play-phase
//! update.

use pong::ball::Ball;
use pong::paddle::PADDLE_HEIGHT_FP;
use pong::paddle::PADDLE_WIDTH_FP;
use pong::paddle::Paddle;
use pong::phase::Phase;
use pong::phase::PhaseAction;
use pong::plays_pong;

#[test]
fn paddle_new_uses_default_size() {
    let paddle = Paddle::new(1, 600);
    assert_eq!(1, paddle.player_id);
    assert_eq!(PADDLE_WIDTH_FP, paddle.width);
    assert_eq!(PADDLE_HEIGHT_FP, paddle.height);
    assert_eq!(0, paddle.deaths);
    assert_eq!(600, paddle.x);
}

#[test]
fn paddle_position_centers_on_controller() {
    let paddle = Paddle::new(0, 600);
    assert_eq!((575_000, 0), paddle.position());
}

#[test]
fn paddle_position_clamps_to_window() {
    let left = Paddle::new(0, 0);
    assert_eq!((0, 0), left.position());
    let right = Paddle::new(0, 1_200);
    assert_eq!((1_150_000, 0), right.position());
}

#[test]
fn paddle_of_second_player_sits_at_bottom() {
    let paddle = Paddle::new(1, 600);
    assert_eq!((575_000, 690_000), paddle.position());
}

#[test]
fn phase_counts_down_before_calibrating() {
    let phase = Phase::MapsPlayfield { count_down: 3 };
    let (phase, action) = phase.update();
    assert_eq!(Phase::MapsPlayfield { count_down: 2 }, phase);
    assert_eq!(PhaseAction::CountsDown(2), action);
}

#[test]
fn phase_calibrates_at_zero() {
    let phase = Phase::MapsPlayfield { count_down: 0 };
    let (phase, action) = phase.update();
    assert_eq!(Phase::ReadsController, phase);
    assert_eq!(PhaseAction::Calibrates, action);
}

#[test]
fn phase_proceeds_from_reading_to_play() {
    let (phase, action) = Phase::ReadsController.update();
    assert_eq!(Phase::PlaysPong, phase);
    assert_eq!(PhaseAction::Proceeds, action);
}

#[test]
fn phase_loops_in_play() {
    let (phase, action) = Phase::PlaysPong.update();
    assert_eq!(Phase::PlaysPong, phase);
    assert_eq!(PhaseAction::Advances, action);
}

#[test]
fn play_update_advances_the_ball() {
    let mut rng = rand::thread_rng();
    let mut ball = Ball::default();
    let paddles = [Paddle::new(0, 600), Paddle::new(1, 600)];
    plays_pong::update(&mut ball, &paddles[0], &paddles[1], &mut rng);
    // In the middle of the window nothing collides, so the jitters go
    // unused and the frame is deterministic: the velocity relaxes to its
    // minimum and the ball advances along its direction.
    assert_eq!((604_500, 350_675), ball.center);
    assert_eq!(4_500, ball.velocity);
}

#[test]
fn play_update_resets_scored_ball() {
    let mut rng = rand::thread_rng();
    let mut ball = Ball::default();
    ball.center = (600_000, 695_000);
    let paddles = [Paddle::new(0, 600), Paddle::new(1, 600)];
    plays_pong::update(&mut ball, &paddles[0], &paddles[1], &mut rng);
    // The scored ball is served afresh from the center, then ticks once.
    assert_eq!((604_500, 350_675), ball.center);
}
