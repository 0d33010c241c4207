//! The play phase: one frame of pong advances the ball against the two
//! paddles and serves a fresh ball after a score.

use vstd::prelude::*;

use crate::ball::Ball;
use crate::ball::RANDOM_BOUNCE_BOUND_FP;
use crate::ball::paddle_bounce_spec;
use crate::ball::scored_spec;
use crate::ball::tick_spec;
use crate::paddle::Paddle;
use rand::rngs::ThreadRng;

verus! {

/// One frame of play: a ball that scored is reset to the default serve, then
/// each paddle in turn may bounce the ball, then the ball ticks. The three
/// jitters are the random nudges of the up to three possible bounces.
pub open spec fn update_spec(b: Ball, p0: Paddle, p1: Paddle, j0: int, j1: int, j2: int) -> Ball {
    let served = if scored_spec(b) is Some {
        Ball::default_spec()
    } else {
        b
    };
    let after_first = paddle_bounce_spec(served, p0, j0);
    let after_second = paddle_bounce_spec(after_first, p1, j1);
    tick_spec(after_second, j2)
}

/// Updates the ball direction, velocity and position for one frame of play.
/// Both paddles are checked each tick, in player order, rather than stopping
/// at the first hit.
pub fn update(ball: &mut Ball, paddle_one: &Paddle, paddle_two: &Paddle, rng: &mut ThreadRng)
    requires
        old(ball).wf(),
        old(ball).center_in_range(),
        paddle_one.wf(),
        paddle_two.wf(),
    ensures
        exists|j0: int, j1: int, j2: int|
            {
                &&& -RANDOM_BOUNCE_BOUND_FP <= j0 < RANDOM_BOUNCE_BOUND_FP
                &&& -RANDOM_BOUNCE_BOUND_FP <= j1 < RANDOM_BOUNCE_BOUND_FP
                &&& -RANDOM_BOUNCE_BOUND_FP <= j2 < RANDOM_BOUNCE_BOUND_FP
                &&& *final(ball) == #[trigger] update_spec(
                    *old(ball),
                    *paddle_one,
                    *paddle_two,
                    j0,
                    j1,
                    j2,
                )
            },
        final(ball).wf(),
{
    if ball.player_scored().is_some() {
        *ball = Ball::default();
    }
    let ghost served = *ball;

    ball.bounce_from_paddle(paddle_one, rng);
    let ghost j0 = choose|j: int|
        -RANDOM_BOUNCE_BOUND_FP <= j < RANDOM_BOUNCE_BOUND_FP && *ball == #[trigger] paddle_bounce_spec(
            served,
            *paddle_one,
            j,
        );
    let ghost after_first = *ball;

    ball.bounce_from_paddle(paddle_two, rng);
    let ghost j1 = choose|j: int|
        -RANDOM_BOUNCE_BOUND_FP <= j < RANDOM_BOUNCE_BOUND_FP && *ball == #[trigger] paddle_bounce_spec(
            after_first,
            *paddle_two,
            j,
        );
    let ghost after_second = *ball;

    ball.tick(rng);
    proof {
        let j2 = choose|j: int|
            -RANDOM_BOUNCE_BOUND_FP <= j < RANDOM_BOUNCE_BOUND_FP && *ball == #[trigger] tick_spec(
                after_second,
                j,
            );
        assert(*ball == update_spec(*old(ball), *paddle_one, *paddle_two, j0, j1, j2));
    }
}

} // verus!
