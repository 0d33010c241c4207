//! The ball physics engine: position, velocity, acceleration and direction
//! of the ball, advanced once per tick, with wall and paddle collision
//! resolution, randomized bounce transforms and scoring detection.
//!
//! All quantities are fixed-point integers in thousandths (`crate::FP`): a
//! direction component of `1000` stands for a full pixel of travel per unit
//! of velocity.

use vstd::prelude::*;

use crate::paddle::Paddle;
use rand::Rng;
use rand::rngs::ThreadRng;

verus! {

/// The ball size in fixed-point units.
pub const RADIUS_FP: i64 = 13_000;

/// Each tick converts this fraction (one part in the divisor) of the current
/// acceleration into velocity gain.
pub const INCREMENT_DIVISOR: i64 = 500;

/// While no acceleration bonus is active, the velocity relaxes by being
/// divided by this divisor and clamped back into its bounds.
pub const DECREMENT_DIVISOR: i64 = 500;

/// A bounce nudges both direction components by a random jitter drawn
/// uniformly from `[-RANDOM_BOUNCE_BOUND_FP, RANDOM_BOUNCE_BOUND_FP)`.
pub const RANDOM_BOUNCE_BOUND_FP: i64 = 50;

/// Acceleration gained when the ball bounces off a wall.
pub const WALL_ACCELERATION_BONUS_FP: i64 = 1_400;

/// Acceleration gained when the ball bounces off a paddle.
pub const PADDLE_ACCELERATION_BONUS_FP: i64 = 1_900;

/// Largest acceleration the ball can carry.
pub const MAX_ACCELERATION_FP: i64 = 2_300;

/// Smallest acceleration the ball can carry.
pub const MIN_ACCELERATION_FP: i64 = -5_000;

/// Largest velocity the ball can move at.
pub const MAX_VELOCITY_FP: i64 = 6_000;

/// Smallest velocity the ball can move at.
pub const MIN_VELOCITY_FP: i64 = 4_500;

/// Velocity of a freshly served ball.
pub const DEFAULT_VELOCITY_FP: i64 = 5_000;

/// How far from the window the ball's center may stray before the
/// fixed-point arithmetic of the engine stops being proved exact; callers
/// reset the ball (a score) long before.
pub const COORD_LIMIT_FP: i64 = 1_000_000_000;

/// The absolute value.
pub open spec fn abs_fp(v: int) -> int {
    if v >= 0 {
        v
    } else {
        -v
    }
}

/// The larger of two values.
pub open spec fn max_fp(a: int, b: int) -> int {
    if a > b {
        a
    } else {
        b
    }
}

/// `v` forced into `[lo, hi]`, the upper bound applied first.
pub open spec fn clamp_spec(v: int, lo: int, hi: int) -> int {
    let capped = if v > hi {
        hi
    } else {
        v
    };
    if capped < lo {
        lo
    } else {
        capped
    }
}

/// Division that truncates toward zero, for a positive divisor: this is what
/// the executable sign-and-magnitude arithmetic computes.
pub open spec fn scale_down(n: int, d: int) -> int {
    if n >= 0 {
        n / d
    } else {
        -((-n) / d)
    }
}

/// One component of the ball's displacement in a tick: the velocity times
/// the direction component, scaled back from fixed point, truncating toward
/// zero.
pub open spec fn scaled_step(v: int, d: int) -> int {
    if d >= 0 {
        v * d / (crate::FP as int)
    } else {
        -(v * (-d) / (crate::FP as int))
    }
}

/// A coordinate the engine is proved exact for.
pub open spec fn in_coord_range(v: int) -> bool {
    -COORD_LIMIT_FP <= v <= COORD_LIMIT_FP
}

/// A valid direction vector: both components within one fixed-point unit and
/// the dominant component exactly one unit, so the ball always makes full
/// progress along its dominant axis.
pub open spec fn dir_ok(d: (i64, i64)) -> bool {
    &&& -crate::FP <= d.0 <= crate::FP
    &&& -crate::FP <= d.1 <= crate::FP
    &&& max_fp(abs_fp(d.0 as int), abs_fp(d.1 as int)) == crate::FP
}

pub struct Ball {
    /// The x and y coordinate of the ball's center, in fixed-point units.
    pub center: (i64, i64),
    /// The ball size, in fixed-point units.
    pub radius: i64,
    /// The ball's colour which will be used to draw the ball in the next
    /// tick.
    pub color: (u8, u8, u8),
    /// How fast the ball is moving in its direction, in fixed-point units.
    pub velocity: i64,
    /// The ball gains a fraction of the current acceleration as velocity
    /// each tick and the acceleration decreases accordingly.
    pub acceleration: i64,
    /// The direction vector. Both components lie in `[-FP, FP]`.
    ///
    /// ```text
    ///       FP|  v
    ///         | /
    ///   -FP   |/
    ///    -----+----- FP
    ///         |
    ///         |
    ///         |-FP
    /// ```
    ///
    /// In the example above, vector `v` = (FP/2, FP). In the next tick the
    /// ball's position changes along this direction scaled by the velocity.
    pub direction: (i64, i64),
}

/// The new direction after a bounce: the transform flips the signs of the
/// components, the same jitter nudges both, and the result is renormalized
/// so that the dominant component is exactly one fixed-point unit. When both
/// components cancel to zero the renormalization would be undefined, so the
/// previous direction is kept.
pub open spec fn bounce_direction_spec(d: (i64, i64), tx: int, ty: int, j: int) -> (int, int) {
    let nx = d.0 * tx + j;
    let ny = d.1 * ty + j;
    let m = max_fp(abs_fp(nx), abs_fp(ny));
    if m == 0 {
        (d.0 as int, d.1 as int)
    } else {
        (scale_down(nx * (crate::FP as int), m), scale_down(ny * (crate::FP as int), m))
    }
}

/// The ball after a bounce: acceleration gains the bonus, clamped into its
/// bounds, and the direction is transformed and jittered.
pub open spec fn bounce_spec(b: Ball, tx: int, ty: int, bonus: int, j: int) -> Ball {
    let dir = bounce_direction_spec(b.direction, tx, ty, j);
    Ball {
        acceleration: clamp_spec(
            b.acceleration + bonus,
            MIN_ACCELERATION_FP as int,
            MAX_ACCELERATION_FP as int,
        ) as i64,
        direction: (dir.0 as i64, dir.1 as i64),
        ..b
    }
}

/// Whether the ball's leading edge reaches a side wall while still moving
/// toward it; the direction sign check prevents a double bounce while the
/// ball still overlaps the wall after bouncing.
pub open spec fn wall_bounce_triggers(b: Ball) -> bool {
    ||| (b.center.0 + b.radius >= crate::WINDOW_WIDTH_FP && b.direction.0 >= 0)
    ||| (b.center.0 - b.radius <= 0 && b.direction.0 <= 0)
}

/// The ball after the wall-bounce check of a tick.
pub open spec fn wall_phase(b: Ball, j: int) -> Ball {
    if wall_bounce_triggers(b) {
        bounce_spec(b, -1, 1, WALL_ACCELERATION_BONUS_FP as int, j)
    } else {
        b
    }
}

/// The ball after the acceleration step of a tick: an acceleration below one
/// unit snaps to zero and the velocity relaxes; otherwise one part in the
/// increment divisor of the acceleration converts into velocity. Either way
/// the velocity stays within its bounds.
pub open spec fn accel_phase(b: Ball) -> Ball {
    if b.acceleration < crate::FP {
        Ball {
            acceleration: 0,
            velocity: clamp_spec(
                (b.velocity as int) / (DECREMENT_DIVISOR as int),
                MIN_VELOCITY_FP as int,
                MAX_VELOCITY_FP as int,
            ) as i64,
            ..b
        }
    } else {
        let inc = (b.acceleration as int) / (INCREMENT_DIVISOR as int);
        Ball {
            acceleration: (b.acceleration - inc) as i64,
            velocity: clamp_spec(
                b.velocity + inc,
                MIN_VELOCITY_FP as int,
                MAX_VELOCITY_FP as int,
            ) as i64,
            ..b
        }
    }
}

/// The ball after the movement step of a tick: the center advances by the
/// velocity along the direction vector, componentwise.
pub open spec fn move_phase(b: Ball) -> Ball {
    Ball {
        center: (
            (b.center.0 + scaled_step(b.velocity as int, b.direction.0 as int)) as i64,
            (b.center.1 + scaled_step(b.velocity as int, b.direction.1 as int)) as i64,
        ),
        ..b
    }
}

/// One full tick of the ball with a given bounce jitter: wall bounce first,
/// so the direction reflects the wall before the ball moves, then the
/// acceleration step, then the movement.
pub open spec fn tick_spec(b: Ball, j: int) -> Ball {
    move_phase(accel_phase(wall_phase(b, j)))
}

/// Whether the ball's circular boundary contains the point `(x, y)`.
pub open spec fn contains_spec(b: Ball, x: int, y: int) -> bool {
    (x - b.center.0) * (x - b.center.0) + (y - b.center.1) * (y - b.center.1) <= b.radius
        * b.radius
}

/// Which player scored, if any: player 0 when the ball's leading edge
/// reaches or passes the bottom boundary, player 1 when it reaches or passes
/// the top one.
///
/// ```text
/// | Player 0 |
/// |          |
/// | -------- |
/// |          |
/// | Player 1 |
/// ```
pub open spec fn scored_spec(b: Ball) -> Option<u8> {
    if b.center.1 + b.radius >= crate::WINDOW_HEIGHT_FP {
        Option::Some(0u8)
    } else if b.center.1 - b.radius <= 0 {
        Option::Some(1u8)
    } else {
        Option::None
    }
}

/// The ball after the paddle-bounce check against one paddle. A paddle only
/// bounces a ball moving toward it. A ball containing one of the paddle's
/// corners reverses both axes; a ball overlapping the paddle's face within
/// its vertical band reverses only the vertical axis; otherwise the ball
/// passes unchanged.
pub open spec fn paddle_bounce_spec(b: Ball, p: Paddle, j: int) -> Ball {
    if p.player_id == 0 && b.direction.1 > 0 {
        b
    } else if p.player_id == 1 && b.direction.1 < 0 {
        b
    } else {
        let pos = p.position_spec();
        let left_x = pos.0;
        let top_y = pos.1;
        let right_x = left_x + p.width;
        let bottom_y = top_y + p.height;
        if contains_spec(b, left_x, top_y) || contains_spec(b, right_x, top_y) || contains_spec(
            b,
            left_x,
            bottom_y,
        ) || contains_spec(b, right_x, bottom_y) {
            bounce_spec(b, -1, -1, PADDLE_ACCELERATION_BONUS_FP as int, j)
        } else if p.player_id == 0 && b.center.1 - b.radius > bottom_y {
            b
        } else if p.player_id == 1 && b.center.1 + b.radius < top_y {
            b
        } else if b.center.0 + b.radius >= left_x && b.center.0 - b.radius <= right_x {
            bounce_spec(b, 1, -1, PADDLE_ACCELERATION_BONUS_FP as int, j)
        } else {
            b
        }
    }
}

impl Ball {
    /// The ball's state invariant: velocity and acceleration within their
    /// bounds, a valid direction, and a radius no larger than the window.
    pub open spec fn wf(&self) -> bool {
        &&& MIN_VELOCITY_FP <= self.velocity <= MAX_VELOCITY_FP
        &&& MIN_ACCELERATION_FP <= self.acceleration <= MAX_ACCELERATION_FP
        &&& dir_ok(self.direction)
        &&& 0 <= self.radius <= crate::WINDOW_HEIGHT_FP
    }

    /// Both center coordinates within the proved arithmetic range.
    pub open spec fn center_in_range(&self) -> bool {
        &&& in_coord_range(self.center.0 as int)
        &&& in_coord_range(self.center.1 as int)
    }

    /// A freshly served ball: centered in the window, base velocity, no
    /// acceleration, moving to the right with a slight downward drift.
    pub open spec fn default_spec() -> Ball {
        Ball {
            center: (600_000, 350_000),
            radius: RADIUS_FP,
            color: (0u8, 0u8, 0u8),
            velocity: DEFAULT_VELOCITY_FP,
            acceleration: 0,
            direction: (1_000, 150),
        }
    }
}

impl Default for Ball {
    /// Serves a new ball in the default state.
    fn default() -> (b: Ball)
        ensures
            b == Ball::default_spec(),
            b.wf(),
            b.center_in_range(),
    {
        Ball {
            center: (600_000, 350_000),
            radius: RADIUS_FP,
            velocity: DEFAULT_VELOCITY_FP,
            acceleration: 0,
            direction: (1_000, 150),
            color: (0, 0, 0),
        }
    }
}

/// Forces `v` into `[lo, hi]`, the upper bound applied first.
fn clamp_i64(v: i64, lo: i64, hi: i64) -> (r: i64)
    requires
        lo <= hi,
    ensures
        r == clamp_spec(v as int, lo as int, hi as int),
{
    let capped = if v > hi {
        hi
    } else {
        v
    };
    if capped < lo {
        lo
    } else {
        capped
    }
}

impl Ball {
    /// Applies a transformation to the ball's direction vector and converts
    /// the bounce into acceleration. The new direction vector stays within
    /// `[-FP, FP]` on both axes and its dominant axis is exactly `FP`: this
    /// is the renormalization invariant. The jitter is handed in by the
    /// caller; `bounce` draws it at random.
    pub fn bounce_with_jitter(&mut self, transform: (i64, i64), accelerate: i64, jitter: i64)
        requires
            old(self).wf(),
            transform.0 == 1 || transform.0 == -1,
            transform.1 == 1 || transform.1 == -1,
            -10_000 <= accelerate <= 10_000,
            -crate::FP <= jitter <= crate::FP,
        ensures
            *final(self) == bounce_spec(
                *old(self),
                transform.0 as int,
                transform.1 as int,
                accelerate as int,
                jitter as int,
            ),
            final(self).wf(),
            dir_ok(final(self).direction),
            final(self).center == old(self).center,
    {
        // Increases acceleration but keeps it between the thresholds.
        self.acceleration = clamp_i64(
            self.acceleration + accelerate,
            MIN_ACCELERATION_FP,
            MAX_ACCELERATION_FP,
        );

        // Applies the transformation vector: each component of it is a sign.
        let tdx = if transform.0 == 1 {
            self.direction.0
        } else {
            -self.direction.0
        };
        let tdy = if transform.1 == 1 {
            self.direction.1
        } else {
            -self.direction.1
        };
        let ghost dx0 = old(self).direction.0 as int;
        let ghost dy0 = old(self).direction.1 as int;
        let ghost tx = transform.0 as int;
        let ghost ty = transform.1 as int;
        proof {
            assert(tdx == dx0 * tx && tdy == dy0 * ty) by (nonlinear_arith)
                requires
                    tx == 1 || tx == -1,
                    ty == 1 || ty == -1,
                    tdx == if tx == 1 {
                        dx0
                    } else {
                        -dx0
                    },
                    tdy == if ty == 1 {
                        dy0
                    } else {
                        -dy0
                    },
            ;
        }
        let new_x = tdx + jitter;
        let new_y = tdy + jitter;

        // Puts both components in the positive and selects the greater one.
        let ax = if new_x >= 0 {
            new_x
        } else {
            -new_x
        };
        let ay = if new_y >= 0 {
            new_y
        } else {
            -new_y
        };
        let m = if ax > ay {
            ax
        } else {
            ay
        };

        if m != 0 {
            // Renormalizes the vector into the `[-FP, FP]` interval, the
            // dominant axis landing exactly on the bound.
            self.direction.0 = renorm_component(new_x, m);
            self.direction.1 = renorm_component(new_y, m);
        }
        // When both components cancel to exactly zero, the renormalization
        // would divide by zero, so the previous direction is kept.
    }

    /// Applies a bounce with a random jitter drawn uniformly from
    /// `[-RANDOM_BOUNCE_BOUND_FP, RANDOM_BOUNCE_BOUND_FP)`, nudging the
    /// direction away from a perfectly predictable reflection.
    pub fn bounce(&mut self, transform: (i64, i64), accelerate: i64, rng: &mut ThreadRng)
        requires
            old(self).wf(),
            transform.0 == 1 || transform.0 == -1,
            transform.1 == 1 || transform.1 == -1,
            -10_000 <= accelerate <= 10_000,
        ensures
            exists|j: int|
                -RANDOM_BOUNCE_BOUND_FP <= j < RANDOM_BOUNCE_BOUND_FP && *final(self)
                    == #[trigger] bounce_spec(
                    *old(self),
                    transform.0 as int,
                    transform.1 as int,
                    accelerate as int,
                    j,
                ),
            final(self).wf(),
            final(self).center == old(self).center,
    {
        let random_bounce = gen_range_i64(rng, -RANDOM_BOUNCE_BOUND_FP, RANDOM_BOUNCE_BOUND_FP);
        self.bounce_with_jitter(transform, accelerate, random_bounce);
        assert(*self == bounce_spec(
            *old(self),
            transform.0 as int,
            transform.1 as int,
            accelerate as int,
            random_bounce as int,
        ));
    }

    /// Whether the ball contains the given point.
    pub fn contains(&self, x: i64, y: i64) -> (r: bool)
        requires
            in_coord_range(x as int),
            in_coord_range(y as int),
            self.center_in_range(),
            0 <= self.radius <= crate::WINDOW_HEIGHT_FP,
        ensures
            r == contains_spec(*self, x as int, y as int),
    {
        let dx = x - self.center.0;
        let dy = y - self.center.1;
        proof {
            assert(dx * dx <= 4_410_000_000_000_000_000 && dx * dx >= 0) by (nonlinear_arith)
                requires
                    -2_100_000_000 <= dx <= 2_100_000_000,
            ;
            assert(dy * dy <= 4_410_000_000_000_000_000 && dy * dy >= 0) by (nonlinear_arith)
                requires
                    -2_100_000_000 <= dy <= 2_100_000_000,
            ;
            assert(self.radius * self.radius <= 4_410_000_000_000_000_000 && self.radius
                * self.radius >= 0) by (nonlinear_arith)
                requires
                    0 <= self.radius <= crate::WINDOW_HEIGHT_FP,
            ;
        }
        dx * dx + dy * dy <= self.radius * self.radius
    }

    /// Checks whether the ball missed a user paddle and hit a wall
    /// perpendicular to the y axis. If so, returns the id of the player who
    /// scored. Does not change the ball: resetting is the caller's job.
    pub fn player_scored(&mut self) -> (r: Option<u8>)
        requires
            old(self).center_in_range(),
            0 <= old(self).radius <= crate::WINDOW_HEIGHT_FP,
        ensures
            *final(self) == *old(self),
            r == scored_spec(*old(self)),
    {
        if self.center.1 + self.radius >= crate::WINDOW_HEIGHT_FP {
            return Option::Some(0);
        }
        if self.center.1 - self.radius <= 0 {
            return Option::Some(1);
        }
        Option::None
    }

    /// Checks whether the ball should bounce from a wall parallel to the
    /// y axis, with the jitter handed in by the caller.
    pub fn bounce_from_wall_with_jitter(&mut self, jitter: i64)
        requires
            old(self).wf(),
            old(self).center_in_range(),
            -crate::FP <= jitter <= crate::FP,
        ensures
            *final(self) == wall_phase(*old(self), jitter as int),
            final(self).wf(),
            final(self).center == old(self).center,
    {
        // If the ball is touching or is beyond the right wall and its
        // direction points right as well, the ball should bounce.
        let bounces_off = self.center.0 + self.radius >= crate::WINDOW_WIDTH_FP
            && self.direction.0 >= 0;

        // A similar check applies for the left wall.
        let bounces_off = bounces_off || (self.center.0 - self.radius <= 0 && self.direction.0
            <= 0);

        if bounces_off {
            // Bounces off a vertical collider - a wall.
            self.bounce_with_jitter((-1, 1), WALL_ACCELERATION_BONUS_FP, jitter);
        }
    }

    /// Checks whether the ball should bounce from a wall parallel to the
    /// y axis, drawing the jitter at random.
    pub fn bounce_from_wall(&mut self, rng: &mut ThreadRng)
        requires
            old(self).wf(),
            old(self).center_in_range(),
        ensures
            exists|j: int|
                -RANDOM_BOUNCE_BOUND_FP <= j < RANDOM_BOUNCE_BOUND_FP && *final(self)
                    == #[trigger] wall_phase(*old(self), j),
            final(self).wf(),
            final(self).center == old(self).center,
    {
        let random_bounce = gen_range_i64(rng, -RANDOM_BOUNCE_BOUND_FP, RANDOM_BOUNCE_BOUND_FP);
        self.bounce_from_wall_with_jitter(random_bounce);
        assert(*self == wall_phase(*old(self), random_bounce as int));
    }

    /// Resolves a collision with one paddle, with the jitter handed in by
    /// the caller: a corner hit reverses both axes, a face hit only the
    /// vertical one, and a ball moving away from the paddle or clear of it
    /// passes unchanged.
    pub fn bounce_from_paddle_with_jitter(&mut self, paddle: &Paddle, jitter: i64)
        requires
            old(self).wf(),
            old(self).center_in_range(),
            paddle.wf(),
            -crate::FP <= jitter <= crate::FP,
        ensures
            *final(self) == paddle_bounce_spec(*old(self), *paddle, jitter as int),
            final(self).wf(),
            final(self).center == old(self).center,
    {
        if paddle.player_id == 0 && self.direction.1 > 0 {
            return ;
        }
        if paddle.player_id == 1 && self.direction.1 < 0 {
            return ;
        }

        let position = paddle.position();
        let left_x = position.0;
        let top_y = position.1;
        let right_x = left_x + paddle.width;
        let bottom_y = top_y + paddle.height;

        if self.contains(left_x, top_y) || self.contains(right_x, top_y) || self.contains(
            left_x,
            bottom_y,
        ) || self.contains(right_x, bottom_y) {
            return self.bounce_with_jitter((-1, -1), PADDLE_ACCELERATION_BONUS_FP, jitter);
        }

        // If the paddle is player one's, but the ball is below the paddle,
        // it has not reached the paddle's face band yet.
        if paddle.player_id == 0 && self.center.1 - self.radius > bottom_y {
            return ;
        }

        // If the paddle is player two's, but the ball is above the paddle,
        // likewise.
        if paddle.player_id == 1 && self.center.1 + self.radius < top_y {
            return ;
        }

        if self.center.0 + self.radius >= left_x && self.center.0 - self.radius <= right_x {
            return self.bounce_with_jitter((1, -1), PADDLE_ACCELERATION_BONUS_FP, jitter);
        }
    }

    /// Resolves a collision with one paddle, drawing the jitter at random.
    pub fn bounce_from_paddle(&mut self, paddle: &Paddle, rng: &mut ThreadRng)
        requires
            old(self).wf(),
            old(self).center_in_range(),
            paddle.wf(),
        ensures
            exists|j: int|
                -RANDOM_BOUNCE_BOUND_FP <= j < RANDOM_BOUNCE_BOUND_FP && *final(self)
                    == #[trigger] paddle_bounce_spec(*old(self), *paddle, j),
            final(self).wf(),
            final(self).center == old(self).center,
    {
        let random_bounce = gen_range_i64(rng, -RANDOM_BOUNCE_BOUND_FP, RANDOM_BOUNCE_BOUND_FP);
        self.bounce_from_paddle_with_jitter(paddle, random_bounce);
        assert(*self == paddle_bounce_spec(*old(self), *paddle, random_bounce as int));
    }

    /// One tick with the jitter handed in by the caller: first checks the
    /// ball's position and bounces it off a wall if it is close to one, then
    /// converts acceleration into speed, then moves the ball.
    pub fn tick_with_jitter(&mut self, jitter: i64)
        requires
            old(self).wf(),
            old(self).center_in_range(),
            -crate::FP <= jitter <= crate::FP,
        ensures
            *final(self) == tick_spec(*old(self), jitter as int),
            final(self).wf(),
            abs_fp(final(self).center.0 as int) <= COORD_LIMIT_FP + MAX_VELOCITY_FP,
            abs_fp(final(self).center.1 as int) <= COORD_LIMIT_FP + MAX_VELOCITY_FP,
    {
        self.bounce_from_wall_with_jitter(jitter);

        // If the acceleration would slow down the ball, sets the
        // acceleration bonus to zero and lets the velocity relax back toward
        // its bounds.
        if self.acceleration < crate::FP {
            self.acceleration = 0;
            let relaxed = ((self.velocity as u64) / (DECREMENT_DIVISOR as u64)) as i64;
            self.velocity = clamp_i64(relaxed, MIN_VELOCITY_FP, MAX_VELOCITY_FP);
        } else {
            // Increments the velocity and decrements the acceleration,
            // keeping the velocity within its bounds.
            let increment = ((self.acceleration as u64) / (INCREMENT_DIVISOR as u64)) as i64;
            self.acceleration = self.acceleration - increment;
            self.velocity = clamp_i64(
                self.velocity + increment,
                MIN_VELOCITY_FP,
                MAX_VELOCITY_FP,
            );
        }

        assert(*self == accel_phase(wall_phase(*old(self), jitter as int)));

        // Advances the center by the velocity along the direction.
        let step_x = step_component(self.velocity, self.direction.0);
        let step_y = step_component(self.velocity, self.direction.1);
        self.center.0 = self.center.0 + step_x;
        self.center.1 = self.center.1 + step_y;
    }

    /// One tick of the ball with a randomly drawn bounce jitter.
    pub fn tick(&mut self, rng: &mut ThreadRng)
        requires
            old(self).wf(),
            old(self).center_in_range(),
        ensures
            exists|j: int|
                -RANDOM_BOUNCE_BOUND_FP <= j < RANDOM_BOUNCE_BOUND_FP && *final(self)
                    == #[trigger] tick_spec(*old(self), j),
            final(self).wf(),
            abs_fp(final(self).center.0 as int) <= COORD_LIMIT_FP + MAX_VELOCITY_FP,
            abs_fp(final(self).center.1 as int) <= COORD_LIMIT_FP + MAX_VELOCITY_FP,
    {
        let random_bounce = gen_range_i64(rng, -RANDOM_BOUNCE_BOUND_FP, RANDOM_BOUNCE_BOUND_FP);
        self.tick_with_jitter(random_bounce);
        assert(*self == tick_spec(*old(self), random_bounce as int));
    }
}

/// The renormalization invariant: any bounce of a well-formed ball, with any
/// transform signs, bonus and jitter, leaves both direction components
/// within one fixed-point unit and the dominant component exactly one unit,
/// and keeps the acceleration within its bounds.
pub proof fn lemma_bounce_keeps_invariants(b: Ball, tx: int, ty: int, bonus: int, j: int)
    requires
        b.wf(),
        tx == 1 || tx == -1,
        ty == 1 || ty == -1,
        -10_000 <= bonus <= 10_000,
        -crate::FP <= j <= crate::FP,
    ensures
        bounce_spec(b, tx, ty, bonus, j).wf(),
        dir_ok(bounce_spec(b, tx, ty, bonus, j).direction),
        max_fp(
            abs_fp(bounce_spec(b, tx, ty, bonus, j).direction.0 as int),
            abs_fp(bounce_spec(b, tx, ty, bonus, j).direction.1 as int),
        ) == crate::FP,
        MIN_ACCELERATION_FP <= bounce_spec(b, tx, ty, bonus, j).acceleration
            <= MAX_ACCELERATION_FP,
{
    let nx = b.direction.0 * tx + j;
    let ny = b.direction.1 * ty + j;
    let m = max_fp(abs_fp(nx), abs_fp(ny));
    if m != 0 {
        lemma_scale_down_renorm(nx, m);
        lemma_scale_down_renorm(ny, m);
    }
}

/// The clamp invariant: one tick of a well-formed ball, with any jitter,
/// keeps the velocity and the acceleration within their bounds and the
/// direction valid. By induction this holds along every sequence of ticks
/// and bounces starting from the default ball.
pub proof fn lemma_tick_keeps_invariants(b: Ball, j: int)
    requires
        b.wf(),
        -crate::FP <= j <= crate::FP,
    ensures
        tick_spec(b, j).wf(),
        MIN_VELOCITY_FP <= tick_spec(b, j).velocity <= MAX_VELOCITY_FP,
        MIN_ACCELERATION_FP <= tick_spec(b, j).acceleration <= MAX_ACCELERATION_FP,
{
    let wb = wall_phase(b, j);
    if wall_bounce_triggers(b) {
        lemma_bounce_keeps_invariants(b, -1, 1, WALL_ACCELERATION_BONUS_FP as int, j);
    }
    if wb.acceleration >= crate::FP {
        let inc = (wb.acceleration as int) / (INCREMENT_DIVISOR as int);
        vstd::arithmetic::div_mod::lemma_div_is_ordered(
            wb.acceleration as int,
            MAX_ACCELERATION_FP as int,
            INCREMENT_DIVISOR as int,
        );
        vstd::arithmetic::div_mod::lemma_div_is_ordered(
            crate::FP as int,
            wb.acceleration as int,
            INCREMENT_DIVISOR as int,
        );
    }
}

/// The renormalized value of a component `n` whose magnitude is at most the
/// dominant magnitude `m` lies within one fixed-point unit, and lands
/// exactly on the unit when `n` is the dominant component.
proof fn lemma_scale_down_renorm(n: int, m: int)
    requires
        0 < m,
        abs_fp(n) <= m,
    ensures
        -crate::FP <= scale_down(n * (crate::FP as int), m) <= crate::FP,
        abs_fp(n) == m ==> abs_fp(scale_down(n * (crate::FP as int), m)) == crate::FP,
{
    if n >= 0 {
        lemma_renorm_bounds(n, m);
    } else {
        lemma_renorm_bounds(-n, m);
        assert(-(n * (crate::FP as int)) == (-n) * (crate::FP as int)) by (nonlinear_arith);
    }
}

/// Once a player scored and the ball is reset to its default state, the
/// fresh ball does not score immediately: it sits in the middle of the
/// window, away from both scoring boundaries.
pub proof fn lemma_reset_clears_score()
    ensures
        scored_spec(Ball::default_spec()) is None,
{
}

/// One component of the renormalization: scales `n` by the fixed-point unit
/// and divides by the dominant magnitude `m`, truncating toward zero.
fn renorm_component(n: i64, m: i64) -> (r: i64)
    requires
        -3_000 <= n <= 3_000,
        0 < m <= 3_000,
        abs_fp(n as int) <= m,
    ensures
        r == scale_down(n * (crate::FP as int), m as int),
        -crate::FP <= r <= crate::FP,
        abs_fp(n as int) == m ==> abs_fp(r as int) == crate::FP,
{
    let a = if n >= 0 {
        n
    } else {
        -n
    };
    let mag = ((a as u64) * (crate::FP as u64) / (m as u64)) as i64;
    proof {
        lemma_renorm_bounds(a as int, m as int);
        if n < 0 {
            assert(-(n * (crate::FP as int)) == (-n) * (crate::FP as int)) by (nonlinear_arith);
        }
    }
    if n >= 0 {
        mag
    } else {
        -mag
    }
}

/// Renormalization bounds: a magnitude at most the maximum scales to at most
/// one fixed-point unit, and the maximum itself scales to exactly one unit.
proof fn lemma_renorm_bounds(a: int, m: int)
    requires
        0 <= a <= m,
        0 < m,
    ensures
        0 <= a * (crate::FP as int) / m <= crate::FP,
        a == m ==> a * (crate::FP as int) / m == crate::FP,
{
    assert(a * (crate::FP as int) <= m * (crate::FP as int) && 0 <= a * (crate::FP as int))
        by (nonlinear_arith)
        requires
            0 <= a <= m,
    ;
    vstd::arithmetic::div_mod::lemma_div_is_ordered(
        a * (crate::FP as int),
        m * (crate::FP as int),
        m,
    );
    vstd::arithmetic::div_mod::lemma_div_multiples_vanish(crate::FP as int, m);
    vstd::arithmetic::div_mod::lemma_div_is_ordered(0, a * (crate::FP as int), m);
}

/// One component of the ball's displacement: the velocity scaled by the
/// direction component, truncating toward zero.
fn step_component(velocity: i64, d: i64) -> (r: i64)
    requires
        MIN_VELOCITY_FP <= velocity <= MAX_VELOCITY_FP,
        -crate::FP <= d <= crate::FP,
    ensures
        r == scaled_step(velocity as int, d as int),
        -MAX_VELOCITY_FP <= r <= MAX_VELOCITY_FP,
{
    let a = if d >= 0 {
        d
    } else {
        -d
    };
    proof {
        assert(velocity * a <= 6_000_000 && 0 <= velocity * a) by (nonlinear_arith)
            requires
                0 <= velocity <= MAX_VELOCITY_FP,
                0 <= a <= crate::FP,
        ;
    }
    let mag = ((velocity as u64) * (a as u64) / (crate::FP as u64)) as i64;
    proof {
        lemma_step_bound(velocity as int, a as int);
    }
    if d >= 0 {
        mag
    } else {
        -mag
    }
}

/// A displacement component is at most the velocity.
proof fn lemma_step_bound(v: int, a: int)
    requires
        0 <= v <= MAX_VELOCITY_FP,
        0 <= a <= crate::FP,
    ensures
        0 <= v * a / (crate::FP as int) <= MAX_VELOCITY_FP,
{
    assert(0 <= v * a <= MAX_VELOCITY_FP * (crate::FP as int)) by (nonlinear_arith)
        requires
            0 <= v <= MAX_VELOCITY_FP,
            0 <= a <= crate::FP,
    ;
    vstd::arithmetic::div_mod::lemma_div_is_ordered(
        v * a,
        MAX_VELOCITY_FP * (crate::FP as int),
        crate::FP as int,
    );
    vstd::arithmetic::div_mod::lemma_div_multiples_vanish(
        MAX_VELOCITY_FP as int,
        crate::FP as int,
    );
    vstd::arithmetic::div_mod::lemma_div_is_ordered(0, v * a, crate::FP as int);
}

#[verifier::external_type_specification]
#[verifier::external_body]
pub struct ExThreadRng(ThreadRng);

/// Relies on rand's `Rng::gen_range`: returns a uniform value in
/// `[low, high)`. It panics when `low >= high`, which the precondition
/// rules out.
#[verifier::external_body]
fn gen_range_i64(rng: &mut ThreadRng, low: i64, high: i64) -> (r: i64)
    requires
        low < high,
    ensures
        low <= r < high,
{
    rng.gen_range(low, high)
}

} // verus!
