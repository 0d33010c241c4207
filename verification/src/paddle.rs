//! The paddle: a rectangle pinned to its player's edge of the window whose
//! horizontal position follows that player's controller.

use vstd::prelude::*;

verus! {

/// Default paddle width in fixed-point units.
pub const PADDLE_WIDTH_FP: i64 = 50_000;

/// Default paddle height in fixed-point units.
pub const PADDLE_HEIGHT_FP: i64 = 10_000;

pub struct Paddle {
    /// Which player controls the paddle.
    pub player_id: u8,
    /// Width of the rectangle representing the paddle, in fixed-point units.
    pub width: i64,
    /// Height of the rectangle representing the paddle, in fixed-point units.
    pub height: i64,
    /// How many times the paddle has failed to bounce the ball.
    pub deaths: usize,
    /// Paddle colour, used to draw the paddle in the next tick.
    pub color: (u8, u8, u8),
    /// The latest controller position for this player, in window pixels. The
    /// tracking side publishes it; the game loop copies it in here.
    pub x: u32,
}

impl Paddle {
    /// A paddle of a real player whose controller position lies within the
    /// window, as the locator guarantees.
    pub open spec fn wf(&self) -> bool {
        &&& self.player_id == 0 || self.player_id == 1
        &&& 0 < self.width <= crate::WINDOW_WIDTH_FP
        &&& 0 <= self.height <= crate::WINDOW_HEIGHT_FP
        &&& self.x <= crate::WINDOW_WIDTH
    }

    /// Where the paddle's top-left corner sits: the controller position
    /// centers the paddle horizontally, clamped so the paddle stays inside
    /// the window; vertically player 0's paddle hangs from the top edge and
    /// player 1's sits on the bottom edge.
    pub open spec fn position_spec(&self) -> (int, int) {
        let centered = self.x * (crate::FP as int) - self.width / 2;
        let capped = if centered > crate::WINDOW_WIDTH_FP - self.width {
            crate::WINDOW_WIDTH_FP - self.width
        } else {
            centered
        };
        let clamped = if capped < 0 {
            0int
        } else {
            capped
        };
        (clamped, self.player_id * (crate::WINDOW_HEIGHT_FP - self.height))
    }

    /// Spawns a new player's paddle of the default size.
    pub fn new(player_id: u8, x: u32) -> (p: Paddle)
        requires
            player_id == 0 || player_id == 1,
            x <= crate::WINDOW_WIDTH,
        ensures
            p == (Paddle {
                player_id,
                width: PADDLE_WIDTH_FP,
                height: PADDLE_HEIGHT_FP,
                deaths: 0,
                color: (0u8, 0u8, 0u8),
                x,
            }),
            p.wf(),
    {
        Paddle { x, player_id, deaths: 0, color: (0, 0, 0), width: PADDLE_WIDTH_FP, height: PADDLE_HEIGHT_FP }
    }

    /// Returns the position of the top left corner of the paddle, in
    /// fixed-point units. The x coordinate never leaves
    /// `[0, WINDOW_WIDTH_FP - width]`.
    pub fn position(&self) -> (r: (i64, i64))
        requires
            self.wf(),
        ensures
            r.0 == self.position_spec().0,
            r.1 == self.position_spec().1,
            0 <= r.0 <= crate::WINDOW_WIDTH_FP - self.width,
            0 <= r.1 <= crate::WINDOW_HEIGHT_FP,
    {
        let half_width = (self.width as u64 / 2) as i64;
        let centered = (self.x as i64) * crate::FP - half_width;
        let capped = if centered > crate::WINDOW_WIDTH_FP - self.width {
            crate::WINDOW_WIDTH_FP - self.width
        } else {
            centered
        };
        let clamped = if capped < 0 {
            0
        } else {
            capped
        };
        let vertical = if self.player_id == 0 {
            0
        } else {
            crate::WINDOW_HEIGHT_FP - self.height
        };
        proof {
            assert(vertical == self.player_id * (crate::WINDOW_HEIGHT_FP - self.height))
                by (nonlinear_arith)
                requires
                    self.player_id == 0 || self.player_id == 1,
                    vertical == if self.player_id == 0 {
                        0int
                    } else {
                        crate::WINDOW_HEIGHT_FP - self.height as int
                    },
            ;
        }
        (clamped, vertical)
    }
}

} // verus!
