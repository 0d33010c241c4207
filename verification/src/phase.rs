//! The phase state machine: the game sequences calibration, controller
//! reading and play. The transition table is pure; the surrounding loop
//! performs the action each step asks for.

use vstd::prelude::*;

verus! {

/// Classifies which phase the game is currently at. The enum is important
/// for a correct game flow and camera calibration.
#[derive(PartialEq, Eq, Structural, Clone, Copy, Debug)]
pub enum Phase {
    /// A countdown runs while the playfield is cleared; at zero the camera
    /// takes captures of the empty playfield to map the background.
    MapsPlayfield { count_down: usize },
    /// A square is rendered and the players are instructed to put the object
    /// they wish to control the game with in front of the camera.
    ReadsController,
    /// The camera module is set up for both players and the game begins by
    /// rendering the ball.
    PlaysPong,
}

/// What the game loop must do after a phase step.
#[derive(PartialEq, Eq, Structural, Clone, Copy, Debug)]
pub enum PhaseAction {
    /// Wait a beat and show the remaining countdown.
    CountsDown(usize),
    /// Capture the empty playfield, calibrate the background model against
    /// it, and hand the camera over to the capture loop.
    Calibrates,
    /// Nothing: the phase moves on by itself.
    Proceeds,
    /// Advance the ball and the paddles by one tick of play.
    Advances,
}

/// The transition table of the game: phases advance one-directionally from
/// calibration through controller reading into play, and play loops forever.
pub open spec fn update_spec(p: Phase) -> (Phase, PhaseAction) {
    match p {
        Phase::MapsPlayfield { count_down } => if count_down == 0 {
            (Phase::ReadsController, PhaseAction::Calibrates)
        } else {
            (
                Phase::MapsPlayfield { count_down: (count_down - 1) as usize },
                PhaseAction::CountsDown((count_down - 1) as usize),
            )
        },
        Phase::ReadsController => (Phase::PlaysPong, PhaseAction::Proceeds),
        Phase::PlaysPong => (Phase::PlaysPong, PhaseAction::Advances),
    }
}

impl Phase {
    /// One step of the phase state machine: returns the next phase and the
    /// action the game loop owes for this step. The table is exhaustive and
    /// never moves backward.
    pub fn update(self) -> (r: (Phase, PhaseAction))
        ensures
            r == update_spec(self),
    {
        match self {
            Phase::MapsPlayfield { count_down } => {
                if count_down == 0 {
                    (Phase::ReadsController, PhaseAction::Calibrates)
                } else {
                    (
                        Phase::MapsPlayfield { count_down: count_down - 1 },
                        PhaseAction::CountsDown(count_down - 1),
                    )
                }
            },
            Phase::ReadsController => (Phase::PlaysPong, PhaseAction::Proceeds),
            Phase::PlaysPong => (Phase::PlaysPong, PhaseAction::Advances),
        }
    }
}

} // verus!
