//! What the world shows: the state handed to rendering, and how two such
//! states are joined for a frame between two ticks.
//!
//! A display state holds the discrete part of what is shown. Positions are
//! blended beside it, and only where `from_interpolation` says so.

use crate::ids::{keep_ids, kept};
use crate::rules::{PowerPadStatus, WorldView};
use vstd::prelude::*;

verus! {

/// What is shown of a world.
#[derive(Clone, Debug)]
pub struct GameDisplayState {
    pub round: u8,
    pub cannon_x_position: i32,
    pub bottom_power_pad_status: PowerPadStatus,
    pub top_power_pad_status: PowerPadStatus,
    pub projectiles: Vec<u16>,
}

/// The mathematical view of a display state.
pub struct DisplayView {
    pub round: u8,
    pub cannon_x_position: i32,
    pub bottom_power_pad_status: PowerPadStatus,
    pub top_power_pad_status: PowerPadStatus,
    pub projectiles: Seq<u16>,
}

impl View for GameDisplayState {
    type V = DisplayView;

    open spec fn view(&self) -> DisplayView {
        DisplayView {
            round: self.round,
            cannon_x_position: self.cannon_x_position,
            bottom_power_pad_status: self.bottom_power_pad_status,
            top_power_pad_status: self.top_power_pad_status,
            projectiles: self.projectiles@,
        }
    }
}

/// How to join two display states.
#[derive(Clone, Debug)]
pub enum Interpolation {
    /// The two states lie in different rounds: the later state is shown as
    /// it is, nothing is blended.
    Discontinuity(GameDisplayState),
    /// The two states lie in one round. Round and pad places are the later
    /// state's. Player positions and the cannon's place are blended. Of the
    /// projectiles those in `projectiles` are shown, which both states
    /// hold: each with the later state's horizontal position and rotation
    /// and a blended height.
    Blend {
        round: u8,
        bottom_power_pad_status: PowerPadStatus,
        top_power_pad_status: PowerPadStatus,
        projectiles: Vec<u16>,
    },
}

/// The mathematical view of an `Interpolation`.
pub enum InterpolationView {
    Discontinuity(DisplayView),
    Blend {
        round: u8,
        bottom_power_pad_status: PowerPadStatus,
        top_power_pad_status: PowerPadStatus,
        projectiles: Seq<u16>,
    },
}

impl View for Interpolation {
    type V = InterpolationView;

    open spec fn view(&self) -> InterpolationView {
        match *self {
            Interpolation::Discontinuity(state) => InterpolationView::Discontinuity(state@),
            Interpolation::Blend {
                round,
                bottom_power_pad_status,
                top_power_pad_status,
                projectiles,
            } => InterpolationView::Blend {
                round,
                bottom_power_pad_status,
                top_power_pad_status,
                projectiles: projectiles@,
            },
        }
    }
}

impl WorldView {
    /// What is shown of the world.
    pub open spec fn display(self) -> DisplayView {
        DisplayView {
            round: self.round,
            cannon_x_position: self.cannon_x_position,
            bottom_power_pad_status: self.bottom_power_pad.status,
            top_power_pad_status: self.top_power_pad.status,
            projectiles: self.ids(),
        }
    }
}

/// The join of an earlier and a later display state.
pub open spec fn interpolated(earlier: DisplayView, later: DisplayView) -> InterpolationView {
    if earlier.round != later.round {
        InterpolationView::Discontinuity(later)
    } else {
        InterpolationView::Blend {
            round: later.round,
            bottom_power_pad_status: later.bottom_power_pad_status,
            top_power_pad_status: later.top_power_pad_status,
            projectiles: kept(earlier.projectiles, later.projectiles, true),
        }
    }
}

/// A copy of a list of identifiers.
pub fn copy_ids(ids: &Vec<u16>) -> (copy: Vec<u16>)
    ensures
        copy@ == ids@,
{
    let mut copy: Vec<u16> = Vec::new();
    let mut i: usize = 0;
    while i < ids.len()
        invariant
            0 <= i <= ids.len(),
            copy@ == ids@.take(i as int),
        decreases ids.len() - i,
    {
        copy.push(ids[i]);
        proof {
            assert(ids@.take(i + 1) =~= ids@.take(i as int).push(ids[i as int]));
        }
        i += 1;
    }
    proof {
        assert(ids@.take(ids.len() as int) =~= ids@);
    }
    copy
}

impl GameDisplayState {
    /// Joins two display states, the earlier first. Across a round
    /// boundary nothing is blended: the later state stands. Within a round
    /// the projectiles that only one of the states holds are not shown.
    pub fn from_interpolation(state1: &GameDisplayState, state2: &GameDisplayState) -> (joined:
        Interpolation)
        ensures
            joined@ == interpolated(state1@, state2@),
    {
        if state1.round != state2.round {
            Interpolation::Discontinuity(
                GameDisplayState {
                    round: state2.round,
                    cannon_x_position: state2.cannon_x_position,
                    bottom_power_pad_status: state2.bottom_power_pad_status,
                    top_power_pad_status: state2.top_power_pad_status,
                    projectiles: copy_ids(&state2.projectiles),
                },
            )
        } else {
            Interpolation::Blend {
                round: state2.round,
                bottom_power_pad_status: state2.bottom_power_pad_status,
                top_power_pad_status: state2.top_power_pad_status,
                projectiles: keep_ids(&state1.projectiles, &state2.projectiles, true),
            }
        }
    }
}

} // verus!
