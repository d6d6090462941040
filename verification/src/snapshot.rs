//! Snapshots: what a world hands out to be sent or kept, and what restoring
//! one does to a world.
//!
//! A snapshot holds no handles: they mean nothing outside the engine that
//! gave them. It holds the round, the advantage, both players' inputs, the
//! cannon's place, the pads' places, the identifiers of the live
//! projectiles and the counter of identifiers, so that a world that has
//! restored a snapshot goes on as the world that took it. The kinematic
//! data of the bodies travels beside it.

use crate::command::PlayerInput;
use crate::ids::kept;
use crate::rules::{
    retained, AdvantageState, Player, PowerPad, PowerPadStatus, WorldView, ID_LIMIT,
};
use vstd::prelude::*;

verus! {

/// A player in a snapshot.
#[derive(Clone, Copy, Debug, PartialEq, Eq, Structural)]
pub struct PlayerSnapshot {
    pub input: PlayerInput,
}

/// A world in a snapshot.
#[derive(Clone, Debug)]
pub struct GameSnapshot {
    pub round: u8,
    pub advantage_state: AdvantageState,
    pub player1: PlayerSnapshot,
    pub player2: PlayerSnapshot,
    pub cannon_x_position: i32,
    pub bottom_power_pad_status: PowerPadStatus,
    pub top_power_pad_status: PowerPadStatus,
    pub next_projectile_id: u32,
    pub projectiles: Vec<u16>,
}

/// The mathematical view of a snapshot.
pub struct SnapshotView {
    pub round: u8,
    pub advantage_state: AdvantageState,
    pub player1: PlayerSnapshot,
    pub player2: PlayerSnapshot,
    pub cannon_x_position: i32,
    pub bottom_power_pad_status: PowerPadStatus,
    pub top_power_pad_status: PowerPadStatus,
    pub next_projectile_id: u32,
    pub projectiles: Seq<u16>,
}

impl View for GameSnapshot {
    type V = SnapshotView;

    open spec fn view(&self) -> SnapshotView {
        SnapshotView {
            round: self.round,
            advantage_state: self.advantage_state,
            player1: self.player1,
            player2: self.player2,
            cannon_x_position: self.cannon_x_position,
            bottom_power_pad_status: self.bottom_power_pad_status,
            top_power_pad_status: self.top_power_pad_status,
            next_projectile_id: self.next_projectile_id,
            projectiles: self.projectiles@,
        }
    }
}

/// What a restore leaves to be done and undone in the engine.
pub struct Restoration {
    /// Identifiers in the snapshot with no live projectile: each is to be
    /// created in the engine and registered.
    pub missing: Vec<u16>,
    /// Projectiles that lived and are not in the snapshot: they have left
    /// the world and their bodies are to leave the engine.
    pub removed: Vec<crate::rules::Projectile>,
}

/// One past the largest of the identifiers, 0 if there is none.
pub open spec fn above(ids: Seq<u16>) -> int
    decreases ids.len(),
{
    if ids.len() == 0 {
        0
    } else if above(ids.drop_last()) > ids.last() {
        above(ids.drop_last())
    } else {
        ids.last() + 1
    }
}

impl SnapshotView {
    /// Whether the snapshot is one that a world can have taken: the counter
    /// of identifiers stands above every identifier and within the limit.
    pub open spec fn sound(self) -> bool {
        above(self.projectiles) <= self.next_projectile_id <= ID_LIMIT
    }

    /// The counter of identifiers that a restore sets: the snapshot's,
    /// cut to the limit and lifted above every identifier that the
    /// snapshot holds. For a sound snapshot it is the snapshot's.
    pub open spec fn counter(self) -> u32 {
        let cut = if self.next_projectile_id > ID_LIMIT {
            ID_LIMIT
        } else {
            self.next_projectile_id
        };
        if above(self.projectiles) > cut {
            above(self.projectiles) as u32
        } else {
            cut
        }
    }
}

/// `above` stands above every identifier and within the limit.
pub proof fn lemma_above(ids: Seq<u16>)
    ensures
        0 <= above(ids) <= ID_LIMIT,
        forall|i: int| 0 <= i < ids.len() ==> (#[trigger] ids[i]) < above(ids),
        ids.len() > 0 ==> ids.contains((above(ids) - 1) as u16),
    decreases ids.len(),
{
    if ids.len() > 0 {
        let rest = ids.drop_last();
        lemma_above(rest);
        assert forall|i: int| 0 <= i < ids.len() implies (#[trigger] ids[i]) < above(ids) by {
            if i < rest.len() {
                assert(rest[i] == ids[i]);
            }
        }
        if above(rest) > ids.last() {
            let k = choose|k: int| 0 <= k < rest.len() && rest[k] == (above(rest) - 1) as u16;
            assert(ids[k] == rest[k]);
        } else {
            assert(ids[ids.len() - 1] == ids.last());
        }
    }
}

/// One past the largest of the identifiers.
pub fn one_above(ids: &Vec<u16>) -> (top: u32)
    ensures
        top == above(ids@),
{
    let mut top: u32 = 0;
    let mut i: usize = 0;
    while i < ids.len()
        invariant
            0 <= i <= ids.len(),
            top == above(ids@.take(i as int)),
            top <= ID_LIMIT,
        decreases ids.len() - i,
    {
        proof {
            assert(ids@.take(i + 1).drop_last() =~= ids@.take(i as int));
            lemma_above(ids@.take(i + 1));
        }
        let id = ids[i];
        if top <= id as u32 {
            top = id as u32 + 1;
        }
        i += 1;
    }
    proof {
        assert(ids@.take(ids.len() as int) =~= ids@);
    }
    top
}

impl GameSnapshot {
    /// The counter of identifiers that a restore of the snapshot sets.
    pub fn counter(&self) -> (counter: u32)
        ensures
            counter == self@.counter(),
    {
        let cut = if self.next_projectile_id > ID_LIMIT {
            ID_LIMIT
        } else {
            self.next_projectile_id
        };
        let top = one_above(&self.projectiles);
        if top > cut {
            top
        } else {
            cut
        }
    }
}

impl WorldView {
    /// The snapshot of a world.
    pub open spec fn snapshot(self) -> SnapshotView {
        SnapshotView {
            round: self.round,
            advantage_state: self.advantage_state,
            player1: PlayerSnapshot { input: self.player1.input },
            player2: PlayerSnapshot { input: self.player2.input },
            cannon_x_position: self.cannon_x_position,
            bottom_power_pad_status: self.bottom_power_pad.status,
            top_power_pad_status: self.top_power_pad.status,
            next_projectile_id: self.next_projectile_id,
            projectiles: self.ids(),
        }
    }

    /// The world after a restore, before the missing projectiles are
    /// registered: round, advantage, inputs, cannon, pad places and the
    /// counter of identifiers are the snapshot's; of the live projectiles
    /// those stay whose identifier the snapshot holds. Only the handles are
    /// the world's own.
    pub open spec fn restored(self, snapshot: SnapshotView) -> WorldView {
        WorldView {
            player1: Player { input: snapshot.player1.input, ..self.player1 },
            player2: Player { input: snapshot.player2.input, ..self.player2 },
            cannon_x_position: snapshot.cannon_x_position,
            bottom_power_pad: PowerPad {
                status: snapshot.bottom_power_pad_status,
                ..self.bottom_power_pad
            },
            top_power_pad: PowerPad { status: snapshot.top_power_pad_status, ..self.top_power_pad },
            next_projectile_id: snapshot.counter(),
            projectiles: retained(self.projectiles, snapshot.projectiles, true),
            advantage_state: snapshot.advantage_state,
            round: snapshot.round,
        }
    }

    /// The identifiers that a snapshot holds and the world does not, in
    /// the snapshot's order.
    pub open spec fn missing(self, snapshot: SnapshotView) -> Seq<u16> {
        kept(snapshot.projectiles, self.ids(), false)
    }

    /// The projectiles that a restore takes out of the world.
    pub open spec fn surplus(self, snapshot: SnapshotView) -> Seq<crate::rules::Projectile> {
        retained(self.projectiles, snapshot.projectiles, false)
    }
}

} // verus!
