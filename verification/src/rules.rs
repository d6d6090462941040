//! The rules of a tick, as functions on a mathematical view of the world.
//!
//! Everything here is specification: the executable world in `world` is
//! proved to follow these functions, and the laws in `laws` are proved of
//! them.

use crate::command::{GameCommand, PlayerId, PlayerInput};
use crate::engine::Handle;
use crate::layout::{
    bottom_pad_places, bottom_start, top_pad_places, top_start, Position, ARENA_CENTER,
};
use vstd::prelude::*;

verus! {

/// Cannon travel per tick while a direction is held.
pub const CANNON_SPEED: i32 = 5;

/// Leftmost place of the cannon.
pub const CANNON_MIN: i32 = 100;

/// Rightmost place of the cannon.
pub const CANNON_MAX: i32 = 900;

/// Where the cannon stands at the start of a round.
pub const CANNON_HOME: i32 = 500;

/// Height at which the cannon stands and projectiles start.
pub const CANNON_HEIGHT: i32 = 500;

/// Muzzle speed of a projectile, as a linear velocity of the engine.
pub const PROJECTILE_SPEED: i32 = 6;

/// The number of identifiers: a projectile's identifier is below it, and
/// so is the counter of identifiers given out, until all are used.
pub const ID_LIMIT: u32 = 65536;

/// No shot is fired while this many projectiles are live.
pub const PROJECTILE_CAP: usize = 10;

/// Vertical speed that a jump sets, as a linear velocity of the engine.
pub const JUMP_SPEED: i32 = 20;

/// Horizontal speed while a direction is held, as a linear velocity of the
/// engine.
pub const RUN_SPEED: i32 = 15;

/// Weight of a player in thousandths of a force unit: 9.81 scaled by 5.
pub const GRAVITY_FORCE_MILLI: i32 = 49050;

/// Who controls the shared cannon.
#[derive(Clone, Copy, Debug, PartialEq, Eq, Structural)]
pub enum AdvantageState {
    Neutral,
    Player1,
    Player2,
}

/// Which of its two places a power pad occupies.
#[derive(Clone, Copy, Debug, PartialEq, Eq, Structural)]
pub enum PowerPadStatus {
    Left,
    Right,
}

/// A player: the player's body and collider in the engine, and the last
/// known state of the controls.
#[derive(Clone, Copy, Debug, PartialEq, Eq, Structural)]
pub struct Player {
    pub body_handle: Handle,
    pub collider_handle: Handle,
    pub input: PlayerInput,
}

/// A power pad: its body and collider in the engine, and its place.
#[derive(Clone, Copy, Debug, PartialEq, Eq, Structural)]
pub struct PowerPad {
    pub body_handle: Handle,
    pub collider_handle: Handle,
    pub status: PowerPadStatus,
}

/// A live projectile: its identifier, and its body and collider in the
/// engine.
#[derive(Clone, Copy, Debug, PartialEq, Eq, Structural)]
pub struct Projectile {
    pub id: u16,
    pub body_handle: Handle,
    pub collider_handle: Handle,
}

/// What a player's controls do to the player's body in a tick of
/// platforming. Velocities are linear velocities of the engine.
#[derive(Clone, Copy, Debug, PartialEq, Eq, Structural)]
pub struct Drive {
    /// The horizontal velocity to set.
    pub x_velocity: i32,
    /// The vertical velocity to set; `None` keeps the body's own.
    pub jump_velocity: Option<i32>,
    /// The vertical force to apply, in thousandths.
    pub force_y_milli: i32,
}

/// What a player's controls drive in a tick.
#[derive(Clone, Copy, Debug, PartialEq, Eq, Structural)]
pub enum Control {
    /// The player holds the advantage and moves the cannon; the body is
    /// left alone.
    Cannon,
    /// The player runs and jumps.
    Platform(Drive),
}

/// A projectile to create: its identifier, where it starts in display
/// units, and its vertical linear velocity in the engine.
#[derive(Clone, Copy, Debug, PartialEq, Eq, Structural)]
pub struct Spawn {
    pub id: u16,
    pub position: Position,
    pub velocity_y: i32,
}

/// What the first phase of a tick asks of the engine.
#[derive(Clone, Copy, Debug, PartialEq, Eq, Structural)]
pub struct ControlPlan {
    pub player1: Control,
    pub player2: Control,
    pub spawn: Option<Spawn>,
}

/// What has to be written into the engine after the rules have settled a
/// tick.
#[derive(Clone, Copy, Debug, PartialEq, Eq, Structural)]
pub enum Outcome {
    /// A player died. Both players go back to their start positions with no
    /// velocity, both pads to their starting places.
    RoundReset,
    /// `by` took the advantage. The player's velocity is zeroed and the
    /// opponent's pad moves to `position`, its place `pad`.
    Captured { by: PlayerId, pad: PowerPadStatus, position: Position },
    /// Both players claimed their pad in one tick: nobody holds the
    /// advantage, nothing moves.
    Contested,
    /// Nothing to write.
    Quiet,
}

/// One write into the engine that the rules ask for.
#[derive(Clone, Copy, Debug, PartialEq, Eq, Structural)]
pub enum BodyWrite {
    /// Move the body to a position, given in display units.
    Place { body: Handle, position: Position },
    /// Set the body's linear velocity to zero.
    Halt { body: Handle },
}

/// What the engine reports after integration, as the rules read it.
pub struct Sensed {
    /// The player's collider overlaps a lethal zone.
    pub player1_dead: bool,
    pub player2_dead: bool,
    /// The player has an active contact with the player's own pad.
    pub player1_on_pad: bool,
    pub player2_on_pad: bool,
    /// The player's horizontal position in display units, rounded down.
    pub player1_x: i32,
    pub player2_x: i32,
    /// The projectiles that overlap a solid collider.
    pub struck: Seq<u16>,
}

/// The mathematical view of the world: all that the rules read and write.
pub struct WorldView {
    pub player1: Player,
    pub player2: Player,
    pub cannon_x_position: i32,
    pub bottom_power_pad: PowerPad,
    pub top_power_pad: PowerPad,
    pub next_projectile_id: u32,
    pub projectiles: Seq<Projectile>,
    pub advantage_state: AdvantageState,
    pub round: u8,
}

/// A world after the last phase of a tick, with what is to be written into
/// the engine and the projectiles that left the world.
pub struct Settled {
    pub world: WorldView,
    pub outcome: Outcome,
    pub removed: Seq<Projectile>,
}

/// The advantage that a player holds when the player holds it.
pub open spec fn advantage_of(id: PlayerId) -> AdvantageState {
    match id {
        PlayerId::Player1 => AdvantageState::Player1,
        PlayerId::Player2 => AdvantageState::Player2,
    }
}

/// The cannon's range.
pub open spec fn clamp_cannon(x: int) -> int {
    if x < CANNON_MIN {
        CANNON_MIN as int
    } else if x > CANNON_MAX {
        CANNON_MAX as int
    } else {
        x
    }
}

/// The cannon's place after a tick under `input`: a held left moves it one
/// step against the holder's sign, then a held right one step with it, each
/// move kept in range.
pub open spec fn aimed(x: int, input: PlayerInput, sign: int) -> int {
    let after_left = if input.left {
        clamp_cannon(x - CANNON_SPEED * sign)
    } else {
        x
    };
    if input.right {
        clamp_cannon(after_left + CANNON_SPEED * sign)
    } else {
        after_left
    }
}

/// A shot may be fired while fewer projectiles than the cap are live and an
/// identifier is left that was never given out.
pub open spec fn may_fire(live: nat, next_projectile_id: u32) -> bool {
    live < PROJECTILE_CAP && next_projectile_id < ID_LIMIT
}

/// What the controls ask of a platforming player's body.
pub open spec fn drive_of(input: PlayerInput, sign: int, grounded: bool) -> DriveModel {
    DriveModel {
        x_velocity: RUN_SPEED * sign * ((if input.right {
            1int
        } else {
            0int
        }) - (if input.left {
            1int
        } else {
            0int
        })),
        jump_velocity: if input.action && grounded {
            Some(JUMP_SPEED * sign)
        } else {
            None
        },
        force_y_milli: -GRAVITY_FORCE_MILLI * sign,
    }
}

/// A `Drive` over unbounded integers.
pub struct DriveModel {
    pub x_velocity: int,
    pub jump_velocity: Option<int>,
    pub force_y_milli: int,
}

impl Drive {
    pub open spec fn model(self) -> DriveModel {
        DriveModel {
            x_velocity: self.x_velocity as int,
            jump_velocity: match self.jump_velocity {
                Some(v) => Some(v as int),
                None => None,
            },
            force_y_milli: self.force_y_milli as int,
        }
    }
}

/// Whether the projectiles stand in ascending order of their identifiers.
/// No two of them then share an identifier.
pub open spec fn ascending(projectiles: Seq<Projectile>) -> bool {
    forall|i: int, j: int|
        0 <= i < j < projectiles.len() ==> projectiles[i].id < projectiles[j].id
}

/// Whether every identifier is below the bound.
pub open spec fn below(projectiles: Seq<Projectile>, bound: int) -> bool {
    forall|i: int| 0 <= i < projectiles.len() ==> (#[trigger] projectiles[i]).id < bound
}

/// The identifiers of a sequence of projectiles, in its order.
pub open spec fn ids_of(projectiles: Seq<Projectile>) -> Seq<u16> {
    projectiles.map_values(|p: Projectile| p.id)
}

/// The place of a pad on each side.
pub open spec fn pad_place(places: crate::layout::PowerPadPositions, status: PowerPadStatus)
    -> Position {
    match status {
        PowerPadStatus::Left => places.left,
        PowerPadStatus::Right => places.right,
    }
}

/// The side on which a pad stands whose body is at the horizontal place
/// `x`, in display units.
pub open spec fn side_at(x: int) -> PowerPadStatus {
    if x < ARENA_CENTER {
        PowerPadStatus::Left
    } else {
        PowerPadStatus::Right
    }
}

/// The side to which a pad moves when its owner's opponent takes the
/// advantage: away from the owner, who stands at `owner_x`.
pub open spec fn far_side(owner_x: int) -> PowerPadStatus {
    if owner_x < ARENA_CENTER {
        PowerPadStatus::Right
    } else {
        PowerPadStatus::Left
    }
}

impl WorldView {
    /// The world's invariant: the live projectiles stand in ascending
    /// order of their identifiers, and the counter of identifiers stands
    /// above every one of them and within the limit.
    pub open spec fn wf(self) -> bool {
        &&& ascending(self.projectiles)
        &&& below(self.projectiles, self.next_projectile_id as int)
        &&& self.next_projectile_id <= ID_LIMIT
    }

    /// Whether the cannon stands within its range.
    pub open spec fn cannon_in_range(self) -> bool {
        CANNON_MIN <= self.cannon_x_position <= CANNON_MAX
    }

    pub open spec fn player(self, id: PlayerId) -> Player {
        match id {
            PlayerId::Player1 => self.player1,
            PlayerId::Player2 => self.player2,
        }
    }

    /// The identifiers of the live projectiles.
    pub open spec fn ids(self) -> Seq<u16> {
        ids_of(self.projectiles)
    }

    /// Whether `id` controls the cannon.
    pub open spec fn holds_cannon(self, id: PlayerId) -> bool {
        self.advantage_state == advantage_of(id)
    }

    /// The world with one player's input replaced.
    pub open spec fn with_input(self, id: PlayerId, input: PlayerInput) -> WorldView {
        match id {
            PlayerId::Player1 => WorldView {
                player1: Player { input: input, ..self.player1 },
                ..self
            },
            PlayerId::Player2 => WorldView {
                player2: Player { input: input, ..self.player2 },
                ..self
            },
        }
    }

    /// The world after a command: one field of one player's input is
    /// overwritten, nothing else changes.
    pub open spec fn commanded(self, command: GameCommand) -> WorldView {
        self.with_input(
            command.target(),
            self.player(command.target()).input.with(command.write().0, command.write().1),
        )
    }

    /// The world after a sequence of commands, applied first to last.
    pub open spec fn commanded_all(self, commands: Seq<GameCommand>) -> WorldView
        decreases commands.len(),
    {
        if commands.len() == 0 {
            self
        } else {
            self.commanded_all(commands.drop_last()).commanded(commands.last())
        }
    }

    /// Whether `id` fires in this tick: the player holds the cannon, holds
    /// the action control, and a shot may be fired.
    pub open spec fn fires(self, id: PlayerId) -> bool {
        &&& self.holds_cannon(id)
        &&& self.player(id).input.action
        &&& may_fire(self.projectiles.len(), self.next_projectile_id)
    }

    /// The cannon's place after `id`'s controls have acted on it.
    pub open spec fn cannon_after(self, id: PlayerId) -> int {
        if self.holds_cannon(id) {
            aimed(self.cannon_x_position as int, self.player(id).input, id.mirror_sign())
        } else {
            self.cannon_x_position as int
        }
    }

    /// The world after one player's controls have acted: the cannon's
    /// holder moves the cannon and may take an identifier for a shot; a
    /// platforming player changes nothing in the world.
    pub open spec fn steered_by(self, id: PlayerId) -> WorldView {
        WorldView {
            cannon_x_position: self.cannon_after(id) as i32,
            next_projectile_id: if self.fires(id) {
                (self.next_projectile_id + 1) as u32
            } else {
                self.next_projectile_id
            },
            ..self
        }
    }

    /// The shot that `id` fires, if any: it starts at the cannon's new
    /// place and flies away from the player's side.
    pub open spec fn shot_by(self, id: PlayerId) -> Option<SpawnModel> {
        if self.fires(id) {
            Some(
                SpawnModel {
                    id: self.next_projectile_id as u16,
                    x: self.cannon_after(id),
                    y: CANNON_HEIGHT as int,
                    velocity_y: PROJECTILE_SPEED * id.mirror_sign(),
                },
            )
        } else {
            None
        }
    }

    /// What `id`'s controls drive.
    pub open spec fn control_by(self, id: PlayerId, grounded: bool) -> ControlModel {
        if self.holds_cannon(id) {
            ControlModel::Cannon
        } else {
            ControlModel::Platform(drive_of(self.player(id).input, id.mirror_sign(), grounded))
        }
    }

    /// The world after the first phase of a tick: the first player's
    /// controls act, then the second player's.
    pub open spec fn steered(self) -> WorldView {
        self.steered_by(PlayerId::Player1).steered_by(PlayerId::Player2)
    }

    /// The shot of this tick. At most one player holds the cannon, so at
    /// most one fires.
    pub open spec fn shot(self) -> Option<SpawnModel> {
        match self.shot_by(PlayerId::Player1) {
            Some(s) => Some(s),
            None => self.steered_by(PlayerId::Player1).shot_by(PlayerId::Player2),
        }
    }

    /// The world with a projectile registered under its identifier, in
    /// the place that the order of identifiers gives it. A live projectile
    /// with the same identifier gives way. The counter of identifiers moves
    /// above the identifier if it was not.
    pub open spec fn with_projectile(self, projectile: Projectile) -> WorldView {
        WorldView {
            projectiles: registered(self.projectiles, projectile),
            next_projectile_id: if self.next_projectile_id > projectile.id {
                self.next_projectile_id
            } else {
                (projectile.id + 1) as u32
            },
            ..self
        }
    }

    /// The world with the projectile of that identifier taken out.
    pub open spec fn without_projectile(self, id: u16) -> WorldView {
        WorldView { projectiles: retained(self.projectiles, seq![id], false), ..self }
    }

    /// The world at the start of the next round: the round counter steps
    /// on, wrapping after 255, nobody holds the advantage, cannon and pads
    /// are back in place and no projectile lives. Inputs stay as they are.
    pub open spec fn reset(self) -> WorldView {
        WorldView {
            round: if self.round == u8::MAX {
                0u8
            } else {
                (self.round + 1) as u8
            },
            advantage_state: AdvantageState::Neutral,
            cannon_x_position: CANNON_HOME,
            bottom_power_pad: PowerPad { status: PowerPadStatus::Right, ..self.bottom_power_pad },
            top_power_pad: PowerPad { status: PowerPadStatus::Left, ..self.top_power_pad },
            projectiles: Seq::empty(),
            ..self
        }
    }

    /// Whether `id` claims the advantage: the player presses on the
    /// player's pad and does not hold the advantage already.
    pub open spec fn claims(self, id: PlayerId, on_pad: bool) -> bool {
        on_pad && !self.holds_cannon(id)
    }

    /// The world after `by` alone has claimed: `by` holds the advantage,
    /// the opponent's pad moves to the side away from the opponent, who
    /// stands at `opponent_x`, and no projectile lives.
    pub open spec fn captured(self, by: PlayerId, opponent_x: int) -> WorldView {
        match by {
            PlayerId::Player1 => WorldView {
                advantage_state: AdvantageState::Player1,
                top_power_pad: PowerPad { status: far_side(opponent_x), ..self.top_power_pad },
                projectiles: Seq::empty(),
                ..self
            },
            PlayerId::Player2 => WorldView {
                advantage_state: AdvantageState::Player2,
                bottom_power_pad: PowerPad {
                    status: far_side(opponent_x),
                    ..self.bottom_power_pad
                },
                projectiles: Seq::empty(),
                ..self
            },
        }
    }

    /// The writes into the engine that an outcome stands for, in order. A
    /// round reset puts each player at the player's start and halts the
    /// player, then puts the pads at their starting places. A capture
    /// halts the capturing player and moves the opponent's pad.
    pub open spec fn writes(self, outcome: Outcome) -> Seq<BodyWrite> {
        match outcome {
            Outcome::RoundReset => seq![
                BodyWrite::Place { body: self.player1.body_handle, position: bottom_start() },
                BodyWrite::Halt { body: self.player1.body_handle },
                BodyWrite::Place { body: self.player2.body_handle, position: top_start() },
                BodyWrite::Halt { body: self.player2.body_handle },
                BodyWrite::Place {
                    body: self.bottom_power_pad.body_handle,
                    position: bottom_pad_places().right,
                },
                BodyWrite::Place {
                    body: self.top_power_pad.body_handle,
                    position: top_pad_places().left,
                },
            ],
            Outcome::Captured { by, pad, position } => seq![
                BodyWrite::Halt { body: self.player(by).body_handle },
                BodyWrite::Place {
                    body: match by {
                        PlayerId::Player1 => self.top_power_pad.body_handle,
                        PlayerId::Player2 => self.bottom_power_pad.body_handle,
                    },
                    position,
                },
            ],
            Outcome::Contested => Seq::empty(),
            Outcome::Quiet => Seq::empty(),
        }
    }

    /// The last phase of a tick, after the engine has integrated.
    ///
    /// A death ends the round and nothing else is looked at. Otherwise a
    /// single claim captures; two claims in one tick leave nobody with the
    /// advantage and move no pad; either way every projectile is destroyed.
    /// With no claim, the projectiles that struck something solid are
    /// destroyed.
    pub open spec fn settled(self, sensed: Sensed) -> Settled {
        let claim1 = self.claims(PlayerId::Player1, sensed.player1_on_pad);
        let claim2 = self.claims(PlayerId::Player2, sensed.player2_on_pad);
        if sensed.player1_dead || sensed.player2_dead {
            Settled { world: self.reset(), outcome: Outcome::RoundReset, removed: self.projectiles }
        } else if claim1 && claim2 {
            Settled {
                world: WorldView {
                    advantage_state: AdvantageState::Neutral,
                    projectiles: Seq::empty(),
                    ..self
                },
                outcome: Outcome::Contested,
                removed: self.projectiles,
            }
        } else if claim1 {
            Settled {
                world: self.captured(PlayerId::Player1, sensed.player2_x as int),
                outcome: Outcome::Captured {
                    by: PlayerId::Player1,
                    pad: far_side(sensed.player2_x as int),
                    position: pad_place(top_pad_places(), far_side(sensed.player2_x as int)),
                },
                removed: self.projectiles,
            }
        } else if claim2 {
            Settled {
                world: self.captured(PlayerId::Player2, sensed.player1_x as int),
                outcome: Outcome::Captured {
                    by: PlayerId::Player2,
                    pad: far_side(sensed.player1_x as int),
                    position: pad_place(bottom_pad_places(), far_side(sensed.player1_x as int)),
                },
                removed: self.projectiles,
            }
        } else {
            Settled {
                world: WorldView {
                    projectiles: retained(self.projectiles, sensed.struck, false),
                    ..self
                },
                outcome: Outcome::Quiet,
                removed: retained(self.projectiles, sensed.struck, true),
            }
        }
    }
}

/// A `Spawn` over unbounded integers.
pub struct SpawnModel {
    pub id: u16,
    pub x: int,
    pub y: int,
    pub velocity_y: int,
}

/// A `Control` over unbounded integers.
pub enum ControlModel {
    Cannon,
    Platform(DriveModel),
}

impl Spawn {
    pub open spec fn model(self) -> SpawnModel {
        SpawnModel {
            id: self.id,
            x: self.position.x as int,
            y: self.position.y as int,
            velocity_y: self.velocity_y as int,
        }
    }
}

impl Control {
    pub open spec fn model(self) -> ControlModel {
        match self {
            Control::Cannon => ControlModel::Cannon,
            Control::Platform(drive) => ControlModel::Platform(drive.model()),
        }
    }
}

/// The optional shot over unbounded integers.
pub open spec fn spawn_model(spawn: Option<Spawn>) -> Option<SpawnModel> {
    match spawn {
        Some(s) => Some(s.model()),
        None => None,
    }
}

/// The projectiles whose identifier is (`listed` true) or is not (`listed`
/// false) among `ids`, in their order.
pub open spec fn retained(projectiles: Seq<Projectile>, ids: Seq<u16>, listed: bool) -> Seq<
    Projectile,
> {
    projectiles.filter(|p: Projectile| ids.contains(p.id) == listed)
}

/// The projectiles whose identifier is below `id`, in their order.
pub open spec fn lower(projectiles: Seq<Projectile>, id: u16) -> Seq<Projectile> {
    projectiles.filter(|q: Projectile| q.id < id)
}

/// The projectiles whose identifier is above `id`, in their order.
pub open spec fn upper(projectiles: Seq<Projectile>, id: u16) -> Seq<Projectile> {
    projectiles.filter(|q: Projectile| q.id > id)
}

/// The projectiles that carry the identifier `id`, in their order.
pub open spec fn bearers(projectiles: Seq<Projectile>, id: u16) -> Seq<Projectile> {
    projectiles.filter(|q: Projectile| q.id == id)
}

/// The first projectile that carries the identifier, if one does.
pub open spec fn bearer(projectiles: Seq<Projectile>, id: u16) -> Option<Projectile> {
    if bearers(projectiles, id).len() > 0 {
        Some(bearers(projectiles, id)[0])
    } else {
        None
    }
}

/// The projectiles with one registered: those with lower identifiers, then
/// the registered one, then those with higher identifiers. One that had its
/// identifier is gone.
pub open spec fn registered(projectiles: Seq<Projectile>, projectile: Projectile) -> Seq<
    Projectile,
> {
    lower(projectiles, projectile.id).push(projectile) + upper(projectiles, projectile.id)
}

/// What a filter keeps passes it and was there before.
pub proof fn lemma_filter_members(
    projectiles: Seq<Projectile>,
    pred: spec_fn(Projectile) -> bool,
)
    ensures
        forall|q: Projectile| #[trigger]
            projectiles.filter(pred).contains(q) <==> (projectiles.contains(q) && pred(q)),
{
    assert forall|q: Projectile| #[trigger]
        projectiles.filter(pred).contains(q) <==> (projectiles.contains(q) && pred(q)) by {
        let kept = projectiles.filter(pred);
        if kept.contains(q) {
            projectiles.lemma_filter_contains_rev(pred, q);
            let k = choose|k: int| 0 <= k < kept.len() && kept[k] == q;
            projectiles.lemma_filter_pred(pred, k);
        }
        if projectiles.contains(q) && pred(q) {
            let k = choose|k: int| 0 <= k < projectiles.len() && projectiles[k] == q;
            projectiles.lemma_filter_contains(pred, k);
        }
    }
}

/// A filter keeps the ascending order.
pub proof fn lemma_filter_ascending(
    projectiles: Seq<Projectile>,
    pred: spec_fn(Projectile) -> bool,
)
    requires
        ascending(projectiles),
    ensures
        ascending(projectiles.filter(pred)),
    decreases projectiles.len(),
{
    reveal(Seq::filter);
    if projectiles.len() > 0 {
        let rest = projectiles.drop_last();
        let last = projectiles.last();
        assert(ascending(rest)) by {
            assert forall|i: int, j: int| 0 <= i < j < rest.len() implies rest[i].id
                < rest[j].id by {
                assert(rest[i] == projectiles[i] && rest[j] == projectiles[j]);
            }
        }
        lemma_filter_ascending(rest, pred);
        let sub = rest.filter(pred);
        if pred(last) {
            let out = sub.push(last);
            assert forall|i: int, j: int| 0 <= i < j < out.len() implies out[i].id
                < out[j].id by {
                if j == sub.len() {
                    assert(sub.contains(sub[i]));
                    rest.lemma_filter_contains_rev(pred, sub[i]);
                    let k = choose|k: int| 0 <= k < rest.len() && rest[k] == sub[i];
                    assert(projectiles[k] == sub[i]);
                }
            }
        }
    }
}

/// Keeping some of a world's projectiles keeps their order, and keeps them
/// below a bound that they were below.
pub proof fn lemma_retained_wf(
    projectiles: Seq<Projectile>,
    ids: Seq<u16>,
    listed: bool,
    bound: int,
)
    requires
        ascending(projectiles),
        below(projectiles, bound),
    ensures
        ascending(retained(projectiles, ids, listed)),
        below(retained(projectiles, ids, listed), bound),
{
    let wanted = |p: Projectile| ids.contains(p.id) == listed;
    lemma_filter_ascending(projectiles, wanted);
    lemma_filter_members(projectiles, wanted);
    let kept = projectiles.filter(wanted);
    assert forall|i: int| 0 <= i < kept.len() implies (#[trigger] kept[i]).id < bound by {
        assert(kept.contains(kept[i]));
        let k = choose|k: int| 0 <= k < projectiles.len() && projectiles[k] == kept[i];
        assert(projectiles[k].id < bound);
    }
}

/// What is kept as listed carries a listed identifier.
pub proof fn lemma_retained_listed(projectiles: Seq<Projectile>, ids: Seq<u16>)
    ensures
        forall|i: int|
            0 <= i < retained(projectiles, ids, true).len() ==> ids.contains(
                (#[trigger] retained(projectiles, ids, true)[i]).id,
            ),
{
    let wanted = |p: Projectile| ids.contains(p.id) == true;
    let kept = projectiles.filter(wanted);
    assert forall|i: int| 0 <= i < kept.len() implies ids.contains((#[trigger] kept[i]).id) by {
        projectiles.lemma_filter_pred(wanted, i);
    }
}

/// After a registration the projectiles are the registered one and those
/// that were there under another identifier.
pub proof fn lemma_registered_members(projectiles: Seq<Projectile>, projectile: Projectile)
    ensures
        forall|q: Projectile| #[trigger]
            registered(projectiles, projectile).contains(q) <==> (q == projectile || (
            projectiles.contains(q) && q.id != projectile.id)),
        registered(projectiles, projectile).len() == lower(projectiles, projectile.id).len()
            + upper(projectiles, projectile.id).len() + 1,
{
    let id = projectile.id;
    let low = lower(projectiles, id);
    let high = upper(projectiles, id);
    let out = registered(projectiles, projectile);
    lemma_filter_members(projectiles, |q: Projectile| q.id < id);
    lemma_filter_members(projectiles, |q: Projectile| q.id > id);
    assert forall|q: Projectile| #[trigger]
        out.contains(q) <==> (q == projectile || (projectiles.contains(q) && q.id != id)) by {
        if out.contains(q) {
            let k = choose|k: int| 0 <= k < out.len() && out[k] == q;
            if k < low.len() {
                assert(low[k] == q);
                assert(low.contains(q));
            } else if k > low.len() {
                assert(high[k - low.len() - 1] == q);
                assert(high.contains(q));
            }
        }
        if q == projectile {
            assert(out[low.len() as int] == q);
        } else if projectiles.contains(q) && q.id != id {
            if q.id < id {
                assert(low.contains(q));
                let m = choose|m: int| 0 <= m < low.len() && low[m] == q;
                assert(out[m] == q);
            } else {
                assert(high.contains(q));
                let m = choose|m: int| 0 <= m < high.len() && high[m] == q;
                assert(out[low.len() + 1 + m] == q);
            }
        }
    }
}

/// A registration keeps the ascending order.
pub proof fn lemma_registered_ascending(projectiles: Seq<Projectile>, projectile: Projectile)
    requires
        ascending(projectiles),
    ensures
        ascending(registered(projectiles, projectile)),
{
    let id = projectile.id;
    let below_id = |q: Projectile| q.id < id;
    let above_id = |q: Projectile| q.id > id;
    let low = lower(projectiles, id);
    let high = upper(projectiles, id);
    let out = registered(projectiles, projectile);
    lemma_filter_ascending(projectiles, below_id);
    lemma_filter_ascending(projectiles, above_id);
    assert forall|i: int, j: int| 0 <= i < j < out.len() implies out[i].id < out[j].id by {
        if i < low.len() {
            assert(out[i] == low[i]);
            projectiles.lemma_filter_pred(below_id, i);
        } else if i > low.len() {
            assert(out[i] == high[i - low.len() - 1]);
            projectiles.lemma_filter_pred(above_id, i - low.len() - 1);
        }
        if j < low.len() {
            assert(out[j] == low[j]);
            projectiles.lemma_filter_pred(below_id, j);
        } else if j > low.len() {
            assert(out[j] == high[j - low.len() - 1]);
            projectiles.lemma_filter_pred(above_id, j - low.len() - 1);
        }
    }
}

/// A registration keeps a world well formed.
pub proof fn lemma_registered_wf(world: WorldView, projectile: Projectile)
    requires
        world.wf(),
    ensures
        world.with_projectile(projectile).wf(),
{
    lemma_registered_ascending(world.projectiles, projectile);
    lemma_registered_members(world.projectiles, projectile);
    let out = registered(world.projectiles, projectile);
    let bound = world.with_projectile(projectile).next_projectile_id as int;
    assert forall|i: int| 0 <= i < out.len() implies (#[trigger] out[i]).id < bound by {
        assert(out.contains(out[i]));
        if out[i] != projectile {
            let k = choose|k: int|
                0 <= k < world.projectiles.len() && world.projectiles[k] == out[i];
            assert(world.projectiles[k].id < world.next_projectile_id);
        }
    }
}

/// Registering under an identifier above every live one appends.
pub proof fn lemma_registered_above(projectiles: Seq<Projectile>, projectile: Projectile)
    requires
        below(projectiles, projectile.id as int),
    ensures
        registered(projectiles, projectile) == projectiles.push(projectile),
        bearer(projectiles, projectile.id) is None,
{
    let id = projectile.id;
    lemma_keeps_all(projectiles, |q: Projectile| q.id < id);
    lemma_keeps_none(projectiles, |q: Projectile| q.id > id);
    lemma_keeps_none(projectiles, |q: Projectile| q.id == id);
    assert(registered(projectiles, projectile) =~= projectiles.push(projectile));
}

/// A filter that every member passes keeps the sequence.
pub proof fn lemma_keeps_all<A>(s: Seq<A>, pred: spec_fn(A) -> bool)
    requires
        forall|i: int| 0 <= i < s.len() ==> pred(#[trigger] s[i]),
    ensures
        s.filter(pred) == s,
    decreases s.len(),
{
    reveal(Seq::filter);
    if s.len() == 0 {
        assert(s.filter(pred) =~= s);
    } else {
        let rest = s.drop_last();
        assert forall|i: int| 0 <= i < rest.len() implies pred(#[trigger] rest[i]) by {
            assert(rest[i] == s[i]);
        }
        lemma_keeps_all(rest, pred);
        assert(pred(s.last()));
        assert(rest.push(s.last()) =~= s);
    }
}

/// A filter that no member passes leaves nothing.
pub proof fn lemma_keeps_none<A>(s: Seq<A>, pred: spec_fn(A) -> bool)
    requires
        forall|i: int| 0 <= i < s.len() ==> !pred(#[trigger] s[i]),
    ensures
        s.filter(pred) == Seq::<A>::empty(),
    decreases s.len(),
{
    reveal(Seq::filter);
    if s.len() == 0 {
        assert(s.filter(pred) =~= Seq::<A>::empty());
    } else {
        let rest = s.drop_last();
        assert forall|i: int| 0 <= i < rest.len() implies !pred(#[trigger] rest[i]) by {
            assert(rest[i] == s[i]);
        }
        lemma_keeps_none(rest, pred);
        assert(!pred(s.last()));
    }
}

} // verus!
