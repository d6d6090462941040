//! The executable world: the state that the rules keep between ticks.
//!
//! A tick has three parts. `resolve_controls` lets the controls act and
//! hands out a plan: how each platforming body is to be driven, and the
//! shot to create. The caller writes the plan into the engine, registers
//! the shot with `create_projectile`, and lets the engine integrate one
//! timestep. `finish_step` then reads the engine's contact and intersection
//! graphs, settles the tick, and says by its outcome what is to be written
//! into the engine; `writes` spells that out.

use crate::command::{GameCommand, PlayerId, PlayerInput};
use crate::display::GameDisplayState;
use crate::engine::{
    active_contact_of, body_handles, in_contact, intersections_of, pressing, remove_body,
    sensor_flags, touches, touching, EngineError, Handle,
};
use crate::ids::{contains_id, keep_ids};
use crate::layout::{
    bottom_power_pad_positions, bottom_start_position, top_power_pad_positions,
    top_start_position, Position, PowerPadPositions, ARENA_CENTER,
};
use crate::rules::{
    aimed, ascending, bearer, below, far_side, ids_of, lemma_registered_wf,
    lemma_retained_listed, lemma_retained_wf, pad_place, registered, retained, side_at,
    spawn_model, AdvantageState, BodyWrite, Control, ControlPlan, Drive, Outcome, Player,
    PowerPad, PowerPadStatus, Projectile, Sensed, Spawn, WorldView, CANNON_HEIGHT, CANNON_HOME,
    CANNON_MAX, CANNON_MIN, CANNON_SPEED, GRAVITY_FORCE_MILLI, ID_LIMIT, JUMP_SPEED,
    PROJECTILE_CAP, PROJECTILE_SPEED, RUN_SPEED,
};
use crate::snapshot::{above, lemma_above, GameSnapshot, PlayerSnapshot, Restoration};
use rapier2d::dynamics::{IslandManager, JointSet, RigidBodySet};
use rapier2d::geometry::{ColliderSet, NarrowPhase};
use vstd::prelude::*;

verus! {

/// The body and the collider that stand for one entity in the engine.
#[derive(Clone, Copy, Debug, PartialEq, Eq, Structural)]
pub struct Entity {
    pub body_handle: Handle,
    pub collider_handle: Handle,
}

/// The state of a match: two players, the shared cannon, two power pads,
/// the live projectiles, who holds the advantage, and the round.
pub struct GameWorld {
    player1: Player,
    player2: Player,
    cannon_x_position: i32,
    bottom_power_pad: PowerPad,
    top_power_pad: PowerPad,
    next_projectile_id: u32,
    projectiles: Vec<Projectile>,
    advantage_state: AdvantageState,
    round: u8,
}

impl View for GameWorld {
    type V = WorldView;

    closed spec fn view(&self) -> WorldView {
        WorldView {
            player1: self.player1,
            player2: self.player2,
            cannon_x_position: self.cannon_x_position,
            bottom_power_pad: self.bottom_power_pad,
            top_power_pad: self.top_power_pad,
            next_projectile_id: self.next_projectile_id,
            projectiles: self.projectiles@,
            advantage_state: self.advantage_state,
            round: self.round,
        }
    }
}

/// The world at the start of a match: round 1, nobody holds the advantage,
/// the cannon at home, the bottom pad on the right and the top pad on the
/// left, no control pressed, no projectile.
pub open spec fn initial_world(player1: Entity, player2: Entity, bottom_pad: Entity, top_pad: Entity)
    -> WorldView {
    WorldView {
        player1: Player {
            body_handle: player1.body_handle,
            collider_handle: player1.collider_handle,
            input: PlayerInput::released(),
        },
        player2: Player {
            body_handle: player2.body_handle,
            collider_handle: player2.collider_handle,
            input: PlayerInput::released(),
        },
        cannon_x_position: CANNON_HOME,
        bottom_power_pad: PowerPad {
            body_handle: bottom_pad.body_handle,
            collider_handle: bottom_pad.collider_handle,
            status: PowerPadStatus::Right,
        },
        top_power_pad: PowerPad {
            body_handle: top_pad.body_handle,
            collider_handle: top_pad.collider_handle,
            status: PowerPadStatus::Left,
        },
        next_projectile_id: 0,
        projectiles: Seq::empty(),
        advantage_state: AdvantageState::Neutral,
        round: 1,
    }
}

/// The cannon's range, on machine integers.
fn clamp(x: i64) -> (clamped: i64)
    ensures
        clamped == crate::rules::clamp_cannon(x as int),
{
    if x < CANNON_MIN as i64 {
        CANNON_MIN as i64
    } else if x > CANNON_MAX as i64 {
        CANNON_MAX as i64
    } else {
        x
    }
}

/// Moves the cannon as the controls of its holder say.
pub fn aim(x: i32, input: &PlayerInput, holder: PlayerId) -> (place: i32)
    ensures
        place == aimed(x as int, *input, holder.mirror_sign()),
{
    let sign = holder.mirror();
    let step: i64 = (CANNON_SPEED * sign) as i64;
    let mut place: i64 = x as i64;
    if input.left {
        place = clamp(place - step);
    }
    if input.right {
        place = clamp(place + step);
    }
    place as i32
}

/// What the controls ask of a platforming player's body: a horizontal
/// velocity, a jump if the player stands on ground and holds the action
/// control, and the player's own gravity.
pub fn drive(input: &PlayerInput, player: PlayerId, grounded: bool) -> (asked: Drive)
    ensures
        asked.model() == crate::rules::drive_of(*input, player.mirror_sign(), grounded),
{
    let sign = player.mirror();
    let mut direction: i32 = 0;
    if input.left {
        direction -= 1;
    }
    if input.right {
        direction += 1;
    }
    assert(RUN_SPEED * sign * direction == RUN_SPEED * (sign as int) * direction) by (nonlinear_arith)
        requires
            -1 <= direction <= 1,
            sign == 1 || sign == -1,
    ;
    Drive {
        x_velocity: RUN_SPEED * sign * direction,
        jump_velocity: if input.action && grounded {
            Some(JUMP_SPEED * sign)
        } else {
            None
        },
        force_y_milli: -GRAVITY_FORCE_MILLI * sign,
    }
}

impl GameWorld {
    /// The live projectiles stand in ascending order of their identifiers,
    /// and the counter of identifiers stands above every one of them and
    /// within the limit.
    #[verifier::type_invariant]
    spec fn ordered(&self) -> bool {
        &&& ascending(self.projectiles@)
        &&& below(self.projectiles@, self.next_projectile_id as int)
        &&& self.next_projectile_id <= ID_LIMIT
    }

    /// The invariant of the world, as its view shows it. It holds of every
    /// world; `projectiles` and `projectile_ids` hand it out.
    pub open spec fn wf(&self) -> bool {
        self@.wf()
    }

    /// Starts a match around the entities that stand for the players and
    /// the pads in the engine.
    pub fn new(player1: Entity, player2: Entity, bottom_pad: Entity, top_pad: Entity) -> (world:
        GameWorld)
        ensures
            world@ == initial_world(player1, player2, bottom_pad, top_pad),
    {
        GameWorld {
            player1: Player {
                body_handle: player1.body_handle,
                collider_handle: player1.collider_handle,
                input: PlayerInput { action: false, left: false, right: false },
            },
            player2: Player {
                body_handle: player2.body_handle,
                collider_handle: player2.collider_handle,
                input: PlayerInput { action: false, left: false, right: false },
            },
            cannon_x_position: CANNON_HOME,
            bottom_power_pad: PowerPad {
                body_handle: bottom_pad.body_handle,
                collider_handle: bottom_pad.collider_handle,
                status: PowerPadStatus::Right,
            },
            top_power_pad: PowerPad {
                body_handle: top_pad.body_handle,
                collider_handle: top_pad.collider_handle,
                status: PowerPadStatus::Left,
            },
            next_projectile_id: 0,
            projectiles: Vec::new(),
            advantage_state: AdvantageState::Neutral,
            round: 1,
        }
    }

    /// A command is valid exactly when it names the player who sits at the
    /// issuer's index.
    pub fn command_is_valid(command: &GameCommand, client_id: usize) -> (valid: bool)
        ensures
            valid == command.attributable_to(client_id as int),
    {
        match command {
            GameCommand::Input(player_id, _, _) => player_id.as_usize() == client_id,
        }
    }

    /// Overwrites the field that the command names in the input state of
    /// the player that it names. Nothing else changes; the body feels it
    /// in the next tick.
    pub fn apply_command(&mut self, command: &GameCommand)
        ensures
            final(self)@ == old(self)@.commanded(*command),
    {
        proof {
            use_type_invariant(&*self);
        }
        match command {
            GameCommand::Input(player_id, field, value) => {
                match player_id {
                    PlayerId::Player1 => {
                        let mut input = self.player1.input;
                        input.set(*field, *value);
                        self.player1.input = input;
                    },
                    PlayerId::Player2 => {
                        let mut input = self.player2.input;
                        input.set(*field, *value);
                        self.player2.input = input;
                    },
                }
            },
        }
    }

    /// Whether `id` holds the advantage and with it the cannon.
    pub fn holds_cannon(&self, id: PlayerId) -> (holds: bool)
        ensures
            holds == self@.holds_cannon(id),
    {
        match (self.advantage_state, id) {
            (AdvantageState::Player1, PlayerId::Player1) => true,
            (AdvantageState::Player2, PlayerId::Player2) => true,
            _ => false,
        }
    }

    /// One player's part of the first phase of a tick. The same rule serves
    /// both players; only the sign differs.
    fn steer(&mut self, id: PlayerId, grounded: bool) -> (asked: (Control, Option<Spawn>))
        ensures
            final(self)@ == old(self)@.steered_by(id),
            asked.0.model() == old(self)@.control_by(id, grounded),
            spawn_model(asked.1) == old(self)@.shot_by(id),
    {
        proof {
            use_type_invariant(&*self);
        }
        let sign = id.mirror();
        let input = match id {
            PlayerId::Player1 => self.player1.input,
            PlayerId::Player2 => self.player2.input,
        };
        if self.holds_cannon(id) {
            self.cannon_x_position = aim(self.cannon_x_position, &input, id);
            let mut spawn: Option<Spawn> = None;
            if input.action && self.projectiles.len() < PROJECTILE_CAP && self.next_projectile_id
                < ID_LIMIT {
                spawn =
                Some(
                    Spawn {
                        id: self.next_projectile_id as u16,
                        position: Position { y: CANNON_HEIGHT, x: self.cannon_x_position },
                        velocity_y: PROJECTILE_SPEED * sign,
                    },
                );
                self.next_projectile_id = self.next_projectile_id + 1;
            }
            (Control::Cannon, spawn)
        } else {
            (Control::Platform(drive(&input, id, grounded)), None)
        }
    }

    /// The first phase of a tick: each player's controls act, the first
    /// player's before the second's. The cannon's holder moves the cannon
    /// and may fire; the shot only takes its identifier here and is
    /// created by `create_projectile`. A platforming player's body is to be
    /// driven as the plan says; `grounded` tells whether the player stands
    /// on ground.
    pub fn resolve_controls(&mut self, player1_grounded: bool, player2_grounded: bool) -> (plan:
        ControlPlan)
        ensures
            final(self)@ == old(self)@.steered(),
            plan.player1.model() == old(self)@.control_by(PlayerId::Player1, player1_grounded),
            plan.player2.model() == old(self)@.control_by(PlayerId::Player2, player2_grounded),
            spawn_model(plan.spawn) == old(self)@.shot(),
    {
        let (control1, spawn1) = self.steer(PlayerId::Player1, player1_grounded);
        let (control2, spawn2) = self.steer(PlayerId::Player2, player2_grounded);
        let spawn = match spawn1 {
            Some(s) => Some(s),
            None => spawn2,
        };
        ControlPlan { player1: control1, player2: control2, spawn }
    }

    /// Registers a projectile that the engine has created, in the place
    /// that the order of identifiers gives it, and moves the counter of
    /// identifiers above its identifier if it was not. A live projectile
    /// with the same identifier gives way and is handed back; its body is
    /// still in the engine.
    pub fn create_projectile(&mut self, id: u16, entity: Entity) -> (replaced: Option<Projectile>)
        ensures
            final(self)@ == old(self)@.with_projectile(
                Projectile {
                    id,
                    body_handle: entity.body_handle,
                    collider_handle: entity.collider_handle,
                },
            ),
            replaced == bearer(old(self)@.projectiles, id),
    {
        let projectile = Projectile {
            id,
            body_handle: entity.body_handle,
            collider_handle: entity.collider_handle,
        };
        proof {
            use_type_invariant(&*self);
            lemma_registered_wf(self@, projectile);
        }
        let mut live: Vec<Projectile> = Vec::new();
        std::mem::swap(&mut self.projectiles, &mut live);
        let ghost under = |q: Projectile| q.id < id;
        let ghost over = |q: Projectile| q.id > id;
        let ghost same = |q: Projectile| q.id == id;
        let mut low: Vec<Projectile> = Vec::new();
        let mut high: Vec<Projectile> = Vec::new();
        let mut replaced: Option<Projectile> = None;
        let ghost mut found: Seq<Projectile> = Seq::empty();
        let mut i: usize = 0;
        proof {
            reveal(Seq::filter);
            assert(live@.take(0) =~= Seq::<Projectile>::empty());
            assert(live@.take(0).filter(under) =~= low@);
            assert(live@.take(0).filter(over) =~= high@);
            assert(live@.take(0).filter(same) =~= found);
        }
        while i < live.len()
            invariant
                0 <= i <= live.len(),
                under == |q: Projectile| q.id < id,
                over == |q: Projectile| q.id > id,
                same == |q: Projectile| q.id == id,
                low@ == live@.take(i as int).filter(under),
                high@ == live@.take(i as int).filter(over),
                found == live@.take(i as int).filter(same),
                replaced == (if found.len() > 0 {
                    Some(found[0])
                } else {
                    None
                }),
            decreases live.len() - i,
        {
            let other = live[i];
            proof {
                let before = live@.take(i as int);
                assert(live@.take(i + 1) =~= before.push(other));
                before.lemma_filter_push(other, under);
                before.lemma_filter_push(other, over);
                before.lemma_filter_push(other, same);
                found = live@.take(i + 1).filter(same);
            }
            if other.id < id {
                low.push(other);
            } else if other.id > id {
                high.push(other);
            } else if replaced.is_none() {
                replaced = Some(other);
            }
            i += 1;
        }
        proof {
            assert(live@.take(live.len() as int) =~= live@);
        }
        low.push(projectile);
        let mut k: usize = 0;
        while k < high.len()
            invariant
                0 <= k <= high.len(),
                low@ == live@.filter(under).push(projectile) + high@.take(k as int),
            decreases high.len() - k,
        {
            low.push(high[k]);
            proof {
                assert(high@.take(k + 1) =~= high@.take(k as int).push(high[k as int]));
                assert(low@ =~= live@.filter(under).push(projectile) + high@.take(k + 1));
            }
            k += 1;
        }
        proof {
            assert(high@.take(high.len() as int) =~= high@);
            assert(low@ == registered(old(self)@.projectiles, projectile));
        }
        if self.next_projectile_id <= id as u32 {
            self.next_projectile_id = id as u32 + 1;
        }
        self.projectiles = low;
        replaced
    }

    /// Registers a projectile as `create_projectile` does, against the
    /// engine: the body of a projectile that gives way is taken out of the
    /// engine. The four parts must belong to one engine.
    pub fn adopt_projectile(
        &mut self,
        bodies: &mut RigidBodySet,
        islands: &mut IslandManager,
        colliders: &mut ColliderSet,
        joints: &mut JointSet,
        id: u16,
        entity: Entity,
    )
        ensures
            final(self)@ == old(self)@.with_projectile(
                Projectile {
                    id,
                    body_handle: entity.body_handle,
                    collider_handle: entity.collider_handle,
                },
            ),
            body_handles(*final(bodies)) == (match bearer(old(self)@.projectiles, id) {
                Some(replaced) => body_handles(*old(bodies)).remove(replaced.body_handle),
                None => body_handles(*old(bodies)),
            }),
            sensor_flags(*final(colliders)).submap_of(sensor_flags(*old(colliders))),
    {
        match self.create_projectile(id, entity) {
            Some(replaced) => {
                remove_body(bodies, islands, colliders, joints, replaced.body_handle);
            },
            None => {},
        }
    }
}

/// What the engine reports after integration, as handed to the rules.
#[derive(Clone, Debug)]
pub struct Readings {
    pub player1_dead: bool,
    pub player2_dead: bool,
    pub player1_on_pad: bool,
    pub player2_on_pad: bool,
    pub player1_x: i32,
    pub player2_x: i32,
    pub struck: Vec<u16>,
}

impl View for Readings {
    type V = Sensed;

    open spec fn view(&self) -> Sensed {
        Sensed {
            player1_dead: self.player1_dead,
            player2_dead: self.player2_dead,
            player1_on_pad: self.player1_on_pad,
            player2_on_pad: self.player2_on_pad,
            player1_x: self.player1_x,
            player2_x: self.player2_x,
            struck: self.struck@,
        }
    }
}

/// How the rules settled a tick: what is to be written into the engine,
/// and the projectiles that left the world.
#[derive(Clone, Debug)]
pub struct Settlement {
    pub outcome: Outcome,
    pub removed: Vec<Projectile>,
}

/// Whether `collider` overlaps a sensor or a solid, as the engine's graphs
/// and sets say.
pub open spec fn touch(
    narrow_phase: NarrowPhase,
    colliders: ColliderSet,
    collider: Handle,
    sensors: bool,
) -> Result<bool, EngineError> {
    touches(intersections_of(narrow_phase, collider), sensor_flags(colliders), collider, sensors)
}

/// The identifiers of the projectiles that overlap something solid, in the
/// projectiles' order; an error if the engine has lost a collider that one
/// of them overlaps.
pub open spec fn struck_among(
    projectiles: Seq<Projectile>,
    narrow_phase: NarrowPhase,
    colliders: ColliderSet,
) -> Result<Seq<u16>, EngineError> {
    if exists|k: int|
        0 <= k < projectiles.len() && (#[trigger] touch(
            narrow_phase,
            colliders,
            projectiles[k].collider_handle,
            false,
        )) is Err {
        Err(EngineError::MissingCollider)
    } else {
        Ok(
            ids_of(
                projectiles.filter(
                    |p: Projectile|
                        touch(narrow_phase, colliders, p.collider_handle, false) == Ok::<
                            bool,
                            EngineError,
                        >(true),
                ),
            ),
        )
    }
}

/// The bodies that are left when those of the removed projectiles are gone.
pub open spec fn bodies_left(before: Set<Handle>, removed: Seq<Projectile>) -> Set<Handle> {
    Set::new(
        |h: Handle|
            before.contains(h) && forall|k: int|
                0 <= k < removed.len() ==> (#[trigger] removed[k]).body_handle != h,
    )
}

impl WorldView {
    /// What the rules read from the engine after integration. Both players
    /// are tested against the lethal zones, then each against the player's
    /// own pad. The projectiles are tested against the solids only where
    /// that decides something: when nobody died and nobody claims.
    pub open spec fn sensed(
        self,
        narrow_phase: NarrowPhase,
        colliders: ColliderSet,
        player1_x: i32,
        player2_x: i32,
    ) -> Result<Sensed, EngineError> {
        match touch(narrow_phase, colliders, self.player1.collider_handle, true) {
            Err(e) => Err(e),
            Ok(dead1) => match touch(narrow_phase, colliders, self.player2.collider_handle, true) {
                Err(e) => Err(e),
                Ok(dead2) => {
                    let on1 = pressing(
                        active_contact_of(
                            narrow_phase,
                            self.player1.collider_handle,
                            self.bottom_power_pad.collider_handle,
                        ),
                    );
                    let on2 = pressing(
                        active_contact_of(
                            narrow_phase,
                            self.player2.collider_handle,
                            self.top_power_pad.collider_handle,
                        ),
                    );
                    let base = Sensed {
                        player1_dead: dead1,
                        player2_dead: dead2,
                        player1_on_pad: on1,
                        player2_on_pad: on2,
                        player1_x,
                        player2_x,
                        struck: Seq::empty(),
                    };
                    if dead1 || dead2 || self.claims(PlayerId::Player1, on1) || self.claims(
                        PlayerId::Player2,
                        on2,
                    ) {
                        Ok(base)
                    } else {
                        match struck_among(self.projectiles, narrow_phase, colliders) {
                            Err(e) => Err(e),
                            Ok(struck) => Ok(Sensed { struck, ..base }),
                        }
                    }
                },
            },
        }
    }
}

/// The side away from an owner who stands at `owner_x`.
pub fn far_side_of(owner_x: i32) -> (side: PowerPadStatus)
    ensures
        side == far_side(owner_x as int),
{
    if owner_x < ARENA_CENTER {
        PowerPadStatus::Right
    } else {
        PowerPadStatus::Left
    }
}

/// The side on which a pad stands whose body is at the horizontal place
/// `x`, in display units.
pub fn side_of_place(x: i32) -> (side: PowerPadStatus)
    ensures
        side == side_at(x as int),
{
    if x < ARENA_CENTER {
        PowerPadStatus::Left
    } else {
        PowerPadStatus::Right
    }
}

/// The place of a pad on a side.
pub fn place_of(places: &PowerPadPositions, status: PowerPadStatus) -> (place: Position)
    ensures
        place == pad_place(*places, status),
{
    match status {
        PowerPadStatus::Left => places.left,
        PowerPadStatus::Right => places.right,
    }
}

/// Takes the bodies of removed projectiles, with their colliders, out of
/// the engine. The four parts must belong to one engine.
fn discard(
    bodies: &mut RigidBodySet,
    islands: &mut IslandManager,
    colliders: &mut ColliderSet,
    joints: &mut JointSet,
    removed: &Vec<Projectile>,
)
    ensures
        body_handles(*final(bodies)) == bodies_left(body_handles(*old(bodies)), removed@),
        sensor_flags(*final(colliders)).submap_of(sensor_flags(*old(colliders))),
{
    let mut i: usize = 0;
    proof {
        assert(body_handles(*bodies) =~= bodies_left(body_handles(*old(bodies)), removed@.take(0)));
    }
    while i < removed.len()
        invariant
            0 <= i <= removed.len(),
            body_handles(*bodies) == bodies_left(
                body_handles(*old(bodies)),
                removed@.take(i as int),
            ),
            sensor_flags(*colliders).submap_of(sensor_flags(*old(colliders))),
        decreases removed.len() - i,
    {
        let ghost before = body_handles(*bodies);
        let ghost flags_before = sensor_flags(*colliders);
        remove_body(bodies, islands, colliders, joints, removed[i].body_handle);
        proof {
            assert forall|c: Handle| #[trigger]
                sensor_flags(*colliders).dom().contains(c) implies sensor_flags(
                *old(colliders),
            ).dom().contains(c) && sensor_flags(*colliders)[c] == sensor_flags(
                *old(colliders),
            )[c] by {
                assert(flags_before.dom().contains(c));
            }
            let start = body_handles(*old(bodies));
            let shorter = removed@.take(i as int);
            let longer = removed@.take(i + 1);
            assert(longer =~= shorter.push(removed[i as int]));
            assert forall|h: Handle|
                before.remove(removed[i as int].body_handle).contains(h) == bodies_left(
                    start,
                    longer,
                ).contains(h) by {
                if h != removed[i as int].body_handle && before.contains(h) {
                    assert forall|k: int| 0 <= k < longer.len() implies (#[trigger] longer[k]).body_handle
                        != h by {
                        if k < i {
                            assert(shorter[k] == longer[k]);
                        }
                    }
                }
                if bodies_left(start, longer).contains(h) {
                    assert(longer[i as int].body_handle != h);
                    assert forall|k: int| 0 <= k < shorter.len() implies (#[trigger] shorter[k]).body_handle
                        != h by {
                        assert(shorter[k] == longer[k]);
                    }
                }
            }
            assert(body_handles(*bodies) =~= bodies_left(start, longer));
        }
        i += 1;
    }
    proof {
        assert(removed@.take(removed.len() as int) =~= removed@);
    }
}

impl GameWorld {
    pub fn round(&self) -> (round: u8)
        ensures
            round == self@.round,
    {
        self.round
    }

    pub fn advantage_state(&self) -> (state: AdvantageState)
        ensures
            state == self@.advantage_state,
    {
        self.advantage_state
    }

    pub fn cannon_x_position(&self) -> (x: i32)
        ensures
            x == self@.cannon_x_position,
    {
        self.cannon_x_position
    }

    pub fn next_projectile_id(&self) -> (id: u32)
        ensures
            id == self@.next_projectile_id,
    {
        self.next_projectile_id
    }

    pub fn player(&self, id: PlayerId) -> (player: Player)
        ensures
            player == self@.player(id),
    {
        match id {
            PlayerId::Player1 => self.player1,
            PlayerId::Player2 => self.player2,
        }
    }

    pub fn bottom_power_pad(&self) -> (pad: PowerPad)
        ensures
            pad == self@.bottom_power_pad,
    {
        self.bottom_power_pad
    }

    pub fn top_power_pad(&self) -> (pad: PowerPad)
        ensures
            pad == self@.top_power_pad,
    {
        self.top_power_pad
    }

    /// The number of live projectiles.
    pub fn projectile_count(&self) -> (count: usize)
        ensures
            count == self@.projectiles.len(),
    {
        self.projectiles.len()
    }

    /// The live projectiles, oldest registration first.
    pub fn projectiles(&self) -> (live: Vec<Projectile>)
        ensures
            live@ == self@.projectiles,
            self.wf(),
    {
        proof {
            use_type_invariant(self);
        }
        let mut live: Vec<Projectile> = Vec::new();
        let mut i: usize = 0;
        while i < self.projectiles.len()
            invariant
                0 <= i <= self.projectiles.len(),
                live@ == self.projectiles@.take(i as int),
            decreases self.projectiles.len() - i,
        {
            live.push(self.projectiles[i]);
            proof {
                assert(self.projectiles@.take(i + 1) =~= self.projectiles@.take(i as int).push(
                    self.projectiles[i as int],
                ));
            }
            i += 1;
        }
        proof {
            assert(self.projectiles@.take(self.projectiles.len() as int) =~= self.projectiles@);
        }
        live
    }

    /// The identifiers of the live projectiles, oldest registration first.
    pub fn projectile_ids(&self) -> (ids: Vec<u16>)
        ensures
            ids@ == self@.ids(),
            self.wf(),
    {
        proof {
            use_type_invariant(self);
        }
        let mut ids: Vec<u16> = Vec::new();
        let mut i: usize = 0;
        while i < self.projectiles.len()
            invariant
                0 <= i <= self.projectiles.len(),
                ids@ == ids_of(self.projectiles@.take(i as int)),
            decreases self.projectiles.len() - i,
        {
            ids.push(self.projectiles[i].id);
            proof {
                assert(self.projectiles@.take(i + 1) =~= self.projectiles@.take(i as int).push(
                    self.projectiles[i as int],
                ));
                assert(ids@ =~= ids_of(self.projectiles@.take(i + 1)));
            }
            i += 1;
        }
        proof {
            assert(self.projectiles@.take(self.projectiles.len() as int) =~= self.projectiles@);
        }
        ids
    }

    /// Keeps the projectiles whose identifier is (`listed` true) or is not
    /// (`listed` false) among `ids`, and hands back the others.
    fn split(&mut self, ids: &Vec<u16>, listed: bool) -> (removed: Vec<Projectile>)
        ensures
            final(self)@ == (WorldView {
                projectiles: retained(old(self)@.projectiles, ids@, listed),
                ..old(self)@
            }),
            removed@ == retained(old(self)@.projectiles, ids@, !listed),
    {
        let ghost stays = |p: Projectile| ids@.contains(p.id) == listed;
        let ghost goes = |p: Projectile| ids@.contains(p.id) == !listed;
        let mut kept: Vec<Projectile> = Vec::new();
        let mut removed: Vec<Projectile> = Vec::new();
        let mut i: usize = 0;
        proof {
            reveal(Seq::filter);
            assert(self.projectiles@.take(0) =~= Seq::<Projectile>::empty());
            assert(self.projectiles@.take(0).filter(stays) =~= kept@);
            assert(self.projectiles@.take(0).filter(goes) =~= removed@);
        }
        while i < self.projectiles.len()
            invariant
                0 <= i <= self.projectiles.len(),
                *self == *old(self),
                stays == |p: Projectile| ids@.contains(p.id) == listed,
                goes == |p: Projectile| ids@.contains(p.id) == !listed,
                kept@ == self.projectiles@.take(i as int).filter(stays),
                removed@ == self.projectiles@.take(i as int).filter(goes),
            decreases self.projectiles.len() - i,
        {
            let projectile = self.projectiles[i];
            proof {
                let before = self.projectiles@.take(i as int);
                assert(self.projectiles@.take(i + 1) =~= before.push(projectile));
                before.lemma_filter_push(projectile, stays);
                before.lemma_filter_push(projectile, goes);
            }
            if contains_id(ids, projectile.id) == listed {
                kept.push(projectile);
            } else {
                removed.push(projectile);
            }
            i += 1;
        }
        proof {
            assert(self.projectiles@.take(self.projectiles.len() as int) =~= self.projectiles@);
            use_type_invariant(&*self);
            assert(ascending(kept@) && below(kept@, self.next_projectile_id as int)) by {
                lemma_retained_wf(
                    self.projectiles@,
                    ids@,
                    listed,
                    self.next_projectile_id as int,
                );
            }
        }
        self.projectiles = kept;
        removed
    }

    /// Empties the world of projectiles and hands them back.
    fn take_all(&mut self) -> (removed: Vec<Projectile>)
        ensures
            final(self)@ == (WorldView { projectiles: Seq::empty(), ..old(self)@ }),
            removed@ == old(self)@.projectiles,
    {
        proof {
            use_type_invariant(&*self);
        }
        let mut removed: Vec<Projectile> = Vec::new();
        std::mem::swap(&mut self.projectiles, &mut removed);
        removed
    }

    /// The last phase of a tick, on what the engine reported after
    /// integration: ends the round on a death, hands the advantage over on
    /// a capture, and destroys projectiles. The projectiles handed back
    /// have left the world; their bodies are still in the engine.
    pub fn settle(&mut self, readings: &Readings) -> (settlement: Settlement)
        ensures
            final(self)@ == old(self)@.settled(readings@).world,
            settlement.outcome == old(self)@.settled(readings@).outcome,
            settlement.removed@ == old(self)@.settled(readings@).removed,
    {
        proof {
            use_type_invariant(&*self);
        }
        if readings.player1_dead || readings.player2_dead {
            let removed = self.take_all();
            self.round = if self.round == u8::MAX {
                0
            } else {
                self.round + 1
            };
            self.advantage_state = AdvantageState::Neutral;
            self.cannon_x_position = CANNON_HOME;
            self.bottom_power_pad.status = PowerPadStatus::Right;
            self.top_power_pad.status = PowerPadStatus::Left;
            return Settlement { outcome: Outcome::RoundReset, removed };
        }
        let claim1 = readings.player1_on_pad && !self.holds_cannon(PlayerId::Player1);
        let claim2 = readings.player2_on_pad && !self.holds_cannon(PlayerId::Player2);
        if claim1 && claim2 {
            let removed = self.take_all();
            self.advantage_state = AdvantageState::Neutral;
            Settlement { outcome: Outcome::Contested, removed }
        } else if claim1 {
            let side = far_side_of(readings.player2_x);
            let removed = self.take_all();
            self.advantage_state = AdvantageState::Player1;
            self.top_power_pad.status = side;
            Settlement {
                outcome: Outcome::Captured {
                    by: PlayerId::Player1,
                    pad: side,
                    position: place_of(&top_power_pad_positions(), side),
                },
                removed,
            }
        } else if claim2 {
            let side = far_side_of(readings.player1_x);
            let removed = self.take_all();
            self.advantage_state = AdvantageState::Player2;
            self.bottom_power_pad.status = side;
            Settlement {
                outcome: Outcome::Captured {
                    by: PlayerId::Player2,
                    pad: side,
                    position: place_of(&bottom_power_pad_positions(), side),
                },
                removed,
            }
        } else {
            let removed = self.split(&readings.struck, false);
            Settlement { outcome: Outcome::Quiet, removed }
        }
    }

    /// Spells out the writes into the engine that an outcome stands for.
    pub fn writes(&self, outcome: &Outcome) -> (writes: Vec<BodyWrite>)
        ensures
            writes@ == self@.writes(*outcome),
    {
        let mut writes: Vec<BodyWrite> = Vec::new();
        match outcome {
            Outcome::RoundReset => {
                writes.push(
                    BodyWrite::Place {
                        body: self.player1.body_handle,
                        position: bottom_start_position(),
                    },
                );
                writes.push(BodyWrite::Halt { body: self.player1.body_handle });
                writes.push(
                    BodyWrite::Place {
                        body: self.player2.body_handle,
                        position: top_start_position(),
                    },
                );
                writes.push(BodyWrite::Halt { body: self.player2.body_handle });
                writes.push(
                    BodyWrite::Place {
                        body: self.bottom_power_pad.body_handle,
                        position: bottom_power_pad_positions().right,
                    },
                );
                writes.push(
                    BodyWrite::Place {
                        body: self.top_power_pad.body_handle,
                        position: top_power_pad_positions().left,
                    },
                );
            },
            Outcome::Captured { by, pad: _, position } => {
                let pad_body = match by {
                    PlayerId::Player1 => self.top_power_pad.body_handle,
                    PlayerId::Player2 => self.bottom_power_pad.body_handle,
                };
                writes.push(BodyWrite::Halt { body: self.player(*by).body_handle });
                writes.push(BodyWrite::Place { body: pad_body, position: *position });
            },
            Outcome::Contested => {},
            Outcome::Quiet => {},
        }
        proof {
            assert(writes@ =~= self@.writes(*outcome));
        }
        writes
    }

    /// Lists the projectiles that overlap something solid.
    fn struck(&self, narrow_phase: &NarrowPhase, colliders: &ColliderSet) -> (found: Result<
        Vec<u16>,
        EngineError,
    >)
        ensures
            struck_among(self@.projectiles, *narrow_phase, *colliders) == (match found {
                Ok(ids) => Ok(ids@),
                Err(e) => Err(e),
            }),
    {
        let ghost hit = |p: Projectile|
            touch(*narrow_phase, *colliders, p.collider_handle, false) == Ok::<bool, EngineError>(
                true,
            );
        let mut ids: Vec<u16> = Vec::new();
        let mut i: usize = 0;
        proof {
            reveal(Seq::filter);
            assert(self.projectiles@.take(0) =~= Seq::<Projectile>::empty());
            assert(ids@ =~= ids_of(self.projectiles@.take(0).filter(hit)));
        }
        while i < self.projectiles.len()
            invariant
                0 <= i <= self.projectiles.len(),
                hit == |p: Projectile|
                    touch(*narrow_phase, *colliders, p.collider_handle, false) == Ok::<
                        bool,
                        EngineError,
                    >(true),
                forall|k: int|
                    0 <= k < i ==> !((#[trigger] touch(
                        *narrow_phase,
                        *colliders,
                        self.projectiles[k].collider_handle,
                        false,
                    )) is Err),
                ids@ == ids_of(self.projectiles@.take(i as int).filter(hit)),
            decreases self.projectiles.len() - i,
        {
            let projectile = self.projectiles[i];
            proof {
                let before = self.projectiles@.take(i as int);
                assert(self.projectiles@.take(i + 1) =~= before.push(projectile));
                before.lemma_filter_push(projectile, hit);
                if hit(projectile) {
                    assert(ids_of(before.filter(hit).push(projectile)) =~= ids_of(
                        before.filter(hit),
                    ).push(projectile.id));
                }
            }
            match touching(narrow_phase, colliders, projectile.collider_handle, false) {
                Err(e) => {
                    return Err(e);
                },
                Ok(true) => {
                    ids.push(projectile.id);
                },
                Ok(false) => {},
            }
            i += 1;
        }
        proof {
            assert(self.projectiles@.take(self.projectiles.len() as int) =~= self.projectiles@);
        }
        Ok(ids)
    }

    /// Reads from the engine, after integration, what the rules decide on.
    /// The players' horizontal positions are given in display units,
    /// rounded down. Fails when the engine has lost a collider that a
    /// player or a projectile overlaps.
    pub fn sense(
        &self,
        narrow_phase: &NarrowPhase,
        colliders: &ColliderSet,
        player1_x: i32,
        player2_x: i32,
    ) -> (found: Result<Readings, EngineError>)
        ensures
            self@.sensed(*narrow_phase, *colliders, player1_x, player2_x) == (match found {
                Ok(readings) => Ok(readings@),
                Err(e) => Err(e),
            }),
    {
        let player1_dead = match touching(
            narrow_phase,
            colliders,
            self.player1.collider_handle,
            true,
        ) {
            Ok(dead) => dead,
            Err(e) => {
                return Err(e);
            },
        };
        let player2_dead = match touching(
            narrow_phase,
            colliders,
            self.player2.collider_handle,
            true,
        ) {
            Ok(dead) => dead,
            Err(e) => {
                return Err(e);
            },
        };
        let player1_on_pad = in_contact(
            narrow_phase,
            self.player1.collider_handle,
            self.bottom_power_pad.collider_handle,
        );
        let player2_on_pad = in_contact(
            narrow_phase,
            self.player2.collider_handle,
            self.top_power_pad.collider_handle,
        );
        let claim1 = player1_on_pad && !self.holds_cannon(PlayerId::Player1);
        let claim2 = player2_on_pad && !self.holds_cannon(PlayerId::Player2);
        let struck = if player1_dead || player2_dead || claim1 || claim2 {
            Vec::new()
        } else {
            match self.struck(narrow_phase, colliders) {
                Ok(ids) => ids,
                Err(e) => {
                    return Err(e);
                },
            }
        };
        Ok(
            Readings {
                player1_dead,
                player2_dead,
                player1_on_pad,
                player2_on_pad,
                player1_x,
                player2_x,
                struck,
            },
        )
    }

    /// The last phase of a tick, against the engine: reads what happened,
    /// settles it, and takes the bodies of the destroyed projectiles out of
    /// the engine. What is handed back is still to be written into the
    /// engine. On an error nothing has changed.
    pub fn finish_step(
        &mut self,
        narrow_phase: &NarrowPhase,
        bodies: &mut RigidBodySet,
        islands: &mut IslandManager,
        colliders: &mut ColliderSet,
        joints: &mut JointSet,
        player1_x: i32,
        player2_x: i32,
    ) -> (outcome: Result<Outcome, EngineError>)
        ensures
            match old(self)@.sensed(*narrow_phase, *old(colliders), player1_x, player2_x) {
                Err(e) => {
                    &&& outcome == Err::<Outcome, EngineError>(e)
                    &&& final(self)@ == old(self)@
                    &&& *final(bodies) == *old(bodies)
                    &&& *final(colliders) == *old(colliders)
                },
                Ok(sensed) => {
                    &&& outcome == Ok::<Outcome, EngineError>(old(self)@.settled(sensed).outcome)
                    &&& final(self)@ == old(self)@.settled(sensed).world
                    &&& body_handles(*final(bodies)) == bodies_left(
                        body_handles(*old(bodies)),
                        old(self)@.settled(sensed).removed,
                    )
                    &&& sensor_flags(*final(colliders)).submap_of(sensor_flags(*old(colliders)))
                },
            },
    {
        let readings = match self.sense(narrow_phase, colliders, player1_x, player2_x) {
            Ok(readings) => readings,
            Err(e) => {
                return Err(e);
            },
        };
        let settlement = self.settle(&readings);
        discard(bodies, islands, colliders, joints, &settlement.removed);
        Ok(settlement.outcome)
    }

    /// Destroys a projectile: it leaves the world, and its body leaves the
    /// engine with what the engine hangs on it. No collider comes into the
    /// collider set and none that stays changes. Does nothing if no
    /// projectile has the
    /// identifier.
    pub fn remove_projectile(
        &mut self,
        bodies: &mut RigidBodySet,
        islands: &mut IslandManager,
        colliders: &mut ColliderSet,
        joints: &mut JointSet,
        projectile_id: u16,
    )
        ensures
            final(self)@ == old(self)@.without_projectile(projectile_id),
            body_handles(*final(bodies)) == bodies_left(
                body_handles(*old(bodies)),
                retained(old(self)@.projectiles, seq![projectile_id], true),
            ),
            sensor_flags(*final(colliders)).submap_of(sensor_flags(*old(colliders))),
    {
        let mut ids: Vec<u16> = Vec::new();
        ids.push(projectile_id);
        proof {
            assert(ids@ =~= seq![projectile_id]);
        }
        let removed = self.split(&ids, false);
        discard(bodies, islands, colliders, joints, &removed);
    }

    /// The snapshot of the world.
    pub fn snapshot(&self) -> (snapshot: GameSnapshot)
        ensures
            snapshot@ == self@.snapshot(),
    {
        GameSnapshot {
            round: self.round,
            advantage_state: self.advantage_state,
            player1: PlayerSnapshot { input: self.player1.input },
            player2: PlayerSnapshot { input: self.player2.input },
            cannon_x_position: self.cannon_x_position,
            bottom_power_pad_status: self.bottom_power_pad.status,
            top_power_pad_status: self.top_power_pad.status,
            next_projectile_id: self.next_projectile_id,
            projectiles: self.projectile_ids(),
        }
    }

    /// Restores a snapshot, as far as the world goes: the projectiles that
    /// the snapshot does not hold leave the world, and round, advantage,
    /// inputs, cannon, pad places and the counter of identifiers are
    /// overwritten, the counter so that it stands above every identifier
    /// that the snapshot holds. What is left to do in the engine is handed
    /// back.
    pub fn restore(&mut self, snapshot: &GameSnapshot) -> (restoration: Restoration)
        ensures
            final(self)@ == old(self)@.restored(snapshot@),
            restoration.missing@ == old(self)@.missing(snapshot@),
            restoration.removed@ == old(self)@.surplus(snapshot@),
            forall|i: int|
                0 <= i < final(self)@.projectiles.len() ==> snapshot@.projectiles.contains(
                    (#[trigger] final(self)@.projectiles[i]).id,
                ),
            forall|i: int|
                0 <= i < snapshot@.projectiles.len() ==> (#[trigger] snapshot@.projectiles[i])
                    < final(self)@.next_projectile_id,
    {
        let live = self.projectile_ids();
        let missing = keep_ids(&snapshot.projectiles, &live, false);
        let counter = snapshot.counter();
        let removed = self.split(&snapshot.projectiles, true);
        proof {
            use_type_invariant(&*self);
            lemma_retained_listed(old(self).projectiles@, snapshot.projectiles@);
            lemma_above(snapshot.projectiles@);
            assert forall|i: int| 0 <= i < self.projectiles@.len() implies (
            #[trigger] self.projectiles@[i]).id < counter by {
                let id = self.projectiles@[i].id;
                assert(snapshot.projectiles@.contains(id));
                let k = choose|k: int|
                    0 <= k < snapshot.projectiles@.len() && snapshot.projectiles@[k] == id;
                assert(snapshot.projectiles@[k] < above(snapshot.projectiles@));
            }
        }
        self.next_projectile_id = counter;
        self.round = snapshot.round;
        self.advantage_state = snapshot.advantage_state;
        self.player1.input = snapshot.player1.input;
        self.player2.input = snapshot.player2.input;
        self.cannon_x_position = snapshot.cannon_x_position;
        self.bottom_power_pad.status = snapshot.bottom_power_pad_status;
        self.top_power_pad.status = snapshot.top_power_pad_status;
        Restoration { missing, removed }
    }

    /// Restores a snapshot against the engine: as `restore`, and the bodies
    /// of the projectiles that left the world leave the engine. Hands back
    /// the identifiers whose projectiles are to be created, without
    /// velocity, and registered with `create_projectile`, before the
    /// bodies' kinematic data is overwritten.
    pub fn apply_snapshot(
        &mut self,
        bodies: &mut RigidBodySet,
        islands: &mut IslandManager,
        colliders: &mut ColliderSet,
        joints: &mut JointSet,
        snapshot: &GameSnapshot,
    ) -> (missing: Vec<u16>)
        ensures
            final(self)@ == old(self)@.restored(snapshot@),
            missing@ == old(self)@.missing(snapshot@),
            forall|i: int|
                0 <= i < final(self)@.projectiles.len() ==> snapshot@.projectiles.contains(
                    (#[trigger] final(self)@.projectiles[i]).id,
                ),
            forall|i: int|
                0 <= i < snapshot@.projectiles.len() ==> (#[trigger] snapshot@.projectiles[i])
                    < final(self)@.next_projectile_id,
            body_handles(*final(bodies)) == bodies_left(
                body_handles(*old(bodies)),
                old(self)@.surplus(snapshot@),
            ),
            sensor_flags(*final(colliders)).submap_of(sensor_flags(*old(colliders))),
    {
        let restoration = self.restore(snapshot);
        discard(bodies, islands, colliders, joints, &restoration.removed);
        restoration.missing
    }

    /// What is shown of the world.
    pub fn display_state(&self) -> (shown: GameDisplayState)
        ensures
            shown@ == self@.display(),
    {
        GameDisplayState {
            round: self.round,
            cannon_x_position: self.cannon_x_position,
            bottom_power_pad_status: self.bottom_power_pad.status,
            top_power_pad_status: self.top_power_pad.status,
            projectiles: self.projectile_ids(),
        }
    }
}

} // verus!
