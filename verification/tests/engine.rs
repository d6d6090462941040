use platformer_shared::engine::{
    in_contact, is_pressing, partners, touching, verdict, EngineError, Handle, Overlap,
};
use platformer_shared::rules::{AdvantageState, Outcome, PowerPadStatus};
use platformer_shared::world::{Entity, GameWorld};
use rapier2d::dynamics::{
    CCDSolver, IntegrationParameters, IslandManager, JointSet, RigidBodyBuilder, RigidBodyHandle,
    RigidBodySet,
};
use rapier2d::geometry::{BroadPhase, ColliderBuilder, ColliderHandle, ColliderSet, NarrowPhase};
use rapier2d::na::Vector2;
use rapier2d::pipeline::{ActiveEvents, PhysicsPipeline};

struct Engine {
    pipeline: PhysicsPipeline,
    islands: IslandManager,
    broad_phase: BroadPhase,
    narrow_phase: NarrowPhase,
    bodies: RigidBodySet,
    colliders: ColliderSet,
    joints: JointSet,
    ccd_solver: CCDSolver,
}

fn body_handle(handle: RigidBodyHandle) -> Handle {
    let (index, generation) = handle.into_raw_parts();
    Handle { index, generation }
}

fn collider_handle(handle: ColliderHandle) -> Handle {
    let (index, generation) = handle.into_raw_parts();
    Handle { index, generation }
}

impl Engine {
    fn new() -> Engine {
        Engine {
            pipeline: PhysicsPipeline::new(),
            islands: IslandManager::new(),
            broad_phase: BroadPhase::new(),
            narrow_phase: NarrowPhase::new(),
            bodies: RigidBodySet::new(),
            colliders: ColliderSet::new(),
            joints: JointSet::new(),
            ccd_solver: CCDSolver::new(),
        }
    }

    /// A dynamic body with a solid box, as a player has.
    fn player(&mut self, x: f32, y: f32) -> Entity {
        let body = self.bodies.insert(
            RigidBodyBuilder::new_dynamic()
                .translation(Vector2::new(x, y))
                .ccd_enabled(true)
                .lock_rotations()
                .build(),
        );
        let collider = self.colliders.insert_with_parent(
            ColliderBuilder::cuboid(0.5, 0.5)
                .active_events(ActiveEvents::CONTACT_EVENTS)
                .active_events(ActiveEvents::INTERSECTION_EVENTS)
                .friction(0.0)
                .build(),
            body,
            &mut self.bodies,
        );
        Entity { body_handle: body_handle(body), collider_handle: collider_handle(collider) }
    }

    /// A static body with a solid box, as a pad has.
    fn pad(&mut self, x: f32, y: f32) -> Entity {
        let body = self
            .bodies
            .insert(RigidBodyBuilder::new_static().translation(Vector2::new(x, y)).build());
        let collider = self.colliders.insert_with_parent(
            ColliderBuilder::cuboid(1.75, 0.25).build(),
            body,
            &mut self.bodies,
        );
        Entity { body_handle: body_handle(body), collider_handle: collider_handle(collider) }
    }

    /// A dynamic body with a sensor box, as a projectile has.
    fn projectile(&mut self, x: f32, y: f32) -> Entity {
        let body = self.bodies.insert(
            RigidBodyBuilder::new_dynamic()
                .translation(Vector2::new(x, y))
                .ccd_enabled(true)
                .lock_rotations()
                .build(),
        );
        let collider = self.colliders.insert_with_parent(
            ColliderBuilder::cuboid(0.25, 1.0)
                .active_events(ActiveEvents::INTERSECTION_EVENTS)
                .sensor(true)
                .build(),
            body,
            &mut self.bodies,
        );
        Entity { body_handle: body_handle(body), collider_handle: collider_handle(collider) }
    }

    /// A fixed sensor box, as a lethal zone is.
    fn lava(&mut self, x: f32, y: f32) -> Handle {
        collider_handle(
            self.colliders.insert(
                ColliderBuilder::cuboid(2.0, 0.5)
                    .translation(Vector2::new(x, y))
                    .sensor(true)
                    .active_events(ActiveEvents::CONTACT_EVENTS)
                    .active_events(ActiveEvents::INTERSECTION_EVENTS)
                    .build(),
            ),
        )
    }

    /// A fixed solid box, as a platform is.
    fn platform(&mut self, x: f32, y: f32) -> Handle {
        collider_handle(
            self.colliders.insert(
                ColliderBuilder::cuboid(2.0, 0.5)
                    .translation(Vector2::new(x, y))
                    .friction(0.0)
                    .build(),
            ),
        )
    }

    fn step(&mut self, gravity_y: f32) {
        self.pipeline.step(
            &Vector2::new(0.0, gravity_y),
            &IntegrationParameters::default(),
            &mut self.islands,
            &mut self.broad_phase,
            &mut self.narrow_phase,
            &mut self.bodies,
            &mut self.colliders,
            &mut self.joints,
            &mut self.ccd_solver,
            &(),
            &(),
        );
    }

    fn has_body(&self, handle: Handle) -> bool {
        self.bodies.contains(RigidBodyHandle::from_raw_parts(handle.index, handle.generation))
    }

    fn has_collider(&self, handle: Handle) -> bool {
        self.colliders.contains(ColliderHandle::from_raw_parts(handle.index, handle.generation))
    }
}

/// An arena with both players and pads far from each other and from
/// everything else.
fn arena(engine: &mut Engine) -> GameWorld {
    let player1 = engine.player(-40.0, 0.0);
    let player2 = engine.player(40.0, 0.0);
    let bottom_pad = engine.pad(-40.0, -30.0);
    let top_pad = engine.pad(40.0, 30.0);
    GameWorld::new(player1, player2, bottom_pad, top_pad)
}

#[test]
fn player_in_lava_touches_a_sensor() {
    let mut engine = Engine::new();
    let player = engine.player(0.0, 0.0);
    let lava = engine.lava(0.0, 0.2);
    engine.platform(30.0, 30.0);
    engine.step(0.0);
    assert!(engine.has_collider(lava));
    assert_eq!(
        touching(&engine.narrow_phase, &engine.colliders, player.collider_handle, true),
        Ok(true)
    );
    assert_eq!(
        touching(&engine.narrow_phase, &engine.colliders, player.collider_handle, false),
        Ok(false)
    );
    assert_eq!(touching(&engine.narrow_phase, &engine.colliders, lava, false), Ok(true));
}

#[test]
fn player_away_from_lava_touches_nothing() {
    let mut engine = Engine::new();
    let player = engine.player(0.0, 0.0);
    engine.lava(20.0, 20.0);
    engine.step(0.0);
    assert_eq!(
        touching(&engine.narrow_phase, &engine.colliders, player.collider_handle, true),
        Ok(false)
    );
    assert_eq!(
        touching(&engine.narrow_phase, &engine.colliders, player.collider_handle, false),
        Ok(false)
    );
}

#[test]
fn unknown_collider_touches_nothing() {
    let mut engine = Engine::new();
    engine.player(0.0, 0.0);
    engine.lava(0.0, 0.2);
    engine.step(0.0);
    let stranger = Handle { index: 77, generation: 3 };
    assert_eq!(touching(&engine.narrow_phase, &engine.colliders, stranger, true), Ok(false));
}

#[test]
fn projectile_in_a_platform_touches_a_solid() {
    let mut engine = Engine::new();
    let projectile = engine.projectile(0.0, 0.0);
    let free = engine.projectile(10.0, 10.0);
    engine.platform(0.0, 0.5);
    engine.step(0.0);
    assert_eq!(
        touching(&engine.narrow_phase, &engine.colliders, projectile.collider_handle, false),
        Ok(true)
    );
    assert_eq!(
        touching(&engine.narrow_phase, &engine.colliders, projectile.collider_handle, true),
        Ok(false)
    );
    assert_eq!(
        touching(&engine.narrow_phase, &engine.colliders, free.collider_handle, false),
        Ok(false)
    );
}

#[test]
fn overlap_with_a_lost_collider_is_an_error() {
    let mut engine = Engine::new();
    let player = engine.player(0.0, 0.0);
    engine.lava(0.0, 0.2);
    engine.step(0.0);
    let empty = ColliderSet::new();
    assert_eq!(
        touching(&engine.narrow_phase, &empty, player.collider_handle, true),
        Err(EngineError::MissingCollider)
    );
    assert_eq!(
        touching(&engine.narrow_phase, &empty, player.collider_handle, false),
        Err(EngineError::MissingCollider)
    );
}

#[test]
fn player_resting_on_a_pad_is_in_contact() {
    let mut engine = Engine::new();
    let player = engine.player(0.0, 0.8);
    let pad = engine.pad(0.0, 0.0);
    let far = engine.pad(50.0, 0.0);
    for _ in 0..30 {
        engine.step(-9.81);
    }
    assert!(in_contact(&engine.narrow_phase, player.collider_handle, pad.collider_handle));
    assert!(in_contact(&engine.narrow_phase, pad.collider_handle, player.collider_handle));
    assert!(!in_contact(&engine.narrow_phase, player.collider_handle, far.collider_handle));
    assert!(!in_contact(
        &engine.narrow_phase,
        player.collider_handle,
        Handle { index: 99, generation: 0 }
    ));
}

#[test]
fn contact_flag_counts_only_when_active() {
    assert!(is_pressing(Some(true)));
    assert!(!is_pressing(Some(false)));
    assert!(!is_pressing(None));
}

#[test]
fn partners_are_the_other_ends_of_intersecting_edges() {
    let me = Handle { index: 1, generation: 0 };
    let a = Handle { index: 2, generation: 0 };
    let b = Handle { index: 3, generation: 5 };
    let c = Handle { index: 1, generation: 1 };
    let overlaps = vec![
        Overlap { first: me, second: a, intersecting: true },
        Overlap { first: b, second: me, intersecting: false },
        Overlap { first: b, second: me, intersecting: true },
        Overlap { first: c, second: me, intersecting: true },
        Overlap { first: me, second: me, intersecting: true },
    ];
    assert_eq!(partners(&overlaps, me), vec![a, b, c, me]);
    assert_eq!(partners(&vec![], me), vec![]);
    assert_eq!(overlaps[1].partner(me), b);
    assert_eq!(overlaps[0].partner(me), a);
    assert_eq!(overlaps[0].partner(a), me);
}

#[test]
fn verdict_wants_one_partner_of_the_kind() {
    assert_eq!(verdict(&vec![], true), Ok(false));
    assert_eq!(verdict(&vec![Some(false), Some(true)], true), Ok(true));
    assert_eq!(verdict(&vec![Some(false), Some(true)], false), Ok(true));
    assert_eq!(verdict(&vec![Some(false), Some(false)], true), Ok(false));
    assert_eq!(verdict(&vec![Some(true)], false), Ok(false));
    assert_eq!(verdict(&vec![Some(true), None], true), Err(EngineError::MissingCollider));
    assert_eq!(verdict(&vec![None, Some(false)], true), Err(EngineError::MissingCollider));
}

#[test]
fn removed_projectile_leaves_world_and_engine() {
    let mut engine = Engine::new();
    let mut world = arena(&mut engine);
    let first = engine.projectile(0.0, 0.0);
    let second = engine.projectile(5.0, 0.0);
    world.create_projectile(0, first);
    world.create_projectile(1, second);
    world.remove_projectile(
        &mut engine.bodies,
        &mut engine.islands,
        &mut engine.colliders,
        &mut engine.joints,
        0,
    );
    assert_eq!(world.projectile_ids(), vec![1]);
    assert!(!engine.has_body(first.body_handle));
    assert!(!engine.has_collider(first.collider_handle));
    assert!(engine.has_body(second.body_handle));
    assert!(engine.has_collider(second.collider_handle));
    world.remove_projectile(
        &mut engine.bodies,
        &mut engine.islands,
        &mut engine.colliders,
        &mut engine.joints,
        42,
    );
    assert_eq!(world.projectile_ids(), vec![1]);
    assert_eq!(engine.bodies.len(), 5);
}

#[test]
fn death_in_the_engine_ends_the_round() {
    let mut engine = Engine::new();
    let mut world = arena(&mut engine);
    engine.lava(40.0, 0.2);
    let shot = engine.projectile(0.0, 0.0);
    world.create_projectile(0, shot);
    engine.step(0.0);
    let readings = world.sense(&engine.narrow_phase, &engine.colliders, -800, 800).unwrap();
    assert!(!readings.player1_dead);
    assert!(readings.player2_dead);
    assert!(!readings.player1_on_pad);
    assert!(!readings.player2_on_pad);
    assert_eq!(readings.player1_x, -800);
    assert_eq!(readings.player2_x, 800);
    let outcome = world.finish_step(
        &engine.narrow_phase,
        &mut engine.bodies,
        &mut engine.islands,
        &mut engine.colliders,
        &mut engine.joints,
        -800,
        800,
    );
    assert_eq!(outcome, Ok(Outcome::RoundReset));
    assert_eq!(world.round(), 2);
    assert_eq!(world.projectile_count(), 0);
    assert!(!engine.has_body(shot.body_handle));
    assert!(engine.has_body(world.player(platformer_shared::command::PlayerId::Player1).body_handle));
}

#[test]
fn projectile_that_hits_a_platform_is_destroyed() {
    let mut engine = Engine::new();
    let mut world = arena(&mut engine);
    engine.platform(0.0, 0.5);
    engine.lava(10.0, 10.0);
    let hit = engine.projectile(0.0, 0.0);
    let in_lava = engine.projectile(10.0, 10.0);
    let free = engine.projectile(20.0, -20.0);
    world.create_projectile(0, hit);
    world.create_projectile(1, in_lava);
    world.create_projectile(2, free);
    engine.step(0.0);
    let readings = world.sense(&engine.narrow_phase, &engine.colliders, 0, 0).unwrap();
    assert_eq!(readings.struck, vec![0]);
    let outcome = world.finish_step(
        &engine.narrow_phase,
        &mut engine.bodies,
        &mut engine.islands,
        &mut engine.colliders,
        &mut engine.joints,
        0,
        0,
    );
    assert_eq!(outcome, Ok(Outcome::Quiet));
    assert_eq!(world.projectile_ids(), vec![1, 2]);
    assert!(!engine.has_body(hit.body_handle));
    assert!(engine.has_body(in_lava.body_handle));
    assert!(engine.has_body(free.body_handle));
    assert_eq!(world.round(), 1);
    assert_eq!(world.advantage_state(), AdvantageState::Neutral);
}

#[test]
fn capture_in_the_engine_moves_the_opponents_pad() {
    let mut engine = Engine::new();
    let player1 = engine.player(0.0, 0.8);
    let player2 = engine.player(40.0, 0.0);
    let bottom_pad = engine.pad(0.0, 0.0);
    let top_pad = engine.pad(40.0, 30.0);
    let mut world = GameWorld::new(player1, player2, bottom_pad, top_pad);
    let shot = engine.projectile(-20.0, 20.0);
    world.create_projectile(0, shot);
    for _ in 0..30 {
        engine.step(-9.81);
    }
    let outcome = world.finish_step(
        &engine.narrow_phase,
        &mut engine.bodies,
        &mut engine.islands,
        &mut engine.colliders,
        &mut engine.joints,
        0,
        800,
    );
    assert_eq!(
        outcome,
        Ok(Outcome::Captured {
            by: platformer_shared::command::PlayerId::Player1,
            pad: PowerPadStatus::Left,
            position: platformer_shared::layout::Position { y: 705, x: 150 },
        })
    );
    assert_eq!(world.advantage_state(), AdvantageState::Player1);
    assert_eq!(world.top_power_pad().status, PowerPadStatus::Left);
    assert_eq!(world.projectile_count(), 0);
    assert!(!engine.has_body(shot.body_handle));
}

#[test]
fn lost_collider_stops_the_tick_unchanged() {
    let mut engine = Engine::new();
    let mut world = arena(&mut engine);
    engine.lava(-40.0, 0.2);
    let shot = engine.projectile(0.0, 0.0);
    world.create_projectile(0, shot);
    engine.step(0.0);
    let mut empty = ColliderSet::new();
    let outcome = world.finish_step(
        &engine.narrow_phase,
        &mut engine.bodies,
        &mut engine.islands,
        &mut empty,
        &mut engine.joints,
        0,
        0,
    );
    assert_eq!(outcome, Err(EngineError::MissingCollider));
    assert_eq!(world.round(), 1);
    assert_eq!(world.projectile_ids(), vec![0]);
    assert!(engine.has_body(shot.body_handle));
}

#[test]
fn adopted_projectile_takes_the_replaced_body_out() {
    let mut engine = Engine::new();
    let mut world = arena(&mut engine);
    let first = engine.projectile(0.0, 0.0);
    let second = engine.projectile(5.0, 0.0);
    let third = engine.projectile(9.0, 0.0);
    world.adopt_projectile(
        &mut engine.bodies,
        &mut engine.islands,
        &mut engine.colliders,
        &mut engine.joints,
        6,
        first,
    );
    world.adopt_projectile(
        &mut engine.bodies,
        &mut engine.islands,
        &mut engine.colliders,
        &mut engine.joints,
        4,
        second,
    );
    assert_eq!(world.projectile_ids(), vec![4, 6]);
    assert!(engine.has_body(first.body_handle));
    world.adopt_projectile(
        &mut engine.bodies,
        &mut engine.islands,
        &mut engine.colliders,
        &mut engine.joints,
        6,
        third,
    );
    assert_eq!(world.projectile_ids(), vec![4, 6]);
    assert_eq!(world.projectiles()[1].body_handle, third.body_handle);
    assert!(!engine.has_body(first.body_handle));
    assert!(!engine.has_collider(first.collider_handle));
    assert!(engine.has_body(second.body_handle));
    assert!(engine.has_body(third.body_handle));
    assert!(engine.has_collider(third.collider_handle));
    assert_eq!(world.next_projectile_id(), 7);
}

#[test]
fn worlds_restored_in_the_engine_fire_the_same_identifiers() {
    let mut first_engine = Engine::new();
    let mut second_engine = Engine::new();
    let mut first = arena(&mut first_engine);
    let mut second = arena(&mut second_engine);
    for id in [0u16, 1, 2] {
        let shot = second_engine.projectile(0.0, 0.0);
        second.create_projectile(id, shot);
    }
    assert_eq!(second.next_projectile_id(), 3);
    let mut snapshot = first.snapshot();
    snapshot.advantage_state = AdvantageState::Player1;
    snapshot.player1.input.action = true;
    snapshot.next_projectile_id = 9;
    snapshot.projectiles = vec![8, 1];
    for (world, engine) in [(&mut first, &mut first_engine), (&mut second, &mut second_engine)] {
        let missing = world.apply_snapshot(
            &mut engine.bodies,
            &mut engine.islands,
            &mut engine.colliders,
            &mut engine.joints,
            &snapshot,
        );
        for id in missing {
            let created = engine.projectile(0.0, 0.0);
            world.adopt_projectile(
                &mut engine.bodies,
                &mut engine.islands,
                &mut engine.colliders,
                &mut engine.joints,
                id,
                created,
            );
        }
        let spawn = world.resolve_controls(false, false).spawn.unwrap();
        assert_eq!(spawn.id, 9);
        let created = engine.projectile(0.0, 0.0);
        world.adopt_projectile(
            &mut engine.bodies,
            &mut engine.islands,
            &mut engine.colliders,
            &mut engine.joints,
            spawn.id,
            created,
        );
    }
    assert_eq!(first.snapshot().projectiles, vec![1, 8, 9]);
    assert_eq!(second.snapshot().projectiles, vec![1, 8, 9]);
    assert_eq!(first.snapshot().next_projectile_id, 10);
    assert_eq!(second.snapshot().next_projectile_id, 10);
    assert_eq!(first_engine.bodies.len(), 4 + 3);
    assert_eq!(second_engine.bodies.len(), 4 + 3);
}

#[test]
fn applied_snapshot_takes_surplus_bodies_out() {
    let mut engine = Engine::new();
    let mut world = arena(&mut engine);
    let kept = engine.projectile(0.0, 0.0);
    let surplus = engine.projectile(5.0, 0.0);
    world.create_projectile(3, kept);
    world.create_projectile(4, surplus);
    let mut snapshot = world.snapshot();
    snapshot.projectiles = vec![3, 11];
    snapshot.round = 9;
    let missing = world.apply_snapshot(
        &mut engine.bodies,
        &mut engine.islands,
        &mut engine.colliders,
        &mut engine.joints,
        &snapshot,
    );
    assert_eq!(missing, vec![11]);
    assert_eq!(world.projectile_ids(), vec![3]);
    assert_eq!(world.next_projectile_id(), 12);
    assert_eq!(world.round(), 9);
    assert!(engine.has_body(kept.body_handle));
    assert!(!engine.has_body(surplus.body_handle));
    assert!(!engine.has_collider(surplus.collider_handle));
}
