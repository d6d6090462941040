//! Laws of the rules, proved of the functions in `rules` and `snapshot`.
//!
//! A tick, as the rules see it, is: the commands that arrived are applied,
//! the controls act, the shot of the tick (if any) is registered under the
//! handles that the engine gave it, and the rules settle what the engine
//! reported after integration.

use crate::command::{GameCommand, PlayerId};
use crate::ids::kept;
use crate::layout::{bottom_start, top_start};
use crate::rules::{
    advantage_of, bearers, below, ids_of, lemma_keeps_all,
    lemma_keeps_none, lemma_registered_above, lemma_registered_members, lemma_registered_wf,
    lemma_retained_listed, lemma_retained_wf, lower, registered, retained, upper, AdvantageState,
    BodyWrite, Outcome, PowerPadStatus, Projectile, Sensed, WorldView, CANNON_HOME, CANNON_MAX,
    CANNON_MIN, ID_LIMIT, PROJECTILE_CAP,
};
use crate::snapshot::{above, lemma_above, SnapshotView};
use crate::world::{initial_world, Entity};
use vstd::prelude::*;

verus! {

/// What reaches the rules in one tick.
pub struct Tick {
    /// The commands that are applied before the tick, first to last.
    pub commands: Seq<GameCommand>,
    /// The entity that the engine creates for the tick's shot, if the
    /// tick has one.
    pub spawned: Entity,
    /// What the engine reports after integration.
    pub sensed: Sensed,
}

impl WorldView {
    /// The world after one tick.
    pub open spec fn ticked(self, tick: Tick) -> WorldView {
        let commanded = self.commanded_all(tick.commands);
        let steered = commanded.steered();
        let armed = match commanded.shot() {
            Some(shot) => steered.with_projectile(
                Projectile {
                    id: shot.id,
                    body_handle: tick.spawned.body_handle,
                    collider_handle: tick.spawned.collider_handle,
                },
            ),
            None => steered,
        };
        armed.settled(tick.sensed).world
    }

    /// The world after a sequence of ticks, first to last.
    pub open spec fn replayed(self, ticks: Seq<Tick>) -> WorldView
        decreases ticks.len(),
    {
        if ticks.len() == 0 {
            self
        } else {
            self.replayed(ticks.drop_last()).ticked(ticks.last())
        }
    }

    /// The world with a sequence of projectiles registered, first to last.
    pub open spec fn with_projectiles(self, created: Seq<Projectile>) -> WorldView
        decreases created.len(),
    {
        if created.len() == 0 {
            self
        } else {
            self.with_projectiles(created.drop_last()).with_projectile(created.last())
        }
    }

    /// Two worlds agree when they have the same snapshot. Their handles may
    /// differ.
    pub open spec fn agrees_with(self, other: WorldView) -> bool {
        self.snapshot() == other.snapshot()
    }
}

/// Two ticks bring the same to the rules when commands and reports are the
/// same; the engines may have given different handles to a shot.
pub open spec fn same_tick(a: Tick, b: Tick) -> bool {
    a.commands == b.commands && a.sensed == b.sensed
}

/// Whether the identifiers stand in ascending order.
pub open spec fn ascending_ids(ids: Seq<u16>) -> bool {
    forall|i: int, j: int| 0 <= i < j < ids.len() ==> ids[i] < ids[j]
}

/// A filter on the identifiers of projectiles is a filter on the
/// projectiles.
pub proof fn lemma_ids_of_filter(
    projectiles: Seq<Projectile>,
    on_projectile: spec_fn(Projectile) -> bool,
    on_id: spec_fn(u16) -> bool,
)
    requires
        forall|p: Projectile| on_projectile(p) == on_id(p.id),
    ensures
        ids_of(projectiles.filter(on_projectile)) == ids_of(projectiles).filter(on_id),
    decreases projectiles.len(),
{
    reveal(Seq::filter);
    if projectiles.len() == 0 {
        assert(ids_of(projectiles.filter(on_projectile)) =~= ids_of(projectiles).filter(on_id));
    } else {
        let rest = projectiles.drop_last();
        let last = projectiles.last();
        lemma_ids_of_filter(rest, on_projectile, on_id);
        assert(projectiles =~= rest.push(last));
        rest.lemma_filter_push(last, on_projectile);
        assert(ids_of(projectiles) =~= ids_of(rest).push(last.id));
        ids_of(rest).lemma_filter_push(last.id, on_id);
        if on_projectile(last) {
            assert(ids_of(rest.filter(on_projectile).push(last)) =~= ids_of(
                rest.filter(on_projectile),
            ).push(last.id));
        }
    }
}

/// Which projectiles stay depends on their identifiers alone.
pub proof fn lemma_ids_of_retained(projectiles: Seq<Projectile>, ids: Seq<u16>, listed: bool)
    ensures
        ids_of(retained(projectiles, ids, listed)) == kept(ids_of(projectiles), ids, listed),
{
    lemma_ids_of_filter(
        projectiles,
        |p: Projectile| ids.contains(p.id) == listed,
        |id: u16| ids.contains(id) == listed,
    );
}

/// Which identifiers live after a registration, and in what order, depends
/// on the identifiers alone.
pub proof fn lemma_ids_of_registered(
    a: Seq<Projectile>,
    b: Seq<Projectile>,
    into_a: Projectile,
    into_b: Projectile,
)
    requires
        ids_of(a) == ids_of(b),
        into_a.id == into_b.id,
    ensures
        ids_of(registered(a, into_a)) == ids_of(registered(b, into_b)),
{
    let id = into_a.id;
    lemma_ids_of_filter(a, |q: Projectile| q.id < id, |i: u16| i < id);
    lemma_ids_of_filter(b, |q: Projectile| q.id < id, |i: u16| i < id);
    lemma_ids_of_filter(a, |q: Projectile| q.id > id, |i: u16| i > id);
    lemma_ids_of_filter(b, |q: Projectile| q.id > id, |i: u16| i > id);
    assert(ids_of(registered(a, into_a)) =~= ids_of(lower(a, id)).push(id) + ids_of(upper(a, id)));
    assert(ids_of(registered(b, into_b)) =~= ids_of(lower(b, id)).push(id) + ids_of(upper(b, id)));
}

/// An identifier lives exactly when a projectile carries it.
pub proof fn lemma_ids_contains(projectiles: Seq<Projectile>, id: u16)
    ensures
        ids_of(projectiles).contains(id) <==> exists|q: Projectile| #[trigger]
            projectiles.contains(q) && q.id == id,
{
    let ids = ids_of(projectiles);
    if ids.contains(id) {
        let k = choose|k: int| 0 <= k < ids.len() && ids[k] == id;
        assert(projectiles.contains(projectiles[k]) && projectiles[k].id == id);
    }
    if exists|q: Projectile| #[trigger] projectiles.contains(q) && q.id == id {
        let q = choose|q: Projectile| #[trigger] projectiles.contains(q) && q.id == id;
        let k = choose|k: int| 0 <= k < projectiles.len() && projectiles[k] == q;
        assert(ids[k] == id);
    }
}

/// After a registration the live identifiers are those that lived and the
/// registered one.
pub proof fn lemma_registered_ids(projectiles: Seq<Projectile>, projectile: Projectile)
    ensures
        forall|id: u16|
            ids_of(registered(projectiles, projectile)).contains(id) <==> (ids_of(
                projectiles,
            ).contains(id) || id == projectile.id),
{
    lemma_registered_members(projectiles, projectile);
    let out = registered(projectiles, projectile);
    assert forall|id: u16|
        ids_of(out).contains(id) <==> (ids_of(projectiles).contains(id) || id
            == projectile.id) by {
        lemma_ids_contains(out, id);
        lemma_ids_contains(projectiles, id);
        if ids_of(out).contains(id) {
            let q = choose|q: Projectile| #[trigger] out.contains(q) && q.id == id;
            if q != projectile {
                assert(projectiles.contains(q) && q.id == id);
            }
        }
        if id == projectile.id {
            assert(out.contains(projectile) && projectile.id == id);
        } else if ids_of(projectiles).contains(id) {
            let q = choose|q: Projectile| #[trigger] projectiles.contains(q) && q.id == id;
            assert(out.contains(q) && q.id == id);
        }
    }
}

/// A registration leaves no projectile out but one that carried the
/// registered identifier, and adds one.
pub proof fn lemma_registered_len(projectiles: Seq<Projectile>, projectile: Projectile)
    ensures
        registered(projectiles, projectile).len() + bearers(projectiles, projectile.id).len()
            == projectiles.len() + 1,
    decreases projectiles.len(),
{
    let id = projectile.id;
    lemma_split_count(projectiles, id);
    lemma_registered_members(projectiles, projectile);
}

/// Every projectile carries an identifier below, at or above a given one.
pub proof fn lemma_split_count(projectiles: Seq<Projectile>, id: u16)
    ensures
        lower(projectiles, id).len() + bearers(projectiles, id).len() + upper(
            projectiles,
            id,
        ).len() == projectiles.len(),
    decreases projectiles.len(),
{
    reveal(Seq::filter);
    if projectiles.len() > 0 {
        lemma_split_count(projectiles.drop_last(), id);
    }
}

/// Two ascending sequences of identifiers with the same members are equal.
pub proof fn lemma_ascending_unique(x: Seq<u16>, y: Seq<u16>)
    requires
        ascending_ids(x),
        ascending_ids(y),
        forall|v: u16| x.contains(v) <==> y.contains(v),
    ensures
        x == y,
    decreases x.len(),
{
    if x.len() == 0 {
        if y.len() > 0 {
            assert(y.contains(y[0]));
        }
        assert(x =~= y);
    } else {
        let top = x.last();
        assert(x.contains(x[x.len() - 1]));
        assert(y.contains(top));
        let at = choose|k: int| 0 <= k < y.len() && y[k] == top;
        assert(y.contains(y[y.len() - 1]));
        let back = choose|k: int| 0 <= k < x.len() && x[k] == y.last();
        assert(at == y.len() - 1) by {
            if at < y.len() - 1 {
                assert(y[at] < y[y.len() - 1]);
                if back < x.len() - 1 {
                    assert(x[back] < x[x.len() - 1]);
                }
            }
        }
        let xr = x.drop_last();
        let yr = y.drop_last();
        assert forall|v: u16| xr.contains(v) <==> yr.contains(v) by {
            if xr.contains(v) {
                let k = choose|k: int| 0 <= k < xr.len() && xr[k] == v;
                assert(x[k] == v && x[k] < x[x.len() - 1]);
                assert(x.contains(v));
                let m = choose|m: int| 0 <= m < y.len() && y[m] == v;
                assert(yr[m] == v);
            }
            if yr.contains(v) {
                let k = choose|k: int| 0 <= k < yr.len() && yr[k] == v;
                assert(y[k] == v && y[k] < y[y.len() - 1]);
                assert(y.contains(v));
                let m = choose|m: int| 0 <= m < x.len() && x[m] == v;
                assert(xr[m] == v);
            }
        }
        assert(ascending_ids(xr)) by {
            assert forall|i: int, j: int| 0 <= i < j < xr.len() implies xr[i] < xr[j] by {
                assert(xr[i] == x[i] && xr[j] == x[j]);
            }
        }
        assert(ascending_ids(yr)) by {
            assert forall|i: int, j: int| 0 <= i < j < yr.len() implies yr[i] < yr[j] by {
                assert(yr[i] == y[i] && yr[j] == y[j]);
            }
        }
        lemma_ascending_unique(xr, yr);
        assert(x =~= xr.push(top));
        assert(y =~= yr.push(top));
    }
}

/// The identifiers of a well-formed world stand in ascending order, and
/// the counter of identifiers stands above them.
pub proof fn lemma_wf_ids(world: WorldView)
    requires
        world.wf(),
    ensures
        ascending_ids(world.ids()),
        above(world.ids()) <= world.next_projectile_id,
        world.snapshot().sound(),
        world.snapshot().counter() == world.next_projectile_id,
{
    let ids = world.ids();
    lemma_above(ids);
    if ids.len() > 0 {
        let k = choose|k: int| 0 <= k < ids.len() && ids[k] == (above(ids) - 1) as u16;
        assert(world.projectiles[k].id < world.next_projectile_id);
    }
}

/// Commands keep two agreeing worlds in agreement, and change nothing but
/// inputs.
pub proof fn lemma_commands_agree(a: WorldView, b: WorldView, commands: Seq<GameCommand>)
    requires
        a.agrees_with(b),
    ensures
        a.commanded_all(commands).agrees_with(b.commanded_all(commands)),
        a.commanded_all(commands).projectiles == a.projectiles,
        b.commanded_all(commands).projectiles == b.projectiles,
    decreases commands.len(),
{
    if commands.len() > 0 {
        lemma_commands_agree(a, b, commands.drop_last());
    }
}

/// The controls keep two agreeing worlds in agreement, and fire the same
/// shot in both.
pub proof fn lemma_steering_agrees(a: WorldView, b: WorldView)
    requires
        a.agrees_with(b),
    ensures
        a.steered().agrees_with(b.steered()),
        a.shot() == b.shot(),
        a.steered().projectiles == a.projectiles,
        b.steered().projectiles == b.projectiles,
{
    assert(a.projectiles.len() == ids_of(a.projectiles).len());
    assert(b.projectiles.len() == ids_of(b.projectiles).len());
    let a1 = a.steered_by(PlayerId::Player1);
    let b1 = b.steered_by(PlayerId::Player1);
    assert(a1.agrees_with(b1));
    assert(a.shot_by(PlayerId::Player1) == b.shot_by(PlayerId::Player1));
    assert(a1.shot_by(PlayerId::Player2) == b1.shot_by(PlayerId::Player2));
}

/// Registering a projectile under one identifier keeps two agreeing worlds
/// in agreement, whatever handles it has in each.
pub proof fn lemma_registering_agrees(
    a: WorldView,
    b: WorldView,
    into_a: Projectile,
    into_b: Projectile,
)
    requires
        a.agrees_with(b),
        into_a.id == into_b.id,
    ensures
        a.with_projectile(into_a).agrees_with(b.with_projectile(into_b)),
{
    lemma_ids_of_registered(a.projectiles, b.projectiles, into_a, into_b);
}

/// Settling the same report keeps two agreeing worlds in agreement.
pub proof fn lemma_settling_agrees(a: WorldView, b: WorldView, sensed: Sensed)
    requires
        a.agrees_with(b),
    ensures
        a.settled(sensed).world.agrees_with(b.settled(sensed).world),
        a.settled(sensed).outcome == b.settled(sensed).outcome,
{
    lemma_ids_of_retained(a.projectiles, sensed.struck, false);
    lemma_ids_of_retained(b.projectiles, sensed.struck, false);
    assert(ids_of(Seq::<Projectile>::empty()) =~= Seq::<u16>::empty());
    let sa = a.settled(sensed).world;
    let sb = b.settled(sensed).world;
    assert(sa.ids() == sb.ids());
    assert(sa.player1.input == sb.player1.input);
    assert(sa.player2.input == sb.player2.input);
}

/// One tick keeps two agreeing worlds in agreement.
pub proof fn lemma_tick_agrees(a: WorldView, b: WorldView, tick_a: Tick, tick_b: Tick)
    requires
        a.agrees_with(b),
        same_tick(tick_a, tick_b),
    ensures
        a.ticked(tick_a).agrees_with(b.ticked(tick_b)),
{
    lemma_commands_agree(a, b, tick_a.commands);
    let ca = a.commanded_all(tick_a.commands);
    let cb = b.commanded_all(tick_b.commands);
    lemma_steering_agrees(ca, cb);
    let sa = ca.steered();
    let sb = cb.steered();
    let into_a = Projectile {
        id: ca.shot()->0.id,
        body_handle: tick_a.spawned.body_handle,
        collider_handle: tick_a.spawned.collider_handle,
    };
    let into_b = Projectile {
        id: cb.shot()->0.id,
        body_handle: tick_b.spawned.body_handle,
        collider_handle: tick_b.spawned.collider_handle,
    };
    let ra = if ca.shot() is Some {
        sa.with_projectile(into_a)
    } else {
        sa
    };
    let rb = if cb.shot() is Some {
        sb.with_projectile(into_b)
    } else {
        sb
    };
    if ca.shot() is Some {
        lemma_registering_agrees(sa, sb, into_a, into_b);
    }
    lemma_settling_agrees(ra, rb, tick_a.sensed);
    assert(a.ticked(tick_a) == ra.settled(tick_a.sensed).world);
    assert(b.ticked(tick_b) == rb.settled(tick_b.sensed).world);
}

/// Replay is deterministic: two worlds with the same snapshot have the
/// same snapshot again after the same ticks, whatever each went through
/// before and whatever handles each engine gives out.
pub proof fn lemma_replay_is_deterministic(
    a: WorldView,
    b: WorldView,
    ticks_a: Seq<Tick>,
    ticks_b: Seq<Tick>,
)
    requires
        a.snapshot() == b.snapshot(),
        ticks_a.len() == ticks_b.len(),
        forall|i: int| 0 <= i < ticks_a.len() ==> same_tick(ticks_a[i], ticks_b[i]),
    ensures
        a.replayed(ticks_a).snapshot() == b.replayed(ticks_b).snapshot(),
    decreases ticks_a.len(),
{
    if ticks_a.len() > 0 {
        lemma_replay_is_deterministic(a, b, ticks_a.drop_last(), ticks_b.drop_last());
        lemma_tick_agrees(
            a.replayed(ticks_a.drop_last()),
            b.replayed(ticks_b.drop_last()),
            ticks_a.last(),
            ticks_b.last(),
        );
    }
}

/// Restoring a world's own snapshot changes nothing and leaves nothing to
/// do in the engine.
pub proof fn lemma_snapshot_round_trip(world: WorldView)
    requires
        world.wf(),
    ensures
        world.restored(world.snapshot()) == world,
        world.missing(world.snapshot()) == Seq::<u16>::empty(),
        world.surplus(world.snapshot()) == Seq::<Projectile>::empty(),
{
    let ids = world.ids();
    lemma_wf_ids(world);
    assert forall|i: int| 0 <= i < world.projectiles.len() implies ids.contains(
        (#[trigger] world.projectiles[i]).id,
    ) by {
        assert(ids[i] == world.projectiles[i].id);
    }
    lemma_keeps_all(world.projectiles, |p: Projectile| ids.contains(p.id) == true);
    lemma_keeps_none(world.projectiles, |p: Projectile| ids.contains(p.id) == false);
    lemma_keeps_none(ids, |id: u16| ids.contains(id) == false);
}

/// A restore takes over what the snapshot holds: round, advantage, inputs,
/// cannon, pad places and the counter of identifiers are the snapshot's
/// afterwards, and every projectile that still lives is one that the
/// snapshot holds. The counter stands above every identifier that the
/// snapshot holds. What the snapshot holds and the world lacks is handed out
/// as missing, and nothing else is.
pub proof fn lemma_restore_takes_over(world: WorldView, snapshot: SnapshotView)
    requires
        world.wf(),
    ensures
        world.restored(snapshot).wf(),
        world.restored(snapshot).snapshot() == (SnapshotView {
            projectiles: world.restored(snapshot).ids(),
            next_projectile_id: snapshot.counter(),
            ..snapshot
        }),
        snapshot.sound() ==> snapshot.counter() == snapshot.next_projectile_id,
        forall|i: int|
            0 <= i < snapshot.projectiles.len() ==> (#[trigger] snapshot.projectiles[i])
                < world.restored(snapshot).next_projectile_id,
        forall|id: u16|
            world.restored(snapshot).ids().contains(id) <==> (world.ids().contains(id)
                && snapshot.projectiles.contains(id)),
        forall|id: u16|
            world.missing(snapshot).contains(id) <==> (snapshot.projectiles.contains(id)
                && !world.ids().contains(id)),
{
    broadcast use vstd::seq_lib::group_filter_ensures;

    let live = world.ids();
    let held = snapshot.projectiles;
    lemma_above(held);
    lemma_retained_wf(world.projectiles, held, true, world.next_projectile_id as int);
    lemma_retained_listed(world.projectiles, held);
    let stay = retained(world.projectiles, held, true);
    assert(below(stay, snapshot.counter() as int)) by {
        assert forall|i: int| 0 <= i < stay.len() implies (#[trigger] stay[i]).id
            < snapshot.counter() by {
            let k = choose|k: int| 0 <= k < held.len() && held[k] == stay[i].id;
            assert(held[k] < above(held));
        }
    }
    lemma_ids_of_retained(world.projectiles, held, true);
    let in_held = |id: u16| held.contains(id) == true;
    let not_live = |id: u16| live.contains(id) == false;
    assert forall|id: u16| live.filter(in_held).contains(id) <==> (live.contains(id)
        && held.contains(id)) by {
        if live.filter(in_held).contains(id) {
            live.lemma_filter_contains_rev(in_held, id);
            let k = choose|k: int| 0 <= k < live.filter(in_held).len() && live.filter(in_held)[k]
                == id;
            live.lemma_filter_pred(in_held, k);
        }
        if live.contains(id) && held.contains(id) {
            let k = choose|k: int| 0 <= k < live.len() && live[k] == id;
            live.lemma_filter_contains(in_held, k);
        }
    }
    assert forall|id: u16| held.filter(not_live).contains(id) <==> (held.contains(id)
        && !live.contains(id)) by {
        if held.filter(not_live).contains(id) {
            held.lemma_filter_contains_rev(not_live, id);
            let k = choose|k: int| 0 <= k < held.filter(not_live).len() && held.filter(
                not_live,
            )[k] == id;
            held.lemma_filter_pred(not_live, k);
        }
        if held.contains(id) && !live.contains(id) {
            let k = choose|k: int| 0 <= k < held.len() && held[k] == id;
            held.lemma_filter_contains(not_live, k);
        }
    }
}

/// Registering a sequence of projectiles adds their identifiers to the
/// live ones and keeps the world well formed. It changes nothing else but
/// the counter of identifiers, and not that either where every registered
/// identifier is below it.
pub proof fn lemma_with_projectiles(world: WorldView, created: Seq<Projectile>)
    requires
        world.wf(),
    ensures
        world.with_projectiles(created).wf(),
        world.with_projectiles(created) == (WorldView {
            projectiles: world.with_projectiles(created).projectiles,
            next_projectile_id: world.with_projectiles(created).next_projectile_id,
            ..world
        }),
        world.with_projectiles(created).next_projectile_id >= world.next_projectile_id,
        below(created, world.next_projectile_id as int) ==> world.with_projectiles(
            created,
        ).next_projectile_id == world.next_projectile_id,
        forall|id: u16|
            world.with_projectiles(created).ids().contains(id) <==> (world.ids().contains(id)
                || ids_of(created).contains(id)),
    decreases created.len(),
{
    if created.len() == 0 {
        assert forall|id: u16| !ids_of(created).contains(id) by {}
    } else {
        let rest = created.drop_last();
        let last = created.last();
        lemma_with_projectiles(world, rest);
        let partly = world.with_projectiles(rest);
        lemma_registered_wf(partly, last);
        lemma_registered_ids(partly.projectiles, last);
        assert(ids_of(created) =~= ids_of(rest).push(last.id));
        assert forall|id: u16| ids_of(created).contains(id) <==> (ids_of(rest).contains(id) || id
            == last.id) by {
            assert(ids_of(created)[rest.len() as int] == last.id);
            if ids_of(rest).contains(id) {
                let k = choose|k: int| 0 <= k < ids_of(rest).len() && ids_of(rest)[k] == id;
                assert(ids_of(created)[k] == id);
            }
        }
        if below(created, world.next_projectile_id as int) {
            assert(below(rest, world.next_projectile_id as int)) by {
                assert forall|i: int| 0 <= i < rest.len() implies (#[trigger] rest[i]).id
                    < world.next_projectile_id by {
                    assert(rest[i] == created[i]);
                }
            }
            assert(created[created.len() - 1].id < world.next_projectile_id);
        }
    }
}

/// A restore, completed by registering a projectile for every missing
/// identifier, leaves a world whose snapshot holds what the restored one
/// holds: every field but the projectiles is equal, with the counter of
/// identifiers as the restore sets it, and the same identifiers live.
pub proof fn lemma_restore_completes(
    world: WorldView,
    snapshot: SnapshotView,
    created: Seq<Projectile>,
)
    requires
        world.wf(),
        ids_of(created) == world.missing(snapshot),
    ensures
        world.restored(snapshot).with_projectiles(created).wf(),
        world.restored(snapshot).with_projectiles(created).snapshot() == (SnapshotView {
            projectiles: world.restored(snapshot).with_projectiles(created).ids(),
            next_projectile_id: snapshot.counter(),
            ..snapshot
        }),
        forall|id: u16|
            world.restored(snapshot).with_projectiles(created).ids().contains(id)
                <==> snapshot.projectiles.contains(id),
{
    lemma_restore_takes_over(world, snapshot);
    let restored = world.restored(snapshot);
    assert(below(created, restored.next_projectile_id as int)) by {
        assert forall|i: int| 0 <= i < created.len() implies (#[trigger] created[i]).id
            < restored.next_projectile_id by {
            assert(ids_of(created)[i] == created[i].id);
            assert(world.missing(snapshot).contains(created[i].id));
            let k = choose|k: int|
                0 <= k < snapshot.projectiles.len() && snapshot.projectiles[k] == created[i].id;
            assert(snapshot.projectiles[k] < restored.next_projectile_id);
        }
    }
    lemma_with_projectiles(restored, created);
}

/// A completed restore forgets the world's history: two worlds that restore
/// one snapshot, each completed with the projectiles it lacked, have the
/// same snapshot afterwards, and so go through the same ticks in the same
/// way.
pub proof fn lemma_restore_forgets_history(
    a: WorldView,
    b: WorldView,
    snapshot: SnapshotView,
    created_a: Seq<Projectile>,
    created_b: Seq<Projectile>,
)
    requires
        a.wf(),
        b.wf(),
        ids_of(created_a) == a.missing(snapshot),
        ids_of(created_b) == b.missing(snapshot),
    ensures
        a.restored(snapshot).with_projectiles(created_a).snapshot() == b.restored(
            snapshot,
        ).with_projectiles(created_b).snapshot(),
{
    lemma_restore_completes(a, snapshot, created_a);
    lemma_restore_completes(b, snapshot, created_b);
    let done_a = a.restored(snapshot).with_projectiles(created_a);
    let done_b = b.restored(snapshot).with_projectiles(created_b);
    lemma_wf_ids(done_a);
    lemma_wf_ids(done_b);
    assert forall|v: u16| done_a.ids().contains(v) <==> done_b.ids().contains(v) by {
        assert(done_a.ids().contains(v) <==> snapshot.projectiles.contains(v));
        assert(done_b.ids().contains(v) <==> snapshot.projectiles.contains(v));
    }
    lemma_ascending_unique(done_a.ids(), done_b.ids());
}

/// The cap on projectiles: while ten or more live, no control fires a
/// shot and no identifier is taken.
pub proof fn lemma_no_shot_at_cap(world: WorldView)
    requires
        world.projectiles.len() >= PROJECTILE_CAP,
    ensures
        world.shot() is None,
        world.steered().next_projectile_id == world.next_projectile_id,
        world.steered().projectiles == world.projectiles,
{
}

/// Below the cap, the cannon's holder who holds the action control fires
/// exactly one shot, provided an identifier is left. The shot carries the
/// identifier at which the counter stood, which no live projectile carries,
/// and registered it is one projectile more, at the end.
pub proof fn lemma_one_shot_below_cap(world: WorldView, holder: PlayerId, spawned: Entity)
    requires
        world.wf(),
        world.projectiles.len() < PROJECTILE_CAP,
        world.holds_cannon(holder),
        world.player(holder).input.action,
        world.next_projectile_id < ID_LIMIT,
    ensures
        world.shot() is Some,
        world.shot()->0.id == world.next_projectile_id,
        !world.ids().contains(world.shot()->0.id),
        world.steered().next_projectile_id == world.next_projectile_id + 1,
        world.steered().with_projectile(
            Projectile {
                id: world.shot()->0.id,
                body_handle: spawned.body_handle,
                collider_handle: spawned.collider_handle,
            },
        ) == (WorldView {
            projectiles: world.projectiles.push(
                Projectile {
                    id: world.shot()->0.id,
                    body_handle: spawned.body_handle,
                    collider_handle: spawned.collider_handle,
                },
            ),
            ..world.steered()
        }),
{
    let shot = Projectile {
        id: world.next_projectile_id as u16,
        body_handle: spawned.body_handle,
        collider_handle: spawned.collider_handle,
    };
    lemma_registered_above(world.projectiles, shot);
    if world.ids().contains(shot.id) {
        let k = choose|k: int| 0 <= k < world.ids().len() && world.ids()[k] == shot.id;
        assert(world.projectiles[k].id < world.next_projectile_id);
    }
}

/// A tick never takes the number of live projectiles above the cap.
pub proof fn lemma_tick_respects_cap(world: WorldView, tick: Tick)
    requires
        world.projectiles.len() <= PROJECTILE_CAP,
    ensures
        world.ticked(tick).projectiles.len() <= PROJECTILE_CAP,
{
    broadcast use vstd::seq_lib::group_filter_ensures;

    lemma_commands_agree(world, world, tick.commands);
    let commanded = world.commanded_all(tick.commands);
    let steered = commanded.steered();
    if commanded.shot() is Some {
        assert(commanded.projectiles.len() < PROJECTILE_CAP);
        lemma_registered_len(
            steered.projectiles,
            Projectile {
                id: commanded.shot()->0.id,
                body_handle: tick.spawned.body_handle,
                collider_handle: tick.spawned.collider_handle,
            },
        );
    }
}

/// Commands and controls keep a world well formed.
pub proof fn lemma_steering_keeps_wf(world: WorldView, commands: Seq<GameCommand>)
    requires
        world.wf(),
    ensures
        world.commanded_all(commands).wf(),
        world.commanded_all(commands).steered().wf(),
{
    lemma_controls_keep_match_state(world, commands);
}

/// Settling keeps a world well formed.
pub proof fn lemma_settling_keeps_wf(world: WorldView, sensed: Sensed)
    requires
        world.wf(),
    ensures
        world.settled(sensed).world.wf(),
{
    lemma_retained_wf(world.projectiles, sensed.struck, false, world.next_projectile_id as int);
}

/// A tick keeps a world well formed: the live identifiers stay in ascending
/// order and below the counter of identifiers.
pub proof fn lemma_tick_keeps_wf(world: WorldView, tick: Tick)
    requires
        world.wf(),
    ensures
        world.ticked(tick).wf(),
{
    lemma_steering_keeps_wf(world, tick.commands);
    let commanded = world.commanded_all(tick.commands);
    let steered = commanded.steered();
    let into = Projectile {
        id: commanded.shot()->0.id,
        body_handle: tick.spawned.body_handle,
        collider_handle: tick.spawned.collider_handle,
    };
    let armed = if commanded.shot() is Some {
        steered.with_projectile(into)
    } else {
        steered
    };
    if commanded.shot() is Some {
        lemma_registered_wf(steered, into);
    }
    lemma_settling_keeps_wf(armed, tick.sensed);
    assert(world.ticked(tick) == armed.settled(tick.sensed).world);
}

/// A death resets everything but the inputs: the round counter steps on
/// by one (from 255 it wraps to 0), nobody holds the advantage, the cannon
/// is at home, the bottom pad on the right and the top pad on the left, and
/// no projectile lives. Every projectile that lived is handed back as
/// removed, and the writes of the reset put both players at their start
/// positions and halt them.
pub proof fn lemma_death_resets(world: WorldView, sensed: Sensed)
    requires
        sensed.player1_dead || sensed.player2_dead,
    ensures
        world.settled(sensed).outcome == Outcome::RoundReset,
        world.round < u8::MAX ==> world.settled(sensed).world.round == world.round + 1,
        world.round == u8::MAX ==> world.settled(sensed).world.round == 0,
        world.settled(sensed).world.advantage_state == AdvantageState::Neutral,
        world.settled(sensed).world.cannon_x_position == CANNON_HOME,
        world.settled(sensed).world.bottom_power_pad.status == PowerPadStatus::Right,
        world.settled(sensed).world.top_power_pad.status == PowerPadStatus::Left,
        world.settled(sensed).world.projectiles.len() == 0,
        world.settled(sensed).removed == world.projectiles,
        world.settled(sensed).world.player1 == world.player1,
        world.settled(sensed).world.player2 == world.player2,
        world.settled(sensed).world.next_projectile_id == world.next_projectile_id,
        world.settled(sensed).world.writes(Outcome::RoundReset).contains(
            BodyWrite::Place { body: world.player1.body_handle, position: bottom_start() },
        ),
        world.settled(sensed).world.writes(Outcome::RoundReset).contains(
            BodyWrite::Halt { body: world.player1.body_handle },
        ),
        world.settled(sensed).world.writes(Outcome::RoundReset).contains(
            BodyWrite::Place { body: world.player2.body_handle, position: top_start() },
        ),
        world.settled(sensed).world.writes(Outcome::RoundReset).contains(
            BodyWrite::Halt { body: world.player2.body_handle },
        ),
{
    let writes = world.settled(sensed).world.writes(Outcome::RoundReset);
    assert(writes[0] == BodyWrite::Place {
        body: world.player1.body_handle,
        position: bottom_start(),
    });
    assert(writes[1] == BodyWrite::Halt { body: world.player1.body_handle });
    assert(writes[2] == BodyWrite::Place { body: world.player2.body_handle, position: top_start() });
    assert(writes[3] == BodyWrite::Halt { body: world.player2.body_handle });
}

/// The advantage goes to a player only by that player's sole claim: if a
/// player holds it after the rules have settled a tick, then the player
/// held it before, or nobody died and the player alone pressed on the
/// player's pad without holding the advantage.
pub proof fn lemma_advantage_by_sole_claim(world: WorldView, sensed: Sensed, id: PlayerId)
    requires
        world.settled(sensed).world.advantage_state == advantage_of(id),
    ensures
        world.advantage_state == advantage_of(id) || {
            &&& !sensed.player1_dead
            &&& !sensed.player2_dead
            &&& world.claims(
                id,
                match id {
                    PlayerId::Player1 => sensed.player1_on_pad,
                    PlayerId::Player2 => sensed.player2_on_pad,
                },
            )
            &&& !world.claims(
                id.other(),
                match id {
                    PlayerId::Player1 => sensed.player2_on_pad,
                    PlayerId::Player2 => sensed.player1_on_pad,
                },
            )
        },
{
}

/// The round counter moves only when a player dies.
pub proof fn lemma_round_moves_only_on_death(world: WorldView, sensed: Sensed)
    ensures
        world.settled(sensed).world.round != world.round <==> (sensed.player1_dead
            || sensed.player2_dead),
{
}

/// Between restores, identifiers are given out in ascending order: a tick
/// never takes the counter back, and the shot of a tick carries the
/// identifier at which the counter stood, which the counter has then
/// passed.
pub proof fn lemma_identifiers_ascend(world: WorldView, tick: Tick)
    requires
        world.wf(),
    ensures
        world.ticked(tick).next_projectile_id >= world.next_projectile_id,
        world.commanded_all(tick.commands).shot() is Some ==> {
            &&& world.commanded_all(tick.commands).shot()->0.id == world.next_projectile_id
            &&& world.ticked(tick).next_projectile_id == world.next_projectile_id + 1
        },
        world.commanded_all(tick.commands).shot() is None ==> world.ticked(tick).next_projectile_id
            == world.next_projectile_id,
{
    lemma_controls_keep_match_state(world, tick.commands);
    let commanded = world.commanded_all(tick.commands);
    let first = commanded.steered_by(PlayerId::Player1);
    assert(commanded.fires(PlayerId::Player1) ==> !first.fires(PlayerId::Player2));
}

/// Over any number of ticks the counter of identifiers never goes back.
pub proof fn lemma_identifiers_ascend_over_replay(world: WorldView, ticks: Seq<Tick>)
    requires
        world.wf(),
    ensures
        world.replayed(ticks).wf(),
        world.replayed(ticks).next_projectile_id >= world.next_projectile_id,
    decreases ticks.len(),
{
    if ticks.len() > 0 {
        lemma_identifiers_ascend_over_replay(world, ticks.drop_last());
        lemma_tick_keeps_wf(world.replayed(ticks.drop_last()), ticks.last());
        lemma_identifiers_ascend(world.replayed(ticks.drop_last()), ticks.last());
    }
}

/// No live identifier is given out again: the shot of a tick carries an
/// identifier that no live projectile carries, in every well-formed world;
/// after a restore, one above every identifier that the snapshot holds.
pub proof fn lemma_shot_is_fresh(world: WorldView, snapshot: SnapshotView)
    requires
        world.wf(),
    ensures
        world.shot() is Some ==> !world.ids().contains(world.shot()->0.id),
        world.restored(snapshot).shot() is Some ==> forall|i: int|
            0 <= i < snapshot.projectiles.len() ==> (#[trigger] snapshot.projectiles[i])
                < world.restored(snapshot).shot()->0.id,
{
    if world.shot() is Some {
        let id = world.shot()->0.id;
        if world.ids().contains(id) {
            let k = choose|k: int| 0 <= k < world.ids().len() && world.ids()[k] == id;
            assert(world.projectiles[k].id < world.next_projectile_id);
        }
    }
    lemma_restore_takes_over(world, snapshot);
}

/// Commands change nothing but inputs, and commands and controls leave
/// round and advantage alone: only the last phase of a tick, or a restore,
/// changes them.
pub proof fn lemma_controls_keep_match_state(world: WorldView, commands: Seq<GameCommand>)
    ensures
        world.commanded_all(commands).next_projectile_id == world.next_projectile_id,
        world.commanded_all(commands).cannon_x_position == world.cannon_x_position,
        world.commanded_all(commands).projectiles == world.projectiles,
        world.commanded_all(commands).round == world.round,
        world.commanded_all(commands).advantage_state == world.advantage_state,
        world.commanded_all(commands).steered().round == world.round,
        world.commanded_all(commands).steered().advantage_state == world.advantage_state,
    decreases commands.len(),
{
    if commands.len() > 0 {
        lemma_controls_keep_match_state(world, commands.drop_last());
    }
}

/// The cannon stays within its range: it starts there, and no command, no
/// control, no registration and no settling takes it out. A restore leaves
/// it where the snapshot has it.
pub proof fn lemma_cannon_stays_in_range(
    world: WorldView,
    command: GameCommand,
    projectile: Projectile,
    sensed: Sensed,
    snapshot: SnapshotView,
)
    ensures
        world.cannon_in_range() ==> world.commanded(command).cannon_in_range(),
        world.cannon_in_range() ==> world.steered().cannon_in_range(),
        world.cannon_in_range() ==> world.with_projectile(projectile).cannon_in_range(),
        world.cannon_in_range() ==> world.settled(sensed).world.cannon_in_range(),
        world.restored(snapshot).cannon_x_position == snapshot.cannon_x_position,
        CANNON_MIN <= snapshot.cannon_x_position <= CANNON_MAX ==> world.restored(
            snapshot,
        ).cannon_in_range(),
{
}

/// A match starts with the cannon within its range, and has it there after
/// any number of ticks.
pub proof fn lemma_cannon_in_range_over_replay(world: WorldView, ticks: Seq<Tick>)
    requires
        world.cannon_in_range(),
    ensures
        world.replayed(ticks).cannon_in_range(),
    decreases ticks.len(),
{
    if ticks.len() > 0 {
        lemma_cannon_in_range_over_replay(world, ticks.drop_last());
        let before = world.replayed(ticks.drop_last());
        let tick = ticks.last();
        lemma_controls_keep_match_state(before, tick.commands);
        let commanded = before.commanded_all(tick.commands);
        let steered = commanded.steered();
        let into = Projectile {
            id: commanded.shot()->0.id,
            body_handle: tick.spawned.body_handle,
            collider_handle: tick.spawned.collider_handle,
        };
        lemma_cannon_stays_in_range(
            commanded,
            GameCommand::Input(PlayerId::Player1, crate::command::PlayerCommand::Action, false),
            into,
            tick.sensed,
            before.snapshot(),
        );
        let armed = if commanded.shot() is Some {
            steered.with_projectile(into)
        } else {
            steered
        };
        lemma_cannon_stays_in_range(
            armed,
            GameCommand::Input(PlayerId::Player1, crate::command::PlayerCommand::Action, false),
            into,
            tick.sensed,
            before.snapshot(),
        );
        assert(before.ticked(tick) == armed.settled(tick.sensed).world);
    }
}

/// A match starts well formed and with the cannon at home.
pub proof fn lemma_initial_world(player1: Entity, player2: Entity, bottom_pad: Entity, top_pad: Entity)
    ensures
        initial_world(player1, player2, bottom_pad, top_pad).wf(),
        initial_world(player1, player2, bottom_pad, top_pad).cannon_in_range(),
{
}

} // verus!
