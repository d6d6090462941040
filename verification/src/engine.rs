//! What the rules read from, and remove from, the rigid-body engine.
//!
//! The engine is `rapier2d`. Its sets and graphs are opaque here; the rules
//! see them through four calls, each behind a function whose contract is
//! taken on trust, and name bodies and colliders by plain `Handle`s.

use rapier2d::dynamics::{IslandManager, JointSet, RigidBodyHandle, RigidBodySet};
use rapier2d::geometry::{ColliderHandle, ColliderSet, NarrowPhase};
use vstd::prelude::*;

verus! {

broadcast use vstd::seq_lib::group_seq_properties;

#[verifier::external_type_specification]
#[verifier::external_body]
pub struct ExNarrowPhase(NarrowPhase);

#[verifier::external_type_specification]
#[verifier::external_body]
pub struct ExColliderSet(ColliderSet);

#[verifier::external_type_specification]
#[verifier::external_body]
pub struct ExRigidBodySet(RigidBodySet);

#[verifier::external_type_specification]
#[verifier::external_body]
pub struct ExIslandManager(IslandManager);

#[verifier::external_type_specification]
#[verifier::external_body]
pub struct ExJointSet(JointSet);

/// A generational index that names one body or one collider of the engine.
/// It is valid from the entity's insertion to its removal and means nothing
/// to another engine.
#[derive(Clone, Copy, Debug, PartialEq, Eq, Hash, Structural)]
pub struct Handle {
    pub index: u32,
    pub generation: u32,
}

/// One edge of the engine's intersection graph: two colliders, and whether
/// they overlap at present.
#[derive(Clone, Copy, Debug, PartialEq, Eq, Structural)]
pub struct Overlap {
    pub first: Handle,
    pub second: Handle,
    pub intersecting: bool,
}

/// The engine's bookkeeping has lost an entity that the rules still refer to.
#[derive(Clone, Copy, Debug, PartialEq, Eq, Structural)]
pub enum EngineError {
    /// An overlap names a collider that is not in the collider set.
    MissingCollider,
}

/// The edges of the intersection graph at one collider, in the graph's order.
pub uninterp spec fn intersections_of(narrow_phase: NarrowPhase, collider: Handle) -> Seq<Overlap>;

/// The active-contact flag of the contact pair of two colliders, if the
/// contact graph holds such a pair.
pub uninterp spec fn active_contact_of(
    narrow_phase: NarrowPhase,
    first: Handle,
    second: Handle,
) -> Option<bool>;

/// The colliders of a set, each with its sensor flag.
pub uninterp spec fn sensor_flags(colliders: ColliderSet) -> Map<Handle, bool>;

/// The handles of the bodies of a set.
pub uninterp spec fn body_handles(bodies: RigidBodySet) -> Set<Handle>;

/// Calls `NarrowPhase::intersections_with` and copies out what its iterator
/// yields. Trusted: the result is named, nothing more is claimed of it.
#[verifier::external_body]
fn intersections_with(narrow_phase: &NarrowPhase, collider: Handle) -> (found: Vec<Overlap>)
    ensures
        found@ == intersections_of(*narrow_phase, collider),
{
    narrow_phase
        .intersections_with(ColliderHandle::from_raw_parts(collider.index, collider.generation))
        .map(|(first, second, intersecting)| Overlap {
            first: Handle { index: first.into_raw_parts().0, generation: first.into_raw_parts().1 },
            second: Handle { index: second.into_raw_parts().0, generation: second.into_raw_parts().1 },
            intersecting,
        })
        .collect()
}

/// Calls `NarrowPhase::contact_pair` and reads the pair's
/// `has_any_active_contact`. Trusted: the result is named, nothing more is
/// claimed of it.
#[verifier::external_body]
fn contact_pair_active(narrow_phase: &NarrowPhase, first: Handle, second: Handle) -> (active:
    Option<bool>)
    ensures
        active == active_contact_of(*narrow_phase, first, second),
{
    narrow_phase
        .contact_pair(
            ColliderHandle::from_raw_parts(first.index, first.generation),
            ColliderHandle::from_raw_parts(second.index, second.generation),
        )
        .map(|pair| pair.has_any_active_contact)
}

/// Calls `ColliderSet::get` and reads the collider's `is_sensor`. Trusted:
/// the result is the set's entry for the handle, `None` where it has none.
#[verifier::external_body]
fn collider_is_sensor(colliders: &ColliderSet, collider: Handle) -> (flag: Option<bool>)
    ensures
        flag == lookup(sensor_flags(*colliders), collider),
{
    colliders
        .get(ColliderHandle::from_raw_parts(collider.index, collider.generation))
        .map(|found| found.is_sensor())
}

/// Calls `RigidBodySet::remove`, which takes the body, its colliders and its
/// joints out of the engine. The four parts must belong to one engine.
/// Trusted: afterwards the body set holds the bodies it held, but for this
/// one, and the collider set holds no collider that it did not hold, each
/// with the sensor flag it had.
#[verifier::external_body]
pub(crate) fn remove_body(
    bodies: &mut RigidBodySet,
    islands: &mut IslandManager,
    colliders: &mut ColliderSet,
    joints: &mut JointSet,
    body: Handle,
)
    ensures
        body_handles(*final(bodies)) == body_handles(*old(bodies)).remove(body),
        sensor_flags(*final(colliders)).submap_of(sensor_flags(*old(colliders))),
{
    bodies.remove(
        RigidBodyHandle::from_raw_parts(body.index, body.generation),
        islands,
        colliders,
        joints,
    );
}

/// The entry of a map, if it has one.
pub open spec fn lookup(flags: Map<Handle, bool>, collider: Handle) -> Option<bool> {
    if flags.dom().contains(collider) {
        Some(flags[collider])
    } else {
        None
    }
}

impl Overlap {
    /// The end of the edge that is not `collider`; for an edge from a
    /// collider to itself, the collider.
    pub open spec fn partner_of(self, collider: Handle) -> Handle {
        if self.first == collider {
            self.second
        } else {
            self.first
        }
    }

    pub fn partner(&self, collider: Handle) -> (other: Handle)
        ensures
            other == self.partner_of(collider),
    {
        if self.first == collider {
            self.second
        } else {
            self.first
        }
    }
}

/// The colliders that overlap `collider` at present: the partners of the
/// intersecting edges, in the edges' order.
pub open spec fn intersecting_partners(overlaps: Seq<Overlap>, collider: Handle) -> Seq<Handle> {
    overlaps.filter(|o: Overlap| o.intersecting).map_values(|o: Overlap| o.partner_of(collider))
}

/// The sensor flag of each partner, `None` for one that the set lacks.
pub open spec fn partner_flags(flags: Map<Handle, bool>, partners: Seq<Handle>) -> Seq<
    Option<bool>,
> {
    partners.map_values(|h: Handle| lookup(flags, h))
}

/// Whether some partner is of the wanted kind: an error if any partner is
/// unknown to the collider set, whatever the others are.
pub open spec fn verdict_of(flags: Seq<Option<bool>>, sensors: bool) -> Result<bool, EngineError> {
    if flags.contains(None::<bool>) {
        Err(EngineError::MissingCollider)
    } else {
        Ok(flags.contains(Some(sensors)))
    }
}

/// Whether `collider` overlaps a sensor (`sensors` true) or a solid
/// (`sensors` false), as the named engine results say.
pub open spec fn touches(
    overlaps: Seq<Overlap>,
    flags: Map<Handle, bool>,
    collider: Handle,
    sensors: bool,
) -> Result<bool, EngineError> {
    verdict_of(partner_flags(flags, intersecting_partners(overlaps, collider)), sensors)
}

/// Picks the partners of the intersecting edges at `collider`.
pub fn partners(overlaps: &Vec<Overlap>, collider: Handle) -> (others: Vec<Handle>)
    ensures
        others@ == intersecting_partners(overlaps@, collider),
{
    let ghost keep = |o: Overlap| o.intersecting;
    let ghost side = |o: Overlap| o.partner_of(collider);
    let mut others: Vec<Handle> = Vec::new();
    let mut i: usize = 0;
    proof {
        assert(overlaps@.take(0) =~= Seq::<Overlap>::empty());
        reveal(Seq::filter);
        assert(overlaps@.take(0).filter(keep).map_values(side) =~= others@);
    }
    while i < overlaps.len()
        invariant
            0 <= i <= overlaps.len(),
            keep == |o: Overlap| o.intersecting,
            side == |o: Overlap| o.partner_of(collider),
            others@ == overlaps@.take(i as int).filter(keep).map_values(side),
        decreases overlaps.len() - i,
    {
        let overlap = overlaps[i];
        proof {
            let before = overlaps@.take(i as int);
            assert(overlaps@.take(i + 1) =~= before.push(overlap));
            before.lemma_filter_push(overlap, keep);
            if keep(overlap) {
                assert(before.filter(keep).push(overlap).map_values(side) =~= before.filter(
                    keep,
                ).map_values(side).push(side(overlap)));
            }
        }
        if overlap.intersecting {
            others.push(overlap.partner(collider));
        }
        i += 1;
    }
    proof {
        assert(overlaps@.take(overlaps.len() as int) =~= overlaps@);
    }
    others
}

/// Decides from the partners' sensor flags whether one of the wanted kind is
/// among them.
pub fn verdict(flags: &Vec<Option<bool>>, sensors: bool) -> (found: Result<bool, EngineError>)
    ensures
        found == verdict_of(flags@, sensors),
{
    let mut missing = false;
    let mut hit = false;
    let mut i: usize = 0;
    while i < flags.len()
        invariant
            0 <= i <= flags.len(),
            missing == flags@.take(i as int).contains(None::<bool>),
            hit == flags@.take(i as int).contains(Some(sensors)),
        decreases flags.len() - i,
    {
        proof {
            let before = flags@.take(i as int);
            let after = flags@.take(i + 1);
            assert(after =~= before.push(flags[i as int]));
            assert(after[i as int] == flags[i as int]);
            assert forall|v: Option<bool>| after.contains(v) <==> (before.contains(v) || v
                == flags[i as int]) by {
                if before.contains(v) {
                    let k = choose|k: int| 0 <= k < before.len() && before[k] == v;
                    assert(after[k] == v);
                }
            }
        }
        match flags[i] {
            None => {
                missing = true;
            },
            Some(flag) => {
                if flag == sensors {
                    hit = true;
                }
            },
        }
        i += 1;
    }
    proof {
        assert(flags@.take(flags.len() as int) =~= flags@);
    }
    if missing {
        Err(EngineError::MissingCollider)
    } else {
        Ok(hit)
    }
}

/// Whether `collider` overlaps, at present, a collider that is a sensor
/// (`sensors` true) or one that is solid (`sensors` false). Fails when an
/// overlapping collider is not in `colliders`.
pub fn touching(
    narrow_phase: &NarrowPhase,
    colliders: &ColliderSet,
    collider: Handle,
    sensors: bool,
) -> (found: Result<bool, EngineError>)
    ensures
        found == touches(
            intersections_of(*narrow_phase, collider),
            sensor_flags(*colliders),
            collider,
            sensors,
        ),
{
    let overlaps = intersections_with(narrow_phase, collider);
    let others = partners(&overlaps, collider);
    let mut flags: Vec<Option<bool>> = Vec::new();
    let mut i: usize = 0;
    while i < others.len()
        invariant
            0 <= i <= others.len(),
            flags.len() == i,
            forall|k: int|
                0 <= k < i ==> #[trigger] flags[k] == lookup(sensor_flags(*colliders), others[k]),
        decreases others.len() - i,
    {
        flags.push(collider_is_sensor(colliders, others[i]));
        i += 1;
    }
    proof {
        assert(flags@ =~= partner_flags(sensor_flags(*colliders), others@));
    }
    verdict(&flags, sensors)
}

/// Whether a contact pair's flag says that the two colliders press on each
/// other: a missing pair does not.
pub open spec fn pressing(active: Option<bool>) -> bool {
    active == Some(true)
}

/// Reads a contact pair's flag.
pub fn is_pressing(active: Option<bool>) -> (pressed: bool)
    ensures
        pressed == pressing(active),
{
    match active {
        Some(flag) => flag,
        None => false,
    }
}

/// Whether two colliders have an active contact in this tick.
pub fn in_contact(narrow_phase: &NarrowPhase, first: Handle, second: Handle) -> (pressed: bool)
    ensures
        pressed == pressing(active_contact_of(*narrow_phase, first, second)),
{
    is_pressing(contact_pair_active(narrow_phase, first, second))
}

} // verus!
