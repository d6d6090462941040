//! Lists of projectile identifiers.

use vstd::prelude::*;

verus! {

/// The members of `ids` that are (`present` true) or are not (`present`
/// false) among `others`, in the order of `ids`.
pub open spec fn kept(ids: Seq<u16>, others: Seq<u16>, present: bool) -> Seq<u16> {
    ids.filter(|id: u16| others.contains(id) == present)
}

/// Whether `id` is in the list.
pub fn contains_id(ids: &Vec<u16>, id: u16) -> (found: bool)
    ensures
        found == ids@.contains(id),
{
    let mut i: usize = 0;
    while i < ids.len()
        invariant
            0 <= i <= ids.len(),
            forall|k: int| 0 <= k < i ==> ids[k] != id,
        decreases ids.len() - i,
    {
        if ids[i] == id {
            return true;
        }
        i += 1;
    }
    false
}

/// Splits off the members of `ids` that are, or are not, among `others`.
/// With `present` false this is the difference of the two lists, with
/// `present` true their intersection.
pub fn keep_ids(ids: &Vec<u16>, others: &Vec<u16>, present: bool) -> (chosen: Vec<u16>)
    ensures
        chosen@ == kept(ids@, others@, present),
{
    let ghost wanted = |id: u16| others@.contains(id) == present;
    let mut chosen: Vec<u16> = Vec::new();
    let mut i: usize = 0;
    proof {
        reveal(Seq::filter);
        assert(ids@.take(0) =~= Seq::<u16>::empty());
        assert(ids@.take(0).filter(wanted) =~= chosen@);
    }
    while i < ids.len()
        invariant
            0 <= i <= ids.len(),
            wanted == |id: u16| others@.contains(id) == present,
            chosen@ == ids@.take(i as int).filter(wanted),
        decreases ids.len() - i,
    {
        let id = ids[i];
        proof {
            assert(ids@.take(i + 1) =~= ids@.take(i as int).push(id));
            ids@.take(i as int).lemma_filter_push(id, wanted);
        }
        if contains_id(others, id) == present {
            chosen.push(id);
        }
        i += 1;
    }
    proof {
        assert(ids@.take(ids.len() as int) =~= ids@);
    }
    chosen
}

} // verus!
