//! Finding bodies by id, and binding a joint to the two bodies it names.

use crate::body::BodyTag;
use std::collections::HashMap;
use vstd::prelude::*;

verus! {

/// `i` is the last position in `bodies` that carries the id `id`.
pub open spec fn is_last_with_id(bodies: Seq<BodyTag>, id: u64, i: int) -> bool {
    &&& 0 <= i < bodies.len()
    &&& bodies[i].id == id
    &&& forall|j: int| i < j < bodies.len() ==> (#[trigger] bodies[j]).id != id
}

/// Index of each body by its id. Where several bodies share an id, the id
/// stands for the last of them.
pub struct BodyIndex {
    slots: HashMap<u64, usize>,
    body_count: usize,
}

impl View for BodyIndex {
    type V = Map<u64, usize>;

    closed spec fn view(&self) -> Map<u64, usize> {
        self.slots@
    }
}

impl BodyIndex {
    #[verifier::type_invariant]
    spec fn in_range(&self) -> bool {
        forall|id: u64| #[trigger]
            self.slots@.contains_key(id) ==> self.slots@[id] < self.body_count
    }

    /// Number of bodies the index was built over.
    pub closed spec fn count(&self) -> nat {
        self.body_count as nat
    }

    /// Builds the index of `bodies`.
    pub fn build(bodies: &[BodyTag]) -> (index: BodyIndex)
        ensures
            index.count() == bodies@.len(),
            forall|id: u64| #[trigger]
                index@.contains_key(id) <==> exists|i: int|
                    0 <= i < bodies@.len() && (#[trigger] bodies@[i]).id == id,
            forall|id: u64| #[trigger]
                index@.contains_key(id) ==> is_last_with_id(bodies@, id, index@[id] as int),
    {
        broadcast use vstd::std_specs::hash::group_hash_axioms;

        let mut slots: HashMap<u64, usize> = HashMap::new();
        let mut i: usize = 0;
        while i < bodies.len()
            invariant
                i <= bodies@.len(),
                forall|id: u64| #[trigger]
                    slots@.contains_key(id) <==> exists|k: int|
                        0 <= k < i && (#[trigger] bodies@[k]).id == id,
                forall|id: u64| #[trigger]
                    slots@.contains_key(id) ==> is_last_with_id(
                        bodies@.take(i as int),
                        id,
                        slots@[id] as int,
                    ),
            decreases bodies@.len() - i,
        {
            let id: u64 = bodies[i].id;
            let ghost before = slots@;
            slots.insert(id, i);
            i += 1;
            assert forall|other: u64| #[trigger] slots@.contains_key(other) implies is_last_with_id(
                bodies@.take(i as int),
                other,
                slots@[other] as int,
            ) by {
                if other != id {
                    assert(is_last_with_id(bodies@.take(i - 1), other, before[other] as int));
                }
            }
            assert forall|other: u64|
                (exists|k: int|
                    0 <= k < i && (#[trigger] bodies@[k]).id
                        == other) implies #[trigger] slots@.contains_key(other) by {
                let k = choose|k: int| 0 <= k < i && (#[trigger] bodies@[k]).id == other;
                if k < i - 1 {
                    assert(before.contains_key(other));
                }
            }
        }
        assert(bodies@.take(i as int) =~= bodies@);
        BodyIndex { slots, body_count: bodies.len() }
    }

    /// The position of the body with id `id`, if there is one.
    pub fn find(&self, id: u64) -> (slot: Option<usize>)
        ensures
            slot == if self@.contains_key(id) {
                Some(self@[id])
            } else {
                None::<usize>
            },
            slot matches Some(i) ==> i < self.count(),
    {
        broadcast use vstd::std_specs::hash::group_hash_axioms;

        proof {
            use_type_invariant(self);
        }
        match self.slots.get(&id) {
            Some(found) => Some(*found),
            None => None,
        }
    }

    /// The pair of positions a joint between `body_a` and `body_b` acts on.
    ///
    /// A joint is bound when both ids are known and they name two different
    /// positions; otherwise it is dropped for this substep.
    pub fn bind_joint(&self, body_a: u64, body_b: u64) -> (ends: Option<(usize, usize)>)
        ensures
            ends == joint_ends(self@, body_a, body_b),
            ends matches Some((a, b)) ==> a != b && a < self.count() && b < self.count(),
    {
        let a: usize = match self.find(body_a) {
            Some(a) => a,
            None => { return None; },
        };
        let b: usize = match self.find(body_b) {
            Some(b) => b,
            None => { return None; },
        };
        if a == b {
            return None;
        }
        Some((a, b))
    }
}

/// The positions a joint acts on, given where each id is found.
pub open spec fn joint_ends(slots: Map<u64, usize>, body_a: u64, body_b: u64) -> Option<
    (usize, usize),
> {
    if slots.contains_key(body_a) && slots.contains_key(body_b) && slots[body_a] != slots[body_b] {
        Some((slots[body_a], slots[body_b]))
    } else {
        None
    }
}

/// Binding does not depend on the order in which a joint names its bodies:
/// swapping the two ids swaps the two positions.
pub proof fn lemma_joint_ends_swap(slots: Map<u64, usize>, body_a: u64, body_b: u64)
    ensures
        joint_ends(slots, body_b, body_a) == match joint_ends(slots, body_a, body_b) {
            Some((a, b)) => Some((b, a)),
            None => None::<(usize, usize)>,
        },
{
}

} // verus!
