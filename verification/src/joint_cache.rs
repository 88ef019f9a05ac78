//! Warm-start cache of joint impulses, keyed by joint id.

use std::collections::HashMap;
use vstd::prelude::*;

verus! {

/// The cache is emptied as soon as it holds more joints than this.
pub const JOINT_CACHE_LIMIT: usize = 4096;

/// What is left of the impulses `m` after the capacity rule has been applied:
/// nothing if there were more than `JOINT_CACHE_LIMIT`, all of them otherwise.
pub open spec fn flushed<V>(m: Map<u64, V>) -> Map<u64, V> {
    if m.len() > JOINT_CACHE_LIMIT {
        Map::empty()
    } else {
        m
    }
}

/// Accumulated impulse of each joint at the end of the last substep.
pub struct JointImpulseCache<V> {
    impulses: HashMap<u64, V>,
}

impl<V> View for JointImpulseCache<V> {
    type V = Map<u64, V>;

    closed spec fn view(&self) -> Map<u64, V> {
        self.impulses@
    }
}

impl<V: Copy> JointImpulseCache<V> {
    /// A cache that remembers nothing yet.
    pub fn new() -> (cache: Self)
        ensures
            cache@ == Map::<u64, V>::empty(),
    {
        JointImpulseCache { impulses: HashMap::new() }
    }

    /// Number of joints the cache currently remembers.
    pub fn len(&self) -> (n: usize)
        ensures
            n == self@.len(),
            self@.dom().finite(),
    {
        broadcast use vstd::std_specs::hash::group_hash_axioms;

        self.impulses.len()
    }

    /// Remembers `impulse` for the joint `id`, replacing an earlier value.
    pub fn record(&mut self, id: u64, impulse: V)
        ensures
            final(self)@ == old(self)@.insert(id, impulse),
    {
        broadcast use vstd::std_specs::hash::group_hash_axioms;

        self.impulses.insert(id, impulse);
    }

    /// The impulse remembered for the joint `id`, or `cold` when the joint is
    /// not in the cache.
    pub fn recall_or(&self, id: u64, cold: V) -> (impulse: V)
        ensures
            impulse == if self@.contains_key(id) {
                self@[id]
            } else {
                cold
            },
    {
        broadcast use vstd::std_specs::hash::group_hash_axioms;

        match self.impulses.get(&id) {
            Some(found) => *found,
            None => cold,
        }
    }

    /// Applies the capacity rule: a cache that has grown beyond
    /// `JOINT_CACHE_LIMIT` joints is emptied, a smaller one is left alone.
    pub fn prune(&mut self)
        ensures
            final(self)@ == flushed(old(self)@),
    {
        broadcast use vstd::std_specs::hash::group_hash_axioms;

        if self.impulses.len() > JOINT_CACHE_LIMIT {
            self.impulses.clear();
        }
    }
}

/// After the capacity rule has been applied the cache never holds more than
/// `JOINT_CACHE_LIMIT` joints, and applying the rule again changes nothing.
pub proof fn lemma_flushed_is_bounded<V>(m: Map<u64, V>)
    ensures
        flushed(m).len() <= JOINT_CACHE_LIMIT,
        flushed(flushed(m)) == flushed(m),
{
    assert(Map::<u64, V>::empty().len() == 0);
}

} // verus!
