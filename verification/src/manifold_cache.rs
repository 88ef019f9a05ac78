//! Warm-start cache of contact manifolds, keyed by pair key and aged by frame.

use crate::contact_set::{keep_first_points, kept_points, MAX_MANIFOLD_POINTS};
use std::collections::HashMap;
use vstd::prelude::*;

verus! {

/// Frames elapsed from `touched` to `now` on a 32-bit counter that wraps.
pub open spec fn frame_age(now: u32, touched: u32) -> int {
    if now >= touched {
        now - touched
    } else {
        now - touched + 0x1_0000_0000
    }
}

/// An entry last touched at frame `touched` is still kept at frame `now` when
/// its age does not exceed `max_age`.
pub open spec fn is_fresh(now: u32, touched: u32, max_age: u32) -> bool {
    frame_age(now, touched) <= max_age
}

/// The frame counter after one more substep: it wraps at 2^32.
pub open spec fn successor_frame(frame: u32) -> u32 {
    if frame == u32::MAX {
        0
    } else {
        (frame + 1) as u32
    }
}

/// The frame counter `substeps` substeps after it read `frame`.
pub open spec fn frame_after(frame: u32, substeps: nat) -> u32 {
    ((frame + substeps) % 0x1_0000_0000) as u32
}

/// Advances the frame counter by one substep.
pub fn next_frame(frame: u32) -> (next: u32)
    ensures
        next == successor_frame(frame),
        frame_age(next, frame) == 1,
{
    frame.wrapping_add(1)
}

/// Frames elapsed since `touched`, as of `now`.
pub fn age_of(now: u32, touched: u32) -> (age: u32)
    ensures
        age == frame_age(now, touched),
{
    now.wrapping_sub(touched)
}

/// Whether an entry last touched at frame `touched` is kept at frame `now`.
pub fn fresh(now: u32, touched: u32, max_age: u32) -> (keep: bool)
    ensures
        keep == is_fresh(now, touched, max_age),
{
    age_of(now, touched) <= max_age
}

/// What the cache remembers of one manifold, as a mathematical value.
pub ghost struct ManifoldRecord<N, P> {
    pub normal: N,
    pub points: Seq<P>,
    pub last_touched_frame: u32,
}

/// One cached manifold: the shared normal, the contact points with their
/// accumulated impulses, and the frame in which the pair last touched.
pub struct CachedManifold<N, P> {
    normal: N,
    points: Vec<P>,
    last_touched_frame: u32,
}

impl<N, P> View for CachedManifold<N, P> {
    type V = ManifoldRecord<N, P>;

    closed spec fn view(&self) -> ManifoldRecord<N, P> {
        ManifoldRecord {
            normal: self.normal,
            points: self.points@,
            last_touched_frame: self.last_touched_frame,
        }
    }
}

impl<N, P> CachedManifold<N, P> {
    #[verifier::type_invariant]
    spec fn bounded(&self) -> bool {
        self.points@.len() <= MAX_MANIFOLD_POINTS
    }

    /// The normal the manifold had when it was cached.
    pub fn normal(&self) -> (normal: &N)
        ensures
            *normal == self@.normal,
    {
        &self.normal
    }

    /// The cached points: never more than `MAX_MANIFOLD_POINTS`.
    pub fn points(&self) -> (points: &Vec<P>)
        ensures
            points@ == self@.points,
            points@.len() <= MAX_MANIFOLD_POINTS,
    {
        proof {
            use_type_invariant(self);
        }
        &self.points
    }

    /// The frame in which the pair last touched.
    pub fn last_touched_frame(&self) -> (frame: u32)
        ensures
            frame == self@.last_touched_frame,
    {
        self.last_touched_frame
    }
}

/// What is left of the records `m` once every record older than `max_age`
/// at frame `now` has been dropped.
pub open spec fn pruned<N, P>(
    m: Map<u64, ManifoldRecord<N, P>>,
    now: u32,
    max_age: u32,
) -> Map<u64, ManifoldRecord<N, P>> {
    m.restrict(
        Set::new(|k: u64| m.contains_key(k) && is_fresh(now, m[k].last_touched_frame, max_age)),
    )
}

/// Manifolds of earlier frames, by pair key.
pub struct ManifoldCache<N, P> {
    entries: HashMap<u64, CachedManifold<N, P>>,
}

impl<N, P> View for ManifoldCache<N, P> {
    type V = Map<u64, ManifoldRecord<N, P>>;

    closed spec fn view(&self) -> Map<u64, ManifoldRecord<N, P>> {
        self.entries@.map_values(|e: CachedManifold<N, P>| e@)
    }
}

impl<N, P> ManifoldCache<N, P> {
    /// A cache that remembers nothing yet.
    pub fn new() -> (cache: Self)
        ensures
            cache@ == Map::<u64, ManifoldRecord<N, P>>::empty(),
    {
        let cache = ManifoldCache { entries: HashMap::new() };
        assert(cache@ =~= Map::<u64, ManifoldRecord<N, P>>::empty());
        cache
    }

    /// Number of pairs the cache currently remembers.
    pub fn len(&self) -> (n: usize)
        ensures
            n == self@.len(),
            self@.dom().finite(),
    {
        broadcast use vstd::std_specs::hash::group_hash_axioms;

        assert(self@.dom() =~= self.entries@.dom());
        self.entries.len()
    }

    /// Records the manifold of the pair `key` as seen in frame `frame`,
    /// replacing what was remembered of that pair. Points beyond the fourth
    /// are dropped.
    pub fn store(&mut self, key: u64, normal: N, points: Vec<P>, frame: u32)
        ensures
            final(self)@ == old(self)@.insert(
                key,
                ManifoldRecord {
                    normal,
                    points: kept_points(points@),
                    last_touched_frame: frame,
                },
            ),
    {
        broadcast use vstd::std_specs::hash::group_hash_axioms;

        let entry = CachedManifold {
            normal,
            points: keep_first_points(points),
            last_touched_frame: frame,
        };
        let ghost record = entry@;
        self.entries.insert(key, entry);
        assert(self@ =~= old(self)@.insert(key, record));
    }

    /// Forgets every pair that has not touched for more than `max_age` frames
    /// as of frame `now`. The pairs that stay are left as they were.
    pub fn prune(&mut self, now: u32, max_age: u32)
        ensures
            final(self)@ == pruned(old(self)@, now, max_age),
    {
        broadcast use vstd::std_specs::hash::group_hash_axioms;

        let mut stale: Vec<u64> = Vec::new();
        for pair in it: self.entries.iter()
            invariant
                forall|j: int|
                    0 <= j < stale@.len() ==> self.entries@.contains_key(#[trigger] stale@[j])
                        && !is_fresh(now, self.entries@[stale@[j]].last_touched_frame, max_age),
                forall|j: int|
                    0 <= j < it.index() && !is_fresh(
                        now,
                        (#[trigger] it.seq()[j]).1.last_touched_frame,
                        max_age,
                    ) ==> stale@.contains(*it.seq()[j].0),
        {
            let (key, entry) = pair;
            if !fresh(now, entry.last_touched_frame, max_age) {
                let ghost before = stale@;
                stale.push(*key);
                assert(forall|j: int| 0 <= j < before.len() ==> stale@[j] == before[j]);
                assert(stale@[before.len() as int] == *key);
            }
        }
        let mut i: usize = 0;
        while i < stale.len()
            invariant
                i <= stale@.len(),
                forall|k: u64| #[trigger]
                    self.entries@.contains_key(k) ==> old(self).entries@.contains_key(k)
                        && self.entries@[k] == old(self).entries@[k],
                forall|k: u64| #[trigger]
                    old(self).entries@.contains_key(k) && !self.entries@.contains_key(k)
                        ==> stale@.contains(k),
                forall|j: int| 0 <= j < i ==> !self.entries@.contains_key(#[trigger] stale@[j]),
                forall|j: int|
                    0 <= j < stale@.len() ==> old(self).entries@.contains_key(#[trigger] stale@[j])
                        && !is_fresh(
                        now,
                        old(self).entries@[stale@[j]].last_touched_frame,
                        max_age,
                    ),
                forall|k: u64| #[trigger]
                    old(self).entries@.contains_key(k) && !is_fresh(
                        now,
                        old(self).entries@[k].last_touched_frame,
                        max_age,
                    ) ==> stale@.contains(k),
            decreases stale@.len() - i,
        {
            let key: u64 = stale[i];
            self.entries.remove(&key);
            i += 1;
        }
        assert(self@ =~= pruned(old(self)@, now, max_age));
    }

    /// What is remembered of the pair `key`, if anything.
    pub fn lookup(&self, key: u64) -> (found: Option<&CachedManifold<N, P>>)
        ensures
            match found {
                Some(entry) => self@.contains_key(key) && entry@ == self@[key]
                    && entry@.points.len() <= MAX_MANIFOLD_POINTS,
                None => !self@.contains_key(key),
            },
    {
        broadcast use vstd::std_specs::hash::group_hash_axioms;

        let found = self.entries.get(&key);
        proof {
            if let Some(entry) = found {
                use_type_invariant(entry);
            }
        }
        found
    }
}

/// Pruning only ever drops records: what it keeps was there before, is kept
/// unchanged, and is fresh. Pruning twice at the same frame drops nothing
/// more.
pub proof fn lemma_pruned_is_fresh<N, P>(m: Map<u64, ManifoldRecord<N, P>>, now: u32, max_age: u32)
    ensures
        forall|k: u64| #[trigger]
            pruned(m, now, max_age).contains_key(k) ==> m.contains_key(k) && pruned(
                m,
                now,
                max_age,
            )[k] == m[k] && is_fresh(now, m[k].last_touched_frame, max_age),
        pruned(pruned(m, now, max_age), now, max_age) == pruned(m, now, max_age),
{
    assert(pruned(pruned(m, now, max_age), now, max_age) =~= pruned(m, now, max_age));
}

/// A manifold last touched `substeps` substeps ago has exactly that age, as
/// long as the counter has not gone all the way round. So it outlives a
/// pruning with bound `max_age` exactly when `substeps <= max_age`.
pub proof fn lemma_entry_lifetime(touched: u32, substeps: nat, max_age: u32)
    requires
        substeps < 0x1_0000_0000,
    ensures
        frame_after(touched, 1) == successor_frame(touched),
        frame_age(frame_after(touched, substeps), touched) == substeps,
        is_fresh(frame_after(touched, substeps), touched, max_age) <==> substeps <= max_age,
{
}

} // verus!
