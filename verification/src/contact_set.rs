//! Thinning a set of candidate contact points: dropping near-duplicates and
//! capping the number of points a manifold carries.

use vstd::prelude::*;

verus! {

/// A manifold keeps at most this many contact points.
pub const MAX_MANIFOLD_POINTS: usize = 4;

/// The first `MAX_MANIFOLD_POINTS` points of a manifold.
pub open spec fn kept_points<P>(points: Seq<P>) -> Seq<P> {
    if points.len() <= MAX_MANIFOLD_POINTS {
        points
    } else {
        points.take(MAX_MANIFOLD_POINTS as int)
    }
}

/// Drops every point beyond the first `MAX_MANIFOLD_POINTS`.
pub fn keep_first_points<P>(points: Vec<P>) -> (kept: Vec<P>)
    ensures
        kept@ == kept_points(points@),
        kept@.len() <= MAX_MANIFOLD_POINTS,
{
    let mut kept = points;
    if kept.len() > MAX_MANIFOLD_POINTS {
        kept.truncate(MAX_MANIFOLD_POINTS);
    }
    kept
}

/// `kept` lists candidates of `0..n` in strictly ascending order.
pub open spec fn is_selection(n: int, kept: Seq<usize>) -> bool {
    &&& forall|a: int| 0 <= a < kept.len() ==> (#[trigger] kept[a]) < n
    &&& forall|a: int, b: int| 0 <= a < b < kept.len() ==> kept[a] < kept[b]
}

/// Picks, from candidates `0..n`, those that do not lie near a candidate
/// picked before them, in ascending order. The first candidate is always
/// picked.
///
/// Two picked candidates were never found near each other, and a candidate
/// is passed over only where an earlier picked one was found near it.
pub fn distinct_indices<F: Fn(usize, usize) -> bool>(n: usize, near: F) -> (kept: Vec<usize>)
    requires
        forall|i: usize, j: usize| i < j < n ==> call_requires(near, (i, j)),
    ensures
        is_selection(n as int, kept@),
        forall|a: int, b: int|
            0 <= a < b < kept@.len() ==> call_ensures(
                near,
                (#[trigger] kept@[a], #[trigger] kept@[b]),
                false,
            ),
        forall|i: usize|
            i < n && !kept@.contains(i) ==> exists|a: int|
                0 <= a < kept@.len() && kept@[a] < i && call_ensures(
                    near,
                    (#[trigger] kept@[a], i),
                    true,
                ),
        n > 0 ==> kept@.len() > 0 && kept@[0] == 0,
{
    let mut kept: Vec<usize> = Vec::new();
    let mut i: usize = 0;
    while i < n
        invariant
            i <= n,
            forall|a: usize, b: usize| a < b < n ==> call_requires(near, (a, b)),
            is_selection(n as int, kept@),
            forall|a: int| 0 <= a < kept@.len() ==> (#[trigger] kept@[a]) < i,
            forall|a: int, b: int|
                0 <= a < b < kept@.len() ==> call_ensures(
                    near,
                    (#[trigger] kept@[a], #[trigger] kept@[b]),
                    false,
                ),
            forall|c: usize|
                c < i && !kept@.contains(c) ==> exists|a: int|
                    0 <= a < kept@.len() && kept@[a] < c && call_ensures(
                        near,
                        (#[trigger] kept@[a], c),
                        true,
                    ),
            i > 0 ==> kept@.len() > 0 && kept@[0] == 0,
        decreases n - i,
    {
        let mut duplicate: bool = false;
        let mut k: usize = 0;
        while k < kept.len() && !duplicate
            invariant
                i < n,
                k <= kept@.len(),
                forall|a: usize, b: usize| a < b < n ==> call_requires(near, (a, b)),
                forall|a: int| 0 <= a < kept@.len() ==> (#[trigger] kept@[a]) < i,
                !duplicate ==> forall|a: int|
                    0 <= a < k ==> call_ensures(near, (#[trigger] kept@[a], i), false),
                duplicate ==> exists|a: int|
                    0 <= a < kept@.len() && call_ensures(near, (#[trigger] kept@[a], i), true),
            decreases kept@.len() - k + if duplicate { 0int } else { 1int },
        {
            let earlier: usize = kept[k];
            if near(earlier, i) {
                duplicate = true;
            } else {
                k += 1;
            }
        }
        let ghost before = kept@;
        if !duplicate {
            kept.push(i);
            assert(forall|a: int| 0 <= a < before.len() ==> kept@[a] == before[a]);
            assert(kept@[before.len() as int] == i);
        }
        assert forall|c: usize| c < i + 1 && !kept@.contains(c) implies exists|a: int|
            0 <= a < kept@.len() && kept@[a] < c && call_ensures(
                near,
                (#[trigger] kept@[a], c),
                true,
            ) by {
            if c == i {
                if !duplicate {
                    assert(kept@[before.len() as int] == c);
                } else {
                    let a = choose|a: int|
                        0 <= a < before.len() && call_ensures(near, (#[trigger] before[a], i), true);
                    assert(kept@[a] == before[a]);
                }
            } else {
                if before.contains(c) {
                    let a = choose|a: int| 0 <= a < before.len() && before[a] == c;
                    assert(kept@[a] == c);
                }
                let a = choose|a: int|
                    0 <= a < before.len() && before[a] < c && call_ensures(
                        near,
                        (#[trigger] before[a], c),
                        true,
                    );
                assert(kept@[a] == before[a]);
            }
        }
        i += 1;
    }
    kept
}

proof fn lemma_kth_pick(n: int, kept: Seq<usize>, k: int)
    requires
        is_selection(n, kept),
        0 <= k < kept.len(),
    ensures
        k <= kept[k],
    decreases k,
{
    if k > 0 {
        lemma_kth_pick(n, kept, k - 1);
    }
}

/// Thinning never invents candidates: of `n` candidates at most `n` are
/// picked, and none is picked twice.
pub proof fn lemma_selection_is_short(n: int, kept: Seq<usize>)
    requires
        0 <= n,
        is_selection(n, kept),
    ensures
        kept.len() <= n,
        kept.no_duplicates(),
{
    if kept.len() > 0 {
        lemma_kth_pick(n, kept, kept.len() - 1);
    }
    assert forall|a: int, b: int| 0 <= a < kept.len() && 0 <= b < kept.len() && a != b implies kept[a]
        != kept[b] by {
        if a < b {
            assert(kept[a] < kept[b]);
        } else {
            assert(kept[b] < kept[a]);
        }
    }
}

} // verus!
