//! Enumeration of candidate pairs in the order the solver will visit them.

use vstd::prelude::*;

verus! {

/// `(a, b)` is an index pair of a scene of `n` bodies, smaller index first.
pub open spec fn is_pair(n: int, p: (usize, usize)) -> bool {
    p.0 < p.1 && p.1 < n
}

/// Row-major order of index pairs: by first index, then by second.
pub open spec fn pair_before(p: (usize, usize), q: (usize, usize)) -> bool {
    p.0 < q.0 || (p.0 == q.0 && p.1 < q.1)
}

/// `pairs` lists index pairs of a scene of `n` bodies in strictly ascending
/// row-major order, so that no pair occurs twice.
pub open spec fn is_pair_list(n: int, pairs: Seq<(usize, usize)>) -> bool {
    &&& forall|k: int| 0 <= k < pairs.len() ==> is_pair(n, #[trigger] pairs[k])
    &&& forall|k: int, l: int|
        0 <= k < l < pairs.len() ==> pair_before(#[trigger] pairs[k], #[trigger] pairs[l])
}

/// Collects every index pair `i < j < n` that `overlaps` accepts, in
/// row-major order: all pairs of body 0 first, then those of body 1, and so
/// on.
///
/// A pair is in the result only if the test answered `true` for it, and is
/// missing only if the test answered `false`.
pub fn enumerate_pairs<F: Fn(usize, usize) -> bool>(n: usize, overlaps: F) -> (pairs: Vec<
    (usize, usize),
>)
    requires
        forall|i: usize, j: usize| i < j < n ==> call_requires(overlaps, (i, j)),
    ensures
        is_pair_list(n as int, pairs@),
        forall|k: int|
            0 <= k < pairs@.len() ==> call_ensures(overlaps, #[trigger] pairs@[k], true),
        forall|i: usize, j: usize|
            i < j < n && !pairs@.contains((i, j)) ==> call_ensures(overlaps, (i, j), false),
{
    let mut pairs: Vec<(usize, usize)> = Vec::new();
    let mut i: usize = 0;
    while i < n
        invariant
            i <= n,
            forall|a: usize, b: usize| a < b < n ==> call_requires(overlaps, (a, b)),
            is_pair_list(n as int, pairs@),
            forall|k: int| 0 <= k < pairs@.len() ==> (#[trigger] pairs@[k]).0 < i,
            forall|k: int|
                0 <= k < pairs@.len() ==> call_ensures(overlaps, #[trigger] pairs@[k], true),
            forall|a: usize, b: usize|
                a < i && a < b < n && !pairs@.contains((a, b)) ==> call_ensures(
                    overlaps,
                    (a, b),
                    false,
                ),
        decreases n - i,
    {
        let mut j: usize = i + 1;
        while j < n
            invariant
                i < n,
                i < j <= n,
                forall|a: usize, b: usize| a < b < n ==> call_requires(overlaps, (a, b)),
                is_pair_list(n as int, pairs@),
                forall|k: int|
                    0 <= k < pairs@.len() ==> pair_before(#[trigger] pairs@[k], (i, j)),
                forall|k: int|
                    0 <= k < pairs@.len() ==> call_ensures(overlaps, #[trigger] pairs@[k], true),
                forall|a: usize, b: usize|
                    a < b < n && pair_before((a, b), (i, j)) && !pairs@.contains((a, b))
                        ==> call_ensures(overlaps, (a, b), false),
            decreases n - j,
        {
            let ghost before = pairs@;
            let hit: bool = overlaps(i, j);
            if hit {
                pairs.push((i, j));
                assert(forall|k: int| 0 <= k < before.len() ==> pairs@[k] == before[k]);
                assert(pairs@[before.len() as int] == (i, j));
            }
            assert forall|a: usize, b: usize|
                a < b < n && pair_before((a, b), (i, (j + 1) as usize)) && !pairs@.contains(
                    (a, b),
                ) implies call_ensures(overlaps, (a, b), false) by {
                if (a, b) == (i, j) {
                    if hit {
                        assert(pairs@[before.len() as int] == (a, b));
                    }
                } else {
                    assert(pair_before((a, b), (i, j)));
                    if before.contains((a, b)) {
                        let k = choose|k: int| 0 <= k < before.len() && before[k] == (a, b);
                        assert(pairs@[k] == (a, b));
                    }
                }
            }
            j += 1;
        }
        i += 1;
    }
    pairs
}

/// Twice the position of the pair `p` in the row-major list of all index
/// pairs of a scene of `n` bodies.
pub open spec fn twice_rank(n: int, p: (usize, usize)) -> int {
    row_start(n, p.0 as int) + 2 * (p.1 - p.0 - 1)
}

/// Twice the number of index pairs whose first index is below `i`.
pub open spec fn row_start(n: int, i: int) -> int {
    i * (2 * n - i - 1)
}

proof fn lemma_row_start_step(n: int, i: int)
    ensures
        row_start(n, i + 1) == row_start(n, i) + 2 * (n - i - 1),
{
    assert((i + 1) * (2 * n - (i + 1) - 1) == i * (2 * n - i - 1) + 2 * (n - i - 1))
        by (nonlinear_arith);
}

proof fn lemma_row_start_grows(n: int, i: int, k: int)
    requires
        0 <= i <= k < n,
    ensures
        row_start(n, i) <= row_start(n, k),
    decreases k - i,
{
    if i < k {
        lemma_row_start_grows(n, i, k - 1);
        lemma_row_start_step(n, k - 1);
    }
}

proof fn lemma_rank_grows(n: int, p: (usize, usize), q: (usize, usize))
    requires
        is_pair(n, p),
        is_pair(n, q),
        pair_before(p, q),
    ensures
        twice_rank(n, p) + 2 <= twice_rank(n, q),
{
    if p.0 < q.0 {
        lemma_row_start_step(n, p.0 as int);
        lemma_row_start_grows(n, p.0 + 1, q.0 as int);
    }
}

proof fn lemma_rank_of_kth(n: int, pairs: Seq<(usize, usize)>, k: int)
    requires
        is_pair_list(n, pairs),
        0 <= k < pairs.len(),
    ensures
        2 * k <= twice_rank(n, pairs[k]),
    decreases k,
{
    if k == 0 {
        assert(is_pair(n, pairs[0]));
        lemma_row_start_grows(n, 0, pairs[0].0 as int);
        assert(row_start(n, 0) == 0);
    } else {
        lemma_rank_of_kth(n, pairs, k - 1);
        lemma_rank_grows(n, pairs[k - 1], pairs[k]);
    }
}

/// A scene of `n` bodies never yields more than `n (n - 1) / 2` candidate
/// pairs, and no pair is listed twice.
pub proof fn lemma_pair_list_is_short(n: int, pairs: Seq<(usize, usize)>)
    requires
        is_pair_list(n, pairs),
    ensures
        2 * pairs.len() <= n * (n - 1),
        pairs.no_duplicates(),
{
    assert(0 <= n * (n - 1)) by (nonlinear_arith);
    if pairs.len() > 0 {
        let last = pairs[pairs.len() - 1];
        assert(is_pair(n, last));
        lemma_rank_of_kth(n, pairs, pairs.len() - 1);
        lemma_row_start_step(n, last.0 as int);
        lemma_row_start_grows(n, last.0 + 1, n - 1);
        assert(row_start(n, n - 1) == n * (n - 1)) by (nonlinear_arith);
    }
    assert forall|a: int, b: int| 0 <= a < pairs.len() && 0 <= b < pairs.len() && a != b implies pairs[a]
        != pairs[b] by {
        if a < b {
            assert(pair_before(pairs[a], pairs[b]));
        } else {
            assert(pair_before(pairs[b], pairs[a]));
        }
    }
}

} // verus!
