//! Symmetric 64-bit key for an unordered pair of body ids.

use vstd::prelude::*;

verus! {

/// Odd constant of the mixing step (the 64-bit golden ratio).
pub const PAIR_KEY_SALT: u64 = 0x9e37_79b9_7f4a_7c15;

/// Mixes an ordered pair `low <= high` into one word.
pub open spec fn mix_ordered(low: u64, high: u64) -> u64 {
    low ^ high.wrapping_add(PAIR_KEY_SALT).wrapping_add(low << 6).wrapping_add(low >> 2)
}

/// The key of the unordered pair `{a, b}`: the smaller id mixed with the larger.
pub open spec fn pair_key(a: u64, b: u64) -> u64 {
    if a <= b {
        mix_ordered(a, b)
    } else {
        mix_ordered(b, a)
    }
}

/// Computes the cache key under which the contact state of bodies `a` and `b`
/// is stored. The key does not depend on the order of its arguments.
pub fn make_pair_key(a: u64, b: u64) -> (key: u64)
    ensures
        key == pair_key(a, b),
        key == pair_key(b, a),
{
    let low: u64 = if a <= b { a } else { b };
    let high: u64 = if a <= b { b } else { a };
    let mut key: u64 = low;
    key ^= high.wrapping_add(PAIR_KEY_SALT).wrapping_add(key << 6).wrapping_add(key >> 2);
    key
}

/// Swapping the two ids leaves the key unchanged.
pub proof fn lemma_pair_key_symmetric(a: u64, b: u64)
    ensures
        pair_key(a, b) == pair_key(b, a),
{
}

/// Two pairs that share their smaller id never collide: with the smaller id
/// held fixed, the key determines the larger one. Colliding keys can
/// therefore only come from pairs whose smaller ids differ.
pub proof fn lemma_pair_key_separates_partners(low: u64, first: u64, second: u64)
    requires
        low <= first,
        low <= second,
        pair_key(low, first) == pair_key(low, second),
    ensures
        first == second,
{
    let shift: u64 = PAIR_KEY_SALT.wrapping_add(low << 6).wrapping_add(low >> 2);
    assert(mix_ordered(low, first) == low ^ first.wrapping_add(shift)) by {
        lemma_mix_regroups(low, first);
    }
    assert(mix_ordered(low, second) == low ^ second.wrapping_add(shift)) by {
        lemma_mix_regroups(low, second);
    }
    let a: u64 = first.wrapping_add(shift);
    let b: u64 = second.wrapping_add(shift);
    assert(a == b) by (bit_vector)
        requires
            low ^ a == low ^ b,
    ;
    assert(first == second) by {
        lemma_wrapping_add_cancels(first, second, shift);
    }
}

proof fn lemma_mix_regroups(low: u64, high: u64)
    ensures
        mix_ordered(low, high) == low ^ high.wrapping_add(
            PAIR_KEY_SALT.wrapping_add(low << 6).wrapping_add(low >> 2),
        ),
{
    let s: u64 = low << 6;
    let t: u64 = low >> 2;
    lemma_wrapping_add_associates(high, PAIR_KEY_SALT, s);
    lemma_wrapping_add_associates(high, PAIR_KEY_SALT.wrapping_add(s), t);
}

proof fn lemma_wrapping_add_associates(x: u64, y: u64, z: u64)
    ensures
        x.wrapping_add(y).wrapping_add(z) == x.wrapping_add(y.wrapping_add(z)),
{
}

proof fn lemma_wrapping_add_cancels(x: u64, y: u64, z: u64)
    requires
        x.wrapping_add(z) == y.wrapping_add(z),
    ensures
        x == y,
{
}

} // verus!
