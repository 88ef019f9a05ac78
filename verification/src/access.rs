//! Disjoint mutable access to two elements of one slice.

use vstd::prelude::*;

verus! {

/// Borrows the elements at two distinct indices of `slice` at once.
///
/// The first reference stands for index `i`, the second for index `j`,
/// whichever of the two is the smaller. Every other element is left as it
/// was, and what the caller writes through the two references is what the
/// slice holds at `i` and `j` afterwards.
pub fn get2_mut<T>(slice: &mut [T], i: usize, j: usize) -> (pair: (&mut T, &mut T))
    requires
        i != j,
        i < old(slice)@.len(),
        j < old(slice)@.len(),
    ensures
        *pair.0 == old(slice)@[i as int],
        *pair.1 == old(slice)@[j as int],
        final(slice)@ == old(slice)@.update(i as int, *final(pair.0)).update(
            j as int,
            *final(pair.1),
        ),
{
    if i < j {
        let (left, right) = slice.split_at_mut(j);
        (&mut left[i], &mut right[0])
    } else {
        let (left, right) = slice.split_at_mut(i);
        (&mut right[0], &mut left[j])
    }
}

} // verus!
