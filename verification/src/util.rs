//! Small helpers.

use vstd::array::array_fill_for_copy_types;
use vstd::prelude::*;

verus! {

/// Collecting a list into an array of fixed length.
pub trait IteratorArrayExt {
    type Item;

    /// The items of the list, in order.
    spec fn items(&self) -> Seq<Self::Item>;

    /// The first `N` items of the list as an array; where the list has fewer,
    /// the rest of the array is `default`.
    fn collect_to_array_padded<const N: usize>(&self, default: Self::Item) -> (r: [Self::Item; N])
        ensures
            forall|i: int|
                0 <= i < N ==> (#[trigger] r[i]) == if i < self.items().len() {
                    self.items()[i]
                } else {
                    default
                },
    ;
}

impl<T: Copy> IteratorArrayExt for Vec<T> {
    type Item = T;

    open spec fn items(&self) -> Seq<T> {
        self@
    }

    fn collect_to_array_padded<const N: usize>(&self, default: T) -> (r: [T; N]) {
        let mut out: [T; N] = array_fill_for_copy_types(default);
        let mut i: usize = 0;
        while i < N && i < self.len()
            invariant
                i <= N,
                i <= self@.len(),
                forall|k: int| 0 <= k < i ==> (#[trigger] out[k]) == self@[k],
                forall|k: int| i <= k < N ==> (#[trigger] out[k]) == default,
            decreases N - i,
        {
            out[i] = self[i];
            i += 1;
        }
        out
    }
}

} // verus!
