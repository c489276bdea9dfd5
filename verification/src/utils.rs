//! Utility functions for handling data in this library.
use vstd::prelude::*;
use vstd::std_specs::iter::IteratorSpec;

verus! {

/// `a` holds items in its first `taken` places and `d` in the others.
pub open spec fn front_then_default<T>(a: Seq<T>, d: T, taken: int) -> bool {
    0 <= taken <= a.len() && forall|i: int| taken <= i < a.len() ==> #[trigger] a[i] == d
}

/// Collects an iterator into a fixed-size array without panicking or
/// collecting into a `Vec`.
///
/// The array starts filled with `T::default()`; then at most `SIZE` items
/// are taken from the iterator (fewer when it ends first) and written at
/// the front, in order. The iterator may be infinite: no more than `SIZE`
/// items are ever asked of it.
pub fn static_array_from_iter<T: Copy + Default, const SIZE: usize>(
    iter: impl Iterator<Item = T>,
) -> (array: [T; SIZE])
    ensures
        exists|d: T, taken: int|
            #![trigger front_then_default(array@, d, taken)]
            {
                &&& call_ensures(T::default, (), d)
                &&& front_then_default(array@, d, taken)
                &&& iter.obeys_prophetic_iter_laws() ==> {
                    &&& taken == if iter.remaining().len() < SIZE {
                        iter.remaining().len() as int
                    } else {
                        SIZE as int
                    }
                    &&& forall|i: int| 0 <= i < taken ==> array@[i] == iter.remaining()[i]
                }
            },
{
    let d = T::default();
    let mut array = vstd::array::array_fill_for_copy_types::<T, SIZE>(d);
    let mut iter = iter;
    let ghost start = iter;
    let mut i: usize = 0;
    let mut done = false;
    while i < SIZE && !done
        invariant
            0 <= i <= SIZE,
            call_ensures(T::default, (), d),
            forall|k: int| i <= k < SIZE ==> #[trigger] array@[k] == d,
            iter.obeys_prophetic_iter_laws() == start.obeys_prophetic_iter_laws(),
            start.obeys_prophetic_iter_laws() ==> {
                &&& i <= start.remaining().len()
                &&& iter.remaining() == start.remaining().skip(i as int)
                &&& forall|k: int| 0 <= k < i ==> array@[k] == start.remaining()[k]
                &&& done ==> i == start.remaining().len()
            },
        decreases SIZE - i + (if done { 0int } else { 1int }),
    {
        match iter.next() {
            Some(v) => {
                array[i] = v;
                i = i + 1;
            },
            None => {
                done = true;
            },
        }
    }
    assert(front_then_default(array@, d, i as int));
    array
}

} // verus!
