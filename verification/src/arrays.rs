//! Arrays that start out with one value in every place.

use vstd::prelude::*;

verus! {

/// An array that holds `x` everywhere.
pub fn filled<T: Copy, const N: usize>(x: T) -> (r: [T; N])
    ensures
        forall|i: int| 0 <= i < N ==> #[trigger] r@[i] == x,
{
    [x;N]
}

} // verus!
