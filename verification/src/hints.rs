//! Size hints for inputs that are built from a stream of bytes.
use vstd::prelude::*;

verus! {

/// The size hint of a list whose length is drawn from the input: such a list
/// may use no byte at all, and nothing bounds what it may use. The hint does
/// not depend on the depth of the recursion.
pub fn arbitrary_vec_size_hint(_depth: usize) -> (hint: (usize, Option<usize>))
    ensures
        hint == (0usize, None::<usize>),
{
    (0, None)
}

} // verus!
