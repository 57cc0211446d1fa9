//! Joining sequences with a separator.

use vstd::prelude::*;

verus! {

/// The parts in order, with `sep` between each two neighbours.
pub open spec fn joined<T>(parts: Seq<Seq<T>>, sep: Seq<T>) -> Seq<T>
    decreases parts.len(),
{
    if parts.len() == 0 {
        Seq::empty()
    } else if parts.len() == 1 {
        parts[0]
    } else {
        joined(parts.drop_last(), sep) + sep + parts.last()
    }
}

/// Joining the first `i + 1` parts extends the join of the first `i` by the
/// separator, unless it is the first part, and by part `i`.
pub proof fn lemma_joined_next<T>(parts: Seq<Seq<T>>, sep: Seq<T>, i: int)
    requires
        0 <= i < parts.len(),
    ensures
        joined(parts.take(i + 1), sep) == if i == 0 {
            parts[0]
        } else {
            joined(parts.take(i), sep) + sep + parts[i]
        },
{
    assert(parts.take(i + 1).drop_last() =~= parts.take(i));
    assert(parts.take(i + 1).last() == parts[i]);
}

} // verus!
