//! Finding the first item of a kind in a list.

use vstd::prelude::*;

verus! {

/// Where the first item stands that `wanted` holds of.
pub open spec fn first_where<T>(s: Seq<T>, wanted: spec_fn(T) -> bool) -> Option<int>
    decreases s.len(),
{
    if s.len() == 0 {
        None
    } else {
        match first_where(s.drop_last(), wanted) {
            Some(i) => Some(i),
            None => if wanted(s.last()) {
                Some(s.len() - 1)
            } else {
                None
            },
        }
    }
}

/// The first item is wanted, and none before it is; where there is none, no item
/// is wanted.
pub proof fn law_first_where<T>(s: Seq<T>, wanted: spec_fn(T) -> bool)
    ensures
        match first_where(s, wanted) {
            Some(i) => 0 <= i < s.len() && wanted(s[i]) && forall|j: int|
                0 <= j < i ==> !wanted(#[trigger] s[j]),
            None => forall|j: int| 0 <= j < s.len() ==> !wanted(#[trigger] s[j]),
        },
    decreases s.len(),
{
    if s.len() > 0 {
        let front = s.drop_last();
        law_first_where(front, wanted);
        assert(forall|j: int| 0 <= j < front.len() ==> front[j] == s[j]);
    }
}

/// An item that is wanted while none before it is, is the first.
pub proof fn lemma_found<T>(s: Seq<T>, wanted: spec_fn(T) -> bool, i: int)
    requires
        0 <= i < s.len(),
        wanted(s[i]),
        forall|j: int| 0 <= j < i ==> !wanted(#[trigger] s[j]),
    ensures
        first_where(s, wanted) == Some(i),
{
    law_first_where(s, wanted);
}

/// Where no item is wanted, there is no first.
pub proof fn lemma_absent<T>(s: Seq<T>, wanted: spec_fn(T) -> bool)
    requires
        forall|j: int| 0 <= j < s.len() ==> !wanted(#[trigger] s[j]),
    ensures
        first_where(s, wanted) is None,
{
    law_first_where(s, wanted);
}

} // verus!
