//! The first element of a sequence that meets a condition.

use vstd::prelude::*;

verus! {

/// The place of the first element of `s` that meets `wanted`.
pub open spec fn first_index<T>(s: Seq<T>, wanted: spec_fn(T) -> bool) -> Option<int>
    decreases s.len(),
{
    if s.len() == 0 {
        None
    } else if wanted(s[0]) {
        Some(0)
    } else {
        match first_index(s.drop_first(), wanted) {
            Some(i) => Some(i + 1),
            None => None,
        }
    }
}

/// What [`first_index`] finds meets the condition and no element before it
/// does; it finds nothing only where no element meets it.
pub proof fn first_index_is_first<T>(s: Seq<T>, wanted: spec_fn(T) -> bool)
    ensures
        match first_index(s, wanted) {
            Some(i) => 0 <= i < s.len() && wanted(s[i]) && forall|k: int|
                0 <= k < i ==> !wanted(#[trigger] s[k]),
            None => forall|k: int| 0 <= k < s.len() ==> !wanted(#[trigger] s[k]),
        },
    decreases s.len(),
{
    if s.len() > 0 && !wanted(s[0]) {
        let rest = s.drop_first();
        first_index_is_first(rest, wanted);
        match first_index(rest, wanted) {
            Some(i) => {
                assert forall|k: int| 0 <= k < i + 1 implies !wanted(#[trigger] s[k]) by {
                    if k > 0 {
                        assert(s[k] == rest[k - 1]);
                    }
                }
            },
            None => {
                assert forall|k: int| 0 <= k < s.len() implies !wanted(#[trigger] s[k]) by {
                    if k > 0 {
                        assert(s[k] == rest[k - 1]);
                    }
                }
            },
        }
    }
}

/// An element that meets the condition, with none before it that does, is
/// what [`first_index`] finds.
pub proof fn first_index_at<T>(s: Seq<T>, wanted: spec_fn(T) -> bool, i: int)
    requires
        0 <= i < s.len(),
        wanted(s[i]),
        forall|k: int| 0 <= k < i ==> !wanted(#[trigger] s[k]),
    ensures
        first_index(s, wanted) == Some(i),
{
    first_index_is_first(s, wanted);
}

/// Where no element meets the condition, [`first_index`] finds nothing.
pub proof fn first_index_none<T>(s: Seq<T>, wanted: spec_fn(T) -> bool)
    requires
        forall|k: int| 0 <= k < s.len() ==> !wanted(#[trigger] s[k]),
    ensures
        first_index(s, wanted) is None,
{
    first_index_is_first(s, wanted);
}

} // verus!
