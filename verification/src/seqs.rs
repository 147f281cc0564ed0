//! Sequence helpers shared by the specifications.

use vstd::prelude::*;

verus! {

/// The values that are there, in order.
pub open spec fn somes<T>(s: Seq<Option<T>>) -> Seq<T>
    decreases s.len(),
{
    if s.len() == 0 {
        Seq::empty()
    } else {
        match s.last() {
            Some(x) => somes(s.drop_last()).push(x),
            None => somes(s.drop_last()),
        }
    }
}

/// Position of the first element that satisfies `p`, or the length.
pub open spec fn index_where<T>(s: Seq<T>, p: spec_fn(T) -> bool) -> int
    decreases s.len(),
{
    if s.len() == 0 || p(s[0]) {
        0
    } else {
        1 + index_where(s.drop_first(), p)
    }
}

/// The first element that satisfies `p`.
pub open spec fn first_where<T>(s: Seq<T>, p: spec_fn(T) -> bool) -> Option<T> {
    let k = index_where(s, p);
    if 0 <= k < s.len() {
        Some(s[k])
    } else {
        None
    }
}

/// How `index_where` is found by searching from the front.
pub proof fn index_where_is<T>(s: Seq<T>, p: spec_fn(T) -> bool, k: int)
    requires
        0 <= k <= s.len(),
        forall|i: int| 0 <= i < k ==> !p(#[trigger] s[i]),
        k < s.len() ==> p(s[k]),
    ensures
        index_where(s, p) == k,
    decreases s.len(),
{
    if s.len() > 0 && k > 0 {
        let t = s.drop_first();
        assert(!p(s[0]));
        assert forall|i: int| 0 <= i < k - 1 implies !p(#[trigger] t[i]) by {
            assert(t[i] == s[i + 1]);
        }
        if k < s.len() {
            assert(t[k - 1] == s[k]);
        }
        index_where_is(t, p, k - 1);
    }
}

/// What `index_where` finds: nothing before it satisfies `p`, and it does.
pub proof fn index_where_props<T>(s: Seq<T>, p: spec_fn(T) -> bool)
    ensures
        0 <= index_where(s, p) <= s.len(),
        forall|i: int| 0 <= i < index_where(s, p) ==> !p(#[trigger] s[i]),
        index_where(s, p) < s.len() ==> p(s[index_where(s, p)]),
    decreases s.len(),
{
    if s.len() > 0 && !p(s[0]) {
        let t = s.drop_first();
        index_where_props(t, p);
        let k = index_where(t, p);
        assert forall|i: int| 0 <= i < k + 1 implies !p(#[trigger] s[i]) by {
            if i > 0 {
                assert(t[i - 1] == s[i]);
            }
        }
        if k < t.len() {
            assert(t[k] == s[k + 1]);
        }
    }
}

} // verus!
