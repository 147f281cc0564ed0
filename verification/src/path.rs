//! Paths as text: absolute paths and joining, with `/` as the separator.

use vstd::prelude::*;
use vstd::string::*;

use crate::text::{concat2, concat3, has_prefix, starts_with};

verus! {

/// A path that starts at the root.
pub open spec fn is_absolute_path(p: Seq<char>) -> bool {
    p.len() > 0 && p[0] == '/'
}

/// `rel` below `base`; an absolute `rel` stands for itself.
pub open spec fn joined_path(base: Seq<char>, rel: Seq<char>) -> Seq<char> {
    if is_absolute_path(rel) {
        rel
    } else if base.len() == 0 || base.last() == '/' {
        base + rel
    } else {
        base + seq!['/'] + rel
    }
}

/// Whether `p` starts at the root.
pub fn is_absolute(p: &str) -> (r: bool)
    ensures
        r == is_absolute_path(p@),
{
    proof {
        reveal_strlit("/");
        assert("/"@ =~= seq!['/']);
        if is_absolute_path(p@) {
            assert(p@.subrange(0, 1) =~= seq!['/']);
        } else if has_prefix(p@, "/"@) {
            assert(p@[0] == p@.subrange(0, 1)[0]);
        }
    }
    starts_with(p, "/")
}

/// `rel` below `base`.
pub fn join_path(base: &str, rel: &str) -> (r: String)
    ensures
        r@ == joined_path(base@, rel@),
{
    if is_absolute(rel) {
        return rel.to_owned();
    }
    let n: usize = base.unicode_len();
    proof {
        reveal_strlit("/");
        assert("/"@ =~= seq!['/']);
    }
    if n == 0 || base.get_char(n - 1) == '/' {
        concat2(base, rel)
    } else {
        concat3(base, "/", rel)
    }
}

/// Joining below an absolute base gives an absolute path.
pub proof fn join_below_absolute_is_absolute(base: Seq<char>, rel: Seq<char>)
    requires
        is_absolute_path(base),
    ensures
        is_absolute_path(joined_path(base, rel)),
{
}

} // verus!
