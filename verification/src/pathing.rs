//! A plain-string model of filesystem paths.
//!
//! Paths are strings whose components are separated by `/`. `spec_join`,
//! `spec_parent` and `spec_file_name` mirror the usual path operations:
//! joining appends a component, the parent is everything before the last
//! separator, and the file name is everything after it.

use vstd::prelude::*;
use vstd::string::*;

verus! {

/// Appending one path component to a base path.
pub open spec fn spec_join(base: Seq<char>, rest: Seq<char>) -> Seq<char> {
    if base.len() == 0 {
        rest
    } else if base.last() == '/' {
        base + rest
    } else {
        base + seq!['/'] + rest
    }
}

/// The directory holding the named file: everything before the last
/// separator. A lone root separator is its own parent; a path without a
/// separator has the empty relative directory as its parent.
pub open spec fn spec_parent(p: Seq<char>) -> Seq<char>
    decreases p.len(),
{
    if p.len() == 0 {
        p
    } else if p.last() == '/' {
        if p.len() == 1 {
            p
        } else {
            p.drop_last()
        }
    } else {
        spec_parent(p.drop_last())
    }
}

/// The last path component: everything after the last separator.
pub open spec fn spec_file_name(p: Seq<char>) -> Seq<char>
    decreases p.len(),
{
    if p.len() == 0 {
        p
    } else if p.last() == '/' {
        Seq::empty()
    } else {
        spec_file_name(p.drop_last()).push(p.last())
    }
}

pub open spec fn spec_ends_with(s: Seq<char>, suffix: Seq<char>) -> bool {
    suffix.len() <= s.len() && s.skip(s.len() - suffix.len()) == suffix
}

/// A path is absolute when it starts at the root separator.
pub open spec fn spec_is_absolute(p: Seq<char>) -> bool {
    p.len() > 0 && p[0] == '/'
}

pub fn join_path(base: &str, rest: &str) -> (r: String)
    ensures
        r@ == spec_join(base@, rest@),
{
    let n = base.unicode_len();
    if n == 0 {
        rest.to_owned()
    } else if base.get_char(n - 1) == '/' {
        let mut s = base.to_owned();
        s.append(rest);
        s
    } else {
        let mut s = base.to_owned();
        s.append("/");
        proof {
            reveal_strlit("/");
            assert(s@ =~= base@ + seq!['/']);
        }
        s.append(rest);
        proof {
            assert(s@ =~= base@ + seq!['/'] + rest@);
        }
        s
    }
}

pub fn parent_dir(p: &str) -> (r: String)
    ensures
        r@ == spec_parent(p@),
{
    let n = p.unicode_len();
    let mut i: usize = n;
    proof {
        assert(p@.take(n as int) =~= p@);
    }
    while i > 0
        invariant
            i <= n,
            n == p@.len(),
            spec_parent(p@) == spec_parent(p@.take(i as int)),
        decreases i,
    {
        let c = p.get_char(i - 1);
        if c == '/' {
            if i == 1 {
                let r = p.substring_char(0, 1).to_owned();
                proof {
                    assert(r@ =~= p@.take(1));
                }
                return r;
            } else {
                let r = p.substring_char(0, i - 1).to_owned();
                proof {
                    assert(p@.take(i as int).drop_last() =~= p@.take(i - 1));
                    assert(r@ =~= p@.take(i - 1));
                }
                return r;
            }
        }
        proof {
            assert(p@.take(i as int).drop_last() =~= p@.take(i - 1));
        }
        i = i - 1;
    }
    proof {
        assert(p@.take(0) =~= Seq::<char>::empty());
    }
    String::new()
}

pub fn file_name(p: &str) -> (r: String)
    ensures
        r@ == spec_file_name(p@),
{
    let n = p.unicode_len();
    let mut i: usize = n;
    proof {
        assert(p@.take(n as int) =~= p@);
        assert(spec_file_name(p@.take(n as int)) + p@.skip(n as int) =~= spec_file_name(p@));
    }
    while i > 0
        invariant
            i <= n,
            n == p@.len(),
            spec_file_name(p@) == spec_file_name(p@.take(i as int)) + p@.skip(i as int),
        decreases i,
    {
        let c = p.get_char(i - 1);
        if c == '/' {
            let r = p.substring_char(i, n).to_owned();
            proof {
                assert(spec_file_name(p@) =~= p@.skip(i as int));
            }
            return r;
        }
        proof {
            assert(p@.take(i as int).drop_last() =~= p@.take(i - 1));
            assert(spec_file_name(p@.take(i - 1)) + p@.skip(i - 1) =~= spec_file_name(
                p@.take(i as int),
            ) + p@.skip(i as int));
        }
        i = i - 1;
    }
    proof {
        assert(p@.take(0) =~= Seq::<char>::empty());
        assert(spec_file_name(p@) =~= p@);
    }
    p.to_owned()
}

pub fn ends_with(s: &str, suffix: &str) -> (r: bool)
    ensures
        r == spec_ends_with(s@, suffix@),
{
    let n = s.unicode_len();
    let m = suffix.unicode_len();
    if m > n {
        return false;
    }
    let mut i: usize = 0;
    while i < m
        invariant
            m <= n,
            n == s@.len(),
            m == suffix@.len(),
            i <= m,
            forall|j: int| 0 <= j < i ==> s@[n - m + j] == suffix@[j],
        decreases m - i,
    {
        if s.get_char(n - m + i) != suffix.get_char(i) {
            proof {
                assert(s@.skip(n - m) != suffix@) by {
                    if s@.skip(n - m) == suffix@ {
                        assert(s@.skip(n - m)[i as int] == s@[n - m + i]);
                    }
                }
            }
            return false;
        }
        i = i + 1;
    }
    proof {
        assert(s@.skip(n - m) =~= suffix@);
    }
    true
}

pub fn is_absolute(p: &str) -> (r: bool)
    ensures
        r == spec_is_absolute(p@),
{
    if p.unicode_len() == 0 {
        false
    } else {
        p.get_char(0) == '/'
    }
}

} // verus!
