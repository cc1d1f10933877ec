//! Relative paths inside a working copy.
//!
//! Every mutation addresses a file by a path relative to the working-copy
//! root.  A path is only acted on when it is *safe*: non-empty, with no
//! leading, trailing or doubled separator, and with no `.` or `..` segment,
//! so that it can never escape the root by traversal.  This module also
//! computes a path's chain of ancestor directories, which drives both
//! parent-directory creation and the cascade that removes newly empty
//! directories.

use vstd::prelude::*;
use vstd::string::*;

verus! {

/// A segment begins at `i` when `i` is the start of the path or follows a
/// separator.
pub open spec fn seg_starts_at(p: Seq<char>, i: int) -> bool {
    i == 0 || p[i - 1] == '/'
}

/// A segment ends at `i` when `i` is the last index or precedes a separator.
pub open spec fn seg_ends_at(p: Seq<char>, i: int) -> bool {
    i == p.len() - 1 || p[i + 1] == '/'
}

/// A relative path that stays inside the directory it is resolved against:
/// non-empty, not absolute, no empty segment, and no `.` or `..` segment.
pub open spec fn is_safe_rel(p: Seq<char>) -> bool {
    &&& p.len() > 0
    &&& p[0] != '/'
    &&& p[p.len() - 1] != '/'
    &&& forall|i: int| #![trigger p[i]] 0 <= i < p.len() - 1 ==> !(p[i] == '/' && p[i + 1] == '/')
    &&& forall|i: int| #![trigger p[i]]
        0 <= i < p.len() ==> !(p[i] == '.' && seg_starts_at(p, i) && seg_ends_at(p, i))
    &&& forall|i: int| #![trigger p[i]]
        0 <= i < p.len() - 1 ==> !(p[i] == '.' && p[i + 1] == '.' && seg_starts_at(p, i)
            && seg_ends_at(p, i + 1))
}

/// Decides `is_safe_rel` for a real path value.
pub fn check_rel_path(path: &str) -> (b: bool)
    ensures
        b == is_safe_rel(path@),
{
    let n: usize = path.unicode_len();
    if n == 0 {
        return false;
    }
    if path.get_char(0) == '/' {
        return false;
    }
    if path.get_char(n - 1) == '/' {
        return false;
    }
    let mut i: usize = 0;
    while i < n
        invariant
            0 < n == path@.len(),
            i <= n,
            path@[0] != '/',
            path@[n - 1] != '/',
            forall|k: int| #![trigger path@[k]]
                0 <= k < i && k < n - 1 ==> !(path@[k] == '/' && path@[k + 1] == '/'),
            forall|k: int| #![trigger path@[k]]
                0 <= k < i ==> !(path@[k] == '.' && seg_starts_at(path@, k) && seg_ends_at(
                    path@,
                    k,
                )),
            forall|k: int| #![trigger path@[k]]
                0 <= k < i && k < n - 1 ==> !(path@[k] == '.' && path@[k + 1] == '.'
                    && seg_starts_at(path@, k) && seg_ends_at(path@, k + 1)),
        decreases n - i,
    {
        let c = path.get_char(i);
        if c == '/' && i + 1 < n && path.get_char(i + 1) == '/' {
            return false;
        }
        if c == '.' {
            let starts: bool = i == 0 || path.get_char(i - 1) == '/';
            if starts {
                let ends_here: bool = i == n - 1 || path.get_char(i + 1) == '/';
                if ends_here {
                    return false;
                }
                if path.get_char(i + 1) == '.' {
                    let ends_next: bool = i + 1 == n - 1 || path.get_char(i + 2) == '/';
                    if ends_next {
                        return false;
                    }
                }
            }
        }
        i = i + 1;
    }
    true
}

/// The directory that directly contains `p`: the prefix before the last
/// separator, or the empty sequence when `p` has none (a file at the root).
pub open spec fn parent_of(p: Seq<char>) -> Seq<char>
    decreases p.len(),
{
    if p.len() == 0 {
        Seq::<char>::empty()
    } else if p[p.len() - 1] == '/' {
        p.subrange(0, p.len() - 1)
    } else {
        parent_of(p.subrange(0, p.len() - 1))
    }
}

/// The proper prefixes of `p` that end just before a separator found below
/// index `j`, longest (deepest directory) first.
pub open spec fn prefix_dirs(p: Seq<char>, j: int) -> Seq<Seq<char>>
    decreases j,
{
    if j <= 0 {
        Seq::<Seq<char>>::empty()
    } else if p[j - 1] == '/' {
        seq![p.subrange(0, j - 1)] + prefix_dirs(p, j - 1)
    } else {
        prefix_dirs(p, j - 1)
    }
}

/// All ancestor directories of `p` inside the root, deepest first; a path
/// with no separator has none.  The root itself is never among them.
pub open spec fn ancestors_of(p: Seq<char>) -> Seq<Seq<char>> {
    prefix_dirs(p, p.len() as int)
}

/// The ancestors of `p` as a set.
pub open spec fn ancestor_set(p: Seq<char>) -> Set<Seq<char>> {
    ancestors_of(p).to_set()
}

/// The ancestor directories of `rel`, deepest first.
pub fn ancestor_dirs(rel: &str) -> (r: Vec<String>)
    ensures
        r.deep_view() == ancestors_of(rel@),
{
    let n: usize = rel.unicode_len();
    let mut out: Vec<String> = Vec::new();
    let mut j: usize = n;
    while j > 0
        invariant
            j <= n,
            n == rel@.len(),
            out.deep_view() + prefix_dirs(rel@, j as int) =~= ancestors_of(rel@),
        decreases j,
    {
        j = j - 1;
        if rel.get_char(j) == '/' {
            let ghost prev = out.deep_view();
            let d: String = rel.substring_char(0, j).to_owned();
            out.push(d);
            proof {
                assert(out.deep_view() =~= prev + seq![rel@.subrange(0, j as int)]);
            }
        }
    }
    proof {
        assert(out.deep_view() =~= ancestors_of(rel@));
    }
    out
}

/// `root` and `rel` joined with a single separator.
pub open spec fn joined(root: Seq<char>, rel: Seq<char>) -> Seq<char> {
    root + seq!['/'] + rel
}

/// Joins a root directory and a relative path.
pub fn join_under(root: &str, rel: &str) -> (r: String)
    ensures
        r@ == joined(root@, rel@),
{
    let mut out: String = root.to_owned();
    out.append("/");
    out.append(rel);
    proof {
        reveal_strlit("/");
        assert(out@ =~= joined(root@, rel@));
    }
    out
}

/// `p` lies strictly inside directory `dir`.
pub open spec fn under(dir: Seq<char>, p: Seq<char>) -> bool {
    p.len() > dir.len() && p.subrange(0, dir.len() as int) == dir && p[dir.len() as int] == '/'
}

/// Decides `under` for real path values.
pub fn is_under(dir: &str, p: &str) -> (b: bool)
    ensures
        b == under(dir@, p@),
{
    let dn: usize = dir.unicode_len();
    let pn: usize = p.unicode_len();
    if pn <= dn {
        return false;
    }
    if p.get_char(dn) != '/' {
        return false;
    }
    let prefix: String = p.substring_char(0, dn).to_owned();
    let whole: String = dir.to_owned();
    prefix == whole
}

} // verus!
