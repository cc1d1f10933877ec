//! The model of a local working copy: the set of files (with their text)
//! and the set of directories present under the working-copy root.
//!
//! The mutation engine is specified and verified against this model.  A
//! `Tree` abstracts to a map from relative path to content plus a set of
//! directory paths; the root itself is not an element of either, so no
//! operation can ever touch it.

use vstd::prelude::*;
use vstd::string::*;
use crate::paths::ancestor_set;
use crate::paths::ancestors_of;
use crate::paths::is_safe_rel;
use crate::paths::prefix_dirs;
use crate::paths::under;
use crate::paths::is_under;
use crate::paths::ancestor_dirs;
use crate::paths::check_rel_path;

verus! {

/// One tracked file: its path relative to the working-copy root, and its
/// full text.
pub struct FileEntry {
    pub path: String,
    pub content: String,
}

/// The abstraction of a working copy.
pub struct TreeShape {
    pub files: Map<Seq<char>, Seq<char>>,
    pub dirs: Set<Seq<char>>,
}

/// The file map described by a sequence of entries; a later entry for the
/// same path supersedes an earlier one.
pub open spec fn map_of(s: Seq<FileEntry>) -> Map<Seq<char>, Seq<char>>
    decreases s.len(),
{
    if s.len() == 0 {
        Map::<Seq<char>, Seq<char>>::empty()
    } else {
        map_of(s.drop_last()).insert(s.last().path@, s.last().content@)
    }
}

/// The set of directory paths described by a sequence of directory names.
pub open spec fn set_of(s: Seq<String>) -> Set<Seq<char>>
    decreases s.len(),
{
    if s.len() == 0 {
        Set::<Seq<char>>::empty()
    } else {
        set_of(s.drop_last()).insert(s.last()@)
    }
}

/// No two entries name the same path.
pub open spec fn distinct_paths(s: Seq<FileEntry>) -> bool {
    forall|i: int, j: int| 0 <= i < j < s.len() ==> s[i].path@ != s[j].path@
}

/// No two directory names are the same.
pub open spec fn distinct_names(s: Seq<String>) -> bool {
    forall|i: int, j: int| 0 <= i < j < s.len() ==> s[i]@ != s[j]@
}

pub proof fn lemma_map_of_contains(s: Seq<FileEntry>, k: Seq<char>)
    ensures
        map_of(s).dom().contains(k) <==> exists|i: int| 0 <= i < s.len() && s[i].path@ == k,
    decreases s.len(),
{
    if s.len() > 0 {
        let pre = s.drop_last();
        lemma_map_of_contains(pre, k);
        if k == s.last().path@ {
            assert(s[s.len() - 1].path@ == k);
        } else {
            if exists|i: int| 0 <= i < pre.len() && pre[i].path@ == k {
                let i = choose|i: int| 0 <= i < pre.len() && pre[i].path@ == k;
                assert(s[i].path@ == k);
            }
            if exists|i: int| 0 <= i < s.len() && s[i].path@ == k {
                let i = choose|i: int| 0 <= i < s.len() && s[i].path@ == k;
                assert(pre[i].path@ == k);
            }
        }
    }
}

pub proof fn lemma_map_of_index(s: Seq<FileEntry>, i: int)
    requires
        distinct_paths(s),
        0 <= i < s.len(),
    ensures
        map_of(s).dom().contains(s[i].path@),
        map_of(s)[s[i].path@] == s[i].content@,
    decreases s.len(),
{
    if i < s.len() - 1 {
        assert(s.drop_last()[i] == s[i]);
        lemma_map_of_index(s.drop_last(), i);
        assert(s.last().path@ != s[i].path@);
    }
}

pub proof fn lemma_map_of_push(s: Seq<FileEntry>, e: FileEntry)
    ensures
        map_of(s.push(e)) == map_of(s).insert(e.path@, e.content@),
{
    assert(s.push(e).drop_last() =~= s);
    assert(s.push(e).last() == e);
}

pub proof fn lemma_map_of_remove(s: Seq<FileEntry>, i: int)
    requires
        distinct_paths(s),
        0 <= i < s.len(),
    ensures
        map_of(s.remove(i)) == map_of(s).remove(s[i].path@),
    decreases s.len(),
{
    let k = s[i].path@;
    if i == s.len() - 1 {
        assert(s.remove(i) =~= s.drop_last());
        lemma_map_of_contains(s.drop_last(), k);
        assert(forall|j: int| 0 <= j < s.drop_last().len() ==> s.drop_last()[j].path@ != k);
        assert(map_of(s.remove(i)) =~= map_of(s).remove(k)) by {
            assert(!map_of(s.drop_last()).dom().contains(k));
        }
    } else {
        let pre = s.drop_last();
        assert(s.remove(i).drop_last() =~= pre.remove(i));
        assert(s.remove(i).last() == s.last());
        lemma_map_of_remove(pre, i);
        assert(s.last().path@ != k);
        assert(map_of(s.remove(i)) =~= map_of(s).remove(k));
    }
}

pub proof fn lemma_set_of_contains(s: Seq<String>, k: Seq<char>)
    ensures
        set_of(s).contains(k) <==> exists|i: int| 0 <= i < s.len() && s[i]@ == k,
    decreases s.len(),
{
    if s.len() > 0 {
        let pre = s.drop_last();
        lemma_set_of_contains(pre, k);
        if k == s.last()@ {
            assert(s[s.len() - 1]@ == k);
        } else {
            if exists|i: int| 0 <= i < pre.len() && pre[i]@ == k {
                let i = choose|i: int| 0 <= i < pre.len() && pre[i]@ == k;
                assert(s[i]@ == k);
            }
            if exists|i: int| 0 <= i < s.len() && s[i]@ == k {
                let i = choose|i: int| 0 <= i < s.len() && s[i]@ == k;
                assert(pre[i]@ == k);
            }
        }
    }
}

pub proof fn lemma_set_of_push(s: Seq<String>, e: String)
    ensures
        set_of(s.push(e)) == set_of(s).insert(e@),
{
    assert(s.push(e).drop_last() =~= s);
    assert(s.push(e).last() == e);
}

pub proof fn lemma_set_of_remove(s: Seq<String>, i: int)
    requires
        distinct_names(s),
        0 <= i < s.len(),
    ensures
        set_of(s.remove(i)) == set_of(s).remove(s[i]@),
    decreases s.len(),
{
    let k = s[i]@;
    if i == s.len() - 1 {
        assert(s.remove(i) =~= s.drop_last());
        lemma_set_of_contains(s.drop_last(), k);
        assert(forall|j: int| 0 <= j < s.drop_last().len() ==> s.drop_last()[j]@ != k);
        assert(set_of(s.remove(i)) =~= set_of(s).remove(k)) by {
            assert(!set_of(s.drop_last()).contains(k));
        }
    } else {
        let pre = s.drop_last();
        assert(s.remove(i).drop_last() =~= pre.remove(i));
        assert(s.remove(i).last() == s.last());
        lemma_set_of_remove(pre, i);
        assert(s.last()@ != k);
        assert(set_of(s.remove(i)) =~= set_of(s).remove(k));
    }
}

/// Every ancestor of a safe relative path is itself a safe relative path.
pub proof fn lemma_prefix_dirs_safe(p: Seq<char>, j: int)
    requires
        is_safe_rel(p),
        0 <= j <= p.len(),
    ensures
        forall|k: int|
            0 <= k < prefix_dirs(p, j).len() ==> is_safe_rel(#[trigger] prefix_dirs(p, j)[k]),
    decreases j,
{
    if j > 0 {
        lemma_prefix_dirs_safe(p, j - 1);
        if p[j - 1] == '/' {
            let d = p.subrange(0, j - 1);
            assert(is_safe_rel(d)) by {
                assert(p[0] != '/');
                assert(j - 1 >= 1);
                assert(d[0] == p[0]);
                assert(p[j - 2] != '/');
                assert(d[d.len() - 1] == p[j - 2]);
                assert(forall|i: int|
                    0 <= i < d.len() - 1 ==> !(d[i] == '/' && #[trigger] d[i + 1] == '/')) by {
                    assert(forall|i: int| 0 <= i < d.len() ==> d[i] == p[i]);
                }
                assert(forall|i: int|
                    0 <= i < d.len() ==> !(#[trigger] d[i] == '.' && crate::paths::seg_starts_at(
                        d,
                        i,
                    ) && crate::paths::seg_ends_at(d, i))) by {
                    assert forall|i: int|
                        0 <= i < d.len() && #[trigger] d[i] == '.' && crate::paths::seg_starts_at(
                            d,
                            i,
                        ) implies !crate::paths::seg_ends_at(d, i) by {
                        assert(p[i] == '.');
                        assert(crate::paths::seg_starts_at(p, i));
                        if crate::paths::seg_ends_at(d, i) {
                            assert(crate::paths::seg_ends_at(p, i));
                        }
                    }
                }
                assert(forall|i: int|
                    0 <= i < d.len() - 1 ==> !(d[i] == '.' && #[trigger] d[i + 1] == '.'
                        && crate::paths::seg_starts_at(d, i) && crate::paths::seg_ends_at(
                        d,
                        i + 1,
                    ))) by {
                    assert forall|i: int|
                        0 <= i < d.len() - 1 && d[i] == '.' && #[trigger] d[i + 1] == '.'
                            && crate::paths::seg_starts_at(d, i) implies !crate::paths::seg_ends_at(
                        d,
                        i + 1,
                    ) by {
                        assert(p[i] == '.');
                        assert(p[i + 1] == '.');
                        assert(crate::paths::seg_starts_at(p, i));
                        if crate::paths::seg_ends_at(d, i + 1) {
                            assert(crate::paths::seg_ends_at(p, i + 1));
                        }
                    }
                }
            }
            assert forall|k: int|
                0 <= k < prefix_dirs(p, j).len() implies is_safe_rel(
                #[trigger] prefix_dirs(p, j)[k],
            ) by {
                assert(prefix_dirs(p, j) == seq![d] + prefix_dirs(p, j - 1));
                if k > 0 {
                    assert(prefix_dirs(p, j)[k] == prefix_dirs(p, j - 1)[k - 1]);
                } else {
                    assert((seq![d] + prefix_dirs(p, j - 1))[0] == d);
                }
            }
        } else {
            assert(prefix_dirs(p, j) == prefix_dirs(p, j - 1));
        }
    }
}

/// The working-copy model.
pub struct Tree {
    files: Vec<FileEntry>,
    dirs: Vec<String>,
}

impl View for Tree {
    type V = TreeShape;

    closed spec fn view(&self) -> TreeShape {
        TreeShape { files: map_of(self.files@), dirs: set_of(self.dirs@) }
    }
}

/// A directory of the model is empty when nothing — file or directory —
/// lies strictly inside it.
pub open spec fn dir_empty(t: TreeShape, d: Seq<char>) -> bool {
    &&& forall|p: Seq<char>| #[trigger] t.files.dom().contains(p) ==> !under(d, p)
    &&& forall|e: Seq<char>| #[trigger] t.dirs.contains(e) ==> !under(d, e)
}

/// The directories left after walking `chain` (deepest ancestor first),
/// removing each directory that is present and empty at that moment, and
/// stopping at the first that is not.
pub open spec fn cascade(t: TreeShape, chain: Seq<Seq<char>>) -> Set<Seq<char>>
    decreases chain.len(),
{
    if chain.len() == 0 {
        t.dirs
    } else if t.dirs.contains(chain[0]) && dir_empty(t, chain[0]) {
        cascade(
            TreeShape { files: t.files, dirs: t.dirs.remove(chain[0]) },
            chain.subrange(1, chain.len() as int),
        )
    } else {
        t.dirs
    }
}

impl Tree {
    /// Every path distinct and safe; holds of every tree the library hands
    /// out, and is required by every mutating operation.
    pub closed spec fn wf(self) -> bool {
        &&& distinct_paths(self.files@)
        &&& forall|i: int|
            0 <= i < self.files@.len() ==> is_safe_rel(#[trigger] self.files@[i].path@)
        &&& distinct_names(self.dirs@)
        &&& forall|i: int| 0 <= i < self.dirs@.len() ==> is_safe_rel(#[trigger] self.dirs@[i]@)
    }

    /// The empty working copy: no files, no directories.
    pub fn new() -> (r: Tree)
        ensures
            r.wf(),
            r@.files == Map::<Seq<char>, Seq<char>>::empty(),
            r@.dirs == Set::<Seq<char>>::empty(),
    {
        Tree { files: Vec::new(), dirs: Vec::new() }
    }

    /// Index of the entry for `path`, if any.
    fn find_file(&self, path: &str) -> (r: Option<usize>)
        ensures
            match r {
                Some(i) => i < self.files@.len() && self.files@[i as int].path@ == path@,
                None => forall|i: int| 0 <= i < self.files@.len() ==> self.files@[i].path@ != path@,
            },
    {
        let target: String = path.to_owned();
        let n: usize = self.files.len();
        let mut i: usize = 0;
        while i < n
            invariant
                i <= n,
                n == self.files@.len(),
                target@ == path@,
                forall|k: int| 0 <= k < i ==> self.files@[k].path@ != path@,
            decreases n - i,
        {
            if self.files[i].path == target {
                return Some(i);
            }
            i = i + 1;
        }
        None
    }

    /// Index of the directory entry for `d`, if any.
    fn find_dir(&self, d: &str) -> (r: Option<usize>)
        ensures
            match r {
                Some(i) => i < self.dirs@.len() && self.dirs@[i as int]@ == d@,
                None => forall|i: int| 0 <= i < self.dirs@.len() ==> self.dirs@[i]@ != d@,
            },
    {
        let target: String = d.to_owned();
        let n: usize = self.dirs.len();
        let mut i: usize = 0;
        while i < n
            invariant
                i <= n,
                n == self.dirs@.len(),
                target@ == d@,
                forall|k: int| 0 <= k < i ==> self.dirs@[k]@ != d@,
            decreases n - i,
        {
            if self.dirs[i] == target {
                return Some(i);
            }
            i = i + 1;
        }
        None
    }

    /// Whether `path` names a tracked file.
    pub fn has_file(&self, path: &str) -> (b: bool)
        ensures
            b == self@.files.dom().contains(path@),
    {
        proof {
            lemma_map_of_contains(self.files@, path@);
        }
        match self.find_file(path) {
            Some(_) => true,
            None => false,
        }
    }

    /// Whether `d` names a directory of the model.
    pub fn has_dir(&self, d: &str) -> (b: bool)
        ensures
            b == self@.dirs.contains(d@),
    {
        proof {
            lemma_set_of_contains(self.dirs@, d@);
        }
        match self.find_dir(d) {
            Some(_) => true,
            None => false,
        }
    }

    /// The content of `path`, if tracked.
    pub fn file_content(&self, path: &str) -> (r: Option<String>)
        requires
            self.wf(),
        ensures
            match r {
                Some(c) => self@.files.dom().contains(path@) && c@ == self@.files[path@],
                None => !self@.files.dom().contains(path@),
            },
    {
        proof {
            lemma_map_of_contains(self.files@, path@);
        }
        match self.find_file(path) {
            Some(i) => {
                proof {
                    lemma_map_of_index(self.files@, i as int);
                }
                Some(self.files[i].content.clone())
            },
            None => None,
        }
    }

    /// Create or overwrite `path` with `content`, creating every missing
    /// ancestor directory on the way.
    pub fn create_file(&mut self, path: &str, content: &str)
        requires
            old(self).wf(),
            is_safe_rel(path@),
        ensures
            final(self).wf(),
            final(self)@.files == old(self)@.files.insert(path@, content@),
            final(self)@.dirs == old(self)@.dirs.union(ancestor_set(path@)),
    {
        let ghost files0 = self.files@;
        match self.find_file(path) {
            Some(i) => {
                proof {
                    lemma_map_of_remove(self.files@, i as int);
                }
                self.files.remove(i);
                proof {
                    assert(forall|k: int|
                        0 <= k < self.files@.len() ==> #[trigger] self.files@[k].path@ != path@)
                        by {
                        assert(forall|k: int|
                            0 <= k < self.files@.len() ==> #[trigger] self.files@[k] == if k
                                < i as int {
                                files0[k]
                            } else {
                                files0[k + 1]
                            });
                    }
                }
            },
            None => {},
        }
        proof {
            assert(map_of(self.files@) == map_of(files0).remove(path@) || map_of(self.files@)
                == map_of(files0));
            assert(forall|k: int|
                0 <= k < self.files@.len() ==> #[trigger] self.files@[k].path@ != path@);
        }
        let entry = FileEntry { path: path.to_owned(), content: content.to_owned() };
        proof {
            lemma_map_of_push(self.files@, entry);
        }
        self.files.push(entry);
        proof {
            assert(map_of(self.files@) =~= map_of(files0).insert(path@, content@));
        }
        let ghost dirs0 = self.dirs@;
        let chain: Vec<String> = ancestor_dirs(path);
        proof {
            lemma_prefix_dirs_safe(path@, path@.len() as int);
        }
        let ghost fileseq = self.files@;
        let m: usize = chain.len();
        let mut k: usize = 0;
        while k < m
            invariant
                k <= m,
                m == chain@.len(),
                chain.deep_view() == ancestors_of(path@),
                forall|t: int|
                    0 <= t < chain@.len() ==> is_safe_rel(#[trigger] chain.deep_view()[t]),
                distinct_names(self.dirs@),
                forall|t: int| 0 <= t < self.dirs@.len() ==> is_safe_rel(#[trigger] self.dirs@[t]@),
                set_of(self.dirs@) == set_of(dirs0).union(
                    chain.deep_view().subrange(0, k as int).to_set(),
                ),
                self.files@ == fileseq,
            decreases m - k,
        {
            let ghost dv = chain.deep_view();
            proof {
                lemma_to_set_take_push(dv, k as int);
                assert(dv[k as int] == chain@[k as int]@);
            }
            let present = self.has_dir(chain[k].as_str());
            if !present {
                proof {
                    lemma_set_of_contains(self.dirs@, chain@[k as int]@);
                    lemma_set_of_push(self.dirs@, chain@[k as int]);
                }
                let d: String = chain[k].clone();
                self.dirs.push(d);
                proof {
                    assert(set_of(self.dirs@) =~= set_of(dirs0).union(
                        dv.subrange(0, k as int + 1).to_set(),
                    ));
                }
            } else {
                proof {
                    assert(set_of(self.dirs@) =~= set_of(dirs0).union(
                        dv.subrange(0, k as int + 1).to_set(),
                    ));
                }
            }
            k = k + 1;
        }
        proof {
            assert(chain.deep_view().subrange(0, m as int) =~= ancestors_of(path@));
            assert(set_of(self.dirs@) =~= set_of(dirs0).union(ancestor_set(path@)));
        }
    }
}

impl Tree {
    /// Whether nothing lies strictly inside directory `d`.
    pub fn dir_is_empty(&self, d: &str) -> (b: bool)
        ensures
            b == dir_empty(self@, d@),
    {
        let nf: usize = self.files.len();
        let mut i: usize = 0;
        while i < nf
            invariant
                i <= nf,
                nf == self.files@.len(),
                forall|k: int| 0 <= k < i ==> !under(d@, #[trigger] self.files@[k].path@),
            decreases nf - i,
        {
            if is_under(d, self.files[i].path.as_str()) {
                proof {
                    let pp = self.files@[i as int].path@;
                    lemma_map_of_contains(self.files@, pp);
                    assert((i as int) < self.files@.len() && self.files@[i as int].path@ == pp);
                    assert(self@.files.dom().contains(pp));
                    assert(under(d@, pp));
                }
                return false;
            }
            i = i + 1;
        }
        let nd: usize = self.dirs.len();
        let mut j: usize = 0;
        while j < nd
            invariant
                j <= nd,
                nd == self.dirs@.len(),
                nf == self.files@.len(),
                forall|k: int| 0 <= k < nf ==> !under(d@, #[trigger] self.files@[k].path@),
                forall|k: int| 0 <= k < j ==> !under(d@, #[trigger] self.dirs@[k]@),
            decreases nd - j,
        {
            if is_under(d, self.dirs[j].as_str()) {
                proof {
                    let ee = self.dirs@[j as int]@;
                    lemma_set_of_contains(self.dirs@, ee);
                    assert((j as int) < self.dirs@.len() && self.dirs@[j as int]@ == ee);
                    assert(self@.dirs.contains(ee));
                    assert(under(d@, ee));
                }
                return false;
            }
            j = j + 1;
        }
        proof {
            assert forall|p: Seq<char>| #[trigger] self@.files.dom().contains(p) implies !under(
                d@,
                p,
            ) by {
                lemma_map_of_contains(self.files@, p);
                let t = choose|t: int| 0 <= t < self.files@.len() && self.files@[t].path@ == p;
                assert(!under(d@, self.files@[t].path@));
            }
            assert forall|e: Seq<char>| #[trigger] self@.dirs.contains(e) implies !under(
                d@,
                e,
            ) by {
                lemma_set_of_contains(self.dirs@, e);
                let t = choose|t: int| 0 <= t < self.dirs@.len() && self.dirs@[t]@ == e;
                assert(!under(d@, self.dirs@[t]@));
            }
        }
        true
    }

    /// Remove `path` if it is tracked; report whether it was.  After the
    /// file is gone, every ancestor directory that has become empty is
    /// removed, walking upward and stopping at the first non-empty one.
    /// The walk can only ever reach the path's own ancestors, so the
    /// working-copy root is never removed.
    pub fn remove_file(&mut self, path: &str) -> (r: bool)
        requires
            old(self).wf(),
            is_safe_rel(path@),
        ensures
            final(self).wf(),
            r == old(self)@.files.dom().contains(path@),
            !r ==> final(self)@ == old(self)@,
            r ==> final(self)@.files == old(self)@.files.remove(path@),
            r ==> final(self)@.dirs == cascade(
                TreeShape { files: old(self)@.files.remove(path@), dirs: old(self)@.dirs },
                ancestors_of(path@),
            ),
    {
        proof {
            lemma_map_of_contains(self.files@, path@);
        }
        let ghost files0 = self.files@;
        match self.find_file(path) {
            None => false,
            Some(i) => {
                proof {
                    lemma_map_of_remove(self.files@, i as int);
                }
                self.files.remove(i);
                proof {
                    assert(forall|k: int|
                        0 <= k < self.files@.len() ==> #[trigger] self.files@[k] == if k
                            < i as int {
                            files0[k]
                        } else {
                            files0[k + 1]
                        });
                }
                let ghost fileseq = self.files@;
                let ghost shape0 = TreeShape { files: map_of(fileseq), dirs: set_of(self.dirs@) };
                let chain: Vec<String> = ancestor_dirs(path);
                let ghost dv = chain.deep_view();
                proof {
                    assert(dv.subrange(0, dv.len() as int) =~= dv);
                }
                let m: usize = chain.len();
                let mut k: usize = 0;
                while k < m
                    invariant_except_break
                        k <= m,
                        m == chain@.len(),
                        dv == chain.deep_view(),
                        self.files@ == fileseq,
                        distinct_names(self.dirs@),
                        forall|t: int|
                            0 <= t < self.dirs@.len() ==> is_safe_rel(#[trigger] self.dirs@[t]@),
                        cascade(
                            TreeShape { files: map_of(fileseq), dirs: set_of(self.dirs@) },
                            dv.subrange(k as int, m as int),
                        ) == cascade(shape0, dv),
                    ensures
                        self.files@ == fileseq,
                        distinct_names(self.dirs@),
                        forall|t: int|
                            0 <= t < self.dirs@.len() ==> is_safe_rel(#[trigger] self.dirs@[t]@),
                        set_of(self.dirs@) == cascade(shape0, dv),
                    decreases m - k,
                {
                    let ghost cur = TreeShape { files: map_of(fileseq), dirs: set_of(self.dirs@) };
                    let ghost rest = dv.subrange(k as int, m as int);
                    proof {
                        assert(rest[0] == dv[k as int]);
                        assert(dv[k as int] == chain@[k as int]@);
                    }
                    let idx = self.find_dir(chain[k].as_str());
                    match idx {
                        None => {
                            proof {
                                lemma_set_of_contains(self.dirs@, dv[k as int]);
                                assert(!cur.dirs.contains(rest[0]));
                                assert(cascade(cur, rest) == cur.dirs);
                            }
                            break ;
                        },
                        Some(j) => {
                            if self.dir_is_empty(chain[k].as_str()) {
                                proof {
                                    lemma_set_of_contains(self.dirs@, dv[k as int]);
                                    assert(self.dirs@[j as int]@ == dv[k as int]);
                                    lemma_set_of_remove(self.dirs@, j as int);
                                    assert(cur.dirs.contains(rest[0]));
                                }
                                let ghost dirs_before = self.dirs@;
                                self.dirs.remove(j);
                                proof {
                                    assert(forall|t: int|
                                        0 <= t < self.dirs@.len() ==> #[trigger] self.dirs@[t]
                                            == if t < j as int {
                                            dirs_before[t]
                                        } else {
                                            dirs_before[t + 1]
                                        });
                                    assert(set_of(self.dirs@) == cur.dirs.remove(rest[0]));
                                    assert(rest.subrange(1, rest.len() as int) =~= dv.subrange(
                                        k as int + 1,
                                        m as int,
                                    ));
                                    assert(cascade(cur, rest) == cascade(
                                        TreeShape { files: map_of(fileseq), dirs: set_of(self.dirs@) },
                                        dv.subrange(k as int + 1, m as int),
                                    ));
                                }
                                k = k + 1;
                            } else {
                                proof {
                                    assert(cascade(cur, rest) == cur.dirs);
                                }
                                break ;
                            }
                        },
                    }
                }
                proof {
                    assert(dv.subrange(m as int, m as int) =~= Seq::<Seq<char>>::empty());
                }
                true
            },
        }
    }

    /// Move the file at `from` to `to`, creating `to`'s missing ancestor
    /// directories; overwrites any file already at `to`.  Fails (returning
    /// false, changing nothing) exactly when `from` is not tracked.
    pub fn rename_file(&mut self, from: &str, to: &str) -> (r: bool)
        requires
            old(self).wf(),
            is_safe_rel(from@),
            is_safe_rel(to@),
        ensures
            final(self).wf(),
            r == old(self)@.files.dom().contains(from@),
            !r ==> final(self)@ == old(self)@,
            r ==> final(self)@.files == old(self)@.files.remove(from@).insert(
                to@,
                old(self)@.files[from@],
            ),
            r ==> final(self)@.dirs == old(self)@.dirs.union(ancestor_set(to@)),
    {
        proof {
            lemma_map_of_contains(self.files@, from@);
        }
        let ghost files0 = self.files@;
        match self.find_file(from) {
            None => false,
            Some(i) => {
                proof {
                    lemma_map_of_index(self.files@, i as int);
                    lemma_map_of_remove(self.files@, i as int);
                }
                let entry = self.files.remove(i);
                proof {
                    assert(forall|k: int|
                        0 <= k < self.files@.len() ==> #[trigger] self.files@[k] == if k
                            < i as int {
                            files0[k]
                        } else {
                            files0[k + 1]
                        });
                }
                self.create_file(to, entry.content.as_str());
                true
            },
        }
    }

    /// An identical, independent copy of the model.
    pub fn snapshot(&self) -> (r: Tree)
        ensures
            r@ == self@,
            r.wf() <==> self.wf(),
    {
        let nf: usize = self.files.len();
        let mut files2: Vec<FileEntry> = Vec::new();
        let mut i: usize = 0;
        while i < nf
            invariant
                i <= nf,
                nf == self.files@.len(),
                files2@ =~= self.files@.subrange(0, i as int),
            decreases nf - i,
        {
            let e = FileEntry {
                path: self.files[i].path.clone(),
                content: self.files[i].content.clone(),
            };
            files2.push(e);
            i = i + 1;
        }
        let nd: usize = self.dirs.len();
        let mut dirs2: Vec<String> = Vec::new();
        let mut j: usize = 0;
        while j < nd
            invariant
                j <= nd,
                nd == self.dirs@.len(),
                dirs2@ =~= self.dirs@.subrange(0, j as int),
            decreases nd - j,
        {
            dirs2.push(self.dirs[j].clone());
            j = j + 1;
        }
        proof {
            assert(files2@ =~= self.files@);
            assert(dirs2@ =~= self.dirs@);
        }
        Tree { files: files2, dirs: dirs2 }
    }
}

/// The abstraction of the remote repository: whether it can be cloned at
/// all, and the files its default ref holds.
pub struct RemoteShape {
    pub available: bool,
    pub files: Seq<FileEntry>,
}

/// The model of the remote host: the single source of truth the working
/// copy mirrors.  A clone materializes its files; a raw-content fetch
/// returns one file's text, or nothing (a non-success response) when the
/// path is not present at the remote.
pub struct Remote {
    available: bool,
    files: Vec<FileEntry>,
}

impl View for Remote {
    type V = RemoteShape;

    closed spec fn view(&self) -> RemoteShape {
        RemoteShape { available: self.available, files: self.files@ }
    }
}

/// The directories a fresh clone of `files` contains: the ancestors of
/// every file.
pub open spec fn dirs_of(files: Seq<FileEntry>) -> Set<Seq<char>>
    decreases files.len(),
{
    if files.len() == 0 {
        Set::<Seq<char>>::empty()
    } else {
        dirs_of(files.drop_last()).union(ancestor_set(files.last().path@))
    }
}

/// The working copy a fresh clone of `files` produces.
pub open spec fn clone_shape(files: Seq<FileEntry>) -> TreeShape {
    TreeShape { files: map_of(files), dirs: dirs_of(files) }
}

impl Remote {
    /// Distinct, safe paths.
    pub open spec fn wf(self) -> bool {
        &&& distinct_paths(self@.files)
        &&& forall|i: int| 0 <= i < self@.files.len() ==> is_safe_rel(#[trigger] self@.files[i].path@)
    }

    /// A remote with no files; `available` tells whether cloning it can
    /// succeed at all.
    pub fn new(available: bool) -> (r: Remote)
        ensures
            r.wf(),
            r@.available == available,
            r@.files == Seq::<FileEntry>::empty(),
    {
        Remote { available, files: Vec::new() }
    }

    fn find_file(&self, path: &str) -> (r: Option<usize>)
        ensures
            match r {
                Some(i) => i < self@.files.len() && self@.files[i as int].path@ == path@,
                None => forall|i: int| 0 <= i < self@.files.len() ==> self@.files[i].path@ != path@,
            },
    {
        let target: String = path.to_owned();
        let n: usize = self.files.len();
        let mut i: usize = 0;
        while i < n
            invariant
                i <= n,
                n == self.files@.len(),
                target@ == path@,
                forall|k: int| 0 <= k < i ==> self.files@[k].path@ != path@,
            decreases n - i,
        {
            if self.files[i].path == target {
                return Some(i);
            }
            i = i + 1;
        }
        None
    }

    /// Record a file at the remote.  Refused (returning false, changing
    /// nothing) when the path is unsafe or already present.
    pub fn add_file(&mut self, path: &str, content: &str) -> (ok: bool)
        requires
            old(self).wf(),
        ensures
            final(self).wf(),
            ok == (is_safe_rel(path@) && !map_of(old(self)@.files).dom().contains(path@)),
            !ok ==> final(self)@ == old(self)@,
            ok ==> final(self)@.available == old(self)@.available && final(self)@.files.len()
                == old(self)@.files.len() + 1 && final(self)@.files.drop_last() == old(self)@.files
                && final(self)@.files.last().path@ == path@
                && final(self)@.files.last().content@ == content@,
    {
        proof {
            lemma_map_of_contains(self.files@, path@);
        }
        if !check_rel_path(path) {
            return false;
        }
        match self.find_file(path) {
            Some(_) => false,
            None => {
                let e = FileEntry { path: path.to_owned(), content: content.to_owned() };
                self.files.push(e);
                proof {
                    assert(self.files@.drop_last() =~= old(self).files@);
                }
                true
            },
        }
    }

    /// Whether a clone of this remote can succeed.
    pub fn is_available(&self) -> (b: bool)
        ensures
            b == self@.available,
    {
        self.available
    }

    /// The working copy produced by a fresh clone.
    pub fn clone_tree(&self) -> (t: Tree)
        requires
            self.wf(),
        ensures
            t.wf(),
            t@ == clone_shape(self@.files),
    {
        let mut t = Tree::new();
        let n: usize = self.files.len();
        let mut i: usize = 0;
        while i < n
            invariant
                i <= n,
                n == self.files@.len(),
                self.wf(),
                t.wf(),
                t@.files == map_of(self.files@.subrange(0, i as int)),
                t@.dirs == dirs_of(self.files@.subrange(0, i as int)),
            decreases n - i,
        {
            let ghost pre = self.files@.subrange(0, i as int);
            t.create_file(self.files[i].path.as_str(), self.files[i].content.as_str());
            proof {
                assert(self.files@.subrange(0, i as int + 1).drop_last() =~= pre);
                assert(self.files@.subrange(0, i as int + 1).last() == self.files@[i as int]);
            }
            i = i + 1;
        }
        proof {
            assert(self.files@.subrange(0, n as int) =~= self.files@);
        }
        t
    }

    /// The raw content served for `path`: the file's text when the remote
    /// has it, nothing (a non-success response) otherwise.
    pub fn raw_content(&self, path: &str) -> (r: Option<String>)
        requires
            self.wf(),
        ensures
            match r {
                Some(c) => map_of(self@.files).dom().contains(path@) && c@ == map_of(
                    self@.files,
                )[path@],
                None => !map_of(self@.files).dom().contains(path@),
            },
    {
        proof {
            lemma_map_of_contains(self.files@, path@);
        }
        match self.find_file(path) {
            Some(i) => {
                proof {
                    lemma_map_of_index(self.files@, i as int);
                }
                Some(self.files[i].content.clone())
            },
            None => None,
        }
    }
}

/// Law (a fresh clone mirrors the remote): the working copy a clone
/// produces tracks exactly the remote's files — every listed path with
/// its listed text, and nothing else.
pub proof fn lemma_clone_mirrors_remote(r: RemoteShape)
    requires
        distinct_paths(r.files),
    ensures
        forall|i: int|
            0 <= i < r.files.len() ==> clone_shape(r.files).files.dom().contains(
                #[trigger] r.files[i].path@,
            ),
        forall|i: int|
            0 <= i < r.files.len() ==> clone_shape(r.files).files[#[trigger] r.files[i].path@]
                == r.files[i].content@,
        forall|p: Seq<char>|
            #[trigger] clone_shape(r.files).files.dom().contains(p) ==> exists|i: int|
                0 <= i < r.files.len() && r.files[i].path@ == p,
{
    assert forall|i: int|
        0 <= i < r.files.len() implies clone_shape(r.files).files.dom().contains(
        #[trigger] r.files[i].path@,
    ) && clone_shape(r.files).files[r.files[i].path@] == r.files[i].content@ by {
        lemma_map_of_index(r.files, i);
    }
    assert forall|p: Seq<char>|
        #[trigger] clone_shape(r.files).files.dom().contains(p) implies exists|i: int|
        0 <= i < r.files.len() && r.files[i].path@ == p by {
        lemma_map_of_contains(r.files, p);
    }
}

/// The cascade walk removes only directories named in its chain: every
/// other directory survives it.
pub proof fn lemma_cascade_bound(t: TreeShape, chain: Seq<Seq<char>>)
    ensures
        cascade(t, chain).subset_of(t.dirs),
        forall|d: Seq<char>|
            t.dirs.contains(d) && !cascade(t, chain).contains(d) ==> chain.contains(d),
    decreases chain.len(),
{
    if chain.len() == 0 {
    } else if t.dirs.contains(chain[0]) && dir_empty(t, chain[0]) {
        let t2 = TreeShape { files: t.files, dirs: t.dirs.remove(chain[0]) };
        let rest = chain.subrange(1, chain.len() as int);
        lemma_cascade_bound(t2, rest);
        assert forall|d: Seq<char>|
            t.dirs.contains(d) && !cascade(t, chain).contains(d) implies chain.contains(d) by {
            if d == chain[0] {
                assert(chain.contains(d)) by {
                    assert(chain[0] == d);
                }
            } else {
                assert(t2.dirs.contains(d));
                assert(cascade(t, chain) == cascade(t2, rest));
                assert(rest.contains(d));
                let i = choose|i: int| 0 <= i < rest.len() && rest[i] == d;
                assert(rest[i] == chain[i + 1]);
                assert(chain.contains(d)) by {
                    assert(chain[i + 1] == d);
                }
            }
        }
    }
}

/// Law (cascade bound): removing a tracked file deletes, besides the file
/// itself, only directories among the removed path's own ancestors; every
/// other directory survives.  The working-copy root is not a directory
/// entry of the model at all — no ancestor chain contains it — so the walk
/// can never delete the root, however empty the copy becomes.
pub proof fn lemma_remove_cascade_bound(t: TreeShape, path: Seq<char>)
    ensures
        cascade(
            TreeShape { files: t.files.remove(path), dirs: t.dirs },
            ancestors_of(path),
        ).subset_of(t.dirs),
        forall|d: Seq<char>|
            t.dirs.contains(d) && !cascade(
                TreeShape { files: t.files.remove(path), dirs: t.dirs },
                ancestors_of(path),
            ).contains(d) ==> ancestors_of(path).contains(d),
{
    lemma_cascade_bound(
        TreeShape { files: t.files.remove(path), dirs: t.dirs },
        ancestors_of(path),
    );
}

/// Extending the prefix of a sequence by one element extends the set of its
/// elements by that element.
pub proof fn lemma_to_set_take_push(s: Seq<Seq<char>>, k: int)
    requires
        0 <= k < s.len(),
    ensures
        s.subrange(0, k + 1).to_set() == s.subrange(0, k).to_set().insert(s[k]),
{
    let a = s.subrange(0, k + 1);
    let b = s.subrange(0, k);
    assert forall|x: Seq<char>| a.to_set().contains(x) implies b.to_set().insert(
        s[k],
    ).contains(x) by {
        let i = choose|i: int| 0 <= i < a.len() && a[i] == x;
        if i < k {
            assert(b[i] == x);
        }
    }
    assert forall|x: Seq<char>| b.to_set().insert(s[k]).contains(x) implies a.to_set().contains(
        x,
    ) by {
        if b.to_set().contains(x) {
            let i = choose|i: int| 0 <= i < b.len() && b[i] == x;
            assert(a[i] == x);
        } else {
            assert(a[k] == x);
        }
    }
    assert(a.to_set() =~= b.to_set().insert(s[k]));
}

} // verus!
