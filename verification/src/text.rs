//! Character-level utilities shared by the rest of the library: scanning a
//! string for a separator and splitting off its first two fields.

use vstd::prelude::*;
use vstd::string::*;

verus! {

/// The least index `i >= from` with `s[i] == c`, or `s.len()` if no such
/// index exists.
pub open spec fn find_from(s: Seq<char>, c: char, from: int) -> int
    decreases s.len() - from,
{
    if from < 0 || from >= s.len() {
        s.len() as int
    } else if s[from] == c {
        from
    } else {
        find_from(s, c, from + 1)
    }
}

pub proof fn lemma_find_from(s: Seq<char>, c: char, from: int)
    requires
        0 <= from <= s.len(),
    ensures
        from <= find_from(s, c, from) <= s.len(),
        find_from(s, c, from) < s.len() ==> s[find_from(s, c, from)] == c,
        forall|i: int| from <= i < find_from(s, c, from) ==> s[i] != c,
    decreases s.len() - from,
{
    if from < s.len() && s[from] != c {
        lemma_find_from(s, c, from + 1);
    }
}

/// First occurrence of `c` in `s` at or after `from`, as an index;
/// `s.len()` when `c` does not occur there.
pub fn index_of_from(s: &str, c: char, from: usize) -> (r: usize)
    requires
        from <= s@.len(),
    ensures
        r == find_from(s@, c, from as int),
{
    let n: usize = s.unicode_len();
    let mut i: usize = from;
    while i < n
        invariant
            from <= i <= n,
            n == s@.len(),
            find_from(s@, c, from as int) == find_from(s@, c, i as int),
        decreases n - i,
    {
        if s.get_char(i) == c {
            return i;
        }
        i = i + 1;
    }
    n
}

/// The text before the first occurrence of `sep` (all of `s` if absent).
pub open spec fn split_first(s: Seq<char>, sep: char) -> Seq<char> {
    s.subrange(0, find_from(s, sep, 0))
}

/// The text between the first and second occurrences of `sep`; empty when
/// `sep` does not occur at all.
pub open spec fn split_second(s: Seq<char>, sep: char) -> Seq<char> {
    let i = find_from(s, sep, 0);
    if i == s.len() {
        Seq::<char>::empty()
    } else {
        s.subrange(i + 1, find_from(s, sep, i + 1))
    }
}

/// Splits `s` into its first two `sep`-separated fields, each empty when
/// missing, mirroring taking the first two items of an iterator over
/// `sep`-separated pieces.
pub fn split_two(s: &str, sep: char) -> (r: (String, String))
    ensures
        r.0@ == split_first(s@, sep),
        r.1@ == split_second(s@, sep),
{
    let n: usize = s.unicode_len();
    let i: usize = index_of_from(s, sep, 0);
    proof {
        lemma_find_from(s@, sep, 0);
    }
    let first: String = s.substring_char(0, i).to_owned();
    if i == n {
        (first, String::new())
    } else {
        let j: usize = index_of_from(s, sep, i + 1);
        proof {
            lemma_find_from(s@, sep, i + 1);
        }
        let second: String = s.substring_char(i + 1, j).to_owned();
        (first, second)
    }
}

} // verus!
