//! Parsing and validation of configuration values.
//!
//! The embedding process reads raw environment text and hands it here: a
//! human-readable memory size becomes a byte count, and the assembled
//! configuration is validated before use.

use vstd::prelude::*;
use vstd::string::*;
use crate::settings::Config;

verus! {

/// The whitespace characters trimmed from memory-size input.
pub open spec fn is_space(c: char) -> bool {
    c == ' ' || c == '\t' || c == '\r' || c == '\n'
}

/// `s` without its leading whitespace.
pub open spec fn trim_front(s: Seq<char>) -> Seq<char>
    decreases s.len(),
{
    if s.len() > 0 && is_space(s[0]) {
        trim_front(s.drop_first())
    } else {
        s
    }
}

/// `s` without its trailing whitespace.
pub open spec fn trim_back(s: Seq<char>) -> Seq<char>
    decreases s.len(),
{
    if s.len() > 0 && is_space(s.last()) {
        trim_back(s.drop_last())
    } else {
        s
    }
}

/// `s` without leading and trailing whitespace.
pub open spec fn trim_spec(s: Seq<char>) -> Seq<char> {
    trim_back(trim_front(s))
}

pub proof fn lemma_trim_front_idx(s: Seq<char>, a: int)
    requires
        0 <= a <= s.len(),
        forall|i: int| 0 <= i < a ==> is_space(#[trigger] s[i]),
        a < s.len() ==> !is_space(s[a]),
    ensures
        trim_front(s) == s.subrange(a, s.len() as int),
    decreases a,
{
    if a == 0 {
        assert(s.subrange(0, s.len() as int) =~= s);
    } else {
        let t = s.drop_first();
        assert(forall|i: int| 0 <= i < a - 1 ==> is_space(#[trigger] t[i])) by {
            assert(forall|i: int| 0 <= i < t.len() ==> #[trigger] t[i] == s[i + 1]);
        }
        lemma_trim_front_idx(t, a - 1);
        assert(t.subrange(a - 1, t.len() as int) =~= s.subrange(a, s.len() as int));
    }
}

pub proof fn lemma_trim_back_idx(s: Seq<char>, b: int)
    requires
        0 <= b <= s.len(),
        forall|i: int| b <= i < s.len() ==> is_space(#[trigger] s[i]),
        b > 0 ==> !is_space(s[b - 1]),
    ensures
        trim_back(s) == s.subrange(0, b),
    decreases s.len(),
{
    if b == s.len() {
        assert(s.subrange(0, b) =~= s);
    } else {
        lemma_trim_back_idx(s.drop_last(), b);
        assert(s.drop_last().subrange(0, b) =~= s.subrange(0, b));
    }
}

/// Decides `is_space`.
fn is_space_char(c: char) -> (b: bool)
    ensures
        b == is_space(c),
{
    c == ' ' || c == '\t' || c == '\r' || c == '\n'
}

/// Strip leading and trailing whitespace.
#[verifier::loop_isolation(false)]
pub fn trim(s: &str) -> (r: String)
    ensures
        r@ == trim_spec(s@),
{
    let n: usize = s.unicode_len();
    let mut a: usize = 0;
    while a < n && is_space_char(s.get_char(a))
        invariant
            a <= n,
            forall|i: int| 0 <= i < a ==> is_space(#[trigger] s@[i]),
        decreases n - a,
    {
        a = a + 1;
    }
    let mut b: usize = n;
    while b > a && is_space_char(s.get_char(b - 1))
        invariant
            a <= b <= n,
            forall|i: int| b <= i < n ==> is_space(#[trigger] s@[i]),
        decreases b,
    {
        b = b - 1;
    }
    proof {
        lemma_trim_front_idx(s@, a as int);
        let t = s@.subrange(a as int, n as int);
        assert(forall|i: int| b - a <= i < t.len() ==> is_space(#[trigger] t[i])) by {
            assert(forall|i: int| 0 <= i < t.len() ==> #[trigger] t[i] == s@[i + a]);
        }
        lemma_trim_back_idx(t, (b - a) as int);
        assert(t.subrange(0, (b - a) as int) =~= s@.subrange(a as int, b as int));
    }
    s.substring_char(a, b).to_owned()
}

/// A decimal digit.
pub open spec fn is_digit(c: char) -> bool {
    48 <= (c as u32) && (c as u32) <= 57
}

/// The value of one digit.
pub open spec fn digit_val(c: char) -> int {
    (c as u32) - 48
}

/// The value of a digit string, most significant first.
pub open spec fn digits_val(s: Seq<char>) -> int
    decreases s.len(),
{
    if s.len() == 0 {
        0
    } else {
        digits_val(s.drop_last()) * 10 + digit_val(s.last())
    }
}

/// Every character is a decimal digit.
pub open spec fn all_digits(s: Seq<char>) -> bool {
    forall|i: int| 0 <= i < s.len() ==> is_digit(#[trigger] s[i])
}

/// The digit part of an unsigned integer literal: the text after one
/// optional leading plus sign.
pub open spec fn usize_literal(s: Seq<char>) -> Seq<char> {
    if s.len() > 0 && s[0] == '+' {
        s.drop_first()
    } else {
        s
    }
}

/// Whether `s` is an unsigned integer literal whose value fits the
/// platform word: an optional plus sign, then at least one digit, with a
/// value of at most `usize::MAX`.
pub open spec fn parses_as_usize(s: Seq<char>) -> bool {
    let d = usize_literal(s);
    d.len() > 0 && all_digits(d) && digits_val(d) <= usize::MAX
}

pub proof fn lemma_digits_val_nonneg(s: Seq<char>)
    requires
        all_digits(s),
    ensures
        digits_val(s) >= 0,
    decreases s.len(),
{
    if s.len() > 0 {
        assert(forall|i: int| 0 <= i < s.drop_last().len() ==> #[trigger] s.drop_last()[i]
            == s[i]);
        lemma_digits_val_nonneg(s.drop_last());
    }
}

/// A digit string is worth at least any of its prefixes.
pub proof fn lemma_digits_val_prefix(s: Seq<char>, k: int)
    requires
        all_digits(s),
        0 <= k <= s.len(),
    ensures
        digits_val(s.subrange(0, k)) <= digits_val(s),
    decreases s.len() - k,
{
    if k < s.len() {
        let p = s.subrange(0, k);
        let q = s.subrange(0, k + 1);
        assert(forall|i: int| 0 <= i < p.len() ==> #[trigger] p[i] == s[i]);
        lemma_digits_val_nonneg(p);
        assert(q.drop_last() =~= p);
        assert(digits_val(q) == digits_val(p) * 10 + digit_val(s[k]));
        lemma_digits_val_prefix(s, k + 1);
    } else {
        assert(s.subrange(0, k) =~= s);
    }
}

/// Parse an unsigned integer: an optional plus sign, then decimal digits.
/// Nothing on malformed text or a value over `usize::MAX`.
#[verifier::loop_isolation(false)]
pub fn parse_usize_str(s: &str) -> (r: Option<usize>)
    ensures
        match r {
            Some(v) => parses_as_usize(s@) && v as int == digits_val(usize_literal(s@)),
            None => !parses_as_usize(s@),
        },
{
    let n: usize = s.unicode_len();
    let has_sign: bool = n > 0 && s.get_char(0) == '+';
    let start: usize = if has_sign {
        1
    } else {
        0
    };
    let ghost d = usize_literal(s@);
    proof {
        if has_sign {
            assert(d =~= s@.subrange(1, n as int));
        }
        assert(forall|k: int| 0 <= k < d.len() ==> #[trigger] d[k] == s@[k + start]);
    }
    if start == n {
        return None;
    }
    let mut acc: u128 = 0;
    let mut i: usize = start;
    while i < n
        invariant
            start <= i <= n,
            forall|k: int| 0 <= k < i - start ==> is_digit(#[trigger] d[k]),
            acc as int == digits_val(d.subrange(0, i - start)),
            acc <= usize::MAX,
        decreases n - i,
    {
        let c = s.get_char(i);
        let u: u32 = c as u32;
        if u < 48 || u > 57 {
            proof {
                assert(!is_digit(d[i - start]));
            }
            return None;
        }
        let dig: u128 = (u - 48) as u128;
        proof {
            let j = i - start;
            assert(d.subrange(0, j + 1).drop_last() =~= d.subrange(0, j as int));
            assert(d.subrange(0, j + 1).last() == d[j as int]);
        }
        acc = acc * 10 + dig;
        i = i + 1;
        if acc > usize::MAX as u128 {
            proof {
                if all_digits(d) {
                    lemma_digits_val_prefix(d, i - start);
                }
            }
            return None;
        }
    }
    proof {
        assert(d.subrange(0, (n - start) as int) =~= d);
    }
    Some(acc as usize)
}

/// The byte multiplier a two-character unit denotes, case-insensitively:
/// kb, mb, gb, tb or zb in powers of 1024.
pub open spec fn unit_multiplier(c0: char, c1: char) -> Option<int> {
    if !(c1 == 'b' || c1 == 'B') {
        None
    } else if c0 == 'z' || c0 == 'Z' {
        Some(1125899906842624int)
    } else if c0 == 't' || c0 == 'T' {
        Some(1099511627776int)
    } else if c0 == 'g' || c0 == 'G' {
        Some(1073741824int)
    } else if c0 == 'm' || c0 == 'M' {
        Some(1048576int)
    } else if c0 == 'k' || c0 == 'K' {
        Some(1024int)
    } else {
        None
    }
}

/// The byte count a human-readable memory size denotes: after trimming,
/// an integer, one space, and a two-character unit (as in `100 MB`).
/// Nothing when the shape is wrong, the unit unknown, or the count does
/// not fit the platform word.
pub open spec fn memory_bytes(s: Seq<char>) -> Option<int> {
    let v = trim_spec(s);
    if v.len() < 2 {
        None
    } else {
        let size_str = v.subrange(0, v.len() - 2);
        if size_str.len() == 0 || size_str.last() != ' ' {
            None
        } else {
            let digits = size_str.drop_last();
            if !parses_as_usize(digits) {
                None
            } else {
                match unit_multiplier(v[v.len() - 2], v[v.len() - 1]) {
                    None => None,
                    Some(m) => {
                        let total = digits_val(usize_literal(digits)) * m;
                        if total <= usize::MAX {
                            Some(total)
                        } else {
                            None
                        }
                    },
                }
            }
        }
    }
}

/// Parse a human-readable memory size to bytes.
pub fn parse_memory(memory: &str) -> (r: Option<usize>)
    ensures
        match r {
            Some(v) => memory_bytes(memory@) == Some(v as int),
            None => memory_bytes(memory@) is None,
        },
{
    let value: String = trim(memory);
    let vs: &str = value.as_str();
    let n: usize = vs.unicode_len();
    if n < 2 {
        return None;
    }
    let c0 = vs.get_char(n - 2);
    let c1 = vs.get_char(n - 1);
    let size_str: &str = vs.substring_char(0, n - 2);
    let m: usize = n - 2;
    if m == 0 {
        return None;
    }
    if size_str.get_char(m - 1) != ' ' {
        return None;
    }
    let digits: &str = size_str.substring_char(0, m - 1);
    proof {
        assert(digits@ =~= trim_spec(memory@).subrange(0, n - 2).drop_last());
    }
    let sz: usize = match parse_usize_str(digits) {
        Some(v) => v,
        None => {
            return None;
        },
    };
    let mult: u128 = if !(c1 == 'b' || c1 == 'B') {
        return None;
    } else if c0 == 'z' || c0 == 'Z' {
        1125899906842624
    } else if c0 == 't' || c0 == 'T' {
        1099511627776
    } else if c0 == 'g' || c0 == 'G' {
        1073741824
    } else if c0 == 'm' || c0 == 'M' {
        1048576
    } else if c0 == 'k' || c0 == 'K' {
        1024
    } else {
        return None;
    };
    match (sz as u128).checked_mul(mult) {
        Some(total) => {
            if total > usize::MAX as u128 {
                None
            } else {
                Some(total as usize)
            }
        },
        None => None,
    }
}

/// A configuration is acceptable when the storage root is a real
/// directory and the token has at least four characters.
pub open spec fn vars_ok(authorization: Seq<char>, source_is_dir: bool) -> bool {
    source_is_dir && authorization.len() >= 4
}

/// The rendered complaint for a rejected configuration.
pub open spec fn vars_error_spec(
    source: Seq<char>,
    authorization: Seq<char>,
    source_is_dir: bool,
) -> Seq<char> {
    (if !source_is_dir {
        "\ngithub_source\n\tInput ["@ + source + "] is not a valid directory [value=invalid]\n"@
    } else {
        Seq::<char>::empty()
    }) + (if authorization.len() < 4 {
        "\nauthorization\n\tshould be at least 4 or more characters [value=invalid]\n"@
    } else {
        Seq::<char>::empty()
    })
}

/// Validate an assembled configuration.  `source_is_dir` reports whether
/// the storage root exists as a directory, a fact only the embedding
/// process can observe.  A rejected configuration comes back as the full
/// list of complaints.
pub fn validate_vars(config: Config, source_is_dir: bool) -> (r: Result<Config, String>)
    ensures
        vars_ok(config.authorization@, source_is_dir) ==> (r matches Ok(c) && c == config),
        !vars_ok(config.authorization@, source_is_dir) ==> (r matches Err(m) && m@
            == vars_error_spec(config.github_source@, config.authorization@, source_is_dir)),
{
    let auth_len: usize = config.authorization.as_str().unicode_len();
    if source_is_dir && auth_len >= 4 {
        Ok(config)
    } else {
        let mut errors: String = String::new();
        if !source_is_dir {
            errors.append("\ngithub_source\n\tInput [");
            errors.append(config.github_source.as_str());
            errors.append("] is not a valid directory [value=invalid]\n");
        }
        if auth_len < 4 {
            errors.append("\nauthorization\n\tshould be at least 4 or more characters [value=invalid]\n");
        }
        proof {
            assert(errors@ =~= vars_error_spec(
                config.github_source@,
                config.authorization@,
                source_is_dir,
            ));
        }
        Err(errors)
    }
}

} // verus!
