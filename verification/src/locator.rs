//! The locator: which repository a request addresses.
//!
//! A locator names an organization, a repository and an optional ref, and
//! is parsed once at the boundary from the `organization/name;ref` text of
//! the location header.  Past the boundary both the organization and the
//! repository are non-empty; an empty one is rejected before any engine
//! operation runs.

use vstd::prelude::*;
use vstd::string::*;
use crate::paths::joined;
use crate::paths::join_under;
use crate::text::split_first;
use crate::text::split_second;
use crate::text::split_two;

verus! {

/// The identity of one remote repository, plus an optional ref.  An empty
/// `refname` means the default branch; only the raw-content fetch uses it.
pub struct Locator {
    pub organization: String,
    pub repository: String,
    pub refname: String,
}

impl Locator {
    /// Organization and repository are non-empty.
    pub open spec fn valid(self) -> bool {
        self.organization@.len() > 0 && self.repository@.len() > 0
    }

    /// Parse `organization/name;ref` — the ref and everything past a
    /// second separator may be missing.  Nothing comes back when the
    /// organization or the repository would be empty.
    pub fn parse(location: &str) -> (r: Option<Locator>)
        ensures
            match r {
                Some(l) => {
                    &&& l.organization@ == split_first(split_first(location@, ';'), '/')
                    &&& l.repository@ == split_second(split_first(location@, ';'), '/')
                    &&& l.refname@ == split_second(location@, ';')
                    &&& l.valid()
                },
                None => split_first(split_first(location@, ';'), '/').len() == 0 || split_second(
                    split_first(location@, ';'),
                    '/',
                ).len() == 0,
            },
    {
        let pieces = split_two(location, ';');
        let repo_part = pieces.0;
        let refname = pieces.1;
        let names = split_two(repo_part.as_str(), '/');
        let organization = names.0;
        let repository = names.1;
        if organization.as_str().unicode_len() == 0 || repository.as_str().unicode_len() == 0 {
            None
        } else {
            Some(Locator { organization, repository, refname })
        }
    }

    /// The repository's path under the storage root: `organization/name`.
    pub fn repo_path(&self) -> (r: String)
        ensures
            r@ == joined(self.organization@, self.repository@),
    {
        join_under(self.organization.as_str(), self.repository.as_str())
    }
}

} // verus!
