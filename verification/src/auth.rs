//! Token verification for the batch and re-clone entry points.
//!
//! The transport layer hands over the raw `authorization` header, the
//! expected token, and the raw `content-location` header; the check is a
//! plain string comparison against `Bearer <token>`, and on success the
//! location is split at its first two semicolons into the repository
//! (`organization/name`) and the ref.

use vstd::prelude::*;
use vstd::string::*;
use crate::text::split_first;
use crate::text::split_second;
use crate::text::split_two;

verus! {

/// The verdict of the token check, with the parsed repository and ref.
pub struct AuthResponse {
    pub ok: bool,
    pub repository: String,
    pub branch: String,
}

/// The exact header value a holder of `token` must present.
pub open spec fn bearer_of(token: Seq<char>) -> Seq<char> {
    "Bearer "@ + token
}

/// The location header's text; a missing or unreadable header counts as
/// empty.
pub open spec fn location_view(location: Option<&String>) -> Seq<char> {
    match location {
        Some(l) => l@,
        None => Seq::<char>::empty(),
    }
}

/// Verify the presented header against the configured token.  Only an
/// exact `Bearer <token>` match passes; the repository and ref are the
/// first two semicolon-separated fields of the location header, each empty
/// when missing.
pub fn verify_token(
    authorization: Option<&String>,
    token: &String,
    location: Option<&String>,
) -> (r: AuthResponse)
    ensures
        r.ok == (authorization matches Some(h) && h@ == bearer_of(token@)),
        !r.ok ==> r.repository@.len() == 0 && r.branch@.len() == 0,
        r.ok ==> r.repository@ == split_first(location_view(location), ';') && r.branch@
            == split_second(location_view(location), ';'),
{
    match authorization {
        Some(h) => {
            let mut expected: String = ("Bearer ").to_owned();
            expected.append(token.as_str());
            if *h == expected {
                let loc: &str = match location {
                    Some(l) => l.as_str(),
                    None => "",
                };
                proof {
                    reveal_strlit("");
                    assert(loc@ =~= location_view(location));
                }
                let pieces = split_two(loc, ';');
                AuthResponse { ok: true, repository: pieces.0, branch: pieces.1 }
            } else {
                AuthResponse { ok: false, repository: String::new(), branch: String::new() }
            }
        },
        None => AuthResponse { ok: false, repository: String::new(), branch: String::new() },
    }
}

} // verus!
