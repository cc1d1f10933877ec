//! Token verification for the single-file upload and delete entry points,
//! whose location header carries the repository and then the file path.

use vstd::prelude::*;
use vstd::string::*;
use crate::auth::bearer_of;
use crate::auth::location_view;
use crate::text::split_first;
use crate::text::split_second;
use crate::text::split_two;

verus! {

/// The verdict of the token check, with the parsed repository and the
/// addressed file path.
pub struct AuthResponse {
    pub ok: bool,
    pub path: String,
    pub repository: String,
}

/// Verify the presented header against the configured token.  Only an
/// exact `Bearer <token>` match passes; the repository and file path are
/// the first two semicolon-separated fields of the location header, each
/// empty when missing.
pub fn verify_token(
    authorization: Option<&String>,
    token: &String,
    location: Option<&String>,
) -> (r: AuthResponse)
    ensures
        r.ok == (authorization matches Some(h) && h@ == bearer_of(token@)),
        !r.ok ==> r.repository@.len() == 0 && r.path@.len() == 0,
        r.ok ==> r.repository@ == split_first(location_view(location), ';') && r.path@
            == split_second(location_view(location), ';'),
{
    match authorization {
        Some(h) => {
            let mut expected: String = ("Bearer ").to_owned();
            expected.append(token.as_str());
            if *h == expected {
                let loc: &str = match location {
                    Some(l) => l.as_str(),
                    None => "",
                };
                proof {
                    reveal_strlit("");
                    assert(loc@ =~= location_view(location));
                }
                let pieces = split_two(loc, ';');
                AuthResponse { ok: true, repository: pieces.0, path: pieces.1 }
            } else {
                AuthResponse { ok: false, path: String::new(), repository: String::new() }
            }
        },
        None => AuthResponse { ok: false, path: String::new(), repository: String::new() },
    }
}

} // verus!
