//! Resolver and recovery helpers: ensure a working copy exists (cloning on
//! demand), wipe-and-reclone after a failed batch, delete one file with the
//! empty-directory cascade, and the exact command and URL strings handed to
//! the external clone and fetch operations.

use vstd::prelude::*;
use vstd::string::*;
use crate::mirror::Remote;
use crate::mirror::Tree;
use crate::mirror::cascade;
use crate::mirror::clone_shape;
use crate::mirror::TreeShape;
use crate::paths::ancestors_of;
use crate::paths::is_safe_rel;
use crate::sync::WorkingCopy;

verus! {

/// What resolving a repository reported: whether a working copy is
/// present, whether this very call cloned it, and a diagnostic line.
pub struct Status {
    pub ok: bool,
    pub cloned: bool,
    pub response: String,
}

/// Ensure a working copy exists.  An existing copy is taken as-is — its
/// contents are not validated; an absent one is cloned from the remote.
/// `cloned` is the significant signal: a batch must not be applied to a
/// copy this call freshly cloned.
pub fn validate_repo(local: &mut WorkingCopy, remote: &Remote) -> (r: Status)
    requires
        old(local).wf(),
        remote.wf(),
    ensures
        final(local).wf(),
        old(local)@ is Some ==> final(local)@ == old(local)@ && r.ok && !r.cloned && r.response@
            == "repository exists"@,
        old(local)@ is None && remote@.available ==> final(local)@ == Some(
            clone_shape(remote@.files),
        ) && r.ok && r.cloned && r.response@ == "cloned repository"@,
        old(local)@ is None && !remote@.available ==> final(local)@ is None && !r.ok && !r.cloned
            && r.response@ == "failed to clone repository"@,
{
    if local.is_present() {
        Status { ok: true, cloned: false, response: ("repository exists").to_owned() }
    } else if remote.is_available() {
        let t = remote.clone_tree();
        local.set_tree(t);
        Status { ok: true, cloned: true, response: ("cloned repository").to_owned() }
    } else {
        Status { ok: false, cloned: false, response: ("failed to clone repository").to_owned() }
    }
}

/// The wipe-and-reclone fallback, invoked when applying a batch failed:
/// delete the whole working copy, then resolve again.  Reports whether the
/// copy was restored; when the remote is unavailable the copy stays gone.
pub fn fallback_clone(local: &mut WorkingCopy, remote: &Remote) -> (recovered: bool)
    requires
        old(local).wf(),
        remote.wf(),
    ensures
        final(local).wf(),
        final(local)@ == (if remote@.available {
            Some(clone_shape(remote@.files))
        } else {
            Option::<TreeShape>::None
        }),
        recovered == remote@.available,
{
    local.wipe();
    let st = validate_repo(local, remote);
    st.ok && st.cloned
}

/// Force a re-clone: delete any existing working copy unconditionally,
/// then clone afresh — the client-requested reset, distinct from the
/// failure-triggered fallback.
pub fn force_reclone(local: &mut WorkingCopy, remote: &Remote) -> (r: Status)
    requires
        old(local).wf(),
        remote.wf(),
    ensures
        final(local).wf(),
        final(local)@ == (if remote@.available {
            Some(clone_shape(remote@.files))
        } else {
            Option::<TreeShape>::None
        }),
        r.ok == remote@.available,
        r.cloned == remote@.available,
{
    local.wipe();
    validate_repo(local, remote)
}

/// Delete one file, then delete each ancestor directory the removal left
/// empty, never the root.  An absent file is a warning, not a failure:
/// the pair carries a status code — 200 deleted, 404 not found — and a
/// diagnostic line naming the path.
pub fn delete_file(tree: &mut Tree, path: &str) -> (r: (u16, String))
    requires
        old(tree).wf(),
        is_safe_rel(path@),
    ensures
        final(tree).wf(),
        (r.0 == 200) == old(tree)@.files.dom().contains(path@),
        r.0 == 200 || r.0 == 404,
        r.0 == 404 ==> final(tree)@ == old(tree)@ && r.1@ == "file not found: "@ + path@,
        r.0 == 200 ==> final(tree)@.files == old(tree)@.files.remove(path@) && final(tree)@.dirs
            == cascade(
            TreeShape { files: old(tree)@.files.remove(path@), dirs: old(tree)@.dirs },
            ancestors_of(path@),
        ) && r.1@ == "deleted file "@ + path@,
{
    if tree.remove_file(path) {
        let mut msg: String = ("deleted file ").to_owned();
        msg.append(path);
        (200, msg)
    } else {
        let mut msg: String = ("file not found: ").to_owned();
        msg.append(path);
        (404, msg)
    }
}

/// The shell command the resolver hands to the external version-control
/// client: enter the organization directory under the storage root, then
/// clone the repository from the remote host.
pub open spec fn clone_command_spec(storage: Seq<char>, org: Seq<char>, repo: Seq<char>) -> Seq<
    char,
> {
    "cd "@ + storage + "/"@ + org + " && git clone https://github.com/"@ + org + "/"@ + repo
        + ".git"@
}

/// Render the clone command for a repository.
pub fn clone_command(storage: &str, org: &str, repo: &str) -> (r: String)
    ensures
        r@ == clone_command_spec(storage@, org@, repo@),
{
    let mut s: String = ("cd ").to_owned();
    s.append(storage);
    s.append("/");
    s.append(org);
    s.append(" && git clone https://github.com/");
    s.append(org);
    s.append("/");
    s.append(repo);
    s.append(".git");
    s
}

/// The well-known raw-content URL a download step fetches: the remote
/// host's raw endpoint, then repository, ref and path.
pub open spec fn raw_url_spec(repository: Seq<char>, branch: Seq<char>, path: Seq<char>) -> Seq<
    char,
> {
    "https://raw.githubusercontent.com/"@ + repository + "/"@ + branch + "/"@ + path
}

/// Render the raw-content URL for one file.
pub fn raw_content_url(repository: &str, branch: &str, path: &str) -> (r: String)
    ensures
        r@ == raw_url_spec(repository@, branch@, path@),
{
    let mut s: String = ("https://raw.githubusercontent.com/").to_owned();
    s.append(repository);
    s.append("/");
    s.append(branch);
    s.append("/");
    s.append(path);
    s
}

} // verus!
