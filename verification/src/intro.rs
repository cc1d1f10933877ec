//! The plain resolver used by the single-file endpoints: ensure a working
//! copy exists, cloning on demand, reporting only presence and whether
//! this call cloned.

use vstd::prelude::*;
use crate::mirror::Remote;
use crate::mirror::clone_shape;
use crate::sync::WorkingCopy;

verus! {

/// Whether a working copy is present, and whether this call cloned it.
pub struct Status {
    pub ok: bool,
    pub cloned: bool,
}

/// Ensure a working copy exists; clone from the remote when absent.
pub fn validate_repo(local: &mut WorkingCopy, remote: &Remote) -> (r: Status)
    requires
        old(local).wf(),
        remote.wf(),
    ensures
        final(local).wf(),
        old(local)@ is Some ==> final(local)@ == old(local)@ && r.ok && !r.cloned,
        old(local)@ is None && remote@.available ==> final(local)@ == Some(
            clone_shape(remote@.files),
        ) && r.ok && r.cloned,
        old(local)@ is None && !remote@.available ==> final(local)@ is None && !r.ok && !r.cloned,
{
    if local.is_present() {
        Status { ok: true, cloned: false }
    } else if remote.is_available() {
        let t = remote.clone_tree();
        local.set_tree(t);
        Status { ok: true, cloned: true }
    } else {
        Status { ok: false, cloned: false }
    }
}

} // verus!
