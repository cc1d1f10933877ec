//! The orchestrator: the two externally observable operations.
//!
//! `sync_batch` resolves the working copy (cloning on demand), applies the
//! batch only when the copy pre-existed, and on any step failure falls back
//! to a full wipe-and-reclone; `force_reclone` (in the companion module of
//! resolver helpers) wipes unconditionally first.  Partial application is
//! never reported: the caller sees full success, success via fresh clone,
//! or a typed failure plus what recovery achieved.

use vstd::prelude::*;
use crate::apply::StepIssue;
use crate::apply::apply_plan;
use crate::apply::apply_spec;
use crate::apply::error_matches;
use crate::batch::Payload;
use crate::batch::Step;
use crate::batch::build_plan;
use crate::batch::plan_of;
use crate::mirror::RemoteShape;
use crate::mirror::Remote;
use crate::mirror::Tree;
use crate::mirror::TreeShape;
use crate::mirror::clone_shape;
use crate::mirror::map_of;
use crate::outcome::RecoveryOutcome;
use crate::outcome::SyncError;
use crate::outcome::SyncResult;

verus! {

/// The local working copy of one repository: either absent from disk, or
/// present with the modeled tree.
pub struct WorkingCopy {
    present: bool,
    tree: Tree,
}

impl View for WorkingCopy {
    type V = Option<TreeShape>;

    closed spec fn view(&self) -> Option<TreeShape> {
        if self.present {
            Some(self.tree@)
        } else {
            None
        }
    }
}

impl WorkingCopy {
    /// The held tree is well formed.
    pub closed spec fn wf(self) -> bool {
        self.tree.wf()
    }

    /// A working copy that does not exist yet.
    pub fn absent() -> (r: WorkingCopy)
        ensures
            r.wf(),
            r@ is None,
    {
        WorkingCopy { present: false, tree: Tree::new() }
    }

    /// A working copy holding `t`.
    pub fn from_tree(t: Tree) -> (r: WorkingCopy)
        requires
            t.wf(),
        ensures
            r.wf(),
            r@ == Some(t@),
    {
        WorkingCopy { present: true, tree: t }
    }

    /// Whether the working copy exists.
    pub fn is_present(&self) -> (b: bool)
        ensures
            b == (self@ is Some),
    {
        self.present
    }

    /// Replace the working copy by `t`.
    pub fn set_tree(&mut self, t: Tree)
        requires
            t.wf(),
        ensures
            final(self).wf(),
            final(self)@ == Some(t@),
    {
        self.present = true;
        self.tree = t;
    }

    /// Delete the working copy entirely.
    pub fn wipe(&mut self)
        ensures
            final(self).wf(),
            final(self)@ is None,
    {
        self.present = false;
        self.tree = Tree::new();
    }

    /// Whether the working copy exists and tracks `path`.
    pub fn has_file(&self, path: &str) -> (b: bool)
        ensures
            b == (self@ is Some && self@->Some_0.files.dom().contains(path@)),
    {
        self.present && self.tree.has_file(path)
    }

    /// Whether the working copy exists and holds directory `d`.
    pub fn has_dir(&self, d: &str) -> (b: bool)
        ensures
            b == (self@ is Some && self@->Some_0.dirs.contains(d@)),
    {
        self.present && self.tree.has_dir(d)
    }

    /// The tracked content of `path`, when the copy exists and tracks it.
    pub fn file_content(&self, path: &str) -> (r: Option<String>)
        requires
            self.wf(),
        ensures
            match r {
                Some(c) => self@ is Some && self@->Some_0.files.dom().contains(path@) && c@
                    == self@->Some_0.files[path@],
                None => !(self@ is Some && self@->Some_0.files.dom().contains(path@)),
            },
    {
        if self.present {
            self.tree.file_content(path)
        } else {
            None
        }
    }
}

/// The abstract outcome of one orchestration call.
pub enum SyncVerdict {
    /// The batch was applied in full.
    Synced,
    /// The copy was freshly cloned; the batch was skipped.
    SkippedFreshClone,
    /// The copy was absent and the remote could not be cloned.
    FailedClone,
    /// Step `at` failed; the wipe-and-reclone fallback restored the copy.
    Recovered { at: int, issue: StepIssue },
    /// Step `at` failed and the re-clone failed too; the copy is gone.
    FailedRecovery { at: int, issue: StepIssue },
}

/// What one orchestration call does to the working copy, and what it
/// reports: resolve (clone on demand, skipping the batch after a fresh
/// clone), apply in plan order, and on failure wipe and re-clone.
pub open spec fn sync_spec(
    local: Option<TreeShape>,
    remote: RemoteShape,
    plan: Seq<Step>,
) -> (Option<TreeShape>, SyncVerdict) {
    match local {
        None => {
            if remote.available {
                (Some(clone_shape(remote.files)), SyncVerdict::SkippedFreshClone)
            } else {
                (None, SyncVerdict::FailedClone)
            }
        },
        Some(t) => {
            let ar = apply_spec(t, map_of(remote.files), plan);
            match ar.1 {
                None => (Some(ar.0), SyncVerdict::Synced),
                Some(pr) => {
                    if remote.available {
                        (
                            Some(clone_shape(remote.files)),
                            SyncVerdict::Recovered { at: pr.0, issue: pr.1 },
                        )
                    } else {
                        (None, SyncVerdict::FailedRecovery { at: pr.0, issue: pr.1 })
                    }
                },
            }
        },
    }
}

/// How the reported `SyncResult` value renders the abstract verdict.
pub open spec fn result_matches(r: SyncResult, plan: Seq<Step>, v: SyncVerdict) -> bool {
    match v {
        SyncVerdict::Synced => r is Synced,
        SyncVerdict::SkippedFreshClone => r is SkippedFreshClone,
        SyncVerdict::FailedClone => r matches SyncResult::Failed { error, recovery } && error
            is CloneFailed && recovery == RecoveryOutcome::NotAttempted,
        SyncVerdict::Recovered { at, issue } => r matches SyncResult::Recovered { error }
            && error_matches(error, issue),
        SyncVerdict::FailedRecovery { at, issue } => r matches SyncResult::Failed {
            error,
            recovery,
        } && error_matches(error, issue) && recovery == RecoveryOutcome::RecloneFailed,
    }
}

/// Synchronize one batch against the working copy of one repository.
pub fn sync_batch(local: &mut WorkingCopy, remote: &Remote, payload: &Payload) -> (r: SyncResult)
    requires
        old(local).wf(),
        remote.wf(),
    ensures
        final(local).wf(),
        final(local)@ == sync_spec(old(local)@, remote@, plan_of(*payload)).0,
        result_matches(r, plan_of(*payload), sync_spec(old(local)@, remote@, plan_of(*payload)).1),
{
    if !local.is_present() {
        if remote.is_available() {
            let t = remote.clone_tree();
            local.set_tree(t);
            SyncResult::SkippedFreshClone
        } else {
            SyncResult::Failed {
                error: SyncError::CloneFailed,
                recovery: RecoveryOutcome::NotAttempted,
            }
        }
    } else {
        let plan = build_plan(payload);
        let out = apply_plan(&mut local.tree, remote, &plan);
        if out.succeeded {
            SyncResult::Synced
        } else {
            match out.error {
                Some(e) => {
                    if remote.is_available() {
                        let t = remote.clone_tree();
                        local.set_tree(t);
                        SyncResult::Recovered { error: e }
                    } else {
                        local.wipe();
                        SyncResult::Failed { error: e, recovery: RecoveryOutcome::RecloneFailed }
                    }
                },
                None => vstd::pervasive::unreached(),
            }
        }
    }
}

/// Law (clone skip): with the working copy absent and the remote
/// available, synchronizing any batch produces exactly the fresh clone and
/// reports the skip; no entry of the batch is written — two calls with any
/// two batches end in the very same state and verdict.
pub proof fn lemma_clone_skip(remote: RemoteShape, plan: Seq<Step>, plan2: Seq<Step>)
    requires
        remote.available,
    ensures
        sync_spec(None, remote, plan).0 == Some(clone_shape(remote.files)),
        sync_spec(None, remote, plan).1 == SyncVerdict::SkippedFreshClone,
        sync_spec(None, remote, plan) == sync_spec(None, remote, plan2),
{
}

/// Law (no partial state): whatever one orchestration call reports, the
/// working copy it leaves behind is never partially mutated.  It is
/// absent, or exactly a fresh clone of the remote, or — only when the
/// call reports full success — the old tree with the whole plan applied.
pub proof fn lemma_no_partial_state(
    local: Option<TreeShape>,
    remote: RemoteShape,
    plan: Seq<Step>,
)
    ensures
        ({
            let after = sync_spec(local, remote, plan).0;
            ||| after is None
            ||| after == Some(clone_shape(remote.files))
            ||| (local is Some && sync_spec(local, remote, plan).1 is Synced && after == Some(
                apply_spec(local->Some_0, map_of(remote.files), plan).0,
            ))
        }),
{
}

/// Law (recovery round trip): when a batch fails and the fallback clone
/// succeeds, the working copy is exactly a fresh clone of the remote, and
/// a following call with an empty batch succeeds in place — no further
/// clone, the copy unchanged.
pub proof fn lemma_recovery_round_trip(local: TreeShape, remote: RemoteShape, plan: Seq<Step>)
    requires
        sync_spec(Some(local), remote, plan).1 matches SyncVerdict::Recovered { .. },
    ensures
        sync_spec(Some(local), remote, plan).0 == Some(clone_shape(remote.files)),
        sync_spec(sync_spec(Some(local), remote, plan).0, remote, Seq::<Step>::empty()).1
            is Synced,
        sync_spec(sync_spec(Some(local), remote, plan).0, remote, Seq::<Step>::empty()).0
            == sync_spec(Some(local), remote, plan).0,
{
}

} // verus!
