//! Applying a mutation plan to a working copy.
//!
//! Steps run strictly in plan order; the first failing step aborts the
//! remainder, and nothing already applied is rolled back — the only remedy
//! is the wipe-and-reclone fallback of the orchestrator.  A remove of an
//! absent path is a non-fatal warning, not a failure.

use vstd::prelude::*;
use vstd::string::*;
use crate::batch::Step;
use crate::batch::StepKind;
use crate::batch::kind_of;
use crate::mirror::Tree;
use crate::mirror::TreeShape;
use crate::mirror::Remote;
use crate::mirror::map_of;
use crate::mirror::cascade;
use crate::outcome::ApplyOutcome;
use crate::outcome::StepDescriptor;
use crate::outcome::SyncError;
use crate::paths::ancestor_set;
use crate::paths::ancestors_of;
use crate::paths::is_safe_rel;
use crate::paths::check_rel_path;

verus! {

/// Why a step failed.
pub enum StepIssue {
    /// The path was empty, absolute or contained a traversal segment.
    BadPath { path: Seq<char> },
    /// A rename whose source is not tracked.
    RenameMissing { from: Seq<char> },
    /// A download whose path the remote does not serve.
    FetchMissing { path: Seq<char> },
}

/// The path a step is primarily about.
pub open spec fn step_primary_path(s: Step) -> Seq<char> {
    match s {
        Step::Create { path, .. } => path@,
        Step::Rename { from, .. } => from@,
        Step::Remove { path } => path@,
        Step::Download { path } => path@,
    }
}

/// The effect of one step on the model: the tree afterwards, and the issue
/// that aborted it, if any.  A failing step leaves the tree unchanged.
pub open spec fn step_spec(t: TreeShape, remote: Map<Seq<char>, Seq<char>>, s: Step) -> (
    TreeShape,
    Option<StepIssue>,
) {
    match s {
        Step::Create { path, content } => {
            if !is_safe_rel(path@) {
                (t, Some(StepIssue::BadPath { path: path@ }))
            } else {
                (
                    TreeShape {
                        files: t.files.insert(path@, content@),
                        dirs: t.dirs.union(ancestor_set(path@)),
                    },
                    None,
                )
            }
        },
        Step::Rename { from, to } => {
            if !is_safe_rel(from@) {
                (t, Some(StepIssue::BadPath { path: from@ }))
            } else if !is_safe_rel(to@) {
                (t, Some(StepIssue::BadPath { path: to@ }))
            } else if !t.files.dom().contains(from@) {
                (t, Some(StepIssue::RenameMissing { from: from@ }))
            } else {
                (
                    TreeShape {
                        files: t.files.remove(from@).insert(to@, t.files[from@]),
                        dirs: t.dirs.union(ancestor_set(to@)),
                    },
                    None,
                )
            }
        },
        Step::Remove { path } => {
            if !is_safe_rel(path@) {
                (t, Some(StepIssue::BadPath { path: path@ }))
            } else if !t.files.dom().contains(path@) {
                (t, None)
            } else {
                (
                    TreeShape {
                        files: t.files.remove(path@),
                        dirs: cascade(
                            TreeShape { files: t.files.remove(path@), dirs: t.dirs },
                            ancestors_of(path@),
                        ),
                    },
                    None,
                )
            }
        },
        Step::Download { path } => {
            if !is_safe_rel(path@) {
                (t, Some(StepIssue::BadPath { path: path@ }))
            } else if !remote.dom().contains(path@) {
                (t, Some(StepIssue::FetchMissing { path: path@ }))
            } else {
                (
                    TreeShape {
                        files: t.files.insert(path@, remote[path@]),
                        dirs: t.dirs.union(ancestor_set(path@)),
                    },
                    None,
                )
            }
        },
    }
}

/// Fail-fast application of `steps[i..]`: the tree after the longest
/// successfully applied prefix, and the index and issue of the first
/// failing step, if any.
pub open spec fn apply_from(
    t: TreeShape,
    remote: Map<Seq<char>, Seq<char>>,
    steps: Seq<Step>,
    i: int,
) -> (TreeShape, Option<(int, StepIssue)>)
    decreases steps.len() - i,
{
    if i < 0 || i >= steps.len() {
        (t, None)
    } else {
        let sr = step_spec(t, remote, steps[i]);
        match sr.1 {
            Some(iss) => (t, Some((i, iss))),
            None => apply_from(sr.0, remote, steps, i + 1),
        }
    }
}

/// Fail-fast application of a whole plan.
pub open spec fn apply_spec(t: TreeShape, remote: Map<Seq<char>, Seq<char>>, steps: Seq<Step>) -> (
    TreeShape,
    Option<(int, StepIssue)>,
) {
    apply_from(t, remote, steps, 0)
}

/// How a reported error value renders a step issue: the taxonomy entry of
/// the issue, carrying the path at fault.
pub open spec fn error_matches(e: SyncError, iss: StepIssue) -> bool {
    match iss {
        StepIssue::BadPath { path } => e matches SyncError::InvalidLocator { detail } && detail@
            == path,
        StepIssue::RenameMissing { from } => e matches SyncError::IoFailure { kind, path } && kind
            == StepKind::Rename && path@ == from,
        StepIssue::FetchMissing { path } => e matches SyncError::DownloadFailed { path: p } && p@
            == path,
    }
}

/// How an `ApplyOutcome` reports the result of a plan: success reports
/// nothing else; a failure names the failed step and carries the error of
/// the matching taxonomy entry.
pub open spec fn outcome_matches(
    r: ApplyOutcome,
    plan: Seq<Step>,
    issue: Option<(int, StepIssue)>,
) -> bool {
    match issue {
        None => r.succeeded && r.failed_step is None && r.error is None,
        Some(pr) => {
            &&& !r.succeeded
            &&& r.failed_step is Some
            &&& r.failed_step->Some_0.kind == kind_of(plan[pr.0])
            &&& r.failed_step->Some_0.path@ == step_primary_path(plan[pr.0])
            &&& r.error is Some
            &&& error_matches(r.error->Some_0, pr.1)
        },
    }
}

/// Law (idempotent remove): removing an absent path is non-fatal — the
/// step leaves the working copy unchanged, raises no issue, and the steps
/// after it apply exactly as if it were not there.
pub proof fn lemma_remove_absent_nonfatal(
    t: TreeShape,
    remote: Map<Seq<char>, Seq<char>>,
    steps: Seq<Step>,
)
    requires
        steps.len() > 0,
        steps[0] matches Step::Remove { path } && is_safe_rel(path@) && !t.files.dom().contains(
            path@,
        ),
    ensures
        step_spec(t, remote, steps[0]).0 == t,
        step_spec(t, remote, steps[0]).1 is None,
        apply_from(t, remote, steps, 0) == apply_from(t, remote, steps, 1),
{
}

/// Law (rename effect): a rename whose source exists moves the content in
/// one step — afterwards the source is gone, the destination holds exactly
/// the source's former content, and every missing ancestor directory of
/// the destination now exists.
pub proof fn lemma_rename_effect(
    t: TreeShape,
    remote: Map<Seq<char>, Seq<char>>,
    from: String,
    to: String,
)
    requires
        is_safe_rel(from@),
        is_safe_rel(to@),
        from@ != to@,
        t.files.dom().contains(from@),
    ensures
        step_spec(t, remote, Step::Rename { from, to }).1 is None,
        !step_spec(t, remote, Step::Rename { from, to }).0.files.dom().contains(from@),
        step_spec(t, remote, Step::Rename { from, to }).0.files.dom().contains(to@),
        step_spec(t, remote, Step::Rename { from, to }).0.files[to@] == t.files[from@],
        ancestor_set(to@).subset_of(step_spec(t, remote, Step::Rename { from, to }).0.dirs),
{
}

/// Law (download failure isolation): a download step that gets no content
/// — an unserved path, a non-success response — aborts with a download
/// failure and writes nothing: the working copy after the step is exactly
/// the working copy before it.
pub proof fn lemma_download_failure_isolation(
    t: TreeShape,
    remote: Map<Seq<char>, Seq<char>>,
    s: Step,
)
    requires
        s matches Step::Download { path },
        step_spec(t, remote, s).1 is Some,
    ensures
        step_spec(t, remote, s).0 == t,
        (s matches Step::Download { path } && is_safe_rel(path@) && !remote.dom().contains(path@))
            ==> step_spec(t, remote, s).1->Some_0 matches StepIssue::FetchMissing { .. },
{
}

/// Apply a plan to the working copy, stopping at the first failure.
#[verifier::loop_isolation(false)]
pub fn apply_plan(tree: &mut Tree, remote: &Remote, plan: &Vec<Step>) -> (r: ApplyOutcome)
    requires
        old(tree).wf(),
        remote.wf(),
    ensures
        final(tree).wf(),
        final(tree)@ == apply_spec(old(tree)@, map_of(remote@.files), plan@).0,
        outcome_matches(r, plan@, apply_spec(old(tree)@, map_of(remote@.files), plan@).1),
{
    let ghost t0 = tree@;
    let ghost rm = map_of(remote@.files);
    let n: usize = plan.len();
    let mut k: usize = 0;
    while k < n
        invariant
            k <= n,
            n == plan@.len(),
            tree.wf(),
            remote.wf(),
            rm == map_of(remote@.files),
            apply_from(t0, rm, plan@, 0) == apply_from(tree@, rm, plan@, k as int),
        decreases n - k,
    {
        let ghost tprev = tree@;
        match &plan[k] {
            Step::Create { path, content } => {
                if !check_rel_path(path.as_str()) {
                    return ApplyOutcome {
                        succeeded: false,
                        failed_step: Some(
                            StepDescriptor { kind: StepKind::Create, path: path.clone() },
                        ),
                        error: Some(SyncError::InvalidLocator { detail: path.clone() }),
                    };
                }
                tree.create_file(path.as_str(), content.as_str());
                proof {
                    assert(step_spec(tprev, rm, plan@[k as int]).1 is None);
                    assert(tree@ == step_spec(tprev, rm, plan@[k as int]).0);
                }
            },
            Step::Rename { from, to } => {
                if !check_rel_path(from.as_str()) {
                    return ApplyOutcome {
                        succeeded: false,
                        failed_step: Some(
                            StepDescriptor { kind: StepKind::Rename, path: from.clone() },
                        ),
                        error: Some(SyncError::InvalidLocator { detail: from.clone() }),
                    };
                }
                if !check_rel_path(to.as_str()) {
                    return ApplyOutcome {
                        succeeded: false,
                        failed_step: Some(
                            StepDescriptor { kind: StepKind::Rename, path: from.clone() },
                        ),
                        error: Some(SyncError::InvalidLocator { detail: to.clone() }),
                    };
                }
                let moved = tree.rename_file(from.as_str(), to.as_str());
                if !moved {
                    return ApplyOutcome {
                        succeeded: false,
                        failed_step: Some(
                            StepDescriptor { kind: StepKind::Rename, path: from.clone() },
                        ),
                        error: Some(
                            SyncError::IoFailure { kind: StepKind::Rename, path: from.clone() },
                        ),
                    };
                }
                proof {
                    assert(step_spec(tprev, rm, plan@[k as int]).1 is None);
                    assert(tree@ == step_spec(tprev, rm, plan@[k as int]).0);
                }
            },
            Step::Remove { path } => {
                if !check_rel_path(path.as_str()) {
                    return ApplyOutcome {
                        succeeded: false,
                        failed_step: Some(
                            StepDescriptor { kind: StepKind::Remove, path: path.clone() },
                        ),
                        error: Some(SyncError::InvalidLocator { detail: path.clone() }),
                    };
                }
                let removed = tree.remove_file(path.as_str());
                proof {
                    assert(step_spec(tprev, rm, plan@[k as int]).1 is None);
                    assert(tree@ == step_spec(tprev, rm, plan@[k as int]).0);
                }
            },
            Step::Download { path } => {
                if !check_rel_path(path.as_str()) {
                    return ApplyOutcome {
                        succeeded: false,
                        failed_step: Some(
                            StepDescriptor { kind: StepKind::Download, path: path.clone() },
                        ),
                        error: Some(SyncError::InvalidLocator { detail: path.clone() }),
                    };
                }
                match remote.raw_content(path.as_str()) {
                    Some(content) => {
                        tree.create_file(path.as_str(), content.as_str());
                        proof {
                            assert(step_spec(tprev, rm, plan@[k as int]).1 is None);
                            assert(tree@ == step_spec(tprev, rm, plan@[k as int]).0);
                        }
                    },
                    None => {
                        return ApplyOutcome {
                            succeeded: false,
                            failed_step: Some(
                                StepDescriptor { kind: StepKind::Download, path: path.clone() },
                            ),
                            error: Some(SyncError::DownloadFailed { path: path.clone() }),
                        };
                    },
                }
            },
        }
        k = k + 1;
    }
    ApplyOutcome { succeeded: true, failed_step: None, error: None }
}

} // verus!
