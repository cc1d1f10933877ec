//! Outcome and error values the engine reports.
//!
//! Every failure a mutation batch can hit is classified here; the caller
//! ultimately sees one of three shapes — full success, success via a fresh
//! clone (batch skipped), or a typed failure together with what recovery
//! was attempted.

use vstd::prelude::*;
use vstd::string::*;
use crate::batch::StepKind;

verus! {

/// The failure taxonomy of the engine.
pub enum SyncError {
    /// A path of the batch was rejected before any filesystem effect: it
    /// was empty, absolute, or contained a traversal segment.
    InvalidLocator { detail: String },
    /// The working copy was absent and could not be (re)created.
    CloneFailed,
    /// A create, rename or remove step failed; carries the step kind and
    /// the path at fault.
    IoFailure { kind: StepKind, path: String },
    /// A download step got no content for the path: a network or
    /// non-success response, kept apart from local failures.
    DownloadFailed { path: String },
    /// The wipe of the working copy itself failed, leaving the mirror in a
    /// partially-mutated state; the most severe outcome.
    RecoveryFailed,
}

/// Which step of a plan failed.
pub struct StepDescriptor {
    pub kind: StepKind,
    pub path: String,
}

/// The result of applying one batch against a present working copy.
pub struct ApplyOutcome {
    pub succeeded: bool,
    pub failed_step: Option<StepDescriptor>,
    pub error: Option<SyncError>,
}

/// What became of recovery after a failed batch.
#[derive(Clone, Copy, PartialEq, Eq, Structural, Debug)]
pub enum RecoveryOutcome {
    /// No recovery was needed or possible before the failure.
    NotAttempted,
    /// The working copy could not be deleted; it keeps its partial state.
    WipeFailed,
    /// The working copy was deleted but could not be cloned again.
    RecloneFailed,
}

/// What the caller of the engine sees.
pub enum SyncResult {
    /// The batch was applied in full.
    Synced,
    /// The working copy was freshly cloned, so the batch was deliberately
    /// skipped: the clone already reflects the remote state.
    SkippedFreshClone,
    /// A step failed, and the wipe-and-reclone fallback restored the
    /// working copy; the original error is kept for diagnosis.
    Recovered { error: SyncError },
    /// A step or the resolution failed and the mirror was not restored.
    Failed { error: SyncError, recovery: RecoveryOutcome },
}

/// The name of a step kind.
pub open spec fn kind_name(k: StepKind) -> Seq<char> {
    match k {
        StepKind::Create => "create"@,
        StepKind::Rename => "rename"@,
        StepKind::Remove => "remove"@,
        StepKind::Download => "download"@,
    }
}

/// The text `describe` renders for an error.
pub open spec fn describe_spec(e: SyncError) -> Seq<char> {
    match e {
        SyncError::InvalidLocator { detail } => "invalid path in batch: "@ + detail@,
        SyncError::CloneFailed => "unable to locate or clone repository in data source"@,
        SyncError::IoFailure { kind, path } => "io failure in "@ + kind_name(kind) + " step: "@
            + path@,
        SyncError::DownloadFailed { path } => "error downloading file: "@ + path@,
        SyncError::RecoveryFailed => "failed to restore the working copy; it may be partially mutated"@,
    }
}

impl SyncError {
    /// A one-line rendering of the error for logs and responses.
    pub fn describe(&self) -> (r: String)
        ensures
            r@ == describe_spec(*self),
    {
        match self {
            SyncError::InvalidLocator { detail } => {
                let mut s: String = ("invalid path in batch: ").to_owned();
                s.append(detail.as_str());
                s
            },
            SyncError::CloneFailed => {
                ("unable to locate or clone repository in data source").to_owned()
            },
            SyncError::IoFailure { kind, path } => {
                let mut s: String = ("io failure in ").to_owned();
                match kind {
                    StepKind::Create => s.append("create"),
                    StepKind::Rename => s.append("rename"),
                    StepKind::Remove => s.append("remove"),
                    StepKind::Download => s.append("download"),
                }
                s.append(" step: ");
                s.append(path.as_str());
                s
            },
            SyncError::DownloadFailed { path } => {
                let mut s: String = ("error downloading file: ").to_owned();
                s.append(path.as_str());
                s
            },
            SyncError::RecoveryFailed => {
                ("failed to restore the working copy; it may be partially mutated").to_owned()
            },
        }
    }
}

} // verus!
