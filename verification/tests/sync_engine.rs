use github::batch::Payload;
use github::helper::force_reclone;
use github::helper::validate_repo;
use github::mirror::Remote;
use github::outcome::RecoveryOutcome;
use github::outcome::SyncError;
use github::outcome::SyncResult;
use github::sync::sync_batch;
use github::sync::WorkingCopy;

fn sample_remote() -> Remote {
    let mut remote = Remote::new(true);
    assert!(remote.add_file("README.md", "hello"));
    assert!(remote.add_file("src/main.py", "print('hi')"));
    remote
}

fn cloned_copy(remote: &Remote) -> WorkingCopy {
    let mut wc = WorkingCopy::absent();
    let st = validate_repo(&mut wc, remote);
    assert!(st.ok && st.cloned);
    wc
}

fn empty_payload() -> Payload {
    Payload::empty()
}

#[test]
fn clone_skip_invariant() {
    // Absent working copy: the batch must be skipped, the clone kept.
    let remote = sample_remote();
    let mut wc = WorkingCopy::absent();
    let payload = Payload {
        create: vec![("newfile.txt".to_string(), "data".to_string())],
        modify: Vec::new(),
        remove: vec!["README.md".to_string()],
        download: Vec::new(),
    };
    let r = sync_batch(&mut wc, &remote, &payload);
    assert!(matches!(r, SyncResult::SkippedFreshClone));
    assert!(wc.has_file("README.md"));
    assert!(wc.has_file("src/main.py"));
    assert!(!wc.has_file("newfile.txt"));
}

#[test]
fn order_invariant_create_then_remove() {
    // Create and remove of the same path in one batch: the fixed order is
    // create first, remove second, so the file ends up gone.
    let remote = sample_remote();
    let mut wc = cloned_copy(&remote);
    let payload = Payload {
        create: vec![("a/b.txt".to_string(), "text".to_string())],
        modify: Vec::new(),
        remove: vec!["a/b.txt".to_string()],
        download: Vec::new(),
    };
    let r = sync_batch(&mut wc, &remote, &payload);
    assert!(matches!(r, SyncResult::Synced));
    assert!(!wc.has_file("a/b.txt"));
    assert!(!wc.has_dir("a"));
    assert!(wc.has_file("README.md"));
}

#[test]
fn cascade_bound_removes_empty_ancestors_only() {
    let mut remote = Remote::new(true);
    assert!(remote.add_file("x/y/z/file.txt", "only one"));
    let mut wc = cloned_copy(&remote);
    assert!(wc.has_dir("x") && wc.has_dir("x/y") && wc.has_dir("x/y/z"));
    let payload = Payload {
        create: Vec::new(),
        modify: Vec::new(),
        remove: vec!["x/y/z/file.txt".to_string()],
        download: Vec::new(),
    };
    let r = sync_batch(&mut wc, &remote, &payload);
    assert!(matches!(r, SyncResult::Synced));
    assert!(!wc.has_file("x/y/z/file.txt"));
    // The whole newly-empty chain is gone ...
    assert!(!wc.has_dir("x/y/z"));
    assert!(!wc.has_dir("x/y"));
    assert!(!wc.has_dir("x"));
    // ... but the working copy itself survives, however empty.
    assert!(wc.is_present());
}

#[test]
fn cascade_stops_at_first_non_empty_ancestor() {
    let mut remote = Remote::new(true);
    assert!(remote.add_file("x/y/a.txt", "deep"));
    assert!(remote.add_file("x/b.txt", "shallow"));
    let mut wc = cloned_copy(&remote);
    let payload = Payload {
        create: Vec::new(),
        modify: Vec::new(),
        remove: vec!["x/y/a.txt".to_string()],
        download: Vec::new(),
    };
    let r = sync_batch(&mut wc, &remote, &payload);
    assert!(matches!(r, SyncResult::Synced));
    assert!(!wc.has_dir("x/y"));
    assert!(wc.has_dir("x"));
    assert!(wc.has_file("x/b.txt"));
}

#[test]
fn idempotent_remove_continues_batch() {
    // Removing an absent path is a warning, not an abort: the later create
    // still runs and the batch reports success.
    let remote = sample_remote();
    let mut wc = cloned_copy(&remote);
    let payload = Payload {
        create: vec![("after.txt".to_string(), "kept".to_string())],
        modify: Vec::new(),
        remove: vec!["ghost.txt".to_string()],
        download: Vec::new(),
    };
    let r = sync_batch(&mut wc, &remote, &payload);
    assert!(matches!(r, SyncResult::Synced));
    assert!(wc.has_file("after.txt"));
}

#[test]
fn recovery_round_trip() {
    // A failure mid-batch wipes the copy and re-clones it; everything the
    // batch had already written is discarded, and a following empty batch
    // succeeds without another clone.
    let remote = sample_remote();
    let mut wc = cloned_copy(&remote);
    let payload = Payload {
        create: vec![("tmp.txt".to_string(), "partial".to_string())],
        modify: vec![("missing-source.txt".to_string(), "anywhere.txt".to_string())],
        remove: Vec::new(),
        download: Vec::new(),
    };
    let r = sync_batch(&mut wc, &remote, &payload);
    match r {
        SyncResult::Recovered { error } => match error {
            SyncError::IoFailure { path, .. } => assert_eq!(path, "missing-source.txt"),
            other => panic!("unexpected error: {}", other.describe()),
        },
        _ => panic!("expected recovery"),
    }
    // The copy equals a fresh clone: the partial create is gone.
    assert!(!wc.has_file("tmp.txt"));
    assert!(wc.has_file("README.md"));
    let r2 = sync_batch(&mut wc, &remote, &empty_payload());
    assert!(matches!(r2, SyncResult::Synced));
    assert!(wc.has_file("README.md"));
}

#[test]
fn rename_atomicity() {
    let remote = sample_remote();
    let mut wc = cloned_copy(&remote);
    let setup = Payload {
        create: vec![("old.txt".to_string(), "the very bytes".to_string())],
        modify: Vec::new(),
        remove: Vec::new(),
        download: Vec::new(),
    };
    assert!(matches!(sync_batch(&mut wc, &remote, &setup), SyncResult::Synced));
    let payload = Payload {
        create: Vec::new(),
        modify: vec![("old.txt".to_string(), "new/old.txt".to_string())],
        remove: Vec::new(),
        download: Vec::new(),
    };
    let r = sync_batch(&mut wc, &remote, &payload);
    assert!(matches!(r, SyncResult::Synced));
    assert!(!wc.has_file("old.txt"));
    assert!(wc.has_dir("new"));
    assert_eq!(wc.file_content("new/old.txt").unwrap(), "the very bytes");
}

#[test]
fn download_failure_isolation() {
    // The remote does not serve the path: the step fails as a download
    // failure, recovery runs, and no partially-written file remains.
    let remote = sample_remote();
    let mut wc = cloned_copy(&remote);
    let payload = Payload {
        create: Vec::new(),
        modify: Vec::new(),
        remove: Vec::new(),
        download: vec!["assets/img.png".to_string()],
    };
    let r = sync_batch(&mut wc, &remote, &payload);
    match r {
        SyncResult::Recovered { error } => match error {
            SyncError::DownloadFailed { path } => assert_eq!(path, "assets/img.png"),
            other => panic!("unexpected error: {}", other.describe()),
        },
        _ => panic!("expected recovery"),
    }
    assert!(!wc.has_file("assets/img.png"));
    assert!(!wc.has_dir("assets"));
    assert!(wc.has_file("README.md"));
}

#[test]
fn download_success_writes_remote_content() {
    let mut remote = sample_remote();
    assert!(remote.add_file("assets/logo.svg", "<svg/>"));
    let mut wc = WorkingCopy::absent();
    assert!(validate_repo(&mut wc, &remote).ok);
    // Drop the file locally, then have the batch fetch it again.
    let payload = Payload {
        create: Vec::new(),
        modify: Vec::new(),
        remove: vec!["assets/logo.svg".to_string()],
        download: vec!["assets/logo.svg".to_string()],
    };
    let r = sync_batch(&mut wc, &remote, &payload);
    assert!(matches!(r, SyncResult::Synced));
    assert_eq!(wc.file_content("assets/logo.svg").unwrap(), "<svg/>");
}

#[test]
fn full_batch_applies_in_kind_order() {
    let mut remote = sample_remote();
    assert!(remote.add_file("assets/dl.bin", "binary-ish"));
    let mut wc = cloned_copy(&remote);
    // Drop the downloadable locally so the download step has work to do.
    let prep = Payload {
        create: Vec::new(),
        modify: Vec::new(),
        remove: vec!["assets/dl.bin".to_string()],
        download: Vec::new(),
    };
    assert!(matches!(sync_batch(&mut wc, &remote, &prep), SyncResult::Synced));
    // One batch of all four kinds: the create lands before the rename sees
    // it, the remove and the download run last.
    let payload = Payload {
        create: vec![("a.txt".to_string(), "fresh".to_string())],
        modify: vec![("a.txt".to_string(), "b/a.txt".to_string())],
        remove: vec!["README.md".to_string()],
        download: vec!["assets/dl.bin".to_string()],
    };
    let r = sync_batch(&mut wc, &remote, &payload);
    assert!(matches!(r, SyncResult::Synced));
    assert!(!wc.has_file("a.txt"));
    assert_eq!(wc.file_content("b/a.txt").unwrap(), "fresh");
    assert!(!wc.has_file("README.md"));
    assert_eq!(wc.file_content("assets/dl.bin").unwrap(), "binary-ish");
}

#[test]
fn clone_failure_when_remote_unavailable() {
    let remote = Remote::new(false);
    let mut wc = WorkingCopy::absent();
    let r = sync_batch(&mut wc, &remote, &empty_payload());
    match r {
        SyncResult::Failed { error, recovery } => {
            assert!(matches!(error, SyncError::CloneFailed));
            assert_eq!(recovery, RecoveryOutcome::NotAttempted);
        },
        _ => panic!("expected failure"),
    }
    assert!(!wc.is_present());
}

#[test]
fn failed_recovery_leaves_copy_gone() {
    // The copy exists, the batch fails, and the remote can no longer be
    // cloned: the original error surfaces and the copy stays deleted.
    let remote = sample_remote();
    let mut wc = cloned_copy(&remote);
    let gone = Remote::new(false);
    let payload = Payload {
        create: Vec::new(),
        modify: vec![("missing.txt".to_string(), "elsewhere.txt".to_string())],
        remove: Vec::new(),
        download: Vec::new(),
    };
    let r = sync_batch(&mut wc, &gone, &payload);
    match r {
        SyncResult::Failed { error, recovery } => {
            assert!(matches!(error, SyncError::IoFailure { .. }));
            assert_eq!(recovery, RecoveryOutcome::RecloneFailed);
        },
        _ => panic!("expected failure"),
    }
    assert!(!wc.is_present());
}

#[test]
fn traversal_path_is_rejected() {
    let remote = sample_remote();
    let mut wc = cloned_copy(&remote);
    let payload = Payload {
        create: vec![("../evil.txt".to_string(), "no".to_string())],
        modify: Vec::new(),
        remove: Vec::new(),
        download: Vec::new(),
    };
    let r = sync_batch(&mut wc, &remote, &payload);
    match r {
        SyncResult::Recovered { error } => match error {
            SyncError::InvalidLocator { detail } => assert_eq!(detail, "../evil.txt"),
            other => panic!("unexpected error: {}", other.describe()),
        },
        _ => panic!("expected the path to be rejected"),
    }
    assert!(wc.has_file("README.md"));
}

#[test]
fn force_reclone_discards_drift() {
    let remote = sample_remote();
    let mut wc = cloned_copy(&remote);
    let drift = Payload {
        create: vec![("stray.txt".to_string(), "drift".to_string())],
        modify: Vec::new(),
        remove: Vec::new(),
        download: Vec::new(),
    };
    assert!(matches!(sync_batch(&mut wc, &remote, &drift), SyncResult::Synced));
    assert!(wc.has_file("stray.txt"));
    let st = force_reclone(&mut wc, &remote);
    assert!(st.ok && st.cloned);
    assert!(!wc.has_file("stray.txt"));
    assert!(wc.has_file("README.md"));
}

#[test]
fn validate_repo_reports_existing_copy() {
    let remote = sample_remote();
    let mut wc = cloned_copy(&remote);
    let st = validate_repo(&mut wc, &remote);
    assert!(st.ok);
    assert!(!st.cloned);
    assert_eq!(st.response, "repository exists");
    let mut absent = WorkingCopy::absent();
    let unavailable = Remote::new(false);
    let st2 = validate_repo(&mut absent, &unavailable);
    assert!(!st2.ok && !st2.cloned);
    assert_eq!(st2.response, "failed to clone repository");
}

#[test]
fn intro_validate_repo_clones_when_absent() {
    let remote = sample_remote();
    let mut wc = WorkingCopy::absent();
    let st = github::intro::validate_repo(&mut wc, &remote);
    assert!(st.ok && st.cloned);
    assert!(wc.has_file("src/main.py"));
    let st2 = github::intro::validate_repo(&mut wc, &remote);
    assert!(st2.ok && !st2.cloned);
}
