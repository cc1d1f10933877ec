use github::helper::delete_file;
use github::mirror::Remote;
use github::mirror::Tree;
use github::outcome::SyncError;
use github::batch::StepKind;

#[test]
fn create_tracks_file_and_ancestors() {
    let mut t = Tree::new();
    t.create_file("src/plain/main.py", "print('x')");
    assert!(t.has_file("src/plain/main.py"));
    assert!(t.has_dir("src"));
    assert!(t.has_dir("src/plain"));
    assert!(!t.has_dir("src/plain/main.py"));
    assert_eq!(t.file_content("src/plain/main.py").unwrap(), "print('x')");
}

#[test]
fn create_overwrites_in_place() {
    let mut t = Tree::new();
    t.create_file("a.txt", "one");
    t.create_file("a.txt", "two");
    assert_eq!(t.file_content("a.txt").unwrap(), "two");
}

#[test]
fn rename_moves_content_and_makes_parents() {
    let mut t = Tree::new();
    t.create_file("old.txt", "payload");
    assert!(t.rename_file("old.txt", "new/old.txt"));
    assert!(!t.has_file("old.txt"));
    assert!(t.has_dir("new"));
    assert_eq!(t.file_content("new/old.txt").unwrap(), "payload");
    // A rename without a source fails and changes nothing.
    assert!(!t.rename_file("absent.txt", "anywhere.txt"));
    assert!(!t.has_file("anywhere.txt"));
}

#[test]
fn remove_cascades_and_spares_shared_dirs() {
    let mut t = Tree::new();
    t.create_file("x/y/z/file.txt", "deep");
    t.create_file("x/keep.txt", "shallow");
    assert!(t.remove_file("x/y/z/file.txt"));
    assert!(!t.has_dir("x/y/z"));
    assert!(!t.has_dir("x/y"));
    assert!(t.has_dir("x"));
    assert!(t.has_file("x/keep.txt"));
    // Removing an absent path reports false and leaves the tree alone.
    assert!(!t.remove_file("x/y/z/file.txt"));
    assert!(t.has_file("x/keep.txt"));
}

#[test]
fn dir_emptiness_probe() {
    let mut t = Tree::new();
    t.create_file("a/b/c.txt", "x");
    assert!(!t.dir_is_empty("a"));
    assert!(!t.dir_is_empty("a/b"));
    t.create_file("solo/d/e.txt", "y");
    assert!(t.remove_file("solo/d/e.txt"));
    assert!(!t.has_dir("solo"));
}

#[test]
fn snapshot_is_independent() {
    let mut t = Tree::new();
    t.create_file("a.txt", "before");
    let snap = t.snapshot();
    t.create_file("a.txt", "after");
    assert_eq!(snap.file_content("a.txt").unwrap(), "before");
    assert_eq!(t.file_content("a.txt").unwrap(), "after");
}

#[test]
fn delete_file_status_codes() {
    let mut t = Tree::new();
    t.create_file("x/y/z/file.txt", "bytes");
    let (code, msg) = delete_file(&mut t, "x/y/z/file.txt");
    assert_eq!(code, 200);
    assert_eq!(msg, "deleted file x/y/z/file.txt");
    assert!(!t.has_dir("x"));
    let (code2, msg2) = delete_file(&mut t, "x/y/z/file.txt");
    assert_eq!(code2, 404);
    assert_eq!(msg2, "file not found: x/y/z/file.txt");
}

#[test]
fn remote_serves_raw_content() {
    let mut remote = Remote::new(true);
    assert!(remote.add_file("src/a.png", "PNG"));
    // Unsafe or duplicate paths are refused.
    assert!(!remote.add_file("../a", "no"));
    assert!(!remote.add_file("src/a.png", "again"));
    assert!(remote.is_available());
    assert_eq!(remote.raw_content("src/a.png").unwrap(), "PNG");
    assert!(remote.raw_content("src/missing.png").is_none());
    let t = remote.clone_tree();
    assert!(t.has_file("src/a.png"));
    assert!(t.has_dir("src"));
}

#[test]
fn error_descriptions() {
    assert_eq!(
        SyncError::CloneFailed.describe(),
        "unable to locate or clone repository in data source"
    );
    let io = SyncError::IoFailure { kind: StepKind::Rename, path: "a/b.txt".to_string() };
    assert_eq!(io.describe(), "io failure in rename step: a/b.txt");
    let dl = SyncError::DownloadFailed { path: "img.png".to_string() };
    assert_eq!(dl.describe(), "error downloading file: img.png");
    let bad = SyncError::InvalidLocator { detail: "../x".to_string() };
    assert_eq!(bad.describe(), "invalid path in batch: ../x");
    assert_eq!(
        SyncError::RecoveryFailed.describe(),
        "failed to restore the working copy; it may be partially mutated"
    );
}
