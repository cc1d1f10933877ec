use github::auth;
use github::filesystem;
use github::locator::Locator;
use github::helper::clone_command;
use github::helper::raw_content_url;
use github::paths::ancestor_dirs;
use github::paths::check_rel_path;
use github::paths::is_under;
use github::paths::join_under;
use github::text::index_of_from;
use github::text::split_two;

#[test]
fn safe_relative_paths() {
    assert!(check_rel_path("a/b.txt"));
    assert!(check_rel_path("README.md"));
    assert!(check_rel_path("a/..b/c"));
    assert!(check_rel_path("..."));
    assert!(check_rel_path("a.b..c"));
}

#[test]
fn unsafe_relative_paths() {
    assert!(!check_rel_path(""));
    assert!(!check_rel_path("/etc/passwd"));
    assert!(!check_rel_path("a//b"));
    assert!(!check_rel_path("../x"));
    assert!(!check_rel_path("a/../b"));
    assert!(!check_rel_path("a/.."));
    assert!(!check_rel_path("./a"));
    assert!(!check_rel_path("a/."));
    assert!(!check_rel_path("a/"));
    assert!(!check_rel_path("."));
    assert!(!check_rel_path(".."));
}

#[test]
fn ancestors_deepest_first() {
    let dirs = ancestor_dirs("a/b/c/f.txt");
    let got: Vec<&str> = dirs.iter().map(|s| s.as_str()).collect();
    assert_eq!(got, vec!["a/b/c", "a/b", "a"]);
    assert!(ancestor_dirs("plain.txt").is_empty());
}

#[test]
fn joining_and_containment() {
    assert_eq!(join_under("/data/org/repo", "src/a.py"), "/data/org/repo/src/a.py");
    assert!(is_under("a/b", "a/b/c.txt"));
    assert!(!is_under("a/b", "a/b"));
    assert!(!is_under("a/b", "a/bc/d"));
}

#[test]
fn splitting_on_separators() {
    assert_eq!(split_two("org/repo;main", ';'), ("org/repo".to_string(), "main".to_string()));
    assert_eq!(split_two("a;b;c", ';'), ("a".to_string(), "b".to_string()));
    assert_eq!(split_two("alone", ';'), ("alone".to_string(), String::new()));
    assert_eq!(split_two(";tail", ';'), (String::new(), "tail".to_string()));
    assert_eq!(split_two("", ';'), (String::new(), String::new()));
    assert_eq!(split_two("org/repo", '/'), ("org".to_string(), "repo".to_string()));
    assert_eq!(index_of_from("a;b;c", ';', 2), 3);
}

#[test]
fn auth_verify_token_accepts_exact_bearer() {
    let token = "s3cr3t".to_string();
    let header = "Bearer s3cr3t".to_string();
    let location = "org/repo;main".to_string();
    let r = auth::verify_token(Some(&header), &token, Some(&location));
    assert!(r.ok);
    assert_eq!(r.repository, "org/repo");
    assert_eq!(r.branch, "main");
}

#[test]
fn auth_verify_token_rejects_bad_or_missing_header() {
    let token = "s3cr3t".to_string();
    let wrong = "Bearer nope".to_string();
    let r = auth::verify_token(Some(&wrong), &token, None);
    assert!(!r.ok);
    assert!(r.repository.is_empty() && r.branch.is_empty());
    let r2 = auth::verify_token(None, &token, None);
    assert!(!r2.ok);
    // The bare token without the scheme is not accepted either.
    let bare = "s3cr3t".to_string();
    assert!(!auth::verify_token(Some(&bare), &token, None).ok);
}

#[test]
fn auth_verify_token_with_missing_location_fields() {
    let token = "t0ken".to_string();
    let header = "Bearer t0ken".to_string();
    let location = "org/repo".to_string();
    let r = auth::verify_token(Some(&header), &token, Some(&location));
    assert!(r.ok);
    assert_eq!(r.repository, "org/repo");
    assert_eq!(r.branch, "");
    let r2 = auth::verify_token(Some(&header), &token, None);
    assert!(r2.ok);
    assert_eq!(r2.repository, "");
}

#[test]
fn filesystem_verify_token_parses_path() {
    let token = "s3cr3t".to_string();
    let header = "Bearer s3cr3t".to_string();
    let location = "org/repo;src/plain/main.py".to_string();
    let r = filesystem::verify_token(Some(&header), &token, Some(&location));
    assert!(r.ok);
    assert_eq!(r.repository, "org/repo");
    assert_eq!(r.path, "src/plain/main.py");
    let r2 = filesystem::verify_token(None, &token, Some(&location));
    assert!(!r2.ok && r2.path.is_empty());
}

#[test]
fn locator_parse_full_and_partial() {
    let l = Locator::parse("org/repo;main").unwrap();
    assert_eq!(l.organization, "org");
    assert_eq!(l.repository, "repo");
    assert_eq!(l.refname, "main");
    assert_eq!(l.repo_path(), "org/repo");
    let bare = Locator::parse("org/repo").unwrap();
    assert_eq!(bare.refname, "");
    assert!(Locator::parse("").is_none());
    assert!(Locator::parse("justone;main").is_none());
    assert!(Locator::parse("/repo;main").is_none());
    assert!(Locator::parse("org/;main").is_none());
}

#[test]
fn clone_command_text() {
    assert_eq!(
        clone_command("/data", "org", "repo"),
        "cd /data/org && git clone https://github.com/org/repo.git"
    );
}

#[test]
fn raw_content_url_text() {
    assert_eq!(
        raw_content_url("org/repo", "main", "src/a.png"),
        "https://raw.githubusercontent.com/org/repo/main/src/a.png"
    );
    // An empty ref keeps its empty segment, as the well-known URL template
    // does.
    assert_eq!(
        raw_content_url("org/repo", "", "a.png"),
        "https://raw.githubusercontent.com/org/repo//a.png"
    );
}
