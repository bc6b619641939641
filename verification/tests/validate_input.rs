//! The dialog input validators.

use openvcs::validate::{
    is_probably_git_url, looks_like_path, validate_add_path_probed, validate_clone_input_probed,
    validate_git_url,
};

#[test]
fn git_url_shapes() {
    assert!(is_probably_git_url("https://host/org/repo.git"));
    assert!(is_probably_git_url("http://host/repo.git"));
    assert!(is_probably_git_url("ssh://user@host/repo.git"));
    assert!(is_probably_git_url("git@github.com:org/repo.git"));
    assert!(is_probably_git_url("  git@github.com:org/repo.git  "));
    assert!(!is_probably_git_url("https://host/org/repo"));
    assert!(!is_probably_git_url("git@github.com:repo"));
    assert!(!is_probably_git_url("git@:x.git"));
    assert!(!is_probably_git_url(""));
    assert!(!is_probably_git_url("not a url"));
}

#[test]
fn url_validation_messages() {
    let ok = validate_git_url("git@host:a/b.git".to_string());
    assert!(ok.ok);
    assert!(ok.reason.is_none());
    let bad = validate_git_url("nope".to_string());
    assert!(!bad.ok);
    assert_eq!(
        bad.reason.unwrap(),
        "Not a recognized Git URL (http(s), ssh, or scp-like ending in .git)"
    );
}

#[test]
fn path_shapes() {
    assert!(looks_like_path("/abs/path"));
    assert!(looks_like_path("~/repo"));
    assert!(looks_like_path("C:\\repos"));
    assert!(looks_like_path("c:/repos"));
    assert!(!looks_like_path("relative/path"));
    assert!(!looks_like_path(""));
}

#[test]
fn add_path_decisions() {
    let v = validate_add_path_probed("relative", "relative", true, true, true);
    assert!(!v.ok);
    assert_eq!(v.reason.unwrap(), "Enter an absolute path");
    let v = validate_add_path_probed("/r", "/r", false, false, false);
    assert_eq!(v.reason.unwrap(), "Path does not exist: /r");
    let v = validate_add_path_probed("/r", "/r", true, false, false);
    assert_eq!(v.reason.unwrap(), "Not a directory: /r");
    let v = validate_add_path_probed("/r", "/r", true, true, false);
    assert_eq!(
        v.reason.unwrap(),
        "Folder does not look like a Git repository (.git missing)"
    );
    let v = validate_add_path_probed("/r", "/r", true, true, true);
    assert!(v.ok && v.reason.is_none());
}

#[test]
fn clone_input_decisions() {
    let v = validate_clone_input_probed("bad", "/d", false, false, true, false);
    assert_eq!(v.reason.unwrap(), "Invalid Git URL");
    let u = "https://h/r.git";
    let v = validate_clone_input_probed(u, "rel", false, false, true, false);
    assert_eq!(v.reason.unwrap(), "Destination must be an absolute path");
    let v = validate_clone_input_probed(u, "/d", false, false, false, false);
    assert_eq!(v.reason.unwrap(), "Parent folder does not exist");
    let v = validate_clone_input_probed(u, "/d", false, false, true, false);
    assert!(v.ok);
    let v = validate_clone_input_probed(u, "/d", true, false, true, false);
    assert_eq!(v.reason.unwrap(), "Destination is not a directory");
    let v = validate_clone_input_probed(u, "/d", true, true, true, true);
    assert_eq!(v.reason.unwrap(), "Destination already contains a Git repo");
    let v = validate_clone_input_probed(u, "/d", true, true, true, false);
    assert!(v.ok);
}
