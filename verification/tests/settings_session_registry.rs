//! Configuration defaults and clamping, the session's recents discipline,
//! and the registry's one-descriptor-per-id rule.

use openvcs::backend_id::BackendId;
use openvcs::models::Capabilities;
use openvcs::registry::{BackendDescriptor, Registry};
use openvcs::session::{recents_push, SessionState};
use openvcs::settings::{AppConfig, GitBackend, LogLevel, Theme};

#[test]
fn config_defaults() {
    let c = AppConfig::default();
    assert_eq!(c.schema_version, 1);
    assert_eq!(c.general.theme, Theme::System);
    assert_eq!(c.git.backend, GitBackend::System);
    assert_eq!(c.git.default_branch, "main");
    assert_eq!(c.diff.tab_width, 4);
    assert_eq!(c.lfs.concurrency, 4);
    assert_eq!(c.ux.recents_limit, 10);
    assert_eq!(c.logging.level, LogLevel::Info);
    assert_eq!(c.logging.retain_archives, 10);
    assert_eq!(c.network.http_low_speed_time_secs, 30);
    assert_eq!(c.network.http_low_speed_time(), 30);
    assert_eq!(c.credentials.gpg_program, "gpg");
    assert_eq!(c.credentials.ssh_key_paths.len(), 2);
}

#[test]
fn config_validate_clamps() {
    let mut c = AppConfig::default();
    c.diff.tab_width = 200;
    c.diff.max_file_size_mb = 0;
    c.lfs.concurrency = 0;
    c.network.http_low_speed_time_secs = 10_000;
    c.network.http_low_speed_limit = 1;
    c.ux.recents_limit = 0;
    c.logging.retain_archives = 0;
    c.migrate();
    c.validate();
    assert_eq!(c.diff.tab_width, 16);
    assert_eq!(c.diff.max_file_size_mb, 1);
    assert_eq!(c.lfs.concurrency, 1);
    assert_eq!(c.network.http_low_speed_time_secs, 600);
    assert_eq!(c.network.http_low_speed_limit, 128);
    assert_eq!(c.ux.recents_limit, 1);
    assert_eq!(c.logging.retain_archives, 1);
}

#[test]
fn recents_are_bounded_unique_and_fresh() {
    let mut r: Vec<String> = vec!["/a".into(), "/b".into(), "/c".into()];
    recents_push(&mut r, "/b".to_string(), 10);
    assert_eq!(r, vec!["/b".to_string(), "/a".to_string(), "/c".to_string()]);
    // The zero limit falls back to ten entries.
    let mut many: Vec<String> = (0..12).map(|i| format!("/r{i}")).collect();
    recents_push(&mut many, "/new".to_string(), 0);
    assert_eq!(many.len(), 10);
    assert_eq!(many[0], "/new");
    // A tight limit truncates.
    let mut tight: Vec<String> = vec!["/x".into(), "/y".into()];
    recents_push(&mut tight, "/z".to_string(), 2);
    assert_eq!(tight, vec!["/z".to_string(), "/x".to_string()]);
}

#[test]
fn session_transitions() {
    let mut s = SessionState::new();
    assert_eq!(s.current_repo(), None);
    s.set_current_repo("/repo".to_string(), 10);
    assert_eq!(s.current_repo(), Some("/repo".to_string()));
    assert_eq!(s.recents(), &vec!["/repo".to_string()]);
    s.set_current_repo("/other".to_string(), 10);
    assert_eq!(s.recents(), &vec!["/other".to_string(), "/repo".to_string()]);
    s.clear_current_repo();
    assert_eq!(s.current_repo(), None);
    assert_eq!(s.recents().len(), 2);
}

fn caps() -> Capabilities {
    Capabilities {
        commits: true,
        branches: true,
        tags: false,
        staging: false,
        push_pull: false,
        fast_forward: false,
    }
}

#[test]
fn registry_one_descriptor_per_id() {
    let mut reg = Registry::new();
    let d1 = BackendDescriptor {
        id: BackendId::from_str("git-system"),
        name: "Git (system)".to_string(),
        caps: caps(),
    };
    assert!(reg.register(d1));
    let d2 = BackendDescriptor {
        id: BackendId::from_str("git-system"),
        name: "imposter".to_string(),
        caps: caps(),
    };
    assert!(!reg.register(d2));
    assert_eq!(reg.count(), 1);
    let d3 = BackendDescriptor {
        id: BackendId::from_str("git-libgit2"),
        name: "Git (libgit2)".to_string(),
        caps: caps(),
    };
    assert!(reg.register(d3));
    assert_eq!(reg.count(), 2);
    assert_eq!(reg.get_backend("git-libgit2").unwrap().name, "Git (libgit2)");
    assert!(reg.get_backend("fossil").is_none());
    assert_eq!(reg.at(0).id.as_str(), "git-system");
}
