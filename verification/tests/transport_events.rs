//! The embedded transport's verified decisions and line formatters.

use openvcs::embedded::{
    cred_decision, ensure_remote_action, sideband_line, transfer_line, CredAction, RemoteAction,
};

#[test]
fn credential_decision() {
    match cred_decision(1, true, Some(&"deploy".to_string())) {
        CredAction::TryAgent(u) => assert_eq!(u, "deploy"),
        other => panic!("unexpected action {:?}", matches!(other, CredAction::Fail(_))),
    }
    match cred_decision(1, true, None) {
        CredAction::TryAgent(u) => assert_eq!(u, "git"),
        _ => panic!("expected one agent attempt"),
    }
    match cred_decision(2, true, None) {
        CredAction::Fail(m) => assert_eq!(m, "auth: agent key rejected; aborting"),
        _ => panic!("expected the explicit rejection"),
    }
    match cred_decision(1, false, None) {
        CredAction::Fail(m) => assert_eq!(m, "auth: no usable SSH credential"),
        _ => panic!("expected the no-credential failure"),
    }
}

#[test]
fn transport_line_formatters() {
    assert_eq!(sideband_line("Counting objects: 5\r"), "remote: Counting objects: 5");
    assert_eq!(
        transfer_line(1, 2, 30, 40),
        "pushing\u{2026} 1/2 deltas, 30/40 objects"
    );
}

#[test]
fn ensure_remote_decisions() {
    let same = Some("https://h/r.git".to_string());
    assert!(matches!(ensure_remote_action(&same, "https://h/r.git"), RemoteAction::Keep));
    assert!(matches!(ensure_remote_action(&same, "https://h/other.git"), RemoteAction::SetUrl));
    assert!(matches!(ensure_remote_action(&None, "https://h/r.git"), RemoteAction::Add));
}
