use termojinal::frame::{Frame, MSG_CONTROL, MSG_KEY_INPUT, MSG_PTY_OUTPUT};
use termojinal::request::{
    attach_decision, client_action, decide_request, parse_shells, request_line_fits, AttachDecision, ClientAction, DaemonRequest,
    RequestFields, MAX_REQUEST_LINE,
};

fn shells() -> Vec<String> {
    vec!["/bin/sh".to_string(), "/bin/bash".to_string(), "/bin/zsh".to_string()]
}

fn fields(kind: &str) -> RequestFields {
    RequestFields {
        kind: Some(kind.to_string()),
        id: None,
        shell: None,
        cwd: None,
        cols: None,
        rows: None,
        pane_id: None,
        pid: None,
        force: None,
        workspace_name: None,
        state: None,
    }
}

#[test]
fn ping_and_unknown_requests() {
    assert!(matches!(decide_request(&fields("ping"), "/bin/zsh", &shells()), DaemonRequest::Ping));
    match decide_request(&fields("bogus"), "/bin/zsh", &shells()) {
        DaemonRequest::Unknown { kind } => assert_eq!(kind, "bogus"),
        _ => panic!("expected unknown"),
    }
    let mut none = fields("");
    none.kind = None;
    match decide_request(&none, "/bin/zsh", &shells()) {
        DaemonRequest::Unknown { kind } => assert_eq!(kind, ""),
        _ => panic!("expected unknown"),
    }
}

#[test]
fn create_session_defaults() {
    match decide_request(&fields("create_session"), "/bin/zsh", &shells()) {
        DaemonRequest::CreateSession { shell, cwd, cols, rows } => {
            assert_eq!(shell, "/bin/zsh");
            assert_eq!(cwd, ".");
            assert_eq!((cols, rows), (80, 24));
        }
        _ => panic!("expected create"),
    }
    let mut f = fields("create_session");
    f.shell = Some("/bin/bash".to_string());
    f.cols = Some(65536 + 100);
    f.rows = Some(50);
    match decide_request(&f, "/bin/zsh", &shells()) {
        DaemonRequest::CreateSession { shell, cols, rows, .. } => {
            assert_eq!(shell, "/bin/bash");
            assert_eq!((cols, rows), (100, 50));
        }
        _ => panic!("expected create"),
    }
}

#[test]
fn create_session_checks_the_shell() {
    let mut f = fields("create_session");
    f.shell = Some("/tmp/evil".to_string());
    match decide_request(&f, "/bin/zsh", &shells()) {
        DaemonRequest::DisallowedShell { shell } => assert_eq!(shell, "/tmp/evil"),
        _ => panic!("expected a refusal"),
    }
    match decide_request(&fields("create_session"), "/usr/local/bin/fish", &shells()) {
        DaemonRequest::DisallowedShell { shell } => assert_eq!(shell, "/usr/local/bin/fish"),
        _ => panic!("expected a refusal"),
    }
    assert!(matches!(decide_request(&fields("create_session"), "/bin/zsh", &vec![]), DaemonRequest::DisallowedShell { .. }));
    f.kind = Some("register_session".to_string());
    f.pid = Some(10);
    assert!(matches!(decide_request(&f, "/bin/zsh", &vec![]), DaemonRequest::RegisterSession { .. }));
}

#[test]
fn shells_file_entries() {
    let text = "# List of acceptable shells\n/bin/bash\n\n/bin/zsh \r\n  # indented comment\n/opt/homebrew/bin/fish";
    assert_eq!(parse_shells(text), vec!["/bin/bash", "/bin/zsh", "/opt/homebrew/bin/fish"]);
    assert_eq!(parse_shells(""), Vec::<String>::new());
    assert_eq!(parse_shells("/bin/sh\n"), vec!["/bin/sh"]);
}

#[test]
fn register_session_checks_the_pid() {
    let mut f = fields("register_session");
    assert!(matches!(decide_request(&f, "/bin/zsh", &shells()), DaemonRequest::InvalidPid));
    f.pid = Some(-5);
    assert!(matches!(decide_request(&f, "/bin/zsh", &shells()), DaemonRequest::InvalidPid));
    f.pid = Some(4242);
    f.pane_id = Some(7);
    match decide_request(&f, "/bin/zsh", &shells()) {
        DaemonRequest::RegisterSession { pane_id, pid, shell, cwd, .. } => {
            assert_eq!((pane_id, pid), (7, 4242));
            assert_eq!(shell, "/bin/sh");
            assert_eq!(cwd, ".");
        }
        _ => panic!("expected register"),
    }
}

#[test]
fn exit_and_workspace_requests() {
    let mut f = fields("exit_session");
    f.id = Some("s1".to_string());
    match decide_request(&f, "", &shells()) {
        DaemonRequest::ExitSession { id, force } => {
            assert_eq!(id, "s1");
            assert!(!force);
        }
        _ => panic!("expected exit"),
    }
    let mut w = fields("update_session_workspace");
    w.id = Some("s2".to_string());
    match decide_request(&w, "", &shells()) {
        DaemonRequest::UpdateSessionWorkspace { id, workspace_name } => {
            assert_eq!(id, "s2");
            assert_eq!(workspace_name, "");
        }
        _ => panic!("expected workspace update"),
    }
    match decide_request(&fields("claude_status_update"), "", &shells()) {
        DaemonRequest::ClaudeStatusUpdate { state, pid } => {
            assert_eq!(state, "unknown");
            assert_eq!(pid, None);
        }
        _ => panic!("expected status update"),
    }
}

#[test]
fn first_frame_must_attach() {
    let mut f = fields("attach_session");
    assert!(matches!(attach_decision(MSG_PTY_OUTPUT, &f), AttachDecision::NotControl));
    assert!(matches!(attach_decision(MSG_CONTROL, &fields("ping")), AttachDecision::NotAttach));
    assert!(matches!(attach_decision(MSG_CONTROL, &f), AttachDecision::MissingId));
    f.id = Some("abc".to_string());
    match attach_decision(MSG_CONTROL, &f) {
        AttachDecision::Attach(id) => assert_eq!(id, "abc"),
        _ => panic!("expected attach"),
    }
}

#[test]
fn client_frames() {
    let key = Frame { msg_type: MSG_KEY_INPUT, payload: vec![1, b'x', b'l', b's'] };
    match client_action(&key, None) {
        ClientAction::Input(d) => assert_eq!(d, b"ls"),
        _ => panic!("expected input"),
    }
    let bad = Frame { msg_type: MSG_KEY_INPUT, payload: vec![9] };
    assert!(matches!(client_action(&bad, None), ClientAction::Ignore));
    let ctrl = Frame::control(b"{}".to_vec());
    assert!(matches!(client_action(&ctrl, Some(&fields("detach_session"))), ClientAction::Detach));
    let mut r = fields("resize_session");
    r.id = Some("s".to_string());
    r.cols = Some(120);
    match client_action(&ctrl, Some(&r)) {
        ClientAction::Resize { id, cols, rows } => {
            assert_eq!(id, "s");
            assert_eq!((cols, rows), (120, 24));
        }
        _ => panic!("expected resize"),
    }
    assert!(matches!(client_action(&ctrl, None), ClientAction::Ignore));
}

#[test]
fn request_lines_up_to_one_mebibyte() {
    assert_eq!(MAX_REQUEST_LINE, 1024 * 1024);
    assert!(request_line_fits(0));
    assert!(request_line_fits(1024 * 1024));
    assert!(!request_line_fits(1024 * 1024 + 1));
}
