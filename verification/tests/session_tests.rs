use termojinal::session_io::{
    read_step, wait_step, write_step, PtyError, ReadStep, WaitStatus, WaitStep, WriteStep, EXIT_WAIT_LIMIT_MS,
};
use termojinal::sessions::{ExitOutcome, ExitSignal, ExitTarget, SessionState, SessionTable};

fn state(shell: &str) -> SessionState {
    SessionState::new(shell, "/home", 80, 24, std::collections::HashMap::new())
}

#[test]
fn new_state_has_uuid_and_name() {
    let s = state("/bin/zsh");
    assert_eq!(s.id.len(), 36);
    assert_eq!(s.name, format!("session-{}", &s.id[..8]));
    assert_eq!(s.shell, "/bin/zsh");
    assert_eq!(s.pid, None);
    assert_eq!(s.id.chars().filter(|&c| c == '-').count(), 4);
    assert_ne!(state("/bin/sh").id, s.id);
}

#[test]
fn owned_sessions_insert_get_remove() {
    let mut t = SessionTable::new();
    let mut a = state("a");
    a.pid = Some(10);
    let id = a.id.clone();
    t.insert_owned(a);
    assert_eq!(t.get(&id).unwrap().pid, Some(10));
    assert_eq!(t.list(), vec![id.clone()]);
    assert!(t.update_session_cwd(&id, "/tmp").is_some());
    assert_eq!(t.get(&id).unwrap().cwd, "/tmp");
    assert!(t.update_session_cwd("nope", "/x").is_none());
    let removed = t.remove(&id).unwrap();
    assert_eq!(removed.cwd, "/tmp");
    assert!(t.get(&id).is_none());
    assert!(t.remove(&id).is_none());
}

#[test]
fn session_environment_is_kept() {
    let mut env = std::collections::HashMap::new();
    env.insert("TERM".to_string(), "xterm-256color".to_string());
    env.insert("LANG".to_string(), "en_US.UTF-8".to_string());
    let s = SessionState::new("/bin/zsh", "/home", 80, 24, env.clone());
    assert_eq!(s.env, env);
    let id = s.id.clone();
    let mut t = SessionTable::new();
    t.insert_owned(s);
    t.update_session_cwd(&id, "/tmp");
    assert_eq!(t.get(&id).unwrap().env.get("TERM").map(|v| v.as_str()), Some("xterm-256color"));
    assert_eq!(t.remove(&id).unwrap().env, env);
}

#[test]
fn external_sessions_by_pane() {
    let mut t = SessionTable::new();
    let mut s = state("/bin/sh");
    s.pid = Some(99);
    let id = t.register_external(7, s);
    assert_eq!(t.list(), vec![id.clone()]);
    assert_eq!(t.find_external(&id), Some((7, Some(99))));
    let s2 = state("/bin/sh");
    let id2 = t.register_external(7, s2);
    assert_eq!(t.list(), vec![id2.clone()]);
    assert!(t.find_external(&id).is_none());
    assert!(t.unregister_external(7).is_some());
    assert!(t.unregister_external(7).is_none());
}

#[test]
fn exit_target_prefers_owned() {
    let mut t = SessionTable::new();
    let mut a = state("a");
    a.pid = Some(5);
    let id = a.id.clone();
    t.insert_owned(a);
    assert!(t.exit_target(&id) == ExitTarget::Owned { pid: Some(5) });
    let mut e = state("e");
    e.pid = Some(6);
    let eid = t.register_external(3, e);
    assert!(t.exit_target(&eid) == ExitTarget::External { pane_id: 3, pid: Some(6) });
    assert!(t.exit_target("missing") == ExitTarget::NotFound);
}

#[test]
fn exit_session_waits_for_foreground_processes() {
    let mut t = SessionTable::new();
    let mut a = state("a");
    a.pid = Some(5);
    let id = a.id.clone();
    t.insert_owned(a);
    match t.exit_session(&id, false, Some("vim".to_string())) {
        ExitOutcome::Busy { process } => assert_eq!(process, "vim"),
        _ => panic!("expected busy"),
    }
    assert!(t.get(&id).is_some());
    match t.exit_session(&id, false, None) {
        ExitOutcome::Exited { state, owned, signal } => {
            assert_eq!(state.id, id);
            assert!(owned);
            assert_eq!(signal, ExitSignal::Hangup);
        }
        _ => panic!("expected exit"),
    }
    assert!(t.get(&id).is_none());
    assert!(matches!(t.exit_session(&id, false, None), ExitOutcome::NotFound));
    let b = state("b");
    let idb = b.id.clone();
    t.insert_owned(b);
    assert!(matches!(t.exit_session(&idb, false, Some("top".to_string())), ExitOutcome::Exited { .. }));
}

#[test]
fn exit_session_external_and_forced() {
    let mut t = SessionTable::new();
    let mut e = state("e");
    e.pid = Some(6);
    let eid = t.register_external(3, e);
    match t.exit_session(&eid, true, Some("vim".to_string())) {
        ExitOutcome::Exited { state, owned, signal } => {
            assert_eq!(state.pid, Some(6));
            assert!(!owned);
            assert_eq!(signal, ExitSignal::Kill);
        }
        _ => panic!("expected a forced exit"),
    }
    assert!(t.find_external(&eid).is_none());
    let mut f = state("f");
    f.pid = Some(7);
    let fid = t.register_external(4, f);
    assert!(matches!(t.exit_session(&fid, false, Some("less".to_string())), ExitOutcome::Busy { .. }));
    match t.exit_session(&fid, false, None) {
        ExitOutcome::Exited { signal, owned, .. } => {
            assert!(!owned);
            assert_eq!(signal, ExitSignal::Hangup);
        }
        _ => panic!("expected exit"),
    }
    assert!(t.list().is_empty());
}

#[test]
fn exited_session_is_no_longer_listed() {
    let mut t = SessionTable::new();
    let a = state("a");
    let b = state("b");
    let (ida, idb) = (a.id.clone(), b.id.clone());
    t.insert_owned(a);
    t.insert_owned(b);
    let mut e = state("e");
    e.pid = Some(8);
    let eid = t.register_external(2, e);
    assert_eq!(t.list(), vec![ida.clone(), idb.clone(), eid.clone()]);
    assert!(matches!(t.exit_session(&ida, false, None), ExitOutcome::Exited { .. }));
    assert_eq!(t.list(), vec![idb.clone(), eid.clone()]);
    assert!(matches!(t.exit_session(&eid, false, None), ExitOutcome::Exited { .. }));
    assert_eq!(t.list(), vec![idb.clone()]);
    assert!(matches!(t.exit_session(&eid, false, None), ExitOutcome::NotFound));
    assert_eq!(t.list(), vec![idb]);
}

#[test]
fn reap_drops_sessions_without_a_live_process() {
    let mut t = SessionTable::new();
    let mut a = state("a");
    a.pid = Some(1);
    let mut b = state("b");
    b.pid = Some(2);
    let c = state("c");
    let (ida, idb, idc) = (a.id.clone(), b.id.clone(), c.id.clone());
    t.insert_owned(a);
    t.insert_owned(b);
    t.insert_owned(c);
    let mut x = state("x");
    x.pid = Some(3);
    t.register_external(1, x);
    let (dead, gone) = t.reap(&vec![true, false, true], &vec![false]);
    assert_eq!(dead, vec![idb, idc]);
    assert_eq!(gone.len(), 1);
    assert_eq!(gone[0].0, 1);
    assert_eq!(t.list(), vec![ida]);
}

#[test]
fn take_all_empties_the_table() {
    let mut t = SessionTable::new();
    t.insert_owned(state("a"));
    t.register_external(1, state("b"));
    let (owned, ext) = t.take_all();
    assert_eq!(owned.len() + ext.len(), 2);
    assert!(t.list().is_empty());
    assert!(t.list_details().is_empty());
}

#[test]
fn pty_read_decisions() {
    assert_eq!(read_step(42, PtyError::Other), ReadStep::Data { len: 42 });
    assert_eq!(read_step(0, PtyError::WouldBlock), ReadStep::Stop);
    assert_eq!(read_step(-1, PtyError::WouldBlock), ReadStep::Retry);
    assert_eq!(read_step(-1, PtyError::Io), ReadStep::Stop);
    assert_eq!(read_step(-1, PtyError::Other), ReadStep::Stop);
}

#[test]
fn pty_write_decisions() {
    assert_eq!(write_step(0, 10, 4, PtyError::Other), WriteStep::Advance { offset: 4 });
    assert_eq!(write_step(4, 10, 6, PtyError::Other), WriteStep::Advance { offset: 10 });
    assert_eq!(write_step(4, 10, -1, PtyError::WouldBlock), WriteStep::Yield);
    assert_eq!(write_step(4, 10, -1, PtyError::Io), WriteStep::Stop);
    assert_eq!(write_step(4, 10, 0, PtyError::Other), WriteStep::Stop);
}

#[test]
fn shell_exit_codes() {
    assert_eq!(wait_step(WaitStatus::Exited { code: 3 }, 0), WaitStep::Done { exit_code: Some(3) });
    assert_eq!(wait_step(WaitStatus::Signaled { signal: 9 }, 10), WaitStep::Done { exit_code: Some(137) });
    assert_eq!(wait_step(WaitStatus::StillAlive, 500), WaitStep::Again);
    assert_eq!(wait_step(WaitStatus::StillAlive, EXIT_WAIT_LIMIT_MS), WaitStep::Again);
    assert_eq!(wait_step(WaitStatus::StillAlive, EXIT_WAIT_LIMIT_MS + 1), WaitStep::Done { exit_code: None });
    assert_eq!(wait_step(WaitStatus::Other, 0), WaitStep::Done { exit_code: None });
}
