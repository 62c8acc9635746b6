use termojinal::persist::{safe_name, sort_by_created, SessionStore, SnapshotStore};
use termojinal::term::{NamedSnapshot, Terminal};

fn named(name: &str, at: i64) -> NamedSnapshot {
    let term = Terminal::new(2, 1);
    let mut s = term.create_named_snapshot(name);
    s.created_at = at;
    s
}

#[test]
fn session_state_files() {
    let store = SessionStore::with_dir("/data/sessions".to_string());
    assert_eq!(store.state_path("abc"), "/data/sessions/abc.json");
    let store2 = SessionStore::with_dir("/data/sessions/".to_string());
    assert_eq!(store2.state_path("abc"), "/data/sessions/abc.json");
    let empty = SessionStore::with_dir(String::new());
    assert_eq!(empty.state_path("abc"), "abc.json");
    assert_eq!(store.state_path("/abs"), "/abs.json");
    assert_eq!(store.dir(), "/data/sessions");
}

#[test]
fn snapshot_files() {
    let store = SnapshotStore::with_dir("/snap".to_string());
    assert_eq!(store.snapshot_path("s1"), "/snap/s1.snapshot.json");
    assert_eq!(store.named_dir("s1"), "/snap/s1.snapshots");
    let n = named("my command!", 0);
    assert_eq!(store.named_snapshot_path("s1", &n).unwrap(), "/snap/s1.snapshots/my_command__19700101000000.json");
    let later = named("build-1_ok", 947638923004);
    assert_eq!(store.named_snapshot_path("s1", &later).unwrap(), "/snap/s1.snapshots/build-1_ok_20000112010203.json");
    assert!(store.named_snapshot_path("s1", &named("x", i64::MAX)).is_none());
}

#[test]
fn snapshot_stamps_are_civil_dates() {
    let store = SnapshotStore::with_dir("/snap".to_string());
    let leap = named("a", 1709251199000);
    assert_eq!(store.named_snapshot_path("s", &leap).unwrap(), "/snap/s.snapshots/a_20240229235959.json");
    let last = named("b", 253402300799999);
    assert_eq!(store.named_snapshot_path("s", &last).unwrap(), "/snap/s.snapshots/b_99991231235959.json");
    let recent = named("c", 1700000000123);
    assert_eq!(store.named_snapshot_path("s", &recent).unwrap(), "/snap/s.snapshots/c_20231114221320.json");
}

#[test]
fn names_are_sanitized() {
    let s: String = safe_name("my command?").into_iter().collect();
    assert_eq!(s, "my_command_");
    let u: String = safe_name("ログ-1").into_iter().collect();
    assert_eq!(u, "ログ-1");
}

#[test]
fn named_snapshots_sort_oldest_first_and_stably() {
    let v = vec![named("c", 30), named("a1", 10), named("b", 20), named("a2", 10)];
    let sorted = sort_by_created(v);
    let names: Vec<&str> = sorted.iter().map(|s| s.name.as_str()).collect();
    assert_eq!(names, vec!["a1", "a2", "b", "c"]);
    assert!(sort_by_created(Vec::new()).is_empty());
}
