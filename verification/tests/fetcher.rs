use pdblister::fetch::{
    parse_manifest_line, relative_path, relative_dir, remote_url, local_path, local_dir,
    task_step, AdmissionGate, TaskState, TaskEvent, FailReason, summarize, failed_indices,
    FETCH_CONCURRENCY, ManifestEntry,
};
use pdblister::srv::{SymSrv, parse_server_list};
use pdblister::ProtocolError;

fn entry(name: &str, id: &str) -> ManifestEntry {
    parse_manifest_line(&format!("{},{},1", name, id)).unwrap()
}

#[test]
fn parses_manifest_line() {
    let e = parse_manifest_line("foo.pdb,0123456789ABCDEF0123456789ABCDEF15,1").unwrap();
    assert_eq!(e.name, "foo.pdb");
    assert_eq!(e.id, "0123456789ABCDEF0123456789ABCDEF15");
    assert_eq!(e.trailer, "1");
}

#[test]
fn rejects_short_manifest_line() {
    assert_eq!(
        parse_manifest_line("foo.pdb,abc").unwrap_err(),
        ProtocolError::MalformedManifestLine
    );
}

#[test]
fn rejects_long_manifest_line() {
    assert_eq!(
        parse_manifest_line("a,b,c,d").unwrap_err(),
        ProtocolError::MalformedManifestLine
    );
}

#[test]
fn parses_server_spec() {
    let s = SymSrv::from_str("SRV*symbols*https://example.test/sym").unwrap();
    assert_eq!(s.filepath, "symbols");
    assert_eq!(s.server, "https://example.test/sym");
}

#[test]
fn rejects_non_srv_spec() {
    assert_eq!(
        SymSrv::from_str("CACHE*symbols*x").unwrap_err(),
        ProtocolError::UnsupportedSpecForm
    );
}

#[test]
fn rejects_wrong_arity_spec() {
    assert_eq!(SymSrv::from_str("SRV*symbols").unwrap_err(), ProtocolError::UnsupportedSpecForm);
    assert_eq!(SymSrv::from_str("SRV*a*b*c").unwrap_err(), ProtocolError::UnsupportedSpecForm);
}

#[test]
fn rejects_multi_server_chain() {
    assert_eq!(
        parse_server_list("SRV*a*b;SRV*c*d").unwrap_err(),
        ProtocolError::MultiServerUnsupported
    );
}

#[test]
fn accepts_single_server_chain() {
    let s = parse_server_list("SRV*cache*http://h").unwrap();
    assert_eq!(s.filepath, "cache");
    assert_eq!(s.server, "http://h");
}

#[test]
fn builds_server_layout_paths() {
    let srv = parse_server_list("SRV*cache*http://h").unwrap();
    let e = entry("foo.pdb", "ABC123");
    assert_eq!(relative_path(&e), "foo.pdb/ABC123/foo.pdb");
    assert_eq!(relative_dir(&e), "foo.pdb/ABC123");
    assert_eq!(remote_url(&srv, &e), "http://h/foo.pdb/ABC123/foo.pdb");
    assert_eq!(local_path(&srv, &e), "cache/foo.pdb/ABC123/foo.pdb");
    assert_eq!(local_dir(&srv, &e), "cache/foo.pdb/ABC123");
}

#[test]
fn cached_file_is_skipped_without_fetch() {
    assert_eq!(task_step(TaskState::Pending, TaskEvent::CacheHit), TaskState::Skipped);
    assert_eq!(task_step(TaskState::Pending, TaskEvent::CacheMiss), TaskState::Fetching);
}

#[test]
fn non_200_status_fails_the_task() {
    assert_eq!(
        task_step(TaskState::Fetching, TaskEvent::Response(404)),
        TaskState::Failed(FailReason::Status(404))
    );
    assert_eq!(task_step(TaskState::Fetching, TaskEvent::Response(200)), TaskState::Fetching);
    assert_eq!(task_step(TaskState::Fetching, TaskEvent::StreamOk), TaskState::Succeeded);
    assert_eq!(
        task_step(TaskState::Fetching, TaskEvent::StreamError),
        TaskState::Failed(FailReason::Transport)
    );
}

#[test]
fn admission_gate_caps_at_sixty_four() {
    let mut gate = AdmissionGate::new(FETCH_CONCURRENCY);
    for _ in 0..64 {
        assert!(gate.try_admit());
    }
    assert!(!gate.try_admit());
    assert!(!gate.try_admit());
    gate.release();
    assert!(gate.try_admit());
    assert!(!gate.try_admit());
}

#[test]
fn admission_gate_small_cap() {
    let mut gate = AdmissionGate::new(2);
    assert!(gate.try_admit());
    assert!(gate.try_admit());
    assert!(!gate.try_admit());
    gate.release();
    gate.release();
    assert!(gate.try_admit());
}

#[test]
fn summarize_counts_outcomes() {
    let states = vec![
        TaskState::Skipped,
        TaskState::Succeeded,
        TaskState::Failed(FailReason::Status(500)),
        TaskState::Succeeded,
        TaskState::Failed(FailReason::Transport),
        TaskState::Skipped,
    ];
    let s = summarize(&states);
    assert_eq!(s.skipped, 2);
    assert_eq!(s.succeeded, 2);
    assert_eq!(s.failed, 2);
    assert_eq!(failed_indices(&states), vec![2, 4]);
}
