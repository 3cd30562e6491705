use sync_engine::errors::{IoStep, SyncError};
use sync_engine::holder::ConnectionSlot;
use sync_engine::local::LocalEntry;
use sync_engine::merge::{FileAction, MergeState};
use sync_engine::names::is_json_name;
use sync_engine::report::{collection_dir, Collection, SyncResult};
use sync_engine::transfer::TransferQueue;

fn entry(name: &str, mtime: Option<i64>) -> LocalEntry {
    LocalEntry { name: name.to_string(), mtime }
}

fn lookup(side: &[(String, i64)], name: &str) -> Option<i64> {
    side.iter().find(|(n, _)| n == name).map(|(_, t)| *t)
}

fn upsert(side: &mut Vec<(String, i64)>, name: &str, mtime: i64) {
    for pair in side.iter_mut() {
        if pair.0 == name {
            pair.1 = mtime;
            return;
        }
    }
    side.push((name.to_string(), mtime));
}

/// Drives one full merge pass the way the I/O shell would, applying each
/// decided transfer to the two in-memory sides, and returns the counters.
fn run_merge(local: &mut Vec<(String, i64)>, remote: &mut Vec<(String, i64)>) -> (usize, usize) {
    let entries: Vec<LocalEntry> = local
        .iter()
        .map(|(n, t)| LocalEntry { name: n.clone(), mtime: Some(*t) })
        .collect();
    let mut m = MergeState::new(entries);
    let names: Vec<String> = remote.iter().map(|(n, _)| n.clone()).collect();
    m.on_listing(names);
    while let Some(name) = m.current_remote() {
        let rt = lookup(remote, &name);
        match m.decide(&name, rt) {
            FileAction::Download => {
                let t = rt.expect("a downloaded file has a remote time");
                upsert(local, &name, t);
            }
            FileAction::Upload => {
                let t = lookup(local, &name).expect("an uploaded file exists locally");
                upsert(remote, &name, t);
            }
            FileAction::Keep => {}
        }
        m.settle_current(rt);
    }
    m.begin_sweep();
    while let Some(name) = m.pending_upload() {
        let t = lookup(local, &name).expect("a swept file exists locally");
        upsert(remote, &name, t);
        m.settle_pending_upload(&name);
    }
    (m.uploaded_count(), m.downloaded_count())
}

#[test]
fn extension_filter_names() {
    assert!(is_json_name("a.json"));
    assert!(is_json_name(".json"));
    assert!(is_json_name("nested.name.json"));
    assert!(!is_json_name("notes.txt"));
    assert!(!is_json_name("json"));
    assert!(!is_json_name("a.JSON"));
    assert!(!is_json_name("a.jsonx"));
    assert!(!is_json_name(""));
}

#[test]
fn transfer_queue_filters_and_counts() {
    let names = vec![
        "a.json".to_string(),
        "notes.txt".to_string(),
        "b.json".to_string(),
    ];
    let mut q = TransferQueue::from_names(names);
    assert_eq!(q.completed_count(), 0);
    assert!(!q.is_finished());
    let first = q.peek().expect("two files queued");
    assert_eq!(first, "a.json");
    q.record_done();
    let second = q.peek().expect("one file left");
    assert_eq!(second, "b.json");
    q.record_done();
    assert!(q.is_finished());
    assert!(q.peek().is_none());
    assert_eq!(q.completed_count(), 2);
}

#[test]
fn transfer_pass_fail_fast_keeps_partial_count() {
    let names: Vec<String> = (1..=5).map(|i| format!("f{}.json", i)).collect();
    let mut q = TransferQueue::from_names(names);
    // the first two transfers succeed, the third fails: the shell stops
    // here; the count reflects exactly what completed before the abort
    for _ in 0..2 {
        assert!(q.peek().is_some());
        q.record_done();
    }
    assert_eq!(q.peek().as_deref(), Some("f3.json"));
    assert_eq!(q.completed_count(), 2);
    assert!(!q.is_finished());
}

#[test]
fn transfer_queue_empty_listing() {
    let q = TransferQueue::from_names(Vec::new());
    assert!(q.is_finished());
    assert_eq!(q.completed_count(), 0);
}

#[test]
fn not_configured_guard() {
    let slot: ConnectionSlot<u32> = ConnectionSlot::empty();
    assert!(!slot.is_configured());
    match slot.borrow_handle() {
        Err(SyncError::NotConfigured) => {}
        _ => panic!("an empty slot must deny use with the not-configured error"),
    }
}

#[test]
fn configured_slot_yields_handle() {
    let mut slot: ConnectionSlot<u32> = ConnectionSlot::empty();
    slot.set(7);
    assert!(slot.is_configured());
    assert_eq!(*slot.borrow_handle().expect("a handle is configured"), 7);
    slot.set(9);
    assert_eq!(*slot.borrow_handle().expect("the new handle survives"), 9);
    slot.clear();
    assert!(!slot.is_configured());
    assert!(slot.borrow_handle().is_err());
}

#[test]
fn failed_construction_leaves_slot_unchanged() {
    let mut slot: ConnectionSlot<u32> = ConnectionSlot::empty();
    slot.set(3);
    let r = slot.apply_construction(Err("empty url".to_string()));
    assert!(matches!(r, Err(SyncError::InvalidConfig { .. })));
    assert_eq!(*slot.borrow_handle().expect("the old handle survives"), 3);
    let r = slot.apply_construction(Ok(8));
    assert!(r.is_ok());
    assert_eq!(*slot.borrow_handle().expect("the new handle is installed"), 8);
}

#[test]
fn fixed_collection_directories() {
    assert_eq!(collection_dir(Collection::Servers), "servers");
    assert_eq!(collection_dir(Collection::History), "history");
}

#[test]
fn result_default_is_zero() {
    let r = SyncResult::default();
    assert_eq!(r.servers_uploaded, 0);
    assert_eq!(r.servers_downloaded, 0);
    assert_eq!(r.history_uploaded, 0);
    assert_eq!(r.history_downloaded, 0);
    assert_eq!(r.total_uploaded(), 0);
    assert_eq!(r.total_downloaded(), 0);
}

#[test]
fn result_records_per_collection() {
    let mut r = SyncResult::default();
    r.record(Collection::Servers, 2, 1);
    r.record(Collection::History, 3, 4);
    assert_eq!(r.servers_uploaded, 2);
    assert_eq!(r.servers_downloaded, 1);
    assert_eq!(r.history_uploaded, 3);
    assert_eq!(r.history_downloaded, 4);
    assert_eq!(r.total_uploaded(), 5);
    assert_eq!(r.total_downloaded(), 5);
}

#[test]
fn error_variants_carry_structure() {
    let e = SyncError::InvalidConfig { reason: "empty url".to_string() };
    assert!(matches!(e, SyncError::InvalidConfig { .. }));
    let e = SyncError::LocalIo { step: IoStep::ReadDirectory, path: "servers".to_string() };
    match e {
        SyncError::LocalIo { step, path } => {
            assert_eq!(step, IoStep::ReadDirectory);
            assert_eq!(path, "servers");
        }
        _ => panic!("a local failure keeps its operation and path"),
    }
    let e = SyncError::RemoteIo { step: IoStep::Upload, path: "servers/a.json".to_string() };
    assert!(matches!(e, SyncError::RemoteIo { step: IoStep::Upload, .. }));
}

#[test]
fn merge_tie_break_no_transfer() {
    let mut local = vec![("a.json".to_string(), 100)];
    let mut remote = vec![("a.json".to_string(), 100)];
    let (up, down) = run_merge(&mut local, &mut remote);
    assert_eq!((up, down), (0, 0));
    assert_eq!(local, vec![("a.json".to_string(), 100)]);
    assert_eq!(remote, vec![("a.json".to_string(), 100)]);
}

#[test]
fn merge_newer_remote_wins() {
    let mut local = vec![("a.json".to_string(), 100)];
    let mut remote = vec![("a.json".to_string(), 200)];
    let (up, down) = run_merge(&mut local, &mut remote);
    assert_eq!((up, down), (0, 1));
    assert_eq!(lookup(&local, "a.json"), Some(200));
    assert_eq!(lookup(&remote, "a.json"), Some(200));
}

#[test]
fn merge_newer_local_wins() {
    let mut local = vec![("a.json".to_string(), 300)];
    let mut remote = vec![("a.json".to_string(), 200)];
    let (up, down) = run_merge(&mut local, &mut remote);
    assert_eq!((up, down), (1, 0));
    assert_eq!(lookup(&remote, "a.json"), Some(300));
}

#[test]
fn merge_initial_push_uploads_all() {
    let mut local = vec![
        ("a.json".to_string(), 10),
        ("b.json".to_string(), 20),
        ("c.json".to_string(), 30),
    ];
    let mut remote = Vec::new();
    let (up, down) = run_merge(&mut local, &mut remote);
    assert_eq!((up, down), (3, 0));
    let mut names: Vec<&str> = remote.iter().map(|(n, _)| n.as_str()).collect();
    names.sort();
    assert_eq!(names, vec!["a.json", "b.json", "c.json"]);
}

#[test]
fn merge_missing_remote_uploads_all() {
    let entries = vec![
        entry("a.json", Some(10)),
        entry("b.json", Some(20)),
    ];
    let mut m = MergeState::new(entries);
    m.on_listing_missing();
    let mut uploaded = Vec::new();
    while let Some(name) = m.pending_upload() {
        uploaded.push(name.clone());
        m.settle_pending_upload(&name);
    }
    uploaded.sort();
    assert_eq!(uploaded, vec!["a.json".to_string(), "b.json".to_string()]);
    assert_eq!(m.uploaded_count(), 2);
    assert_eq!(m.downloaded_count(), 0);
}

#[test]
fn merge_initial_pull_downloads_all() {
    let mut local = Vec::new();
    let mut remote = vec![
        ("a.json".to_string(), 10),
        ("b.json".to_string(), 20),
        ("c.json".to_string(), 30),
    ];
    let (up, down) = run_merge(&mut local, &mut remote);
    assert_eq!((up, down), (0, 3));
    assert_eq!(lookup(&local, "a.json"), Some(10));
    assert_eq!(lookup(&local, "b.json"), Some(20));
    assert_eq!(lookup(&local, "c.json"), Some(30));
}

#[test]
fn merge_disjoint_union() {
    let mut local = vec![("x.json".to_string(), 5)];
    let mut remote = vec![("y.json".to_string(), 9)];
    let (up, down) = run_merge(&mut local, &mut remote);
    assert_eq!((up, down), (1, 1));
    assert_eq!(lookup(&local, "x.json"), Some(5));
    assert_eq!(lookup(&local, "y.json"), Some(9));
    assert_eq!(lookup(&remote, "x.json"), Some(5));
    assert_eq!(lookup(&remote, "y.json"), Some(9));
}

#[test]
fn merge_twice_is_idempotent() {
    let mut local = vec![
        ("only_local.json".to_string(), 50),
        ("tied.json".to_string(), 70),
        ("local_newer.json".to_string(), 90),
        ("remote_newer.json".to_string(), 10),
    ];
    let mut remote = vec![
        ("only_remote.json".to_string(), 60),
        ("tied.json".to_string(), 70),
        ("local_newer.json".to_string(), 80),
        ("remote_newer.json".to_string(), 20),
    ];
    let (up, down) = run_merge(&mut local, &mut remote);
    assert_eq!((up, down), (2, 2));
    let (up, down) = run_merge(&mut local, &mut remote);
    assert_eq!((up, down), (0, 0));
}

#[test]
fn merge_ignores_foreign_extensions() {
    let mut local = vec![
        ("notes.txt".to_string(), 40),
        ("a.json".to_string(), 10),
    ];
    let mut remote = vec![
        ("notes.txt".to_string(), 99),
        ("readme.md".to_string(), 1),
    ];
    let (up, down) = run_merge(&mut local, &mut remote);
    assert_eq!((up, down), (1, 0));
    assert_eq!(lookup(&remote, "a.json"), Some(10));
    // the unfiltered names moved in neither direction
    assert_eq!(lookup(&local, "notes.txt"), Some(40));
    assert_eq!(lookup(&remote, "notes.txt"), Some(99));
    assert_eq!(lookup(&local, "readme.md"), None);
    assert_eq!(lookup(&remote, "readme.md"), Some(1));
}

#[test]
fn merge_skips_unreadable_local_times() {
    let entries = vec![
        entry("a.json", Some(10)),
        entry("broken.json", None),
    ];
    let mut m = MergeState::new(entries);
    m.on_listing(Vec::new());
    assert!(m.current_remote().is_none());
    m.begin_sweep();
    let name = m.pending_upload().expect("one readable file to sweep");
    assert_eq!(name, "a.json");
    m.settle_pending_upload(&name);
    assert!(m.pending_upload().is_none());
    assert_eq!(m.uploaded_count(), 1);
}

#[test]
fn merge_unknown_remote_time_transfers_nothing() {
    let entries = vec![entry("a.json", Some(10))];
    let mut m = MergeState::new(entries);
    m.on_listing(vec!["a.json".to_string()]);
    let name = m.current_remote().expect("one remote file");
    assert_eq!(m.decide(&name, None), FileAction::Keep);
    m.settle_current(None);
    assert!(m.current_remote().is_none());
    m.begin_sweep();
    // the name was reconciled: the sweep must not upload it after all
    assert!(m.pending_upload().is_none());
    assert_eq!((m.uploaded_count(), m.downloaded_count()), (0, 0));
}

#[test]
fn merge_fail_fast_keeps_partial_counts() {
    let entries = vec![
        entry("a.json", Some(1)),
        entry("b.json", Some(2)),
        entry("c.json", Some(3)),
        entry("d.json", Some(4)),
        entry("e.json", Some(5)),
    ];
    let mut m = MergeState::new(entries);
    m.on_listing_missing();
    // the first two uploads succeed
    for _ in 0..2 {
        let name = m.pending_upload().expect("files left to upload");
        m.settle_pending_upload(&name);
    }
    // the third upload fails: the shell stops here and surfaces the error;
    // the completed transfers stay applied and counted, nothing else ran
    let third = m.pending_upload();
    assert!(third.is_some());
    assert_eq!(m.uploaded_count(), 2);
    assert_eq!(m.downloaded_count(), 0);
}

#[test]
fn merge_duplicate_scan_entries_last_wins() {
    let entries = vec![
        entry("a.json", Some(10)),
        entry("a.json", Some(30)),
    ];
    let mut m = MergeState::new(entries);
    m.on_listing(vec!["a.json".to_string()]);
    let name = m.current_remote().expect("one remote file");
    // the retained local time is the later entry's
    assert_eq!(m.decide(&name, Some(20)), FileAction::Upload);
    assert_eq!(m.decide(&name, Some(30)), FileAction::Keep);
    assert_eq!(m.decide(&name, Some(40)), FileAction::Download);
}
