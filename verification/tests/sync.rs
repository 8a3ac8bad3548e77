//! Statistics of syncs, and what jobs and sources decide.

use proxmox_backup::namespace::BackupNamespace;
use proxmox_backup::server::stats::{
    RemovedVanishedStats, SharedGroupProgress, SkipInfo, SkipReason, StoreProgress, SyncStats,
};
use proxmox_backup::server::sync::{
    client_log_line, datastore_path, do_sync_job, finish_error_line, key_loaded_line,
    list_groups_error, load_error_message, named_namespace, namespace_query,
    notification_error_line, on_load_failure, on_namespace_failure, skip_chunk_sync, start_lines,
    step_sync_job, summary_lines, try_fetch_client_log, ClientLogAction, ClientLogEvent,
    ClientLogState, JobAction, JobEvent, JobResult, JobState, LoadFailure, NamespaceFallback,
    RequestFailure, SyncDirection, SyncJob, SyncJobError,
};

fn ns(components: &[&str]) -> BackupNamespace {
    BackupNamespace { components: components.iter().map(|c| c.to_string()).collect() }
}

fn removed(groups: usize, snapshots: usize, namespaces: usize) -> RemovedVanishedStats {
    RemovedVanishedStats { groups, snapshots, namespaces }
}

fn stats(chunk_count: usize, bytes: usize, elapsed: u128) -> SyncStats {
    SyncStats { chunk_count, bytes, elapsed, removed: None }
}

#[test]
fn stats_add_up() {
    let mut sum = SyncStats::default();
    sum.add(stats(2, 100, 7));
    assert_eq!(sum, stats(2, 100, 7));
    sum.add(SyncStats::from(removed(1, 2, 0)));
    assert_eq!(sum.removed, Some(removed(1, 2, 0)));
    sum.add(SyncStats { chunk_count: 1, bytes: 11, elapsed: 3, removed: Some(removed(0, 1, 4)) });
    assert_eq!(
        sum,
        SyncStats { chunk_count: 3, bytes: 111, elapsed: 10, removed: Some(removed(1, 3, 4)) }
    );
}

#[test]
fn order_of_stats_does_not_matter() {
    let a = SyncStats { chunk_count: 1, bytes: 2, elapsed: 3, removed: Some(removed(4, 5, 6)) };
    let b = stats(10, 20, 30);
    let c = SyncStats::from(removed(7, 8, 9));
    let mut left = a;
    left.add(b);
    left.add(c);
    let mut right = c;
    right.add(b);
    right.add(a);
    assert_eq!(left, right);
    let mut same = a;
    same.add(SyncStats::default());
    assert_eq!(same, a);
}

#[test]
fn stats_that_do_not_fit_are_seen() {
    let full = stats(usize::MAX, 0, 0);
    assert!(!full.can_add(&stats(1, 0, 0)));
    assert!(full.can_add(&stats(0, 1, 1)));
    let many = SyncStats::from(removed(0, usize::MAX, 0));
    assert!(!many.can_add(&SyncStats::from(removed(0, 1, 0))));
    assert!(many.can_add(&stats(1, 1, 1)));
}

#[test]
fn skipped_snapshots_are_summarised() {
    let mut info = SkipInfo::new(SkipReason::TransferLast);
    assert!(info.affected_times().is_empty());
    assert_eq!(info.affected(&vec![]), "");
    info.update(30);
    assert_eq!(info.affected_times(), vec![30]);
    info.update(10);
    info.update(20);
    assert_eq!(info.affected_times(), vec![10, 30]);
    let printed = vec!["ten".to_string(), "thirty".to_string()];
    assert_eq!(info.affected(&printed), "ten .. thirty");
    assert_eq!(
        info.to_string(&printed),
        "skipped: 3 snapshot(s) (ten .. thirty) - due to transfer-last"
    );
    info.reset();
    assert_eq!(info, SkipInfo::new(SkipReason::TransferLast));
    let mut one = SkipInfo::new(SkipReason::AlreadySynced);
    one.update(-1);
    assert_eq!(
        one.to_string(&vec!["then".to_string()]),
        "skipped: 1 snapshot(s) (then) - older than the newest snapshot present on sync target"
    );
}

#[test]
fn group_progress_counts() {
    let mut shared = SharedGroupProgress::with_total_groups(3);
    assert_eq!(shared.load_done(), 0);
    assert_eq!(shared.increment_done(), 1);
    assert_eq!(shared.increment_done(), 2);
    assert_eq!(shared.load_done(), 2);
    assert_eq!(shared.total_groups(), 3);
    let progress = StoreProgress::new(3);
    assert_eq!(progress.total_groups, 3);
    assert_eq!(progress.done_groups, 0);
}

fn job(remote: Option<&str>, direction: Option<SyncDirection>) -> SyncJob {
    SyncJob {
        remote: remote.map(|r| r.to_string()),
        remote_store: "far".to_string(),
        store: "near".to_string(),
        ns: Some(ns(&["a", "b"])),
        sync_direction: direction,
    }
}

#[test]
fn jobs_have_ids() {
    let remote = job(Some("host"), None);
    assert_eq!(do_sync_job(&remote, "daily").unwrap(), "host:far:near:a/b:daily");
    let mut local = job(None, None);
    local.ns = None;
    assert_eq!(do_sync_job(&local, "daily").unwrap(), "-:far:near::daily");
    local.remote_store = "near".to_string();
    let err = do_sync_job(&local, "daily").unwrap_err();
    assert_eq!(err, SyncJobError::SameDatastore);
    assert_eq!(err.to_string(), "can't sync to same datastore");
    local.remote = Some("host".to_string());
    assert!(do_sync_job(&local, "daily").is_ok());
}

#[test]
fn push_needs_a_remote() {
    let push = job(None, Some(SyncDirection::Push));
    let err = push.check_direction().unwrap_err();
    assert_eq!(err, SyncJobError::MissingRemote);
    assert_eq!(err.to_string(), "missing required remote");
    assert_eq!(job(None, None).check_direction(), Ok(SyncDirection::Pull));
    assert_eq!(
        job(Some("r"), Some(SyncDirection::Push)).check_direction(),
        Ok(SyncDirection::Push)
    );
}

#[test]
fn job_log_opens_and_closes() {
    let pull = job(Some("host"), None);
    assert_eq!(
        start_lines(&pull, "s-1", &Some("hourly".to_string())),
        vec![
            "Starting datastore sync job 's-1'",
            "task triggered by schedule 'hourly'",
            "sync datastore 'near' from 'host/far'",
        ]
    );
    let push = job(Some("host"), Some(SyncDirection::Push));
    assert_eq!(
        start_lines(&push, "s-1", &None),
        vec!["Starting datastore sync job 's-1'", "sync datastore 'near' to 'host/far'"]
    );
    assert_eq!(
        summary_lines(SyncDirection::Pull, &stats(3, 1024, 5), "1 KiB", "200 B", "s-1"),
        vec![
            "Summary: sync job pulled 1 KiB in 3 chunks (average rate: 200 B/s)",
            "sync job 's-1' end",
        ]
    );
    assert_eq!(
        summary_lines(SyncDirection::Push, &SyncStats::from(removed(2, 1, 3)), "", "", "s-1"),
        vec![
            "Summary: sync job found no new data to push",
            "Summary: removed vanished: snapshots: 1, groups: 2, namespaces: 3",
            "sync job 's-1' end",
        ]
    );
}

#[test]
fn jobs_are_reported_whatever_happens() {
    for (event, result) in [
        (JobEvent::Finished, JobResult::Succeeded),
        (JobEvent::Failed, JobResult::Failed),
        (JobEvent::Aborted, JobResult::Aborted),
    ] {
        let (state, action) = step_sync_job(JobState::Starting, JobEvent::Finished);
        assert_eq!(action, JobAction::Run);
        let (state, action) = step_sync_job(state, event);
        assert_eq!(action, JobAction::SaveState(result));
        let (state, action) = step_sync_job(state, JobEvent::Failed);
        assert_eq!(action, JobAction::Notify(result));
        let (state, action) = step_sync_job(state, JobEvent::Failed);
        assert_eq!(action, JobAction::End(result));
        assert_eq!(state, JobState::Ended);
    }
    assert_eq!(step_sync_job(JobState::Starting, JobEvent::Failed).1, JobAction::Abort);
    assert_eq!(finish_error_line("e"), "could not finish job state: e");
    assert_eq!(notification_error_line("e"), "send sync notification failed: e");
}

#[test]
fn requests_name_what_they_ask_for() {
    assert_eq!(datastore_path("s", "groups"), "api2/json/admin/datastore/s/groups");
    assert!(namespace_query(&ns(&[]), Some(0)).is_none());
    let root = namespace_query(&ns(&[]), None).unwrap();
    assert_eq!(root.max_depth, None);
    assert_eq!(root.parent, None);
    let inner = namespace_query(&ns(&["a", "b"]), Some(0)).unwrap();
    assert_eq!(inner.max_depth, Some(0));
    assert_eq!(inner.parent, Some("a/b".to_string()));
    assert_eq!(named_namespace(&ns(&[])), None);
    assert_eq!(named_namespace(&ns(&["a"])), Some("a".to_string()));
    assert_eq!(list_groups_error("e"), "Failed to retrieve backup groups from remote - e");
    assert_eq!(
        key_loaded_line("k", "aa:bb"),
        "Loaded encryption key 'k' with fingerprint 'aa:bb'"
    );
}

#[test]
fn old_remotes_are_pulled_from_without_namespaces() {
    let missing = RequestFailure::Http { code: 404 };
    let mut depth = None;
    let fallback = on_namespace_failure(&ns(&[]), &mut depth, missing);
    assert_eq!(fallback, NamespaceFallback::RootOnly);
    assert_eq!(depth, Some(0));
    assert_eq!(fallback.message("404", "m"), None);
    let mut depth = Some(2);
    let fallback = on_namespace_failure(&ns(&[]), &mut depth, missing);
    assert_eq!(fallback, NamespaceFallback::NotSupported);
    assert_eq!(depth, Some(2));
    assert_eq!(
        fallback.message("404", "m").unwrap(),
        "Remote namespace set/recursive sync requested, but remote does not support namespaces."
    );
    let mut depth = None;
    assert_eq!(
        on_namespace_failure(&ns(&["a"]), &mut depth, missing),
        NamespaceFallback::NotSupported
    );
    let refused = RequestFailure::Http { code: 403 };
    let fallback = on_namespace_failure(&ns(&[]), &mut depth, refused);
    assert_eq!(
        fallback.message("403 Forbidden", "no").unwrap(),
        "Querying namespaces failed - HTTP error 403 Forbidden - no"
    );
    let fallback = on_namespace_failure(&ns(&[]), &mut depth, RequestFailure::Other);
    assert_eq!(fallback.message("", "down").unwrap(), "Querying namespaces failed - down");
    assert_eq!(depth, None);
}

#[test]
fn missing_files_are_told_from_errors() {
    assert_eq!(on_load_failure(RequestFailure::Http { code: 404 }), LoadFailure::NotThere);
    assert_eq!(on_load_failure(RequestFailure::Http { code: 500 }), LoadFailure::HttpError);
    assert_eq!(on_load_failure(RequestFailure::Other), LoadFailure::Failed);
    assert_eq!(load_error_message("vm/1/t", "500", "m"), "Snapshot vm/1/t: HTTP error 500 - m");
}

#[test]
fn chunks_of_the_same_store_are_skipped() {
    assert!(skip_chunk_sync(&Some("s".to_string()), "s"));
    assert!(!skip_chunk_sync(&Some("s".to_string()), "t"));
    assert!(!skip_chunk_sync(&None, "s"));
}

fn fetch_log(remote: bool, decrypt: bool, found: bool) -> Vec<ClientLogAction> {
    let mut actions = Vec::new();
    let mut state = ClientLogState::Start;
    let mut event = ClientLogEvent::Finished;
    while state != ClientLogState::Ended {
        let (next, action) = try_fetch_client_log(remote, decrypt, state, event);
        actions.push(action);
        state = next;
        event = if action == ClientLogAction::Probe && !found {
            ClientLogEvent::NoLog
        } else {
            ClientLogEvent::Finished
        };
    }
    actions
}

#[test]
fn client_log_is_fetched() {
    assert_eq!(
        fetch_log(true, false, true),
        vec![
            ClientLogAction::Probe,
            ClientLogAction::Place,
            ClientLogAction::LogFetched,
            ClientLogAction::Done,
        ]
    );
    assert_eq!(
        fetch_log(true, true, true),
        vec![
            ClientLogAction::Probe,
            ClientLogAction::Decrypt,
            ClientLogAction::RemoveTmp,
            ClientLogAction::LogFetched,
            ClientLogAction::Done,
        ]
    );
    assert_eq!(
        fetch_log(false, true, true),
        vec![
            ClientLogAction::Probe,
            ClientLogAction::Decrypt,
            ClientLogAction::LogFetched,
            ClientLogAction::Done,
        ]
    );
    assert_eq!(fetch_log(false, false, false), vec![ClientLogAction::Probe, ClientLogAction::Done]);
    assert_eq!(
        try_fetch_client_log(true, false, ClientLogState::Probing, ClientLogEvent::Failed).1,
        ClientLogAction::Abort
    );
    assert_eq!(
        client_log_line("vm/1/t", "client.log.blob"),
        "Snapshot vm/1/t: got backup log file client.log.blob"
    );
}
