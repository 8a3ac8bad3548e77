//! Pulling chunks, archives, snapshots, groups, namespaces and datastores.

use proxmox_backup::auth::Authid;
use proxmox_backup::datastore::backup_info::GroupId;
use proxmox_backup::datastore::destroy::GroupDeleteStats;
use proxmox_backup::namespace::BackupNamespace;
use proxmox_backup::server::pull::archive::{
    archive_prefix, skip_chunks_line, sync_archive_line, verify_archive, ArchiveAction,
    ArchiveEvent, ArchiveMismatch, ArchivePull, ArchiveState, FileInfo,
};
use proxmox_backup::server::pull::chunks::{
    wants_chunk, ChunkAction, ChunkEvent, ChunkInfo, ChunkPull, ChunkTask, IndexEntry, IndexKind,
};
use proxmox_backup::server::pull::decryption::{
    choose_decryption_key, decrypt_line, log_choice, optionally_use_decryption_key, Decryption,
    DecryptionError, DecryptionKey, KeyChoice, ManifestKeys, ReadFingerprint, SignatureCheck,
};
use proxmox_backup::server::pull::encountered::{EncounteredChunks, ReusableEncounteredChunk};
use proxmox_backup::server::pull::group::{
    check_vanished, exclude_not_verified_or_encrypted, filter_out_in_progress, keep_vanished_line,
    list_candidates, needs_resync, parallel_progress_line, remove_vanished_line,
    reuses_last_backup, select_snapshots, source_snapshots, BackupContent, Candidate, GroupAction,
    GroupEvent, GroupPull, LocalSnapshot, SelectionRules, SnapshotListItem, VanishedVerdict,
};
use proxmox_backup::server::pull::ns::{
    check_and_create_ns, check_and_remove_ns, check_and_remove_vanished_ns, cleanup_error_line,
    create_ns_step, delete_group_line, group_failed_line, groups_found_line, in_source,
    join_error, kept_snapshots_line, lock_and_pull_group, lock_failed_line, log_buffering,
    owner_mismatch_line, removal_depth, removal_line, removal_not_allowed, vanished_namespaces,
    CreateNsAction, CreateNsError, CreateNsEvent, CreateNsState, GroupStart, NsAction, NsEvent,
    NsPull, RemoveNsResult,
};
use proxmox_backup::server::pull::params::{
    check_max_depth, PullOptions, PullParameters, PullSource, RemoteConfig,
};
use proxmox_backup::server::pull::snapshot::{
    ignore_not_verified_or_encrypted, not_verified_line, pull_snapshot_from, snapshot_result,
    sync_done_line, unchanged_line, ReadVerifyState, SnapshotAction, SnapshotEnd, SnapshotEvent,
    SnapshotPull, SnapshotState,
};
use proxmox_backup::server::pull::store::{
    namespace_done_line, queries_namespaces, sort_namespaces, store_and_ns, StoreAction, StoreEvent,
    StorePull,
};
use proxmox_backup::server::pull::unprotected::{decrypted_unprotected, MISSING_UNPROTECTED};
use proxmox_backup::server::stats::{RemovedVanishedStats, StoreProgress, SyncStats};
use proxmox_backup::types::{ArchiveType, BackupType, CryptMode, Digest, Level, VerifyState};

fn digest(n: u128) -> Digest {
    Digest { hi: n, lo: !n }
}

fn ns(path: &str) -> BackupNamespace {
    let components = path.split('/').filter(|c| !c.is_empty()).map(|c| c.to_string()).collect();
    BackupNamespace { components }
}

#[test]
fn local_groups_are_looked_for_in_the_source() {
    let group = |ty, id: &str| GroupId { ty, id: id.to_string() };
    let list = vec![group(BackupType::Vm, "100"), group(BackupType::Ct, "101")];
    assert!(in_source(&list, &group(BackupType::Ct, "101")));
    assert!(!in_source(&list, &group(BackupType::Vm, "101")));
    assert!(!in_source(&list, &group(BackupType::Vm, "10")));
    assert!(!in_source(&vec![], &group(BackupType::Vm, "100")));
}

fn names(list: &Vec<BackupNamespace>) -> Vec<String> {
    list.iter().map(|n| n.to_string()).collect()
}

fn stats(chunk_count: usize, bytes: usize) -> SyncStats {
    SyncStats { chunk_count, bytes, elapsed: 1, removed: None }
}

// ---- chunks ----

fn reusable(chunks: &EncounteredChunks, n: u128) -> Option<(bool, Option<Digest>)> {
    let found: Option<ReusableEncounteredChunk> = chunks.check_reusable(&digest(n));
    found.map(|r| (r.touched, r.decrypted_digest))
}

#[test]
fn marks_are_kept() {
    let mut chunks = EncounteredChunks::with_capacity(16);
    assert_eq!(reusable(&chunks, 1), None);
    chunks.mark_touched(&digest(1), None);
    assert_eq!(reusable(&chunks, 1), None);
    chunks.mark_reusable(&digest(1), Some(digest(10)));
    assert_eq!(reusable(&chunks, 1), Some((true, Some(digest(10)))));
    chunks.mark_reusable(&digest(1), Some(digest(11)));
    assert_eq!(reusable(&chunks, 1), Some((true, Some(digest(10)))));
    chunks.mark_reusable(&digest(2), None);
    assert_eq!(reusable(&chunks, 2), Some((false, None)));
    chunks.mark_touched(&digest(2), Some(digest(20)));
    assert_eq!(reusable(&chunks, 2), Some((true, Some(digest(20)))));
}

#[test]
fn digests_that_share_a_half_differ() {
    let mut chunks = EncounteredChunks::with_capacity(0);
    chunks.mark_all_reusable(&vec![Digest { hi: 1, lo: 2 }, Digest { hi: 1, lo: 3 }]);
    assert!(chunks.check_reusable(&Digest { hi: 1, lo: 2 }).is_some());
    assert!(chunks.check_reusable(&Digest { hi: 1, lo: 3 }).is_some());
    assert!(chunks.check_reusable(&Digest { hi: 2, lo: 1 }).is_none());
    assert!(chunks.check_reusable(&Digest { hi: 1, lo: 1 }).is_none());
}

#[test]
fn chunk_is_pulled_once() {
    let mut chunks = EncounteredChunks::with_capacity(16);
    let mut pull = ChunkPull::new(None);
    let info = ChunkInfo { digest: digest(7), size: 4096 };
    assert!(!pull.keeps_order());
    assert!(wants_chunk(&chunks, &info.digest));
    let (task, action) = pull.step(&mut chunks, &info, ChunkTask::Start, ChunkEvent::Begin);
    assert_eq!(action, ChunkAction::ReadRaw);
    assert!(!wants_chunk(&chunks, &info.digest));
    // a second task for the chunk has nothing to do
    let (other, finished) = pull.step(&mut chunks, &info, ChunkTask::Start, ChunkEvent::Begin);
    assert_eq!((other, finished), (ChunkTask::Done, ChunkAction::Finish));
    let (task, action) = pull.step(&mut chunks, &info, task, ChunkEvent::Raw { raw_size: 100 });
    assert_eq!(action, ChunkAction::Write { digest: digest(7), size: 4096 });
    let (_, action) = pull.step(&mut chunks, &info, task, ChunkEvent::Written);
    assert_eq!(action, ChunkAction::Finish);
    let sum = pull.finish(9);
    assert_eq!(sum, SyncStats { chunk_count: 1, bytes: 100, elapsed: 9, removed: None });
}

#[test]
fn known_chunk_is_touched() {
    let mut chunks = EncounteredChunks::with_capacity(16);
    chunks.mark_reusable(&digest(7), None);
    let mut pull = ChunkPull::new(None);
    let info = ChunkInfo { digest: digest(7), size: 1 };
    let (task, action) = pull.step(&mut chunks, &info, ChunkTask::Start, ChunkEvent::Begin);
    assert_eq!(action, ChunkAction::Touch);
    let (_, action) =
        pull.step(&mut chunks, &info, task, ChunkEvent::Touched { exists: true });
    assert_eq!(action, ChunkAction::Finish);
    assert!(!wants_chunk(&chunks, &digest(7)));
    assert_eq!(pull.finish(0).chunk_count, 0);
    // one that is gone is read
    chunks.mark_reusable(&digest(8), None);
    let info = ChunkInfo { digest: digest(8), size: 1 };
    let (task, _) = pull.step(&mut chunks, &info, ChunkTask::Start, ChunkEvent::Begin);
    let (_, action) =
        pull.step(&mut chunks, &info, task, ChunkEvent::Touched { exists: false });
    assert_eq!(action, ChunkAction::ReadRaw);
}

#[test]
fn decrypted_chunks_are_indexed_in_order() {
    let mut chunks = EncounteredChunks::with_capacity(16);
    let mut pull = ChunkPull::new(Some(IndexKind::Dynamic));
    assert!(pull.keeps_order());
    let info = ChunkInfo { digest: digest(1), size: 10 };
    let (task, action) = pull.step(&mut chunks, &info, ChunkTask::Start, ChunkEvent::Begin);
    assert_eq!(action, ChunkAction::ReadPlain);
    let plain = ChunkEvent::Plain { digest: digest(100), size: 10, raw_size: 6 };
    let (task, action) = pull.step(&mut chunks, &info, task, plain);
    assert_eq!(
        action,
        ChunkAction::AddIndex(IndexEntry::Dynamic { end: 10, digest: digest(100) })
    );
    let (task, action) = pull.step(&mut chunks, &info, task, ChunkEvent::Indexed);
    assert_eq!(action, ChunkAction::Write { digest: digest(100), size: 10 });
    let (_, action) = pull.step(&mut chunks, &info, task, ChunkEvent::Written);
    assert_eq!(action, ChunkAction::Finish);
    // the same chunk again is only indexed
    assert!(wants_chunk(&chunks, &digest(1)));
    let (task, action) = pull.step(&mut chunks, &info, ChunkTask::Start, ChunkEvent::Begin);
    assert_eq!(
        action,
        ChunkAction::AddIndex(IndexEntry::Dynamic { end: 20, digest: digest(100) })
    );
    let (_, action) = pull.step(&mut chunks, &info, task, ChunkEvent::Indexed);
    assert_eq!(action, ChunkAction::Finish);
    assert_eq!(pull.finish(0).bytes, 6);
    // a fixed index names where a chunk starts
    let mut fixed = ChunkPull::new(Some(IndexKind::Fixed));
    let (_, action) = fixed.step(&mut chunks, &info, ChunkTask::Start, ChunkEvent::Begin);
    assert_eq!(
        action,
        ChunkAction::AddIndex(IndexEntry::Fixed { offset: 0, size: 10, digest: digest(100) })
    );
    assert_eq!(fixed.offset, 10);
}

#[test]
fn failed_chunk_aborts() {
    let mut chunks = EncounteredChunks::with_capacity(16);
    let mut pull = ChunkPull::new(None);
    let info = ChunkInfo { digest: digest(1), size: 1 };
    let (task, action) =
        pull.step(&mut chunks, &info, ChunkTask::ReadingRaw, ChunkEvent::Failed);
    assert_eq!((task, action), (ChunkTask::Failed, ChunkAction::Abort));
}

// ---- archives ----

fn file(name: &str) -> FileInfo {
    FileInfo {
        filename: name.to_string(),
        crypt_mode: CryptMode::Encrypt,
        size: 64,
        csum: digest(5),
    }
}

#[test]
fn archives_are_verified() {
    let info = file("disk.img.fidx");
    assert_eq!(verify_archive(&info, &digest(5), 64), Ok(()));
    let err = verify_archive(&info, &digest(6), 63).unwrap_err();
    assert_eq!(err, ArchiveMismatch::WrongSize { expected: 64, found: 63 });
    assert_eq!(
        err.message("disk.img.fidx"),
        "wrong size for file 'disk.img.fidx' (64 != 63)"
    );
    let err = verify_archive(&info, &digest(6), 64).unwrap_err();
    assert_eq!(err.message("disk.img.fidx"), "wrong checksum for file 'disk.img.fidx'");
}

fn run_archive(pull: &ArchivePull, ty: ArchiveType) -> Vec<ArchiveAction> {
    let mut actions = Vec::new();
    let mut state = ArchiveState::Start;
    let mut event = ArchiveEvent::Finished;
    loop {
        let (next, action) = pull.step(state, event);
        actions.push(action);
        state = next;
        event = match action {
            ArchiveAction::Open => ArchiveEvent::Opened(ty),
            ArchiveAction::ReadIndex(_) | ArchiveAction::HashBlob => {
                ArchiveEvent::Checksum { csum: digest(5), size: 64 }
            }
            ArchiveAction::DecryptBlob => ArchiveEvent::Checksum { csum: digest(50), size: 32 },
            ArchiveAction::PullChunks => ArchiveEvent::Pulled(stats(3, 30)),
            ArchiveAction::CloseWriter => ArchiveEvent::Closed { csum: digest(51) },
            ArchiveAction::Complete(_) | ArchiveAction::Reject(_) | ArchiveAction::Abort => {
                return actions
            }
            _ => ArchiveEvent::Finished,
        };
    }
}

#[test]
fn archive_is_pulled_as_it_is() {
    let mut pull = ArchivePull {
        info: file("disk.img.fidx"),
        decrypt: false,
        skip_chunk_sync: false,
        new_manifest: false,
    };
    assert_eq!(
        run_archive(&pull, ArchiveType::FixedIndex),
        vec![
            ArchiveAction::LogSync,
            ArchiveAction::Load,
            ArchiveAction::Open,
            ArchiveAction::ReadIndex(IndexKind::Fixed),
            ArchiveAction::PullChunks,
            ArchiveAction::Rename { decrypted: false },
            ArchiveAction::Upload,
            ArchiveAction::Complete(stats(3, 30)),
        ]
    );
    pull.skip_chunk_sync = true;
    assert_eq!(
        run_archive(&pull, ArchiveType::DynamicIndex),
        vec![
            ArchiveAction::LogSync,
            ArchiveAction::Load,
            ArchiveAction::Open,
            ArchiveAction::ReadIndex(IndexKind::Dynamic),
            ArchiveAction::LogSkip,
            ArchiveAction::Rename { decrypted: false },
            ArchiveAction::Upload,
            ArchiveAction::Complete(SyncStats::default()),
        ]
    );
    assert_eq!(
        run_archive(&pull, ArchiveType::Blob),
        vec![
            ArchiveAction::LogSync,
            ArchiveAction::Load,
            ArchiveAction::Open,
            ArchiveAction::HashBlob,
            ArchiveAction::Rename { decrypted: false },
            ArchiveAction::Upload,
            ArchiveAction::Complete(SyncStats::default()),
        ]
    );
}

#[test]
fn archive_is_decrypted() {
    let pull = ArchivePull {
        info: file("root.pxar.didx"),
        decrypt: true,
        skip_chunk_sync: true,
        new_manifest: true,
    };
    assert_eq!(
        run_archive(&pull, ArchiveType::DynamicIndex),
        vec![
            ArchiveAction::LogSync,
            ArchiveAction::Load,
            ArchiveAction::Open,
            ArchiveAction::ReadIndex(IndexKind::Dynamic),
            ArchiveAction::CreateWriter { kind: IndexKind::Dynamic, size: 64 },
            ArchiveAction::PullChunks,
            ArchiveAction::CloseWriter,
            ArchiveAction::AddToManifest { csum: digest(51), size: 64 },
            ArchiveAction::RemoveTmp,
            ArchiveAction::Rename { decrypted: true },
            ArchiveAction::Upload,
            ArchiveAction::Complete(stats(3, 30)),
        ]
    );
    assert_eq!(
        run_archive(&pull, ArchiveType::Blob),
        vec![
            ArchiveAction::LogSync,
            ArchiveAction::Load,
            ArchiveAction::Open,
            ArchiveAction::HashBlob,
            ArchiveAction::DecryptBlob,
            ArchiveAction::AddToManifest { csum: digest(50), size: 32 },
            ArchiveAction::RemoveTmp,
            ArchiveAction::Rename { decrypted: true },
            ArchiveAction::Upload,
            ArchiveAction::Complete(SyncStats::default()),
        ]
    );
}

#[test]
fn unverified_archive_is_not_put_in_place() {
    let pull = ArchivePull {
        info: file("a.blob"),
        decrypt: false,
        skip_chunk_sync: false,
        new_manifest: false,
    };
    let bad = ArchiveEvent::Checksum { csum: digest(6), size: 64 };
    let (state, action) = pull.step(ArchiveState::HashingBlob, bad);
    assert_eq!(action, ArchiveAction::Reject(ArchiveMismatch::WrongChecksum));
    assert_eq!(pull.step(state, ArchiveEvent::Finished).1, ArchiveAction::Abort);
    let prefix = archive_prefix("2024-01-01T00:00:00Z", "a.blob");
    assert_eq!(sync_archive_line(&prefix), "2024-01-01T00:00:00Z/a.blob: sync archive");
    assert_eq!(
        skip_chunks_line(&prefix),
        "2024-01-01T00:00:00Z/a.blob: skipping chunk sync for same datastore"
    );
}

// ---- decryption ----

fn manifest(fingerprint: ReadFingerprint, modes: &[CryptMode]) -> ManifestKeys {
    ManifestKeys { fingerprint, crypt_modes: modes.to_vec() }
}

fn keys(fingerprints: &[u128]) -> Vec<DecryptionKey> {
    fingerprints
        .iter()
        .map(|n| DecryptionKey { id: format!("key{}", n), fingerprint: digest(*n) })
        .collect()
}

#[test]
fn keys_are_chosen() {
    let encrypted =
        manifest(ReadFingerprint::Present(digest(2)), &[CryptMode::Encrypt, CryptMode::Encrypt]);
    let signed =
        manifest(ReadFingerprint::Present(digest(2)), &[CryptMode::Encrypt, CryptMode::SignOnly]);
    let plain = manifest(ReadFingerprint::Missing, &[]);
    let all = keys(&[1, 2, 2]);
    assert_eq!(choose_decryption_key(&plain, &None, &all), KeyChoice::Regular);
    assert_eq!(
        choose_decryption_key(&encrypted, &None, &all),
        KeyChoice::CheckSignature { key: 1 }
    );
    assert_eq!(
        choose_decryption_key(&signed, &None, &all),
        KeyChoice::NotFullyEncrypted { key: 1 }
    );
    assert_eq!(choose_decryption_key(&encrypted, &None, &keys(&[1])), KeyChoice::NoMatchingKey);
    assert_eq!(choose_decryption_key(&encrypted, &None, &keys(&[])), KeyChoice::Regular);
    assert_eq!(
        choose_decryption_key(&encrypted, &Some(plain), &keys(&[1])),
        KeyChoice::Refuse(DecryptionError::NoMatchingKey)
    );
    let unreadable = manifest(ReadFingerprint::Unreadable, &[]);
    assert_eq!(
        choose_decryption_key(&unreadable, &None, &all),
        KeyChoice::Refuse(DecryptionError::SourceFingerprint)
    );
}

#[test]
fn local_snapshot_decides() {
    let source = manifest(ReadFingerprint::Present(digest(2)), &[CryptMode::Encrypt]);
    let all = keys(&[2]);
    let same = manifest(ReadFingerprint::Present(digest(2)), &[CryptMode::Encrypt, CryptMode::Encrypt]);
    assert_eq!(choose_decryption_key(&source, &Some(same), &all), KeyChoice::Regular);
    let signed = manifest(ReadFingerprint::Present(digest(2)), &[CryptMode::SignOnly]);
    assert_eq!(
        choose_decryption_key(&source, &Some(signed), &all),
        KeyChoice::CheckSignature { key: 0 }
    );
    let other = manifest(ReadFingerprint::Present(digest(3)), &[CryptMode::Encrypt]);
    assert_eq!(
        choose_decryption_key(&source, &Some(other), &all),
        KeyChoice::Refuse(DecryptionError::DifferentKey)
    );
    let unreadable = manifest(ReadFingerprint::Unreadable, &[]);
    assert_eq!(
        choose_decryption_key(&source, &Some(unreadable), &all),
        KeyChoice::Refuse(DecryptionError::TargetFingerprint)
    );
    assert_eq!(
        DecryptionError::DifferentKey.message(),
        Some("Local encrypted or signed snapshot with different key detected, refuse to sync")
    );
    assert_eq!(DecryptionError::TargetFingerprint.message(), None);
}

#[test]
fn decrypted_snapshot_is_not_overwritten() {
    let mut check = SignatureCheck {
        signature_ok: true,
        existing: false,
        change_fingerprint: ReadFingerprint::Missing,
        target_signature: None,
    };
    assert_eq!(
        optionally_use_decryption_key(4, &check),
        Decryption::Use { key: 4, skip: false }
    );
    check.existing = true;
    assert_eq!(
        optionally_use_decryption_key(4, &check),
        Decryption::Refuse(DecryptionError::NoChangeFingerprint)
    );
    check.change_fingerprint = ReadFingerprint::Unreadable;
    assert_eq!(
        optionally_use_decryption_key(4, &check),
        Decryption::Refuse(DecryptionError::ChangeFingerprint)
    );
    check.change_fingerprint = ReadFingerprint::Present(digest(1));
    assert_eq!(
        optionally_use_decryption_key(4, &check),
        Decryption::Refuse(DecryptionError::TargetSignature)
    );
    check.target_signature = Some(digest(2));
    assert_eq!(
        optionally_use_decryption_key(4, &check),
        Decryption::Refuse(DecryptionError::ChangeFingerprintMismatch)
    );
    check.target_signature = Some(digest(1));
    assert_eq!(
        optionally_use_decryption_key(4, &check),
        Decryption::Use { key: 4, skip: true }
    );
    check.signature_ok = false;
    assert_eq!(
        optionally_use_decryption_key(4, &check),
        Decryption::Refuse(DecryptionError::Signature)
    );
}

#[test]
fn choices_are_logged() {
    let all = keys(&[1]);
    assert_eq!(log_choice(KeyChoice::Regular, &all, "p", "aa"), None);
    assert_eq!(
        log_choice(KeyChoice::NoMatchingKey, &all, "p", "aa"),
        Some((Level::Info, "p: No matching key found, sync without decryption".to_string()))
    );
    assert_eq!(
        log_choice(KeyChoice::NotFullyEncrypted { key: 0 }, &all, "p", "aa"),
        Some((
            Level::Warn,
            "Snapshot not fully encrypted, sync as is despite matching key 'key1' with \
             fingerprint aa"
                .to_string()
        ))
    );
    assert_eq!(
        decrypt_line("key1", "aa"),
        "Found matching key 'key1' with fingerprint aa, decrypt on pull"
    );
}

#[test]
fn decrypted_manifest_forgets_its_key() {
    let text = r#"{"change-detection-fingerprint":"a","key-fingerprint":"b",
        "verify_state":{"state":"ok"},"notes":"kept","chunk_upload_stats":{"count":1}}"#;
    let value: serde_json::Value = serde_json::from_str(text).unwrap();
    let map = value.as_object().unwrap().clone();
    let left = decrypted_unprotected(Some(map)).unwrap();
    assert_eq!(left.len(), 2);
    assert_eq!(left.get("notes").unwrap().as_str(), Some("kept"));
    assert!(left.contains_key("chunk_upload_stats"));
    assert!(!left.contains_key("key-fingerprint"));
    assert_eq!(decrypted_unprotected(None).unwrap_err(), MISSING_UNPROTECTED);
    assert_eq!(
        MISSING_UNPROTECTED,
        "Encountered unexpected manifest without 'unprotected' section."
    );
}

// ---- snapshots ----

fn snapshot_pull() -> SnapshotPull {
    SnapshotPull {
        is_new: true,
        corrupt: false,
        verified_only: false,
        encrypted_only: false,
        s3: false,
    }
}

fn parsed(files: usize) -> SnapshotEvent {
    SnapshotEvent::Parsed { verify: ReadVerifyState::Missing, encrypted: false, files }
}

fn run_snapshot(pull: &SnapshotPull, answers: &[SnapshotEvent]) -> Vec<SnapshotAction> {
    let mut actions = Vec::new();
    let mut state = SnapshotState::new();
    for event in answers {
        let (next, action) = pull.step(state, *event);
        actions.push(action);
        state = next;
    }
    actions
}

#[test]
fn new_snapshot_is_pulled() {
    let actions = run_snapshot(
        &snapshot_pull(),
        &[
            SnapshotEvent::Finished,
            SnapshotEvent::Finished,
            SnapshotEvent::Loaded { found: true },
            SnapshotEvent::Exists(false),
            parsed(2),
            SnapshotEvent::Decided { decrypt: false, skip: false },
            SnapshotEvent::FileMissing,
            SnapshotEvent::Pulled(stats(1, 10)),
            SnapshotEvent::FileMatches,
            SnapshotEvent::Finished,
            SnapshotEvent::Exists(false),
            SnapshotEvent::Finished,
            SnapshotEvent::Exists(true),
            SnapshotEvent::Finished,
        ],
    );
    assert_eq!(
        actions,
        vec![
            SnapshotAction::LogStart,
            SnapshotAction::LoadManifest,
            SnapshotAction::CheckLocalManifest,
            SnapshotAction::ParseManifest,
            SnapshotAction::DecideDecryption,
            SnapshotAction::CheckFile(0),
            SnapshotAction::PullArchive(0),
            SnapshotAction::CheckFile(1),
            SnapshotAction::RenameManifest,
            SnapshotAction::CheckLog,
            SnapshotAction::DownloadLog,
            SnapshotAction::CheckLog,
            SnapshotAction::CleanupUnreferenced,
            SnapshotAction::Complete(stats(1, 10)),
        ]
    );
}

#[test]
fn unchanged_snapshot_fetches_the_log_only() {
    let mut pull = snapshot_pull();
    pull.is_new = false;
    pull.s3 = true;
    let actions = run_snapshot(
        &pull,
        &[
            SnapshotEvent::Finished,
            SnapshotEvent::Finished,
            SnapshotEvent::Loaded { found: true },
            SnapshotEvent::Exists(true),
            SnapshotEvent::Compared { same: true },
            SnapshotEvent::Exists(false),
            SnapshotEvent::Finished,
            SnapshotEvent::Exists(true),
            SnapshotEvent::Finished,
            SnapshotEvent::Finished,
            SnapshotEvent::Failed,
        ],
    );
    assert_eq!(
        actions[4..],
        [
            SnapshotAction::CheckLog,
            SnapshotAction::DownloadLog,
            SnapshotAction::CheckLog,
            SnapshotAction::UploadLog,
            SnapshotAction::LogUnchanged,
            SnapshotAction::RemoveTmpManifest,
            SnapshotAction::Complete(SyncStats::default()),
        ]
    );
}

#[test]
fn corrupt_snapshot_is_pulled_anew() {
    let mut pull = snapshot_pull();
    pull.is_new = false;
    pull.corrupt = true;
    let actions = run_snapshot(
        &pull,
        &[
            SnapshotEvent::Finished,
            SnapshotEvent::Finished,
            SnapshotEvent::Loaded { found: true },
            parsed(1),
            SnapshotEvent::Decided { decrypt: true, skip: false },
            SnapshotEvent::Pulled(stats(1, 1)),
            SnapshotEvent::Finished,
        ],
    );
    assert_eq!(
        actions[2..],
        [
            SnapshotAction::ParseManifest,
            SnapshotAction::DecideDecryption,
            SnapshotAction::PullArchive(0),
            SnapshotAction::WriteManifest,
            SnapshotAction::RenameManifest,
        ]
    );
    assert_eq!(pull.start_line("t"), "re-sync snapshot t due to corruption");
    pull.corrupt = false;
    assert_eq!(pull.start_line("t"), "re-sync snapshot t");
    pull.is_new = true;
    assert_eq!(pull.start_line("t"), "t: start sync");
    assert_eq!(unchanged_line("t"), "t: no data changes");
    assert_eq!(sync_done_line("t"), "t: sync done");
}

#[test]
fn unwanted_snapshot_is_removed_if_new() {
    let mut pull = snapshot_pull();
    pull.verified_only = true;
    let answers = [
        SnapshotEvent::Finished,
        SnapshotEvent::Finished,
        SnapshotEvent::Loaded { found: true },
        SnapshotEvent::Exists(false),
        parsed(1),
        SnapshotEvent::Finished,
    ];
    let actions = run_snapshot(&pull, &answers);
    assert_eq!(
        actions[4..],
        [SnapshotAction::RemoveDir, SnapshotAction::Complete(SyncStats::default())]
    );
    pull.is_new = false;
    assert_eq!(
        run_snapshot(&pull, &answers[..5])[4],
        SnapshotAction::Complete(SyncStats::default())
    );
    // a snapshot that vanished from the source is no error
    assert_eq!(
        run_snapshot(
            &pull,
            &[
                SnapshotEvent::Finished,
                SnapshotEvent::Finished,
                SnapshotEvent::Loaded { found: false },
            ],
        )[2],
        SnapshotAction::Complete(SyncStats::default())
    );
}

#[test]
fn filters_look_at_the_manifest() {
    let ok = ReadVerifyState::Present(VerifyState::Verified);
    let failed = ReadVerifyState::Present(VerifyState::Failed);
    let modes = vec![CryptMode::Encrypt];
    assert!(!ignore_not_verified_or_encrypted(ok, &modes, true, true));
    assert!(ignore_not_verified_or_encrypted(failed, &modes, true, false));
    assert!(ignore_not_verified_or_encrypted(ReadVerifyState::Missing, &modes, true, false));
    assert!(!ignore_not_verified_or_encrypted(ReadVerifyState::Missing, &modes, false, false));
    assert!(
        ignore_not_verified_or_encrypted(ok, &vec![CryptMode::Encrypt, CryptMode::SignOnly], false, true)
    );
    assert_eq!(
        not_verified_line("vm/1/t"),
        "Snapshot vm/1/t not verified but verified-only set, snapshot skipped"
    );
}

#[test]
fn only_new_snapshots_are_removed_on_error() {
    assert_eq!(pull_snapshot_from(true, false), SnapshotEnd::Remove { force: true });
    assert_eq!(pull_snapshot_from(true, true), SnapshotEnd::LogDone);
    assert_eq!(pull_snapshot_from(false, false), SnapshotEnd::Leave);
    assert_eq!(pull_snapshot_from(false, true), SnapshotEnd::Leave);
    let remove = SnapshotEnd::Remove { force: true };
    let failed: Result<u8, &str> = Err("no reader");
    assert_eq!(snapshot_result(failed, remove, Ok(()), Ok(())), Err("no reader"));
    assert_eq!(snapshot_result(failed, remove, Err("protected"), Ok(())), Err("no reader"));
    assert_eq!(snapshot_result(failed, remove, Err("protected"), Err("log")), Err("log"));
    assert_eq!(snapshot_result(failed, SnapshotEnd::Leave, Ok(()), Ok(())), Err("no reader"));
    assert_eq!(snapshot_result(Ok(7), SnapshotEnd::LogDone, Ok(()), Ok(())), Ok::<u8, &str>(7));
    assert_eq!(snapshot_result(Ok(7), SnapshotEnd::LogDone, Ok(()), Err("log")), Err("log"));
}

// ---- groups ----

fn item(time: i64, size: Option<u64>, verification: Option<VerifyState>) -> SnapshotListItem {
    SnapshotListItem {
        time,
        name: format!("vm/1/{}", time),
        size,
        verification,
        files: vec![BackupContent {
            filename: "index.json.blob".to_string(),
            crypt_mode: Some(CryptMode::SignOnly),
        }],
    }
}

#[test]
fn snapshots_in_progress_are_dropped() {
    let (left, lines) =
        filter_out_in_progress(vec![
            item(2, Some(1), None),
            item(3, None, None),
            item(1, Some(1), None),
        ]);
    assert_eq!(left.iter().map(|i| i.time).collect::<Vec<_>>(), vec![2, 1]);
    assert_eq!(lines, vec!["skipping snapshot vm/1/3 - in-progress backup"]);
    assert_eq!(list_candidates(left, false, false), vec![1, 2]);
}

#[test]
fn unwanted_snapshots_are_left_out() {
    let verified = item(1, Some(1), Some(VerifyState::Verified));
    let mut encrypted = item(2, Some(1), None);
    encrypted.files.push(BackupContent {
        filename: "disk.img.fidx".to_string(),
        crypt_mode: Some(CryptMode::Encrypt),
    });
    encrypted
        .files
        .push(BackupContent { filename: "client.log.blob".to_string(), crypt_mode: None });
    assert!(!exclude_not_verified_or_encrypted(&verified, true, false));
    assert!(exclude_not_verified_or_encrypted(&encrypted, true, false));
    assert!(!exclude_not_verified_or_encrypted(&encrypted, false, true));
    encrypted.files[1].crypt_mode = Some(CryptMode::SignOnly);
    assert!(exclude_not_verified_or_encrypted(&encrypted, false, true));
    let mut unsigned = item(3, Some(1), Some(VerifyState::Failed));
    unsigned.files[0].crypt_mode = None;
    assert!(exclude_not_verified_or_encrypted(&unsigned, false, true));
    assert!(!exclude_not_verified_or_encrypted(&unsigned, false, false));
    assert_eq!(list_candidates(vec![unsigned, encrypted, verified], true, false), vec![1]);
}

#[test]
fn corrupt_snapshots_are_seen() {
    let failed = LocalSnapshot::Found(ReadVerifyState::Present(VerifyState::Failed));
    assert!(needs_resync(true, failed));
    assert!(needs_resync(true, LocalSnapshot::Found(ReadVerifyState::Unreadable)));
    assert!(!needs_resync(true, LocalSnapshot::Found(ReadVerifyState::Missing)));
    assert!(!needs_resync(true, LocalSnapshot::Missing));
    assert!(!needs_resync(false, failed));
    assert!(!reuses_last_backup(Some(VerifyState::Failed)));
    assert!(reuses_last_backup(Some(VerifyState::Verified)));
    assert!(reuses_last_backup(None));
}

fn candidates(times: &[i64]) -> Vec<Candidate> {
    times.iter().map(|time| Candidate { time: *time, corrupt: false }).collect()
}

fn pulled(rules: &SelectionRules, list: &Vec<Candidate>) -> Vec<i64> {
    select_snapshots(rules, list).list.iter().map(|c| c.time).collect()
}

#[test]
fn snapshots_are_selected() {
    let mut rules =
        SelectionRules { resync_corrupt: false, transfer_last: None, last_sync_time: None };
    let mut list = candidates(&[10, 20, 30, 40]);
    assert_eq!(pulled(&rules, &list), vec![10, 20, 30, 40]);
    rules.last_sync_time = Some(20);
    let selection = select_snapshots(&rules, &list);
    assert_eq!(selection.already_synced.count, 1);
    assert_eq!(selection.already_synced.oldest, 10);
    assert_eq!(pulled(&rules, &list), vec![20, 30, 40]);
    rules.transfer_last = Some(1);
    let selection = select_snapshots(&rules, &list);
    assert_eq!(selection.transfer_last.count, 1);
    assert_eq!(selection.transfer_last.newest, 30);
    assert_eq!(pulled(&rules, &list), vec![20, 40]);
    rules.transfer_last = Some(9);
    assert_eq!(pulled(&rules, &list), vec![20, 30, 40]);
    list[0].corrupt = true;
    assert_eq!(pulled(&rules, &list), vec![20, 30, 40]);
    rules.resync_corrupt = true;
    assert_eq!(pulled(&rules, &list), vec![10, 20, 30, 40]);
}

#[test]
fn vanished_snapshots_are_told() {
    let source = source_snapshots(&vec![item(10, Some(1), None), item(20, None, None)]);
    assert_eq!(check_vanished(&source, 10, false), VanishedVerdict::Keep);
    assert_eq!(check_vanished(&source, 20, true), VanishedVerdict::Keep);
    assert_eq!(check_vanished(&source, 15, true), VanishedVerdict::Protected);
    assert_eq!(check_vanished(&source, 15, false), VanishedVerdict::Remove);
    assert_eq!(
        keep_vanished_line("vm/1", "vm/1/t"),
        "vm/1: don't delete vanished snapshot vm/1/t (protected)"
    );
    assert_eq!(remove_vanished_line("vm/1/t"), "delete vanished snapshot vm/1/t");
}

#[test]
fn group_is_pulled() {
    let pull = GroupPull { remove_vanished: true, worker_threads: Some(2) };
    let (mut state, action) = pull.start(1, 5);
    assert_eq!(action, GroupAction::PullSnapshot(0));
    let mut actions = Vec::new();
    for event in [
        GroupEvent::Pulled { stats: stats(1, 10), done_groups: 3 },
        GroupEvent::Finished,
        GroupEvent::Listed(3),
        GroupEvent::Checked(VanishedVerdict::Keep),
        GroupEvent::Checked(VanishedVerdict::Protected),
        GroupEvent::Finished,
        GroupEvent::Checked(VanishedVerdict::Remove),
        GroupEvent::Finished,
        GroupEvent::Finished,
        GroupEvent::Finished,
    ] {
        let (next, action) = pull.step(state, event);
        state = next;
        actions.push(action);
    }
    let mut sum = stats(1, 10);
    sum.removed = Some(RemovedVanishedStats { groups: 0, snapshots: 1, namespaces: 0 });
    assert_eq!(
        actions,
        vec![
            GroupAction::LogProgress { parallel: true },
            GroupAction::ListLocal,
            GroupAction::CheckLocal(0),
            GroupAction::CheckLocal(1),
            GroupAction::LogProtected(1),
            GroupAction::CheckLocal(2),
            GroupAction::LogRemove(2),
            GroupAction::RemoveSnapshot(2),
            GroupAction::LogDone,
            GroupAction::Complete(sum),
        ]
    );
    assert_eq!(
        parallel_progress_line(&state.progress, "vm/1"),
        "snapshot 1/1 within vm/1 is done, 3/5 groups done"
    );
}

#[test]
fn group_stops_at_the_first_error() {
    let pull = GroupPull { remove_vanished: true, worker_threads: None };
    let (state, _) = pull.start(2, 1);
    let (state, action) = pull.step(state, GroupEvent::PullFailed { done_groups: 0 });
    assert_eq!(action, GroupAction::LogProgress { parallel: false });
    let (_, action) = pull.step(state, GroupEvent::Finished);
    assert_eq!(action, GroupAction::Abort);
}

// ---- namespaces ----

#[test]
fn groups_belong_to_the_owner() {
    let owner = Authid::parse("sync@pbs").unwrap();
    let token = Authid::parse("sync@pbs!token").unwrap();
    assert_eq!(lock_and_pull_group(&owner, &Some(owner.copy())), GroupStart::Pull);
    assert_eq!(lock_and_pull_group(&owner, &Some(token)), GroupStart::OwnerMismatch);
    assert_eq!(lock_and_pull_group(&owner, &None), GroupStart::LockFailed);
    assert_eq!(
        lock_failed_line("vm/1", "busy"),
        "sync group vm/1 failed - group lock failed: busy"
    );
    assert_eq!(
        owner_mismatch_line("vm/1", "a@pbs", "b@pbs"),
        "sync group vm/1 failed - owner check failed (a@pbs != b@pbs)"
    );
    assert_eq!(group_failed_line("vm/1", "e"), "sync group vm/1 failed - e");
    assert_eq!(groups_found_line(2, 12), "Found 2 groups to sync (out of 12 total)");
    assert_eq!(log_buffering(Some(2)), (5, 1));
    assert_eq!(log_buffering(Some(1)), (0, 0));
    assert_eq!(log_buffering(None), (0, 0));
}

#[test]
fn namespace_is_pulled() {
    let pull = NsPull { groups: 2, remove_vanished: true };
    let (mut state, action) = pull.start();
    assert_eq!(action, NsAction::SpawnGroup(0));
    let deleted =
        GroupDeleteStats { removed_snapshots: 4, protected_snapshots: 0, removed_groups: 1 };
    let mut last = action;
    for (event, expected) in [
        (NsEvent::Finished, NsAction::TakeResult),
        (NsEvent::NoneLeft, NsAction::SpawnGroup(1)),
        (NsEvent::Finished, NsAction::TakeResult),
        (NsEvent::Collected(Some(stats(1, 10))), NsAction::TakeResult),
        (NsEvent::NoneLeft, NsAction::JoinNext),
        (NsEvent::Collected(None), NsAction::JoinNext),
        (NsEvent::NoneLeft, NsAction::CloseLog),
        (NsEvent::Finished, NsAction::NextLocalGroup),
        (NsEvent::Found { in_source: true }, NsAction::NextLocalGroup),
        (NsEvent::Found { in_source: false }, NsAction::CheckOwner),
        (NsEvent::Owner { matches: false }, NsAction::NextLocalGroup),
        (NsEvent::Found { in_source: false }, NsAction::CheckOwner),
        (NsEvent::Owner { matches: true }, NsAction::CheckFilter),
        (NsEvent::Filter { matches: true }, NsAction::RemoveGroup),
        (NsEvent::Removed(deleted), NsAction::NextLocalGroup),
    ] {
        let (next, action) = pull.step(state, event);
        assert_eq!(action, expected);
        state = next;
        last = action;
    }
    assert_eq!(last, NsAction::NextLocalGroup);
    let (_, action) = pull.step(state, NsEvent::NoneLeft);
    match action {
        NsAction::Complete(results) => {
            assert!(results.errors);
            assert_eq!(results.progress.done_groups, 2);
            assert_eq!(results.stats.bytes, 10);
            assert_eq!(
                results.stats.removed,
                Some(RemovedVanishedStats { groups: 1, snapshots: 4, namespaces: 0 })
            );
        }
        _ => panic!("not complete"),
    }
}

#[test]
fn kept_group_is_not_counted() {
    let pull = NsPull { groups: 0, remove_vanished: true };
    let (state, action) = pull.start();
    assert_eq!(action, NsAction::JoinNext);
    let (state, _) = pull.step(state, NsEvent::NoneLeft);
    let (state, _) = pull.step(state, NsEvent::Finished);
    let (state, _) = pull.step(state, NsEvent::Found { in_source: false });
    let (state, _) = pull.step(state, NsEvent::Owner { matches: true });
    let (state, _) = pull.step(state, NsEvent::Filter { matches: true });
    let kept =
        GroupDeleteStats { removed_snapshots: 2, protected_snapshots: 1, removed_groups: 0 };
    let (state, _) = pull.step(state, NsEvent::Removed(kept));
    assert_eq!(
        state.results.stats.removed,
        Some(RemovedVanishedStats { groups: 0, snapshots: 2, namespaces: 0 })
    );
    let (_, action) = pull.step(state, NsEvent::Failed);
    match action {
        NsAction::CompleteWithCleanupError(results) => assert!(results.errors),
        _ => panic!("no error"),
    }
    assert_eq!(delete_group_line("vm/1"), "Delete vanished group 'vm/1'");
    assert_eq!(kept_snapshots_line("vm/1"), "Kept some protected snapshots of group 'vm/1'");
    assert_eq!(cleanup_error_line("e"), "Error during cleanup: e");
    assert_eq!(join_error("e"), "failed to join on worker task: e");
}

#[test]
fn namespaces_are_created_with_privileges() {
    let (state, action) = check_and_create_ns(&ns("a/b"));
    assert_eq!(action, CreateNsAction::CheckExistence);
    let (state, action) = create_ns_step(state, CreateNsEvent::Exists(false));
    assert_eq!(action, CreateNsAction::CheckModify);
    let refused = create_ns_step(state, CreateNsEvent::Outcome { ok: false });
    assert_eq!(refused.1, CreateNsAction::Fail(CreateNsError::CreationNotAllowed));
    let (state, action) = create_ns_step(state, CreateNsEvent::Outcome { ok: true });
    assert_eq!(action, CreateNsAction::Create);
    assert_eq!(
        create_ns_step(state, CreateNsEvent::Outcome { ok: false }).1,
        CreateNsAction::Fail(CreateNsError::CreationFailed)
    );
    let (state, action) = create_ns_step(state, CreateNsEvent::Outcome { ok: true });
    assert_eq!(action, CreateNsAction::CheckBackup);
    assert_eq!(
        create_ns_step(state, CreateNsEvent::Outcome { ok: true }),
        (CreateNsState::Ended, CreateNsAction::Ready { created: true })
    );
    let (state, action) = check_and_create_ns(&ns(""));
    assert_eq!(action, CreateNsAction::CheckBackup);
    assert_eq!(
        create_ns_step(state, CreateNsEvent::Outcome { ok: false }).1,
        CreateNsAction::Fail(CreateNsError::SyncNotAllowed)
    );
    assert_eq!(
        CreateNsError::CreationNotAllowed.message("a", "s:a", "e"),
        "Creating a not allowed - e"
    );
    assert_eq!(
        CreateNsError::CreationFailed.message("a", "s:a", "e"),
        "sync into s:a failed - namespace creation failed: e"
    );
    assert_eq!(
        CreateNsError::SyncNotAllowed.message("a", "s:a", "e"),
        "sync into s:a not allowed - e"
    );
}

#[test]
fn vanished_namespaces_are_removed_inside_out() {
    let local = vec![ns(""), ns("t"), ns("t/a"), ns("t/a/bb"), ns("t/kept"), ns("t/c")];
    let list = vanished_namespaces(local, &ns("t"), &vec![ns("t/kept")]);
    let mut found = names(&list);
    assert_eq!(found[0], "t/a/bb");
    found.sort();
    assert_eq!(found, vec!["t/a", "t/a/bb", "t/c"]);
    assert_eq!(removal_depth(Some(2), 7, 3), 2);
    assert_eq!(removal_depth(None, 7, 3), 4);
}

#[test]
fn removals_are_summed_up() {
    assert_eq!(check_and_remove_ns(true, Some(true)), RemoveNsResult::Removed);
    assert_eq!(check_and_remove_ns(true, Some(false)), RemoveNsResult::Kept);
    assert_eq!(check_and_remove_ns(true, None), RemoveNsResult::Failed);
    assert_eq!(check_and_remove_ns(false, Some(true)), RemoveNsResult::Failed);
    let sum = check_and_remove_vanished_ns(&vec![
        RemoveNsResult::Removed,
        RemoveNsResult::Kept,
        RemoveNsResult::Removed,
    ]);
    assert!(!sum.errors);
    assert_eq!(sum.removed.namespaces, 2);
    assert!(check_and_remove_vanished_ns(&vec![RemoveNsResult::Failed]).errors);
    assert_eq!(removal_line(RemoveNsResult::Removed, "a", ""), "Removed namespace a");
    assert_eq!(
        removal_line(RemoveNsResult::Kept, "a", ""),
        "Did not remove namespace a - protected snapshots remain"
    );
    assert_eq!(
        removal_line(RemoveNsResult::Failed, "a", "e"),
        "Failed to remove namespace a - e"
    );
    assert_eq!(removal_not_allowed("a", "e"), "Removing a not allowed - e");
}

// ---- datastores ----

#[test]
fn namespaces_are_pulled_outside_in() {
    let sorted = sort_namespaces(vec![ns("a/b/c"), ns(""), ns("a/b"), ns("a")]);
    assert_eq!(names(&sorted), vec!["", "a", "a/b", "a/b/c"]);
    assert!(!queries_namespaces(&ns(""), Some(0)));
    assert!(queries_namespaces(&ns(""), None));
    assert!(queries_namespaces(&ns("a"), Some(0)));
}

#[test]
fn datastore_is_pulled() {
    let pull = StorePull {
        namespaces: 2,
        requested_depth: None,
        max_depth: None,
        remove_vanished: true,
    };
    let (state, action) = pull.start();
    assert_eq!(action, StoreAction::MapNamespace(0));
    let (state, action) = pull.step(state, StoreEvent::Finished);
    assert_eq!(action, StoreAction::CreateNamespace(0));
    let (state, action) = pull.step(state, StoreEvent::Finished);
    assert_eq!(action, StoreAction::PullNamespace(0));
    let progress =
        StoreProgress { done_groups: 3, done_snapshots: 4, total_groups: 3, group_snapshots: 1 };
    let done = StoreEvent::Pulled { progress, stats: stats(1, 10), errors: false };
    let (state, action) = pull.step(state, done);
    assert_eq!(action, StoreAction::MapNamespace(1));
    assert_eq!((state.groups, state.snapshots), (3, 4));
    let (state, _) = pull.step(state, StoreEvent::Finished);
    let (state, action) = pull.step(state, StoreEvent::Failed);
    assert_eq!(action, StoreAction::RemoveVanished);
    let removal = check_and_remove_vanished_ns(&vec![RemoveNsResult::Removed]);
    let (state, action) = pull.step(state, StoreEvent::Removed(removal));
    assert_eq!(action, StoreAction::FailWithErrors);
    assert!(state.errors);
    assert_eq!(
        namespace_done_line(&ns("a"), None, 3, 4).unwrap(),
        "Finished syncing namespace a, current progress: 3 groups, 4 snapshots"
    );
    assert_eq!(
        namespace_done_line(&ns(""), Some(1), 0, 0).unwrap(),
        "Finished syncing root namespace, current progress: 0 groups, 0 snapshots"
    );
    assert_eq!(namespace_done_line(&ns(""), Some(0), 0, 0), None);
    assert_eq!(store_and_ns("tank", &ns("")), "datastore 'tank', root namespace");
    assert_eq!(store_and_ns("tank", &ns("a/b")), "datastore 'tank', namespace 'a/b'");
}

#[test]
fn fallback_fails_the_pull() {
    let pull = StorePull {
        namespaces: 1,
        requested_depth: None,
        max_depth: Some(0),
        remove_vanished: false,
    };
    let (state, _) = pull.start();
    let (state, _) = pull.step(state, StoreEvent::Finished);
    let (state, _) = pull.step(state, StoreEvent::Finished);
    let done = StoreEvent::Pulled {
        progress: StoreProgress::new(0),
        stats: SyncStats::default(),
        errors: false,
    };
    assert_eq!(pull.step(state, done).1, StoreAction::FailWithErrors);
}

fn options(max_depth: Option<usize>) -> PullOptions {
    PullOptions {
        remove_vanished: Some(true),
        max_depth,
        group_filter: None,
        transfer_last: Some(2),
        encrypted_only: None,
        verified_only: Some(false),
        resync_corrupt: None,
        worker_threads: None,
        decryption_keys: Some(vec!["k".to_string()]),
    }
}

#[test]
fn parameters_have_defaults() {
    let owner = Authid::parse("sync@pbs").unwrap();
    let remote = RemoteConfig {
        auth_id: Authid::parse("far@pbs!t").unwrap(),
        host: "backup.example".to_string(),
        port: Some(443),
    };
    let params = PullParameters::new(
        "near".to_string(),
        ns("t"),
        Some(remote),
        "far".to_string(),
        ns("s"),
        owner.copy(),
        options(Some(3)),
        7,
    )
    .unwrap();
    assert!(params.remove_vanished);
    assert!(!params.encrypted_only);
    assert!(!params.resync_corrupt);
    assert!(params.group_filter.is_empty());
    assert_eq!(params.decryption_keys, vec!["k"]);
    assert_eq!(params.transfer_last, Some(2));
    match params.source {
        PullSource::Remote { repo, ns: from } => {
            assert_eq!(repo.to_string(), "far@pbs!t@backup.example:443:far");
            assert_eq!(from.to_string(), "s");
        }
        PullSource::Local { .. } => panic!("local"),
    }
    let local = PullParameters::new(
        "near".to_string(),
        ns("t"),
        None,
        "other".to_string(),
        ns(""),
        owner.copy(),
        options(None),
        7,
    )
    .unwrap();
    assert!(matches!(local.source, PullSource::Local { .. }));
}

#[test]
fn deep_namespaces_are_refused() {
    assert!(check_max_depth(&ns("a/b"), 5, 7).is_ok());
    let err = check_max_depth(&ns("a/b"), 6, 7).unwrap_err();
    assert_eq!((err.depth, err.max_depth, err.limit), (2, 6, 7));
    let owner = Authid::parse("sync@pbs").unwrap();
    let refused = PullParameters::new(
        "near".to_string(),
        ns(""),
        None,
        "other".to_string(),
        ns("a/b/c"),
        owner,
        options(Some(5)),
        7,
    );
    match refused {
        Ok(_) => panic!("accepted"),
        Err(err) => assert_eq!((err.depth, err.max_depth), (3, 5)),
    }
}
