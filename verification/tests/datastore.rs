//! Groups and snapshots of a datastore: paths, locks, files, moving and destroying.

use proxmox_backup::auth::Authid;
use proxmox_backup::checksum::{config_digest, digest_text};
use proxmox_backup::datastore::backup_info::{
    is_data_file, is_unreferenced, last_backup_error, list_backup_files, merge_conflict_lines,
    BackupDir, BackupGroup, BackupInfo, CleanupEntry, DirEntry, GroupEntry, GroupId,
    LastBackupError, LastBackupProblem, ManifestProbe, MergeError, SnapshotEntry, StoreInfo,
};
use proxmox_backup::datastore::destroy::{
    object_prefix, remove_group_dir, DestroyRules, GroupDestroyAction, GroupDestroyEvent,
    GroupDestroyState, GroupDirAction, GroupDirState, RemoveResult, SnapshotDestroyAction,
    SnapshotDestroyEvent, SnapshotDestroyState,
};
use proxmox_backup::datastore::lock_path::{is_lock_valid, lock_file_path_helper, lock_path};
use proxmox_backup::datastore::locking::{
    lock_helper, update_manifest, LockAction, LockEvent, LockKind, LockState, ManifestAction,
    ManifestState,
};
use proxmox_backup::datastore::move_journal::{
    append_moved_indices, drain_error_message, drain_move_journal, drain_start,
    journal_error_message, journal_path, read_move_journal, DrainAction, JournalError,
};
use proxmox_backup::datastore::paths::{archive_type, join_path};
use proxmox_backup::datastore::relocate::{
    journal_entries, move_notes_to, moved_key, notes_differ_line, snapshot_prefix, KeyError,
    MoveAction, MoveEvent, MovePhase, MoveState, NotesAction, NotesEvent, NotesState,
};
use proxmox_backup::datastore::temp_dir::TempDir;
use proxmox_backup::namespace::BackupNamespace;
use proxmox_backup::types::{ArchiveType, BackupType};

fn ns(path: &str) -> BackupNamespace {
    let components = path.split('/').filter(|c| !c.is_empty()).map(|c| c.to_string()).collect();
    BackupNamespace { components }
}

fn strings(list: &[&str]) -> Vec<String> {
    list.iter().map(|s| s.to_string()).collect()
}

fn group(path: &str) -> BackupGroup {
    BackupGroup::new(
        StoreInfo { name: "store".to_string(), base_path: "/mnt/store".to_string() },
        ns(path),
        GroupId { ty: BackupType::Vm, id: "100".to_string() },
    )
}

const TIME: &str = "2022-05-02T08:11:33Z";

fn snapshot(path: &str) -> BackupDir {
    group(path).backup_dir(1651479093, TIME.to_string())
}

// ---- namespaces ----

#[test]
fn namespaces_are_mapped() {
    let mapped = ns("a/b/c").map_prefix(&ns("a/b"), &ns("t")).unwrap();
    assert_eq!(mapped.to_string(), "t/c");
    assert!(ns("x").map_prefix(&ns("a"), &ns("t")).is_none());
    assert_eq!(ns("a").map_prefix(&ns("a"), &ns("")).unwrap().to_string(), "");
    assert!(ns("a").contains(&ns("a/b")));
    assert!(!ns("a/b").contains(&ns("a")));
    assert_eq!(ns("a/b").parent().to_string(), "a");
    assert_eq!(ns("").parent().to_string(), "");
    assert_eq!(ns("a").child("b").to_string(), "a/b");
    assert_eq!(ns("a/bc").name_len(), 4);
    assert_eq!(ns("a/bc").depth(), 2);
}

// ---- paths ----

#[test]
fn paths_follow_namespace_and_group() {
    let root = group("");
    assert_eq!(root.relative_group_path(), "vm/100");
    assert_eq!(root.full_group_path(), "/mnt/store/vm/100");
    let inner = snapshot("a/b");
    assert_eq!(inner.relative_path(), format!("ns/a/ns/b/vm/100/{}", TIME));
    assert_eq!(inner.full_path(), format!("/mnt/store/ns/a/ns/b/vm/100/{}", TIME));
    assert_eq!(inner.protected_file(), format!("{}/.protected", inner.full_path()));
    assert_eq!(inner.backup_time(), 1651479093);
    assert_eq!(inner.backup_id(), "100");
    assert_eq!(inner.backup_type(), BackupType::Vm);
    for ty in [BackupType::Vm, BackupType::Ct, BackupType::Host] {
        assert_eq!(BackupType::parse(ty.as_str()), Some(ty));
    }
    assert_eq!(BackupType::parse("VM"), None);
    assert_eq!(inner.backup_ns().to_string(), "a/b");
    assert_eq!(inner.group().to_string(), "vm/100");
    assert_eq!(inner.datastore().name, "store");
    assert_eq!(BackupGroup::from(inner).full_group_path(), "/mnt/store/ns/a/ns/b/vm/100");
    assert_eq!(join_path("/a/", "b"), "/a/b");
    assert_eq!(join_path("/a", "/b"), "/b");
}

#[test]
fn archive_types_are_told_by_name() {
    assert_eq!(archive_type("disk.img.fidx"), Some(ArchiveType::FixedIndex));
    assert_eq!(archive_type("root.pxar.didx"), Some(ArchiveType::DynamicIndex));
    assert_eq!(archive_type("index.json.blob"), Some(ArchiveType::Blob));
    assert_eq!(archive_type("readme.txt"), None);
}

#[test]
fn lock_files_are_named_after_paths() {
    assert_eq!(lock_file_path_helper(&ns(""), "vm/100"), "vm-100");
    assert_eq!(
        lock_file_path_helper(&ns(""), &format!("vm/100/{}", TIME)),
        "vm-100-2022\\x2d05\\x2d02T08\\x3a11\\x3a33Z"
    );
    assert_eq!(
        lock_file_path_helper(&ns("ns1/ns2/ns3/ns4/ns5/ns6/ns7"), &format!("vm/100/{}", TIME)),
        "ns1:ns2:ns3:ns4:ns5:ns6:ns7/vm-100-2022\\x2d05\\x2d02T08\\x3a11\\x3a33Z"
    );
    assert_eq!(
        lock_path("store", &ns("a"), "vm/100"),
        "/run/proxmox-backup/locks/store/a/vm-100"
    );
    assert_eq!(group("a").lock_path(), "/run/proxmox-backup/locks/store/a/vm-100");
    assert_eq!(
        snapshot("").lock_path(),
        "/run/proxmox-backup/locks/store/vm-100-2022\\x2d05\\x2d02T08\\x3a11\\x3a33Z"
    );
    assert_eq!(
        snapshot("").manifest_lock_path(),
        "/run/proxmox-backup/locks/store/vm-100-2022\\x2d05\\x2d02T08\\x3a11\\x3a33Z\
         .index.json.lck"
    );
}

#[test]
fn long_lock_names_are_hashed() {
    let path = format!("vm/{}", "a-b".repeat(60));
    let first = "vm-a\\x2dba\\x2dba\\x2dba\\x2dba\\x2dba\\x2dba\\x2dba\\x2dba\\x2dba\\x2dba\\x2dba\
                 \\x2dba\\x2d";
    let last = "dba\\x2dba\\x2dba\\x2dba\\x2dba\\x2dba\\x2dba\\x2dba\\x2dba\\x2dba\\x2dba\\x2dba\
                \\x2dba\\x2db";
    let hash = "f59524b7255fd1901e17fe19a106ce18cf7f96b2dbbd9a764183858f050f3040";
    assert_eq!(first.len(), 80);
    assert_eq!(last.len(), 80);
    assert_eq!(
        lock_file_path_helper(&ns("a/b"), &path),
        format!("a:b/hashed/{}...{}-{}", first, last, hash)
    );
}

#[test]
fn configurations_have_digests() {
    assert_eq!(
        digest_text(&config_digest(Some("abc"))),
        "ba7816bf8f01cfea414140de5dae2223b00361a396177a9cb410ff61f20015ad"
    );
    assert_eq!(
        digest_text(&config_digest(None)),
        "e3b0c44298fc1c149afbf4c8996fb92427ae41e4649b934ca495991b7852b855"
    );
    assert_eq!(config_digest(None), config_digest(Some("")));
}

// ---- locks ----

#[test]
fn locks_are_planned() {
    let old = group("").lock(true);
    assert!(old.directory && old.exclusive);
    assert_eq!(old.path, "/mnt/store/vm/100");
    assert_eq!(old.timeout, 0);
    let new = group("").lock(false);
    assert!(!new.directory);
    assert_eq!(new.path, group("").lock_path());
    let shared = snapshot("").lock_shared(false);
    assert!(!shared.exclusive);
    assert_eq!(shared.kind, LockKind::SharedSnapshot);
    assert_eq!(snapshot("").lock(true).path, snapshot("").full_path());
    let manifest = snapshot("").lock_manifest(true);
    assert_eq!(
        manifest.path,
        format!("/run/proxmox-backup/locks/store/vm/100/{}/{}.index.json.lck", TIME, TIME)
    );
    assert_eq!(manifest.timeout, 5);
    assert!(!manifest.directory);
    assert_eq!(snapshot("").lock_manifest(false).path, snapshot("").manifest_lock_path());
    assert_eq!(
        LockKind::Group.failure("\"/p\""),
        "unable to acquire backup group lock \"/p\""
    );
    assert_eq!(LockKind::Manifest.failure("p"), "unable to acquire manifest lock p");
    assert_eq!(
        LockKind::Snapshot.directory_words(),
        ("snapshot", "backup is running or snapshot is in use")
    );
}

#[test]
fn stale_locks_are_refused() {
    let (state, action) = lock_helper(LockState::Start, LockEvent::Finished);
    assert_eq!(action, LockAction::CreateDir);
    let (state, action) = lock_helper(state, LockEvent::Finished);
    assert_eq!(action, LockAction::Lock);
    let (state, action) = lock_helper(state, LockEvent::Finished);
    assert_eq!(action, LockAction::Compare);
    let same = LockEvent::Inodes { locked: 5, at_path: Some(5) };
    assert_eq!(lock_helper(state, same), (LockState::Locked, LockAction::Hold));
    let gone = LockEvent::Inodes { locked: 5, at_path: None };
    assert_eq!(lock_helper(state, gone).1, LockAction::RefuseStale);
    let other = LockEvent::Inodes { locked: 5, at_path: Some(6) };
    assert_eq!(lock_helper(state, other).1, LockAction::RefuseStale);
    assert_eq!(lock_helper(state, LockEvent::Failed).1, LockAction::Abort);
    assert!(is_lock_valid(1, Some(1)));
    assert!(!is_lock_valid(1, None));
}

fn update(s3: bool) -> Vec<ManifestAction> {
    let mut actions = Vec::new();
    let mut state = ManifestState::Start;
    while state != ManifestState::Complete {
        let (next, action) = update_manifest(s3, state, true);
        actions.push(action);
        state = next;
    }
    actions
}

#[test]
fn manifest_is_updated_under_its_lock() {
    assert_eq!(
        update(false),
        vec![
            ManifestAction::Lock,
            ManifestAction::Load,
            ManifestAction::Encode,
            ManifestAction::Replace,
            ManifestAction::Complete,
        ]
    );
    assert_eq!(
        update(true),
        vec![
            ManifestAction::Lock,
            ManifestAction::Load,
            ManifestAction::Encode,
            ManifestAction::Upload,
            ManifestAction::Replace,
            ManifestAction::Complete,
        ]
    );
    assert_eq!(
        update_manifest(true, ManifestState::Locking, false),
        (ManifestState::Failed, ManifestAction::Abort)
    );
}

// ---- files of snapshots ----

fn entry(name: &str, is_file: bool) -> DirEntry {
    DirEntry { name: name.to_string(), is_file }
}

#[test]
fn data_files_are_listed() {
    let (files, protected) = list_backup_files(&vec![
        entry("disk.img.fidx", true),
        entry("root.pxar.didx", true),
        entry("index.json.blob", true),
        entry("notes.tmp", true),
        entry("dir.blob", false),
        entry(".protected", false),
    ]);
    assert_eq!(files, vec!["disk.img.fidx", "root.pxar.didx", "index.json.blob"]);
    assert!(!protected);
    let (files, protected) = list_backup_files(&vec![entry(".protected", true)]);
    assert!(files.is_empty());
    assert!(protected);
    assert!(is_data_file(".blob"));
    assert!(!is_data_file("a\n.blob"));
    assert!(!is_data_file("blob"));
}

fn info(time: i64, files: &[&str]) -> BackupInfo {
    let entries = files.iter().map(|f| entry(f, true)).collect();
    BackupInfo::new(group("").backup_dir(time, format!("t{}", time)), &entries)
}

#[test]
fn snapshots_are_sorted() {
    let mut list = vec![info(2, &[]), info(3, &[]), info(1, &[])];
    BackupInfo::sort_list(&mut list, true);
    assert_eq!(list.iter().map(|i| i.backup_dir.backup_time()).collect::<Vec<_>>(), vec![1, 2, 3]);
    BackupInfo::sort_list(&mut list, false);
    assert_eq!(list.iter().map(|i| i.backup_dir.backup_time()).collect::<Vec<_>>(), vec![3, 2, 1]);
}

#[test]
fn last_backup_is_found() {
    let list = vec![info(2, &["index.json.blob"]), info(3, &["a.blob"]), info(1, &[])];
    assert!(list[0].is_finished());
    assert!(!list[1].is_finished());
    assert_eq!(BackupGroup::last_backup(&list, false), Some(1));
    assert_eq!(BackupGroup::last_backup(&list, true), Some(0));
    assert_eq!(BackupGroup::last_backup(&vec![info(1, &[])], true), None);
}

fn found(manifest: ManifestProbe, time: Option<i64>) -> SnapshotEntry {
    SnapshotEntry { is_directory: true, manifest, time }
}

#[test]
fn last_successful_backup_has_a_manifest() {
    let file = SnapshotEntry { is_directory: false, manifest: ManifestProbe::Failed, time: None };
    let entries = vec![
        found(ManifestProbe::Opened, Some(10)),
        found(ManifestProbe::NotFound, Some(30)),
        found(ManifestProbe::Opened, Some(20)),
        found(ManifestProbe::NotFound, None),
        file,
    ];
    assert_eq!(BackupGroup::last_successful_backup(&entries), Ok(Some(20)));
    assert_eq!(BackupGroup::last_successful_backup(&vec![]), Ok(None));
    assert_eq!(
        BackupGroup::last_successful_backup(&vec![file, found(ManifestProbe::Failed, Some(1))]),
        Err(LastBackupError { entry: 1, problem: LastBackupProblem::Manifest })
    );
    assert_eq!(
        BackupGroup::last_successful_backup(&vec![found(ManifestProbe::Opened, None)]),
        Err(LastBackupError { entry: 0, problem: LastBackupProblem::Time })
    );
    assert_eq!(last_backup_error("e"), "last_successful_backup: unexpected error - e");
}

#[test]
fn snapshots_of_a_group_are_listed() {
    let mut entries = vec![
        GroupEntry {
            name: "t1".to_string(),
            is_directory: true,
            time: Some(1),
            entries: vec![entry("index.json.blob", true), entry(".protected", true)],
        },
        GroupEntry { name: "t2".to_string(), is_directory: false, time: None, entries: vec![] },
    ];
    let list = group("a").list_backups(&entries).unwrap();
    assert_eq!(list.len(), 1);
    assert_eq!(list[0].backup_dir.full_path(), "/mnt/store/ns/a/vm/100/t1");
    assert_eq!(list[0].files, vec!["index.json.blob"]);
    assert!(list[0].protected);
    entries[1].is_directory = true;
    match group("a").list_backups(&entries) {
        Err(k) => assert_eq!(k, 1),
        Ok(_) => panic!("listed"),
    }
}

#[test]
fn groups_are_merged_in_order() {
    let owner = Authid::parse("a@pbs").unwrap();
    let other = Authid::parse("b@pbs").unwrap();
    let source = vec![30, 20, 40];
    assert_eq!(
        BackupGroup::check_merge_invariants(&owner, &owner, &source, &vec![10, 19]),
        Ok(())
    );
    assert_eq!(
        BackupGroup::check_merge_invariants(&owner, &owner, &source, &vec![10, 20, 35]),
        Err(MergeError::TimeMismatch { oldest: 1, conflict: 1 })
    );
    assert_eq!(
        BackupGroup::check_merge_invariants(&owner, &owner, &vec![], &vec![10]),
        Ok(())
    );
    let err = BackupGroup::check_merge_invariants(&owner, &other, &source, &vec![]).unwrap_err();
    assert_eq!(err, MergeError::OwnerMismatch);
    let id = GroupId { ty: BackupType::Ct, id: "7".to_string() };
    assert_eq!(
        err.message(&id, &ns("a"), &ns("b"), &owner, &other),
        "cannot merge group 'ct/7' from 'a' into 'b': owner mismatch (source: a@pbs, \
         target: b@pbs)"
    );
    assert_eq!(
        MergeError::TimeMismatch { oldest: 0, conflict: 0 }
            .message(&id, &ns("a"), &ns("b"), &owner, &owner),
        "cannot merge group 'ct/7' from 'a' into 'b': snapshot time mismatch"
    );
    assert_eq!(
        merge_conflict_lines("t1", "t2"),
        ("oldest source snapshot: t1".to_string(), "conflicting target snapshot: t2".to_string())
    );
}

#[test]
fn unreferenced_files_are_removed() {
    let files = strings(&["disk.img.fidx"]);
    let named = |name: &str, is_file: Option<bool>| CleanupEntry {
        name: Some(name.to_string()),
        is_file,
    };
    let entries = vec![
        named("disk.img.fidx", Some(true)),
        named("old.img.fidx", Some(true)),
        named("index.json.blob", Some(true)),
        named("client.log.blob", None),
        named("dir", Some(false)),
        named("..", None),
        CleanupEntry { name: None, is_file: None },
        named("unknown", None),
    ];
    assert_eq!(BackupDir::cleanup_unreferenced_files(&files, &entries), vec![1, 6, 7]);
    assert!(!is_unreferenced(&files, &entries[0]));
}

// ---- destroying ----

fn destroy_group(rules: DestroyRules, protected: &[bool]) -> Vec<GroupDestroyAction> {
    let mut actions = Vec::new();
    let mut state = GroupDestroyState::new();
    let mut event = GroupDestroyEvent::Listed(protected.len());
    loop {
        let (next, action) = rules.step_group(state, event);
        actions.push(action);
        state = next;
        event = match action {
            GroupDestroyAction::CheckProtected(i) => GroupDestroyEvent::Protected(protected[i]),
            GroupDestroyAction::Complete(_) | GroupDestroyAction::Abort => return actions,
            _ => GroupDestroyEvent::Finished,
        };
    }
}

#[test]
fn groups_are_destroyed() {
    let rules = DestroyRules { s3: true, old_locking: false };
    let actions = destroy_group(rules, &[false, false]);
    assert_eq!(
        actions[..6],
        [
            GroupDestroyAction::CheckProtected(0),
            GroupDestroyAction::DestroySnapshot(0),
            GroupDestroyAction::CheckProtected(1),
            GroupDestroyAction::DestroySnapshot(1),
            GroupDestroyAction::DeleteObjects,
            GroupDestroyAction::RemoveDir,
        ]
    );
    match actions[6] {
        GroupDestroyAction::Complete(stats) => {
            assert!(stats.all_removed());
            assert_eq!((stats.removed_snapshots, stats.removed_groups), (2, 1));
        }
        _ => panic!("not complete"),
    }
}

#[test]
fn protected_snapshots_stay() {
    let rules = DestroyRules { s3: false, old_locking: false };
    let actions = destroy_group(rules, &[true, false]);
    assert!(!actions.contains(&GroupDestroyAction::DestroySnapshot(0)));
    assert!(!actions.contains(&GroupDestroyAction::RemoveDir));
    match actions[actions.len() - 1] {
        GroupDestroyAction::Complete(stats) => {
            assert!(!stats.all_removed());
            assert_eq!(stats.protected_snapshots, 1);
            assert_eq!(stats.removed_groups, 0);
        }
        _ => panic!("not complete"),
    }
    let old = DestroyRules { s3: false, old_locking: true };
    assert!(!destroy_group(old, &[false]).contains(&GroupDestroyAction::RemoveDir));
}

#[test]
fn group_directory_is_removed_last() {
    let (state, action) = remove_group_dir(GroupDirState::RemovingNotes, RemoveResult::NotFound);
    assert_eq!(action, GroupDirAction::RemoveOwner);
    let (state, action) = remove_group_dir(state, RemoveResult::Removed);
    assert_eq!(action, GroupDirAction::RemoveDir);
    assert_eq!(remove_group_dir(state, RemoveResult::NotFound).1, GroupDirAction::Abort);
    let (state, action) = remove_group_dir(state, RemoveResult::Removed);
    assert_eq!(action, GroupDirAction::RemoveLock);
    assert_eq!(remove_group_dir(state, RemoveResult::Failed).1, GroupDirAction::Complete);
    assert_eq!(
        remove_group_dir(GroupDirState::RemovingNotes, RemoveResult::Failed).1,
        GroupDirAction::Abort
    );
}

fn destroy_snapshot(
    rules: DestroyRules,
    force: bool,
    protected: bool,
    empty: bool,
) -> Vec<SnapshotDestroyAction> {
    let mut actions = Vec::new();
    let mut state = SnapshotDestroyState::Start;
    let mut event = SnapshotDestroyEvent::Finished;
    loop {
        let (next, action) = rules.step_snapshot(force, state, event);
        actions.push(action);
        state = next;
        event = match action {
            SnapshotDestroyAction::CheckProtected => SnapshotDestroyEvent::Protected(protected),
            SnapshotDestroyAction::ListGroup => SnapshotDestroyEvent::Empty(empty),
            SnapshotDestroyAction::Complete
            | SnapshotDestroyAction::RefuseProtected
            | SnapshotDestroyAction::Abort => return actions,
            _ => SnapshotDestroyEvent::Finished,
        };
    }
}

#[test]
fn snapshots_are_destroyed() {
    let rules = DestroyRules { s3: true, old_locking: false };
    assert_eq!(
        destroy_snapshot(rules, false, false, true),
        vec![
            SnapshotDestroyAction::Lock,
            SnapshotDestroyAction::LockManifest,
            SnapshotDestroyAction::CheckProtected,
            SnapshotDestroyAction::DeleteObjects,
            SnapshotDestroyAction::RemoveDir,
            SnapshotDestroyAction::RemoveLockFiles,
            SnapshotDestroyAction::LockGroup,
            SnapshotDestroyAction::ListGroup,
            SnapshotDestroyAction::RemoveGroupDir,
            SnapshotDestroyAction::DeleteOwnerObject,
            SnapshotDestroyAction::Complete,
        ]
    );
    let local = DestroyRules { s3: false, old_locking: false };
    assert_eq!(
        destroy_snapshot(local, true, false, false),
        vec![
            SnapshotDestroyAction::CheckProtected,
            SnapshotDestroyAction::RemoveDir,
            SnapshotDestroyAction::RemoveLockFiles,
            SnapshotDestroyAction::LockGroup,
            SnapshotDestroyAction::ListGroup,
            SnapshotDestroyAction::Complete,
        ]
    );
    assert_eq!(
        destroy_snapshot(local, true, true, false),
        vec![SnapshotDestroyAction::CheckProtected, SnapshotDestroyAction::RefuseProtected]
    );
    let old = DestroyRules { s3: false, old_locking: true };
    assert!(
        !destroy_snapshot(old, false, false, true).contains(&SnapshotDestroyAction::RemoveGroupDir)
    );
    // a group that is in use is left alone
    assert_eq!(
        local.step_snapshot(
            false,
            SnapshotDestroyState::LockingGroup,
            SnapshotDestroyEvent::Failed
        ),
        (SnapshotDestroyState::Complete, SnapshotDestroyAction::Complete)
    );
    assert_eq!(object_prefix(".cnt", "vm/100"), ".cnt/vm/100");
}

// ---- moving ----

#[test]
fn notes_of_the_target_stay() {
    let (state, action) =
        move_notes_to(true, NotesState::ReadingSource, NotesEvent::Found { same: false });
    assert_eq!(action, NotesAction::ReadTarget);
    assert_eq!(move_notes_to(true, state, NotesEvent::Found { same: true }).1, NotesAction::Complete);
    assert_eq!(move_notes_to(true, state, NotesEvent::Found { same: false }).1, NotesAction::Warn);
    assert_eq!(move_notes_to(false, state, NotesEvent::NotFound).1, NotesAction::Rename);
    let (state, action) = move_notes_to(true, state, NotesEvent::NotFound);
    assert_eq!(action, NotesAction::Upload);
    let (state, action) = move_notes_to(true, state, NotesEvent::Finished);
    assert_eq!(action, NotesAction::Rename);
    assert_eq!(move_notes_to(true, state, NotesEvent::Finished).1, NotesAction::Complete);
    assert_eq!(
        move_notes_to(true, NotesState::ReadingSource, NotesEvent::NotFound).1,
        NotesAction::Complete
    );
    assert_eq!(
        notes_differ_line("vm/100", "a", "b"),
        "group notes differ during merge of 'vm/100' from 'a' into 'b' - keeping target's notes"
    );
}

fn run_move(s3: bool, events: &[MoveEvent]) -> Vec<MoveAction> {
    let mut actions = Vec::new();
    let mut state = MoveState::new();
    for event in events {
        let (next, action) = state.move_to(s3, *event);
        actions.push(action);
        state = next;
    }
    actions
}

#[test]
fn snapshot_is_moved() {
    assert_eq!(
        run_move(
            false,
            &[
                MoveEvent::SameStore(true),
                MoveEvent::Finished,
                MoveEvent::Finished,
                MoveEvent::Finished,
                MoveEvent::Failed,
            ],
        ),
        vec![
            MoveAction::ListFiles,
            MoveAction::WriteJournal,
            MoveAction::Rename,
            MoveAction::RemoveLockFiles,
            MoveAction::Complete,
        ]
    );
    assert_eq!(
        run_move(
            true,
            &[
                MoveEvent::SameStore(true),
                MoveEvent::Finished,
                MoveEvent::Finished,
                MoveEvent::Page { objects: 1, truncated: true },
                MoveEvent::Finished,
                MoveEvent::Page { objects: 1, truncated: false },
                MoveEvent::Finished,
                MoveEvent::Finished,
                MoveEvent::Failed,
                MoveEvent::Finished,
                MoveEvent::Finished,
            ]
        ),
        vec![
            MoveAction::ListFiles,
            MoveAction::WriteJournal,
            MoveAction::ListObjects,
            MoveAction::CopyObject(0),
            MoveAction::ListObjects,
            MoveAction::CopyObject(1),
            MoveAction::Rename,
            MoveAction::DeleteObject(0),
            MoveAction::DeleteObject(1),
            MoveAction::RemoveLockFiles,
            MoveAction::Complete,
        ]
    );
    assert_eq!(run_move(false, &[MoveEvent::SameStore(false)]), vec![MoveAction::RefuseStore]);
}

#[test]
fn failed_copy_leaves_the_snapshot() {
    let state = MoveState { phase: MovePhase::Copying(0), listed: 2, truncated: false, copied: 0 };
    let (state, action) = state.move_to(true, MoveEvent::Failed);
    assert_eq!(action, MoveAction::Abort);
    assert_eq!(state.move_to(true, MoveEvent::Finished).1, MoveAction::Abort);
}

#[test]
fn object_keys_are_moved() {
    let source = snapshot_prefix(".cnt", "vm/100/t");
    let target = snapshot_prefix(".cnt", "ns/a/vm/100/t");
    assert_eq!(source, ".cnt/vm/100/t/");
    let key = moved_key("store/.cnt/vm/100/t/disk.fidx", "store", &source, &target).ok().unwrap();
    assert_eq!(key.source, ".cnt/vm/100/t/disk.fidx");
    assert_eq!(key.target, ".cnt/ns/a/vm/100/t/disk.fidx");
    assert_eq!(
        moved_key("other/.cnt/vm/100/t/disk.fidx", "store", &source, &target).err(),
        Some(KeyError::UnexpectedPrefix)
    );
    assert_eq!(
        moved_key("store/.cnt/vm/101/t/disk.fidx", "store", &source, &target).err(),
        Some(KeyError::UnexpectedFormat)
    );
}

#[test]
fn moved_indices_are_recorded() {
    let names = strings(&["disk.img.fidx", "index.json.blob", "root.pxar.didx", "x.txt"]);
    let entries = journal_entries("/mnt/store/vm/100/t", &names);
    assert_eq!(
        entries,
        vec!["/mnt/store/vm/100/t/disk.img.fidx", "/mnt/store/vm/100/t/root.pxar.didx"]
    );
    let append = append_moved_indices("store", &entries).ok().unwrap().unwrap();
    assert_eq!(append.journal, journal_path("store"));
    assert_eq!(
        append.text,
        "/mnt/store/vm/100/t/disk.img.fidx\n/mnt/store/vm/100/t/root.pxar.didx\n"
    );
    assert_eq!(read_move_journal(&append.text), entries);
    assert!(append_moved_indices("store", &vec![]).ok().unwrap().is_none());
}

#[test]
fn bad_journal_paths_are_refused() {
    match append_moved_indices("store", &strings(&["/a", "b"])) {
        Err(JournalError::NotAbsolute { path }) => assert_eq!(path, 1),
        _ => panic!("accepted"),
    }
    match append_moved_indices("store", &strings(&["/a\nb"])) {
        Err(JournalError::Newline { path }) => assert_eq!(path, 0),
        _ => panic!("accepted"),
    }
    assert_eq!(
        journal_error_message(JournalError::NotAbsolute { path: 0 }, "\"b\""),
        "move-journal: refusing to record non-absolute path \"b\""
    );
    assert_eq!(
        journal_error_message(JournalError::Newline { path: 0 }, "\"b\""),
        "move-journal: path contains newline \"b\""
    );
    assert_eq!(drain_error_message("/a"), "move-journal: processing '/a' failed");
    assert_eq!(journal_path("store"), "/run/proxmox-backup/locks/store/move-journal");
    // a path is read as it was recorded, with all white space in it
    let odd = vec!["/ds/a.fidx ".to_string(), "/ds/\tb.fidx\r".to_string()];
    let append = append_moved_indices("tank", &odd).ok().unwrap().unwrap();
    assert_eq!(read_move_journal(&append.text), odd);
    assert_eq!(read_move_journal("\n/a\n\n/b \n"), vec!["/a", "/b "]);
}

#[test]
fn journal_is_drained() {
    let (state, action) = drain_start(2);
    assert_eq!(action, DrainAction::Process(0));
    let (state, action) = drain_move_journal(2, state, true);
    assert_eq!(action, DrainAction::Process(1));
    assert_eq!(drain_move_journal(2, state, false).1, DrainAction::Abort);
    let (state, action) = drain_move_journal(2, state, true);
    assert_eq!(action, DrainAction::Truncate);
    assert_eq!(drain_move_journal(2, state, true).1, DrainAction::Complete);
}

// ---- temporary directories ----

#[test]
fn temporary_directory_is_kept_on_demand() {
    let mut dir = TempDir::new_in("/tmp/x".to_string());
    assert_eq!(dir.path(), "/tmp/x");
    assert!(dir.is_deleted_on_drop());
    dir.disable_deletion();
    assert!(!dir.is_deleted_on_drop());
    assert_eq!(dir.path(), "/tmp/x");
    assert_eq!(dir.to_persistent(), "/tmp/x");
}
