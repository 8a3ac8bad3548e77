//! How groups, snapshots and manifests are locked, and how a manifest is updated
//! under its lock.

use vstd::prelude::*;
use crate::datastore::backup_info::{group_path, BackupDir, BackupGroup, MANIFEST_LOCK_NAME};
use crate::datastore::lock_path::{full_lock_path, is_lock_valid, DATASTORE_LOCKS_DIR};
use crate::datastore::paths::{join_path, joined_path};
use crate::text::join2;

verus! {

/// What is locked.
#[derive(Clone, Copy, Debug, PartialEq, Eq, Structural)]
pub enum LockKind {
    Group,
    Snapshot,
    SharedSnapshot,
    Manifest,
}

/// How something is locked.
pub struct LockPlan {
    pub kind: LockKind,
    /// What is locked in the end.
    pub path: String,
    /// The directory at the path is locked itself, as former versions do; otherwise
    /// the path is that of a lock file.
    pub directory: bool,
    /// Nobody else may hold the lock at the same time.
    pub exclusive: bool,
    /// Seconds to wait for the lock.
    pub timeout: u64,
}

impl LockKind {
    /// Whether nobody else may hold such a lock at the same time.
    pub open spec fn is_exclusive(self) -> bool {
        self != LockKind::SharedSnapshot
    }

    /// Seconds to wait for such a lock. An update of a manifest never takes long.
    pub open spec fn patience(self) -> u64 {
        if self == LockKind::Manifest {
            5
        } else {
            0
        }
    }

    /// Start of the message if a lock file cannot be locked; the path follows.
    pub open spec fn failure_text(self) -> Seq<char> {
        match self {
            LockKind::Group => "unable to acquire backup group lock "@,
            LockKind::Snapshot => "unable to acquire snapshot lock "@,
            LockKind::SharedSnapshot => "unable to acquire shared snapshot lock "@,
            LockKind::Manifest => "unable to acquire manifest lock "@,
        }
    }

    /// Message if a lock file cannot be locked, with its path as it is printed for
    /// debugging.
    pub fn failure(&self, printed_path: &str) -> (r: String)
        ensures
            r@ == self.failure_text() + printed_path@,
    {
        match self {
            LockKind::Group => join2("unable to acquire backup group lock ", printed_path),
            LockKind::Snapshot => join2("unable to acquire snapshot lock ", printed_path),
            LockKind::SharedSnapshot => {
                join2("unable to acquire shared snapshot lock ", printed_path)
            },
            LockKind::Manifest => join2("unable to acquire manifest lock ", printed_path),
        }
    }

    /// What a directory that is locked itself is called, and the message if it is
    /// in use.
    pub fn directory_words(&self) -> (r: (&'static str, &'static str))
        ensures
            match *self {
                LockKind::Group => r.0@ == "backup group"@ && r.1@
                    == "possible runing backup, group is in use"@,
                LockKind::SharedSnapshot => r.0@ == "snapshot"@ && r.1@
                    == "backup is running or snapshot is in use, could not acquire shared lock"@,
                _ => r.0@ == "snapshot"@ && r.1@ == "backup is running or snapshot is in use"@,
            },
    {
        match self {
            LockKind::Group => ("backup group", "possible runing backup, group is in use"),
            LockKind::SharedSnapshot => (
                "snapshot",
                "backup is running or snapshot is in use, could not acquire shared lock",
            ),
            _ => ("snapshot", "backup is running or snapshot is in use"),
        }
    }
}

impl BackupGroup {
    /// How the group is locked.
    pub fn lock(&self, old_locking: bool) -> (r: LockPlan)
        ensures
            r.kind == LockKind::Group,
            r.directory == old_locking,
            r.exclusive == r.kind.is_exclusive(),
            r.timeout == r.kind.patience(),
            r.path@ == (if old_locking {
                joined_path(self.store.base_path@, group_path(self.ns@, self.group))
            } else {
                full_lock_path(self.store.name@, self.ns@, self.group.path_spec())
            }),
    {
        let path = if old_locking {
            self.full_group_path()
        } else {
            self.lock_path()
        };
        LockPlan { kind: LockKind::Group, path, directory: old_locking, exclusive: true, timeout: 0 }
    }
}

impl BackupDir {
    /// Lock of the manifest as former versions have it.
    pub open spec fn old_manifest_lock(self) -> Seq<char> {
        joined_path(
            joined_path(
                joined_path(DATASTORE_LOCKS_DIR@, self.store.name@),
                self.relative_path_spec(),
            ),
            self.backup_time_string@ + MANIFEST_LOCK_NAME@,
        )
    }

    /// How the snapshot is locked such that nobody else can use it.
    pub fn lock(&self, old_locking: bool) -> (r: LockPlan)
        ensures
            r.kind == LockKind::Snapshot,
            r.directory == old_locking,
            r.exclusive == r.kind.is_exclusive(),
            r.timeout == r.kind.patience(),
            r.path@ == (if old_locking {
                self.full_path_spec()
            } else {
                full_lock_path(self.store.name@, self.ns@, self.local_path())
            }),
    {
        let path = if old_locking {
            self.full_path()
        } else {
            self.lock_path()
        };
        LockPlan {
            kind: LockKind::Snapshot,
            path,
            directory: old_locking,
            exclusive: true,
            timeout: 0,
        }
    }

    /// How the snapshot is locked such that others can only read it.
    pub fn lock_shared(&self, old_locking: bool) -> (r: LockPlan)
        ensures
            r.kind == LockKind::SharedSnapshot,
            r.directory == old_locking,
            r.exclusive == r.kind.is_exclusive(),
            r.timeout == r.kind.patience(),
            r.path@ == (if old_locking {
                self.full_path_spec()
            } else {
                full_lock_path(self.store.name@, self.ns@, self.local_path())
            }),
    {
        let path = if old_locking {
            self.full_path()
        } else {
            self.lock_path()
        };
        LockPlan {
            kind: LockKind::SharedSnapshot,
            path,
            directory: old_locking,
            exclusive: false,
            timeout: 0,
        }
    }

    /// How the manifest of the snapshot is locked. There is a lock file in any case.
    pub fn lock_manifest(&self, old_locking: bool) -> (r: LockPlan)
        ensures
            r.kind == LockKind::Manifest,
            !r.directory,
            r.exclusive == r.kind.is_exclusive(),
            r.timeout == r.kind.patience(),
            r.path@ == (if old_locking {
                self.old_manifest_lock()
            } else {
                full_lock_path(self.store.name@, self.ns@, self.local_path()) + MANIFEST_LOCK_NAME@
            }),
    {
        let path = if old_locking {
            let store = join_path(DATASTORE_LOCKS_DIR, self.store.name.as_str());
            let dir = join_path(store.as_str(), self.relative_path().as_str());
            let name = join2(self.backup_time_string.as_str(), MANIFEST_LOCK_NAME);
            join_path(dir.as_str(), name.as_str())
        } else {
            self.manifest_lock_path()
        };
        LockPlan { kind: LockKind::Manifest, path, directory: false, exclusive: true, timeout: 5 }
    }
}

// ---- taking a lock file ----

/// How far a lock file has been locked.
#[derive(Clone, Copy, Debug, PartialEq, Eq, Structural)]
pub enum LockState {
    Start,
    CreatingDir,
    Locking,
    Comparing,
    Locked,
    Failed,
}

/// What the environment reports of the last action.
#[derive(Clone, Copy, Debug, PartialEq, Eq, Structural)]
pub enum LockEvent {
    /// The action was done.
    Finished,
    /// The file that is locked, and the one at its path if there is one.
    Inodes { locked: u64, at_path: Option<u64> },
    /// The action failed.
    Failed,
}

/// What the environment has to do next.
#[derive(Clone, Copy, Debug, PartialEq, Eq, Structural)]
pub enum LockAction {
    /// Create the directory of the lock file.
    CreateDir,
    /// Lock the file.
    Lock,
    /// Look at the file that is locked and at its path.
    Compare,
    /// The lock is held.
    Hold,
    /// The file was removed or replaced meanwhile.
    RefuseStale,
    /// Give up with the error of the step that failed.
    Abort,
}

/// Message of [`LockAction::RefuseStale`].
pub const STALE_LOCK_MESSAGE: &'static str =
    "could not acquire lock, another thread modified the lock file";

/// The next state and action. A lock counts only if its file still is the one at
/// its path once it is locked.
pub open spec fn lock_next(state: LockState, event: LockEvent) -> (LockState, LockAction) {
    match (state, event) {
        (LockState::Start, LockEvent::Finished) => (LockState::CreatingDir, LockAction::CreateDir),
        (LockState::CreatingDir, LockEvent::Finished) => (LockState::Locking, LockAction::Lock),
        (LockState::Locking, LockEvent::Finished) => (LockState::Comparing, LockAction::Compare),
        (LockState::Comparing, LockEvent::Inodes { locked, at_path }) => if at_path == Some(
            locked,
        ) {
            (LockState::Locked, LockAction::Hold)
        } else {
            (LockState::Failed, LockAction::RefuseStale)
        },
        _ => (LockState::Failed, LockAction::Abort),
    }
}

/// Moves the locking of a file on and says what to do next.
pub fn lock_helper(state: LockState, event: LockEvent) -> (r: (LockState, LockAction))
    ensures
        r == lock_next(state, event),
{
    match (state, event) {
        (LockState::Start, LockEvent::Finished) => (LockState::CreatingDir, LockAction::CreateDir),
        (LockState::CreatingDir, LockEvent::Finished) => (LockState::Locking, LockAction::Lock),
        (LockState::Locking, LockEvent::Finished) => (LockState::Comparing, LockAction::Compare),
        (LockState::Comparing, LockEvent::Inodes { locked, at_path }) => {
            if is_lock_valid(locked, at_path) {
                (LockState::Locked, LockAction::Hold)
            } else {
                (LockState::Failed, LockAction::RefuseStale)
            }
        },
        _ => (LockState::Failed, LockAction::Abort),
    }
}

/// A lock is held only if the locked file is the one at its path.
pub proof fn stale_lock_is_not_held(state: LockState, event: LockEvent)
    requires
        lock_next(state, event).1 == LockAction::Hold,
    ensures
        state == LockState::Comparing,
        event matches LockEvent::Inodes { locked, at_path } && at_path == Some(locked),
{
}

// ---- updating a manifest ----

/// How far a manifest has been updated.
#[derive(Clone, Copy, Debug, PartialEq, Eq, Structural)]
pub enum ManifestState {
    Start,
    Locking,
    Loading,
    Encoding,
    Uploading,
    Replacing,
    Complete,
    Failed,
}

/// What the environment has to do next.
#[derive(Clone, Copy, Debug, PartialEq, Eq, Structural)]
pub enum ManifestAction {
    Lock,
    Load,
    /// Change the manifest and encode it.
    Encode,
    /// Upload it to the object store.
    Upload,
    /// Replace the file. This ends the lock.
    Replace,
    /// Done.
    Complete,
    /// Give up with the error of the step that failed.
    Abort,
}

/// Context of the error if the manifest cannot be uploaded.
pub const UPDATE_MANIFEST_CONTEXT: &'static str = "failed to update manifest on s3 backend";

/// The next state and action, after the last action succeeded or not.
pub open spec fn manifest_update_next(s3: bool, state: ManifestState, ok: bool) -> (
    ManifestState,
    ManifestAction,
) {
    if !ok {
        (ManifestState::Failed, ManifestAction::Abort)
    } else {
        match state {
            ManifestState::Start => (ManifestState::Locking, ManifestAction::Lock),
            ManifestState::Locking => (ManifestState::Loading, ManifestAction::Load),
            ManifestState::Loading => (ManifestState::Encoding, ManifestAction::Encode),
            ManifestState::Encoding => if s3 {
                (ManifestState::Uploading, ManifestAction::Upload)
            } else {
                (ManifestState::Replacing, ManifestAction::Replace)
            },
            ManifestState::Uploading => (ManifestState::Replacing, ManifestAction::Replace),
            ManifestState::Replacing => (ManifestState::Complete, ManifestAction::Complete),
            ManifestState::Complete | ManifestState::Failed => (
                ManifestState::Failed,
                ManifestAction::Abort,
            ),
        }
    }
}

/// Moves the update of a manifest on and says what to do next.
pub fn update_manifest(s3: bool, state: ManifestState, ok: bool) -> (r: (
    ManifestState,
    ManifestAction,
))
    ensures
        r == manifest_update_next(s3, state, ok),
{
    if !ok {
        return (ManifestState::Failed, ManifestAction::Abort);
    }
    match state {
        ManifestState::Start => (ManifestState::Locking, ManifestAction::Lock),
        ManifestState::Locking => (ManifestState::Loading, ManifestAction::Load),
        ManifestState::Loading => (ManifestState::Encoding, ManifestAction::Encode),
        ManifestState::Encoding => {
            if s3 {
                (ManifestState::Uploading, ManifestAction::Upload)
            } else {
                (ManifestState::Replacing, ManifestAction::Replace)
            }
        },
        ManifestState::Uploading => (ManifestState::Replacing, ManifestAction::Replace),
        ManifestState::Replacing => (ManifestState::Complete, ManifestAction::Complete),
        ManifestState::Complete | ManifestState::Failed => (
            ManifestState::Failed,
            ManifestAction::Abort,
        ),
    }
}

/// A manifest is loaded only under its lock. Where there is an object store, the
/// file is replaced only after the upload.
pub proof fn manifest_is_updated_under_lock(s3: bool, state: ManifestState, ok: bool)
    ensures
        manifest_update_next(s3, state, ok).1 == ManifestAction::Load ==> state
            == ManifestState::Locking && ok,
        manifest_update_next(s3, state, ok).1 == ManifestAction::Replace ==> ok && (if s3 {
            state == ManifestState::Uploading
        } else {
            state == ManifestState::Encoding || state == ManifestState::Uploading
        }),
{
}

/// A lock file is locked after its directory was created, and held exactly if the file at
/// its path then is the locked one. Whatever fails on the way ends it.
pub proof fn lock_is_taken_in_order(locked: u64, at_path: Option<u64>)
    ensures
        ({
            let (creating, first) = lock_next(LockState::Start, LockEvent::Finished);
            let (locking, second) = lock_next(creating, LockEvent::Finished);
            let (comparing, third) = lock_next(locking, LockEvent::Finished);
            let last = lock_next(comparing, LockEvent::Inodes { locked, at_path }).1;
            &&& first == LockAction::CreateDir
            &&& second == LockAction::Lock
            &&& third == LockAction::Compare
            &&& at_path == Some(locked) ==> last == LockAction::Hold
            &&& at_path != Some(locked) ==> last == LockAction::RefuseStale
            &&& lock_next(creating, LockEvent::Failed).1 == LockAction::Abort
            &&& lock_next(locking, LockEvent::Failed).1 == LockAction::Abort
            &&& lock_next(comparing, LockEvent::Failed).1 == LockAction::Abort
        }),
{
}

/// Only readers of a snapshot share their lock, and only the lock of a manifest is waited
/// for.
pub proof fn only_readers_share_a_lock()
    ensures
        LockKind::Group.is_exclusive() && LockKind::Snapshot.is_exclusive()
            && LockKind::Manifest.is_exclusive() && !LockKind::SharedSnapshot.is_exclusive(),
        LockKind::Group.patience() == 0 && LockKind::Snapshot.patience() == 0
            && LockKind::SharedSnapshot.patience() == 0,
        LockKind::Manifest.patience() == 5,
{
}

/// A manifest is locked, loaded, encoded and replaced, with an upload before the last step
/// where there is an object store. Whatever fails on the way ends it, and nothing follows the
/// end.
pub proof fn manifest_is_updated_in_order(s3: bool, ok: bool)
    ensures
        ({
            let (locking, first) = manifest_update_next(s3, ManifestState::Start, true);
            let (loading, second) = manifest_update_next(s3, locking, true);
            let (encoding, third) = manifest_update_next(s3, loading, true);
            let (encoded, fourth) = manifest_update_next(s3, encoding, true);
            let (uploaded, fifth) = manifest_update_next(s3, encoded, true);
            let (replaced, sixth) = manifest_update_next(s3, uploaded, true);
            let last = manifest_update_next(s3, replaced, ok).1;
            &&& first == ManifestAction::Lock
            &&& second == ManifestAction::Load
            &&& third == ManifestAction::Encode
            &&& s3 ==> fourth == ManifestAction::Upload && fifth == ManifestAction::Replace
                && sixth == ManifestAction::Complete
            &&& !s3 ==> fourth == ManifestAction::Replace && fifth == ManifestAction::Complete
                && sixth == ManifestAction::Abort
            &&& s3 ==> last == ManifestAction::Abort
            &&& manifest_update_next(s3, manifest_update_next(s3, locking, false).0, ok).1
                == ManifestAction::Abort
        }),
        forall|state: ManifestState|
            #[trigger] manifest_update_next(s3, state, false).1 == ManifestAction::Abort,
{
}

} // verus!
