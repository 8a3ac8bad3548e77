//! Destroying groups and snapshots.

use vstd::prelude::*;
use crate::text::join3;

verus! {

// ---- a group ----

/// What was removed of a group.
#[derive(Clone, Copy, Debug, PartialEq, Eq, Structural)]
pub struct GroupDeleteStats {
    pub removed_snapshots: usize,
    /// Protected snapshots, which were kept.
    pub protected_snapshots: usize,
    pub removed_groups: usize,
}

impl GroupDeleteStats {
    /// Whether no snapshot was kept.
    pub fn all_removed(&self) -> (r: bool)
        ensures
            r == (self.protected_snapshots == 0),
    {
        self.protected_snapshots == 0
    }
}

/// What decides how a group or a snapshot is destroyed.
#[derive(Clone, Copy, Debug, PartialEq, Eq, Structural)]
pub struct DestroyRules {
    /// The datastore keeps its contents in an object store.
    pub s3: bool,
    /// Directories are locked themselves, so that they cannot be removed safely.
    pub old_locking: bool,
}

/// How far a group has been destroyed.
#[derive(Clone, Copy, Debug, PartialEq, Eq, Structural)]
pub enum GroupDestroyPhase {
    Listing,
    Checking(usize),
    Destroying(usize),
    DeletingObjects,
    RemovingDir,
    Complete,
    Failed,
}

/// State of the destruction of a group.
#[derive(Clone, Copy, Debug, PartialEq, Eq, Structural)]
pub struct GroupDestroyState {
    pub phase: GroupDestroyPhase,
    /// Number of snapshots, once they are listed.
    pub snapshots: usize,
    pub stats: GroupDeleteStats,
}

/// What the environment reports of the last action.
#[derive(Clone, Copy, Debug, PartialEq, Eq, Structural)]
pub enum GroupDestroyEvent {
    /// There are so many snapshots.
    Listed(usize),
    /// Whether the snapshot is protected.
    Protected(bool),
    /// The action was done.
    Finished,
    /// The action failed.
    Failed,
}

/// What the environment has to do next.
#[derive(Clone, Copy, Debug, PartialEq, Eq, Structural)]
pub enum GroupDestroyAction {
    /// List the snapshots.
    List,
    /// See whether the snapshot of this index is protected.
    CheckProtected(usize),
    /// Destroy the local copy of the snapshot of this index.
    DestroySnapshot(usize),
    /// Delete the objects of the group, but not those of protected snapshots.
    DeleteObjects,
    /// Remove the directory of the group.
    RemoveDir,
    /// Done.
    Complete(GroupDeleteStats),
    /// Give up.
    Abort,
}

/// State before anything is destroyed.
pub open spec fn group_destroy_start() -> GroupDestroyState {
    GroupDestroyState {
        phase: GroupDestroyPhase::Listing,
        snapshots: 0,
        stats: GroupDeleteStats {
            removed_snapshots: 0,
            protected_snapshots: 0,
            removed_groups: 0,
        },
    }
}

/// The state with another phase.
pub open spec fn destroy_at(
    state: GroupDestroyState,
    phase: GroupDestroyPhase,
) -> GroupDestroyState {
    GroupDestroyState { phase, ..state }
}

/// What follows once all snapshots before `i` were dealt with.
pub open spec fn destroy_next_snapshot(
    rules: DestroyRules,
    state: GroupDestroyState,
    i: usize,
) -> (GroupDestroyState, GroupDestroyAction) {
    if i < state.snapshots {
        (
            destroy_at(state, GroupDestroyPhase::Checking(i)),
            GroupDestroyAction::CheckProtected(i),
        )
    } else if rules.s3 {
        (
            destroy_at(state, GroupDestroyPhase::DeletingObjects),
            GroupDestroyAction::DeleteObjects,
        )
    } else {
        destroy_end(rules, state)
    }
}

/// What follows once everything in the group was dealt with.
pub open spec fn destroy_end(rules: DestroyRules, state: GroupDestroyState) -> (
    GroupDestroyState,
    GroupDestroyAction,
) {
    if state.stats.protected_snapshots == 0 && !rules.old_locking {
        (destroy_at(state, GroupDestroyPhase::RemovingDir), GroupDestroyAction::RemoveDir)
    } else {
        (
            destroy_at(state, GroupDestroyPhase::Complete),
            GroupDestroyAction::Complete(state.stats),
        )
    }
}

/// The next state and action.
pub open spec fn group_destroy_next(
    rules: DestroyRules,
    state: GroupDestroyState,
    event: GroupDestroyEvent,
) -> (GroupDestroyState, GroupDestroyAction) {
    match (state.phase, event) {
        (GroupDestroyPhase::Listing, GroupDestroyEvent::Listed(snapshots)) => destroy_next_snapshot(
            rules,
            GroupDestroyState { snapshots, ..state },
            0,
        ),
        (GroupDestroyPhase::Checking(i), GroupDestroyEvent::Protected(protected)) => if protected {
            destroy_next_snapshot(
                rules,
                GroupDestroyState {
                    stats: GroupDeleteStats {
                        protected_snapshots: (state.stats.protected_snapshots + 1) as usize,
                        ..state.stats
                    },
                    ..state
                },
                (i + 1) as usize,
            )
        } else {
            (
                destroy_at(state, GroupDestroyPhase::Destroying(i)),
                GroupDestroyAction::DestroySnapshot(i),
            )
        },
        (GroupDestroyPhase::Destroying(i), GroupDestroyEvent::Finished) => destroy_next_snapshot(
            rules,
            GroupDestroyState {
                stats: GroupDeleteStats {
                    removed_snapshots: (state.stats.removed_snapshots + 1) as usize,
                    ..state.stats
                },
                ..state
            },
            (i + 1) as usize,
        ),
        (GroupDestroyPhase::DeletingObjects, GroupDestroyEvent::Finished) => destroy_end(
            rules,
            state,
        ),
        (GroupDestroyPhase::RemovingDir, GroupDestroyEvent::Finished) => {
            let stats = GroupDeleteStats {
                removed_groups: (state.stats.removed_groups + 1) as usize,
                ..state.stats
            };
            (
                GroupDestroyState { phase: GroupDestroyPhase::Complete, stats, ..state },
                GroupDestroyAction::Complete(stats),
            )
        },
        _ => (destroy_at(state, GroupDestroyPhase::Failed), GroupDestroyAction::Abort),
    }
}

/// The counters of a state match the snapshots that it has behind it.
pub open spec fn destroy_counts(state: GroupDestroyState) -> bool {
    let done = state.stats.removed_snapshots + state.stats.protected_snapshots;
    &&& match state.phase {
        GroupDestroyPhase::Listing => done == 0,
        GroupDestroyPhase::Checking(i) | GroupDestroyPhase::Destroying(i) => done == i && i
            < state.snapshots,
        GroupDestroyPhase::Failed => true,
        _ => done == state.snapshots,
    }
    &&& state.phase != GroupDestroyPhase::Complete && state.phase != GroupDestroyPhase::Failed
        ==> state.stats.removed_groups == 0
    &&& state.phase == GroupDestroyPhase::RemovingDir ==> state.stats.protected_snapshots == 0
}

impl GroupDestroyState {
    /// State before anything is destroyed.
    pub fn new() -> (r: GroupDestroyState)
        ensures
            r == group_destroy_start(),
            destroy_counts(r),
    {
        GroupDestroyState {
            phase: GroupDestroyPhase::Listing,
            snapshots: 0,
            stats: GroupDeleteStats {
                removed_snapshots: 0,
                protected_snapshots: 0,
                removed_groups: 0,
            },
        }
    }

    fn at(self, phase: GroupDestroyPhase) -> (r: GroupDestroyState)
        ensures
            r == destroy_at(self, phase),
    {
        GroupDestroyState { phase, snapshots: self.snapshots, stats: self.stats }
    }
}

impl DestroyRules {
    fn end(&self, state: GroupDestroyState) -> (r: (GroupDestroyState, GroupDestroyAction))
        ensures
            r == destroy_end(*self, state),
    {
        if state.stats.all_removed() && !self.old_locking {
            (state.at(GroupDestroyPhase::RemovingDir), GroupDestroyAction::RemoveDir)
        } else {
            (state.at(GroupDestroyPhase::Complete), GroupDestroyAction::Complete(state.stats))
        }
    }

    fn next_snapshot(&self, state: GroupDestroyState, i: usize) -> (r: (
        GroupDestroyState,
        GroupDestroyAction,
    ))
        ensures
            r == destroy_next_snapshot(*self, state, i),
    {
        if i < state.snapshots {
            (state.at(GroupDestroyPhase::Checking(i)), GroupDestroyAction::CheckProtected(i))
        } else if self.s3 {
            (state.at(GroupDestroyPhase::DeletingObjects), GroupDestroyAction::DeleteObjects)
        } else {
            self.end(state)
        }
    }

    /// Moves the destruction of a group on and says what to do next.
    pub fn step_group(&self, state: GroupDestroyState, event: GroupDestroyEvent) -> (r: (
        GroupDestroyState,
        GroupDestroyAction,
    ))
        requires
            destroy_counts(state),
        ensures
            r == group_destroy_next(*self, state, event),
            destroy_counts(r.0),
    {
        let mut state = state;
        match (state.phase, event) {
            (GroupDestroyPhase::Listing, GroupDestroyEvent::Listed(snapshots)) => {
                state.snapshots = snapshots;
                self.next_snapshot(state, 0)
            },
            (GroupDestroyPhase::Checking(i), GroupDestroyEvent::Protected(protected)) => {
                if protected {
                    state.stats.protected_snapshots = state.stats.protected_snapshots + 1;
                    self.next_snapshot(state, i + 1)
                } else {
                    (
                        state.at(GroupDestroyPhase::Destroying(i)),
                        GroupDestroyAction::DestroySnapshot(i),
                    )
                }
            },
            (GroupDestroyPhase::Destroying(i), GroupDestroyEvent::Finished) => {
                state.stats.removed_snapshots = state.stats.removed_snapshots + 1;
                self.next_snapshot(state, i + 1)
            },
            (GroupDestroyPhase::DeletingObjects, GroupDestroyEvent::Finished) => self.end(state),
            (GroupDestroyPhase::RemovingDir, GroupDestroyEvent::Finished) => {
                state.stats.removed_groups = state.stats.removed_groups + 1;
                (state.at(GroupDestroyPhase::Complete), GroupDestroyAction::Complete(state.stats))
            },
            _ => (state.at(GroupDestroyPhase::Failed), GroupDestroyAction::Abort),
        }
    }
}

/// A snapshot is destroyed only if it was just found not to be protected, and the
/// directory of a group is removed only if no snapshot of it was kept.
pub proof fn protected_snapshots_are_kept(
    rules: DestroyRules,
    state: GroupDestroyState,
    event: GroupDestroyEvent,
)
    requires
        destroy_counts(state),
    ensures
        match group_destroy_next(rules, state, event).1 {
            GroupDestroyAction::DestroySnapshot(i) => state.phase == GroupDestroyPhase::Checking(i)
                && event == GroupDestroyEvent::Protected(false),
            GroupDestroyAction::RemoveDir => {
                let next = group_destroy_next(rules, state, event).0;
                &&& next.stats.protected_snapshots == 0
                &&& next.stats.removed_snapshots == next.snapshots
                &&& !rules.old_locking
            },
            _ => true,
        },
{
}

/// In the end every snapshot of the group is counted, as removed or as kept, and
/// the group is counted as removed only if none was kept.
pub proof fn every_snapshot_is_counted(
    rules: DestroyRules,
    state: GroupDestroyState,
    event: GroupDestroyEvent,
    stats: GroupDeleteStats,
)
    requires
        destroy_counts(state),
        group_destroy_next(rules, state, event).1 == GroupDestroyAction::Complete(stats),
    ensures
        stats.removed_snapshots + stats.protected_snapshots == group_destroy_next(
            rules,
            state,
            event,
        ).0.snapshots,
        stats.removed_groups <= 1,
        stats.removed_groups == 1 ==> stats.protected_snapshots == 0,
{
}

// ---- the directory of a group ----

/// How far the directory of a group has been removed.
#[derive(Clone, Copy, Debug, PartialEq, Eq, Structural)]
pub enum GroupDirState {
    RemovingNotes,
    RemovingOwner,
    RemovingDir,
    RemovingLock,
    Ended,
}

/// What came of a removal.
#[derive(Clone, Copy, Debug, PartialEq, Eq, Structural)]
pub enum RemoveResult {
    Removed,
    /// It was not there.
    NotFound,
    Failed,
}

/// What the environment has to do next.
#[derive(Clone, Copy, Debug, PartialEq, Eq, Structural)]
pub enum GroupDirAction {
    RemoveNotes,
    RemoveOwner,
    RemoveDir,
    RemoveLock,
    Complete,
    Abort,
}

/// The next state and action. Notes and owner need not be there, but the
/// directory does; what becomes of the lock file does not matter.
pub open spec fn group_dir_next(state: GroupDirState, result: RemoveResult) -> (
    GroupDirState,
    GroupDirAction,
) {
    match state {
        GroupDirState::RemovingNotes => if result != RemoveResult::Failed {
            (GroupDirState::RemovingOwner, GroupDirAction::RemoveOwner)
        } else {
            (GroupDirState::Ended, GroupDirAction::Abort)
        },
        GroupDirState::RemovingOwner => if result != RemoveResult::Failed {
            (GroupDirState::RemovingDir, GroupDirAction::RemoveDir)
        } else {
            (GroupDirState::Ended, GroupDirAction::Abort)
        },
        GroupDirState::RemovingDir => if result == RemoveResult::Removed {
            (GroupDirState::RemovingLock, GroupDirAction::RemoveLock)
        } else {
            (GroupDirState::Ended, GroupDirAction::Abort)
        },
        GroupDirState::RemovingLock => (GroupDirState::Ended, GroupDirAction::Complete),
        GroupDirState::Ended => (GroupDirState::Ended, GroupDirAction::Abort),
    }
}

/// Moves the removal of the directory of a group on and says what to do next. It
/// starts with the notes, and no snapshot may be left in the group.
pub fn remove_group_dir(state: GroupDirState, result: RemoveResult) -> (r: (
    GroupDirState,
    GroupDirAction,
))
    ensures
        r == group_dir_next(state, result),
{
    let failed = match result {
        RemoveResult::Failed => true,
        _ => false,
    };
    match state {
        GroupDirState::RemovingNotes => if !failed {
            (GroupDirState::RemovingOwner, GroupDirAction::RemoveOwner)
        } else {
            (GroupDirState::Ended, GroupDirAction::Abort)
        },
        GroupDirState::RemovingOwner => if !failed {
            (GroupDirState::RemovingDir, GroupDirAction::RemoveDir)
        } else {
            (GroupDirState::Ended, GroupDirAction::Abort)
        },
        GroupDirState::RemovingDir => match result {
            RemoveResult::Removed => (GroupDirState::RemovingLock, GroupDirAction::RemoveLock),
            _ => (GroupDirState::Ended, GroupDirAction::Abort),
        },
        GroupDirState::RemovingLock => (GroupDirState::Ended, GroupDirAction::Complete),
        GroupDirState::Ended => (GroupDirState::Ended, GroupDirAction::Abort),
    }
}

// ---- a snapshot ----

/// How far a snapshot has been destroyed.
#[derive(Clone, Copy, Debug, PartialEq, Eq, Structural)]
pub enum SnapshotDestroyState {
    Start,
    Locking,
    LockingManifest,
    CheckingProtected,
    DeletingObjects,
    RemovingDir,
    RemovingLockFiles,
    LockingGroup,
    ListingGroup,
    RemovingGroupDir,
    DeletingOwnerObject,
    Complete,
    Failed,
}

/// What the environment reports of the last action.
#[derive(Clone, Copy, Debug, PartialEq, Eq, Structural)]
pub enum SnapshotDestroyEvent {
    /// The action was done.
    Finished,
    /// Whether the snapshot is protected.
    Protected(bool),
    /// Whether no snapshot is left in the group.
    Empty(bool),
    /// The action failed.
    Failed,
}

/// What the environment has to do next.
#[derive(Clone, Copy, Debug, PartialEq, Eq, Structural)]
pub enum SnapshotDestroyAction {
    /// Lock the snapshot.
    Lock,
    /// Lock its manifest.
    LockManifest,
    /// See whether it is protected.
    CheckProtected,
    /// Delete its objects.
    DeleteObjects,
    /// Remove its directory.
    RemoveDir,
    /// Remove its lock files; it does no harm if that fails.
    RemoveLockFiles,
    /// Lock its group.
    LockGroup,
    /// See whether a snapshot is left in the group.
    ListGroup,
    /// Remove the directory of the group.
    RemoveGroupDir,
    /// Delete the object that names the owner of the group.
    DeleteOwnerObject,
    /// Done.
    Complete,
    /// The snapshot is protected.
    RefuseProtected,
    /// Give up.
    Abort,
}

/// The next state and action. With `force` nothing is locked. A group that is
/// left empty is removed too, unless it is in use.
pub open spec fn snapshot_destroy_next(
    rules: DestroyRules,
    force: bool,
    state: SnapshotDestroyState,
    event: SnapshotDestroyEvent,
) -> (SnapshotDestroyState, SnapshotDestroyAction) {
    match (state, event) {
        (SnapshotDestroyState::Start, SnapshotDestroyEvent::Finished) => if force {
            (SnapshotDestroyState::CheckingProtected, SnapshotDestroyAction::CheckProtected)
        } else {
            (SnapshotDestroyState::Locking, SnapshotDestroyAction::Lock)
        },
        (SnapshotDestroyState::Locking, SnapshotDestroyEvent::Finished) => (
            SnapshotDestroyState::LockingManifest,
            SnapshotDestroyAction::LockManifest,
        ),
        (SnapshotDestroyState::LockingManifest, SnapshotDestroyEvent::Finished) => (
            SnapshotDestroyState::CheckingProtected,
            SnapshotDestroyAction::CheckProtected,
        ),
        (SnapshotDestroyState::CheckingProtected, SnapshotDestroyEvent::Protected(protected)) =>
            if protected {
                (SnapshotDestroyState::Failed, SnapshotDestroyAction::RefuseProtected)
            } else if rules.s3 {
                (SnapshotDestroyState::DeletingObjects, SnapshotDestroyAction::DeleteObjects)
            } else {
                (SnapshotDestroyState::RemovingDir, SnapshotDestroyAction::RemoveDir)
            },
        (SnapshotDestroyState::DeletingObjects, SnapshotDestroyEvent::Finished) => (
            SnapshotDestroyState::RemovingDir,
            SnapshotDestroyAction::RemoveDir,
        ),
        (SnapshotDestroyState::RemovingDir, SnapshotDestroyEvent::Finished) => (
            SnapshotDestroyState::RemovingLockFiles,
            SnapshotDestroyAction::RemoveLockFiles,
        ),
        (SnapshotDestroyState::RemovingLockFiles, SnapshotDestroyEvent::Finished) => (
            SnapshotDestroyState::LockingGroup,
            SnapshotDestroyAction::LockGroup,
        ),
        (SnapshotDestroyState::RemovingLockFiles, SnapshotDestroyEvent::Failed) => (
            SnapshotDestroyState::LockingGroup,
            SnapshotDestroyAction::LockGroup,
        ),
        (SnapshotDestroyState::LockingGroup, SnapshotDestroyEvent::Finished) => (
            SnapshotDestroyState::ListingGroup,
            SnapshotDestroyAction::ListGroup,
        ),
        (SnapshotDestroyState::LockingGroup, SnapshotDestroyEvent::Failed) => (
            SnapshotDestroyState::Complete,
            SnapshotDestroyAction::Complete,
        ),
        (SnapshotDestroyState::ListingGroup, SnapshotDestroyEvent::Empty(empty)) => if empty
            && !rules.old_locking {
            (SnapshotDestroyState::RemovingGroupDir, SnapshotDestroyAction::RemoveGroupDir)
        } else {
            (SnapshotDestroyState::Complete, SnapshotDestroyAction::Complete)
        },
        (SnapshotDestroyState::RemovingGroupDir, SnapshotDestroyEvent::Finished) => if rules.s3 {
            (SnapshotDestroyState::DeletingOwnerObject, SnapshotDestroyAction::DeleteOwnerObject)
        } else {
            (SnapshotDestroyState::Complete, SnapshotDestroyAction::Complete)
        },
        (SnapshotDestroyState::DeletingOwnerObject, SnapshotDestroyEvent::Finished) => (
            SnapshotDestroyState::Complete,
            SnapshotDestroyAction::Complete,
        ),
        _ => (SnapshotDestroyState::Failed, SnapshotDestroyAction::Abort),
    }
}

impl DestroyRules {
    /// Moves the destruction of a snapshot on and says what to do next.
    pub fn step_snapshot(
        &self,
        force: bool,
        state: SnapshotDestroyState,
        event: SnapshotDestroyEvent,
    ) -> (r: (SnapshotDestroyState, SnapshotDestroyAction))
        ensures
            r == snapshot_destroy_next(*self, force, state, event),
    {
        match (state, event) {
            (SnapshotDestroyState::Start, SnapshotDestroyEvent::Finished) => {
                if force {
                    (SnapshotDestroyState::CheckingProtected, SnapshotDestroyAction::CheckProtected)
                } else {
                    (SnapshotDestroyState::Locking, SnapshotDestroyAction::Lock)
                }
            },
            (SnapshotDestroyState::Locking, SnapshotDestroyEvent::Finished) => (
                SnapshotDestroyState::LockingManifest,
                SnapshotDestroyAction::LockManifest,
            ),
            (SnapshotDestroyState::LockingManifest, SnapshotDestroyEvent::Finished) => (
                SnapshotDestroyState::CheckingProtected,
                SnapshotDestroyAction::CheckProtected,
            ),
            (
                SnapshotDestroyState::CheckingProtected,
                SnapshotDestroyEvent::Protected(protected),
            ) => {
                if protected {
                    (SnapshotDestroyState::Failed, SnapshotDestroyAction::RefuseProtected)
                } else if self.s3 {
                    (SnapshotDestroyState::DeletingObjects, SnapshotDestroyAction::DeleteObjects)
                } else {
                    (SnapshotDestroyState::RemovingDir, SnapshotDestroyAction::RemoveDir)
                }
            },
            (SnapshotDestroyState::DeletingObjects, SnapshotDestroyEvent::Finished) => (
                SnapshotDestroyState::RemovingDir,
                SnapshotDestroyAction::RemoveDir,
            ),
            (SnapshotDestroyState::RemovingDir, SnapshotDestroyEvent::Finished) => (
                SnapshotDestroyState::RemovingLockFiles,
                SnapshotDestroyAction::RemoveLockFiles,
            ),
            (SnapshotDestroyState::RemovingLockFiles, SnapshotDestroyEvent::Finished)
            | (SnapshotDestroyState::RemovingLockFiles, SnapshotDestroyEvent::Failed) => (
                SnapshotDestroyState::LockingGroup,
                SnapshotDestroyAction::LockGroup,
            ),
            (SnapshotDestroyState::LockingGroup, SnapshotDestroyEvent::Finished) => (
                SnapshotDestroyState::ListingGroup,
                SnapshotDestroyAction::ListGroup,
            ),
            (SnapshotDestroyState::LockingGroup, SnapshotDestroyEvent::Failed) => (
                SnapshotDestroyState::Complete,
                SnapshotDestroyAction::Complete,
            ),
            (SnapshotDestroyState::ListingGroup, SnapshotDestroyEvent::Empty(empty)) => {
                if empty && !self.old_locking {
                    (SnapshotDestroyState::RemovingGroupDir, SnapshotDestroyAction::RemoveGroupDir)
                } else {
                    (SnapshotDestroyState::Complete, SnapshotDestroyAction::Complete)
                }
            },
            (SnapshotDestroyState::RemovingGroupDir, SnapshotDestroyEvent::Finished) => {
                if self.s3 {
                    (
                        SnapshotDestroyState::DeletingOwnerObject,
                        SnapshotDestroyAction::DeleteOwnerObject,
                    )
                } else {
                    (SnapshotDestroyState::Complete, SnapshotDestroyAction::Complete)
                }
            },
            (SnapshotDestroyState::DeletingOwnerObject, SnapshotDestroyEvent::Finished) => (
                SnapshotDestroyState::Complete,
                SnapshotDestroyAction::Complete,
            ),
            _ => (SnapshotDestroyState::Failed, SnapshotDestroyAction::Abort),
        }
    }
}

/// The state after a list of events, from the start.
pub open spec fn snapshot_destroy_run(
    rules: DestroyRules,
    force: bool,
    events: Seq<SnapshotDestroyEvent>,
) -> SnapshotDestroyState
    decreases events.len(),
{
    if events.len() == 0 {
        SnapshotDestroyState::Start
    } else {
        snapshot_destroy_next(
            rules,
            force,
            snapshot_destroy_run(rules, force, events.drop_last()),
            events.last(),
        ).0
    }
}

/// States in which something of the snapshot may have been removed.
pub open spec fn past_protection(state: SnapshotDestroyState) -> bool {
    match state {
        SnapshotDestroyState::Start
        | SnapshotDestroyState::Locking
        | SnapshotDestroyState::LockingManifest
        | SnapshotDestroyState::CheckingProtected
        | SnapshotDestroyState::Failed => false,
        _ => true,
    }
}

/// Nothing of a snapshot is removed, neither objects nor files, unless it was
/// found not to be protected. That holds with `force` too.
pub proof fn protected_snapshot_is_not_destroyed(
    rules: DestroyRules,
    force: bool,
    events: Seq<SnapshotDestroyEvent>,
)
    requires
        past_protection(snapshot_destroy_run(rules, force, events)),
    ensures
        events.contains(SnapshotDestroyEvent::Protected(false)),
    decreases events.len(),
{
    if events.len() > 0 {
        let init = events.drop_last();
        if past_protection(snapshot_destroy_run(rules, force, init)) {
            protected_snapshot_is_not_destroyed(rules, force, init);
            let i = init.index_of(SnapshotDestroyEvent::Protected(false));
            assert(events[i] == init[i]);
        } else {
            assert(events[events.len() - 1] == events.last());
        }
    }
}

/// A group is removed along with its last snapshot only if it could be locked and
/// was found empty.
pub proof fn group_in_use_is_kept(
    rules: DestroyRules,
    force: bool,
    state: SnapshotDestroyState,
    event: SnapshotDestroyEvent,
)
    ensures
        snapshot_destroy_next(rules, force, state, event).1
            == SnapshotDestroyAction::RemoveGroupDir ==> state == SnapshotDestroyState::ListingGroup
            && event == SnapshotDestroyEvent::Empty(true) && !rules.old_locking,
        snapshot_destroy_next(rules, force, state, event).0 == SnapshotDestroyState::ListingGroup
            ==> state == SnapshotDestroyState::LockingGroup && event
            == SnapshotDestroyEvent::Finished,
{
}

// ---- what is asked for, answer by answer ----

/// The state and what was asked for last, after a list of answers; at the start only the
/// snapshots are to be listed.
pub open spec fn group_destroy_run(rules: DestroyRules, events: Seq<GroupDestroyEvent>) -> (
    GroupDestroyState,
    GroupDestroyAction,
)
    decreases events.len(),
{
    if events.len() == 0 {
        (group_destroy_start(), GroupDestroyAction::List)
    } else {
        group_destroy_next(rules, group_destroy_run(rules, events.drop_last()).0, events.last())
    }
}

/// Number of snapshots that was reported.
pub open spec fn snapshots_listed(events: Seq<GroupDestroyEvent>) -> usize
    decreases events.len(),
{
    if events.len() == 0 {
        0
    } else {
        match events.last() {
            GroupDestroyEvent::Listed(snapshots) => snapshots,
            _ => snapshots_listed(events.drop_last()),
        }
    }
}

/// The snapshots that were looked at when they were asked for, with whether they are
/// protected.
pub open spec fn protection_found(rules: DestroyRules, events: Seq<GroupDestroyEvent>) -> Seq<
    (usize, bool),
>
    decreases events.len(),
{
    if events.len() == 0 {
        seq![]
    } else {
        let before = protection_found(rules, events.drop_last());
        match (group_destroy_run(rules, events.drop_last()).1, events.last()) {
            (
                GroupDestroyAction::CheckProtected(i),
                GroupDestroyEvent::Protected(protected),
            ) => before.push((i, protected)),
            _ => before,
        }
    }
}

/// The snapshots that were destroyed when they were asked for.
pub open spec fn snapshots_destroyed(rules: DestroyRules, events: Seq<GroupDestroyEvent>) -> Seq<
    usize,
>
    decreases events.len(),
{
    if events.len() == 0 {
        seq![]
    } else {
        let before = snapshots_destroyed(rules, events.drop_last());
        match (group_destroy_run(rules, events.drop_last()).1, events.last()) {
            (GroupDestroyAction::DestroySnapshot(i), GroupDestroyEvent::Finished) => before.push(i),
            _ => before,
        }
    }
}

/// Those that were found not to be protected.
pub open spec fn unprotected(found: Seq<(usize, bool)>) -> Seq<usize>
    decreases found.len(),
{
    if found.len() == 0 {
        seq![]
    } else if found.last().1 {
        unprotected(found.drop_last())
    } else {
        unprotected(found.drop_last()).push(found.last().0)
    }
}

/// What a phase waits for.
spec fn group_destroy_awaits(state: GroupDestroyState, action: GroupDestroyAction) -> bool {
    match state.phase {
        GroupDestroyPhase::Listing => action == GroupDestroyAction::List,
        GroupDestroyPhase::Checking(i) => action == GroupDestroyAction::CheckProtected(i),
        GroupDestroyPhase::Destroying(i) => action == GroupDestroyAction::DestroySnapshot(i),
        GroupDestroyPhase::DeletingObjects => action == GroupDestroyAction::DeleteObjects,
        GroupDestroyPhase::RemovingDir => action == GroupDestroyAction::RemoveDir,
        GroupDestroyPhase::Complete => action == GroupDestroyAction::Complete(state.stats),
        GroupDestroyPhase::Failed => action == GroupDestroyAction::Abort,
    }
}

spec fn found_in_order(found: Seq<(usize, bool)>) -> bool {
    forall|i: int| 0 <= i < found.len() ==> (#[trigger] found[i]).0 == i
}

proof fn unprotected_len(found: Seq<(usize, bool)>)
    ensures
        unprotected(found).len() <= found.len(),
    decreases found.len(),
{
    if found.len() > 0 {
        unprotected_len(found.drop_last());
    }
}

spec fn destroy_tallies(rules: DestroyRules, events: Seq<GroupDestroyEvent>) -> bool {
    let state = group_destroy_run(rules, events).0;
    let found = protection_found(rules, events);
    let destroyed = snapshots_destroyed(rules, events);
    state.phase != GroupDestroyPhase::Failed ==> {
        &&& destroy_counts(state)
        &&& state.snapshots == snapshots_listed(events)
        &&& found_in_order(found)
        &&& found.len() == (match state.phase {
            GroupDestroyPhase::Listing => 0,
            GroupDestroyPhase::Checking(i) => i as nat,
            GroupDestroyPhase::Destroying(i) => (i + 1) as nat,
            _ => state.snapshots as nat,
        })
        &&& state.phase is Destroying ==> !found.last().1
        &&& destroyed == unprotected(
            if state.phase is Destroying {
                found.drop_last()
            } else {
                found
            },
        )
        &&& state.stats.removed_snapshots == destroyed.len()
        &&& state.phase == GroupDestroyPhase::Complete ==> state.stats.removed_groups == (
        if state.stats.protected_snapshots == 0 && !rules.old_locking {
            1int
        } else {
            0
        })
    }
}

proof fn destroy_step_tallies(
    rules: DestroyRules,
    init: Seq<GroupDestroyEvent>,
    event: GroupDestroyEvent,
)
    requires
        destroy_tallies(rules, init),
        group_destroy_awaits(
            group_destroy_run(rules, init).0,
            group_destroy_run(rules, init).1,
        ),
    ensures
        destroy_tallies(rules, init.push(event)),
        group_destroy_awaits(
            group_destroy_run(rules, init.push(event)).0,
            group_destroy_run(rules, init.push(event)).1,
        ),
{
    let events = init.push(event);
    assert(events.drop_last() =~= init);
    let (before, asked) = group_destroy_run(rules, init);
    let state = group_destroy_run(rules, events).0;
    let found0 = protection_found(rules, init);
    let found = protection_found(rules, events);
    if state.phase != GroupDestroyPhase::Failed {
        match before.phase {
            GroupDestroyPhase::Checking(i) => {
                assert(asked == GroupDestroyAction::CheckProtected(i));
                assert(event is Protected);
                assert(found.drop_last() =~= found0);
            },
            GroupDestroyPhase::Destroying(i) => {
                assert(asked == GroupDestroyAction::DestroySnapshot(i));
                assert(event == GroupDestroyEvent::Finished);
                assert(found == found0);
                assert(found.last() == found[i as int]);
            },
            _ => {
                assert(found == found0);
                assert(snapshots_destroyed(rules, events) == snapshots_destroyed(rules, init));
            },
        }
    }
}

proof fn destroy_run_tallies(rules: DestroyRules, events: Seq<GroupDestroyEvent>)
    ensures
        destroy_tallies(rules, events),
        group_destroy_awaits(
            group_destroy_run(rules, events).0,
            group_destroy_run(rules, events).1,
        ),
    decreases events.len(),
{
    if events.len() > 0 {
        destroy_run_tallies(rules, events.drop_last());
        assert(events.drop_last().push(events.last()) =~= events);
        destroy_step_tallies(rules, events.drop_last(), events.last());
    }
}

/// When a group is destroyed, every snapshot was looked at, each once and in order, and
/// exactly those that are not protected were destroyed. The counts are those of what was
/// destroyed and of what was kept, and the group counts as removed exactly if nothing was
/// kept and its directory may be removed.
pub proof fn unprotected_snapshots_are_destroyed(
    rules: DestroyRules,
    events: Seq<GroupDestroyEvent>,
    stats: GroupDeleteStats,
)
    requires
        group_destroy_run(rules, events).1 == GroupDestroyAction::Complete(stats),
    ensures
        ({
            let found = protection_found(rules, events);
            let destroyed = snapshots_destroyed(rules, events);
            &&& found.len() == snapshots_listed(events)
            &&& forall|i: int| 0 <= i < found.len() ==> (#[trigger] found[i]).0 == i
            &&& destroyed == unprotected(found)
            &&& stats.removed_snapshots == destroyed.len()
            &&& stats.protected_snapshots == found.len() - destroyed.len()
            &&& stats.removed_groups == (if destroyed.len() == found.len() && !rules.old_locking {
                1int
            } else {
                0
            })
        }),
{
    destroy_run_tallies(rules, events);
    unprotected_len(protection_found(rules, events));
}

/// Whether `action` is right once all of a group was dealt with.
pub open spec fn is_destroy_end(
    rules: DestroyRules,
    found: Seq<(usize, bool)>,
    action: GroupDestroyAction,
) -> bool {
    if (forall|i: int| 0 <= i < found.len() ==> !(#[trigger] found[i]).1) && !rules.old_locking {
        action == GroupDestroyAction::RemoveDir
    } else {
        action is Complete
    }
}

/// Whether `action` is right once the snapshots before `i` were dealt with.
pub open spec fn leads_to_check(
    rules: DestroyRules,
    listed: usize,
    found: Seq<(usize, bool)>,
    i: int,
    action: GroupDestroyAction,
) -> bool {
    if i < listed {
        action == GroupDestroyAction::CheckProtected(i as usize)
    } else if rules.s3 {
        action == GroupDestroyAction::DeleteObjects
    } else {
        is_destroy_end(rules, found, action)
    }
}

proof fn nothing_kept(found: Seq<(usize, bool)>)
    ensures
        unprotected(found).len() == found.len() <==> (forall|i: int|
            0 <= i < found.len() ==> !(#[trigger] found[i]).1),
        unprotected(found).len() <= found.len(),
    decreases found.len(),
{
    if found.len() > 0 {
        let init = found.drop_last();
        nothing_kept(init);
        if forall|i: int| 0 <= i < init.len() ==> !(#[trigger] init[i]).1 {
            assert forall|i: int| 0 <= i < found.len() && !found.last().1 implies !(
            #[trigger] found[i]).1 by {
                if i < init.len() {
                    assert(found[i] == init[i]);
                }
            }
            assert(found.last() == found[found.len() - 1]);
        } else {
            let i = choose|i: int| 0 <= i < init.len() && (#[trigger] init[i]).1;
            assert(found[i] == init[i]);
        }
    }
}

/// How a group is destroyed, whatever was answered before: each snapshot is looked at, one
/// that is not protected is destroyed, and the next one follows in any case. Then the
/// objects are deleted, if there are any, and the directory is removed unless a snapshot was
/// kept or it must not be. Whatever fails ends it.
pub proof fn group_destroy_answers_are_followed(
    rules: DestroyRules,
    events: Seq<GroupDestroyEvent>,
    event: GroupDestroyEvent,
)
    ensures
        ({
            let after = events.push(event);
            let next = group_destroy_run(rules, after).1;
            let found = protection_found(rules, after);
            let listed = snapshots_listed(events);
            let done = event == GroupDestroyEvent::Finished;
            match group_destroy_run(rules, events).1 {
                GroupDestroyAction::List => match event {
                    GroupDestroyEvent::Listed(n) => leads_to_check(rules, n, found, 0, next),
                    _ => next == GroupDestroyAction::Abort,
                },
                GroupDestroyAction::CheckProtected(i) => match event {
                    GroupDestroyEvent::Protected(true) => leads_to_check(
                        rules,
                        listed,
                        found,
                        i + 1,
                        next,
                    ),
                    GroupDestroyEvent::Protected(false) => next
                        == GroupDestroyAction::DestroySnapshot(i),
                    _ => next == GroupDestroyAction::Abort,
                },
                GroupDestroyAction::DestroySnapshot(i) => if done {
                    leads_to_check(rules, listed, found, i + 1, next)
                } else {
                    next == GroupDestroyAction::Abort
                },
                GroupDestroyAction::DeleteObjects => if done {
                    is_destroy_end(rules, found, next)
                } else {
                    next == GroupDestroyAction::Abort
                },
                GroupDestroyAction::RemoveDir => if done {
                    next is Complete
                } else {
                    next == GroupDestroyAction::Abort
                },
                _ => next == GroupDestroyAction::Abort,
            }
        }),
{
    let after = events.push(event);
    assert(after.drop_last() =~= events);
    destroy_run_tallies(rules, events);
    destroy_run_tallies(rules, after);
    nothing_kept(protection_found(rules, after));
}

/// The directory of a group is removed after its notes and its owner, which need not be
/// there, and its lock file last. What cannot be removed ends it, but for the lock file.
pub proof fn group_dir_is_removed_in_order(result: RemoveResult)
    ensures
        ({
            let gone = result != RemoveResult::Failed;
            let (notes, first) = group_dir_next(GroupDirState::RemovingNotes, result);
            let (owner, second) = group_dir_next(notes, result);
            let (dir, third) = group_dir_next(owner, RemoveResult::Removed);
            let fourth = group_dir_next(dir, result).1;
            &&& gone ==> first == GroupDirAction::RemoveOwner
            &&& gone ==> second == GroupDirAction::RemoveDir
            &&& gone ==> third == GroupDirAction::RemoveLock && fourth == GroupDirAction::Complete
            &&& gone ==> group_dir_next(owner, RemoveResult::NotFound).1 == GroupDirAction::Abort
            &&& gone ==> group_dir_next(owner, RemoveResult::Failed).1 == GroupDirAction::Abort
            &&& gone ==> group_dir_next(notes, RemoveResult::Failed).1 == GroupDirAction::Abort
            &&& !gone ==> first == GroupDirAction::Abort
            &&& !gone ==> second == GroupDirAction::Abort
            &&& gone ==> group_dir_next(group_dir_next(dir, result).0, result).1
                == GroupDirAction::Abort
        }),
{
}

/// What was asked for last of the destruction of a snapshot, after a list of answers;
/// nothing yet at the start.
pub open spec fn snapshot_destroy_asked(
    rules: DestroyRules,
    force: bool,
    events: Seq<SnapshotDestroyEvent>,
) -> Option<SnapshotDestroyAction> {
    if events.len() == 0 {
        None
    } else {
        Some(
            snapshot_destroy_next(
                rules,
                force,
                snapshot_destroy_run(rules, force, events.drop_last()),
                events.last(),
            ).1,
        )
    }
}

/// What a state waits for.
spec fn snapshot_destroy_awaits(
    state: SnapshotDestroyState,
    action: Option<SnapshotDestroyAction>,
) -> bool {
    match state {
        SnapshotDestroyState::Start => action is None,
        SnapshotDestroyState::Locking => action == Some(SnapshotDestroyAction::Lock),
        SnapshotDestroyState::LockingManifest => action == Some(
            SnapshotDestroyAction::LockManifest,
        ),
        SnapshotDestroyState::CheckingProtected => action == Some(
            SnapshotDestroyAction::CheckProtected,
        ),
        SnapshotDestroyState::DeletingObjects => action == Some(
            SnapshotDestroyAction::DeleteObjects,
        ),
        SnapshotDestroyState::RemovingDir => action == Some(SnapshotDestroyAction::RemoveDir),
        SnapshotDestroyState::RemovingLockFiles => action == Some(
            SnapshotDestroyAction::RemoveLockFiles,
        ),
        SnapshotDestroyState::LockingGroup => action == Some(SnapshotDestroyAction::LockGroup),
        SnapshotDestroyState::ListingGroup => action == Some(SnapshotDestroyAction::ListGroup),
        SnapshotDestroyState::RemovingGroupDir => action == Some(
            SnapshotDestroyAction::RemoveGroupDir,
        ),
        SnapshotDestroyState::DeletingOwnerObject => action == Some(
            SnapshotDestroyAction::DeleteOwnerObject,
        ),
        SnapshotDestroyState::Complete => action == Some(SnapshotDestroyAction::Complete),
        SnapshotDestroyState::Failed => action == Some(SnapshotDestroyAction::Abort) || action
            == Some(SnapshotDestroyAction::RefuseProtected),
    }
}

proof fn snapshot_destroy_run_awaits(
    rules: DestroyRules,
    force: bool,
    events: Seq<SnapshotDestroyEvent>,
)
    ensures
        snapshot_destroy_awaits(
            snapshot_destroy_run(rules, force, events),
            snapshot_destroy_asked(rules, force, events),
        ),
{
    if events.len() > 0 {
        let before = snapshot_destroy_run(rules, force, events.drop_last());
        assert(snapshot_destroy_run(rules, force, events) == snapshot_destroy_next(
            rules,
            force,
            before,
            events.last(),
        ).0);
    }
}

/// How a snapshot is destroyed, whatever was answered before: it and its manifest are
/// locked first, unless that is forced. A protected one is refused. Its objects are deleted,
/// its directory removed, and its lock files, as far as possible. Then its group is removed
/// exactly if it can be locked, is empty and may be removed, whatever the backend, and in an
/// object store its owner too.
pub proof fn snapshot_destroy_answers_are_followed(
    rules: DestroyRules,
    force: bool,
    events: Seq<SnapshotDestroyEvent>,
    event: SnapshotDestroyEvent,
)
    ensures
        ({
            let next = snapshot_destroy_asked(rules, force, events.push(event))->0;
            let done = event == SnapshotDestroyEvent::Finished;
            let tried = done || event == SnapshotDestroyEvent::Failed;
            match snapshot_destroy_asked(rules, force, events) {
                None => next == (if !done {
                    SnapshotDestroyAction::Abort
                } else if force {
                    SnapshotDestroyAction::CheckProtected
                } else {
                    SnapshotDestroyAction::Lock
                }),
                Some(SnapshotDestroyAction::Lock) => next == (if done {
                    SnapshotDestroyAction::LockManifest
                } else {
                    SnapshotDestroyAction::Abort
                }),
                Some(SnapshotDestroyAction::LockManifest) => next == (if done {
                    SnapshotDestroyAction::CheckProtected
                } else {
                    SnapshotDestroyAction::Abort
                }),
                Some(SnapshotDestroyAction::CheckProtected) => match event {
                    SnapshotDestroyEvent::Protected(true) => next
                        == SnapshotDestroyAction::RefuseProtected,
                    SnapshotDestroyEvent::Protected(false) => next == (if rules.s3 {
                        SnapshotDestroyAction::DeleteObjects
                    } else {
                        SnapshotDestroyAction::RemoveDir
                    }),
                    _ => next == SnapshotDestroyAction::Abort,
                },
                Some(SnapshotDestroyAction::DeleteObjects) => next == (if done {
                    SnapshotDestroyAction::RemoveDir
                } else {
                    SnapshotDestroyAction::Abort
                }),
                Some(SnapshotDestroyAction::RemoveDir) => next == (if done {
                    SnapshotDestroyAction::RemoveLockFiles
                } else {
                    SnapshotDestroyAction::Abort
                }),
                Some(SnapshotDestroyAction::RemoveLockFiles) => next == (if tried {
                    SnapshotDestroyAction::LockGroup
                } else {
                    SnapshotDestroyAction::Abort
                }),
                Some(SnapshotDestroyAction::LockGroup) => match event {
                    SnapshotDestroyEvent::Finished => next == SnapshotDestroyAction::ListGroup,
                    SnapshotDestroyEvent::Failed => next == SnapshotDestroyAction::Complete,
                    _ => next == SnapshotDestroyAction::Abort,
                },
                Some(SnapshotDestroyAction::ListGroup) => match event {
                    SnapshotDestroyEvent::Empty(empty) => next == (if empty && !rules.old_locking {
                        SnapshotDestroyAction::RemoveGroupDir
                    } else {
                        SnapshotDestroyAction::Complete
                    }),
                    _ => next == SnapshotDestroyAction::Abort,
                },
                Some(SnapshotDestroyAction::RemoveGroupDir) => next == (if !done {
                    SnapshotDestroyAction::Abort
                } else if rules.s3 {
                    SnapshotDestroyAction::DeleteOwnerObject
                } else {
                    SnapshotDestroyAction::Complete
                }),
                Some(SnapshotDestroyAction::DeleteOwnerObject) => next == (if done {
                    SnapshotDestroyAction::Complete
                } else {
                    SnapshotDestroyAction::Abort
                }),
                _ => next == SnapshotDestroyAction::Abort,
            }
        }),
{
    assert(events.push(event).drop_last() =~= events);
    snapshot_destroy_run_awaits(rules, force, events);
}

/// The directory of a group is removed along with a snapshot exactly if it was asked
/// whether the group is empty, it is, and its directory may be removed.
pub proof fn empty_group_is_removed(
    rules: DestroyRules,
    force: bool,
    events: Seq<SnapshotDestroyEvent>,
    event: SnapshotDestroyEvent,
)
    ensures
        snapshot_destroy_asked(rules, force, events.push(event)) == Some(
            SnapshotDestroyAction::RemoveGroupDir,
        ) <==> snapshot_destroy_asked(rules, force, events) == Some(
            SnapshotDestroyAction::ListGroup,
        ) && event == SnapshotDestroyEvent::Empty(true) && !rules.old_locking,
{
    snapshot_destroy_answers_are_followed(rules, force, events, event);
}

/// Prefix of the objects of a group or a snapshot, from its path within the
/// datastore.
pub fn object_prefix(content_prefix: &str, relative_path: &str) -> (r: String)
    ensures
        r@ == content_prefix@ + "/"@ + relative_path@,
{
    join3(content_prefix, "/", relative_path)
}

/// Message where not all objects could be deleted.
pub const OBJECTS_LEFT_MESSAGE: &'static str = "deleting objects failed";

/// Message of [`SnapshotDestroyAction::RefuseProtected`].
pub const PROTECTED_MESSAGE: &'static str = "cannot remove protected snapshot";

} // verus!
