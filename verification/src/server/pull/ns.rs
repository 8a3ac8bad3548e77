//! Pulling a namespace, and creating and removing namespaces on the way.

use vstd::prelude::*;
use crate::auth::Authid;
use crate::datastore::backup_info::GroupId;
use crate::datastore::destroy::GroupDeleteStats;
use crate::namespace::{inner_name_is_longer, is_ancestor, printed_len, proper, BackupNamespace};
use crate::server::pull::snapshot::first_indices;
use crate::server::stats::{
    RemovedVanishedStats, SharedGroupProgress, StoreProgress, SyncStats,
};
use crate::sort::{same_items, sort_by_key, sorted, Keyed};
use crate::text::{decimal, join2, join3, u64_to_string};

verus! {

// ---- one group ----

/// What to do with a group.
#[derive(Clone, Copy, Debug, PartialEq, Eq, Structural)]
pub enum GroupStart {
    /// Pull it.
    Pull,
    /// Log that it could not be locked, and fail.
    LockFailed,
    /// Log that it has another owner, and fail.
    OwnerMismatch,
}

/// What to do with a group, from the owner of the sync and that of the group, which
/// is known if the group could be locked. Only a locked group is pulled, and only
/// if it belongs to the owner of the sync: nobody else may add snapshots to it.
pub fn lock_and_pull_group(owner: &Authid, locked: &Option<Authid>) -> (r: GroupStart)
    ensures
        r == (match *locked {
            None => GroupStart::LockFailed,
            Some(found) => if owner@ == found@ {
                GroupStart::Pull
            } else {
                GroupStart::OwnerMismatch
            },
        }),
{
    match locked {
        None => GroupStart::LockFailed,
        Some(found) => if owner.same(found) {
            GroupStart::Pull
        } else {
            GroupStart::OwnerMismatch
        },
    }
}

/// Second log line for [`GroupStart::LockFailed`].
pub const CREATE_LOCKED_FAILED: &'static str = "create_locked_backup_group failed";

/// Error of [`GroupStart::OwnerMismatch`].
pub const OWNER_CHECK_FAILED: &'static str = "owner check failed";

/// Log line for [`GroupStart::LockFailed`].
pub fn lock_failed_line(group: &str, err: &str) -> (r: String)
    ensures
        r@ == "sync group "@ + group@ + " failed - group lock failed: "@ + err@,
{
    let mut r = join3("sync group ", group, " failed - group lock failed: ");
    r.append(err);
    r
}

/// Log line for [`GroupStart::OwnerMismatch`].
pub fn owner_mismatch_line(group: &str, expected: &str, found: &str) -> (r: String)
    ensures
        r@ == "sync group "@ + group@ + " failed - owner check failed ("@ + expected@ + " != "@
            + found@ + ")"@,
{
    let mut r = join3("sync group ", group, " failed - owner check failed (");
    r.append(expected);
    r.append(" != ");
    r.append(found);
    r.append(")");
    r
}

/// Log line for a group that could not be pulled.
pub fn group_failed_line(group: &str, err: &str) -> (r: String)
    ensures
        r@ == "sync group "@ + group@ + " failed - "@ + err@,
{
    let mut r = join3("sync group ", group, " failed - ");
    r.append(err);
    r
}

// ---- the groups of a namespace ----

/// Whether the groups of a source, in `list`, have one of the kind and name of `group`.
pub open spec fn is_listed(list: Seq<GroupId>, group: GroupId) -> bool {
    exists|i: int|
        0 <= i < list.len() && (#[trigger] list[i]).ty == group.ty && list[i].id@ == group.id@
}

/// Whether the source has a local group, too. One that it has not may be removed.
pub fn in_source(list: &Vec<GroupId>, group: &GroupId) -> (r: bool)
    ensures
        r == is_listed(list@, *group),
{
    for i in 0..list.len()
        invariant
            forall|j: int|
                0 <= j < i ==> !((#[trigger] list@[j]).ty == group.ty && list@[j].id@ == group.id@),
    {
        if list[i].same(group) {
            assert(list@[i as int].ty == group.ty);
            return true;
        }
    }
    false
}

/// Log line for the groups that were found.
pub fn groups_found_line(groups: usize, unfiltered: usize) -> (r: String)
    ensures
        r@ == "Found "@ + decimal(groups as nat) + " groups to sync (out of "@ + decimal(
            unfiltered as nat,
        ) + " total)"@,
{
    let mut r = join3("Found ", u64_to_string(groups as u64).as_str(), " groups to sync (out of ");
    r.append(u64_to_string(unfiltered as u64).as_str());
    r.append(" total)");
    r
}

/// How many lines of a group are held back, and for how many seconds: none where
/// groups are pulled one by one.
pub fn log_buffering(worker_threads: Option<usize>) -> (r: (usize, u64))
    ensures
        r == (if worker_threads is Some && worker_threads->0 > 1 {
            (5usize, 1u64)
        } else {
            (0usize, 0u64)
        }),
{
    match worker_threads {
        Some(threads) => if threads > 1 {
            (5, 1)
        } else {
            (0, 0)
        },
        None => (0, 0),
    }
}

/// Results of the pull of a namespace so far.
#[derive(Clone, Copy, Debug, PartialEq, Eq, Structural)]
pub struct NamespacePull {
    pub progress: StoreProgress,
    pub shared: SharedGroupProgress,
    pub stats: SyncStats,
    pub errors: bool,
}

/// Nothing pulled of `groups` groups.
pub open spec fn nothing_pulled(groups: usize) -> NamespacePull {
    NamespacePull {
        progress: StoreProgress {
            done_groups: 0,
            done_snapshots: 0,
            total_groups: groups as u64,
            group_snapshots: 0,
        },
        shared: SharedGroupProgress { done: 0, total: groups },
        stats: SyncStats::zero(),
        errors: false,
    }
}

/// Statistics of one removed group. A group that keeps protected snapshots is
/// not counted itself.
pub open spec fn group_removed(deleted: GroupDeleteStats) -> SyncStats {
    SyncStats {
        chunk_count: 0,
        bytes: 0,
        elapsed: 0,
        removed: Some(
            RemovedVanishedStats {
                groups: if deleted.protected_snapshots == 0 { 1 } else { 0 },
                snapshots: deleted.removed_snapshots,
                namespaces: 0,
            },
        ),
    }
}

/// The results once one more group was pulled, or failed.
pub open spec fn with_group(pull: NamespacePull, result: Option<SyncStats>) -> NamespacePull {
    let done = (pull.shared.done + 1) as usize;
    NamespacePull {
        progress: StoreProgress { done_groups: done as u64, ..pull.progress },
        shared: SharedGroupProgress { done, ..pull.shared },
        stats: match result {
            Some(stats) => pull.stats.plus(stats),
            None => pull.stats,
        },
        errors: pull.errors || result is None,
    }
}

/// The results once one more vanished group was removed, or could not be.
pub open spec fn with_removed_group(
    pull: NamespacePull,
    result: Option<GroupDeleteStats>,
) -> NamespacePull {
    match result {
        Some(deleted) => NamespacePull {
            stats: pull.stats.plus(group_removed(deleted)),
            ..pull
        },
        None => NamespacePull { errors: true, ..pull },
    }
}

impl NamespacePull {
    /// Nothing pulled of `groups` groups.
    pub fn new(groups: usize) -> (r: NamespacePull)
        ensures
            r == nothing_pulled(groups),
    {
        NamespacePull {
            progress: StoreProgress::new(groups as u64),
            shared: SharedGroupProgress::with_total_groups(groups),
            stats: SyncStats::default(),
            errors: false,
        }
    }

    /// Takes in the result of one group: its statistics, or none if it failed.
    pub fn process_result(&mut self, result: Option<SyncStats>)
        requires
            old(self).shared.done < usize::MAX,
            result matches Some(stats) ==> old(self).stats.fits(stats),
        ensures
            *final(self) == with_group(*old(self), result),
    {
        self.progress.done_groups = self.shared.increment_done();
        match result {
            Some(stats) => {
                self.stats.add(stats);
            },
            None => {
                self.errors = true;
            },
        }
    }

    /// Takes in the removal of one vanished group, or none if it failed.
    pub fn process_removed(&mut self, result: Option<GroupDeleteStats>)
        requires
            result matches Some(deleted) ==> old(self).stats.fits(group_removed(deleted)),
        ensures
            *final(self) == with_removed_group(*old(self), result),
    {
        match result {
            Some(deleted) => {
                let groups: usize = if deleted.all_removed() {
                    1
                } else {
                    0
                };
                let removed = RemovedVanishedStats {
                    groups,
                    snapshots: deleted.removed_snapshots,
                    namespaces: 0,
                };
                self.stats.add(SyncStats::from(removed));
            },
            None => {
                self.errors = true;
            },
        }
    }
}

/// The results after a list of groups.
pub open spec fn after_groups(pull: NamespacePull, results: Seq<Option<SyncStats>>) -> NamespacePull
    decreases results.len(),
{
    if results.len() == 0 {
        pull
    } else {
        with_group(after_groups(pull, results.drop_last()), results.last())
    }
}

/// Each group counts as done once its result is in, and there are errors exactly
/// if there were before or one of the groups failed.
pub proof fn groups_are_counted(pull: NamespacePull, results: Seq<Option<SyncStats>>)
    requires
        pull.shared.done + results.len() <= usize::MAX,
    ensures
        after_groups(pull, results).shared.done == pull.shared.done + results.len(),
        after_groups(pull, results).shared.total == pull.shared.total,
        results.len() > 0 ==> after_groups(pull, results).progress.done_groups
            == pull.shared.done + results.len(),
        after_groups(pull, results).errors <==> pull.errors || results.contains(
            None::<SyncStats>,
        ),
    decreases results.len(),
{
    if results.len() > 0 {
        let init = results.drop_last();
        groups_are_counted(pull, init);
        let none = None::<SyncStats>;
        if init.contains(none) {
            let i = init.index_of(none);
            assert(results[i] == none);
        }
        if results.last() == none {
            assert(results[results.len() - 1] == none);
        }
        if results.contains(none) && results.last() != none {
            let i = results.index_of(none);
            assert(init[i] == none);
        }
    }
}

/// What decides how a namespace is pulled.
#[derive(Clone, Copy, Debug, PartialEq, Eq, Structural)]
pub struct NsPull {
    /// Number of groups to pull.
    pub groups: usize,
    /// Remove groups that vanished from the source.
    pub remove_vanished: bool,
}

/// How far a namespace has been pulled.
#[derive(Clone, Copy, Debug, PartialEq, Eq, Structural)]
pub enum NsPhase {
    Spawning(usize),
    Collecting(usize),
    Joining,
    ClosingLog,
    Searching,
    CheckingOwner,
    CheckingFilter,
    Removing,
    Complete,
    Failed,
}

/// State of the pull of a namespace.
#[derive(Clone, Copy, Debug, PartialEq, Eq, Structural)]
pub struct NsState {
    pub phase: NsPhase,
    pub results: NamespacePull,
}

/// What the environment reports of the last action.
#[derive(Clone, Copy, Debug, PartialEq, Eq, Structural)]
pub enum NsEvent {
    /// The action was done; there is nothing more to report.
    Finished,
    /// The result of a group: its statistics, or none if it failed.
    Collected(Option<SyncStats>),
    /// There is no further result, or no further local group.
    NoneLeft,
    /// There is a local group; whether the source has it.
    Found { in_source: bool },
    /// Whether the local group belongs to the owner of the sync.
    Owner { matches: bool },
    /// Whether the local group is in the scope of the sync.
    Filter { matches: bool },
    /// The local group was removed.
    Removed(GroupDeleteStats),
    /// The action failed.
    Failed,
}

/// What the environment has to do next.
#[derive(Clone, Copy, Debug, PartialEq, Eq, Structural)]
pub enum NsAction {
    /// Start a worker for the group of this index, as soon as there is room.
    SpawnGroup(usize),
    /// Report the next result that came in while the worker was started.
    TakeResult,
    /// Wait for the next worker to end.
    JoinNext,
    /// Have all pending log lines written.
    CloseLog,
    /// Look for the next local group.
    NextLocalGroup,
    /// Compare the owner of the local group to that of the sync.
    CheckOwner,
    /// See whether the local group is in the scope of the sync.
    CheckFilter,
    /// Log that the local group vanished, and remove it.
    RemoveGroup,
    /// The pull is complete.
    Complete(NamespacePull),
    /// The pull is complete, but the search for vanished groups ended early.
    CompleteWithCleanupError(NamespacePull),
    /// Give up.
    Abort,
}

/// The state with another phase.
pub open spec fn ns_at(state: NsState, phase: NsPhase) -> NsState {
    NsState { phase, ..state }
}

/// What follows once all groups before `i` have a worker.
pub open spec fn next_group(pull: NsPull, state: NsState, i: usize) -> (NsState, NsAction) {
    if i < pull.groups {
        (ns_at(state, NsPhase::Spawning(i)), NsAction::SpawnGroup(i))
    } else {
        (ns_at(state, NsPhase::Joining), NsAction::JoinNext)
    }
}

/// First state and action.
pub open spec fn ns_start(pull: NsPull) -> (NsState, NsAction) {
    next_group(
        pull,
        NsState { phase: NsPhase::Joining, results: nothing_pulled(pull.groups) },
        0,
    )
}

/// The next local group is looked for.
pub open spec fn ns_search(state: NsState) -> (NsState, NsAction) {
    (ns_at(state, NsPhase::Searching), NsAction::NextLocalGroup)
}

/// The pull is complete.
pub open spec fn ns_complete(state: NsState) -> (NsState, NsAction) {
    (ns_at(state, NsPhase::Complete), NsAction::Complete(state.results))
}

/// The search for vanished groups ended early.
pub open spec fn ns_cleanup_error(state: NsState) -> (NsState, NsAction) {
    let results = NamespacePull { errors: true, ..state.results };
    (
        NsState { phase: NsPhase::Complete, results },
        NsAction::CompleteWithCleanupError(results),
    )
}

/// The next state and action. All workers are waited for before vanished groups are
/// looked for. A group is removed only if the source does not have it, it belongs
/// to the owner of the sync and it is in its scope.
pub open spec fn ns_next(pull: NsPull, state: NsState, event: NsEvent) -> (NsState, NsAction) {
    match (state.phase, event) {
        (NsPhase::Spawning(i), NsEvent::Finished) => (
            ns_at(state, NsPhase::Collecting(i)),
            NsAction::TakeResult,
        ),
        (NsPhase::Collecting(_), NsEvent::Collected(result)) => (
            NsState { results: with_group(state.results, result), ..state },
            NsAction::TakeResult,
        ),
        (NsPhase::Collecting(i), NsEvent::NoneLeft) => next_group(pull, state, (i + 1) as usize),
        (NsPhase::Joining, NsEvent::Collected(result)) => (
            NsState { results: with_group(state.results, result), ..state },
            NsAction::JoinNext,
        ),
        (NsPhase::Joining, NsEvent::NoneLeft) => (
            ns_at(state, NsPhase::ClosingLog),
            NsAction::CloseLog,
        ),
        (NsPhase::ClosingLog, NsEvent::Finished) => if pull.remove_vanished {
            ns_search(state)
        } else {
            ns_complete(state)
        },
        (NsPhase::Searching, NsEvent::NoneLeft) => ns_complete(state),
        (NsPhase::Searching, NsEvent::Found { in_source }) => if in_source {
            ns_search(state)
        } else {
            (ns_at(state, NsPhase::CheckingOwner), NsAction::CheckOwner)
        },
        (NsPhase::CheckingOwner, NsEvent::Owner { matches }) => if matches {
            (ns_at(state, NsPhase::CheckingFilter), NsAction::CheckFilter)
        } else {
            ns_search(state)
        },
        (NsPhase::CheckingFilter, NsEvent::Filter { matches }) => if matches {
            (ns_at(state, NsPhase::Removing), NsAction::RemoveGroup)
        } else {
            ns_search(state)
        },
        (NsPhase::Removing, NsEvent::Removed(deleted)) => ns_search(
            NsState { results: with_removed_group(state.results, Some(deleted)), ..state },
        ),
        (NsPhase::Removing, NsEvent::Failed) => ns_search(
            NsState { results: with_removed_group(state.results, None), ..state },
        ),
        (NsPhase::Searching, NsEvent::Failed) => ns_cleanup_error(state),
        (NsPhase::CheckingOwner, NsEvent::Failed) => ns_cleanup_error(state),
        _ => (ns_at(state, NsPhase::Failed), NsAction::Abort),
    }
}

/// The index of a state lies below the number of groups.
pub open spec fn ns_index_ok(pull: NsPull, state: NsState) -> bool {
    match state.phase {
        NsPhase::Spawning(i) | NsPhase::Collecting(i) => i < pull.groups,
        _ => true,
    }
}

/// Whether what `event` reports can be added to the results of `state`.
pub open spec fn ns_results_fit(state: NsState, event: NsEvent) -> bool {
    match event {
        NsEvent::Collected(result) => {
            &&& state.results.shared.done < usize::MAX
            &&& result matches Some(stats) ==> state.results.stats.fits(stats)
        },
        NsEvent::Removed(deleted) => state.results.stats.fits(group_removed(deleted)),
        _ => true,
    }
}

impl NsState {
    fn at(self, phase: NsPhase) -> (r: NsState)
        ensures
            r == ns_at(self, phase),
    {
        NsState { phase, results: self.results }
    }

    fn search(self) -> (r: (NsState, NsAction))
        ensures
            r == ns_search(self),
    {
        (self.at(NsPhase::Searching), NsAction::NextLocalGroup)
    }

    fn complete(self) -> (r: (NsState, NsAction))
        ensures
            r == ns_complete(self),
    {
        (self.at(NsPhase::Complete), NsAction::Complete(self.results))
    }

    fn cleanup_error(self) -> (r: (NsState, NsAction))
        ensures
            r == ns_cleanup_error(self),
    {
        let mut results = self.results;
        results.errors = true;
        (NsState { phase: NsPhase::Complete, results }, NsAction::CompleteWithCleanupError(results))
    }

    fn with_result(self, result: Option<SyncStats>) -> (r: NsState)
        requires
            ns_results_fit(self, NsEvent::Collected(result)),
        ensures
            r == (NsState { results: with_group(self.results, result), ..self }),
    {
        let mut results = self.results;
        results.process_result(result);
        NsState { phase: self.phase, results }
    }

    fn with_removed(self, result: Option<GroupDeleteStats>) -> (r: NsState)
        requires
            result matches Some(deleted) ==> ns_results_fit(self, NsEvent::Removed(deleted)),
        ensures
            r == (NsState { results: with_removed_group(self.results, result), ..self }),
    {
        let mut results = self.results;
        results.process_removed(result);
        NsState { phase: self.phase, results }
    }
}

impl NsPull {
    fn next_group(&self, state: NsState, i: usize) -> (r: (NsState, NsAction))
        ensures
            r == next_group(*self, state, i),
    {
        if i < self.groups {
            (state.at(NsPhase::Spawning(i)), NsAction::SpawnGroup(i))
        } else {
            (state.at(NsPhase::Joining), NsAction::JoinNext)
        }
    }

    /// First state and action.
    pub fn start(&self) -> (r: (NsState, NsAction))
        ensures
            r == ns_start(*self),
            ns_index_ok(*self, r.0),
    {
        let state = NsState { phase: NsPhase::Joining, results: NamespacePull::new(self.groups) };
        self.next_group(state, 0)
    }

    /// Moves on after `event` and says what to do next.
    pub fn step(&self, state: NsState, event: NsEvent) -> (r: (NsState, NsAction))
        requires
            ns_index_ok(*self, state),
            ns_results_fit(state, event),
        ensures
            r == ns_next(*self, state, event),
            ns_index_ok(*self, r.0),
    {
        match (state.phase, event) {
            (NsPhase::Spawning(i), NsEvent::Finished) => (
                state.at(NsPhase::Collecting(i)),
                NsAction::TakeResult,
            ),
            (NsPhase::Collecting(_), NsEvent::Collected(result)) => (
                state.with_result(result),
                NsAction::TakeResult,
            ),
            (NsPhase::Collecting(i), NsEvent::NoneLeft) => self.next_group(state, i + 1),
            (NsPhase::Joining, NsEvent::Collected(result)) => (
                state.with_result(result),
                NsAction::JoinNext,
            ),
            (NsPhase::Joining, NsEvent::NoneLeft) => (
                state.at(NsPhase::ClosingLog),
                NsAction::CloseLog,
            ),
            (NsPhase::ClosingLog, NsEvent::Finished) => {
                if self.remove_vanished {
                    state.search()
                } else {
                    state.complete()
                }
            },
            (NsPhase::Searching, NsEvent::NoneLeft) => state.complete(),
            (NsPhase::Searching, NsEvent::Found { in_source }) => {
                if in_source {
                    state.search()
                } else {
                    (state.at(NsPhase::CheckingOwner), NsAction::CheckOwner)
                }
            },
            (NsPhase::CheckingOwner, NsEvent::Owner { matches }) => {
                if matches {
                    (state.at(NsPhase::CheckingFilter), NsAction::CheckFilter)
                } else {
                    state.search()
                }
            },
            (NsPhase::CheckingFilter, NsEvent::Filter { matches }) => {
                if matches {
                    (state.at(NsPhase::Removing), NsAction::RemoveGroup)
                } else {
                    state.search()
                }
            },
            (NsPhase::Removing, NsEvent::Removed(deleted)) => {
                state.with_removed(Some(deleted)).search()
            },
            (NsPhase::Removing, NsEvent::Failed) => state.with_removed(None).search(),
            (NsPhase::Searching, NsEvent::Failed) => state.cleanup_error(),
            (NsPhase::CheckingOwner, NsEvent::Failed) => state.cleanup_error(),
            _ => (state.at(NsPhase::Failed), NsAction::Abort),
        }
    }
}

/// Log line before a vanished group is removed.
pub fn delete_group_line(group: &str) -> (r: String)
    ensures
        r@ == "Delete vanished group '"@ + group@ + "'"@,
{
    join3("Delete vanished group '", group, "'")
}

/// Log line for a vanished group of which something is left.
pub fn kept_snapshots_line(group: &str) -> (r: String)
    ensures
        r@ == "Kept some protected snapshots of group '"@ + group@ + "'"@,
{
    join3("Kept some protected snapshots of group '", group, "'")
}

/// Log line for [`NsAction::CompleteWithCleanupError`].
pub fn cleanup_error_line(err: &str) -> (r: String)
    ensures
        r@ == "Error during cleanup: "@ + err@,
{
    join2("Error during cleanup: ", err)
}

/// Error if a worker cannot be waited for.
pub fn join_error(err: &str) -> (r: String)
    ensures
        r@ == "failed to join on worker task: "@ + err@,
{
    join2("failed to join on worker task: ", err)
}

/// A state and the action that leads on from it, after a list of events.
pub open spec fn ns_run(pull: NsPull, events: Seq<NsEvent>) -> (NsState, NsAction)
    decreases events.len(),
{
    if events.len() == 0 {
        ns_start(pull)
    } else {
        ns_next(pull, ns_run(pull, events.drop_last()).0, events.last())
    }
}

/// The groups that a worker was started for, in order.
pub open spec fn started(pull: NsPull, events: Seq<NsEvent>) -> Seq<usize>
    decreases events.len(),
{
    if events.len() == 0 {
        seq![]
    } else {
        let before = started(pull, events.drop_last());
        match (ns_run(pull, events.drop_last()).0.phase, events.last()) {
            (NsPhase::Spawning(i), NsEvent::Finished) => before.push(i),
            _ => before,
        }
    }
}

/// The results of groups, in the order in which they came in.
pub open spec fn collected(events: Seq<NsEvent>) -> Seq<Option<SyncStats>>
    decreases events.len(),
{
    if events.len() == 0 {
        seq![]
    } else {
        match events.last() {
            NsEvent::Collected(result) => collected(events.drop_last()).push(result),
            _ => collected(events.drop_last()),
        }
    }
}

/// How many groups a phase has behind it.
pub open spec fn groups_behind(pull: NsPull, phase: NsPhase) -> nat {
    match phase {
        NsPhase::Spawning(i) => i as nat,
        NsPhase::Collecting(i) => (i + 1) as nat,
        _ => pull.groups as nat,
    }
}

/// Phases in which all groups were waited for.
pub open spec fn past_groups(phase: NsPhase) -> bool {
    match phase {
        NsPhase::ClosingLog
        | NsPhase::Searching
        | NsPhase::CheckingOwner
        | NsPhase::CheckingFilter
        | NsPhase::Removing
        | NsPhase::Complete => true,
        _ => false,
    }
}

/// A worker is started for each group, once and in order, before any vanished group
/// is looked for.
pub proof fn every_group_is_started(pull: NsPull, events: Seq<NsEvent>)
    ensures
        ({
            let state = ns_run(pull, events).0;
            &&& ns_index_ok(pull, state)
            &&& state.phase != NsPhase::Failed ==> started(pull, events) == first_indices(
                groups_behind(pull, state.phase),
            )
            &&& past_groups(state.phase) ==> started(pull, events) == first_indices(pull.groups as nat)
        }),
    decreases events.len(),
{
    if events.len() > 0 {
        let init = events.drop_last();
        every_group_is_started(pull, init);
        let before = ns_run(pull, init).0;
        if let NsPhase::Spawning(i) = before.phase {
            assert(first_indices(i as nat).push(i) =~= first_indices((i + 1) as nat));
        }
    } else {
        assert(started(pull, events) =~= first_indices(0));
    }
}

/// Until vanished groups are looked for, the results are those of the groups that
/// came in.
pub proof fn results_are_those_of_the_groups(pull: NsPull, events: Seq<NsEvent>)
    ensures
        match ns_run(pull, events).0.phase {
            NsPhase::Spawning(_)
            | NsPhase::Collecting(_)
            | NsPhase::Joining
            | NsPhase::ClosingLog => ns_run(pull, events).0.results == after_groups(
                nothing_pulled(pull.groups),
                collected(events),
            ),
            _ => true,
        },
    decreases events.len(),
{
    if events.len() > 0 {
        let init = events.drop_last();
        results_are_those_of_the_groups(pull, init);
        if let NsEvent::Collected(result) = events.last() {
            assert(collected(events).drop_last() =~= collected(init));
        }
    }
}

/// A local group is removed only if vanished groups are to be removed at all, and
/// only after it was found not to be at the source, to belong to the owner of the
/// sync and to be in its scope.
pub proof fn only_vanished_groups_are_removed(pull: NsPull, events: Seq<NsEvent>)
    requires
        ns_run(pull, events).1 == NsAction::RemoveGroup,
    ensures
        pull.remove_vanished,
        events.len() >= 3,
        events[events.len() - 3] == (NsEvent::Found { in_source: false }),
        events[events.len() - 2] == (NsEvent::Owner { matches: true }),
        events[events.len() - 1] == (NsEvent::Filter { matches: true }),
{
    reveal_with_fuel(ns_run, 4);
    let a = events.drop_last();
    let b = a.drop_last();
    search_needs_remove_vanished(pull, a);
    assert(ns_run(pull, a).0.phase == NsPhase::CheckingFilter);
    assert(ns_run(pull, b).0.phase == NsPhase::CheckingOwner);
    assert(a.last() == events[events.len() - 2]);
    assert(b.last() == events[events.len() - 3]);
}

proof fn search_needs_remove_vanished(pull: NsPull, events: Seq<NsEvent>)
    ensures
        match ns_run(pull, events).0.phase {
            NsPhase::Searching
            | NsPhase::CheckingOwner
            | NsPhase::CheckingFilter
            | NsPhase::Removing => pull.remove_vanished,
            _ => true,
        },
    decreases events.len(),
{
    if events.len() > 0 {
        search_needs_remove_vanished(pull, events.drop_last());
    }
}

// ---- creating a namespace ----

/// How far the check of a target namespace has come.
#[derive(Clone, Copy, Debug, PartialEq, Eq, Structural)]
pub enum CreateNsState {
    CheckingExistence,
    CheckingModify,
    Creating,
    CheckingBackup { created: bool },
    Ended,
}

/// What the environment reports of the last action.
#[derive(Clone, Copy, Debug, PartialEq, Eq, Structural)]
pub enum CreateNsEvent {
    /// Whether the namespace exists.
    Exists(bool),
    /// Whether the action was done, or the access is granted.
    Outcome { ok: bool },
}

/// Why a namespace is not synced into.
#[derive(Clone, Copy, Debug, PartialEq, Eq, Structural)]
pub enum CreateNsError {
    /// The owner of the sync may not create it.
    CreationNotAllowed,
    /// It could not be created.
    CreationFailed,
    /// The owner of the sync may not back up into it.
    SyncNotAllowed,
}

/// What the environment has to do next.
#[derive(Clone, Copy, Debug, PartialEq, Eq, Structural)]
pub enum CreateNsAction {
    /// See whether the namespace exists.
    CheckExistence,
    /// Check that the owner of the sync may modify the parent namespace.
    CheckModify,
    /// Create the namespace.
    Create,
    /// Check that the owner of the sync may back up into the namespace.
    CheckBackup,
    /// The namespace can be synced into; whether it was created.
    Ready { created: bool },
    /// The namespace cannot be synced into.
    Fail(CreateNsError),
}

/// First state and action for a target namespace.
pub open spec fn create_ns_start(is_root: bool) -> (CreateNsState, CreateNsAction) {
    if is_root {
        (CreateNsState::CheckingBackup { created: false }, CreateNsAction::CheckBackup)
    } else {
        (CreateNsState::CheckingExistence, CreateNsAction::CheckExistence)
    }
}

/// The next state and action.
pub open spec fn create_ns_next(state: CreateNsState, event: CreateNsEvent) -> (
    CreateNsState,
    CreateNsAction,
) {
    match (state, event) {
        (CreateNsState::CheckingExistence, CreateNsEvent::Exists(exists)) => if exists {
            (CreateNsState::CheckingBackup { created: false }, CreateNsAction::CheckBackup)
        } else {
            (CreateNsState::CheckingModify, CreateNsAction::CheckModify)
        },
        (CreateNsState::CheckingModify, CreateNsEvent::Outcome { ok }) => if ok {
            (CreateNsState::Creating, CreateNsAction::Create)
        } else {
            (CreateNsState::Ended, CreateNsAction::Fail(CreateNsError::CreationNotAllowed))
        },
        (CreateNsState::Creating, CreateNsEvent::Outcome { ok }) => if ok {
            (CreateNsState::CheckingBackup { created: true }, CreateNsAction::CheckBackup)
        } else {
            (CreateNsState::Ended, CreateNsAction::Fail(CreateNsError::CreationFailed))
        },
        (CreateNsState::CheckingBackup { created }, CreateNsEvent::Outcome { ok }) => if ok {
            (CreateNsState::Ended, CreateNsAction::Ready { created })
        } else {
            (CreateNsState::Ended, CreateNsAction::Fail(CreateNsError::SyncNotAllowed))
        },
        _ => (CreateNsState::Ended, CreateNsAction::Fail(CreateNsError::SyncNotAllowed)),
    }
}

/// First state and action for a target namespace.
pub fn check_and_create_ns(ns: &BackupNamespace) -> (r: (CreateNsState, CreateNsAction))
    ensures
        r == create_ns_start(ns@.len() == 0),
{
    if ns.is_root() {
        (CreateNsState::CheckingBackup { created: false }, CreateNsAction::CheckBackup)
    } else {
        (CreateNsState::CheckingExistence, CreateNsAction::CheckExistence)
    }
}

/// Moves on after `event` and says what to do next.
pub fn create_ns_step(state: CreateNsState, event: CreateNsEvent) -> (r: (
    CreateNsState,
    CreateNsAction,
))
    ensures
        r == create_ns_next(state, event),
{
    match (state, event) {
        (CreateNsState::CheckingExistence, CreateNsEvent::Exists(exists)) => {
            if exists {
                (CreateNsState::CheckingBackup { created: false }, CreateNsAction::CheckBackup)
            } else {
                (CreateNsState::CheckingModify, CreateNsAction::CheckModify)
            }
        },
        (CreateNsState::CheckingModify, CreateNsEvent::Outcome { ok }) => {
            if ok {
                (CreateNsState::Creating, CreateNsAction::Create)
            } else {
                (CreateNsState::Ended, CreateNsAction::Fail(CreateNsError::CreationNotAllowed))
            }
        },
        (CreateNsState::Creating, CreateNsEvent::Outcome { ok }) => {
            if ok {
                (CreateNsState::CheckingBackup { created: true }, CreateNsAction::CheckBackup)
            } else {
                (CreateNsState::Ended, CreateNsAction::Fail(CreateNsError::CreationFailed))
            }
        },
        (CreateNsState::CheckingBackup { created }, CreateNsEvent::Outcome { ok }) => {
            if ok {
                (CreateNsState::Ended, CreateNsAction::Ready { created })
            } else {
                (CreateNsState::Ended, CreateNsAction::Fail(CreateNsError::SyncNotAllowed))
            }
        },
        _ => (CreateNsState::Ended, CreateNsAction::Fail(CreateNsError::SyncNotAllowed)),
    }
}

/// A namespace is created only after the right to modify its parent was granted,
/// and synced into only after the right to back up into it was granted.
pub proof fn namespaces_need_privileges(state: CreateNsState, event: CreateNsEvent)
    ensures
        create_ns_next(state, event).1 == CreateNsAction::Create ==> state
            == CreateNsState::CheckingModify && event == (CreateNsEvent::Outcome { ok: true }),
        create_ns_next(state, event).1 is Ready ==> state is CheckingBackup && event == (
        CreateNsEvent::Outcome { ok: true }),
        create_ns_start(true).1 == CreateNsAction::CheckBackup,
{
}

impl CreateNsError {
    /// The message, with the printed namespace, the printed store and namespace,
    /// and the message of the underlying error.
    pub open spec fn text(self, ns: Seq<char>, store_ns: Seq<char>, err: Seq<char>) -> Seq<char> {
        match self {
            CreateNsError::CreationNotAllowed => "Creating "@ + ns + " not allowed - "@ + err,
            CreateNsError::CreationFailed => "sync into "@ + store_ns
                + " failed - namespace creation failed: "@ + err,
            CreateNsError::SyncNotAllowed => "sync into "@ + store_ns + " not allowed - "@ + err,
        }
    }

    /// The message, with the printed namespace, the printed store and namespace,
    /// and the message of the underlying error.
    pub fn message(&self, ns: &str, store_ns: &str, err: &str) -> (r: String)
        ensures
            r@ == self.text(ns@, store_ns@, err@),
    {
        let mut r = match self {
            CreateNsError::CreationNotAllowed => join3("Creating ", ns, " not allowed - "),
            CreateNsError::CreationFailed => join3(
                "sync into ",
                store_ns,
                " failed - namespace creation failed: ",
            ),
            CreateNsError::SyncNotAllowed => join3("sync into ", store_ns, " not allowed - "),
        };
        r.append(err);
        r
    }
}

// ---- removing vanished namespaces ----

/// How many levels of local namespaces are looked at: as many as can have been
/// synced from a source at depth `source_depth`.
pub fn removal_depth(max_depth: Option<usize>, limit: usize, source_depth: usize) -> (r: usize)
    requires
        source_depth <= limit,
    ensures
        r == (match max_depth {
            Some(depth) => depth as int,
            None => limit - source_depth,
        }),
{
    match max_depth {
        Some(depth) => depth,
        None => limit - source_depth,
    }
}

/// A namespace that is sorted by falling length of its printed form.
pub struct ByFallingLength {
    pub ns: BackupNamespace,
}

impl Keyed for ByFallingLength {
    open spec fn key_spec(&self) -> int {
        -(self.ns.name_len_spec() as int)
    }

    fn key(&self) -> (r: i128) {
        -(self.ns.name_len() as i128)
    }
}

/// Whether a local namespace is removed: not the anchor of the sync, not the
/// root, and none that was synced.
pub open spec fn ns_vanished(
    ns: Seq<Seq<char>>,
    anchor: Seq<Seq<char>>,
    synced: Seq<BackupNamespace>,
) -> bool {
    &&& ns != anchor
    &&& ns.len() > 0
    &&& forall|i: int| 0 <= i < synced.len() ==> (#[trigger] synced[i])@ != ns
}

/// The vanished ones of a list of namespaces, in order.
pub open spec fn vanished_of(
    list: Seq<ByFallingLength>,
    anchor: Seq<Seq<char>>,
    synced: Seq<BackupNamespace>,
) -> Seq<BackupNamespace>
    decreases list.len(),
{
    if list.len() == 0 {
        seq![]
    } else {
        let before = vanished_of(list.drop_last(), anchor, synced);
        if ns_vanished(list.last().ns@, anchor, synced) {
            before.push(list.last().ns)
        } else {
            before
        }
    }
}

/// Whether no namespace of a list comes before one that lies in it.
pub open spec fn inner_first(list: Seq<BackupNamespace>) -> bool {
    forall|i: int, j: int|
        0 <= i < j < list.len() && is_ancestor((#[trigger] list[i])@, (#[trigger] list[j])@)
            ==> list[i]@ == list[j]@
}

fn is_ns_vanished(
    ns: &BackupNamespace,
    anchor: &BackupNamespace,
    synced: &Vec<BackupNamespace>,
) -> (r: bool)
    ensures
        r == ns_vanished(ns@, anchor@, synced@),
{
    if ns.same(anchor) {
        return false;
    }
    for i in 0..synced.len()
        invariant
            forall|j: int| 0 <= j < i ==> (#[trigger] synced@[j])@ != ns@,
    {
        if synced[i].same(ns) {
            return false;
        }
    }
    !ns.is_root()
}

/// The namespaces of a list, each with its sort key.
pub open spec fn tagged(list: Seq<BackupNamespace>) -> Seq<ByFallingLength> {
    Seq::new(list.len(), |i: int| ByFallingLength { ns: list[i] })
}

/// The local namespaces to remove, in an order in which a namespace comes after
/// all that lie in it.
pub fn vanished_namespaces(
    local: Vec<BackupNamespace>,
    anchor: &BackupNamespace,
    synced: &Vec<BackupNamespace>,
) -> (r: Vec<BackupNamespace>)
    ensures
        exists|list: Seq<ByFallingLength>|
            {
                &&& #[trigger] sorted(list)
                &&& list.to_multiset() == tagged(local@).to_multiset()
                &&& r@ == vanished_of(list, anchor@, synced@)
            },
        forall|i: int| 0 <= i < r@.len() ==> ns_vanished((#[trigger] r@[i])@, anchor@, synced@),
        forall|i: int| 0 <= i < r@.len() ==> local@.contains(#[trigger] r@[i]),
        forall|i: int|
            0 <= i < local@.len() && ns_vanished((#[trigger] local@[i])@, anchor@, synced@)
                ==> r@.contains(local@[i]),
        (forall|i: int|
            0 <= i < local@.len() ==> proper((#[trigger] local@[i])@) && printed_len(local@[i]@)
                <= usize::MAX) ==> inner_first(r@),
{
    let ghost all = local@;
    let mut keyed: Vec<ByFallingLength> = Vec::new();
    for ns in it: local
        invariant
            it.seq() == all,
            keyed@.len() == it.index(),
            forall|i: int| 0 <= i < keyed@.len() ==> (#[trigger] keyed@[i]).ns == all[i],
    {
        keyed.push(ByFallingLength { ns });
    }
    let ghost before = keyed@;
    assert(before =~= tagged(all));
    let list = sort_by_key(keyed);
    proof {
        same_items(list@, before);
    }
    let ghost ordered = list@;
    let mut r: Vec<BackupNamespace> = Vec::new();
    for item in it: list
        invariant
            it.seq() == ordered,
            r@ == vanished_of(ordered.take(it.index() as int), anchor@, synced@),
    {
        assert(ordered.take(it.index() + 1).drop_last() =~= ordered.take(it.index() as int));
        if is_ns_vanished(&item.ns, anchor, synced) {
            r.push(item.ns);
        }
    }
    proof {
        assert(ordered.take(ordered.len() as int) =~= ordered);
        vanished_of_members(ordered, anchor@, synced@);
        assert forall|i: int| 0 <= i < r@.len() implies all.contains(#[trigger] r@[i]) by {
            let k = choose|k: int| 0 <= k < ordered.len() && (#[trigger] ordered[k]).ns == r@[i];
            assert(ordered.contains(ordered[k]));
            let m = before.index_of(ordered[k]);
            assert(all[m] == r@[i]);
        }
        assert forall|i: int|
            0 <= i < all.len() && ns_vanished((#[trigger] all[i])@, anchor@, synced@) implies r@.contains(
        all[i]) by {
            assert(before.contains(before[i]));
            let k = ordered.index_of(before[i]);
            assert(ordered[k].ns == all[i]);
        }
        if forall|i: int|
            0 <= i < all.len() ==> proper((#[trigger] all[i])@) && printed_len(all[i]@)
                <= usize::MAX {
            assert forall|i: int, j: int|
                0 <= i < j < r@.len() && is_ancestor((#[trigger] r@[i])@, (#[trigger] r@[j])@) implies
                r@[i]@ == r@[j]@ by {
                assert(all.contains(r@[i]) && all.contains(r@[j]));
                let a = all.index_of(r@[i]);
                let b = all.index_of(r@[j]);
                assert(all[a] == r@[i] && all[b] == r@[j]);
                vanished_of_sorted(ordered, anchor@, synced@);
                if r@[i]@ != r@[j]@ {
                    inner_name_is_longer(r@[i]@, r@[j]@);
                }
            }
        }
    }
    r
}

proof fn vanished_of_members(
    list: Seq<ByFallingLength>,
    anchor: Seq<Seq<char>>,
    synced: Seq<BackupNamespace>,
)
    ensures
        ({
            let r = vanished_of(list, anchor, synced);
            &&& forall|i: int| 0 <= i < r.len() ==> ns_vanished((#[trigger] r[i])@, anchor, synced)
            &&& forall|i: int|
                0 <= i < r.len() ==> exists|k: int|
                    0 <= k < list.len() && (#[trigger] list[k]).ns == #[trigger] r[i]
            &&& forall|k: int|
                0 <= k < list.len() && ns_vanished((#[trigger] list[k]).ns@, anchor, synced)
                    ==> r.contains(list[k].ns)
        }),
    decreases list.len(),
{
    if list.len() > 0 {
        let init = list.drop_last();
        vanished_of_members(init, anchor, synced);
        let before = vanished_of(init, anchor, synced);
        let r = vanished_of(list, anchor, synced);
        assert forall|i: int| 0 <= i < r.len() implies exists|k: int|
            0 <= k < list.len() && (#[trigger] list[k]).ns == #[trigger] r[i] by {
            if i < before.len() {
                let k = choose|k: int| 0 <= k < init.len() && (#[trigger] init[k]).ns == before[i];
                assert(list[k].ns == r[i]);
            } else {
                assert(list[list.len() - 1].ns == r[i]);
            }
        }
        assert forall|k: int|
            0 <= k < list.len() && ns_vanished((#[trigger] list[k]).ns@, anchor, synced) implies r.contains(
        list[k].ns) by {
            if k < init.len() {
                assert(init[k] == list[k]);
                assert(before.contains(init[k].ns));
                let m = before.index_of(init[k].ns);
                assert(r[m] == list[k].ns);
            } else {
                assert(r[r.len() - 1] == list[k].ns);
            }
        }
    }
}

proof fn vanished_of_sorted(
    list: Seq<ByFallingLength>,
    anchor: Seq<Seq<char>>,
    synced: Seq<BackupNamespace>,
)
    requires
        sorted(list),
    ensures
        ({
            let r = vanished_of(list, anchor, synced);
            &&& forall|i: int, j: int|
                0 <= i <= j < r.len() ==> (#[trigger] r[i]).name_len_spec() >= (
                #[trigger] r[j]).name_len_spec()
        }),
    decreases list.len(),
{
    if list.len() > 0 {
        let init = list.drop_last();
        vanished_of_sorted(init, anchor, synced);
        vanished_of_members(init, anchor, synced);
        let before = vanished_of(init, anchor, synced);
        let r = vanished_of(list, anchor, synced);
        assert forall|i: int, j: int| 0 <= i <= j < r.len() implies (#[trigger] r[i]).name_len_spec()
            >= (#[trigger] r[j]).name_len_spec() by {
            if i < before.len() && j >= before.len() {
                let k = choose|k: int| 0 <= k < init.len() && (#[trigger] init[k]).ns == before[i];
                assert(list[k] == init[k]);
                assert(list[k].key_spec() <= list[list.len() - 1].key_spec());
            }
        }
    }
}

/// What came of the removal of a namespace.
#[derive(Clone, Copy, Debug, PartialEq, Eq, Structural)]
pub enum RemoveNsResult {
    /// It is gone.
    Removed,
    /// Protected snapshots remain.
    Kept,
    /// It could not be removed, or the owner of the sync may not remove it.
    Failed,
}

/// What came of the removal of a namespace: it is tried only if the owner of the
/// sync may modify its parent, and says whether no snapshot is left.
pub fn check_and_remove_ns(allowed: bool, removed_all: Option<bool>) -> (r: RemoveNsResult)
    ensures
        r == (match (allowed, removed_all) {
            (true, Some(true)) => RemoveNsResult::Removed,
            (true, Some(false)) => RemoveNsResult::Kept,
            _ => RemoveNsResult::Failed,
        }),
{
    if !allowed {
        return RemoveNsResult::Failed;
    }
    match removed_all {
        Some(true) => RemoveNsResult::Removed,
        Some(false) => RemoveNsResult::Kept,
        None => RemoveNsResult::Failed,
    }
}

/// Error if the owner of the sync may not remove a namespace.
pub fn removal_not_allowed(ns: &str, err: &str) -> (r: String)
    ensures
        r@ == "Removing "@ + ns@ + " not allowed - "@ + err@,
{
    let mut r = join3("Removing ", ns, " not allowed - ");
    r.append(err);
    r
}

/// Removal of vanished namespaces so far.
#[derive(Clone, Copy, Debug, PartialEq, Eq, Structural)]
pub struct NsRemoval {
    pub errors: bool,
    pub removed: RemovedVanishedStats,
}

/// Nothing removed.
pub open spec fn no_removal() -> NsRemoval {
    NsRemoval {
        errors: false,
        removed: RemovedVanishedStats { groups: 0, snapshots: 0, namespaces: 0 },
    }
}

/// The removal with one more result.
pub open spec fn with_removal(removal: NsRemoval, result: RemoveNsResult) -> NsRemoval {
    match result {
        RemoveNsResult::Removed => NsRemoval {
            removed: RemovedVanishedStats {
                namespaces: (removal.removed.namespaces + 1) as usize,
                ..removal.removed
            },
            ..removal
        },
        RemoveNsResult::Kept => removal,
        RemoveNsResult::Failed => NsRemoval { errors: true, ..removal },
    }
}

/// The removal after a list of results.
pub open spec fn removal_of(results: Seq<RemoveNsResult>) -> NsRemoval
    decreases results.len(),
{
    if results.len() == 0 {
        no_removal()
    } else {
        with_removal(removal_of(results.drop_last()), results.last())
    }
}

/// Sums up the removal of vanished namespaces.
pub fn check_and_remove_vanished_ns(results: &Vec<RemoveNsResult>) -> (r: NsRemoval)
    ensures
        r == removal_of(results@),
{
    let mut r = NsRemoval { errors: false, removed: RemovedVanishedStats::default() };
    for i in 0..results.len()
        invariant
            r == removal_of(results@.take(i as int)),
            r.removed.namespaces <= i,
    {
        assert(results@.take(i + 1).drop_last() =~= results@.take(i as int));
        match results[i] {
            RemoveNsResult::Removed => {
                r.removed.namespaces = r.removed.namespaces + 1;
            },
            RemoveNsResult::Kept => {},
            RemoveNsResult::Failed => {
                r.errors = true;
            },
        }
    }
    assert(results@.take(results@.len() as int) =~= results@);
    r
}

/// There are errors exactly if one namespace could not be removed, and only
/// namespaces are counted.
pub proof fn removal_reports_errors(results: Seq<RemoveNsResult>)
    ensures
        removal_of(results).errors <==> results.contains(RemoveNsResult::Failed),
        removal_of(results).removed.groups == 0,
        removal_of(results).removed.snapshots == 0,
    decreases results.len(),
{
    if results.len() > 0 {
        let init = results.drop_last();
        removal_reports_errors(init);
        let failed = RemoveNsResult::Failed;
        if init.contains(failed) {
            let i = init.index_of(failed);
            assert(results[i] == failed);
        }
        if results.last() == failed {
            assert(results[results.len() - 1] == failed);
        }
        if results.contains(failed) && results.last() != failed {
            let i = results.index_of(failed);
            assert(init[i] == failed);
        }
    }
}

/// Log line for the removal of a namespace, with the message of the error if it
/// could not be removed.
pub open spec fn removal_text(result: RemoveNsResult, ns: Seq<char>, err: Seq<char>) -> Seq<char> {
    match result {
        RemoveNsResult::Removed => "Removed namespace "@ + ns,
        RemoveNsResult::Kept => "Did not remove namespace "@ + ns
            + " - protected snapshots remain"@,
        RemoveNsResult::Failed => "Failed to remove namespace "@ + ns + " - "@ + err,
    }
}

/// Log line for the removal of a namespace, with the message of the error if it
/// could not be removed.
pub fn removal_line(result: RemoveNsResult, ns: &str, err: &str) -> (r: String)
    ensures
        r@ == removal_text(result, ns@, err@),
{
    match result {
        RemoveNsResult::Removed => join2("Removed namespace ", ns),
        RemoveNsResult::Kept => join3(
            "Did not remove namespace ",
            ns,
            " - protected snapshots remain",
        ),
        RemoveNsResult::Failed => {
            let mut r = join3("Failed to remove namespace ", ns, " - ");
            r.append(err);
            r
        },
    }
}

// ---- what is asked for, answer by answer ----

/// What was asked for last, after a list of answers.
pub open spec fn ns_asked(pull: NsPull, events: Seq<NsEvent>) -> NsAction {
    ns_run(pull, events).1
}

/// What a phase waits for.
spec fn ns_awaits(state: NsState, action: NsAction) -> bool {
    match state.phase {
        NsPhase::Spawning(i) => action == NsAction::SpawnGroup(i),
        NsPhase::Collecting(_) => action == NsAction::TakeResult,
        NsPhase::Joining => action == NsAction::JoinNext,
        NsPhase::ClosingLog => action == NsAction::CloseLog,
        NsPhase::Searching => action == NsAction::NextLocalGroup,
        NsPhase::CheckingOwner => action == NsAction::CheckOwner,
        NsPhase::CheckingFilter => action == NsAction::CheckFilter,
        NsPhase::Removing => action == NsAction::RemoveGroup,
        NsPhase::Complete => action == NsAction::Complete(state.results) || action
            == NsAction::CompleteWithCleanupError(state.results),
        NsPhase::Failed => action == NsAction::Abort,
    }
}

proof fn ns_run_awaits(pull: NsPull, events: Seq<NsEvent>)
    ensures
        ns_awaits(ns_run(pull, events).0, ns_run(pull, events).1),
{
    if events.len() > 0 {
        let before = ns_run(pull, events.drop_last()).0;
        assert(ns_run(pull, events) == ns_next(pull, before, events.last()));
    }
}

/// The groups that a worker was started for when that was asked for, in order.
pub open spec fn groups_started(pull: NsPull, events: Seq<NsEvent>) -> Seq<usize>
    decreases events.len(),
{
    if events.len() == 0 {
        seq![]
    } else {
        let before = groups_started(pull, events.drop_last());
        match (ns_asked(pull, events.drop_last()), events.last()) {
            (NsAction::SpawnGroup(i), NsEvent::Finished) => before.push(i),
            _ => before,
        }
    }
}

proof fn started_as_asked(pull: NsPull, events: Seq<NsEvent>)
    ensures
        groups_started(pull, events) == started(pull, events),
    decreases events.len(),
{
    if events.len() > 0 {
        started_as_asked(pull, events.drop_last());
        ns_run_awaits(pull, events.drop_last());
    }
}

/// What is to be asked for once workers were started for the groups before `i`.
pub open spec fn group_or_join(pull: NsPull, i: int) -> NsAction {
    if i < pull.groups {
        NsAction::SpawnGroup(i as usize)
    } else {
        NsAction::JoinNext
    }
}

/// How the groups of a namespace are pulled, whatever was answered before: a worker is
/// started for each, and the results that came in meanwhile are taken, until each has one.
/// Then all workers are waited for and the log is closed. Whatever fails ends the pull.
pub proof fn group_answers_are_followed(pull: NsPull, events: Seq<NsEvent>, event: NsEvent)
    ensures
        ns_asked(pull, Seq::<NsEvent>::empty()) == group_or_join(pull, 0),
        ({
            let next = ns_asked(pull, events.push(event));
            match ns_asked(pull, events) {
                NsAction::SpawnGroup(_) => next == (if event == NsEvent::Finished {
                    NsAction::TakeResult
                } else {
                    NsAction::Abort
                }),
                NsAction::TakeResult => match event {
                    NsEvent::Collected(_) => next == NsAction::TakeResult,
                    NsEvent::NoneLeft => next == group_or_join(
                        pull,
                        groups_started(pull, events).len() as int,
                    ),
                    _ => next == NsAction::Abort,
                },
                NsAction::JoinNext => match event {
                    NsEvent::Collected(_) => next == NsAction::JoinNext,
                    NsEvent::NoneLeft => next == NsAction::CloseLog,
                    _ => next == NsAction::Abort,
                },
                NsAction::CloseLog => if event != NsEvent::Finished {
                    next == NsAction::Abort
                } else if pull.remove_vanished {
                    next == NsAction::NextLocalGroup
                } else {
                    next is Complete
                },
                _ => true,
            }
        }),
{
    assert(events.push(event).drop_last() =~= events);
    ns_run_awaits(pull, events);
    ns_run_awaits(pull, events.push(event));
    every_group_is_started(pull, events);
    started_as_asked(pull, events);
}

/// How vanished groups are removed, whatever was answered before: each local group that is
/// not at the source, belongs to the owner of the sync and is in its scope is removed, and
/// the next one is looked for in any case, also if it cannot be removed. Where the search
/// itself fails, the pull is complete but with an error. Nothing follows the end.
pub proof fn search_answers_are_followed(pull: NsPull, events: Seq<NsEvent>, event: NsEvent)
    ensures
        ({
            let next = ns_asked(pull, events.push(event));
            match ns_asked(pull, events) {
                NsAction::NextLocalGroup => match event {
                    NsEvent::NoneLeft => next is Complete,
                    NsEvent::Found { in_source: true } => next == NsAction::NextLocalGroup,
                    NsEvent::Found { in_source: false } => next == NsAction::CheckOwner,
                    NsEvent::Failed => next is CompleteWithCleanupError,
                    _ => next == NsAction::Abort,
                },
                NsAction::CheckOwner => match event {
                    NsEvent::Owner { matches: true } => next == NsAction::CheckFilter,
                    NsEvent::Owner { matches: false } => next == NsAction::NextLocalGroup,
                    NsEvent::Failed => next is CompleteWithCleanupError,
                    _ => next == NsAction::Abort,
                },
                NsAction::CheckFilter => match event {
                    NsEvent::Filter { matches: true } => next == NsAction::RemoveGroup,
                    NsEvent::Filter { matches: false } => next == NsAction::NextLocalGroup,
                    _ => next == NsAction::Abort,
                },
                NsAction::RemoveGroup => match event {
                    NsEvent::Removed(_) | NsEvent::Failed => next == NsAction::NextLocalGroup,
                    _ => next == NsAction::Abort,
                },
                NsAction::Complete(_) | NsAction::CompleteWithCleanupError(_) | NsAction::Abort =>
                    next == NsAction::Abort,
                _ => true,
            }
        }),
{
    assert(events.push(event).drop_last() =~= events);
    ns_run_awaits(pull, events);
    ns_run_awaits(pull, events.push(event));
}

/// What was transferred and removed, as it was reported. A group that keeps protected
/// snapshots does not count as removed.
pub open spec fn ns_sum(events: Seq<NsEvent>) -> SyncStats
    decreases events.len(),
{
    if events.len() == 0 {
        SyncStats::zero()
    } else {
        let before = ns_sum(events.drop_last());
        match events.last() {
            NsEvent::Collected(Some(stats)) => before.plus(stats),
            NsEvent::Removed(deleted) => before.plus(
                SyncStats {
                    chunk_count: 0,
                    bytes: 0,
                    elapsed: 0,
                    removed: Some(
                        RemovedVanishedStats {
                            groups: if deleted.protected_snapshots == 0 {
                                1
                            } else {
                                0
                            },
                            snapshots: deleted.removed_snapshots,
                            namespaces: 0,
                        },
                    ),
                },
            ),
            _ => before,
        }
    }
}

/// Number of groups whose result came in.
pub open spec fn groups_done(events: Seq<NsEvent>) -> nat
    decreases events.len(),
{
    if events.len() == 0 {
        0
    } else {
        groups_done(events.drop_last()) + (if events.last() is Collected {
            1nat
        } else {
            0nat
        })
    }
}

/// Whether a group failed, or something did while vanished groups were removed.
pub open spec fn ns_error(events: Seq<NsEvent>) -> bool
    decreases events.len(),
{
    events.len() > 0 && (ns_error(events.drop_last()) || events.last() == NsEvent::Failed
        || events.last() == NsEvent::Collected(None))
}

proof fn ns_results_are_summed(pull: NsPull, events: Seq<NsEvent>)
    requires
        groups_done(events) <= usize::MAX,
    ensures
        ({
            let state = ns_run(pull, events).0;
            state.phase != NsPhase::Failed ==> {
                &&& state.results.stats == ns_sum(events)
                &&& state.results.errors == ns_error(events)
                &&& state.results.shared.done == groups_done(events)
                &&& state.results.shared.total == pull.groups
                &&& state.results.progress.done_groups == groups_done(events)
                &&& state.results.progress.total_groups == pull.groups
                &&& state.results.progress.done_snapshots == 0
                &&& state.results.progress.group_snapshots == 0
            }
        }),
    decreases events.len(),
{
    if events.len() > 0 {
        ns_results_are_summed(pull, events.drop_last());
    }
}

/// A pull of a namespace that is complete reports the sum of what its groups transferred
/// and of what was removed, as many groups as had a result, and an error exactly if a group
/// failed or something did while vanished groups were removed; the search that ended early
/// is such an error.
pub proof fn namespace_reports_all_groups(
    pull: NsPull,
    events: Seq<NsEvent>,
    results: NamespacePull,
)
    requires
        groups_done(events) <= usize::MAX,
        ns_asked(pull, events) == NsAction::Complete(results) || ns_asked(pull, events)
            == NsAction::CompleteWithCleanupError(results),
    ensures
        results.stats == ns_sum(events),
        results.errors == ns_error(events),
        ns_asked(pull, events) is CompleteWithCleanupError ==> results.errors,
        results.shared.done == groups_done(events),
        results.progress.done_groups == groups_done(events),
        results.progress.total_groups == pull.groups,
        groups_started(pull, events) == first_indices(pull.groups as nat),
{
    ns_run_awaits(pull, events);
    ns_results_are_summed(pull, events);
    every_group_is_started(pull, events);
    started_as_asked(pull, events);
    if events.len() > 0 {
        assert(ns_run(pull, events) == ns_next(
            pull,
            ns_run(pull, events.drop_last()).0,
            events.last(),
        ));
    }
}

/// How the target of a sync is made ready: the root and a namespace that exists only need
/// the right to back up into them. Any other is created first, if that is allowed, and said
/// to be new. Each refusal is told by its own error.
pub proof fn target_is_made_ready(ok: bool)
    ensures
        ({
            let answer = CreateNsEvent::Outcome { ok };
            let yes = CreateNsEvent::Outcome { ok: true };
            let (root, root_first) = create_ns_start(true);
            let (looking, first) = create_ns_start(false);
            let (there, there_next) = create_ns_next(looking, CreateNsEvent::Exists(true));
            let (missing, missing_next) = create_ns_next(looking, CreateNsEvent::Exists(false));
            let (allowed, allowed_next) = create_ns_next(missing, yes);
            let (made, made_next) = create_ns_next(allowed, yes);
            let refused = CreateNsAction::Fail(CreateNsError::SyncNotAllowed);
            &&& root_first == CreateNsAction::CheckBackup
            &&& create_ns_next(root, answer).1 == (if ok {
                CreateNsAction::Ready { created: false }
            } else {
                refused
            })
            &&& first == CreateNsAction::CheckExistence
            &&& there_next == CreateNsAction::CheckBackup
            &&& create_ns_next(there, answer).1 == (if ok {
                CreateNsAction::Ready { created: false }
            } else {
                refused
            })
            &&& missing_next == CreateNsAction::CheckModify
            &&& create_ns_next(missing, answer).1 == (if ok {
                CreateNsAction::Create
            } else {
                CreateNsAction::Fail(CreateNsError::CreationNotAllowed)
            })
            &&& allowed_next == CreateNsAction::Create
            &&& create_ns_next(allowed, answer).1 == (if ok {
                CreateNsAction::CheckBackup
            } else {
                CreateNsAction::Fail(CreateNsError::CreationFailed)
            })
            &&& made_next == CreateNsAction::CheckBackup
            &&& create_ns_next(made, answer).1 == (if ok {
                CreateNsAction::Ready { created: true }
            } else {
                refused
            })
        }),
{
}

/// Number of namespaces that are gone.
pub open spec fn count_removed(results: Seq<RemoveNsResult>) -> nat
    decreases results.len(),
{
    if results.len() == 0 {
        0
    } else {
        count_removed(results.drop_last()) + (if results.last() == RemoveNsResult::Removed {
            1nat
        } else {
            0nat
        })
    }
}

/// Exactly the namespaces that are gone count as removed.
pub proof fn removed_namespaces_are_counted(results: Seq<RemoveNsResult>)
    requires
        results.len() <= usize::MAX,
    ensures
        removal_of(results).removed.namespaces == count_removed(results),
        count_removed(results) <= results.len(),
    decreases results.len(),
{
    if results.len() > 0 {
        removed_namespaces_are_counted(results.drop_last());
    }
}

/// The root, the anchor of the sync and what was synced never vanish; any other namespace
/// does.
pub proof fn only_unsynced_namespaces_vanish(
    ns: Seq<Seq<char>>,
    anchor: Seq<Seq<char>>,
    synced: Seq<BackupNamespace>,
)
    ensures
        !ns_vanished(Seq::empty(), anchor, synced),
        !ns_vanished(anchor, anchor, synced),
        forall|i: int| 0 <= i < synced.len() ==> !ns_vanished((#[trigger] synced[i])@, anchor, synced),
        ns.len() > 0 && ns != anchor && (forall|i: int|
            0 <= i < synced.len() ==> (#[trigger] synced[i])@ != ns) ==> ns_vanished(
            ns,
            anchor,
            synced,
        ),
{
}

/// In a list with inner namespaces first, whatever lies in another namespace comes before
/// it.
pub proof fn inner_namespaces_come_first(list: Seq<BackupNamespace>, outer: int, inner: int)
    requires
        inner_first(list),
        0 <= outer < list.len(),
        0 <= inner < list.len(),
        is_ancestor(list[outer]@, list[inner]@),
        list[outer]@ != list[inner]@,
    ensures
        inner < outer,
{
}

} // verus!
