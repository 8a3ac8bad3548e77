//! Pulling a datastore, namespace by namespace.

use vstd::prelude::*;
use crate::namespace::{inner_name_is_longer, is_ancestor, printed_len, proper, BackupNamespace};
use crate::server::pull::ns::NsRemoval;
use crate::server::pull::snapshot::first_indices;
use crate::server::stats::{StoreProgress, SyncStats};
use crate::sort::{same_items, sort_by_key, sorted};
use crate::text::{decimal, join2, join3, u64_to_string};

verus! {

/// Whether the source is asked for its namespaces. It is not if only its root is
/// to be pulled, so that a source without namespaces can be pulled from.
pub fn queries_namespaces(source_ns: &BackupNamespace, max_depth: Option<usize>) -> (r: bool)
    ensures
        r == !(source_ns@.len() == 0 && max_depth == Some(0usize)),
{
    !(source_ns.is_root() && match max_depth {
        Some(depth) => depth == 0,
        None => false,
    })
}

/// Whether no namespace of a list comes after one that lies in it.
pub open spec fn outer_first(list: Seq<BackupNamespace>) -> bool {
    forall|i: int, j: int|
        0 <= i < j < list.len() && is_ancestor((#[trigger] list[j])@, (#[trigger] list[i])@)
            ==> list[i]@ == list[j]@
}

/// Sorts namespaces such that each comes before all that lie in it.
pub fn sort_namespaces(list: Vec<BackupNamespace>) -> (r: Vec<BackupNamespace>)
    ensures
        sorted(r@),
        r@.to_multiset() == list@.to_multiset(),
        (forall|i: int|
            0 <= i < list@.len() ==> proper((#[trigger] list@[i])@) && printed_len(list@[i]@)
                <= usize::MAX) ==> outer_first(r@),
{
    let ghost all = list@;
    let r = sort_by_key(list);
    proof {
        same_items(r@, all);
        if forall|i: int|
            0 <= i < all.len() ==> proper((#[trigger] all[i])@) && printed_len(all[i]@)
                <= usize::MAX {
            assert forall|i: int, j: int|
                0 <= i < j < r@.len() && is_ancestor((#[trigger] r@[j])@, (#[trigger] r@[i])@) implies
                r@[i]@ == r@[j]@ by {
                assert(r@.contains(r@[i]) && r@.contains(r@[j]));
                let a = all.index_of(r@[i]);
                let b = all.index_of(r@[j]);
                assert(all[a] == r@[i] && all[b] == r@[j]);
                assert(r@[i].name_len_spec() <= r@[j].name_len_spec()) by {
                    assert(crate::sort::Keyed::key_spec(&r@[i]) <= crate::sort::Keyed::key_spec(
                        &r@[j],
                    ));
                }
                if r@[i]@ != r@[j]@ {
                    inner_name_is_longer(r@[j]@, r@[i]@);
                }
            }
        }
    }
    r
}

/// What decides how a datastore is pulled.
#[derive(Clone, Copy, Debug, PartialEq, Eq, Structural)]
pub struct StorePull {
    /// Number of namespaces of the source.
    pub namespaces: usize,
    /// Depth that was asked for.
    pub requested_depth: Option<usize>,
    /// Depth that the source was pulled with; another one only if the source has
    /// no notion of namespaces.
    pub max_depth: Option<usize>,
    /// Remove namespaces that vanished from the source.
    pub remove_vanished: bool,
}

/// How far a datastore has been pulled.
#[derive(Clone, Copy, Debug, PartialEq, Eq, Structural)]
pub enum StorePhase {
    Mapping(usize),
    Creating(usize),
    Pulling(usize),
    RemovingVanished,
    Complete,
    Failed,
}

/// State of the pull of a datastore.
#[derive(Clone, Copy, Debug, PartialEq, Eq, Structural)]
pub struct StoreState {
    pub phase: StorePhase,
    pub errors: bool,
    pub groups: u64,
    pub snapshots: u64,
    pub stats: SyncStats,
}

/// What the environment reports of the last action.
#[derive(Clone, Copy, Debug, PartialEq, Eq, Structural)]
pub enum StoreEvent {
    /// The action was done; there is nothing more to report.
    Finished,
    /// The namespace was pulled, possibly with errors.
    Pulled { progress: StoreProgress, stats: SyncStats, errors: bool },
    /// Vanished namespaces were removed, possibly with errors.
    Removed(NsRemoval),
    /// The action failed.
    Failed,
}

/// What the environment has to do next.
#[derive(Clone, Copy, Debug, PartialEq, Eq, Structural)]
pub enum StoreAction {
    /// Find the target of the namespace of this index.
    MapNamespace(usize),
    /// Check the target of the namespace of this index, and create it if needed.
    CreateNamespace(usize),
    /// Pull the namespace of this index.
    PullNamespace(usize),
    /// Remove namespaces that were not synced.
    RemoveVanished,
    /// The pull is complete.
    Complete(SyncStats),
    /// Everything was tried, and there were errors.
    FailWithErrors,
    /// Give up.
    Abort,
}

/// The state with another phase.
pub open spec fn store_at(state: StoreState, phase: StorePhase) -> StoreState {
    StoreState { phase, ..state }
}

/// The end of the pull.
pub open spec fn store_end(state: StoreState) -> (StoreState, StoreAction) {
    if state.errors {
        (store_at(state, StorePhase::Failed), StoreAction::FailWithErrors)
    } else {
        (store_at(state, StorePhase::Complete), StoreAction::Complete(state.stats))
    }
}

/// What follows once all namespaces before `i` were dealt with.
pub open spec fn next_namespace(pull: StorePull, state: StoreState, i: usize) -> (
    StoreState,
    StoreAction,
) {
    if i < pull.namespaces {
        (store_at(state, StorePhase::Mapping(i)), StoreAction::MapNamespace(i))
    } else if pull.remove_vanished {
        (store_at(state, StorePhase::RemovingVanished), StoreAction::RemoveVanished)
    } else {
        store_end(state)
    }
}

/// First state and action. A source without namespaces counts as an error from
/// the start.
pub open spec fn store_start(pull: StorePull) -> (StoreState, StoreAction) {
    next_namespace(
        pull,
        StoreState {
            phase: StorePhase::Mapping(0),
            errors: pull.requested_depth != pull.max_depth,
            groups: 0,
            snapshots: 0,
            stats: SyncStats::zero(),
        },
        0,
    )
}

/// The state once a namespace was pulled.
pub open spec fn with_namespace(
    pull: StorePull,
    state: StoreState,
    progress: StoreProgress,
    stats: SyncStats,
    errors: bool,
) -> StoreState {
    StoreState {
        errors: state.errors || errors,
        groups: if pull.max_depth != Some(0usize) {
            (state.groups + progress.done_groups) as u64
        } else {
            state.groups
        },
        snapshots: if pull.max_depth != Some(0usize) {
            (state.snapshots + progress.done_snapshots) as u64
        } else {
            state.snapshots
        },
        stats: state.stats.plus(stats),
        ..state
    }
}

/// Statistics of the removal of namespaces.
pub open spec fn removal_stats(removal: NsRemoval) -> SyncStats {
    SyncStats { chunk_count: 0, bytes: 0, elapsed: 0, removed: Some(removal.removed) }
}

/// The next state and action.
pub open spec fn store_next(pull: StorePull, state: StoreState, event: StoreEvent) -> (
    StoreState,
    StoreAction,
) {
    match (state.phase, event) {
        (StorePhase::Mapping(i), StoreEvent::Finished) => (
            store_at(state, StorePhase::Creating(i)),
            StoreAction::CreateNamespace(i),
        ),
        (StorePhase::Creating(i), StoreEvent::Finished) => (
            store_at(state, StorePhase::Pulling(i)),
            StoreAction::PullNamespace(i),
        ),
        (StorePhase::Creating(i), StoreEvent::Failed) => next_namespace(
            pull,
            StoreState { errors: true, ..state },
            (i + 1) as usize,
        ),
        (StorePhase::Pulling(i), StoreEvent::Pulled { progress, stats, errors }) => next_namespace(
            pull,
            with_namespace(pull, state, progress, stats, errors),
            (i + 1) as usize,
        ),
        (StorePhase::Pulling(i), StoreEvent::Failed) => next_namespace(
            pull,
            StoreState { errors: true, ..state },
            (i + 1) as usize,
        ),
        (StorePhase::RemovingVanished, StoreEvent::Removed(removal)) => store_end(
            StoreState {
                errors: state.errors || removal.errors,
                stats: state.stats.plus(removal_stats(removal)),
                ..state
            },
        ),
        _ => (store_at(state, StorePhase::Failed), StoreAction::Abort),
    }
}

/// The index of a state lies below the number of namespaces.
pub open spec fn store_index_ok(pull: StorePull, state: StoreState) -> bool {
    match state.phase {
        StorePhase::Mapping(i) | StorePhase::Creating(i) | StorePhase::Pulling(i) => i
            < pull.namespaces,
        _ => true,
    }
}

/// Whether what `event` reports can be added to the counters of `state`.
pub open spec fn store_stats_fit(state: StoreState, event: StoreEvent) -> bool {
    match event {
        StoreEvent::Pulled { progress, stats, .. } => {
            &&& state.stats.fits(stats)
            &&& state.groups + progress.done_groups <= u64::MAX
            &&& state.snapshots + progress.done_snapshots <= u64::MAX
        },
        StoreEvent::Removed(removal) => state.stats.fits(removal_stats(removal)),
        _ => true,
    }
}

impl StoreState {
    fn at(self, phase: StorePhase) -> (r: StoreState)
        ensures
            r == store_at(self, phase),
    {
        StoreState {
            phase,
            errors: self.errors,
            groups: self.groups,
            snapshots: self.snapshots,
            stats: self.stats,
        }
    }

    fn with_errors(self, errors: bool) -> (r: StoreState)
        ensures
            r == (StoreState { errors: self.errors || errors, ..self }),
    {
        StoreState {
            phase: self.phase,
            errors: self.errors || errors,
            groups: self.groups,
            snapshots: self.snapshots,
            stats: self.stats,
        }
    }

    fn end(self) -> (r: (StoreState, StoreAction))
        ensures
            r == store_end(self),
    {
        if self.errors {
            (self.at(StorePhase::Failed), StoreAction::FailWithErrors)
        } else {
            (self.at(StorePhase::Complete), StoreAction::Complete(self.stats))
        }
    }
}

fn is_some_zero(depth: Option<usize>) -> (r: bool)
    ensures
        r == (depth == Some(0usize)),
{
    match depth {
        Some(depth) => depth == 0,
        None => false,
    }
}

fn same_depth(a: Option<usize>, b: Option<usize>) -> (r: bool)
    ensures
        r == (a == b),
{
    match (a, b) {
        (Some(a), Some(b)) => a == b,
        (None, None) => true,
        _ => false,
    }
}

impl StorePull {
    fn next_namespace(&self, state: StoreState, i: usize) -> (r: (StoreState, StoreAction))
        ensures
            r == next_namespace(*self, state, i),
    {
        if i < self.namespaces {
            (state.at(StorePhase::Mapping(i)), StoreAction::MapNamespace(i))
        } else if self.remove_vanished {
            (state.at(StorePhase::RemovingVanished), StoreAction::RemoveVanished)
        } else {
            state.end()
        }
    }

    /// First state and action.
    pub fn start(&self) -> (r: (StoreState, StoreAction))
        ensures
            r == store_start(*self),
            store_index_ok(*self, r.0),
    {
        let state = StoreState {
            phase: StorePhase::Mapping(0),
            errors: !same_depth(self.requested_depth, self.max_depth),
            groups: 0,
            snapshots: 0,
            stats: SyncStats::default(),
        };
        self.next_namespace(state, 0)
    }

    /// Moves on after `event` and says what to do next.
    pub fn step(&self, state: StoreState, event: StoreEvent) -> (r: (StoreState, StoreAction))
        requires
            store_index_ok(*self, state),
            store_stats_fit(state, event),
        ensures
            r == store_next(*self, state, event),
            store_index_ok(*self, r.0),
    {
        match (state.phase, event) {
            (StorePhase::Mapping(i), StoreEvent::Finished) => (
                state.at(StorePhase::Creating(i)),
                StoreAction::CreateNamespace(i),
            ),
            (StorePhase::Creating(i), StoreEvent::Finished) => (
                state.at(StorePhase::Pulling(i)),
                StoreAction::PullNamespace(i),
            ),
            (StorePhase::Creating(i), StoreEvent::Failed) => self.next_namespace(
                state.with_errors(true),
                i + 1,
            ),
            (StorePhase::Pulling(i), StoreEvent::Pulled { progress, stats, errors }) => {
                let mut sum = state.stats;
                sum.add(stats);
                let counted = !is_some_zero(self.max_depth);
                let state = StoreState {
                    phase: state.phase,
                    errors: state.errors || errors,
                    groups: if counted {
                        state.groups + progress.done_groups
                    } else {
                        state.groups
                    },
                    snapshots: if counted {
                        state.snapshots + progress.done_snapshots
                    } else {
                        state.snapshots
                    },
                    stats: sum,
                };
                self.next_namespace(state, i + 1)
            },
            (StorePhase::Pulling(i), StoreEvent::Failed) => self.next_namespace(
                state.with_errors(true),
                i + 1,
            ),
            (StorePhase::RemovingVanished, StoreEvent::Removed(removal)) => {
                let mut sum = state.stats;
                sum.add(SyncStats::from(removal.removed));
                let state = StoreState {
                    phase: state.phase,
                    errors: state.errors || removal.errors,
                    groups: state.groups,
                    snapshots: state.snapshots,
                    stats: sum,
                };
                state.end()
            },
            _ => (state.at(StorePhase::Failed), StoreAction::Abort),
        }
    }
}

/// Message of [`StoreAction::FailWithErrors`].
pub const SYNC_FAILED: &'static str = "sync failed with some errors.";

/// How a namespace of a datastore is named in messages.
pub fn store_and_ns(store: &str, ns: &BackupNamespace) -> (r: String)
    ensures
        r@ == "datastore '"@ + store@ + (if ns@.len() == 0 {
            "', root namespace"@
        } else {
            "', namespace '"@ + crate::text::joined(ns@, "/"@) + "'"@
        }),
{
    if ns.is_root() {
        join3("datastore '", store, "', root namespace")
    } else {
        let name = join3("', namespace '", ns.to_string().as_str(), "'");
        join3("datastore '", store, name.as_str())
    }
}

/// Log line for the progress after a namespace, if it is logged at all: not where
/// only a single level is pulled.
pub fn namespace_done_line(
    namespace: &BackupNamespace,
    max_depth: Option<usize>,
    groups: u64,
    snapshots: u64,
) -> (r: Option<String>)
    ensures
        match r {
            Some(line) => max_depth != Some(0usize) && line@ == "Finished syncing "@ + (
            if namespace@.len() == 0 {
                "root namespace"@
            } else {
                "namespace "@ + crate::text::joined(namespace@, "/"@)
            }) + ", current progress: "@ + decimal(groups as nat) + " groups, "@ + decimal(
                snapshots as nat,
            ) + " snapshots"@,
            None => max_depth == Some(0usize),
        },
{
    if is_some_zero(max_depth) {
        return None;
    }
    let name = if namespace.is_root() {
        "root namespace".to_owned()
    } else {
        join2("namespace ", namespace.to_string().as_str())
    };
    let mut r = join3("Finished syncing ", name.as_str(), ", current progress: ");
    r.append(u64_to_string(groups).as_str());
    r.append(" groups, ");
    r.append(u64_to_string(snapshots).as_str());
    r.append(" snapshots");
    Some(r)
}

/// A state and the action that leads on from it, after a list of events.
pub open spec fn store_run(pull: StorePull, events: Seq<StoreEvent>) -> (StoreState, StoreAction)
    decreases events.len(),
{
    if events.len() == 0 {
        store_start(pull)
    } else {
        store_next(pull, store_run(pull, events.drop_last()).0, events.last())
    }
}

/// Whether an event reports that something went wrong.
pub open spec fn reports_error(event: StoreEvent) -> bool {
    match event {
        StoreEvent::Failed => true,
        StoreEvent::Pulled { errors, .. } => errors,
        StoreEvent::Removed(removal) => removal.errors,
        StoreEvent::Finished => false,
    }
}

/// Whether one of the events reports that something went wrong.
pub open spec fn any_error(events: Seq<StoreEvent>) -> bool {
    exists|i: int| 0 <= i < events.len() && reports_error(#[trigger] events[i])
}

/// As long as the pull has not been given up, its errors are those that were
/// reported, or the missing support for namespaces.
pub proof fn errors_are_collected(pull: StorePull, events: Seq<StoreEvent>)
    ensures
        store_run(pull, events).1 != StoreAction::Abort ==> (store_run(pull, events).0.errors <==> (
        pull.requested_depth != pull.max_depth || any_error(events))),
        store_run(pull, events).1 == StoreAction::Abort ==> store_run(pull, events).0.phase
            == StorePhase::Failed,
    decreases events.len(),
{
    if events.len() > 0 {
        let init = events.drop_last();
        errors_are_collected(pull, init);
        if any_error(init) {
            let i = choose|i: int| 0 <= i < init.len() && reports_error(#[trigger] init[i]);
            assert(events[i] == init[i]);
        }
        if reports_error(events.last()) {
            assert(events[events.len() - 1] == events.last());
        }
        if any_error(events) && !reports_error(events.last()) {
            let i = choose|i: int| 0 <= i < events.len() && reports_error(#[trigger] events[i]);
            assert(init[i] == events[i]);
        }
        if store_run(pull, init).1 == StoreAction::Abort {
            assert(store_run(pull, init).0.phase == StorePhase::Failed);
            assert(store_run(pull, events).1 == StoreAction::Abort);
        }
    } else {
        assert(!any_error(events));
    }
}

/// A pull succeeds only if nothing at all was reported to have gone wrong and the
/// source supports namespaces as far as they were asked for; and it fails in the
/// end, after everything was tried, only if something had.
pub proof fn success_means_no_error(pull: StorePull, events: Seq<StoreEvent>)
    ensures
        store_run(pull, events).1 is Complete ==> pull.requested_depth == pull.max_depth
            && !any_error(events),
        store_run(pull, events).1 == StoreAction::FailWithErrors ==> pull.requested_depth
            != pull.max_depth || any_error(events),
{
    errors_are_collected(pull, events);
    end_action_matches_errors(pull, events);
}

proof fn end_action_matches_errors(pull: StorePull, events: Seq<StoreEvent>)
    ensures
        store_run(pull, events).1 is Complete ==> !store_run(pull, events).0.errors,
        store_run(pull, events).1 == StoreAction::FailWithErrors ==> store_run(
            pull,
            events,
        ).0.errors,
{
    if events.len() == 0 {
        assert(store_run(pull, events) == store_start(pull));
    } else {
        let before = store_run(pull, events.drop_last()).0;
        assert(store_run(pull, events) == store_next(pull, before, events.last()));
    }
}

/// A namespace that cannot be created or pulled does not keep the next one from
/// being pulled.
pub proof fn one_namespace_does_not_stop_the_next(pull: StorePull, state: StoreState, i: usize)
    requires
        state.phase == StorePhase::Creating(i) || state.phase == StorePhase::Pulling(i),
        i + 1 < pull.namespaces,
    ensures
        store_next(pull, state, StoreEvent::Failed).1 == StoreAction::MapNamespace(
            (i + 1) as usize,
        ),
{
}

/// A namespace is pulled only after its target was checked, and in order: the
/// pull of a namespace starts from the successful check of the same one.
pub proof fn namespaces_are_checked_before_pulled(
    pull: StorePull,
    state: StoreState,
    event: StoreEvent,
    i: usize,
)
    requires
        store_next(pull, state, event).1 == StoreAction::PullNamespace(i),
    ensures
        state.phase == StorePhase::Creating(i),
        event == StoreEvent::Finished,
{
}

// ---- what is asked for, answer by answer ----

/// What was asked for last, after a list of answers.
pub open spec fn store_asked(pull: StorePull, events: Seq<StoreEvent>) -> StoreAction {
    store_run(pull, events).1
}

/// Whether anything is on record that makes the pull fail in the end.
pub open spec fn is_to_fail(pull: StorePull, events: Seq<StoreEvent>) -> bool {
    pull.requested_depth != pull.max_depth || any_error(events)
}

/// What a phase waits for.
spec fn store_awaits(state: StoreState, action: StoreAction) -> bool {
    match state.phase {
        StorePhase::Mapping(i) => action == StoreAction::MapNamespace(i),
        StorePhase::Creating(i) => action == StoreAction::CreateNamespace(i),
        StorePhase::Pulling(i) => action == StoreAction::PullNamespace(i),
        StorePhase::RemovingVanished => action == StoreAction::RemoveVanished,
        StorePhase::Complete => action == StoreAction::Complete(state.stats),
        StorePhase::Failed => action == StoreAction::FailWithErrors || action == StoreAction::Abort,
    }
}

proof fn store_run_matches(pull: StorePull, events: Seq<StoreEvent>)
    ensures
        store_awaits(store_run(pull, events).0, store_run(pull, events).1),
        store_index_ok(pull, store_run(pull, events).0),
        store_run(pull, events).0.phase == StorePhase::RemovingVanished ==> pull.remove_vanished,
    decreases events.len(),
{
    if events.len() > 0 {
        store_run_matches(pull, events.drop_last());
    }
}

/// Whether `action` is right once everything was tried.
pub open spec fn is_store_end(pull: StorePull, events: Seq<StoreEvent>, action: StoreAction) -> bool {
    if is_to_fail(pull, events) {
        action == StoreAction::FailWithErrors
    } else {
        action is Complete
    }
}

/// Whether `action` is right once the namespaces before `i` were tried.
pub open spec fn leads_to_namespace(
    pull: StorePull,
    events: Seq<StoreEvent>,
    i: int,
    action: StoreAction,
) -> bool {
    if i < pull.namespaces {
        action == StoreAction::MapNamespace(i as usize)
    } else if pull.remove_vanished {
        action == StoreAction::RemoveVanished
    } else {
        is_store_end(pull, events, action)
    }
}

/// How the pull of a datastore goes on, whatever was answered before: each namespace is
/// mapped, created and pulled, and the next one follows whether or not it could be created
/// or was pulled without errors. After the last one vanished namespaces are removed, if
/// that is wanted. Errors on the way make the pull fail in the end; only a namespace that
/// cannot be mapped, or a removal that fails as a whole, ends it at once.
pub proof fn namespaces_follow_each_other(
    pull: StorePull,
    events: Seq<StoreEvent>,
    event: StoreEvent,
)
    ensures
        leads_to_namespace(
            pull,
            seq![],
            0,
            store_asked(pull, Seq::<StoreEvent>::empty()),
        ),
        ({
            let after = events.push(event);
            let next = store_asked(pull, after);
            match store_asked(pull, events) {
                StoreAction::MapNamespace(i) => next == (if event == StoreEvent::Finished {
                    StoreAction::CreateNamespace(i)
                } else {
                    StoreAction::Abort
                }),
                StoreAction::CreateNamespace(i) => match event {
                    StoreEvent::Finished => next == StoreAction::PullNamespace(i),
                    StoreEvent::Failed => leads_to_namespace(pull, after, i + 1, next),
                    _ => next == StoreAction::Abort,
                },
                StoreAction::PullNamespace(i) => match event {
                    StoreEvent::Pulled { .. } | StoreEvent::Failed => leads_to_namespace(
                        pull,
                        after,
                        i + 1,
                        next,
                    ),
                    _ => next == StoreAction::Abort,
                },
                StoreAction::RemoveVanished => if event is Removed {
                    is_store_end(pull, after, next)
                } else {
                    next == StoreAction::Abort
                },
                _ => next == StoreAction::Abort,
            }
        }),
{
    let after = events.push(event);
    assert(after.drop_last() =~= events);
    store_run_matches(pull, events);
    store_run_matches(pull, after);
    errors_are_collected(pull, after);
    errors_are_collected(pull, events);
    end_action_matches_errors(pull, after);
    let none = Seq::<StoreEvent>::empty();
    assert(none =~= seq![]);
    errors_are_collected(pull, none);
    end_action_matches_errors(pull, none);
}

/// The namespaces that were tried when they were asked for: not created, or pulled with
/// whatever result.
pub open spec fn namespaces_tried(pull: StorePull, events: Seq<StoreEvent>) -> Seq<usize>
    decreases events.len(),
{
    if events.len() == 0 {
        seq![]
    } else {
        let before = namespaces_tried(pull, events.drop_last());
        match (store_asked(pull, events.drop_last()), events.last()) {
            (StoreAction::CreateNamespace(i), StoreEvent::Failed) => before.push(i),
            (StoreAction::PullNamespace(i), StoreEvent::Failed) => before.push(i),
            (StoreAction::PullNamespace(i), StoreEvent::Pulled { .. }) => before.push(i),
            _ => before,
        }
    }
}

/// What was transferred and removed, as it was asked for.
pub open spec fn store_sum(pull: StorePull, events: Seq<StoreEvent>) -> SyncStats
    decreases events.len(),
{
    if events.len() == 0 {
        SyncStats::zero()
    } else {
        let before = store_sum(pull, events.drop_last());
        match (store_asked(pull, events.drop_last()), events.last()) {
            (StoreAction::PullNamespace(_), StoreEvent::Pulled { stats, .. }) => before.plus(stats),
            (StoreAction::RemoveVanished, StoreEvent::Removed(removal)) => before.plus(
                SyncStats {
                    chunk_count: 0,
                    bytes: 0,
                    elapsed: 0,
                    removed: Some(removal.removed),
                },
            ),
            _ => before,
        }
    }
}

/// Groups and snapshots that the namespaces were reported to have done.
pub open spec fn done_so_far(pull: StorePull, events: Seq<StoreEvent>) -> (int, int)
    decreases events.len(),
{
    if events.len() == 0 {
        (0, 0)
    } else {
        let (groups, snapshots) = done_so_far(pull, events.drop_last());
        match (store_asked(pull, events.drop_last()), events.last()) {
            (StoreAction::PullNamespace(_), StoreEvent::Pulled { progress, .. }) => (
                groups + progress.done_groups,
                snapshots + progress.done_snapshots,
            ),
            _ => (groups, snapshots),
        }
    }
}

/// How many namespaces a phase has behind it.
spec fn tried_behind(pull: StorePull, state: StoreState) -> nat {
    match state.phase {
        StorePhase::Mapping(i) | StorePhase::Creating(i) | StorePhase::Pulling(i) => i as nat,
        _ => pull.namespaces as nat,
    }
}

proof fn store_accounts(pull: StorePull, events: Seq<StoreEvent>)
    ensures
        ({
            let (state, action) = store_run(pull, events);
            let (groups, snapshots) = done_so_far(pull, events);
            &&& state.stats == store_sum(pull, events)
            &&& action != StoreAction::Abort ==> namespaces_tried(pull, events) == first_indices(
                tried_behind(pull, state),
            )
            &&& groups >= 0 && snapshots >= 0
            &&& pull.max_depth != Some(0usize) && groups <= u64::MAX ==> state.groups == groups
            &&& pull.max_depth != Some(0usize) && snapshots <= u64::MAX ==> state.snapshots
                == snapshots
        }),
    decreases events.len(),
{
    store_run_matches(pull, events);
    if events.len() > 0 {
        let init = events.drop_last();
        store_accounts(pull, init);
        store_run_matches(pull, init);
        let before = store_run(pull, init);
        if before.1 == StoreAction::Abort || before.1 == StoreAction::FailWithErrors {
            assert(store_run(pull, events).1 == StoreAction::Abort);
        }
        match before.0.phase {
            StorePhase::Creating(i) | StorePhase::Pulling(i) => {
                assert(first_indices(i as nat).push(i) =~= first_indices((i + 1) as nat));
            },
            _ => {},
        }
    } else {
        assert(first_indices(0) =~= seq![]);
    }
}

/// Before vanished namespaces are removed, and before the pull ends with or without errors,
/// every namespace was tried, each once and in order. A pull that succeeds reports the sum
/// of what was transferred and removed.
pub proof fn every_namespace_is_tried(pull: StorePull, events: Seq<StoreEvent>)
    ensures
        match store_asked(pull, events) {
            StoreAction::RemoveVanished | StoreAction::FailWithErrors => namespaces_tried(
                pull,
                events,
            ) == first_indices(pull.namespaces as nat),
            StoreAction::Complete(stats) => namespaces_tried(pull, events) == first_indices(
                pull.namespaces as nat,
            ) && stats == store_sum(pull, events),
            _ => true,
        },
{
    store_run_matches(pull, events);
    store_accounts(pull, events);
}

/// The progress counts what the namespaces were reported to have done, where more than one
/// level is pulled.
pub proof fn progress_adds_up(pull: StorePull, events: Seq<StoreEvent>)
    requires
        pull.max_depth != Some(0usize),
        done_so_far(pull, events).0 <= u64::MAX,
        done_so_far(pull, events).1 <= u64::MAX,
    ensures
        store_run(pull, events).0.groups == done_so_far(pull, events).0,
        store_run(pull, events).0.snapshots == done_so_far(pull, events).1,
{
    store_accounts(pull, events);
}

/// In a list with outer namespaces first, whatever lies in another namespace comes after
/// it.
pub proof fn outer_namespaces_come_first(list: Seq<BackupNamespace>, outer: int, inner: int)
    requires
        outer_first(list),
        0 <= outer < list.len(),
        0 <= inner < list.len(),
        is_ancestor(list[outer]@, list[inner]@),
        list[outer]@ != list[inner]@,
    ensures
        outer < inner,
{
}

} // verus!
