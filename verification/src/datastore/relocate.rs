//! Moving snapshots and notes from one group to another.

use vstd::prelude::*;
use crate::datastore::paths::{archive_type, archive_type_of, join_path, joined_path};
use crate::server::pull::snapshot::first_indices;
use crate::text::{is_prefix, join2, join3, strip_prefix, texts};
use crate::types::ArchiveType;

verus! {

// ---- notes of a group ----

/// How far the notes of a group have been moved.
#[derive(Clone, Copy, Debug, PartialEq, Eq, Structural)]
pub enum NotesState {
    ReadingSource,
    ReadingTarget,
    Warning,
    Uploading,
    Renaming,
    Ended,
}

/// What the environment reports of the last action.
#[derive(Clone, Copy, Debug, PartialEq, Eq, Structural)]
pub enum NotesEvent {
    /// There are no notes.
    NotFound,
    /// There are notes; for those of the target, whether they are the same.
    Found { same: bool },
    /// The action was done.
    Finished,
    /// The action failed.
    Failed,
}

/// What the environment has to do next.
#[derive(Clone, Copy, Debug, PartialEq, Eq, Structural)]
pub enum NotesAction {
    /// Read the notes of the target and compare them to those of the source.
    ReadTarget,
    /// Log that the notes of the target are kept although they differ.
    Warn,
    /// Upload the notes of the source as those of the target.
    Upload,
    /// Rename the notes of the source to those of the target.
    Rename,
    /// Done.
    Complete,
    /// Give up; the source still has its notes.
    Abort,
}

/// The next state and action, from the result of reading the notes of the source
/// on. Notes that the target has are kept.
pub open spec fn notes_next(s3: bool, state: NotesState, event: NotesEvent) -> (
    NotesState,
    NotesAction,
) {
    match (state, event) {
        (NotesState::ReadingSource, NotesEvent::NotFound) => (
            NotesState::Ended,
            NotesAction::Complete,
        ),
        (NotesState::ReadingSource, NotesEvent::Found { .. }) => (
            NotesState::ReadingTarget,
            NotesAction::ReadTarget,
        ),
        (NotesState::ReadingTarget, NotesEvent::Found { same }) => if same {
            (NotesState::Ended, NotesAction::Complete)
        } else {
            (NotesState::Warning, NotesAction::Warn)
        },
        (NotesState::Warning, NotesEvent::Finished) => (NotesState::Ended, NotesAction::Complete),
        (NotesState::ReadingTarget, NotesEvent::NotFound) => if s3 {
            (NotesState::Uploading, NotesAction::Upload)
        } else {
            (NotesState::Renaming, NotesAction::Rename)
        },
        (NotesState::Uploading, NotesEvent::Finished) => (
            NotesState::Renaming,
            NotesAction::Rename,
        ),
        (NotesState::Renaming, NotesEvent::Finished) => (NotesState::Ended, NotesAction::Complete),
        _ => (NotesState::Ended, NotesAction::Abort),
    }
}

/// Moves the move of a group's notes on and says what to do next.
pub fn move_notes_to(s3: bool, state: NotesState, event: NotesEvent) -> (r: (
    NotesState,
    NotesAction,
))
    ensures
        r == notes_next(s3, state, event),
{
    match (state, event) {
        (NotesState::ReadingSource, NotesEvent::NotFound) => (
            NotesState::Ended,
            NotesAction::Complete,
        ),
        (NotesState::ReadingSource, NotesEvent::Found { .. }) => (
            NotesState::ReadingTarget,
            NotesAction::ReadTarget,
        ),
        (NotesState::ReadingTarget, NotesEvent::Found { same }) => {
            if same {
                (NotesState::Ended, NotesAction::Complete)
            } else {
                (NotesState::Warning, NotesAction::Warn)
            }
        },
        (NotesState::Warning, NotesEvent::Finished) => (NotesState::Ended, NotesAction::Complete),
        (NotesState::ReadingTarget, NotesEvent::NotFound) => {
            if s3 {
                (NotesState::Uploading, NotesAction::Upload)
            } else {
                (NotesState::Renaming, NotesAction::Rename)
            }
        },
        (NotesState::Uploading, NotesEvent::Finished) => (
            NotesState::Renaming,
            NotesAction::Rename,
        ),
        (NotesState::Renaming, NotesEvent::Finished) => (NotesState::Ended, NotesAction::Complete),
        _ => (NotesState::Ended, NotesAction::Abort),
    }
}

/// Notes of the target are never replaced: they are uploaded or renamed to only
/// where it was found to have none. In an object store they are uploaded first.
pub proof fn target_notes_are_kept(s3: bool, state: NotesState, event: NotesEvent)
    ensures
        notes_next(s3, state, event).1 == NotesAction::Upload ==> state == NotesState::ReadingTarget
            && event == NotesEvent::NotFound && s3,
        notes_next(s3, state, event).1 == NotesAction::Rename ==> (state
            == NotesState::ReadingTarget && event == NotesEvent::NotFound && !s3) || (state
            == NotesState::Uploading && event == NotesEvent::Finished),
        notes_next(s3, state, event).0 == NotesState::Uploading ==> state
            == NotesState::ReadingTarget && event == NotesEvent::NotFound,
{
}

/// Line of [`NotesAction::Warn`].
pub fn notes_differ_line(group: &str, source_ns: &str, target_ns: &str) -> (r: String)
    ensures
        r@ == "group notes differ during merge of '"@ + group@ + "' from '"@ + source_ns@
            + "' into '"@ + target_ns@ + "' - keeping target's notes"@,
{
    let mut r = join3("group notes differ during merge of '", group, "' from '");
    r.append(source_ns);
    r.append("' into '");
    r.append(target_ns);
    r.append("' - keeping target's notes");
    r
}

// ---- a snapshot ----

/// Whether a file name is one of an index.
pub open spec fn is_index(name: Seq<char>) -> bool {
    archive_type_of(name) == Some(ArchiveType::FixedIndex) || archive_type_of(name) == Some(
        ArchiveType::DynamicIndex,
    )
}

/// Paths that the index files among `names` have once their snapshot lies at
/// `target`.
pub open spec fn moved_indices(target: Seq<char>, names: Seq<Seq<char>>) -> Seq<Seq<char>>
    decreases names.len(),
{
    if names.len() == 0 {
        seq![]
    } else {
        let before = moved_indices(target, names.drop_last());
        if is_index(names.last()) {
            before.push(joined_path(target, names.last()))
        } else {
            before
        }
    }
}

/// Paths that the index files among `names` have once their snapshot lies at
/// `target`. They are recorded before the snapshot is moved.
pub fn journal_entries(target: &str, names: &Vec<String>) -> (r: Vec<String>)
    ensures
        texts(r@) == moved_indices(target@, texts(names@)),
{
    let mut r: Vec<String> = Vec::new();
    assert(texts(r@) =~= Seq::<Seq<char>>::empty());
    for i in 0..names.len()
        invariant
            texts(r@) == moved_indices(target@, texts(names@).take(i as int)),
    {
        let name = names[i].as_str();
        proof {
            assert(texts(names@).take(i + 1).drop_last() =~= texts(names@).take(i as int));
            assert(texts(names@).take(i + 1).last() == name@);
        }
        match archive_type(name) {
            Some(ArchiveType::FixedIndex) | Some(ArchiveType::DynamicIndex) => {
                let path = join_path(target, name);
                let ghost before = r@;
                r.push(path);
                assert(texts(r@) =~= texts(before).push(path@));
            },
            _ => {},
        }
    }
    assert(texts(names@).take(texts(names@).len() as int) =~= texts(names@));
    r
}

/// Every index file of a moved snapshot is recorded at its new path, and nothing
/// else is.
pub proof fn every_index_is_recorded(target: Seq<char>, names: Seq<Seq<char>>)
    ensures
        forall|i: int|
            0 <= i < names.len() && is_index(#[trigger] names[i]) ==> moved_indices(
                target,
                names,
            ).contains(joined_path(target, names[i])),
        forall|p: Seq<char>| #[trigger]
            moved_indices(target, names).contains(p) ==> exists|i: int|
                0 <= i < names.len() && is_index(#[trigger] names[i]) && p == joined_path(
                    target,
                    names[i],
                ),
    decreases names.len(),
{
    if names.len() > 0 {
        let init = names.drop_last();
        every_index_is_recorded(target, init);
        let before = moved_indices(target, init);
        let after = moved_indices(target, names);
        assert forall|i: int| 0 <= i < names.len() && is_index(#[trigger] names[i]) implies after.contains(
        joined_path(target, names[i])) by {
            if i < init.len() {
                assert(names[i] == init[i]);
                let k = before.index_of(joined_path(target, init[i]));
                assert(after[k] == before[k]);
            } else {
                assert(after[after.len() - 1] == joined_path(target, names[i]));
            }
        }
        assert forall|p: Seq<char>| #[trigger] after.contains(p) implies exists|i: int|
            0 <= i < names.len() && is_index(#[trigger] names[i]) && p == joined_path(
                target,
                names[i],
            ) by {
            let k = after.index_of(p);
            if k < before.len() {
                assert(before[k] == p);
                assert(before.contains(p));
                let i = choose|i: int|
                    0 <= i < init.len() && is_index(#[trigger] init[i]) && p == joined_path(
                        target,
                        init[i],
                    );
                assert(names[i] == init[i]);
            } else {
                assert(names[names.len() - 1] == names.last());
            }
        }
    }
}

/// Prefix of the objects of a snapshot in an object store.
pub fn snapshot_prefix(content_prefix: &str, relative_path: &str) -> (r: String)
    ensures
        r@ == content_prefix@ + "/"@ + relative_path@ + "/"@,
{
    let mut r = join3(content_prefix, "/", relative_path);
    r.append("/");
    r
}

/// Why an object is not copied.
#[derive(Clone, Copy, Debug, PartialEq, Eq, Structural)]
pub enum KeyError {
    /// The key does not start with the name of the datastore.
    UnexpectedPrefix,
    /// The key does not belong to the snapshot.
    UnexpectedFormat,
}

/// Keys of an object of a snapshot, relative to the datastore, before and after
/// the move.
pub struct MovedKey {
    pub source: String,
    pub target: String,
}

/// Keys of an object before and after the snapshot is moved: the prefix of the
/// source is replaced by that of the target.
pub fn moved_key(
    full_key: &str,
    store: &str,
    source_prefix: &str,
    target_prefix: &str,
) -> (r: Result<MovedKey, KeyError>)
    ensures
        match r {
            Ok(key) => {
                &&& full_key@ == store@ + "/"@ + key.source@
                &&& exists|suffix: Seq<char>|
                    key.source@ == #[trigger] (source_prefix@ + suffix) && key.target@
                        == target_prefix@ + suffix
            },
            Err(KeyError::UnexpectedPrefix) => !is_prefix(store@ + "/"@, full_key@),
            Err(KeyError::UnexpectedFormat) => exists|rel: Seq<char>|
                full_key@ == #[trigger] (store@ + "/"@ + rel) && !is_prefix(source_prefix@, rel),
        },
{
    let store_prefix = join2(store, "/");
    match strip_prefix(full_key, store_prefix.as_str()) {
        None => Err(KeyError::UnexpectedPrefix),
        Some(rel) => match strip_prefix(rel.as_str(), source_prefix) {
            None => {
                assert(full_key@ == store@ + "/"@ + rel@);
                Err(KeyError::UnexpectedFormat)
            },
            Some(suffix) => {
                assert(rel@ == source_prefix@ + suffix@);
                let target = join2(target_prefix, suffix.as_str());
                Ok(MovedKey { source: rel, target })
            },
        },
    }
}

/// How far a snapshot has been moved.
#[derive(Clone, Copy, Debug, PartialEq, Eq, Structural)]
pub enum MovePhase {
    CheckingStore,
    ListingFiles,
    WritingJournal,
    ListingObjects,
    Copying(usize),
    Renaming,
    Deleting(usize),
    RemovingLockFiles,
    Complete,
    Failed,
}

/// State of the move of a snapshot.
#[derive(Clone, Copy, Debug, PartialEq, Eq, Structural)]
pub struct MoveState {
    pub phase: MovePhase,
    /// Objects of the pages that were listed so far.
    pub listed: usize,
    /// More pages of objects follow.
    pub truncated: bool,
    /// Objects that were copied.
    pub copied: usize,
}

/// What the environment reports of the last action.
#[derive(Clone, Copy, Debug, PartialEq, Eq, Structural)]
pub enum MoveEvent {
    /// Whether source and target lie in the same datastore.
    SameStore(bool),
    /// A page of so many objects was listed; whether more follow.
    Page { objects: usize, truncated: bool },
    /// The action was done.
    Finished,
    /// The action failed.
    Failed,
}

/// What the environment has to do next.
#[derive(Clone, Copy, Debug, PartialEq, Eq, Structural)]
pub enum MoveAction {
    /// List the files of the snapshot.
    ListFiles,
    /// Record the new paths of the index files.
    WriteJournal,
    /// List the next page of objects of the snapshot.
    ListObjects,
    /// Copy the object of this number.
    CopyObject(usize),
    /// Rename the directory of the snapshot.
    Rename,
    /// Delete the source of the object of this number.
    DeleteObject(usize),
    /// Remove the lock files of the source; it does no harm if that fails.
    RemoveLockFiles,
    /// Done.
    Complete,
    /// Source and target lie in different datastores.
    RefuseStore,
    /// Give up.
    Abort,
}

/// State before anything is moved.
pub open spec fn move_start() -> MoveState {
    MoveState { phase: MovePhase::CheckingStore, listed: 0, truncated: false, copied: 0 }
}

/// The state with another phase.
pub open spec fn move_at(state: MoveState, phase: MovePhase) -> MoveState {
    MoveState { phase, ..state }
}

/// What follows once so many objects were copied.
pub open spec fn next_copy(state: MoveState) -> (MoveState, MoveAction) {
    if state.copied < state.listed {
        (
            move_at(state, MovePhase::Copying(state.copied)),
            MoveAction::CopyObject(state.copied),
        )
    } else if state.truncated {
        (move_at(state, MovePhase::ListingObjects), MoveAction::ListObjects)
    } else {
        (move_at(state, MovePhase::Renaming), MoveAction::Rename)
    }
}

/// What follows once the sources of all objects before `i` were deleted.
pub open spec fn next_delete(state: MoveState, i: usize) -> (MoveState, MoveAction) {
    if i < state.copied {
        (move_at(state, MovePhase::Deleting(i)), MoveAction::DeleteObject(i))
    } else {
        (move_at(state, MovePhase::RemovingLockFiles), MoveAction::RemoveLockFiles)
    }
}

/// The next state and action.
pub open spec fn move_next(s3: bool, state: MoveState, event: MoveEvent) -> (MoveState, MoveAction) {
    match (state.phase, event) {
        (MovePhase::CheckingStore, MoveEvent::SameStore(same)) => if same {
            (move_at(state, MovePhase::ListingFiles), MoveAction::ListFiles)
        } else {
            (move_at(state, MovePhase::Failed), MoveAction::RefuseStore)
        },
        (MovePhase::ListingFiles, MoveEvent::Finished) => (
            move_at(state, MovePhase::WritingJournal),
            MoveAction::WriteJournal,
        ),
        (MovePhase::WritingJournal, MoveEvent::Finished) => if s3 {
            (move_at(state, MovePhase::ListingObjects), MoveAction::ListObjects)
        } else {
            (move_at(state, MovePhase::Renaming), MoveAction::Rename)
        },
        (MovePhase::ListingObjects, MoveEvent::Page { objects, truncated }) => next_copy(
            MoveState { listed: (state.listed + objects) as usize, truncated, ..state },
        ),
        (MovePhase::Copying(i), MoveEvent::Finished) => next_copy(
            MoveState { copied: (state.copied + 1) as usize, ..state },
        ),
        (MovePhase::Renaming, MoveEvent::Finished) => next_delete(state, 0),
        (MovePhase::Deleting(i), MoveEvent::Finished) => next_delete(state, (i + 1) as usize),
        (MovePhase::Deleting(i), MoveEvent::Failed) => next_delete(state, (i + 1) as usize),
        (MovePhase::RemovingLockFiles, MoveEvent::Finished) => (
            move_at(state, MovePhase::Complete),
            MoveAction::Complete,
        ),
        (MovePhase::RemovingLockFiles, MoveEvent::Failed) => (
            move_at(state, MovePhase::Complete),
            MoveAction::Complete,
        ),
        _ => (move_at(state, MovePhase::Failed), MoveAction::Abort),
    }
}

/// The counters of a state match its phase.
pub open spec fn move_counts(state: MoveState) -> bool {
    &&& state.copied <= state.listed
    &&& match state.phase {
        MovePhase::Copying(i) => i == state.copied && i < state.listed,
        MovePhase::Deleting(i) => i < state.copied && state.copied == state.listed,
        MovePhase::ListingObjects
        | MovePhase::Renaming
        | MovePhase::RemovingLockFiles
        | MovePhase::Complete => state.copied == state.listed,
        MovePhase::CheckingStore
        | MovePhase::ListingFiles
        | MovePhase::WritingJournal => state.listed == 0,
        MovePhase::Failed => true,
    }
}

/// Whether the objects of a page can be added to those listed so far.
pub open spec fn page_fits(state: MoveState, event: MoveEvent) -> bool {
    match event {
        MoveEvent::Page { objects, .. } => state.listed + objects <= usize::MAX,
        _ => true,
    }
}

impl MoveState {
    /// State before anything is moved.
    pub fn new() -> (r: MoveState)
        ensures
            r == move_start(),
            move_counts(r),
    {
        MoveState { phase: MovePhase::CheckingStore, listed: 0, truncated: false, copied: 0 }
    }

    fn at(self, phase: MovePhase) -> (r: MoveState)
        ensures
            r == move_at(self, phase),
    {
        MoveState { phase, listed: self.listed, truncated: self.truncated, copied: self.copied }
    }

    fn next_copy(self) -> (r: (MoveState, MoveAction))
        ensures
            r == next_copy(self),
    {
        if self.copied < self.listed {
            (self.at(MovePhase::Copying(self.copied)), MoveAction::CopyObject(self.copied))
        } else if self.truncated {
            (self.at(MovePhase::ListingObjects), MoveAction::ListObjects)
        } else {
            (self.at(MovePhase::Renaming), MoveAction::Rename)
        }
    }

    fn next_delete(self, i: usize) -> (r: (MoveState, MoveAction))
        ensures
            r == next_delete(self, i),
    {
        if i < self.copied {
            (self.at(MovePhase::Deleting(i)), MoveAction::DeleteObject(i))
        } else {
            (self.at(MovePhase::RemovingLockFiles), MoveAction::RemoveLockFiles)
        }
    }

    /// Moves the move of a snapshot on and says what to do next.
    ///
    /// In an object store, objects are copied before the directory is renamed and
    /// their sources deleted afterwards. A copy that fails leaves the snapshot
    /// where it was; a source that cannot be deleted does no harm.
    pub fn move_to(self, s3: bool, event: MoveEvent) -> (r: (MoveState, MoveAction))
        requires
            move_counts(self),
            page_fits(self, event),
        ensures
            r == move_next(s3, self, event),
            move_counts(r.0),
    {
        let mut state = self;
        match (state.phase, event) {
            (MovePhase::CheckingStore, MoveEvent::SameStore(same)) => {
                if same {
                    (state.at(MovePhase::ListingFiles), MoveAction::ListFiles)
                } else {
                    (state.at(MovePhase::Failed), MoveAction::RefuseStore)
                }
            },
            (MovePhase::ListingFiles, MoveEvent::Finished) => (
                state.at(MovePhase::WritingJournal),
                MoveAction::WriteJournal,
            ),
            (MovePhase::WritingJournal, MoveEvent::Finished) => {
                if s3 {
                    (state.at(MovePhase::ListingObjects), MoveAction::ListObjects)
                } else {
                    (state.at(MovePhase::Renaming), MoveAction::Rename)
                }
            },
            (MovePhase::ListingObjects, MoveEvent::Page { objects, truncated }) => {
                state.listed = state.listed + objects;
                state.truncated = truncated;
                state.next_copy()
            },
            (MovePhase::Copying(_), MoveEvent::Finished) => {
                state.copied = state.copied + 1;
                state.next_copy()
            },
            (MovePhase::Renaming, MoveEvent::Finished) => state.next_delete(0),
            (MovePhase::Deleting(i), MoveEvent::Finished)
            | (MovePhase::Deleting(i), MoveEvent::Failed) => state.next_delete(i + 1),
            (MovePhase::RemovingLockFiles, MoveEvent::Finished)
            | (MovePhase::RemovingLockFiles, MoveEvent::Failed) => (
                state.at(MovePhase::Complete),
                MoveAction::Complete,
            ),
            _ => (state.at(MovePhase::Failed), MoveAction::Abort),
        }
    }
}

/// The state after a list of events, from the start.
pub open spec fn move_run(s3: bool, events: Seq<MoveEvent>) -> MoveState
    decreases events.len(),
{
    if events.len() == 0 {
        move_start()
    } else {
        move_next(s3, move_run(s3, events.drop_last()), events.last()).0
    }
}

/// Whether the journal was written at some point of a list of events.
pub open spec fn journal_written(s3: bool, events: Seq<MoveEvent>) -> bool {
    exists|k: int|
        0 <= k < events.len() && #[trigger] move_run(s3, events.take(k)).phase
            == MovePhase::WritingJournal && events[k] == MoveEvent::Finished
}

/// Whether the directory was renamed at some point of a list of events.
pub open spec fn renamed(s3: bool, events: Seq<MoveEvent>) -> bool {
    exists|k: int|
        0 <= k < events.len() && #[trigger] move_run(s3, events.take(k)).phase
            == MovePhase::Renaming && events[k] == MoveEvent::Finished
}

/// Phases behind the journal.
pub open spec fn past_journal(phase: MovePhase) -> bool {
    match phase {
        MovePhase::CheckingStore
        | MovePhase::ListingFiles
        | MovePhase::WritingJournal
        | MovePhase::Failed => false,
        _ => true,
    }
}

/// Phases behind the rename.
pub open spec fn past_rename(phase: MovePhase) -> bool {
    match phase {
        MovePhase::Deleting(_) | MovePhase::RemovingLockFiles | MovePhase::Complete => true,
        _ => false,
    }
}

/// The new paths of the index files are on record before the snapshot is copied
/// or renamed: a path that exists has been recorded before.
pub proof fn journal_precedes_rename(s3: bool, events: Seq<MoveEvent>)
    requires
        past_journal(move_run(s3, events).phase),
    ensures
        journal_written(s3, events),
    decreases events.len(),
{
    if events.len() > 0 {
        let init = events.drop_last();
        let n = init.len() as int;
        assert(events.take(n) =~= init);
        if past_journal(move_run(s3, init).phase) {
            journal_precedes_rename(s3, init);
            let k = choose|k: int|
                0 <= k < init.len() && #[trigger] move_run(s3, init.take(k)).phase
                    == MovePhase::WritingJournal && init[k] == MoveEvent::Finished;
            assert(events.take(k) =~= init.take(k));
            assert(events[k] == init[k]);
        } else {
            assert(move_run(s3, events.take(n)).phase == MovePhase::WritingJournal);
            assert(events[n] == MoveEvent::Finished);
        }
    }
}

/// The sources of the objects are deleted, and the move counts as done, only
/// after the directory was renamed.
pub proof fn rename_precedes_deletion(s3: bool, events: Seq<MoveEvent>)
    requires
        past_rename(move_run(s3, events).phase),
    ensures
        renamed(s3, events),
    decreases events.len(),
{
    if events.len() > 0 {
        let init = events.drop_last();
        let n = init.len() as int;
        assert(events.take(n) =~= init);
        if past_rename(move_run(s3, init).phase) {
            rename_precedes_deletion(s3, init);
            let k = choose|k: int|
                0 <= k < init.len() && #[trigger] move_run(s3, init.take(k)).phase
                    == MovePhase::Renaming && init[k] == MoveEvent::Finished;
            assert(events.take(k) =~= init.take(k));
            assert(events[k] == init[k]);
        } else {
            assert(move_run(s3, events.take(n)).phase == MovePhase::Renaming);
            assert(events[n] == MoveEvent::Finished);
        }
    }
}

/// The directory is renamed only after every object that was listed has been
/// copied, and no further page of objects is left.
pub proof fn copies_precede_rename(s3: bool, state: MoveState, event: MoveEvent)
    requires
        move_counts(state),
        page_fits(state, event),
        move_next(s3, state, event).1 == MoveAction::Rename,
    ensures
        move_next(s3, state, event).0.copied == move_next(s3, state, event).0.listed,
        s3 && state.phase != MovePhase::WritingJournal ==> !move_next(s3, state, event).0.truncated,
{
}

/// Whatever fails before the rename leaves the snapshot where it was: nothing is
/// renamed or deleted after a failure.
pub proof fn failed_move_leaves_the_source(s3: bool, state: MoveState, event: MoveEvent)
    ensures
        !past_rename(state.phase) ==> move_next(s3, state, MoveEvent::Failed).1 == MoveAction::Abort,
        state.phase == MovePhase::Failed ==> move_next(s3, state, event) == (
            state,
            MoveAction::Abort,
        ),
{
}

/// Once the directory was renamed, the move goes on to its end: an object that cannot
/// be deleted is passed over, and so are lock files.
pub proof fn renamed_snapshot_counts_as_moved(s3: bool, state: MoveState, event: MoveEvent)
    requires
        past_rename(state.phase),
        state.phase != MovePhase::Complete,
        event == MoveEvent::Finished || event == MoveEvent::Failed,
    ensures
        past_rename(move_next(s3, state, event).0.phase),
        move_next(s3, state, event) == move_next(s3, state, MoveEvent::Finished),
        move_next(s3, state, event).1 != MoveAction::Abort,
{
}

// ---- what is asked for, answer by answer ----

/// What was asked for last, after a list of answers; at the start only whether both lie in
/// the same datastore is to be told.
pub open spec fn move_asked(s3: bool, events: Seq<MoveEvent>) -> Option<MoveAction> {
    if events.len() == 0 {
        None
    } else {
        Some(move_next(s3, move_run(s3, events.drop_last()), events.last()).1)
    }
}

/// Number of objects of the pages that were listed when they were asked for.
pub open spec fn objects_listed(s3: bool, events: Seq<MoveEvent>) -> int
    decreases events.len(),
{
    if events.len() == 0 {
        0
    } else {
        let before = objects_listed(s3, events.drop_last());
        match (move_asked(s3, events.drop_last()), events.last()) {
            (Some(MoveAction::ListObjects), MoveEvent::Page { objects, .. }) => before + objects,
            _ => before,
        }
    }
}

/// Whether the last page that was listed is not the last one there is.
pub open spec fn more_to_list(events: Seq<MoveEvent>) -> bool
    decreases events.len(),
{
    if events.len() == 0 {
        false
    } else {
        match events.last() {
            MoveEvent::Page { truncated, .. } => truncated,
            _ => more_to_list(events.drop_last()),
        }
    }
}

/// The objects whose copy was reported as finished when it was asked for.
pub open spec fn objects_copied(s3: bool, events: Seq<MoveEvent>) -> Seq<usize>
    decreases events.len(),
{
    if events.len() == 0 {
        seq![]
    } else {
        let before = objects_copied(s3, events.drop_last());
        match (move_asked(s3, events.drop_last()), events.last()) {
            (Some(MoveAction::CopyObject(i)), MoveEvent::Finished) => before.push(i),
            _ => before,
        }
    }
}

/// The objects whose source was to be deleted, whether or not that worked.
pub open spec fn objects_deleted(s3: bool, events: Seq<MoveEvent>) -> Seq<usize>
    decreases events.len(),
{
    if events.len() == 0 {
        seq![]
    } else {
        let before = objects_deleted(s3, events.drop_last());
        match (move_asked(s3, events.drop_last()), events.last()) {
            (Some(MoveAction::DeleteObject(i)), MoveEvent::Finished) => before.push(i),
            (Some(MoveAction::DeleteObject(i)), MoveEvent::Failed) => before.push(i),
            _ => before,
        }
    }
}

/// What a phase waits for.
spec fn move_awaits(state: MoveState, action: Option<MoveAction>) -> bool {
    match state.phase {
        MovePhase::CheckingStore => action is None,
        MovePhase::ListingFiles => action == Some(MoveAction::ListFiles),
        MovePhase::WritingJournal => action == Some(MoveAction::WriteJournal),
        MovePhase::ListingObjects => action == Some(MoveAction::ListObjects),
        MovePhase::Copying(i) => action == Some(MoveAction::CopyObject(i)),
        MovePhase::Renaming => action == Some(MoveAction::Rename),
        MovePhase::Deleting(i) => action == Some(MoveAction::DeleteObject(i)),
        MovePhase::RemovingLockFiles => action == Some(MoveAction::RemoveLockFiles),
        MovePhase::Complete => action == Some(MoveAction::Complete),
        MovePhase::Failed => action == Some(MoveAction::Abort) || action == Some(
            MoveAction::RefuseStore,
        ),
    }
}

/// How many sources a phase has behind it.
spec fn deleted_behind(state: MoveState) -> nat {
    match state.phase {
        MovePhase::Deleting(i) => i as nat,
        MovePhase::RemovingLockFiles | MovePhase::Complete => state.listed as nat,
        _ => 0,
    }
}

proof fn move_step_awaits(s3: bool, state: MoveState, event: MoveEvent)
    ensures
        move_awaits(move_next(s3, state, event).0, Some(move_next(s3, state, event).1)),
{
}

proof fn move_run_awaits(s3: bool, events: Seq<MoveEvent>)
    ensures
        move_awaits(move_run(s3, events), move_asked(s3, events)),
{
    if events.len() > 0 {
        move_step_awaits(s3, move_run(s3, events.drop_last()), events.last());
    }
}

/// The counters of a state are those of the answers.
spec fn move_tallies(s3: bool, events: Seq<MoveEvent>) -> bool {
    let state = move_run(s3, events);
    state.phase != MovePhase::Failed ==> {
        &&& move_counts(state)
        &&& state.listed == objects_listed(s3, events)
        &&& objects_copied(s3, events) == first_indices(state.copied as nat)
        &&& objects_deleted(s3, events) == first_indices(deleted_behind(state))
        &&& state.phase is Copying ==> state.truncated == more_to_list(events)
        &&& state.phase == MovePhase::Renaming && s3 ==> !more_to_list(events)
    }
}

proof fn move_step_tallies(s3: bool, init: Seq<MoveEvent>, event: MoveEvent)
    requires
        move_tallies(s3, init),
        objects_listed(s3, init.push(event)) <= usize::MAX,
    ensures
        move_tallies(s3, init.push(event)),
{
    let events = init.push(event);
    let before = move_run(s3, init);
    assert(events.drop_last() =~= init);
    move_run_awaits(s3, init);
    listing_grows(s3, init);
    let asked = move_asked(s3, init);
    let state = move_run(s3, events);
    assert(state == move_next(s3, before, event).0);
    if state.phase != MovePhase::Failed {
        match before.phase {
            MovePhase::Copying(i) => {
                assert(asked == Some(MoveAction::CopyObject(i)));
                assert(event == MoveEvent::Finished);
                assert(first_indices(i as nat).push(i) =~= first_indices((i + 1) as nat));
            },
            MovePhase::Deleting(i) => {
                assert(asked == Some(MoveAction::DeleteObject(i)));
                assert(first_indices(i as nat).push(i) =~= first_indices((i + 1) as nat));
            },
            MovePhase::ListingObjects => {
                assert(asked == Some(MoveAction::ListObjects));
                assert(objects_copied(s3, events) == objects_copied(s3, init));
                assert(objects_deleted(s3, events) == objects_deleted(s3, init));
            },
            _ => {
                assert(objects_listed(s3, events) == objects_listed(s3, init));
                assert(objects_copied(s3, events) == objects_copied(s3, init));
                assert(objects_deleted(s3, events) == objects_deleted(s3, init));
            },
        }
    }
}

proof fn move_run_matches(s3: bool, events: Seq<MoveEvent>)
    requires
        objects_listed(s3, events) <= usize::MAX,
    ensures
        move_awaits(move_run(s3, events), move_asked(s3, events)),
        objects_listed(s3, events) >= 0,
        move_tallies(s3, events),
    decreases events.len(),
{
    move_run_awaits(s3, events);
    listing_grows(s3, events);
    if events.len() > 0 {
        let init = events.drop_last();
        listing_grows(s3, init);
        move_run_matches(s3, init);
        assert(init.push(events.last()) =~= events);
        move_step_tallies(s3, init, events.last());
    } else {
        assert(first_indices(0) =~= seq![]);
    }
}

proof fn listing_grows(s3: bool, events: Seq<MoveEvent>)
    ensures
        objects_listed(s3, events) >= 0,
    decreases events.len(),
{
    if events.len() > 0 {
        listing_grows(s3, events.drop_last());
    }
}

/// What is to be asked for once the sources of the objects before `i` were dealt with.
pub open spec fn delete_or_end(listed: int, i: int) -> MoveAction {
    if i < listed {
        MoveAction::DeleteObject(i as usize)
    } else {
        MoveAction::RemoveLockFiles
    }
}

/// What is to be asked for once the objects before `i` were copied.
pub open spec fn copy_or_rename(listed: int, more: bool, i: int) -> MoveAction {
    if i < listed {
        MoveAction::CopyObject(i as usize)
    } else if more {
        MoveAction::ListObjects
    } else {
        MoveAction::Rename
    }
}

/// How the move of a snapshot goes on, whatever was answered before: only within a
/// datastore, with the journal first. In an object store every object of every page is
/// copied before the directory is renamed, and its source deleted afterwards. What fails
/// up to the rename ends the move; what fails behind it does not.
pub proof fn move_answers_are_followed(s3: bool, events: Seq<MoveEvent>, event: MoveEvent)
    requires
        objects_listed(s3, events.push(event)) <= usize::MAX,
    ensures
        ({
            let next = move_asked(s3, events.push(event))->0;
            let listed = objects_listed(s3, events);
            let done = event == MoveEvent::Finished;
            let tried = done || event == MoveEvent::Failed;
            match move_asked(s3, events) {
                None => match event {
                    MoveEvent::SameStore(true) => next == MoveAction::ListFiles,
                    MoveEvent::SameStore(false) => next == MoveAction::RefuseStore,
                    _ => next == MoveAction::Abort,
                },
                Some(MoveAction::ListFiles) => next == (if done {
                    MoveAction::WriteJournal
                } else {
                    MoveAction::Abort
                }),
                Some(MoveAction::WriteJournal) => next == (if !done {
                    MoveAction::Abort
                } else if s3 {
                    MoveAction::ListObjects
                } else {
                    MoveAction::Rename
                }),
                Some(MoveAction::ListObjects) => match event {
                    MoveEvent::Page { objects, truncated } => next == copy_or_rename(
                        listed + objects,
                        truncated,
                        listed,
                    ),
                    _ => next == MoveAction::Abort,
                },
                Some(MoveAction::CopyObject(i)) => next == (if done {
                    copy_or_rename(listed, more_to_list(events), i + 1)
                } else {
                    MoveAction::Abort
                }),
                Some(MoveAction::Rename) => next == (if done {
                    delete_or_end(listed, 0)
                } else {
                    MoveAction::Abort
                }),
                Some(MoveAction::DeleteObject(i)) => next == (if tried {
                    delete_or_end(listed, i + 1)
                } else {
                    MoveAction::Abort
                }),
                Some(MoveAction::RemoveLockFiles) => next == (if tried {
                    MoveAction::Complete
                } else {
                    MoveAction::Abort
                }),
                _ => next == MoveAction::Abort,
            }
        }),
{
    let all = events.push(event);
    assert(all.drop_last() =~= events);
    listing_grows(s3, events);
    move_run_matches(s3, events);
    let state = move_run(s3, events);
    assert(move_asked(s3, all) == Some(move_next(s3, state, event).1));
    match state.phase {
        MovePhase::ListingObjects => {
            assert(move_asked(s3, events) == Some(MoveAction::ListObjects));
        },
        MovePhase::Copying(i) => {
            assert(move_asked(s3, events) == Some(MoveAction::CopyObject(i)));
        },
        MovePhase::Deleting(i) => {
            assert(move_asked(s3, events) == Some(MoveAction::DeleteObject(i)));
        },
        _ => {},
    }
}

/// The directory is renamed only after every object of every page was copied, each once
/// and in order; the source of an object is deleted only if its copy was finished; and when
/// the move is done, the sources of all of them were to be deleted.
pub proof fn only_copied_objects_are_deleted(s3: bool, events: Seq<MoveEvent>)
    requires
        objects_listed(s3, events) <= usize::MAX,
    ensures
        ({
            let listed = objects_listed(s3, events) as nat;
            match move_asked(s3, events) {
                Some(MoveAction::Rename) => objects_copied(s3, events) == first_indices(listed) && (
                s3 ==> !more_to_list(events)) && objects_deleted(s3, events).len() == 0,
                Some(MoveAction::DeleteObject(i)) => i < listed && objects_copied(s3, events)
                    == first_indices(listed) && objects_copied(s3, events).contains(i),
                Some(MoveAction::RemoveLockFiles) | Some(MoveAction::Complete) => objects_copied(
                    s3,
                    events,
                ) == first_indices(listed) && objects_deleted(s3, events) == first_indices(listed),
                _ => true,
            }
        }),
{
    move_run_matches(s3, events);
    if let Some(MoveAction::DeleteObject(i)) = move_asked(s3, events) {
        assert(objects_copied(s3, events)[i as int] == i);
    }
}

/// Notes are moved only if there are any and the target has none, and then they are, in an
/// object store with an upload first. Other notes of the target are pointed out. Whatever
/// fails ends the move.
pub proof fn notes_answers_are_followed(s3: bool, event: NotesEvent)
    ensures
        ({
            let (reading, first) = notes_next(s3, NotesState::ReadingSource, event);
            match event {
                NotesEvent::NotFound => first == NotesAction::Complete,
                NotesEvent::Found { .. } => {
                    &&& first == NotesAction::ReadTarget
                    &&& notes_next(s3, reading, NotesEvent::Found { same: true }).1
                        == NotesAction::Complete
                    &&& notes_next(s3, reading, NotesEvent::Failed).1 == NotesAction::Abort
                    &&& ({
                        let (warned, second) = notes_next(
                            s3,
                            reading,
                            NotesEvent::Found { same: false },
                        );
                        &&& second == NotesAction::Warn
                        &&& notes_next(s3, warned, NotesEvent::Finished).1 == NotesAction::Complete
                    })
                    &&& ({
                        let (missing, second) = notes_next(s3, reading, NotesEvent::NotFound);
                        let (renaming, third) = notes_next(s3, missing, NotesEvent::Finished);
                        let fourth = notes_next(s3, renaming, NotesEvent::Finished).1;
                        &&& notes_next(s3, missing, NotesEvent::Failed).1 == NotesAction::Abort
                        &&& s3 ==> second == NotesAction::Upload && third == NotesAction::Rename
                            && fourth == NotesAction::Complete && notes_next(
                            s3,
                            renaming,
                            NotesEvent::Failed,
                        ).1 == NotesAction::Abort
                        &&& !s3 ==> second == NotesAction::Rename && third == NotesAction::Complete
                    })
                },
                _ => first == NotesAction::Abort,
            }
        }),
{
}

/// Message of [`MoveAction::RefuseStore`].
pub const DIFFERENT_STORES: &'static str = "cannot move snapshot across different datastores";

/// The files that a move records are those with the ending of an index; a blob is none of
/// them.
pub proof fn indices_go_by_ending(stem: Seq<char>, ext: Seq<char>)
    requires
        stem.len() > 0,
        !ext.contains('.'),
    ensures
        is_index(stem.push('.') + ext) <==> ext == "fidx"@ || ext == "didx"@,
{
    crate::datastore::paths::archive_kind_goes_by_ending(stem, ext);
}

} // verus!
