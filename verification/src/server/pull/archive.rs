//! Pulling a single archive that a manifest refers to.

use vstd::prelude::*;
use crate::server::pull::chunks::IndexKind;
use crate::server::stats::SyncStats;
use crate::text::{decimal, join2, join3, u64_to_string};
use crate::types::{ArchiveType, CryptMode, Digest};

verus! {

/// A file that a manifest refers to.
pub struct FileInfo {
    pub filename: String,
    pub crypt_mode: CryptMode,
    pub size: u64,
    pub csum: Digest,
}

/// How a file differs from what the manifest says of it.
#[derive(Clone, Copy, Debug, PartialEq, Eq, Structural)]
pub enum ArchiveMismatch {
    /// The file has another size than the manifest says.
    WrongSize { expected: u64, found: u64 },
    /// The file has another checksum than the manifest says.
    WrongChecksum,
}

impl ArchiveMismatch {
    /// The message about a file that does not match.
    pub open spec fn text(self, filename: Seq<char>) -> Seq<char> {
        match self {
            ArchiveMismatch::WrongSize { expected, found } => "wrong size for file '"@ + filename
                + "' ("@ + decimal(expected as nat) + " != "@ + decimal(found as nat) + ")"@,
            ArchiveMismatch::WrongChecksum => "wrong checksum for file '"@ + filename + "'"@,
        }
    }

    /// The message about a file that does not match.
    pub fn message(&self, filename: &str) -> (r: String)
        ensures
            r@ == self.text(filename@),
    {
        match self {
            ArchiveMismatch::WrongSize { expected, found } => {
                let mut r = join3("wrong size for file '", filename, "' (");
                r.append(u64_to_string(*expected).as_str());
                r.append(" != ");
                r.append(u64_to_string(*found).as_str());
                r.append(")");
                r
            },
            ArchiveMismatch::WrongChecksum => join3("wrong checksum for file '", filename, "'"),
        }
    }
}

/// How a file of the given checksum and size differs from what is expected of
/// it. A wrong size is reported before a wrong checksum.
pub open spec fn mismatch(
    expected_csum: Digest,
    expected_size: u64,
    csum: Digest,
    size: u64,
) -> Option<ArchiveMismatch> {
    if size != expected_size {
        Some(ArchiveMismatch::WrongSize { expected: expected_size, found: size })
    } else if csum != expected_csum {
        Some(ArchiveMismatch::WrongChecksum)
    } else {
        None
    }
}

/// Checks a file against what the manifest says of it.
pub fn verify_archive(info: &FileInfo, csum: &Digest, size: u64) -> (r: Result<(), ArchiveMismatch>)
    ensures
        r == (match mismatch(info.csum, info.size, *csum, size) {
            Some(m) => Err(m),
            None => Ok(()),
        }),
{
    if size != info.size {
        return Err(ArchiveMismatch::WrongSize { expected: info.size, found: size });
    }
    if *csum != info.csum {
        return Err(ArchiveMismatch::WrongChecksum);
    }
    Ok(())
}

/// Start of every log line about an archive.
pub fn archive_prefix(backup_time_string: &str, archive_name: &str) -> (r: String)
    ensures
        r@ == backup_time_string@ + "/"@ + archive_name@,
{
    join3(backup_time_string, "/", archive_name)
}

/// Log line for [`ArchiveAction::LogSync`].
pub fn sync_archive_line(prefix: &str) -> (r: String)
    ensures
        r@ == prefix@ + ": sync archive"@,
{
    join2(prefix, ": sync archive")
}

/// Log line for [`ArchiveAction::LogSkip`].
pub fn skip_chunks_line(prefix: &str) -> (r: String)
    ensures
        r@ == prefix@ + ": skipping chunk sync for same datastore"@,
{
    join2(prefix, ": skipping chunk sync for same datastore")
}

/// What decides how an archive is pulled.
pub struct ArchivePull {
    /// What the manifest says of the archive.
    pub info: FileInfo,
    /// The archive is decrypted on the way.
    pub decrypt: bool,
    /// The source keeps its chunks in the target datastore.
    pub skip_chunk_sync: bool,
    /// A new manifest collects the decrypted files.
    pub new_manifest: bool,
}

/// How far an archive has been pulled.
#[derive(Clone, Copy, Debug, PartialEq, Eq, Structural)]
pub enum ArchiveState {
    Start,
    Announcing,
    Loading,
    Opening,
    ReadingIndex(IndexKind),
    HashingBlob,
    AnnouncingSkip,
    CreatingWriter { kind: IndexKind, size: u64 },
    PullingChunks { size: u64 },
    ClosingWriter { size: u64, stats: SyncStats },
    DecryptingBlob,
    AddingToManifest { stats: SyncStats },
    RemovingTmp { stats: SyncStats },
    Renaming { stats: SyncStats },
    Uploading { stats: SyncStats },
    Complete,
    Failed,
}

/// What the environment reports of the last action.
#[derive(Clone, Copy, Debug, PartialEq, Eq, Structural)]
pub enum ArchiveEvent {
    /// The action was done; there is nothing more to report.
    Finished,
    /// The temporary file is open, and its name says what it holds.
    Opened(ArchiveType),
    /// Checksum and size of the temporary file, or of the decrypted blob.
    Checksum { csum: Digest, size: u64 },
    /// The chunks were pulled.
    Pulled(SyncStats),
    /// The decrypted index was closed and has this checksum.
    Closed { csum: Digest },
    /// The action failed.
    Failed,
}

/// What the environment has to do next.
#[derive(Clone, Copy, Debug, PartialEq, Eq, Structural)]
pub enum ArchiveAction {
    /// Log that the archive is synced.
    LogSync,
    /// Load the archive into the temporary file.
    Load,
    /// Open the temporary file and tell its kind from its name.
    Open,
    /// Read the temporary file as an index and compute its checksum and size.
    ReadIndex(IndexKind),
    /// Compute checksum and size of the temporary file.
    HashBlob,
    /// Log that the chunks are not synced.
    LogSkip,
    /// Create the decrypted index, for contents of this size.
    CreateWriter { kind: IndexKind, size: u64 },
    /// Pull the chunks of the index, into the decrypted index if one was created.
    PullChunks,
    /// Close the decrypted index and report its checksum.
    CloseWriter,
    /// Decrypt the temporary file into the temporary decrypted file and report
    /// checksum and size of the latter.
    DecryptBlob,
    /// Add the decrypted archive to the new manifest.
    AddToManifest { csum: Digest, size: u64 },
    /// Remove the temporary encrypted file.
    RemoveTmp,
    /// Rename a temporary file into place: the decrypted one or the loaded one.
    Rename { decrypted: bool },
    /// Upload the archive to the backend of the datastore.
    Upload,
    /// The archive is in place.
    Complete(SyncStats),
    /// The archive does not match the manifest.
    Reject(ArchiveMismatch),
    /// Give up.
    Abort,
}

/// What follows once the contents of the archive are in a temporary file.
pub open spec fn contents_ready(decrypt: bool, stats: SyncStats) -> (ArchiveState, ArchiveAction) {
    if decrypt {
        (ArchiveState::RemovingTmp { stats }, ArchiveAction::RemoveTmp)
    } else {
        (ArchiveState::Renaming { stats }, ArchiveAction::Rename { decrypted: false })
    }
}

/// What follows once the archive was decrypted.
pub open spec fn decrypted(
    pull: ArchivePull,
    csum: Digest,
    size: u64,
    stats: SyncStats,
) -> (ArchiveState, ArchiveAction) {
    if pull.new_manifest {
        (ArchiveState::AddingToManifest { stats }, ArchiveAction::AddToManifest { csum, size })
    } else {
        contents_ready(pull.decrypt, stats)
    }
}

/// What follows once an index was found to match the manifest.
pub open spec fn index_verified(pull: ArchivePull, kind: IndexKind, size: u64) -> (
    ArchiveState,
    ArchiveAction,
) {
    if pull.decrypt {
        (ArchiveState::CreatingWriter { kind, size }, ArchiveAction::CreateWriter { kind, size })
    } else if pull.skip_chunk_sync {
        (ArchiveState::AnnouncingSkip, ArchiveAction::LogSkip)
    } else {
        (ArchiveState::PullingChunks { size }, ArchiveAction::PullChunks)
    }
}

/// The next state and action.
pub open spec fn archive_next(pull: ArchivePull, state: ArchiveState, event: ArchiveEvent) -> (
    ArchiveState,
    ArchiveAction,
) {
    match (state, event) {
        (ArchiveState::Start, ArchiveEvent::Finished) => (
            ArchiveState::Announcing,
            ArchiveAction::LogSync,
        ),
        (ArchiveState::Announcing, ArchiveEvent::Finished) => (
            ArchiveState::Loading,
            ArchiveAction::Load,
        ),
        (ArchiveState::Loading, ArchiveEvent::Finished) => (
            ArchiveState::Opening,
            ArchiveAction::Open,
        ),
        (ArchiveState::Opening, ArchiveEvent::Opened(ty)) => match ty {
            ArchiveType::DynamicIndex => (
                ArchiveState::ReadingIndex(IndexKind::Dynamic),
                ArchiveAction::ReadIndex(IndexKind::Dynamic),
            ),
            ArchiveType::FixedIndex => (
                ArchiveState::ReadingIndex(IndexKind::Fixed),
                ArchiveAction::ReadIndex(IndexKind::Fixed),
            ),
            ArchiveType::Blob => (ArchiveState::HashingBlob, ArchiveAction::HashBlob),
        },
        (ArchiveState::ReadingIndex(kind), ArchiveEvent::Checksum { csum, size }) => match mismatch(
            pull.info.csum,
            pull.info.size,
            csum,
            size,
        ) {
            Some(m) => (ArchiveState::Failed, ArchiveAction::Reject(m)),
            None => index_verified(pull, kind, size),
        },
        (ArchiveState::HashingBlob, ArchiveEvent::Checksum { csum, size }) => match mismatch(
            pull.info.csum,
            pull.info.size,
            csum,
            size,
        ) {
            Some(m) => (ArchiveState::Failed, ArchiveAction::Reject(m)),
            None => if pull.decrypt {
                (ArchiveState::DecryptingBlob, ArchiveAction::DecryptBlob)
            } else {
                contents_ready(false, SyncStats::zero())
            },
        },
        (ArchiveState::AnnouncingSkip, ArchiveEvent::Finished) => contents_ready(
            pull.decrypt,
            SyncStats::zero(),
        ),
        (ArchiveState::CreatingWriter { kind, size }, ArchiveEvent::Finished) => (
            ArchiveState::PullingChunks { size },
            ArchiveAction::PullChunks,
        ),
        (ArchiveState::PullingChunks { size }, ArchiveEvent::Pulled(stats)) => if pull.decrypt {
            (ArchiveState::ClosingWriter { size, stats }, ArchiveAction::CloseWriter)
        } else {
            contents_ready(false, stats)
        },
        (ArchiveState::ClosingWriter { size, stats }, ArchiveEvent::Closed { csum }) => decrypted(
            pull,
            csum,
            size,
            stats,
        ),
        (ArchiveState::DecryptingBlob, ArchiveEvent::Checksum { csum, size }) => decrypted(
            pull,
            csum,
            size,
            SyncStats::zero(),
        ),
        (ArchiveState::AddingToManifest { stats }, ArchiveEvent::Finished) => contents_ready(
            pull.decrypt,
            stats,
        ),
        (ArchiveState::RemovingTmp { stats }, ArchiveEvent::Finished) => (
            ArchiveState::Renaming { stats },
            ArchiveAction::Rename { decrypted: true },
        ),
        (ArchiveState::Renaming { stats }, ArchiveEvent::Finished) => (
            ArchiveState::Uploading { stats },
            ArchiveAction::Upload,
        ),
        (ArchiveState::Uploading { stats }, ArchiveEvent::Finished) => (
            ArchiveState::Complete,
            ArchiveAction::Complete(stats),
        ),
        _ => (ArchiveState::Failed, ArchiveAction::Abort),
    }
}

impl ArchivePull {
    fn contents_ready(&self, stats: SyncStats) -> (r: (ArchiveState, ArchiveAction))
        ensures
            r == contents_ready(self.decrypt, stats),
    {
        if self.decrypt {
            (ArchiveState::RemovingTmp { stats }, ArchiveAction::RemoveTmp)
        } else {
            (ArchiveState::Renaming { stats }, ArchiveAction::Rename { decrypted: false })
        }
    }

    fn decrypted(&self, csum: Digest, size: u64, stats: SyncStats) -> (r: (
        ArchiveState,
        ArchiveAction,
    ))
        ensures
            r == decrypted(*self, csum, size, stats),
    {
        if self.new_manifest {
            (ArchiveState::AddingToManifest { stats }, ArchiveAction::AddToManifest { csum, size })
        } else {
            self.contents_ready(stats)
        }
    }

    fn verified(&self, state: ArchiveState, size: u64) -> (r: (ArchiveState, ArchiveAction))
        requires
            state is ReadingIndex || state == ArchiveState::HashingBlob,
        ensures
            r == (match state {
                ArchiveState::ReadingIndex(kind) => index_verified(*self, kind, size),
                _ => if self.decrypt {
                    (ArchiveState::DecryptingBlob, ArchiveAction::DecryptBlob)
                } else {
                    contents_ready(false, SyncStats::zero())
                },
            }),
    {
        if let ArchiveState::ReadingIndex(kind) = state {
            if self.decrypt {
                (
                    ArchiveState::CreatingWriter { kind, size },
                    ArchiveAction::CreateWriter { kind, size },
                )
            } else if self.skip_chunk_sync {
                (ArchiveState::AnnouncingSkip, ArchiveAction::LogSkip)
            } else {
                (ArchiveState::PullingChunks { size }, ArchiveAction::PullChunks)
            }
        } else if self.decrypt {
            (ArchiveState::DecryptingBlob, ArchiveAction::DecryptBlob)
        } else {
            self.contents_ready(SyncStats::default())
        }
    }

    /// Moves on after `event` and says what to do next.
    pub fn step(&self, state: ArchiveState, event: ArchiveEvent) -> (r: (
        ArchiveState,
        ArchiveAction,
    ))
        ensures
            r == archive_next(*self, state, event),
    {
        match (state, event) {
            (ArchiveState::Start, ArchiveEvent::Finished) => (
                ArchiveState::Announcing,
                ArchiveAction::LogSync,
            ),
            (ArchiveState::Announcing, ArchiveEvent::Finished) => (
                ArchiveState::Loading,
                ArchiveAction::Load,
            ),
            (ArchiveState::Loading, ArchiveEvent::Finished) => (
                ArchiveState::Opening,
                ArchiveAction::Open,
            ),
            (ArchiveState::Opening, ArchiveEvent::Opened(ty)) => match ty {
                ArchiveType::DynamicIndex => (
                    ArchiveState::ReadingIndex(IndexKind::Dynamic),
                    ArchiveAction::ReadIndex(IndexKind::Dynamic),
                ),
                ArchiveType::FixedIndex => (
                    ArchiveState::ReadingIndex(IndexKind::Fixed),
                    ArchiveAction::ReadIndex(IndexKind::Fixed),
                ),
                ArchiveType::Blob => (ArchiveState::HashingBlob, ArchiveAction::HashBlob),
            },
            (ArchiveState::ReadingIndex(_), ArchiveEvent::Checksum { csum, size })
            | (ArchiveState::HashingBlob, ArchiveEvent::Checksum { csum, size }) => {
                match verify_archive(&self.info, &csum, size) {
                    Err(m) => (ArchiveState::Failed, ArchiveAction::Reject(m)),
                    Ok(()) => self.verified(state, size),
                }
            },
            (ArchiveState::AnnouncingSkip, ArchiveEvent::Finished) => self.contents_ready(
                SyncStats::default(),
            ),
            (ArchiveState::CreatingWriter { kind: _, size }, ArchiveEvent::Finished) => (
                ArchiveState::PullingChunks { size },
                ArchiveAction::PullChunks,
            ),
            (ArchiveState::PullingChunks { size }, ArchiveEvent::Pulled(stats)) => {
                if self.decrypt {
                    (ArchiveState::ClosingWriter { size, stats }, ArchiveAction::CloseWriter)
                } else {
                    self.contents_ready(stats)
                }
            },
            (ArchiveState::ClosingWriter { size, stats }, ArchiveEvent::Closed { csum }) =>
                self.decrypted(csum, size, stats),
            (ArchiveState::DecryptingBlob, ArchiveEvent::Checksum { csum, size }) =>
                self.decrypted(csum, size, SyncStats::default()),
            (ArchiveState::AddingToManifest { stats }, ArchiveEvent::Finished) =>
                self.contents_ready(stats),
            (ArchiveState::RemovingTmp { stats }, ArchiveEvent::Finished) => (
                ArchiveState::Renaming { stats },
                ArchiveAction::Rename { decrypted: true },
            ),
            (ArchiveState::Renaming { stats }, ArchiveEvent::Finished) => (
                ArchiveState::Uploading { stats },
                ArchiveAction::Upload,
            ),
            (ArchiveState::Uploading { stats }, ArchiveEvent::Finished) => (
                ArchiveState::Complete,
                ArchiveAction::Complete(stats),
            ),
            _ => (ArchiveState::Failed, ArchiveAction::Abort),
        }
    }
}

/// The state after a list of events, from the start.
pub open spec fn archive_run(pull: ArchivePull, events: Seq<ArchiveEvent>) -> ArchiveState
    decreases events.len(),
{
    if events.len() == 0 {
        ArchiveState::Start
    } else {
        archive_next(pull, archive_run(pull, events.drop_last()), events.last()).0
    }
}

/// The last action of a list of events, from the start.
pub open spec fn archive_last_action(
    pull: ArchivePull,
    events: Seq<ArchiveEvent>,
) -> ArchiveAction {
    archive_next(pull, archive_run(pull, events.drop_last()), events.last()).1
}

/// Whether one of the events reports what the manifest says of the archive.
pub open spec fn checksum_matched(pull: ArchivePull, events: Seq<ArchiveEvent>) -> bool {
    exists|i: int|
        0 <= i < events.len() && #[trigger] events[i] == (ArchiveEvent::Checksum {
            csum: pull.info.csum,
            size: pull.info.size,
        })
}

/// Whether one of the events reports chunks that were pulled with these statistics.
pub open spec fn pulled(events: Seq<ArchiveEvent>, stats: SyncStats) -> bool {
    exists|i: int| 0 <= i < events.len() && #[trigger] events[i] == ArchiveEvent::Pulled(stats)
}

/// States in which the loaded file has not been checked yet.
pub open spec fn unchecked(state: ArchiveState) -> bool {
    match state {
        ArchiveState::Start
        | ArchiveState::Announcing
        | ArchiveState::Loading
        | ArchiveState::Opening
        | ArchiveState::ReadingIndex(_)
        | ArchiveState::HashingBlob
        | ArchiveState::Failed => true,
        _ => false,
    }
}

/// Past the check, the size and the checksum that the manifest gives were found.
pub proof fn checked_state_matched(pull: ArchivePull, events: Seq<ArchiveEvent>)
    requires
        !unchecked(archive_run(pull, events)),
    ensures
        checksum_matched(pull, events),
    decreases events.len(),
{
    if events.len() > 0 {
        let before = archive_run(pull, events.drop_last());
        if !unchecked(before) {
            checked_state_matched(pull, events.drop_last());
            let i = choose|i: int|
                0 <= i < events.drop_last().len() && #[trigger] events.drop_last()[i] == (
                ArchiveEvent::Checksum { csum: pull.info.csum, size: pull.info.size });
            assert(events[i] == events.drop_last()[i]);
        } else {
            assert(events[events.len() - 1] == events.last());
        }
    }
}

/// An archive is pulled on, renamed into place, uploaded or reported as complete
/// only after the loaded file was found to have the size and the checksum that
/// the manifest gives.
pub proof fn only_verified_archives_are_kept(pull: ArchivePull, events: Seq<ArchiveEvent>)
    requires
        events.len() > 0,
        match archive_last_action(pull, events) {
            ArchiveAction::LogSkip
            | ArchiveAction::CreateWriter { .. }
            | ArchiveAction::PullChunks
            | ArchiveAction::CloseWriter
            | ArchiveAction::DecryptBlob
            | ArchiveAction::AddToManifest { .. }
            | ArchiveAction::RemoveTmp
            | ArchiveAction::Rename { .. }
            | ArchiveAction::Upload
            | ArchiveAction::Complete(_) => true,
            _ => false,
        },
    ensures
        checksum_matched(pull, events),
{
    checked_state_matched(pull, events);
}

/// A file that does not match is rejected, and nothing follows a rejection or a
/// failure.
pub proof fn failure_is_final(pull: ArchivePull, event: ArchiveEvent)
    ensures
        archive_next(pull, ArchiveState::Failed, event) == (
            ArchiveState::Failed,
            ArchiveAction::Abort,
        ),
        forall|state: ArchiveState| #[trigger]
            archive_next(pull, state, ArchiveEvent::Failed) == (
                ArchiveState::Failed,
                ArchiveAction::Abort,
            ),
{
}

/// What is renamed into place is the decrypted file exactly if the archive is
/// decrypted, and only a decrypted archive is added to the new manifest.
pub proof fn encrypted_file_is_not_kept(pull: ArchivePull, events: Seq<ArchiveEvent>)
    requires
        events.len() > 0,
    ensures
        match archive_last_action(pull, events) {
            ArchiveAction::Rename { decrypted } => decrypted == pull.decrypt,
            ArchiveAction::AddToManifest { .. } => pull.decrypt && pull.new_manifest,
            ArchiveAction::CreateWriter { .. } => pull.decrypt,
            ArchiveAction::LogSkip => !pull.decrypt && pull.skip_chunk_sync,
            _ => true,
        },
{
    decrypting_states(pull, events.drop_last());
}

proof fn decrypting_states(pull: ArchivePull, events: Seq<ArchiveEvent>)
    ensures
        match archive_run(pull, events) {
            ArchiveState::RemovingTmp { .. }
            | ArchiveState::AddingToManifest { .. }
            | ArchiveState::ClosingWriter { .. }
            | ArchiveState::DecryptingBlob
            | ArchiveState::CreatingWriter { .. } => pull.decrypt,
            ArchiveState::AnnouncingSkip => !pull.decrypt,
            _ => true,
        },
    decreases events.len(),
{
    if events.len() > 0 {
        decrypting_states(pull, events.drop_last());
    }
}

/// The statistics of a complete archive are those of its chunks; a blob, and an
/// index whose chunks are not synced, count nothing.
pub proof fn complete_reports_pulled_chunks(pull: ArchivePull, events: Seq<ArchiveEvent>)
    requires
        events.len() > 0,
    ensures
        match archive_last_action(pull, events) {
            ArchiveAction::Complete(stats) => stats == SyncStats::zero() || pulled(events, stats),
            _ => true,
        },
{
    carried_stats(pull, events.drop_last());
    if let ArchiveAction::Complete(stats) = archive_last_action(pull, events) {
        if stats != SyncStats::zero() {
            let i = choose|i: int|
                0 <= i < events.drop_last().len() && #[trigger] events.drop_last()[i]
                    == ArchiveEvent::Pulled(stats);
            assert(events[i] == events.drop_last()[i]);
        }
    }
}

proof fn carried_stats(pull: ArchivePull, events: Seq<ArchiveEvent>)
    ensures
        match archive_run(pull, events) {
            ArchiveState::ClosingWriter { stats, .. }
            | ArchiveState::AddingToManifest { stats }
            | ArchiveState::RemovingTmp { stats }
            | ArchiveState::Renaming { stats }
            | ArchiveState::Uploading { stats } => stats == SyncStats::zero() || pulled(
                events,
                stats,
            ),
            _ => true,
        },
    decreases events.len(),
{
    if events.len() > 0 {
        let init = events.drop_last();
        carried_stats(pull, init);
        assert(forall|stats: SyncStats|
            pulled(init, stats) ==> #[trigger] pulled(events, stats)) by {
            assert forall|stats: SyncStats| pulled(init, stats) implies #[trigger] pulled(
                events,
                stats,
            ) by {
                let i = choose|i: int|
                    0 <= i < init.len() && #[trigger] init[i] == ArchiveEvent::Pulled(stats);
                assert(events[i] == init[i]);
            }
        }
        assert(events[events.len() - 1] == events.last());
    }
}

// ---- what is asked for, answer by answer ----

/// What was asked for last, after a list of answers; nothing yet at the start.
pub open spec fn archive_asked(
    pull: ArchivePull,
    events: Seq<ArchiveEvent>,
) -> Option<ArchiveAction> {
    if events.len() == 0 {
        None
    } else {
        Some(archive_last_action(pull, events))
    }
}

/// Statistics of the chunks that were pulled last, if any were.
pub open spec fn chunks_pulled(events: Seq<ArchiveEvent>) -> SyncStats
    decreases events.len(),
{
    if events.len() == 0 {
        SyncStats::zero()
    } else {
        match events.last() {
            ArchiveEvent::Pulled(stats) => stats,
            _ => chunks_pulled(events.drop_last()),
        }
    }
}

/// What a state waits for.
spec fn archive_awaits(state: ArchiveState, action: Option<ArchiveAction>, decrypt: bool) -> bool {
    match state {
        ArchiveState::Start => action is None,
        ArchiveState::Announcing => action == Some(ArchiveAction::LogSync),
        ArchiveState::Loading => action == Some(ArchiveAction::Load),
        ArchiveState::Opening => action == Some(ArchiveAction::Open),
        ArchiveState::ReadingIndex(kind) => action == Some(ArchiveAction::ReadIndex(kind)),
        ArchiveState::HashingBlob => action == Some(ArchiveAction::HashBlob),
        ArchiveState::AnnouncingSkip => action == Some(ArchiveAction::LogSkip),
        ArchiveState::CreatingWriter { kind, size } => action == Some(
            ArchiveAction::CreateWriter { kind, size },
        ),
        ArchiveState::PullingChunks { .. } => action == Some(ArchiveAction::PullChunks),
        ArchiveState::ClosingWriter { .. } => action == Some(ArchiveAction::CloseWriter),
        ArchiveState::DecryptingBlob => action == Some(ArchiveAction::DecryptBlob),
        ArchiveState::AddingToManifest { .. } => action is Some && action->0 is AddToManifest,
        ArchiveState::RemovingTmp { .. } => action == Some(ArchiveAction::RemoveTmp),
        ArchiveState::Renaming { .. } => action == Some(
            ArchiveAction::Rename { decrypted: decrypt },
        ),
        ArchiveState::Uploading { .. } => action == Some(ArchiveAction::Upload),
        ArchiveState::Complete => action is Some && action->0 is Complete,
        ArchiveState::Failed => action is Some && (action->0 == ArchiveAction::Abort || action->0
            is Reject),
    }
}

proof fn archive_run_awaits(pull: ArchivePull, events: Seq<ArchiveEvent>)
    ensures
        archive_awaits(archive_run(pull, events), archive_asked(pull, events), pull.decrypt),
        match archive_run(pull, events) {
            ArchiveState::PullingChunks { size } | ArchiveState::ClosingWriter { size, .. }
            | ArchiveState::CreatingWriter { size, .. } => size == pull.info.size,
            _ => true,
        },
        match archive_run(pull, events) {
            ArchiveState::ClosingWriter { stats, .. }
            | ArchiveState::AddingToManifest { stats }
            | ArchiveState::RemovingTmp { stats }
            | ArchiveState::Renaming { stats }
            | ArchiveState::Uploading { stats } => stats == chunks_pulled(events),
            ArchiveState::Complete | ArchiveState::Failed => true,
            _ => chunks_pulled(events) == SyncStats::zero(),
        },
    decreases events.len(),
{
    decrypting_states(pull, events);
    if events.len() > 0 {
        let init = events.drop_last();
        archive_run_awaits(pull, init);
        decrypting_states(pull, init);
        assert(archive_run(pull, events) == archive_next(
            pull,
            archive_run(pull, init),
            events.last(),
        ).0);
    }
}

/// How the file of an archive is loaded and checked, whatever was answered before: it is
/// read by the kind that its name tells. One that has not the size and the checksum of the
/// manifest is rejected; else a blob is decrypted or placed, and an index is decrypted, has
/// its chunks pulled, or has them skipped where they are there already.
pub proof fn load_answers_are_followed(
    pull: ArchivePull,
    events: Seq<ArchiveEvent>,
    event: ArchiveEvent,
)
    ensures
        ({
            let next = archive_asked(pull, events.push(event))->0;
            let done = event == ArchiveEvent::Finished;
            match archive_asked(pull, events) {
                None => next == (if done {
                    ArchiveAction::LogSync
                } else {
                    ArchiveAction::Abort
                }),
                Some(ArchiveAction::LogSync) => next == (if done {
                    ArchiveAction::Load
                } else {
                    ArchiveAction::Abort
                }),
                Some(ArchiveAction::Load) => next == (if done {
                    ArchiveAction::Open
                } else {
                    ArchiveAction::Abort
                }),
                Some(ArchiveAction::Open) => match event {
                    ArchiveEvent::Opened(ArchiveType::FixedIndex) => next
                        == ArchiveAction::ReadIndex(IndexKind::Fixed),
                    ArchiveEvent::Opened(ArchiveType::DynamicIndex) => next
                        == ArchiveAction::ReadIndex(IndexKind::Dynamic),
                    ArchiveEvent::Opened(ArchiveType::Blob) => next == ArchiveAction::HashBlob,
                    _ => next == ArchiveAction::Abort,
                },
                Some(ArchiveAction::HashBlob) => match event {
                    ArchiveEvent::Checksum { csum, size } => if size != pull.info.size {
                        next == ArchiveAction::Reject(
                            ArchiveMismatch::WrongSize { expected: pull.info.size, found: size },
                        )
                    } else if csum != pull.info.csum {
                        next == ArchiveAction::Reject(ArchiveMismatch::WrongChecksum)
                    } else if pull.decrypt {
                        next == ArchiveAction::DecryptBlob
                    } else {
                        next == (ArchiveAction::Rename { decrypted: false })
                    },
                    _ => next == ArchiveAction::Abort,
                },
                Some(ArchiveAction::ReadIndex(kind)) => match event {
                    ArchiveEvent::Checksum { csum, size } => if size != pull.info.size {
                        next == ArchiveAction::Reject(
                            ArchiveMismatch::WrongSize { expected: pull.info.size, found: size },
                        )
                    } else if csum != pull.info.csum {
                        next == ArchiveAction::Reject(ArchiveMismatch::WrongChecksum)
                    } else if pull.decrypt {
                        next == (ArchiveAction::CreateWriter { kind, size: pull.info.size })
                    } else if pull.skip_chunk_sync {
                        next == ArchiveAction::LogSkip
                    } else {
                        next == ArchiveAction::PullChunks
                    },
                    _ => next == ArchiveAction::Abort,
                },
                _ => true,
            }
        }),
{
    assert(events.push(event).drop_last() =~= events);
    archive_run_awaits(pull, events);
    archive_run_awaits(pull, events.push(event));
}

/// How an archive that was checked is put in place, whatever was answered before: its
/// chunks are pulled; if it is decrypted, the new file is closed and added to the new
/// manifest with its own checksum and size, and the encrypted one removed. Then it is
/// renamed and uploaded, and reports what its chunks transferred. Whatever fails ends it.
pub proof fn place_answers_are_followed(
    pull: ArchivePull,
    events: Seq<ArchiveEvent>,
    event: ArchiveEvent,
)
    ensures
        ({
            let next = archive_asked(pull, events.push(event))->0;
            let done = event == ArchiveEvent::Finished;
            match archive_asked(pull, events) {
                Some(ArchiveAction::LogSkip) => next == (if done {
                    ArchiveAction::Rename { decrypted: false }
                } else {
                    ArchiveAction::Abort
                }),
                Some(ArchiveAction::CreateWriter { .. }) => next == (if done {
                    ArchiveAction::PullChunks
                } else {
                    ArchiveAction::Abort
                }),
                Some(ArchiveAction::PullChunks) => next == (if !(event is Pulled) {
                    ArchiveAction::Abort
                } else if pull.decrypt {
                    ArchiveAction::CloseWriter
                } else {
                    ArchiveAction::Rename { decrypted: false }
                }),
                Some(ArchiveAction::CloseWriter) => match event {
                    ArchiveEvent::Closed { csum } => next == (if pull.new_manifest {
                        ArchiveAction::AddToManifest { csum, size: pull.info.size }
                    } else {
                        ArchiveAction::RemoveTmp
                    }),
                    _ => next == ArchiveAction::Abort,
                },
                Some(ArchiveAction::DecryptBlob) => match event {
                    ArchiveEvent::Checksum { csum, size } => next == (if pull.new_manifest {
                        ArchiveAction::AddToManifest { csum, size }
                    } else {
                        ArchiveAction::RemoveTmp
                    }),
                    _ => next == ArchiveAction::Abort,
                },
                Some(ArchiveAction::AddToManifest { .. }) => next == (if done {
                    ArchiveAction::RemoveTmp
                } else {
                    ArchiveAction::Abort
                }),
                Some(ArchiveAction::RemoveTmp) => next == (if done {
                    ArchiveAction::Rename { decrypted: true }
                } else {
                    ArchiveAction::Abort
                }),
                Some(ArchiveAction::Rename { .. }) => next == (if done {
                    ArchiveAction::Upload
                } else {
                    ArchiveAction::Abort
                }),
                Some(ArchiveAction::Upload) => next == (if done {
                    ArchiveAction::Complete(chunks_pulled(events))
                } else {
                    ArchiveAction::Abort
                }),
                Some(ArchiveAction::Complete(_))
                | Some(ArchiveAction::Reject(_))
                | Some(ArchiveAction::Abort) => next == ArchiveAction::Abort,
                _ => true,
            }
        }),
{
    assert(events.push(event).drop_last() =~= events);
    archive_run_awaits(pull, events);
    archive_run_awaits(pull, events.push(event));
    decrypting_states(pull, events);
}

/// A file is right exactly if it has the size and the checksum expected of it; a wrong size
/// is told with both sizes, and first.
pub proof fn only_same_size_and_checksum_match(
    expected_csum: Digest,
    expected_size: u64,
    csum: Digest,
    size: u64,
)
    ensures
        mismatch(expected_csum, expected_size, csum, size) is None <==> csum == expected_csum
            && size == expected_size,
        size != expected_size ==> mismatch(expected_csum, expected_size, csum, size) == Some(
            ArchiveMismatch::WrongSize { expected: expected_size, found: size },
        ),
        size == expected_size && csum != expected_csum ==> mismatch(
            expected_csum,
            expected_size,
            csum,
            size,
        ) == Some(ArchiveMismatch::WrongChecksum),
{
}

} // verus!
