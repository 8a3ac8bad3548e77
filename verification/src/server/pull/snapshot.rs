//! Pulling a snapshot.
//!
//! The manifest is loaded first. If it is the one that is there already, only
//! the client log is fetched. Otherwise every file that it names is checked or
//! pulled before the manifest takes its place.

use vstd::prelude::*;
use crate::server::pull::decryption::fully_encrypted;
use crate::server::stats::SyncStats;
use crate::text::{join2, join3};
use crate::types::{CryptMode, VerifyState};

verus! {

/// The verification state read from a manifest.
#[derive(Clone, Copy, Debug, PartialEq, Eq, Structural)]
pub enum ReadVerifyState {
    /// The manifest holds something else in its place.
    Unreadable,
    /// The snapshot was not verified.
    Missing,
    /// The snapshot was verified with this result.
    Present(VerifyState),
}

/// Whether a snapshot is left out because only verified or only encrypted ones
/// are wanted.
pub open spec fn ignored(
    verify: ReadVerifyState,
    encrypted: bool,
    verified_only: bool,
    encrypted_only: bool,
) -> bool {
    ||| verified_only && verify != ReadVerifyState::Present(VerifyState::Verified)
    ||| encrypted_only && !encrypted
}

/// Whether a snapshot is left out because only verified or only encrypted ones
/// are wanted. It counts as encrypted if each of its files is.
pub fn ignore_not_verified_or_encrypted(
    verify: ReadVerifyState,
    crypt_modes: &Vec<CryptMode>,
    verified_only: bool,
    encrypted_only: bool,
) -> (r: bool)
    ensures
        r == ignored(verify, fully_encrypted(crypt_modes@), verified_only, encrypted_only),
{
    if verified_only {
        match verify {
            ReadVerifyState::Present(VerifyState::Verified) => {},
            _ => {
                return true;
            },
        }
    }
    if encrypted_only {
        if !crate::server::pull::decryption::all_encrypted(crypt_modes) {
            return true;
        }
    }
    false
}

/// Log line for a snapshot that was left out as not verified.
pub fn not_verified_line(snapshot: &str) -> (r: String)
    ensures
        r@ == "Snapshot "@ + snapshot@
            + " not verified but verified-only set, snapshot skipped"@,
{
    join3("Snapshot ", snapshot, " not verified but verified-only set, snapshot skipped")
}

/// What decides how a snapshot is pulled.
#[derive(Clone, Copy, Debug, PartialEq, Eq, Structural)]
pub struct SnapshotPull {
    /// The local snapshot was created for this pull.
    pub is_new: bool,
    /// The local snapshot failed its verification.
    pub corrupt: bool,
    /// Only verified snapshots are wanted.
    pub verified_only: bool,
    /// Only encrypted snapshots are wanted.
    pub encrypted_only: bool,
    /// The datastore keeps its contents in an object store.
    pub s3: bool,
}

/// What follows once the client log was looked after.
#[derive(Clone, Copy, Debug, PartialEq, Eq, Structural)]
pub enum AfterLog {
    /// The local snapshot is up to date.
    Unchanged,
    /// The snapshot was pulled.
    Pulled,
}

/// How far a snapshot has been pulled.
#[derive(Clone, Copy, Debug, PartialEq, Eq, Structural)]
pub enum SnapshotPhase {
    Start,
    Announcing,
    LoadingManifest,
    CheckingLocal,
    ReadingLocal,
    ParsingLocal,
    ParsingManifest,
    RemovingDir,
    Deciding,
    CheckingFile(usize),
    LoggingChanged(usize),
    PullingArchive(usize),
    WritingManifest,
    RenamingManifest,
    UploadingManifest,
    CheckingLog(AfterLog),
    DownloadingLog(AfterLog),
    CheckingLogAgain(AfterLog),
    UploadingLog(AfterLog),
    LoggingUnchanged,
    RemovingTmp,
    CleaningUp,
    Complete,
    Failed,
}

/// State of the pull of a snapshot.
#[derive(Clone, Copy, Debug, PartialEq, Eq, Structural)]
pub struct SnapshotState {
    pub phase: SnapshotPhase,
    /// Number of files that the manifest names.
    pub files: usize,
    /// The files are decrypted on the way.
    pub decrypt: bool,
    /// What was transferred.
    pub stats: SyncStats,
}

/// What the environment reports of the last action.
#[derive(Clone, Copy, Debug, PartialEq, Eq, Structural)]
pub enum SnapshotEvent {
    /// The action was done; there is nothing more to report.
    Finished,
    /// The manifest was loaded into its temporary file, or the source has none.
    Loaded { found: bool },
    /// Whether the file that was asked for exists.
    Exists(bool),
    /// Whether the local manifest has the contents of the loaded one.
    Compared { same: bool },
    /// The loaded manifest was read.
    Parsed { verify: ReadVerifyState, encrypted: bool, files: usize },
    /// Whether the files are decrypted, and whether the local snapshot is up to date.
    Decided { decrypt: bool, skip: bool },
    /// The local file is not there.
    FileMissing,
    /// The local file has the checksum and size that the manifest names.
    FileMatches,
    /// The local file differs from what the manifest says.
    FileChanged,
    /// The archive was pulled.
    Pulled(SyncStats),
    /// The action failed.
    Failed,
}

/// What the environment has to do next.
#[derive(Clone, Copy, Debug, PartialEq, Eq, Structural)]
pub enum SnapshotAction {
    /// Log that the pull starts.
    LogStart,
    /// Load the manifest of the source into the temporary file.
    LoadManifest,
    /// See whether there is a local manifest.
    CheckLocalManifest,
    /// Read the local manifest and compare it to the loaded one.
    CompareManifests,
    /// Parse the local manifest.
    ParseLocalManifest,
    /// Parse the loaded manifest.
    ParseManifest,
    /// Remove the directory of the snapshot.
    RemoveDir,
    /// Decide whether the files are decrypted.
    DecideDecryption,
    /// Check the local file of this index against the manifest.
    CheckFile(usize),
    /// Log that the local file differs.
    LogChanged(usize),
    /// Pull the archive of this index.
    PullArchive(usize),
    /// Write the manifest of the decrypted snapshot into the temporary file.
    WriteManifest,
    /// Rename the temporary manifest into place.
    RenameManifest,
    /// Upload the manifest to the object store.
    UploadManifest,
    /// See whether there is a local client log.
    CheckLog,
    /// Try to download the client log.
    DownloadLog,
    /// Upload the client log to the object store.
    UploadLog,
    /// Log that nothing changed.
    LogUnchanged,
    /// Remove the temporary manifest; it does no harm if that fails.
    RemoveTmpManifest,
    /// Remove the files that the manifest does not name.
    CleanupUnreferenced,
    /// The pull is complete.
    Complete(SyncStats),
    /// Give up.
    Abort,
}

/// State at the start of a pull.
pub open spec fn snapshot_start() -> SnapshotState {
    SnapshotState {
        phase: SnapshotPhase::Start,
        files: 0,
        decrypt: false,
        stats: SyncStats::zero(),
    }
}

/// The state with another phase.
pub open spec fn at(state: SnapshotState, phase: SnapshotPhase) -> SnapshotState {
    SnapshotState { phase, ..state }
}

/// What follows once all files before `i` are in place.
pub open spec fn next_file(pull: SnapshotPull, state: SnapshotState, i: usize) -> (
    SnapshotState,
    SnapshotAction,
) {
    if i < state.files {
        if pull.corrupt {
            (at(state, SnapshotPhase::PullingArchive(i)), SnapshotAction::PullArchive(i))
        } else {
            (at(state, SnapshotPhase::CheckingFile(i)), SnapshotAction::CheckFile(i))
        }
    } else if state.decrypt {
        (at(state, SnapshotPhase::WritingManifest), SnapshotAction::WriteManifest)
    } else {
        (at(state, SnapshotPhase::RenamingManifest), SnapshotAction::RenameManifest)
    }
}

/// What follows once the client log was looked after.
pub open spec fn log_done(state: SnapshotState, after: AfterLog) -> (SnapshotState, SnapshotAction) {
    match after {
        AfterLog::Unchanged => (
            at(state, SnapshotPhase::LoggingUnchanged),
            SnapshotAction::LogUnchanged,
        ),
        AfterLog::Pulled => (
            at(state, SnapshotPhase::CleaningUp),
            SnapshotAction::CleanupUnreferenced,
        ),
    }
}

/// The end of a pull.
pub open spec fn complete(state: SnapshotState) -> (SnapshotState, SnapshotAction) {
    (at(state, SnapshotPhase::Complete), SnapshotAction::Complete(state.stats))
}

/// Steps up to the decision what to do with the loaded manifest.
pub open spec fn manifest_next(pull: SnapshotPull, state: SnapshotState, event: SnapshotEvent) -> (
    SnapshotState,
    SnapshotAction,
) {
    match (state.phase, event) {
        (SnapshotPhase::Start, SnapshotEvent::Finished) => (
            at(state, SnapshotPhase::Announcing),
            SnapshotAction::LogStart,
        ),
        (SnapshotPhase::Announcing, SnapshotEvent::Finished) => (
            at(state, SnapshotPhase::LoadingManifest),
            SnapshotAction::LoadManifest,
        ),
        (SnapshotPhase::LoadingManifest, SnapshotEvent::Loaded { found }) => if !found {
            complete(state)
        } else if pull.corrupt {
            (at(state, SnapshotPhase::ParsingManifest), SnapshotAction::ParseManifest)
        } else {
            (at(state, SnapshotPhase::CheckingLocal), SnapshotAction::CheckLocalManifest)
        },
        (SnapshotPhase::CheckingLocal, SnapshotEvent::Exists(exists)) => if exists {
            (at(state, SnapshotPhase::ReadingLocal), SnapshotAction::CompareManifests)
        } else {
            (at(state, SnapshotPhase::ParsingManifest), SnapshotAction::ParseManifest)
        },
        (SnapshotPhase::ReadingLocal, SnapshotEvent::Compared { same }) => if same {
            (at(state, SnapshotPhase::CheckingLog(AfterLog::Unchanged)), SnapshotAction::CheckLog)
        } else {
            (at(state, SnapshotPhase::ParsingLocal), SnapshotAction::ParseLocalManifest)
        },
        (SnapshotPhase::ParsingLocal, SnapshotEvent::Finished) => (
            at(state, SnapshotPhase::ParsingManifest),
            SnapshotAction::ParseManifest,
        ),
        (SnapshotPhase::ParsingManifest, SnapshotEvent::Parsed { verify, encrypted, files }) =>
            if ignored(verify, encrypted, pull.verified_only, pull.encrypted_only) {
                if pull.is_new {
                    (at(state, SnapshotPhase::RemovingDir), SnapshotAction::RemoveDir)
                } else {
                    complete(state)
                }
            } else {
                (
                    SnapshotState { phase: SnapshotPhase::Deciding, files, ..state },
                    SnapshotAction::DecideDecryption,
                )
            },
        (SnapshotPhase::RemovingDir, SnapshotEvent::Finished) => complete(state),
        (SnapshotPhase::Deciding, SnapshotEvent::Decided { decrypt, skip }) => if skip {
            (at(state, SnapshotPhase::CheckingLog(AfterLog::Unchanged)), SnapshotAction::CheckLog)
        } else {
            next_file(pull, SnapshotState { decrypt, ..state }, 0)
        },
        _ => (at(state, SnapshotPhase::Failed), SnapshotAction::Abort),
    }
}

/// Steps that deal with the files that the manifest names.
pub open spec fn file_next(pull: SnapshotPull, state: SnapshotState, event: SnapshotEvent) -> (
    SnapshotState,
    SnapshotAction,
) {
    match (state.phase, event) {
        (SnapshotPhase::CheckingFile(i), SnapshotEvent::FileMissing) => (
            at(state, SnapshotPhase::PullingArchive(i)),
            SnapshotAction::PullArchive(i),
        ),
        (SnapshotPhase::CheckingFile(i), SnapshotEvent::FileMatches) => next_file(
            pull,
            state,
            (i + 1) as usize,
        ),
        (SnapshotPhase::CheckingFile(i), SnapshotEvent::FileChanged) => (
            at(state, SnapshotPhase::LoggingChanged(i)),
            SnapshotAction::LogChanged(i),
        ),
        (SnapshotPhase::LoggingChanged(i), SnapshotEvent::Finished) => (
            at(state, SnapshotPhase::PullingArchive(i)),
            SnapshotAction::PullArchive(i),
        ),
        (SnapshotPhase::PullingArchive(i), SnapshotEvent::Pulled(stats)) => next_file(
            pull,
            SnapshotState { stats: state.stats.plus(stats), ..state },
            (i + 1) as usize,
        ),
        _ => (at(state, SnapshotPhase::Failed), SnapshotAction::Abort),
    }
}

/// Steps that put the manifest in place and look after the client log.
pub open spec fn finish_next(pull: SnapshotPull, state: SnapshotState, event: SnapshotEvent) -> (
    SnapshotState,
    SnapshotAction,
) {
    match (state.phase, event) {
        (SnapshotPhase::WritingManifest, SnapshotEvent::Finished) => (
            at(state, SnapshotPhase::RenamingManifest),
            SnapshotAction::RenameManifest,
        ),
        (SnapshotPhase::RenamingManifest, SnapshotEvent::Finished) => if pull.s3 {
            (at(state, SnapshotPhase::UploadingManifest), SnapshotAction::UploadManifest)
        } else {
            (at(state, SnapshotPhase::CheckingLog(AfterLog::Pulled)), SnapshotAction::CheckLog)
        },
        (SnapshotPhase::UploadingManifest, SnapshotEvent::Finished) => (
            at(state, SnapshotPhase::CheckingLog(AfterLog::Pulled)),
            SnapshotAction::CheckLog,
        ),
        (SnapshotPhase::CheckingLog(after), SnapshotEvent::Exists(exists)) => if exists {
            log_done(state, after)
        } else {
            (at(state, SnapshotPhase::DownloadingLog(after)), SnapshotAction::DownloadLog)
        },
        (SnapshotPhase::DownloadingLog(after), SnapshotEvent::Finished) => (
            at(state, SnapshotPhase::CheckingLogAgain(after)),
            SnapshotAction::CheckLog,
        ),
        (SnapshotPhase::CheckingLogAgain(after), SnapshotEvent::Exists(exists)) => if exists
            && pull.s3 {
            (at(state, SnapshotPhase::UploadingLog(after)), SnapshotAction::UploadLog)
        } else {
            log_done(state, after)
        },
        (SnapshotPhase::UploadingLog(after), SnapshotEvent::Finished) => log_done(state, after),
        (SnapshotPhase::LoggingUnchanged, SnapshotEvent::Finished) => (
            at(state, SnapshotPhase::RemovingTmp),
            SnapshotAction::RemoveTmpManifest,
        ),
        (SnapshotPhase::RemovingTmp, SnapshotEvent::Finished) => complete(state),
        (SnapshotPhase::RemovingTmp, SnapshotEvent::Failed) => complete(state),
        (SnapshotPhase::CleaningUp, SnapshotEvent::Finished) => complete(state),
        _ => (at(state, SnapshotPhase::Failed), SnapshotAction::Abort),
    }
}

/// Phases that deal with the files that the manifest names.
pub open spec fn in_files(phase: SnapshotPhase) -> bool {
    phase is CheckingFile || phase is LoggingChanged || phase is PullingArchive
}

/// Phases up to the decision what to do with the loaded manifest.
pub open spec fn in_manifest(phase: SnapshotPhase) -> bool {
    match phase {
        SnapshotPhase::Start
        | SnapshotPhase::Announcing
        | SnapshotPhase::LoadingManifest
        | SnapshotPhase::CheckingLocal
        | SnapshotPhase::ReadingLocal
        | SnapshotPhase::ParsingLocal
        | SnapshotPhase::ParsingManifest
        | SnapshotPhase::RemovingDir
        | SnapshotPhase::Deciding => true,
        _ => false,
    }
}

/// The next state and action.
pub open spec fn snapshot_next(pull: SnapshotPull, state: SnapshotState, event: SnapshotEvent) -> (
    SnapshotState,
    SnapshotAction,
) {
    if in_manifest(state.phase) {
        manifest_next(pull, state, event)
    } else if in_files(state.phase) {
        file_next(pull, state, event)
    } else {
        finish_next(pull, state, event)
    }
}

/// The index of the file that a phase deals with lies below the number of files.
pub open spec fn index_ok(state: SnapshotState) -> bool {
    match state.phase {
        SnapshotPhase::CheckingFile(i)
        | SnapshotPhase::LoggingChanged(i)
        | SnapshotPhase::PullingArchive(i) => i < state.files,
        _ => true,
    }
}

/// Whether the statistics of `event` can be added to those of `state`.
pub open spec fn stats_fit(state: SnapshotState, event: SnapshotEvent) -> bool {
    match event {
        SnapshotEvent::Pulled(stats) => state.stats.fits(stats),
        _ => true,
    }
}

impl SnapshotState {
    /// State at the start of a pull.
    pub fn new() -> (r: SnapshotState)
        ensures
            r == snapshot_start(),
            index_ok(r),
    {
        SnapshotState {
            phase: SnapshotPhase::Start,
            files: 0,
            decrypt: false,
            stats: SyncStats::default(),
        }
    }

    fn at(self, phase: SnapshotPhase) -> (r: SnapshotState)
        ensures
            r == at(self, phase),
    {
        SnapshotState { phase, files: self.files, decrypt: self.decrypt, stats: self.stats }
    }

    fn complete(self) -> (r: (SnapshotState, SnapshotAction))
        ensures
            r == complete(self),
    {
        (self.at(SnapshotPhase::Complete), SnapshotAction::Complete(self.stats))
    }

    fn fail(self) -> (r: (SnapshotState, SnapshotAction))
        ensures
            r == (at(self, SnapshotPhase::Failed), SnapshotAction::Abort),
    {
        (self.at(SnapshotPhase::Failed), SnapshotAction::Abort)
    }

    fn log_done(self, after: AfterLog) -> (r: (SnapshotState, SnapshotAction))
        ensures
            r == log_done(self, after),
    {
        match after {
            AfterLog::Unchanged => (
                self.at(SnapshotPhase::LoggingUnchanged),
                SnapshotAction::LogUnchanged,
            ),
            AfterLog::Pulled => (
                self.at(SnapshotPhase::CleaningUp),
                SnapshotAction::CleanupUnreferenced,
            ),
        }
    }
}

impl SnapshotPull {
    fn next_file(&self, state: SnapshotState, i: usize) -> (r: (SnapshotState, SnapshotAction))
        ensures
            r == next_file(*self, state, i),
    {
        if i < state.files {
            if self.corrupt {
                (state.at(SnapshotPhase::PullingArchive(i)), SnapshotAction::PullArchive(i))
            } else {
                (state.at(SnapshotPhase::CheckingFile(i)), SnapshotAction::CheckFile(i))
            }
        } else if state.decrypt {
            (state.at(SnapshotPhase::WritingManifest), SnapshotAction::WriteManifest)
        } else {
            (state.at(SnapshotPhase::RenamingManifest), SnapshotAction::RenameManifest)
        }
    }

    fn manifest_step(&self, state: SnapshotState, event: SnapshotEvent) -> (r: (
        SnapshotState,
        SnapshotAction,
    ))
        ensures
            r == manifest_next(*self, state, event),
    {
        match (state.phase, event) {
            (SnapshotPhase::Start, SnapshotEvent::Finished) => (
                state.at(SnapshotPhase::Announcing),
                SnapshotAction::LogStart,
            ),
            (SnapshotPhase::Announcing, SnapshotEvent::Finished) => (
                state.at(SnapshotPhase::LoadingManifest),
                SnapshotAction::LoadManifest,
            ),
            (SnapshotPhase::LoadingManifest, SnapshotEvent::Loaded { found }) => {
                if !found {
                    state.complete()
                } else if self.corrupt {
                    (state.at(SnapshotPhase::ParsingManifest), SnapshotAction::ParseManifest)
                } else {
                    (state.at(SnapshotPhase::CheckingLocal), SnapshotAction::CheckLocalManifest)
                }
            },
            (SnapshotPhase::CheckingLocal, SnapshotEvent::Exists(exists)) => {
                if exists {
                    (state.at(SnapshotPhase::ReadingLocal), SnapshotAction::CompareManifests)
                } else {
                    (state.at(SnapshotPhase::ParsingManifest), SnapshotAction::ParseManifest)
                }
            },
            (SnapshotPhase::ReadingLocal, SnapshotEvent::Compared { same }) => {
                if same {
                    (
                        state.at(SnapshotPhase::CheckingLog(AfterLog::Unchanged)),
                        SnapshotAction::CheckLog,
                    )
                } else {
                    (state.at(SnapshotPhase::ParsingLocal), SnapshotAction::ParseLocalManifest)
                }
            },
            (SnapshotPhase::ParsingLocal, SnapshotEvent::Finished) => (
                state.at(SnapshotPhase::ParsingManifest),
                SnapshotAction::ParseManifest,
            ),
            (
                SnapshotPhase::ParsingManifest,
                SnapshotEvent::Parsed { verify, encrypted, files },
            ) => {
                let not_verified = match verify {
                    ReadVerifyState::Present(VerifyState::Verified) => false,
                    _ => true,
                };
                if (self.verified_only && not_verified) || (self.encrypted_only && !encrypted) {
                    if self.is_new {
                        // safe to remove as locked by caller
                        (state.at(SnapshotPhase::RemovingDir), SnapshotAction::RemoveDir)
                    } else {
                        state.complete()
                    }
                } else {
                    let state = SnapshotState {
                        phase: SnapshotPhase::Deciding,
                        files,
                        decrypt: state.decrypt,
                        stats: state.stats,
                    };
                    (state, SnapshotAction::DecideDecryption)
                }
            },
            (SnapshotPhase::RemovingDir, SnapshotEvent::Finished) => state.complete(),
            (SnapshotPhase::Deciding, SnapshotEvent::Decided { decrypt, skip }) => {
                if skip {
                    (
                        state.at(SnapshotPhase::CheckingLog(AfterLog::Unchanged)),
                        SnapshotAction::CheckLog,
                    )
                } else {
                    let state = SnapshotState {
                        phase: state.phase,
                        files: state.files,
                        decrypt,
                        stats: state.stats,
                    };
                    self.next_file(state, 0)
                }
            },
            _ => state.fail(),
        }
    }

    fn file_step(&self, state: SnapshotState, event: SnapshotEvent) -> (r: (
        SnapshotState,
        SnapshotAction,
    ))
        requires
            index_ok(state),
            stats_fit(state, event),
        ensures
            r == file_next(*self, state, event),
    {
        match (state.phase, event) {
            (SnapshotPhase::CheckingFile(i), SnapshotEvent::FileMissing) => (
                state.at(SnapshotPhase::PullingArchive(i)),
                SnapshotAction::PullArchive(i),
            ),
            (SnapshotPhase::CheckingFile(i), SnapshotEvent::FileMatches) => self.next_file(
                state,
                i + 1,
            ),
            (SnapshotPhase::CheckingFile(i), SnapshotEvent::FileChanged) => (
                state.at(SnapshotPhase::LoggingChanged(i)),
                SnapshotAction::LogChanged(i),
            ),
            (SnapshotPhase::LoggingChanged(i), SnapshotEvent::Finished) => (
                state.at(SnapshotPhase::PullingArchive(i)),
                SnapshotAction::PullArchive(i),
            ),
            (SnapshotPhase::PullingArchive(i), SnapshotEvent::Pulled(stats)) => {
                let mut sum = state.stats;
                sum.add(stats);
                let state = SnapshotState {
                    phase: state.phase,
                    files: state.files,
                    decrypt: state.decrypt,
                    stats: sum,
                };
                self.next_file(state, i + 1)
            },
            _ => state.fail(),
        }
    }

    fn finish_step(&self, state: SnapshotState, event: SnapshotEvent) -> (r: (
        SnapshotState,
        SnapshotAction,
    ))
        ensures
            r == finish_next(*self, state, event),
    {
        match (state.phase, event) {
            (SnapshotPhase::WritingManifest, SnapshotEvent::Finished) => (
                state.at(SnapshotPhase::RenamingManifest),
                SnapshotAction::RenameManifest,
            ),
            (SnapshotPhase::RenamingManifest, SnapshotEvent::Finished) => {
                if self.s3 {
                    (state.at(SnapshotPhase::UploadingManifest), SnapshotAction::UploadManifest)
                } else {
                    (
                        state.at(SnapshotPhase::CheckingLog(AfterLog::Pulled)),
                        SnapshotAction::CheckLog,
                    )
                }
            },
            (SnapshotPhase::UploadingManifest, SnapshotEvent::Finished) => (
                state.at(SnapshotPhase::CheckingLog(AfterLog::Pulled)),
                SnapshotAction::CheckLog,
            ),
            (SnapshotPhase::CheckingLog(after), SnapshotEvent::Exists(exists)) => {
                if exists {
                    state.log_done(after)
                } else {
                    (state.at(SnapshotPhase::DownloadingLog(after)), SnapshotAction::DownloadLog)
                }
            },
            (SnapshotPhase::DownloadingLog(after), SnapshotEvent::Finished) => (
                state.at(SnapshotPhase::CheckingLogAgain(after)),
                SnapshotAction::CheckLog,
            ),
            (SnapshotPhase::CheckingLogAgain(after), SnapshotEvent::Exists(exists)) => {
                if exists && self.s3 {
                    (state.at(SnapshotPhase::UploadingLog(after)), SnapshotAction::UploadLog)
                } else {
                    state.log_done(after)
                }
            },
            (SnapshotPhase::UploadingLog(after), SnapshotEvent::Finished) => state.log_done(after),
            (SnapshotPhase::LoggingUnchanged, SnapshotEvent::Finished) => (
                state.at(SnapshotPhase::RemovingTmp),
                SnapshotAction::RemoveTmpManifest,
            ),
            (SnapshotPhase::RemovingTmp, SnapshotEvent::Finished) => state.complete(),
            (SnapshotPhase::RemovingTmp, SnapshotEvent::Failed) => state.complete(),
            (SnapshotPhase::CleaningUp, SnapshotEvent::Finished) => state.complete(),
            _ => state.fail(),
        }
    }

    /// Moves on after `event` and says what to do next.
    pub fn step(&self, state: SnapshotState, event: SnapshotEvent) -> (r: (
        SnapshotState,
        SnapshotAction,
    ))
        requires
            index_ok(state),
            stats_fit(state, event),
        ensures
            r == snapshot_next(*self, state, event),
            index_ok(r.0),
    {
        match state.phase {
            SnapshotPhase::Start
            | SnapshotPhase::Announcing
            | SnapshotPhase::LoadingManifest
            | SnapshotPhase::CheckingLocal
            | SnapshotPhase::ReadingLocal
            | SnapshotPhase::ParsingLocal
            | SnapshotPhase::ParsingManifest
            | SnapshotPhase::RemovingDir
            | SnapshotPhase::Deciding => self.manifest_step(state, event),
            SnapshotPhase::CheckingFile(_)
            | SnapshotPhase::LoggingChanged(_)
            | SnapshotPhase::PullingArchive(_) => self.file_step(state, event),
            _ => self.finish_step(state, event),
        }
    }

    /// Words for the line of [`SnapshotAction::LogStart`].
    pub open spec fn start_text(self, prefix: Seq<char>) -> Seq<char> {
        if self.is_new {
            prefix + ": start sync"@
        } else if self.corrupt {
            "re-sync snapshot "@ + prefix + " due to corruption"@
        } else {
            "re-sync snapshot "@ + prefix
        }
    }

    /// The line of [`SnapshotAction::LogStart`].
    pub fn start_line(&self, prefix: &str) -> (r: String)
        ensures
            r@ == self.start_text(prefix@),
    {
        if self.is_new {
            join2(prefix, ": start sync")
        } else if self.corrupt {
            join3("re-sync snapshot ", prefix, " due to corruption")
        } else {
            join2("re-sync snapshot ", prefix)
        }
    }
}

/// The line of [`SnapshotAction::LogUnchanged`].
pub fn unchanged_line(prefix: &str) -> (r: String)
    ensures
        r@ == prefix@ + ": no data changes"@,
{
    join2(prefix, ": no data changes")
}

/// What follows the pull of a snapshot.
#[derive(Clone, Copy, Debug, PartialEq, Eq, Structural)]
pub enum SnapshotEnd {
    /// Remove the snapshot again, with `force` without taking its locks.
    Remove { force: bool },
    /// Log that the snapshot is synced.
    LogDone,
    /// Nothing.
    Leave,
}

/// What follows the pull of a snapshot: one that was created for the pull is
/// removed on error, by force, any other is kept in any case.
pub open spec fn snapshot_end(is_new: bool, ok: bool) -> SnapshotEnd {
    if !is_new {
        SnapshotEnd::Leave
    } else if ok {
        SnapshotEnd::LogDone
    } else {
        SnapshotEnd::Remove { force: true }
    }
}

/// What follows the pull of a snapshot.
pub fn pull_snapshot_from(is_new: bool, ok: bool) -> (r: SnapshotEnd)
    ensures
        r == snapshot_end(is_new, ok),
{
    if is_new {
        if ok {
            SnapshotEnd::LogDone
        } else {
            SnapshotEnd::Remove { force: true }
        }
    } else {
        SnapshotEnd::Leave
    }
}

/// Whether a line is logged at the end: on success, or if the snapshot could not be
/// removed again.
pub open spec fn end_is_logged(end: SnapshotEnd, removed: bool) -> bool {
    match end {
        SnapshotEnd::Remove { force: _ } => !removed,
        SnapshotEnd::LogDone => true,
        SnapshotEnd::Leave => false,
    }
}

/// What the pull of a snapshot has come to, from the pull itself, from the removal and
/// from the line that was logged, as far as `end` asks for them: what the pull came
/// to, even if the snapshot could not be removed again, unless the line could not be
/// logged.
pub fn snapshot_result<T, E>(
    pull: Result<T, E>,
    end: SnapshotEnd,
    removed: Result<(), E>,
    logged: Result<(), E>,
) -> (r: Result<T, E>)
    ensures
        r == (match logged {
            Err(err) if end_is_logged(end, removed is Ok) => Err::<T, E>(err),
            _ => pull,
        }),
{
    let has_line: bool = match end {
        SnapshotEnd::Remove { force: _ } => removed.is_err(),
        SnapshotEnd::LogDone => true,
        SnapshotEnd::Leave => false,
    };
    match logged {
        Err(err) if has_line => Err(err),
        _ => pull,
    }
}

/// A snapshot that was created for a pull is removed by force if the pull fails, and
/// the error is reported whether or not it could be removed, given that the failure
/// to remove it could be logged. One that was there before is never removed.
pub proof fn failed_pull_is_cleaned_up_and_reported(is_new: bool, removed: bool)
    ensures
        snapshot_end(is_new, false) == (if is_new {
            SnapshotEnd::Remove { force: true }
        } else {
            SnapshotEnd::Leave
        }),
        is_new && removed ==> !end_is_logged(snapshot_end(is_new, false), removed),
        !is_new ==> forall|ok: bool| #[trigger] snapshot_end(is_new, ok) == SnapshotEnd::Leave,
{
}

/// Log line for [`SnapshotEnd::LogDone`].
pub fn sync_done_line(prefix: &str) -> (r: String)
    ensures
        r@ == prefix@ + ": sync done"@,
{
    join2(prefix, ": sync done")
}

/// Log line for a snapshot that could not be removed again.
pub fn cleanup_error_line(prefix: &str, err: &str) -> (r: String)
    ensures
        r@ == prefix@ + ": cleanup error - "@ + err@,
{
    join3(prefix, ": cleanup error - ", err)
}

/// The state after a list of events, from the start.
pub open spec fn snapshot_run(pull: SnapshotPull, events: Seq<SnapshotEvent>) -> SnapshotState
    decreases events.len(),
{
    if events.len() == 0 {
        snapshot_start()
    } else {
        snapshot_next(pull, snapshot_run(pull, events.drop_last()), events.last()).0
    }
}

/// The last action of a list of events, from the start.
pub open spec fn snapshot_last_action(
    pull: SnapshotPull,
    events: Seq<SnapshotEvent>,
) -> SnapshotAction {
    snapshot_next(pull, snapshot_run(pull, events.drop_last()), events.last()).1
}

/// The file that an event settles: it matched, or it was pulled.
pub open spec fn settles(state: SnapshotState, event: SnapshotEvent) -> Option<usize> {
    match (state.phase, event) {
        (SnapshotPhase::CheckingFile(i), SnapshotEvent::FileMatches) => Some(i),
        (SnapshotPhase::PullingArchive(i), SnapshotEvent::Pulled(_)) => Some(i),
        _ => None,
    }
}

/// The files that matched or were pulled, in order.
pub open spec fn settled(pull: SnapshotPull, events: Seq<SnapshotEvent>) -> Seq<usize>
    decreases events.len(),
{
    if events.len() == 0 {
        seq![]
    } else {
        let before = settled(pull, events.drop_last());
        match settles(snapshot_run(pull, events.drop_last()), events.last()) {
            Some(i) => before.push(i),
            None => before,
        }
    }
}

/// The sum of what the pulled archives transferred.
pub open spec fn pulled_stats(pull: SnapshotPull, events: Seq<SnapshotEvent>) -> SyncStats
    decreases events.len(),
{
    if events.len() == 0 {
        SyncStats::zero()
    } else {
        let before = pulled_stats(pull, events.drop_last());
        match (snapshot_run(pull, events.drop_last()).phase, events.last()) {
            (SnapshotPhase::PullingArchive(_), SnapshotEvent::Pulled(stats)) => before.plus(stats),
            _ => before,
        }
    }
}

/// The numbers below `n`, in order.
pub open spec fn first_indices(n: nat) -> Seq<usize> {
    Seq::new(n, |i: int| i as usize)
}

/// How many files a phase has behind it.
pub open spec fn files_behind(state: SnapshotState) -> nat {
    match state.phase {
        SnapshotPhase::CheckingFile(i)
        | SnapshotPhase::LoggingChanged(i)
        | SnapshotPhase::PullingArchive(i) => i as nat,
        SnapshotPhase::WritingManifest
        | SnapshotPhase::RenamingManifest
        | SnapshotPhase::UploadingManifest
        | SnapshotPhase::CheckingLog(AfterLog::Pulled)
        | SnapshotPhase::DownloadingLog(AfterLog::Pulled)
        | SnapshotPhase::CheckingLogAgain(AfterLog::Pulled)
        | SnapshotPhase::UploadingLog(AfterLog::Pulled)
        | SnapshotPhase::CleaningUp => state.files as nat,
        _ => 0,
    }
}

/// Phases whose files are counted by `files_behind`.
pub open spec fn counts_files(phase: SnapshotPhase) -> bool {
    phase != SnapshotPhase::Complete && phase != SnapshotPhase::Failed
}

proof fn files_are_settled_in_order(pull: SnapshotPull, events: Seq<SnapshotEvent>)
    ensures
        ({
            let state = snapshot_run(pull, events);
            &&& index_ok(state)
            &&& counts_files(state.phase) ==> settled(pull, events) == first_indices(
                files_behind(state),
            )
            &&& state.stats == pulled_stats(pull, events)
        }),
    decreases events.len(),
{
    if events.len() > 0 {
        let init = events.drop_last();
        files_are_settled_in_order(pull, init);
        let before = snapshot_run(pull, init);
        let state = snapshot_run(pull, events);
        if counts_files(state.phase) {
            match settles(before, events.last()) {
                Some(i) => {
                    assert(first_indices(i as nat).push(i) =~= first_indices((i + 1) as nat));
                },
                None => {
                    assert(files_behind(state) == files_behind(before));
                },
            }
        }
    } else {
        assert(settled(pull, events) =~= first_indices(0));
    }
}

/// The manifest takes its place only after every file that it names was found to
/// match or was pulled, each once and in order. The same holds before files that
/// the manifest does not name are removed.
pub proof fn manifest_follows_all_files(pull: SnapshotPull, events: Seq<SnapshotEvent>)
    requires
        events.len() > 0,
        match snapshot_last_action(pull, events) {
            SnapshotAction::WriteManifest
            | SnapshotAction::RenameManifest
            | SnapshotAction::UploadManifest
            | SnapshotAction::CleanupUnreferenced => true,
            _ => false,
        },
    ensures
        settled(pull, events) == first_indices(snapshot_run(pull, events).files as nat),
{
    files_are_settled_in_order(pull, events);
    files_are_settled_in_order(pull, events.drop_last());
}

/// A complete pull reports the sum of what its archives transferred.
pub proof fn complete_reports_the_sum(
    pull: SnapshotPull,
    events: Seq<SnapshotEvent>,
    stats: SyncStats,
)
    requires
        events.len() > 0,
        snapshot_last_action(pull, events) == SnapshotAction::Complete(stats),
    ensures
        stats == pulled_stats(pull, events),
{
    files_are_settled_in_order(pull, events);
    files_are_settled_in_order(pull, events.drop_last());
}

/// A pull removes the directory of a snapshot only if it was created for that pull.
pub proof fn existing_snapshot_is_not_removed(
    pull: SnapshotPull,
    state: SnapshotState,
    event: SnapshotEvent,
)
    requires
        snapshot_next(pull, state, event).1 == SnapshotAction::RemoveDir,
    ensures
        pull.is_new,
{
}

/// If the local manifest has the contents of the loaded one, no file is touched:
/// all that follows is the client log and the removal of the temporary manifest.
pub proof fn unchanged_snapshot_is_left_alone(
    pull: SnapshotPull,
    state: SnapshotState,
    event: SnapshotEvent,
)
    requires
        unchanged_phase(state.phase),
    ensures
        ({
            let next = snapshot_next(pull, state, event);
            &&& unchanged_phase(next.0.phase) || next.0.phase == SnapshotPhase::Complete
                || next.0.phase == SnapshotPhase::Failed
            &&& match next.1 {
                SnapshotAction::CheckLog
                | SnapshotAction::DownloadLog
                | SnapshotAction::UploadLog
                | SnapshotAction::LogUnchanged
                | SnapshotAction::RemoveTmpManifest
                | SnapshotAction::Complete(_)
                | SnapshotAction::Abort => true,
                _ => false,
            }
        }),
{
}

/// Phases of a pull that found the local snapshot up to date.
pub open spec fn unchanged_phase(phase: SnapshotPhase) -> bool {
    match phase {
        SnapshotPhase::CheckingLog(AfterLog::Unchanged)
        | SnapshotPhase::DownloadingLog(AfterLog::Unchanged)
        | SnapshotPhase::CheckingLogAgain(AfterLog::Unchanged)
        | SnapshotPhase::UploadingLog(AfterLog::Unchanged)
        | SnapshotPhase::LoggingUnchanged
        | SnapshotPhase::RemovingTmp => true,
        _ => false,
    }
}

/// A corrupt snapshot is pulled in full: neither its manifest nor any of its
/// files is trusted.
pub proof fn corrupt_snapshot_is_pulled_in_full(pull: SnapshotPull, events: Seq<SnapshotEvent>)
    requires
        pull.corrupt,
        events.len() > 0,
    ensures
        match snapshot_last_action(pull, events) {
            SnapshotAction::CheckLocalManifest
            | SnapshotAction::CompareManifests
            | SnapshotAction::ParseLocalManifest
            | SnapshotAction::CheckFile(_)
            | SnapshotAction::LogChanged(_) => false,
            _ => true,
        },
{
    corrupt_phases(pull, events.drop_last());
}

proof fn corrupt_phases(pull: SnapshotPull, events: Seq<SnapshotEvent>)
    requires
        pull.corrupt,
    ensures
        match snapshot_run(pull, events).phase {
            SnapshotPhase::CheckingLocal
            | SnapshotPhase::ReadingLocal
            | SnapshotPhase::ParsingLocal
            | SnapshotPhase::CheckingFile(_)
            | SnapshotPhase::LoggingChanged(_) => false,
            _ => true,
        },
    decreases events.len(),
{
    if events.len() > 0 {
        corrupt_phases(pull, events.drop_last());
    }
}

/// Nothing follows a failure.
pub proof fn snapshot_failure_is_final(
    pull: SnapshotPull,
    state: SnapshotState,
    event: SnapshotEvent,
)
    requires
        state.phase == SnapshotPhase::Failed,
    ensures
        snapshot_next(pull, state, event) == (state, SnapshotAction::Abort),
{
}

// ---- what is asked for, answer by answer ----

/// What was asked for last, after a list of answers; nothing yet at the start.
pub open spec fn asked(pull: SnapshotPull, events: Seq<SnapshotEvent>) -> Option<SnapshotAction> {
    if events.len() == 0 {
        None
    } else {
        Some(snapshot_last_action(pull, events))
    }
}

/// Whether an action was asked for and reported as finished.
pub open spec fn finished(
    pull: SnapshotPull,
    events: Seq<SnapshotEvent>,
    action: SnapshotAction,
) -> bool
    decreases events.len(),
{
    events.len() > 0 && (finished(pull, events.drop_last(), action) || (asked(
        pull,
        events.drop_last(),
    ) == Some(action) && events.last() == SnapshotEvent::Finished))
}

/// Number of files of the manifest that was read last.
pub open spec fn files_read(events: Seq<SnapshotEvent>) -> usize
    decreases events.len(),
{
    if events.len() == 0 {
        0
    } else {
        match events.last() {
            SnapshotEvent::Parsed { files, .. } => files,
            _ => files_read(events.drop_last()),
        }
    }
}

/// Whether it was decided last that files are decrypted.
pub open spec fn decrypts(events: Seq<SnapshotEvent>) -> bool
    decreases events.len(),
{
    if events.len() == 0 {
        false
    } else {
        match events.last() {
            SnapshotEvent::Decided { decrypt, .. } => decrypt,
            _ => decrypts(events.drop_last()),
        }
    }
}

/// What a phase waits for.
spec fn awaited(state: SnapshotState) -> SnapshotAction {
    match state.phase {
        SnapshotPhase::Start => SnapshotAction::LogStart,
        SnapshotPhase::Announcing => SnapshotAction::LogStart,
        SnapshotPhase::LoadingManifest => SnapshotAction::LoadManifest,
        SnapshotPhase::CheckingLocal => SnapshotAction::CheckLocalManifest,
        SnapshotPhase::ReadingLocal => SnapshotAction::CompareManifests,
        SnapshotPhase::ParsingLocal => SnapshotAction::ParseLocalManifest,
        SnapshotPhase::ParsingManifest => SnapshotAction::ParseManifest,
        SnapshotPhase::RemovingDir => SnapshotAction::RemoveDir,
        SnapshotPhase::Deciding => SnapshotAction::DecideDecryption,
        SnapshotPhase::CheckingFile(i) => SnapshotAction::CheckFile(i),
        SnapshotPhase::LoggingChanged(i) => SnapshotAction::LogChanged(i),
        SnapshotPhase::PullingArchive(i) => SnapshotAction::PullArchive(i),
        SnapshotPhase::WritingManifest => SnapshotAction::WriteManifest,
        SnapshotPhase::RenamingManifest => SnapshotAction::RenameManifest,
        SnapshotPhase::UploadingManifest => SnapshotAction::UploadManifest,
        SnapshotPhase::CheckingLog(_) => SnapshotAction::CheckLog,
        SnapshotPhase::DownloadingLog(_) => SnapshotAction::DownloadLog,
        SnapshotPhase::CheckingLogAgain(_) => SnapshotAction::CheckLog,
        SnapshotPhase::UploadingLog(_) => SnapshotAction::UploadLog,
        SnapshotPhase::LoggingUnchanged => SnapshotAction::LogUnchanged,
        SnapshotPhase::RemovingTmp => SnapshotAction::RemoveTmpManifest,
        SnapshotPhase::CleaningUp => SnapshotAction::CleanupUnreferenced,
        SnapshotPhase::Complete => SnapshotAction::Complete(state.stats),
        SnapshotPhase::Failed => SnapshotAction::Abort,
    }
}

proof fn step_asks_for_awaited(pull: SnapshotPull, state: SnapshotState, event: SnapshotEvent)
    ensures
        snapshot_next(pull, state, event).1 == awaited(snapshot_next(pull, state, event).0),
        snapshot_next(pull, state, event).0.phase != SnapshotPhase::Start,
{
    if in_manifest(state.phase) {
        assert(manifest_next(pull, state, event).1 == awaited(manifest_next(pull, state, event).0));
    } else if in_files(state.phase) {
        assert(file_next(pull, state, event).1 == awaited(file_next(pull, state, event).0));
    } else {
        assert(finish_next(pull, state, event).1 == awaited(finish_next(pull, state, event).0));
    }
}

proof fn run_asks_for_awaited(pull: SnapshotPull, events: Seq<SnapshotEvent>)
    ensures
        events.len() == 0 <==> snapshot_run(pull, events).phase == SnapshotPhase::Start,
        events.len() > 0 ==> asked(pull, events) == Some(awaited(snapshot_run(pull, events))),
{
    if events.len() > 0 {
        step_asks_for_awaited(pull, snapshot_run(pull, events.drop_last()), events.last());
    }
}

/// Phases of a pull that is past its manifest or its client log.
spec fn placed_phase(phase: SnapshotPhase) -> Option<bool> {
    match phase {
        SnapshotPhase::CheckingLog(after)
        | SnapshotPhase::DownloadingLog(after)
        | SnapshotPhase::CheckingLogAgain(after)
        | SnapshotPhase::UploadingLog(after) => Some(after == AfterLog::Pulled),
        SnapshotPhase::CleaningUp | SnapshotPhase::UploadingManifest => Some(true),
        SnapshotPhase::Complete | SnapshotPhase::Failed => None,
        _ => Some(false),
    }
}

spec fn fetched_phase(phase: SnapshotPhase) -> Option<bool> {
    match phase {
        SnapshotPhase::CheckingLogAgain(_) | SnapshotPhase::UploadingLog(_) => Some(true),
        SnapshotPhase::LoggingUnchanged
        | SnapshotPhase::RemovingTmp
        | SnapshotPhase::CleaningUp
        | SnapshotPhase::Complete
        | SnapshotPhase::Failed => None,
        _ => Some(false),
    }
}

proof fn step_moves_past(pull: SnapshotPull, state: SnapshotState, event: SnapshotEvent)
    ensures
        ({
            let next = snapshot_next(pull, state, event).0.phase;
            let done = event == SnapshotEvent::Finished;
            &&& placed_phase(next) is Some ==> placed_phase(state.phase) is Some && (placed_phase(
                next,
            )->0 == (placed_phase(state.phase)->0 || (state.phase == SnapshotPhase::RenamingManifest
                && done)))
            &&& fetched_phase(next) is Some ==> fetched_phase(state.phase) is Some && (
            fetched_phase(next)->0 == (fetched_phase(state.phase)->0 || (state.phase
                is DownloadingLog && done)))
        }),
{
    if in_manifest(state.phase) {
        assert(snapshot_next(pull, state, event) == manifest_next(pull, state, event));
    } else if in_files(state.phase) {
        assert(snapshot_next(pull, state, event) == file_next(pull, state, event));
    } else {
        assert(snapshot_next(pull, state, event) == finish_next(pull, state, event));
    }
}

proof fn run_moves_past(pull: SnapshotPull, events: Seq<SnapshotEvent>)
    ensures
        ({
            let phase = snapshot_run(pull, events).phase;
            &&& placed_phase(phase) is Some ==> placed_phase(phase)->0 == finished(
                pull,
                events,
                SnapshotAction::RenameManifest,
            )
            &&& fetched_phase(phase) is Some ==> fetched_phase(phase)->0 == finished(
                pull,
                events,
                SnapshotAction::DownloadLog,
            )
        }),
    decreases events.len(),
{
    if events.len() > 0 {
        let init = events.drop_last();
        run_moves_past(pull, init);
        run_asks_for_awaited(pull, init);
        step_moves_past(pull, snapshot_run(pull, init), events.last());
    }
}

/// Phases that know the number of files, and those that know whether they are decrypted.
spec fn knows_files(phase: SnapshotPhase) -> bool {
    in_files(phase) || phase == SnapshotPhase::Deciding || phase == SnapshotPhase::WritingManifest
}

proof fn run_knows_files(pull: SnapshotPull, events: Seq<SnapshotEvent>)
    ensures
        ({
            let state = snapshot_run(pull, events);
            &&& knows_files(state.phase) ==> state.files == files_read(events)
            &&& in_files(state.phase) ==> state.decrypt == decrypts(events)
        }),
    decreases events.len(),
{
    if events.len() > 0 {
        let init = events.drop_last();
        run_knows_files(pull, init);
        let state = snapshot_run(pull, init);
        if in_manifest(state.phase) {
            assert(snapshot_run(pull, events) == manifest_next(pull, state, events.last()).0);
        } else if in_files(state.phase) {
            assert(snapshot_run(pull, events) == file_next(pull, state, events.last()).0);
        } else {
            assert(snapshot_run(pull, events) == finish_next(pull, state, events.last()).0);
        }
    }
}

proof fn run_is_matched(pull: SnapshotPull, events: Seq<SnapshotEvent>)
    ensures
        events.len() == 0 <==> snapshot_run(pull, events).phase == SnapshotPhase::Start,
        events.len() > 0 ==> asked(pull, events) == Some(awaited(snapshot_run(pull, events))),
        placed_phase(snapshot_run(pull, events).phase) is Some ==> placed_phase(
            snapshot_run(pull, events).phase,
        )->0 == finished(pull, events, SnapshotAction::RenameManifest),
        fetched_phase(snapshot_run(pull, events).phase) is Some ==> fetched_phase(
            snapshot_run(pull, events).phase,
        )->0 == finished(pull, events, SnapshotAction::DownloadLog),
        knows_files(snapshot_run(pull, events).phase) ==> snapshot_run(pull, events).files
            == files_read(events),
        in_files(snapshot_run(pull, events).phase) ==> snapshot_run(pull, events).decrypt
            == decrypts(events),
        index_ok(snapshot_run(pull, events)),
{
    run_asks_for_awaited(pull, events);
    run_moves_past(pull, events);
    run_knows_files(pull, events);
    files_are_settled_in_order(pull, events);
}

/// What is asked for once the files before `i` are settled.
pub open spec fn file_or_manifest(pull: SnapshotPull, files: usize, decrypt: bool, i: int) -> SnapshotAction {
    if i >= files {
        if decrypt {
            SnapshotAction::WriteManifest
        } else {
            SnapshotAction::RenameManifest
        }
    } else if pull.corrupt {
        SnapshotAction::PullArchive(i as usize)
    } else {
        SnapshotAction::CheckFile(i as usize)
    }
}

/// How a pull gets from the announcement to a decision, whatever was answered before:
/// the manifest of the source is loaded first. One that is not there ends the pull. That
/// of a corrupt snapshot is read at once; else it is compared to a local one, if there
/// is, and only the same contents count as unchanged. A snapshot that is not wanted ends
/// the pull, and is removed if it is new. Whoever decides that it can be skipped has it
/// count as unchanged; else its files follow.
pub proof fn manifest_answers_are_followed(
    pull: SnapshotPull,
    events: Seq<SnapshotEvent>,
    event: SnapshotEvent,
)
    ensures
        ({
            let next = asked(pull, events.push(event))->0;
            match asked(pull, events) {
                None => next == (if event == SnapshotEvent::Finished {
                    SnapshotAction::LogStart
                } else {
                    SnapshotAction::Abort
                }),
                Some(SnapshotAction::LogStart) => next == (if event == SnapshotEvent::Finished {
                    SnapshotAction::LoadManifest
                } else {
                    SnapshotAction::Abort
                }),
                Some(SnapshotAction::LoadManifest) => match event {
                    SnapshotEvent::Loaded { found: false } => next == SnapshotAction::Complete(
                        SyncStats::zero(),
                    ),
                    SnapshotEvent::Loaded { found: true } => next == (if pull.corrupt {
                        SnapshotAction::ParseManifest
                    } else {
                        SnapshotAction::CheckLocalManifest
                    }),
                    _ => next == SnapshotAction::Abort,
                },
                Some(SnapshotAction::CheckLocalManifest) => match event {
                    SnapshotEvent::Exists(true) => next == SnapshotAction::CompareManifests,
                    SnapshotEvent::Exists(false) => next == SnapshotAction::ParseManifest,
                    _ => next == SnapshotAction::Abort,
                },
                Some(SnapshotAction::CompareManifests) => match event {
                    SnapshotEvent::Compared { same: true } => next == SnapshotAction::CheckLog,
                    SnapshotEvent::Compared { same: false } => next
                        == SnapshotAction::ParseLocalManifest,
                    _ => next == SnapshotAction::Abort,
                },
                Some(SnapshotAction::ParseLocalManifest) => next == (if event
                    == SnapshotEvent::Finished {
                    SnapshotAction::ParseManifest
                } else {
                    SnapshotAction::Abort
                }),
                Some(SnapshotAction::ParseManifest) => match event {
                    SnapshotEvent::Parsed { verify, encrypted, .. } => {
                        let unwanted = (pull.verified_only && verify != ReadVerifyState::Present(
                            VerifyState::Verified,
                        )) || (pull.encrypted_only && !encrypted);
                        &&& !unwanted ==> next == SnapshotAction::DecideDecryption
                        &&& unwanted && pull.is_new ==> next == SnapshotAction::RemoveDir
                        &&& unwanted && !pull.is_new ==> next == SnapshotAction::Complete(
                            SyncStats::zero(),
                        )
                    },
                    _ => next == SnapshotAction::Abort,
                },
                Some(SnapshotAction::RemoveDir) => next == (if event == SnapshotEvent::Finished {
                    SnapshotAction::Complete(SyncStats::zero())
                } else {
                    SnapshotAction::Abort
                }),
                Some(SnapshotAction::DecideDecryption) => match event {
                    SnapshotEvent::Decided { skip: true, .. } => next == SnapshotAction::CheckLog,
                    SnapshotEvent::Decided { skip: false, decrypt } => next == file_or_manifest(
                        pull,
                        files_read(events),
                        decrypt,
                        0,
                    ),
                    _ => next == SnapshotAction::Abort,
                },
                _ => true,
            }
        }),
{
    let all = events.push(event);
    assert(all.drop_last() =~= events);
    run_is_matched(pull, events);
    run_is_matched(pull, all);
    no_stats_before_files(pull, events);
}

/// Phases before the first file is pulled have transferred nothing.
proof fn no_stats_before_files(pull: SnapshotPull, events: Seq<SnapshotEvent>)
    ensures
        in_manifest(snapshot_run(pull, events).phase) ==> snapshot_run(pull, events).stats
            == SyncStats::zero(),
    decreases events.len(),
{
    if events.len() > 0 {
        no_stats_before_files(pull, events.drop_last());
    }
}

/// How the files of a manifest are settled, whatever was answered before: one that is
/// missing or differs locally is pulled, one that matches is left, and either way the
/// next one follows, until the manifest itself is put in place.
pub proof fn file_answers_are_followed(
    pull: SnapshotPull,
    events: Seq<SnapshotEvent>,
    event: SnapshotEvent,
)
    ensures
        ({
            let next = asked(pull, events.push(event))->0;
            match asked(pull, events) {
                Some(SnapshotAction::CheckFile(i)) => match event {
                    SnapshotEvent::FileMissing => next == SnapshotAction::PullArchive(i),
                    SnapshotEvent::FileChanged => next == SnapshotAction::LogChanged(i),
                    SnapshotEvent::FileMatches => next == file_or_manifest(
                        pull,
                        files_read(events),
                        decrypts(events),
                        i + 1,
                    ),
                    _ => next == SnapshotAction::Abort,
                },
                Some(SnapshotAction::LogChanged(i)) => next == (if event == SnapshotEvent::Finished {
                    SnapshotAction::PullArchive(i)
                } else {
                    SnapshotAction::Abort
                }),
                Some(SnapshotAction::PullArchive(i)) => if event is Pulled {
                    next == file_or_manifest(pull, files_read(events), decrypts(events), i + 1)
                } else {
                    next == SnapshotAction::Abort
                },
                _ => true,
            }
        }),
{
    let all = events.push(event);
    assert(all.drop_last() =~= events);
    run_is_matched(pull, events);
    run_is_matched(pull, all);
}

/// How a pull ends, whatever was answered before: a decrypted manifest is written, and the
/// manifest renamed into place and uploaded to an object store. A client log is fetched
/// if there is none, and uploaded if one was. What the manifest does not name is removed
/// only if it was put in place; else the snapshot is logged as unchanged and the loaded
/// manifest removed, which does not matter if it fails. Nothing follows the end.
pub proof fn end_answers_are_followed(
    pull: SnapshotPull,
    events: Seq<SnapshotEvent>,
    event: SnapshotEvent,
)
    ensures
        ({
            let next = asked(pull, events.push(event))->0;
            let done = event == SnapshotEvent::Finished;
            let placed = finished(pull, events, SnapshotAction::RenameManifest);
            let fetched = finished(pull, events, SnapshotAction::DownloadLog);
            let last = if placed {
                SnapshotAction::CleanupUnreferenced
            } else {
                SnapshotAction::LogUnchanged
            };
            match asked(pull, events) {
                Some(SnapshotAction::WriteManifest) => next == (if done {
                    SnapshotAction::RenameManifest
                } else {
                    SnapshotAction::Abort
                }),
                Some(SnapshotAction::RenameManifest) => next == (if !done {
                    SnapshotAction::Abort
                } else if pull.s3 {
                    SnapshotAction::UploadManifest
                } else {
                    SnapshotAction::CheckLog
                }),
                Some(SnapshotAction::UploadManifest) => next == (if done {
                    SnapshotAction::CheckLog
                } else {
                    SnapshotAction::Abort
                }),
                Some(SnapshotAction::CheckLog) => match event {
                    SnapshotEvent::Exists(exists) => next == (if !exists && !fetched {
                        SnapshotAction::DownloadLog
                    } else if exists && fetched && pull.s3 {
                        SnapshotAction::UploadLog
                    } else {
                        last
                    }),
                    _ => next == SnapshotAction::Abort,
                },
                Some(SnapshotAction::DownloadLog) => next == (if done {
                    SnapshotAction::CheckLog
                } else {
                    SnapshotAction::Abort
                }),
                Some(SnapshotAction::UploadLog) => next == (if done {
                    last
                } else {
                    SnapshotAction::Abort
                }),
                Some(SnapshotAction::LogUnchanged) => next == (if done {
                    SnapshotAction::RemoveTmpManifest
                } else {
                    SnapshotAction::Abort
                }),
                Some(SnapshotAction::RemoveTmpManifest) => if done || event
                    == SnapshotEvent::Failed {
                    next is Complete
                } else {
                    next == SnapshotAction::Abort
                },
                Some(SnapshotAction::CleanupUnreferenced) => if done {
                    next is Complete
                } else {
                    next == SnapshotAction::Abort
                },
                Some(SnapshotAction::Complete(_)) | Some(SnapshotAction::Abort) => next
                    == SnapshotAction::Abort,
                _ => true,
            }
        }),
{
    let all = events.push(event);
    assert(all.drop_last() =~= events);
    run_is_matched(pull, events);
    run_is_matched(pull, all);
}

/// The files that were found to match when they were asked for, or were pulled.
pub open spec fn files_settled(pull: SnapshotPull, events: Seq<SnapshotEvent>) -> Seq<usize>
    decreases events.len(),
{
    if events.len() == 0 {
        seq![]
    } else {
        let before = files_settled(pull, events.drop_last());
        match (asked(pull, events.drop_last()), events.last()) {
            (Some(SnapshotAction::CheckFile(i)), SnapshotEvent::FileMatches) => before.push(i),
            (Some(SnapshotAction::PullArchive(i)), SnapshotEvent::Pulled(_)) => before.push(i),
            _ => before,
        }
    }
}

/// What the archives transferred that were asked for.
pub open spec fn transferred(pull: SnapshotPull, events: Seq<SnapshotEvent>) -> SyncStats
    decreases events.len(),
{
    if events.len() == 0 {
        SyncStats::zero()
    } else {
        let before = transferred(pull, events.drop_last());
        match (asked(pull, events.drop_last()), events.last()) {
            (Some(SnapshotAction::PullArchive(_)), SnapshotEvent::Pulled(stats)) => before.plus(
                stats,
            ),
            _ => before,
        }
    }
}

proof fn settled_as_asked(pull: SnapshotPull, events: Seq<SnapshotEvent>)
    ensures
        files_settled(pull, events) == settled(pull, events),
        transferred(pull, events) == pulled_stats(pull, events),
    decreases events.len(),
{
    if events.len() > 0 {
        let init = events.drop_last();
        settled_as_asked(pull, init);
        run_asks_for_awaited(pull, init);
        let state = snapshot_run(pull, init);
        if let SnapshotPhase::CheckingFile(i) = state.phase {
            assert(asked(pull, init) == Some(SnapshotAction::CheckFile(i)));
        } else if let SnapshotPhase::PullingArchive(i) = state.phase {
            assert(asked(pull, init) == Some(SnapshotAction::PullArchive(i)));
        } else {
            assert(!(awaited(state) is CheckFile) && !(awaited(state) is PullArchive));
            assert(settles(state, events.last()) is None);
        }
    }
}

/// Whether the source had no manifest, or its snapshot was not wanted.
pub open spec fn not_to_be_pulled(pull: SnapshotPull, event: SnapshotEvent) -> bool {
    match event {
        SnapshotEvent::Loaded { found } => !found,
        SnapshotEvent::Parsed { verify, encrypted, .. } => (pull.verified_only && verify
            != ReadVerifyState::Present(VerifyState::Verified)) || (pull.encrypted_only
            && !encrypted),
        _ => false,
    }
}

/// Whether the local snapshot was found to be up to date.
pub open spec fn found_up_to_date(event: SnapshotEvent) -> bool {
    match event {
        SnapshotEvent::Compared { same } => same,
        SnapshotEvent::Decided { skip, .. } => skip,
        _ => false,
    }
}

/// Whether an event gives a reason to end without pulling anything.
pub open spec fn excuses(pull: SnapshotPull, event: SnapshotEvent) -> bool {
    not_to_be_pulled(pull, event) || found_up_to_date(event)
}

/// Whether one of the events is a reason to end without pulling anything.
pub open spec fn excused(pull: SnapshotPull, events: Seq<SnapshotEvent>) -> bool
    decreases events.len(),
{
    events.len() > 0 && (excused(pull, events.drop_last()) || excuses(pull, events.last()))
}

proof fn excused_or_in_place(pull: SnapshotPull, events: Seq<SnapshotEvent>)
    ensures
        ({
            let state = snapshot_run(pull, events);
            let placed = finished(pull, events, SnapshotAction::RenameManifest);
            &&& unchanged_phase(state.phase) || state.phase == SnapshotPhase::RemovingDir ==> excused(
                pull,
                events,
            )
            &&& state.phase == SnapshotPhase::Complete && !excused(pull, events) ==> {
                &&& placed
                &&& files_settled(pull, events) == first_indices(files_read(events) as nat)
                &&& pull.s3 ==> finished(pull, events, SnapshotAction::UploadManifest)
            }
            &&& (match state.phase {
                SnapshotPhase::CheckingLog(AfterLog::Pulled)
                | SnapshotPhase::DownloadingLog(AfterLog::Pulled)
                | SnapshotPhase::CheckingLogAgain(AfterLog::Pulled)
                | SnapshotPhase::UploadingLog(AfterLog::Pulled)
                | SnapshotPhase::CleaningUp => pull.s3 ==> finished(
                    pull,
                    events,
                    SnapshotAction::UploadManifest,
                ),
                _ => true,
            })
            &&& (match state.phase {
                SnapshotPhase::WritingManifest
                | SnapshotPhase::RenamingManifest
                | SnapshotPhase::UploadingManifest
                | SnapshotPhase::CheckingLog(AfterLog::Pulled)
                | SnapshotPhase::DownloadingLog(AfterLog::Pulled)
                | SnapshotPhase::CheckingLogAgain(AfterLog::Pulled)
                | SnapshotPhase::UploadingLog(AfterLog::Pulled)
                | SnapshotPhase::CleaningUp => state.files == files_read(events),
                _ => true,
            })
        }),
    decreases events.len(),
{
    run_is_matched(pull, events);
    settled_as_asked(pull, events);
    files_are_settled_in_order(pull, events);
    if events.len() > 0 {
        let init = events.drop_last();
        excused_or_in_place(pull, init);
        run_is_matched(pull, init);
        settled_as_asked(pull, init);
        files_are_settled_in_order(pull, init);
    }
}

/// A pull that succeeds without an excuse has settled every file of the manifest, each
/// once and in order, and has put the manifest in place, in an object store too. The
/// excuses are that there is no manifest, that the snapshot is not wanted, that the
/// manifests have the same contents, or a decision to skip it. Either way it reports
/// what its archives transferred.
pub proof fn success_means_pulled(
    pull: SnapshotPull,
    events: Seq<SnapshotEvent>,
    stats: SyncStats,
)
    requires
        asked(pull, events) == Some(SnapshotAction::Complete(stats)),
    ensures
        stats == transferred(pull, events),
        !excused(pull, events) ==> {
            &&& files_settled(pull, events) == first_indices(files_read(events) as nat)
            &&& finished(pull, events, SnapshotAction::RenameManifest)
            &&& pull.s3 ==> finished(pull, events, SnapshotAction::UploadManifest)
        },
{
    run_is_matched(pull, events);
    excused_or_in_place(pull, events);
    settled_as_asked(pull, events);
    complete_reports_the_sum(pull, events, stats);
}

/// A snapshot is kept exactly if it was verified, where that is asked for, and encrypted,
/// where that is.
pub proof fn only_unfit_snapshots_are_ignored(
    verify: ReadVerifyState,
    encrypted: bool,
    verified_only: bool,
    encrypted_only: bool,
)
    ensures
        !ignored(verify, encrypted, verified_only, encrypted_only) <==> {
            &&& verified_only ==> verify == ReadVerifyState::Present(VerifyState::Verified)
            &&& encrypted_only ==> encrypted
        },
{
}

/// A snapshot that was there before is left as it is and nothing is told. A new one is told
/// as pulled, or removed by force if its pull failed, and that is told only where the removal
/// failed too.
pub proof fn only_failed_new_snapshots_are_removed(removed: bool)
    ensures
        snapshot_end(true, true) == SnapshotEnd::LogDone,
        snapshot_end(true, false) == (SnapshotEnd::Remove { force: true }),
        snapshot_end(false, true) == SnapshotEnd::Leave,
        snapshot_end(false, false) == SnapshotEnd::Leave,
        end_is_logged(snapshot_end(true, true), removed),
        end_is_logged(snapshot_end(true, false), removed) <==> !removed,
        !end_is_logged(snapshot_end(false, true), removed),
{
}

} // verus!
