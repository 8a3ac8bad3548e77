//! Sync jobs, and what they need of their sources.

use vstd::prelude::*;
use crate::namespace::BackupNamespace;
use crate::server::stats::{RemovedVanishedStats, SyncStats};
use crate::text::{decimal, join2, join3, joined, opt_text, str_eq, texts, u64_to_string};

verus! {

/// Direction of a sync.
#[derive(Clone, Copy, Debug, PartialEq, Eq, Structural)]
pub enum SyncDirection {
    Pull,
    Push,
}

impl SyncDirection {
    /// Word for the direction.
    pub open spec fn text(self) -> Seq<char> {
        match self {
            SyncDirection::Pull => "pull"@,
            SyncDirection::Push => "push"@,
        }
    }

    /// Word for the direction.
    pub fn to_string(&self) -> (r: String)
        ensures
            r@ == self.text(),
    {
        match self {
            SyncDirection::Pull => "pull".to_owned(),
            SyncDirection::Push => "push".to_owned(),
        }
    }
}

/// What is configured of a sync job.
pub struct SyncJob {
    pub remote: Option<String>,
    pub remote_store: String,
    pub store: String,
    pub ns: Option<BackupNamespace>,
    pub sync_direction: Option<SyncDirection>,
}

/// Why a sync job does not run.
#[derive(Clone, Copy, Debug, PartialEq, Eq, Structural)]
pub enum SyncJobError {
    /// Source and target are the same datastore.
    SameDatastore,
    /// A job that pushes has no remote.
    MissingRemote,
}

impl SyncJobError {
    /// The message.
    pub open spec fn text(self) -> Seq<char> {
        match self {
            SyncJobError::SameDatastore => "can't sync to same datastore"@,
            SyncJobError::MissingRemote => "missing required remote"@,
        }
    }

    /// The message.
    pub fn to_string(&self) -> (r: String)
        ensures
            r@ == self.text(),
    {
        match self {
            SyncJobError::SameDatastore => "can't sync to same datastore".to_owned(),
            SyncJobError::MissingRemote => "missing required remote".to_owned(),
        }
    }
}

impl SyncJob {
    /// Direction of the job; it pulls unless it says otherwise.
    pub open spec fn direction_spec(self) -> SyncDirection {
        match self.sync_direction {
            Some(direction) => direction,
            None => SyncDirection::Pull,
        }
    }

    /// Printed namespace of the job; empty for the root.
    pub open spec fn ns_text(self) -> Seq<char> {
        match self.ns {
            Some(ns) => joined(ns@, "/"@),
            None => seq![],
        }
    }

    /// Id of the task that runs the job.
    pub open spec fn task_id(self, jobname: Seq<char>) -> Seq<char> {
        (match self.remote {
            Some(remote) => remote@,
            None => "-"@,
        }) + ":"@ + self.remote_store@ + ":"@ + self.store@ + ":"@ + self.ns_text() + ":"@ + jobname
    }

    /// Remote and datastore of the other side.
    pub open spec fn far_side(self) -> Seq<char> {
        (match self.remote {
            Some(remote) => remote@ + "/"@,
            None => seq![],
        }) + self.remote_store@
    }

    /// Line about what is synced.
    pub open spec fn sync_text(self) -> Seq<char> {
        "sync datastore '"@ + self.store@ + (match self.direction_spec() {
            SyncDirection::Pull => "' from '"@,
            SyncDirection::Push => "' to '"@,
        }) + self.far_side() + "'"@
    }

    /// Direction of the job; it pulls unless it says otherwise.
    pub fn direction(&self) -> (r: SyncDirection)
        ensures
            r == self.direction_spec(),
    {
        match self.sync_direction {
            Some(direction) => direction,
            None => SyncDirection::Pull,
        }
    }

    /// Line about what is synced.
    pub fn sync_line(&self) -> (r: String)
        ensures
            r@ == self.sync_text(),
    {
        let mut far = String::new();
        if let Some(remote) = &self.remote {
            far.append(remote.as_str());
            far.append("/");
            assert(far@ =~= remote@ + "/"@);
        }
        far.append(self.remote_store.as_str());
        let mut r = join2("sync datastore '", self.store.as_str());
        match self.direction() {
            SyncDirection::Pull => {
                r.append("' from '");
            },
            SyncDirection::Push => {
                r.append("' to '");
            },
        }
        r.append(far.as_str());
        r.append("'");
        r
    }

    /// Checks that the job can do what its direction asks for: a push needs a
    /// remote.
    pub fn check_direction(&self) -> (r: Result<SyncDirection, SyncJobError>)
        ensures
            r == (if self.direction_spec() == SyncDirection::Push && self.remote is None {
                Err::<SyncDirection, SyncJobError>(SyncJobError::MissingRemote)
            } else {
                Ok(self.direction_spec())
            }),
    {
        let direction = self.direction();
        match direction {
            SyncDirection::Push => if self.remote.is_none() {
                Err(SyncJobError::MissingRemote)
            } else {
                Ok(direction)
            },
            SyncDirection::Pull => Ok(direction),
        }
    }
}

/// Id of the task that runs a job, or an error if the job would sync a datastore
/// with itself.
pub fn do_sync_job(job: &SyncJob, jobname: &str) -> (r: Result<String, SyncJobError>)
    ensures
        match r {
            Ok(id) => id@ == job.task_id(jobname@) && !(job.remote is None && job.store@
                == job.remote_store@),
            Err(e) => e == SyncJobError::SameDatastore && job.remote is None && job.store@
                == job.remote_store@,
        },
{
    if job.remote.is_none() && str_eq(job.store.as_str(), job.remote_store.as_str()) {
        return Err(SyncJobError::SameDatastore);
    }
    let mut id = match &job.remote {
        Some(remote) => remote.clone(),
        None => "-".to_owned(),
    };
    id.append(":");
    id.append(job.remote_store.as_str());
    id.append(":");
    id.append(job.store.as_str());
    id.append(":");
    if let Some(ns) = &job.ns {
        id.append(ns.to_string().as_str());
    }
    assert(id@ =~= (match job.remote {
        Some(remote) => remote@,
        None => "-"@,
    }) + ":"@ + job.remote_store@ + ":"@ + job.store@ + ":"@ + job.ns_text());
    id.append(":");
    id.append(jobname);
    Ok(id)
}

/// Lines that open the log of a job.
pub open spec fn opening_lines(
    job: SyncJob,
    job_id: Seq<char>,
    schedule: Option<Seq<char>>,
) -> Seq<Seq<char>> {
    let start = seq!["Starting datastore sync job '"@ + job_id + "'"@];
    match schedule {
        Some(event) => start.push("task triggered by schedule '"@ + event + "'"@),
        None => start,
    }.push(job.sync_text())
}

/// Lines that open the log of a job.
pub fn start_lines(job: &SyncJob, job_id: &str, schedule: &Option<String>) -> (r: Vec<String>)
    ensures
        texts(r@) == opening_lines(*job, job_id@, opt_text(*schedule)),
{
    let mut r: Vec<String> = Vec::new();
    r.push(join3("Starting datastore sync job '", job_id, "'"));
    if let Some(event) = schedule {
        r.push(join3("task triggered by schedule '", event.as_str(), "'"));
    }
    r.push(job.sync_line());
    assert(texts(r@) =~= opening_lines(*job, job_id@, opt_text(*schedule)));
    r
}

/// Line about what was transferred, with the printed amount and rate.
pub open spec fn transfer_text(
    direction: SyncDirection,
    stats: SyncStats,
    amount: Seq<char>,
    rate: Seq<char>,
) -> Seq<char> {
    if stats.bytes != 0 {
        "Summary: sync job "@ + direction.text() + "ed "@ + amount + " in "@ + decimal(
            stats.chunk_count as nat,
        ) + " chunks (average rate: "@ + rate + "/s)"@
    } else {
        "Summary: sync job found no new data to "@ + direction.text()
    }
}

/// Line about what was removed.
pub open spec fn removed_text(removed: RemovedVanishedStats) -> Seq<char> {
    "Summary: removed vanished: snapshots: "@ + decimal(removed.snapshots as nat) + ", groups: "@
        + decimal(removed.groups as nat) + ", namespaces: "@ + decimal(removed.namespaces as nat)
}

/// Lines that close the log of a job.
pub open spec fn closing_lines(
    direction: SyncDirection,
    stats: SyncStats,
    amount: Seq<char>,
    rate: Seq<char>,
    job_id: Seq<char>,
) -> Seq<Seq<char>> {
    let start = seq![transfer_text(direction, stats, amount, rate)];
    match stats.removed {
        Some(removed) => start.push(removed_text(removed)),
        None => start,
    }.push("sync job '"@ + job_id + "' end"@)
}

/// Lines that close the log of a job: what was transferred, with the printed
/// amount and rate, and what was removed.
pub fn summary_lines(
    direction: SyncDirection,
    stats: &SyncStats,
    amount: &str,
    rate: &str,
    job_id: &str,
) -> (r: Vec<String>)
    ensures
        texts(r@) == closing_lines(direction, *stats, amount@, rate@, job_id@),
{
    let mut r: Vec<String> = Vec::new();
    let word = direction.to_string();
    if stats.bytes != 0 {
        let mut line = join3("Summary: sync job ", word.as_str(), "ed ");
        line.append(amount);
        line.append(" in ");
        line.append(u64_to_string(stats.chunk_count as u64).as_str());
        line.append(" chunks (average rate: ");
        line.append(rate);
        line.append("/s)");
        r.push(line);
    } else {
        r.push(join2("Summary: sync job found no new data to ", word.as_str()));
    }
    if let Some(removed) = stats.removed {
        let mut line = join2(
            "Summary: removed vanished: snapshots: ",
            u64_to_string(removed.snapshots as u64).as_str(),
        );
        line.append(", groups: ");
        line.append(u64_to_string(removed.groups as u64).as_str());
        line.append(", namespaces: ");
        line.append(u64_to_string(removed.namespaces as u64).as_str());
        r.push(line);
    }
    r.push(join3("sync job '", job_id, "' end"));
    assert(texts(r@) =~= closing_lines(direction, *stats, amount@, rate@, job_id@));
    r
}

/// How far the task of a job has come.
#[derive(Clone, Copy, Debug, PartialEq, Eq, Structural)]
pub enum JobState {
    Starting,
    Running,
    /// The state of the job is being saved.
    Finishing(JobResult),
    /// Those who asked for it are being notified.
    Notifying(JobResult),
    Ended,
}

/// How a job ended.
#[derive(Clone, Copy, Debug, PartialEq, Eq, Structural)]
pub enum JobResult {
    Succeeded,
    Failed,
    /// The user ended the job.
    Aborted,
}

/// What the environment reports of the last action.
#[derive(Clone, Copy, Debug, PartialEq, Eq, Structural)]
pub enum JobEvent {
    /// The action was done.
    Finished,
    /// The user ended the job.
    Aborted,
    /// The action failed.
    Failed,
}

/// What the environment has to do next.
#[derive(Clone, Copy, Debug, PartialEq, Eq, Structural)]
pub enum JobAction {
    /// Run the sync, unless the user ends the job before it is done.
    Run,
    /// Save how the job ended.
    SaveState(JobResult),
    /// Notify those who asked for it.
    Notify(JobResult),
    /// The task ends like the job.
    End(JobResult),
    /// The job could not be started.
    Abort,
}

/// Error of [`JobResult::Aborted`].
pub const SYNC_ABORTED: &'static str = "sync aborted";

/// The next state and action. Neither a state that cannot be saved nor a
/// notification that cannot be sent changes how the task ends.
pub open spec fn job_next(state: JobState, event: JobEvent) -> (JobState, JobAction) {
    match (state, event) {
        (JobState::Starting, JobEvent::Finished) => (JobState::Running, JobAction::Run),
        (JobState::Running, JobEvent::Finished) => (
            JobState::Finishing(JobResult::Succeeded),
            JobAction::SaveState(JobResult::Succeeded),
        ),
        (JobState::Running, JobEvent::Failed) => (
            JobState::Finishing(JobResult::Failed),
            JobAction::SaveState(JobResult::Failed),
        ),
        (JobState::Running, JobEvent::Aborted) => (
            JobState::Finishing(JobResult::Aborted),
            JobAction::SaveState(JobResult::Aborted),
        ),
        (JobState::Finishing(result), _) => (
            JobState::Notifying(result),
            JobAction::Notify(result),
        ),
        (JobState::Notifying(result), _) => (JobState::Ended, JobAction::End(result)),
        _ => (JobState::Ended, JobAction::Abort),
    }
}

/// Moves the task of a job on and says what to do next.
pub fn step_sync_job(state: JobState, event: JobEvent) -> (r: (JobState, JobAction))
    ensures
        r == job_next(state, event),
{
    match (state, event) {
        (JobState::Starting, JobEvent::Finished) => (JobState::Running, JobAction::Run),
        (JobState::Running, JobEvent::Finished) => (
            JobState::Finishing(JobResult::Succeeded),
            JobAction::SaveState(JobResult::Succeeded),
        ),
        (JobState::Running, JobEvent::Failed) => (
            JobState::Finishing(JobResult::Failed),
            JobAction::SaveState(JobResult::Failed),
        ),
        (JobState::Running, JobEvent::Aborted) => (
            JobState::Finishing(JobResult::Aborted),
            JobAction::SaveState(JobResult::Aborted),
        ),
        (JobState::Finishing(result), _) => (
            JobState::Notifying(result),
            JobAction::Notify(result),
        ),
        (JobState::Notifying(result), _) => (JobState::Ended, JobAction::End(result)),
        _ => (JobState::Ended, JobAction::Abort),
    }
}

/// Once a job ran, its state is saved, then a notification is sent, and the task
/// ends the way the job did, whatever became of the two.
pub proof fn every_job_is_reported(state: JobState, event: JobEvent, saved: JobEvent, sent: JobEvent)
    requires
        state == JobState::Running,
    ensures
        ({
            let ran = job_next(state, event);
            let kept = job_next(ran.0, saved);
            let told = job_next(kept.0, sent);
            &&& ran.1 is SaveState
            &&& kept.1 == JobAction::Notify(ran.1->SaveState_0)
            &&& told.1 == JobAction::End(ran.1->SaveState_0)
        }),
{
}

/// Line if the state of a job cannot be saved.
pub fn finish_error_line(err: &str) -> (r: String)
    ensures
        r@ == "could not finish job state: "@ + err@,
{
    join2("could not finish job state: ", err)
}

/// Line if a notification cannot be sent.
pub fn notification_error_line(err: &str) -> (r: String)
    ensures
        r@ == "send sync notification failed: "@ + err@,
{
    join2("send sync notification failed: ", err)
}

// ---- sources ----

/// Path of a request about a datastore of a remote server.
pub fn datastore_path(store: &str, what: &str) -> (r: String)
    ensures
        r@ == "api2/json/admin/datastore/"@ + store@ + "/"@ + what@,
{
    let mut r = join3("api2/json/admin/datastore/", store, "/");
    r.append(what);
    r
}

/// Parameters of the request for namespaces.
pub struct NamespaceQuery {
    pub max_depth: Option<usize>,
    pub parent: Option<String>,
}

/// The request for the namespaces of a remote source: none if only the root is
/// wanted, so that servers without namespaces can be asked too.
pub fn namespace_query(ns: &BackupNamespace, max_depth: Option<usize>) -> (r: Option<
    NamespaceQuery,
>)
    ensures
        match r {
            None => ns@.len() == 0 && max_depth == Some(0usize),
            Some(query) => {
                &&& !(ns@.len() == 0 && max_depth == Some(0usize))
                &&& query.max_depth == max_depth
                &&& opt_text(query.parent) == (if ns@.len() == 0 {
                    None
                } else {
                    Some(joined(ns@, "/"@))
                })
            },
        },
{
    if ns.is_root() {
        if let Some(depth) = max_depth {
            if depth == 0 {
                return None;
            }
        }
        Some(NamespaceQuery { max_depth, parent: None })
    } else {
        Some(NamespaceQuery { max_depth, parent: Some(ns.to_string()) })
    }
}

/// Namespace that a request for groups or snapshots names; the root is not named, so
/// that servers without namespaces can be asked too.
pub fn named_namespace(ns: &BackupNamespace) -> (r: Option<String>)
    ensures
        opt_text(r) == (if ns@.len() == 0 {
            None
        } else {
            Some(joined(ns@, "/"@))
        }),
{
    if ns.is_root() {
        None
    } else {
        Some(ns.to_string())
    }
}

/// Error if the groups of a remote source cannot be listed.
pub fn list_groups_error(err: &str) -> (r: String)
    ensures
        r@ == "Failed to retrieve backup groups from remote - "@ + err@,
{
    join2("Failed to retrieve backup groups from remote - ", err)
}

/// Line about a key that was loaded.
pub fn key_loaded_line(key_id: &str, fingerprint: &str) -> (r: String)
    ensures
        r@ == "Loaded encryption key '"@ + key_id@ + "' with fingerprint '"@ + fingerprint@ + "'"@,
{
    let mut r = join3("Loaded encryption key '", key_id, "' with fingerprint '");
    r.append(fingerprint);
    r.append("'");
    r
}

/// How a request failed.
#[derive(Clone, Copy, Debug, PartialEq, Eq, Structural)]
pub enum RequestFailure {
    /// The server answered with this HTTP status.
    Http { code: u16 },
    /// There was no answer, or it could not be read.
    Other,
}

/// HTTP status of what is not there.
pub const NOT_FOUND: u16 = 404;

/// What follows a failed request for namespaces.
#[derive(Clone, Copy, Debug, PartialEq, Eq, Structural)]
pub enum NamespaceFallback {
    /// The server has no namespaces: warn, and pull the root alone.
    RootOnly,
    /// The server has no namespaces, but they are needed.
    NotSupported,
    /// The server answered with an error.
    HttpError,
    /// There was no answer.
    Failed,
}

/// First warning of [`NamespaceFallback::RootOnly`].
pub const FALLBACK_WARNING: &'static str =
    "Could not query remote for namespaces (404) -> temporarily switching to backwards-compat mode";

/// Second warning of [`NamespaceFallback::RootOnly`].
pub const FALLBACK_HINT: &'static str =
    "Either make backwards-compat mode explicit (max-depth == 0) or upgrade remote system.";

/// What follows a failed request for namespaces. A server without namespaces can
/// still be pulled from, if nothing but its root was asked for implicitly.
pub open spec fn namespace_fallback(
    is_root: bool,
    max_depth: Option<usize>,
    failure: RequestFailure,
) -> NamespaceFallback {
    match failure {
        RequestFailure::Http { code } => if code != NOT_FOUND {
            NamespaceFallback::HttpError
        } else if is_root && max_depth is None {
            NamespaceFallback::RootOnly
        } else {
            NamespaceFallback::NotSupported
        },
        RequestFailure::Other => NamespaceFallback::Failed,
    }
}

/// What follows a failed request for namespaces. If only the root is pulled from
/// then on, `max_depth` becomes zero; nothing else changes it.
pub fn on_namespace_failure(
    ns: &BackupNamespace,
    max_depth: &mut Option<usize>,
    failure: RequestFailure,
) -> (r: NamespaceFallback)
    ensures
        r == namespace_fallback(ns@.len() == 0, *old(max_depth), failure),
        *final(max_depth) == (if r == NamespaceFallback::RootOnly {
            Some(0usize)
        } else {
            *old(max_depth)
        }),
{
    match failure {
        RequestFailure::Http { code } => {
            if code != NOT_FOUND {
                NamespaceFallback::HttpError
            } else if ns.is_root() && max_depth.is_none() {
                *max_depth = Some(0);
                NamespaceFallback::RootOnly
            } else {
                NamespaceFallback::NotSupported
            }
        },
        RequestFailure::Other => NamespaceFallback::Failed,
    }
}

impl NamespaceFallback {
    /// The message of the error, with status and message of the failure; none if
    /// it is no error.
    pub open spec fn text(self, code: Seq<char>, message: Seq<char>) -> Option<Seq<char>> {
        match self {
            NamespaceFallback::RootOnly => None,
            NamespaceFallback::NotSupported => Some(
                "Remote namespace set/recursive sync requested, but remote does not support namespaces."@,
            ),
            NamespaceFallback::HttpError => Some(
                "Querying namespaces failed - HTTP error "@ + code + " - "@ + message,
            ),
            NamespaceFallback::Failed => Some("Querying namespaces failed - "@ + message),
        }
    }

    /// The message of the error, with status and message of the failure; none if
    /// it is no error.
    pub fn message(&self, code: &str, message: &str) -> (r: Option<String>)
        ensures
            opt_text(r) == self.text(code@, message@),
    {
        match self {
            NamespaceFallback::RootOnly => None,
            NamespaceFallback::NotSupported => Some(
                "Remote namespace set/recursive sync requested, but remote does not support namespaces.".to_owned(),
            ),
            NamespaceFallback::HttpError => {
                let mut r = join3("Querying namespaces failed - HTTP error ", code, " - ");
                r.append(message);
                Some(r)
            },
            NamespaceFallback::Failed => Some(join2("Querying namespaces failed - ", message)),
        }
    }
}

/// Switching to the root alone always shows: the depth is another one than was
/// asked for, by which a pull reports an error in the end.
pub proof fn fallback_changes_the_depth(
    is_root: bool,
    max_depth: Option<usize>,
    failure: RequestFailure,
)
    requires
        namespace_fallback(is_root, max_depth, failure) == NamespaceFallback::RootOnly,
    ensures
        max_depth != Some(0usize),
        is_root,
{
}

/// What follows when a file of the source could not be loaded.
#[derive(Clone, Copy, Debug, PartialEq, Eq, Structural)]
pub enum LoadFailure {
    /// The file is not there; the snapshot may have vanished meanwhile.
    NotThere,
    /// The server answered with an error.
    HttpError,
    /// Anything else.
    Failed,
}

/// What follows when a file of the source could not be loaded.
pub fn on_load_failure(failure: RequestFailure) -> (r: LoadFailure)
    ensures
        r == LoadFailure::NotThere <==> failure == (RequestFailure::Http { code: NOT_FOUND }),
        r == LoadFailure::Failed <==> failure == RequestFailure::Other,
{
    match failure {
        RequestFailure::Http { code } => if code == NOT_FOUND {
            LoadFailure::NotThere
        } else {
            LoadFailure::HttpError
        },
        RequestFailure::Other => LoadFailure::Failed,
    }
}

/// The message of [`LoadFailure::HttpError`].
pub fn load_error_message(snapshot: &str, code: &str, message: &str) -> (r: String)
    ensures
        r@ == "Snapshot "@ + snapshot@ + ": HTTP error "@ + code@ + " - "@ + message@,
{
    let mut r = join3("Snapshot ", snapshot, ": HTTP error ");
    r.append(code);
    r.append(" - ");
    r.append(message);
    r
}

/// Whether chunks need not be synced: the source is local and keeps them in the
/// target datastore.
pub fn skip_chunk_sync(source_store: &Option<String>, target_store: &str) -> (r: bool)
    ensures
        r == (opt_text(*source_store) == Some(target_store@)),
{
    match source_store {
        Some(store) => str_eq(store.as_str(), target_store),
        None => false,
    }
}

/// How far the client log has been fetched.
#[derive(Clone, Copy, Debug, PartialEq, Eq, Structural)]
pub enum ClientLogState {
    Start,
    Probing,
    Decrypting,
    RemovingTmp,
    Placing,
    Logging,
    Ended,
}

/// What the environment reports of the last action.
#[derive(Clone, Copy, Debug, PartialEq, Eq, Structural)]
pub enum ClientLogEvent {
    /// The action was done.
    Finished,
    /// The source has no log, or a remote one could not be downloaded.
    NoLog,
    /// The action failed.
    Failed,
}

/// What the environment has to do next.
#[derive(Clone, Copy, Debug, PartialEq, Eq, Structural)]
pub enum ClientLogAction {
    /// Download the log into a temporary file, or see whether the local source has it.
    Probe,
    /// Decrypt the log into place.
    Decrypt,
    /// Remove the temporary file that holds the encrypted log.
    RemoveTmp,
    /// Put the log in place: rename the temporary file, or copy the local file.
    Place,
    /// Log that there is a log.
    LogFetched,
    /// All is done, with or without a log.
    Done,
    /// Give up.
    Abort,
}

/// The next state and action, for a source that is remote or not, and a log that
/// is decrypted or not. There being no log is no error.
pub open spec fn client_log_next(
    remote: bool,
    decrypt: bool,
    state: ClientLogState,
    event: ClientLogEvent,
) -> (ClientLogState, ClientLogAction) {
    match (state, event) {
        (ClientLogState::Start, ClientLogEvent::Finished) => (
            ClientLogState::Probing,
            ClientLogAction::Probe,
        ),
        (ClientLogState::Probing, ClientLogEvent::NoLog) => (
            ClientLogState::Ended,
            ClientLogAction::Done,
        ),
        (ClientLogState::Probing, ClientLogEvent::Finished) => if decrypt {
            (ClientLogState::Decrypting, ClientLogAction::Decrypt)
        } else {
            (ClientLogState::Placing, ClientLogAction::Place)
        },
        (ClientLogState::Decrypting, ClientLogEvent::Finished) => if remote {
            (ClientLogState::RemovingTmp, ClientLogAction::RemoveTmp)
        } else {
            (ClientLogState::Logging, ClientLogAction::LogFetched)
        },
        (ClientLogState::RemovingTmp, ClientLogEvent::Finished) => (
            ClientLogState::Logging,
            ClientLogAction::LogFetched,
        ),
        (ClientLogState::Placing, ClientLogEvent::Finished) => (
            ClientLogState::Logging,
            ClientLogAction::LogFetched,
        ),
        (ClientLogState::Logging, ClientLogEvent::Finished) => (
            ClientLogState::Ended,
            ClientLogAction::Done,
        ),
        _ => (ClientLogState::Ended, ClientLogAction::Abort),
    }
}

/// Moves the fetch of the client log on and says what to do next.
pub fn try_fetch_client_log(
    remote: bool,
    decrypt: bool,
    state: ClientLogState,
    event: ClientLogEvent,
) -> (r: (ClientLogState, ClientLogAction))
    ensures
        r == client_log_next(remote, decrypt, state, event),
{
    match (state, event) {
        (ClientLogState::Start, ClientLogEvent::Finished) => (
            ClientLogState::Probing,
            ClientLogAction::Probe,
        ),
        (ClientLogState::Probing, ClientLogEvent::NoLog) => (
            ClientLogState::Ended,
            ClientLogAction::Done,
        ),
        (ClientLogState::Probing, ClientLogEvent::Finished) => {
            if decrypt {
                (ClientLogState::Decrypting, ClientLogAction::Decrypt)
            } else {
                (ClientLogState::Placing, ClientLogAction::Place)
            }
        },
        (ClientLogState::Decrypting, ClientLogEvent::Finished) => {
            if remote {
                (ClientLogState::RemovingTmp, ClientLogAction::RemoveTmp)
            } else {
                (ClientLogState::Logging, ClientLogAction::LogFetched)
            }
        },
        (ClientLogState::RemovingTmp, ClientLogEvent::Finished) => (
            ClientLogState::Logging,
            ClientLogAction::LogFetched,
        ),
        (ClientLogState::Placing, ClientLogEvent::Finished) => (
            ClientLogState::Logging,
            ClientLogAction::LogFetched,
        ),
        (ClientLogState::Logging, ClientLogEvent::Finished) => (
            ClientLogState::Ended,
            ClientLogAction::Done,
        ),
        _ => (ClientLogState::Ended, ClientLogAction::Abort),
    }
}

/// A log that is to be decrypted is never put in place as it was downloaded.
pub proof fn encrypted_log_is_not_placed(
    remote: bool,
    state: ClientLogState,
    event: ClientLogEvent,
)
    ensures
        client_log_next(remote, true, state, event).1 != ClientLogAction::Place,
        client_log_next(remote, false, state, event).1 != ClientLogAction::Decrypt,
{
}

/// Log line for a client log that was fetched.
pub fn client_log_line(snapshot: &str, log_name: &str) -> (r: String)
    ensures
        r@ == "Snapshot "@ + snapshot@ + ": got backup log file "@ + log_name@,
{
    let mut r = join3("Snapshot ", snapshot, ": got backup log file ");
    r.append(log_name);
    r
}

/// A job that was started runs, and ends the way its run did: that is saved and told, and
/// what becomes of either does not matter. One that cannot be started does nothing.
pub proof fn job_ends_as_it_ran(saved: JobEvent, sent: JobEvent)
    ensures
        ({
            let (running, first) = job_next(JobState::Starting, JobEvent::Finished);
            let (done, done_saved) = job_next(running, JobEvent::Finished);
            let (failed, failed_saved) = job_next(running, JobEvent::Failed);
            let (aborted, aborted_saved) = job_next(running, JobEvent::Aborted);
            &&& first == JobAction::Run
            &&& done_saved == JobAction::SaveState(JobResult::Succeeded)
            &&& failed_saved == JobAction::SaveState(JobResult::Failed)
            &&& aborted_saved == JobAction::SaveState(JobResult::Aborted)
            &&& job_next(done, saved).1 == JobAction::Notify(JobResult::Succeeded)
            &&& job_next(failed, saved).1 == JobAction::Notify(JobResult::Failed)
            &&& job_next(aborted, saved).1 == JobAction::Notify(JobResult::Aborted)
            &&& job_next(job_next(done, saved).0, sent).1 == JobAction::End(JobResult::Succeeded)
            &&& job_next(job_next(failed, saved).0, sent).1 == JobAction::End(JobResult::Failed)
            &&& job_next(job_next(aborted, saved).0, sent).1 == JobAction::End(JobResult::Aborted)
            &&& job_next(JobState::Starting, JobEvent::Failed).1 == JobAction::Abort
        }),
{
}

/// A client log is fetched and put in place, decrypted if that is wanted; of a remote one
/// the encrypted file is removed afterwards. It is logged, and only then it is done. There
/// being no log is no error, but whatever fails is.
pub proof fn client_log_is_fetched_in_order(remote: bool, decrypt: bool)
    ensures
        ({
            let done = ClientLogEvent::Finished;
            let failed = ClientLogEvent::Failed;
            let (probing, first) = client_log_next(remote, decrypt, ClientLogState::Start, done);
            let (found, second) = client_log_next(remote, decrypt, probing, done);
            let (third_state, third) = client_log_next(remote, decrypt, found, done);
            let (fourth_state, fourth) = client_log_next(remote, decrypt, third_state, done);
            let fifth = client_log_next(remote, decrypt, fourth_state, done).1;
            &&& first == ClientLogAction::Probe
            &&& client_log_next(remote, decrypt, probing, ClientLogEvent::NoLog).1
                == ClientLogAction::Done
            &&& client_log_next(remote, decrypt, probing, failed).1 == ClientLogAction::Abort
            &&& client_log_next(remote, decrypt, found, failed).1 == ClientLogAction::Abort
            &&& client_log_next(remote, decrypt, third_state, failed).1 == ClientLogAction::Abort
            &&& !decrypt ==> second == ClientLogAction::Place && third
                == ClientLogAction::LogFetched && fourth == ClientLogAction::Done
            &&& decrypt && !remote ==> second == ClientLogAction::Decrypt && third
                == ClientLogAction::LogFetched && fourth == ClientLogAction::Done
            &&& decrypt && remote ==> second == ClientLogAction::Decrypt && third
                == ClientLogAction::RemoveTmp && fourth == ClientLogAction::LogFetched && fifth
                == ClientLogAction::Done && client_log_next(
                remote,
                decrypt,
                fourth_state,
                failed,
            ).1 == ClientLogAction::Abort
        }),
{
}

/// A server that answers that it does not know namespaces is pulled from as one without
/// them exactly if nothing but its root was asked for and no depth; any other answer, and
/// none, is an error of its own.
pub proof fn only_missing_namespaces_fall_back(
    is_root: bool,
    max_depth: Option<usize>,
    code: u16,
)
    ensures
        ({
            let answer = namespace_fallback(is_root, max_depth, RequestFailure::Http { code });
            &&& answer == NamespaceFallback::RootOnly <==> code == 404 && is_root && max_depth
                is None
            &&& answer == NamespaceFallback::NotSupported <==> code == 404 && !(is_root
                && max_depth is None)
            &&& answer == NamespaceFallback::HttpError <==> code != 404
            &&& namespace_fallback(is_root, max_depth, RequestFailure::Other)
                == NamespaceFallback::Failed
        }),
{
}

/// A job pulls unless it is told to push, and says so.
pub proof fn job_pulls_unless_told(job: SyncJob)
    ensures
        job.direction_spec() == SyncDirection::Push <==> job.sync_direction == Some(
            SyncDirection::Push,
        ),
        job.direction_spec() == SyncDirection::Pull ==> job.sync_text() == "sync datastore '"@
            + job.store@ + "' from '"@ + job.far_side() + "'"@,
        job.direction_spec() == SyncDirection::Push ==> job.sync_text() == "sync datastore '"@
            + job.store@ + "' to '"@ + job.far_side() + "'"@,
{
}

/// The summary of a job tells what was transferred, then what was removed if that was looked
/// at, and then that the job ended.
pub proof fn summary_tells_removals(
    direction: SyncDirection,
    stats: SyncStats,
    amount: Seq<char>,
    rate: Seq<char>,
    job_id: Seq<char>,
)
    ensures
        ({
            let lines = closing_lines(direction, stats, amount, rate, job_id);
            &&& lines[0] == transfer_text(direction, stats, amount, rate)
            &&& stats.removed matches Some(removed) ==> lines.len() == 3 && lines[1]
                == removed_text(removed)
            &&& stats.removed is None ==> lines.len() == 2
            &&& lines.last() == "sync job '"@ + job_id + "' end"@
            &&& stats.bytes == 0 ==> lines[0] == "Summary: sync job found no new data to "@
                + direction.text()
        }),
{
}

} // verus!
