//! Requests on S3 endpoints.

use vstd::prelude::*;
use crate::text::{join2, join3};

verus! {

/// Object that a check writes, reads and deletes.
pub const TEST_OBJECT: &'static str = ".s3-client-test";

/// Name of the counters of an endpoint and a bucket, or of a datastore in it.
pub open spec fn counter_id(client: Seq<char>, bucket: Seq<char>, store: Option<Seq<char>>) -> Seq<
    char,
> {
    match store {
        Some(store) => client + "-"@ + bucket + "-"@ + store,
        None => client + "-"@ + bucket,
    }
}

/// Name of the counters of an endpoint and a bucket, or of a datastore in it.
pub fn request_counter_id(s3_client_id: &str, bucket: &str, store_prefix: Option<&str>) -> (r: String)
    ensures
        r@ == counter_id(
            s3_client_id@,
            bucket@,
            match store_prefix {
                Some(store) => Some(store@),
                None => None,
            },
        ),
{
    let mut r = join3(s3_client_id, "-", bucket);
    if let Some(store) = store_prefix {
        r.append("-");
        r.append(store);
    }
    r
}

/// File of counters below the directory `base`.
pub open spec fn counter_file(base: Seq<char>, id: Seq<char>) -> Seq<char> {
    base + "/"@ + id + ".shmem"@
}

/// File of counters below the directory `base`.
pub fn counters_path(base: &str, request_counter_id: &str) -> (r: String)
    ensures
        r@ == counter_file(base@, request_counter_id@),
{
    let mut r = join3(base, "/", request_counter_id);
    r.append(".shmem");
    r
}

/// Steps of the check of an endpoint.
#[derive(Clone, Copy, Debug, PartialEq, Eq, Structural)]
pub enum CheckStep {
    /// Look up the configuration of the endpoint.
    Lookup,
    /// Find out the user that counters belong to.
    FindUser,
    /// Find out the proxy to use.
    FindProxy,
    /// Make the key of the test object.
    MakeKey,
    /// Make a client.
    MakeClient,
    /// See whether the bucket is there.
    HeadBucket,
    /// Write the test object.
    PutObject,
    /// Read the test object.
    GetObject,
    /// Delete the test object.
    DeleteObject,
}

/// The step after another one.
pub open spec fn following(step: CheckStep) -> Option<CheckStep> {
    match step {
        CheckStep::Lookup => Some(CheckStep::FindUser),
        CheckStep::FindUser => Some(CheckStep::FindProxy),
        CheckStep::FindProxy => Some(CheckStep::MakeKey),
        CheckStep::MakeKey => Some(CheckStep::MakeClient),
        CheckStep::MakeClient => Some(CheckStep::HeadBucket),
        CheckStep::HeadBucket => Some(CheckStep::PutObject),
        CheckStep::PutObject => Some(CheckStep::GetObject),
        CheckStep::GetObject => Some(CheckStep::DeleteObject),
        CheckStep::DeleteObject => None,
    }
}

/// What is said of a step that fails, besides its own error.
pub open spec fn failure_context(step: CheckStep) -> Option<Seq<char>> {
    match step {
        CheckStep::Lookup => Some("config lookup failed"@),
        CheckStep::FindUser | CheckStep::FindProxy => None,
        CheckStep::MakeKey => Some("failed to generate s3 object key"@),
        CheckStep::MakeClient => Some("client creation failed"@),
        CheckStep::HeadBucket => Some("head object failed"@),
        CheckStep::PutObject => Some("put object failed"@),
        CheckStep::GetObject => Some("get object failed"@),
        CheckStep::DeleteObject => Some("delete object failed"@),
    }
}

impl CheckStep {
    /// The next step, or `None` if the check is done.
    pub fn next(self) -> (r: Option<CheckStep>)
        ensures
            r == following(self),
    {
        match self {
            CheckStep::Lookup => Some(CheckStep::FindUser),
            CheckStep::FindUser => Some(CheckStep::FindProxy),
            CheckStep::FindProxy => Some(CheckStep::MakeKey),
            CheckStep::MakeKey => Some(CheckStep::MakeClient),
            CheckStep::MakeClient => Some(CheckStep::HeadBucket),
            CheckStep::HeadBucket => Some(CheckStep::PutObject),
            CheckStep::PutObject => Some(CheckStep::GetObject),
            CheckStep::GetObject => Some(CheckStep::DeleteObject),
            CheckStep::DeleteObject => None,
        }
    }

    /// What is said of the step if it fails, besides its own error.
    pub fn context(self) -> (r: Option<&'static str>)
        ensures
            match r {
                Some(text) => failure_context(self) == Some(text@),
                None => failure_context(self) is None,
            },
    {
        match self {
            CheckStep::Lookup => Some("config lookup failed"),
            CheckStep::FindUser | CheckStep::FindProxy => None,
            CheckStep::MakeKey => Some("failed to generate s3 object key"),
            CheckStep::MakeClient => Some("client creation failed"),
            CheckStep::HeadBucket => Some("head object failed"),
            CheckStep::PutObject => Some("put object failed"),
            CheckStep::GetObject => Some("get object failed"),
            CheckStep::DeleteObject => Some("delete object failed"),
        }
    }
}

/// The step after a number of steps that succeeded.
pub open spec fn step_after(n: nat) -> Option<CheckStep>
    decreases n,
{
    if n == 0 {
        Some(CheckStep::Lookup)
    } else {
        match step_after((n - 1) as nat) {
            Some(step) => following(step),
            None => None,
        }
    }
}

/// A check goes from the configuration to the bucket, and ends with the deletion of the
/// test object, which was written and read before.
pub proof fn check_cleans_up()
    ensures
        step_after(0) == Some(CheckStep::Lookup),
        step_after(1) == Some(CheckStep::FindUser),
        step_after(2) == Some(CheckStep::FindProxy),
        step_after(3) == Some(CheckStep::MakeKey),
        step_after(4) == Some(CheckStep::MakeClient),
        step_after(5) == Some(CheckStep::HeadBucket),
        step_after(6) == Some(CheckStep::PutObject),
        step_after(7) == Some(CheckStep::GetObject),
        step_after(8) == Some(CheckStep::DeleteObject),
        step_after(9) is None,
{
    reveal_with_fuel(step_after, 10);
}

/// Context of the error if the counters of an endpoint cannot be opened.
pub const OPEN_COUNTERS_CONTEXT: &'static str = "failed to open shared request counters";

/// Whether counters may be reset: only if their file exists, so that none is made.
/// `printed_path` is the path as it is printed for debugging.
pub fn check_counters_file(is_file: bool, printed_path: &str) -> (r: Result<(), String>)
    ensures
        match r {
            Ok(()) => is_file,
            Err(message) => !is_file && message@ == "Cannot find s3 counters file '"@
                + printed_path@ + "'"@,
        },
{
    if is_file {
        return Ok(());
    }
    Err(join2(join2("Cannot find s3 counters file '", printed_path).as_str(), "'"))
}

} // verus!
