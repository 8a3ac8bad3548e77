//! Parameters of a pull.

use vstd::prelude::*;
use crate::auth::Authid;
use crate::client::repository::{host_given, BackupRepository, RepositoryView};
use crate::namespace::BackupNamespace;

verus! {

/// What is configured of a remote server.
pub struct RemoteConfig {
    pub auth_id: Authid,
    pub host: String,
    pub port: Option<u16>,
}

/// Where data is pulled from.
pub enum PullSource {
    /// A datastore of a remote server.
    Remote { repo: BackupRepository, ns: BackupNamespace },
    /// Another datastore of this server.
    Local { store: String, ns: BackupNamespace },
}

/// Optional settings of a pull, as a job or a request gives them.
pub struct PullOptions {
    pub remove_vanished: Option<bool>,
    pub max_depth: Option<usize>,
    pub group_filter: Option<Vec<String>>,
    pub transfer_last: Option<usize>,
    pub encrypted_only: Option<bool>,
    pub verified_only: Option<bool>,
    pub resync_corrupt: Option<bool>,
    pub worker_threads: Option<usize>,
    pub decryption_keys: Option<Vec<String>>,
}

/// Parameters of a pull.
pub struct PullParameters {
    /// Where data is pulled from.
    pub source: PullSource,
    /// Datastore that is pulled into.
    pub store: String,
    /// Namespace that is pulled into.
    pub ns: BackupNamespace,
    /// Owner of the groups that are pulled; groups that are there already need to
    /// have the same.
    pub owner: Authid,
    /// Remove what exists locally, but not at the source.
    pub remove_vanished: bool,
    /// How many levels of namespaces are pulled; all if not set.
    pub max_depth: Option<usize>,
    /// Filters that reduce the scope.
    pub group_filter: Vec<String>,
    /// How many snapshots of a group are transferred at most.
    pub transfer_last: Option<usize>,
    pub encrypted_only: bool,
    pub verified_only: bool,
    pub resync_corrupt: bool,
    /// How many groups are pulled at the same time.
    pub worker_threads: Option<usize>,
    /// Names of the keys that snapshots are decrypted with.
    pub decryption_keys: Vec<String>,
}

/// A namespace lies so deep that its sub-namespaces would go beyond the limit.
#[derive(Clone, Copy, Debug, PartialEq, Eq, Structural)]
pub struct DepthExceeded {
    pub depth: usize,
    pub max_depth: usize,
    pub limit: usize,
}

/// Whether sub-namespaces down to `max_depth` levels stay within the limit.
pub open spec fn depth_fits(depth: int, max_depth: Option<usize>, limit: usize) -> bool {
    max_depth is Some ==> depth + max_depth->0 <= limit
}

/// Checks that sub-namespaces down to `max_depth` levels stay within the limit.
pub fn check_max_depth(ns: &BackupNamespace, max_depth: usize, limit: usize) -> (r: Result<
    (),
    DepthExceeded,
>)
    ensures
        match r {
            Ok(()) => depth_fits(ns@.len() as int, Some(max_depth), limit),
            Err(e) => {
                &&& !depth_fits(ns@.len() as int, Some(max_depth), limit)
                &&& e.depth == ns@.len()
                &&& e.max_depth == max_depth
                &&& e.limit == limit
            },
        },
{
    let depth: usize = ns.depth();
    if depth > limit || max_depth > limit - depth {
        return Err(DepthExceeded { depth, max_depth, limit });
    }
    Ok(())
}

/// A flag that is off unless it is set.
pub open spec fn flag(value: Option<bool>) -> bool {
    value == Some(true)
}

fn is_set(value: Option<bool>) -> (r: bool)
    ensures
        r == flag(value),
{
    match value {
        Some(value) => value,
        None => false,
    }
}

fn or_empty(list: Option<Vec<String>>) -> (r: Vec<String>)
    ensures
        match list {
            Some(list) => r == list,
            None => r@ == Seq::<String>::empty(),
        },
{
    match list {
        Some(list) => list,
        None => Vec::new(),
    }
}

/// Whether `list` holds what was given, and nothing if none was given.
pub open spec fn given_or_empty(given: Option<Vec<String>>, list: Vec<String>) -> bool {
    match given {
        Some(given) => list == given,
        None => list@.len() == 0,
    }
}

impl PullParameters {
    /// Whether the parameters are those that were given, with defaults for what
    /// was not: flags are off and lists are empty.
    pub open spec fn follows(
        self,
        store: Seq<char>,
        ns: BackupNamespace,
        owner: Authid,
        options: PullOptions,
    ) -> bool {
        &&& self.store@ == store
        &&& self.ns == ns
        &&& self.owner == owner
        &&& self.remove_vanished == flag(options.remove_vanished)
        &&& self.max_depth == options.max_depth
        &&& given_or_empty(options.group_filter, self.group_filter)
        &&& self.transfer_last == options.transfer_last
        &&& self.encrypted_only == flag(options.encrypted_only)
        &&& self.verified_only == flag(options.verified_only)
        &&& self.resync_corrupt == flag(options.resync_corrupt)
        &&& self.worker_threads == options.worker_threads
        &&& given_or_empty(options.decryption_keys, self.decryption_keys)
    }

    /// Parameters of a pull of `remote_ns` of the datastore `remote_store`, which
    /// lies on this server unless `remote` is given, into `ns` of `store`.
    ///
    /// Where a depth is given, both namespaces need to have room for it.
    pub fn new(
        store: String,
        ns: BackupNamespace,
        remote: Option<RemoteConfig>,
        remote_store: String,
        remote_ns: BackupNamespace,
        owner: Authid,
        options: PullOptions,
        depth_limit: usize,
    ) -> (r: Result<PullParameters, DepthExceeded>)
        ensures
            match r {
                Ok(params) => {
                    &&& depth_fits(ns@.len() as int, options.max_depth, depth_limit)
                    &&& depth_fits(remote_ns@.len() as int, options.max_depth, depth_limit)
                    &&& params.follows(store@, ns, owner, options)
                    &&& match (remote, params.source) {
                        (Some(remote), PullSource::Remote { repo, ns: from }) => from == remote_ns
                            && repo@ == (RepositoryView {
                            auth_id: Some(remote.auth_id@),
                            host: host_given(Some(remote.host@)),
                            port: remote.port,
                            store: remote_store@,
                        }),
                        (None, PullSource::Local { store: from_store, ns: from }) => from
                            == remote_ns && from_store == remote_store,
                        _ => false,
                    }
                },
                Err(e) => {
                    &&& options.max_depth == Some(e.max_depth)
                    &&& e.limit == depth_limit
                    &&& if !depth_fits(ns@.len() as int, options.max_depth, depth_limit) {
                        e.depth == ns@.len()
                    } else {
                        !depth_fits(remote_ns@.len() as int, options.max_depth, depth_limit)
                            && e.depth == remote_ns@.len()
                    }
                },
            },
    {
        if let Some(max_depth) = options.max_depth {
            if let Err(err) = check_max_depth(&ns, max_depth, depth_limit) {
                return Err(err);
            }
            if let Err(err) = check_max_depth(&remote_ns, max_depth, depth_limit) {
                return Err(err);
            }
        }
        let source = match remote {
            Some(remote) => PullSource::Remote {
                repo: BackupRepository::new(
                    Some(remote.auth_id),
                    Some(remote.host),
                    remote.port,
                    remote_store,
                ),
                ns: remote_ns,
            },
            None => PullSource::Local { store: remote_store, ns: remote_ns },
        };
        Ok(
            PullParameters {
                source,
                store,
                ns,
                owner,
                remove_vanished: is_set(options.remove_vanished),
                max_depth: options.max_depth,
                group_filter: or_empty(options.group_filter),
                transfer_last: options.transfer_last,
                encrypted_only: is_set(options.encrypted_only),
                verified_only: is_set(options.verified_only),
                resync_corrupt: is_set(options.resync_corrupt),
                worker_threads: options.worker_threads,
                decryption_keys: or_empty(options.decryption_keys),
            },
        )
    }
}

/// Parameters are on exactly where the option is set to that, and take over everything else
/// as it was given, with empty lists for those that were not.
pub proof fn options_are_taken_over(
    params: PullParameters,
    store: Seq<char>,
    ns: BackupNamespace,
    owner: Authid,
    options: PullOptions,
)
    requires
        params.follows(store, ns, owner, options),
    ensures
        params.store@ == store && params.ns == ns && params.owner == owner,
        params.remove_vanished <==> options.remove_vanished == Some(true),
        params.encrypted_only <==> options.encrypted_only == Some(true),
        params.verified_only <==> options.verified_only == Some(true),
        params.resync_corrupt <==> options.resync_corrupt == Some(true),
        params.max_depth == options.max_depth,
        params.transfer_last == options.transfer_last,
        params.worker_threads == options.worker_threads,
        options.group_filter matches Some(list) ==> params.group_filter == list,
        options.group_filter is None ==> params.group_filter@.len() == 0,
        options.decryption_keys matches Some(list) ==> params.decryption_keys == list,
        options.decryption_keys is None ==> params.decryption_keys@.len() == 0,
{
}

/// A namespace has room for a depth exactly if it is not beyond the limit along with that;
/// for no depth there is always room.
pub proof fn depth_is_limited(depth: int, max_depth: usize, limit: usize)
    ensures
        depth_fits(depth, None, limit),
        depth_fits(depth, Some(max_depth), limit) <==> depth + max_depth <= limit,
{
}

} // verus!
