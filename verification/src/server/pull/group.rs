//! Pulling a backup group.
//!
//! Of the snapshots that the source lists, those in progress are dropped and the
//! rest is sorted by time. What is left out by filter, was synced before or goes
//! beyond the number of snapshots to transfer is skipped. After the pull, local
//! snapshots that vanished from the source can be removed.

use std::collections::HashSet;
use vstd::prelude::*;
use crate::server::pull::snapshot::{first_indices, ReadVerifyState};
use crate::server::stats::{RemovedVanishedStats, SkipInfo, SkipReason, StoreProgress, SyncStats};
use crate::sort::{sort_by_key, sorted, Keyed};
use crate::text::{decimal, join2, join3, str_eq, texts, u64_to_string};
use crate::types::{CryptMode, VerifyState, CLIENT_LOG_BLOB_NAME, MANIFEST_BLOB_NAME};

verus! {

broadcast use vstd::std_specs::hash::group_hash_axioms;

/// A file of a snapshot, as a source lists it.
pub struct BackupContent {
    pub filename: String,
    pub crypt_mode: Option<CryptMode>,
}

/// A snapshot of a group, as a source lists it.
pub struct SnapshotListItem {
    /// Time of the backup, which tells the snapshots of a group apart.
    pub time: i64,
    /// Printed name of the snapshot.
    pub name: String,
    /// Size of the snapshot; not known while the backup is in progress.
    pub size: Option<u64>,
    /// Result of the last verification.
    pub verification: Option<VerifyState>,
    pub files: Vec<BackupContent>,
}

impl Keyed for SnapshotListItem {
    open spec fn key_spec(&self) -> int {
        self.time as int
    }

    fn key(&self) -> (r: i128) {
        self.time as i128
    }
}

/// The finished snapshots of a list, in order.
pub open spec fn finished(list: Seq<SnapshotListItem>) -> Seq<SnapshotListItem>
    decreases list.len(),
{
    if list.len() == 0 {
        seq![]
    } else if list.last().size is Some {
        finished(list.drop_last()).push(list.last())
    } else {
        finished(list.drop_last())
    }
}

/// The line about a snapshot that is skipped because its backup is in progress.
pub open spec fn in_progress_text(name: Seq<char>) -> Seq<char> {
    "skipping snapshot "@ + name + " - in-progress backup"@
}

/// The lines about the snapshots of a list that are in progress, in order.
pub open spec fn in_progress_lines(list: Seq<SnapshotListItem>) -> Seq<Seq<char>>
    decreases list.len(),
{
    if list.len() == 0 {
        seq![]
    } else if list.last().size is None {
        in_progress_lines(list.drop_last()).push(in_progress_text(list.last().name@))
    } else {
        in_progress_lines(list.drop_last())
    }
}

/// Drops the snapshots whose backup is in progress: they can not be synced. The
/// second list holds a log line for each of them.
pub fn filter_out_in_progress(snapshots: Vec<SnapshotListItem>) -> (r: (
    Vec<SnapshotListItem>,
    Vec<String>,
))
    ensures
        r.0@ == finished(snapshots@),
        texts(r.1@) == in_progress_lines(snapshots@),
{
    let mut filtered: Vec<SnapshotListItem> = Vec::new();
    let mut lines: Vec<String> = Vec::new();
    let ghost all = snapshots@;
    for item in it: snapshots
        invariant
            it.seq() == all,
            filtered@ == finished(all.take(it.index() as int)),
            texts(lines@) == in_progress_lines(all.take(it.index() as int)),
    {
        proof {
            assert(all.take(it.index() + 1).drop_last() =~= all.take(it.index() as int));
        }
        if item.size.is_none() {
            let line = join3("skipping snapshot ", item.name.as_str(), " - in-progress backup");
            let ghost before = lines@;
            lines.push(line);
            assert(texts(lines@) =~= texts(before).push(line@));
        } else {
            filtered.push(item);
        }
    }
    assert(all.take(all.len() as int) =~= all);
    (filtered, lines)
}

/// Whether a file counts as encrypted: the manifest is only signed, and nothing
/// is asked of the client log.
pub open spec fn content_encrypted(content: BackupContent) -> bool {
    if content.filename@ == MANIFEST_BLOB_NAME@ {
        content.crypt_mode == Some(CryptMode::SignOnly)
    } else if content.filename@ == CLIENT_LOG_BLOB_NAME@ {
        true
    } else {
        content.crypt_mode == Some(CryptMode::Encrypt)
    }
}

/// Whether a snapshot is left out because only verified or only encrypted ones
/// are wanted.
pub open spec fn excluded(item: SnapshotListItem, verified_only: bool, encrypted_only: bool) -> bool {
    ||| verified_only && item.verification != Some(VerifyState::Verified)
    ||| encrypted_only && exists|i: int|
        0 <= i < item.files@.len() && !content_encrypted(#[trigger] item.files@[i])
}

/// Whether a file counts as encrypted.
fn is_content_encrypted(content: &BackupContent) -> (r: bool)
    ensures
        r == content_encrypted(*content),
{
    if str_eq(content.filename.as_str(), MANIFEST_BLOB_NAME) {
        match content.crypt_mode {
            Some(CryptMode::SignOnly) => true,
            _ => false,
        }
    } else if str_eq(content.filename.as_str(), CLIENT_LOG_BLOB_NAME) {
        true
    } else {
        match content.crypt_mode {
            Some(CryptMode::Encrypt) => true,
            _ => false,
        }
    }
}

/// Whether a snapshot is left out because only verified or only encrypted ones
/// are wanted.
pub fn exclude_not_verified_or_encrypted(
    item: &SnapshotListItem,
    verified_only: bool,
    encrypted_only: bool,
) -> (r: bool)
    ensures
        r == excluded(*item, verified_only, encrypted_only),
{
    if verified_only {
        match item.verification {
            Some(VerifyState::Verified) => {},
            _ => {
                return true;
            },
        }
    }
    if encrypted_only {
        for i in 0..item.files.len()
            invariant
                encrypted_only,
                forall|j: int| 0 <= j < i ==> content_encrypted(#[trigger] item.files@[j]),
        {
            if !is_content_encrypted(&item.files[i]) {
                return true;
            }
        }
    }
    false
}

/// Times of the snapshots of a list that are not left out, in order.
pub open spec fn wanted_times(
    list: Seq<SnapshotListItem>,
    verified_only: bool,
    encrypted_only: bool,
) -> Seq<i64>
    decreases list.len(),
{
    if list.len() == 0 {
        seq![]
    } else {
        let before = wanted_times(list.drop_last(), verified_only, encrypted_only);
        if excluded(list.last(), verified_only, encrypted_only) {
            before
        } else {
            before.push(list.last().time)
        }
    }
}

/// Whether a list of times does not decrease.
pub open spec fn times_sorted(times: Seq<i64>) -> bool {
    forall|i: int, j: int| 0 <= i <= j < times.len() ==> times[i] <= times[j]
}

/// The times of the snapshots to consider, sorted, from the finished snapshots
/// that the source lists.
pub fn list_candidates(
    snapshots: Vec<SnapshotListItem>,
    verified_only: bool,
    encrypted_only: bool,
) -> (r: Vec<i64>)
    ensures
        exists|list: Seq<SnapshotListItem>|
            {
                &&& #[trigger] sorted(list)
                &&& list.to_multiset() == snapshots@.to_multiset()
                &&& r@ == wanted_times(list, verified_only, encrypted_only)
            },
        times_sorted(r@),
{
    let list = sort_by_key(snapshots);
    let mut times: Vec<i64> = Vec::new();
    for i in 0..list.len()
        invariant
            times@ == wanted_times(list@.take(i as int), verified_only, encrypted_only),
    {
        assert(list@.take(i + 1).drop_last() =~= list@.take(i as int));
        if !exclude_not_verified_or_encrypted(&list[i], verified_only, encrypted_only) {
            times.push(list[i].time);
        }
    }
    assert(list@.take(list@.len() as int) =~= list@);
    proof {
        wanted_times_are_sorted(list@, verified_only, encrypted_only);
    }
    times
}

proof fn wanted_times_are_sorted(
    list: Seq<SnapshotListItem>,
    verified_only: bool,
    encrypted_only: bool,
)
    requires
        sorted(list),
    ensures
        times_sorted(wanted_times(list, verified_only, encrypted_only)),
        forall|i: int|
            0 <= i < wanted_times(list, verified_only, encrypted_only).len() ==> exists|j: int|
                0 <= j < list.len() && (#[trigger] list[j]).time == #[trigger] wanted_times(
                    list,
                    verified_only,
                    encrypted_only,
                )[i],
    decreases list.len(),
{
    if list.len() > 0 {
        let init = list.drop_last();
        wanted_times_are_sorted(init, verified_only, encrypted_only);
        let before = wanted_times(init, verified_only, encrypted_only);
        let times = wanted_times(list, verified_only, encrypted_only);
        assert forall|i: int| 0 <= i < times.len() implies exists|j: int|
            0 <= j < list.len() && (#[trigger] list[j]).time == #[trigger] times[i] by {
            if i < before.len() {
                let j = choose|j: int|
                    0 <= j < init.len() && (#[trigger] init[j]).time == before[i];
                assert(list[j] == init[j]);
            } else {
                assert(list[list.len() - 1].time == times[i]);
            }
        }
        assert forall|i: int, j: int| 0 <= i <= j < times.len() implies times[i] <= times[j] by {
            if j >= before.len() && i < before.len() {
                let k = choose|k: int|
                    0 <= k < init.len() && (#[trigger] init[k]).time == before[i];
                assert(list[k] == init[k]);
                assert(list[k].key_spec() <= list[list.len() - 1].key_spec());
            }
        }
    }
}

/// The local snapshot of the same time as one of the source.
#[derive(Clone, Copy, Debug, PartialEq, Eq, Structural)]
pub enum LocalSnapshot {
    /// There is none.
    Missing,
    /// There is one, with this verification state.
    Found(ReadVerifyState),
}

/// Whether a local snapshot has to be pulled anew: its verification failed, or
/// its manifest cannot be read.
pub open spec fn resync_needed(resync_corrupt: bool, local: LocalSnapshot) -> bool {
    resync_corrupt && (local == LocalSnapshot::Found(ReadVerifyState::Present(VerifyState::Failed))
        || local == LocalSnapshot::Found(ReadVerifyState::Unreadable))
}

/// Whether a local snapshot has to be pulled anew.
pub fn needs_resync(resync_corrupt: bool, local: LocalSnapshot) -> (r: bool)
    ensures
        r == resync_needed(resync_corrupt, local),
{
    if !resync_corrupt {
        return false;
    }
    match local {
        LocalSnapshot::Found(ReadVerifyState::Present(VerifyState::Failed)) => true,
        LocalSnapshot::Found(ReadVerifyState::Unreadable) => true,
        _ => false,
    }
}

/// A snapshot of the source that may be pulled.
#[derive(Clone, Copy, Debug, PartialEq, Eq, Structural)]
pub struct Candidate {
    pub time: i64,
    /// The local snapshot has to be pulled anew.
    pub corrupt: bool,
}

/// What becomes of a candidate.
#[derive(Clone, Copy, Debug, PartialEq, Eq, Structural)]
pub enum Verdict {
    Pull,
    AlreadySynced,
    TransferLast,
}

/// What the choice of snapshots depends on.
#[derive(Clone, Copy, Debug, PartialEq, Eq, Structural)]
pub struct SelectionRules {
    pub resync_corrupt: bool,
    /// How many of the newest snapshots are transferred at most.
    pub transfer_last: Option<usize>,
    /// Time of the last local snapshot that was finished.
    pub last_sync_time: Option<i64>,
}

/// Time of the last local snapshot; the least time if there is none.
pub open spec fn last_sync(rules: SelectionRules) -> i64 {
    match rules.last_sync_time {
        Some(time) => time,
        None => i64::MIN,
    }
}

/// How many of the oldest candidates go beyond the number to transfer.
pub open spec fn cutoff(rules: SelectionRules, total: nat) -> int {
    match rules.transfer_last {
        Some(count) => if count < total {
            total - count
        } else {
            0
        },
        None => 0,
    }
}

/// What becomes of the candidate at position `pos` of `total`.
///
/// The snapshot of the time of the last sync is always pulled again: its log or
/// its verification state may not have been there last time.
pub open spec fn verdict(rules: SelectionRules, total: nat, pos: int, item: Candidate) -> Verdict {
    if rules.resync_corrupt && item.corrupt {
        Verdict::Pull
    } else if last_sync(rules) > item.time {
        Verdict::AlreadySynced
    } else if pos < cutoff(rules, total) && last_sync(rules) != item.time {
        Verdict::TransferLast
    } else {
        Verdict::Pull
    }
}

/// Those of the first `n` candidates that `which` becomes of, in order.
pub open spec fn chosen(
    rules: SelectionRules,
    candidates: Seq<Candidate>,
    n: nat,
    which: Verdict,
) -> Seq<Candidate>
    decreases n,
{
    if n == 0 {
        seq![]
    } else {
        let before = chosen(rules, candidates, (n - 1) as nat, which);
        let item = candidates[n - 1];
        if verdict(rules, candidates.len(), n - 1, item) == which {
            before.push(item)
        } else {
            before
        }
    }
}

/// The times of some candidates.
pub open spec fn times_of(items: Seq<Candidate>) -> Seq<i64> {
    Seq::new(items.len(), |i: int| items[i].time)
}

/// The snapshots to pull, and summaries of those that are skipped.
pub struct Selection {
    pub list: Vec<Candidate>,
    pub already_synced: SkipInfo,
    pub transfer_last: SkipInfo,
}

/// Chooses the snapshots to pull.
pub fn select_snapshots(rules: &SelectionRules, candidates: &Vec<Candidate>) -> (r: Selection)
    ensures
        r.list@ == chosen(*rules, candidates@, candidates@.len(), Verdict::Pull),
        r.already_synced == SkipInfo::of(
            SkipReason::AlreadySynced,
            times_of(chosen(*rules, candidates@, candidates@.len(), Verdict::AlreadySynced)),
        ),
        r.transfer_last == SkipInfo::of(
            SkipReason::TransferLast,
            times_of(chosen(*rules, candidates@, candidates@.len(), Verdict::TransferLast)),
        ),
{
    let last_sync_time: i64 = match rules.last_sync_time {
        Some(time) => time,
        None => i64::MIN,
    };
    let total: usize = candidates.len();
    let limit: usize = match rules.transfer_last {
        Some(count) => total.saturating_sub(count),
        None => 0,
    };
    let mut list: Vec<Candidate> = Vec::new();
    let mut already_synced = SkipInfo::new(SkipReason::AlreadySynced);
    let mut transfer_last = SkipInfo::new(SkipReason::TransferLast);
    assert(times_of(Seq::<Candidate>::empty()) =~= Seq::<i64>::empty());
    for pos in 0..total
        invariant
            total == candidates@.len(),
            limit == cutoff(*rules, total as nat),
            last_sync_time == last_sync(*rules),
            list@ == chosen(*rules, candidates@, pos as nat, Verdict::Pull),
            already_synced == SkipInfo::of(
                SkipReason::AlreadySynced,
                times_of(chosen(*rules, candidates@, pos as nat, Verdict::AlreadySynced)),
            ),
            transfer_last == SkipInfo::of(
                SkipReason::TransferLast,
                times_of(chosen(*rules, candidates@, pos as nat, Verdict::TransferLast)),
            ),
            already_synced.count <= pos,
            transfer_last.count <= pos,
    {
        let item: Candidate = candidates[pos];
        proof {
            let synced = chosen(*rules, candidates@, pos as nat, Verdict::AlreadySynced);
            let beyond = chosen(*rules, candidates@, pos as nat, Verdict::TransferLast);
            assert(times_of(synced.push(item)) =~= times_of(synced).push(item.time));
            assert(times_of(beyond.push(item)) =~= times_of(beyond).push(item.time));
            assert(times_of(synced).push(item.time).drop_last() =~= times_of(synced));
            assert(times_of(beyond).push(item.time).drop_last() =~= times_of(beyond));
        }
        if rules.resync_corrupt && item.corrupt {
            list.push(item);
        } else if last_sync_time > item.time {
            already_synced.update(item.time);
        } else if pos < limit && last_sync_time != item.time {
            transfer_last.update(item.time);
        } else {
            list.push(item);
        }
    }
    Selection { list, already_synced, transfer_last }
}

/// Every candidate is either pulled or counted as skipped, exactly once.
pub proof fn every_candidate_is_accounted_for(
    rules: SelectionRules,
    candidates: Seq<Candidate>,
    n: nat,
)
    requires
        n <= candidates.len(),
    ensures
        chosen(rules, candidates, n, Verdict::Pull).len() + chosen(
            rules,
            candidates,
            n,
            Verdict::AlreadySynced,
        ).len() + chosen(rules, candidates, n, Verdict::TransferLast).len() == n,
    decreases n,
{
    if n > 0 {
        every_candidate_is_accounted_for(rules, candidates, (n - 1) as nat);
    }
}

/// A candidate is among the chosen ones exactly if its verdict says so.
pub proof fn chosen_by_verdict(
    rules: SelectionRules,
    candidates: Seq<Candidate>,
    n: nat,
    which: Verdict,
)
    requires
        n <= candidates.len(),
    ensures
        forall|i: int|
            0 <= i < n && verdict(rules, candidates.len(), i, candidates[i]) == which
                ==> chosen(rules, candidates, n, which).contains(#[trigger] candidates[i]),
        forall|x: Candidate| #[trigger]
            chosen(rules, candidates, n, which).contains(x) ==> exists|i: int|
                0 <= i < n && #[trigger] candidates[i] == x && verdict(
                    rules,
                    candidates.len(),
                    i,
                    x,
                ) == which,
    decreases n,
{
    if n > 0 {
        let m = (n - 1) as nat;
        chosen_by_verdict(rules, candidates, m, which);
        let before = chosen(rules, candidates, m, which);
        let after = chosen(rules, candidates, n, which);
        assert forall|i: int|
            0 <= i < n && verdict(rules, candidates.len(), i, candidates[i]) == which implies
            after.contains(#[trigger] candidates[i]) by {
            if i < m {
                assert(before.contains(candidates[i]));
                let k = before.index_of(candidates[i]);
                assert(after[k] == candidates[i]);
            } else {
                assert(after[after.len() - 1] == candidates[i]);
            }
        }
        assert forall|x: Candidate| #[trigger] after.contains(x) implies exists|i: int|
            0 <= i < n && #[trigger] candidates[i] == x && verdict(rules, candidates.len(), i, x)
                == which by {
            let k = after.index_of(x);
            if k < before.len() {
                assert(before[k] == x);
                assert(before.contains(x));
            } else {
                assert(candidates[n - 1] == x);
            }
        }
    }
}

/// With `transfer_last` set, each of the newest snapshots of that number is
/// pulled unless it is older than the last sync, and any other only if it is
/// corrupt or of the time of the last sync.
pub proof fn newest_snapshots_are_pulled(
    rules: SelectionRules,
    total: nat,
    count: usize,
    pos: int,
    item: Candidate,
)
    requires
        rules.transfer_last == Some(count),
        0 <= pos < total,
    ensures
        pos >= total - count && item.time >= last_sync(rules) ==> verdict(rules, total, pos, item)
            == Verdict::Pull,
        pos < total - count && item.time != last_sync(rules) && !(rules.resync_corrupt
            && item.corrupt) ==> verdict(rules, total, pos, item) != Verdict::Pull,
{
}

/// The snapshot of the time of the last sync is pulled again in any case.
pub proof fn last_snapshot_is_resynced(
    rules: SelectionRules,
    total: nat,
    pos: int,
    item: Candidate,
)
    requires
        rules.last_sync_time == Some(item.time),
    ensures
        verdict(rules, total, pos, item) == Verdict::Pull,
{
}

/// Snapshots are pulled in the order of the candidates: oldest first.
pub proof fn snapshots_are_pulled_in_order(
    rules: SelectionRules,
    candidates: Seq<Candidate>,
    n: nat,
)
    requires
        n <= candidates.len(),
        times_sorted(times_of(candidates)),
    ensures
        times_sorted(times_of(chosen(rules, candidates, n, Verdict::Pull))),
        forall|i: int|
            0 <= i < chosen(rules, candidates, n, Verdict::Pull).len() && n > 0 ==> (
            #[trigger] chosen(rules, candidates, n, Verdict::Pull)[i]).time <= candidates[n
                - 1].time,
    decreases n,
{
    if n > 0 {
        let m = (n - 1) as nat;
        snapshots_are_pulled_in_order(rules, candidates, m);
        let before = chosen(rules, candidates, m, Verdict::Pull);
        let after = chosen(rules, candidates, n, Verdict::Pull);
        assert(times_of(candidates)[n - 1] == candidates[n - 1].time);
        if m > 0 {
            assert(times_of(candidates)[m - 1] <= times_of(candidates)[n - 1]);
        }
        assert forall|i: int| 0 <= i < after.len() implies (#[trigger] after[i]).time
            <= candidates[n - 1].time by {
            if i < before.len() {
                assert(after[i] == before[i]);
                assert(before[i].time <= candidates[m - 1].time);
            }
        }
        assert forall|i: int, j: int| 0 <= i <= j < times_of(after).len() implies times_of(after)[i]
            <= times_of(after)[j] by {
            if j < before.len() {
                assert(times_of(before)[i] <= times_of(before)[j]);
            }
        }
    }
}

/// What becomes of a local snapshot when vanished ones are removed.
#[derive(Clone, Copy, Debug, PartialEq, Eq, Structural)]
pub enum VanishedVerdict {
    /// The source still has it.
    Keep,
    /// It vanished, but it is protected.
    Protected,
    /// It vanished.
    Remove,
}

/// What becomes of a local snapshot when vanished ones are removed.
pub open spec fn vanished(source: Set<i64>, time: i64, protected: bool) -> VanishedVerdict {
    if source.contains(time) {
        VanishedVerdict::Keep
    } else if protected {
        VanishedVerdict::Protected
    } else {
        VanishedVerdict::Remove
    }
}

/// Times of the snapshots that a source lists.
pub open spec fn listed_times(list: Seq<SnapshotListItem>) -> Seq<i64> {
    Seq::new(list.len(), |i: int| list[i].time)
}

/// The snapshots that exist at the source, whether or not they are pulled.
pub fn source_snapshots(list: &Vec<SnapshotListItem>) -> (r: HashSet<i64>)
    ensures
        r@ == listed_times(list@).to_set(),
{
    let mut set: HashSet<i64> = HashSet::new();
    let ghost times = listed_times(list@);
    for i in 0..list.len()
        invariant
            times == listed_times(list@),
            set@ == times.take(i as int).to_set(),
    {
        set.insert(list[i].time);
        proof {
            let before = times.take(i as int);
            let after = times.take(i + 1);
            assert(after =~= before.push(times[i as int]));
            assert(after.to_set() =~= before.to_set().insert(times[i as int])) by {
                assert forall|t: i64| after.to_set().contains(t) <==> before.to_set().insert(
                    times[i as int],
                ).contains(t) by {
                    if before.contains(t) {
                        let k = before.index_of(t);
                        assert(after[k] == t);
                    }
                    if t == times[i as int] {
                        assert(after[i as int] == t);
                    }
                }
            }
        }
    }
    assert(times.take(times.len() as int) =~= times);
    set
}

/// What becomes of a local snapshot when vanished ones are removed.
pub fn check_vanished(source: &HashSet<i64>, time: i64, protected: bool) -> (r: VanishedVerdict)
    ensures
        r == vanished(source@, time, protected),
{
    if source.contains(&time) {
        VanishedVerdict::Keep
    } else if protected {
        VanishedVerdict::Protected
    } else {
        VanishedVerdict::Remove
    }
}

/// Neither a protected snapshot nor one that the source still has is removed.
pub proof fn only_vanished_snapshots_are_removed(source: Set<i64>, time: i64, protected: bool)
    ensures
        vanished(source, time, protected) == VanishedVerdict::Keep <==> source.contains(time),
        vanished(source, time, protected) == VanishedVerdict::Protected <==> !source.contains(time)
            && protected,
        vanished(source, time, protected) == VanishedVerdict::Remove <==> !source.contains(time)
            && !protected,
{
}

/// A snapshot that the source lists is kept, also if it is in progress there or
/// left out because only verified or only encrypted ones are wanted.
pub proof fn listed_snapshot_is_kept(list: Seq<SnapshotListItem>, i: int, protected: bool)
    requires
        0 <= i < list.len(),
    ensures
        vanished(listed_times(list).to_set(), list[i].time, protected) == VanishedVerdict::Keep,
{
    assert(listed_times(list)[i] == list[i].time);
}

/// Log line for a protected snapshot that vanished.
pub fn keep_vanished_line(prefix: &str, snapshot: &str) -> (r: String)
    ensures
        r@ == prefix@ + ": don't delete vanished snapshot "@ + snapshot@ + " (protected)"@,
{
    let mut r = join3(prefix, ": don't delete vanished snapshot ", snapshot);
    r.append(" (protected)");
    r
}

/// Log line for a snapshot that is removed because it vanished.
pub fn remove_vanished_line(snapshot: &str) -> (r: String)
    ensures
        r@ == "delete vanished snapshot "@ + snapshot@,
{
    join2("delete vanished snapshot ", snapshot)
}

/// Log line for the progress of a group that is pulled along with others.
pub fn parallel_progress_line(progress: &StoreProgress, group: &str) -> (r: String)
    ensures
        r@ == "snapshot "@ + decimal(progress.done_snapshots as nat) + "/"@ + decimal(
            progress.group_snapshots as nat,
        ) + " within "@ + group@ + " is done, "@ + decimal(progress.done_groups as nat) + "/"@
            + decimal(progress.total_groups as nat) + " groups done"@,
{
    let mut r = join3("snapshot ", u64_to_string(progress.done_snapshots).as_str(), "/");
    r.append(u64_to_string(progress.group_snapshots).as_str());
    r.append(" within ");
    r.append(group);
    r.append(" is done, ");
    r.append(u64_to_string(progress.done_groups).as_str());
    r.append("/");
    r.append(u64_to_string(progress.total_groups).as_str());
    r.append(" groups done");
    r
}

/// Whether the chunks of the last local snapshot may be reused: not if its
/// verification failed.
pub fn reuses_last_backup(verification: Option<VerifyState>) -> (r: bool)
    ensures
        r == (verification != Some(VerifyState::Failed)),
{
    match verification {
        Some(VerifyState::Failed) => false,
        _ => true,
    }
}

/// What decides how a group is pulled.
#[derive(Clone, Copy, Debug, PartialEq, Eq, Structural)]
pub struct GroupPull {
    /// Remove snapshots that vanished from the source.
    pub remove_vanished: bool,
    /// Number of workers that pull groups at the same time.
    pub worker_threads: Option<usize>,
}

/// How far a group has been pulled.
#[derive(Clone, Copy, Debug, PartialEq, Eq, Structural)]
pub enum GroupPhase {
    Pulling(usize),
    LoggingProgress { pos: usize, ok: bool },
    ListingLocal,
    CheckingLocal(usize),
    LoggingProtected(usize),
    LoggingRemove(usize),
    Removing(usize),
    LoggingDone,
    Complete,
    Failed,
}

/// State of the pull of a group.
#[derive(Clone, Copy, Debug, PartialEq, Eq, Structural)]
pub struct GroupState {
    pub phase: GroupPhase,
    /// Number of snapshots to pull.
    pub snapshots: usize,
    /// Number of local snapshots, once they are listed.
    pub local: usize,
    pub progress: StoreProgress,
    pub stats: SyncStats,
}

/// What the environment reports of the last action.
#[derive(Clone, Copy, Debug, PartialEq, Eq, Structural)]
pub enum GroupEvent {
    /// The action was done; there is nothing more to report.
    Finished,
    /// The snapshot was pulled; so many groups are done meanwhile.
    Pulled { stats: SyncStats, done_groups: u64 },
    /// The snapshot could not be pulled; so many groups are done meanwhile.
    PullFailed { done_groups: u64 },
    /// There are so many local snapshots.
    Listed(usize),
    /// What becomes of the local snapshot.
    Checked(VanishedVerdict),
    /// The action failed.
    Failed,
}

/// What the environment has to do next.
#[derive(Clone, Copy, Debug, PartialEq, Eq, Structural)]
pub enum GroupAction {
    /// Pull the snapshot of this index.
    PullSnapshot(usize),
    /// Log the progress, as that of one group among several if set.
    LogProgress { parallel: bool },
    /// List the local snapshots.
    ListLocal,
    /// Tell what becomes of the local snapshot of this index.
    CheckLocal(usize),
    /// Log that the snapshot is kept.
    LogProtected(usize),
    /// Log that the snapshot is removed.
    LogRemove(usize),
    /// Remove the snapshot of this index.
    RemoveSnapshot(usize),
    /// Log that the group is done.
    LogDone,
    /// The pull is complete.
    Complete(SyncStats),
    /// Give up with the error of the snapshot that could not be pulled.
    Abort,
}

/// One removed snapshot.
pub open spec fn one_removed() -> SyncStats {
    SyncStats {
        chunk_count: 0,
        bytes: 0,
        elapsed: 0,
        removed: Some(RemovedVanishedStats { groups: 0, snapshots: 1, namespaces: 0 }),
    }
}

/// The state with another phase.
pub open spec fn group_at(state: GroupState, phase: GroupPhase) -> GroupState {
    GroupState { phase, ..state }
}

/// Whether several groups are pulled at the same time.
pub open spec fn is_parallel(pull: GroupPull) -> bool {
    pull.worker_threads is Some && pull.worker_threads->0 > 1
}

/// Whether the groups are pulled one by one.
pub open spec fn is_serial(pull: GroupPull) -> bool {
    pull.worker_threads is None || pull.worker_threads->0 == 1
}

/// What follows once all snapshots before `pos` were pulled.
pub open spec fn next_snapshot(pull: GroupPull, state: GroupState, pos: usize) -> (
    GroupState,
    GroupAction,
) {
    if pos < state.snapshots {
        (group_at(state, GroupPhase::Pulling(pos)), GroupAction::PullSnapshot(pos))
    } else if pull.remove_vanished {
        (group_at(state, GroupPhase::ListingLocal), GroupAction::ListLocal)
    } else {
        group_end(pull, state)
    }
}

/// What follows once all local snapshots before `pos` were looked at.
pub open spec fn next_local(pull: GroupPull, state: GroupState, pos: usize) -> (
    GroupState,
    GroupAction,
) {
    if pos < state.local {
        (group_at(state, GroupPhase::CheckingLocal(pos)), GroupAction::CheckLocal(pos))
    } else {
        group_end(pull, state)
    }
}

/// The end of the pull of a group.
pub open spec fn group_end(pull: GroupPull, state: GroupState) -> (GroupState, GroupAction) {
    if is_parallel(pull) {
        (group_at(state, GroupPhase::LoggingDone), GroupAction::LogDone)
    } else {
        (group_at(state, GroupPhase::Complete), GroupAction::Complete(state.stats))
    }
}

/// The progress after the snapshot at `pos`.
pub open spec fn progress_after(state: GroupState, pos: usize, done_groups: u64) -> StoreProgress {
    StoreProgress { done_groups, done_snapshots: (pos + 1) as u64, ..state.progress }
}

/// The first state and action of a pull of so many snapshots.
pub open spec fn group_start(pull: GroupPull, snapshots: usize, total_groups: u64) -> (
    GroupState,
    GroupAction,
) {
    next_snapshot(
        pull,
        GroupState {
            phase: GroupPhase::Pulling(0),
            snapshots,
            local: 0,
            progress: StoreProgress {
                done_groups: 0,
                done_snapshots: 0,
                total_groups,
                group_snapshots: snapshots as u64,
            },
            stats: SyncStats::zero(),
        },
        0,
    )
}

/// The next state and action.
pub open spec fn group_next(pull: GroupPull, state: GroupState, event: GroupEvent) -> (
    GroupState,
    GroupAction,
) {
    match (state.phase, event) {
        (GroupPhase::Pulling(pos), GroupEvent::Pulled { stats, done_groups }) => (
            GroupState {
                phase: GroupPhase::LoggingProgress { pos, ok: true },
                progress: progress_after(state, pos, done_groups),
                stats: state.stats.plus(stats),
                ..state
            },
            GroupAction::LogProgress { parallel: !is_serial(pull) },
        ),
        (GroupPhase::Pulling(pos), GroupEvent::PullFailed { done_groups }) => (
            GroupState {
                phase: GroupPhase::LoggingProgress { pos, ok: false },
                progress: progress_after(state, pos, done_groups),
                ..state
            },
            GroupAction::LogProgress { parallel: !is_serial(pull) },
        ),
        (GroupPhase::LoggingProgress { pos, ok }, GroupEvent::Finished) => if ok {
            next_snapshot(pull, state, (pos + 1) as usize)
        } else {
            (group_at(state, GroupPhase::Failed), GroupAction::Abort)
        },
        (GroupPhase::ListingLocal, GroupEvent::Listed(local)) => next_local(
            pull,
            GroupState { local, ..state },
            0,
        ),
        (GroupPhase::CheckingLocal(pos), GroupEvent::Checked(verdict)) => match verdict {
            VanishedVerdict::Keep => next_local(pull, state, (pos + 1) as usize),
            VanishedVerdict::Protected => (
                group_at(state, GroupPhase::LoggingProtected(pos)),
                GroupAction::LogProtected(pos),
            ),
            VanishedVerdict::Remove => (
                group_at(state, GroupPhase::LoggingRemove(pos)),
                GroupAction::LogRemove(pos),
            ),
        },
        (GroupPhase::LoggingProtected(pos), GroupEvent::Finished) => next_local(
            pull,
            state,
            (pos + 1) as usize,
        ),
        (GroupPhase::LoggingRemove(pos), GroupEvent::Finished) => (
            group_at(state, GroupPhase::Removing(pos)),
            GroupAction::RemoveSnapshot(pos),
        ),
        (GroupPhase::Removing(pos), GroupEvent::Finished) => next_local(
            pull,
            GroupState { stats: state.stats.plus(one_removed()), ..state },
            (pos + 1) as usize,
        ),
        (GroupPhase::LoggingDone, GroupEvent::Finished) => (
            group_at(state, GroupPhase::Complete),
            GroupAction::Complete(state.stats),
        ),
        _ => (group_at(state, GroupPhase::Failed), GroupAction::Abort),
    }
}

/// The positions of a state lie within its lists.
pub open spec fn group_index_ok(state: GroupState) -> bool {
    match state.phase {
        GroupPhase::Pulling(pos) => pos < state.snapshots,
        GroupPhase::LoggingProgress { pos, .. } => pos < state.snapshots,
        GroupPhase::CheckingLocal(pos)
        | GroupPhase::LoggingProtected(pos)
        | GroupPhase::LoggingRemove(pos)
        | GroupPhase::Removing(pos) => pos < state.local,
        _ => true,
    }
}

/// Whether the statistics that follow from `event` can be added to those of `state`.
pub open spec fn group_stats_fit(state: GroupState, event: GroupEvent) -> bool {
    match (state.phase, event) {
        (GroupPhase::Pulling(_), GroupEvent::Pulled { stats, .. }) => state.stats.fits(stats),
        (GroupPhase::Removing(_), GroupEvent::Finished) => state.stats.fits(one_removed()),
        _ => true,
    }
}

impl GroupState {
    fn at(self, phase: GroupPhase) -> (r: GroupState)
        ensures
            r == group_at(self, phase),
    {
        GroupState {
            phase,
            snapshots: self.snapshots,
            local: self.local,
            progress: self.progress,
            stats: self.stats,
        }
    }

    fn with_progress(self, pos: usize, done_groups: u64) -> (r: GroupState)
        requires
            pos < usize::MAX,
        ensures
            r == (GroupState { progress: progress_after(self, pos, done_groups), ..self }),
    {
        let progress = StoreProgress {
            done_groups,
            done_snapshots: pos as u64 + 1,
            total_groups: self.progress.total_groups,
            group_snapshots: self.progress.group_snapshots,
        };
        GroupState {
            phase: self.phase,
            snapshots: self.snapshots,
            local: self.local,
            progress,
            stats: self.stats,
        }
    }

    fn with_stats(self, stats: SyncStats) -> (r: GroupState)
        requires
            self.stats.fits(stats),
        ensures
            r == (GroupState { stats: self.stats.plus(stats), ..self }),
    {
        let mut sum = self.stats;
        sum.add(stats);
        GroupState {
            phase: self.phase,
            snapshots: self.snapshots,
            local: self.local,
            progress: self.progress,
            stats: sum,
        }
    }
}

impl GroupPull {
    fn threads(&self) -> (r: usize)
        ensures
            is_parallel(*self) <==> r > 1,
            is_serial(*self) <==> r == 1,
    {
        match self.worker_threads {
            Some(threads) => threads,
            None => 1,
        }
    }

    fn end(&self, state: GroupState) -> (r: (GroupState, GroupAction))
        ensures
            r == group_end(*self, state),
    {
        if self.threads() > 1 {
            (state.at(GroupPhase::LoggingDone), GroupAction::LogDone)
        } else {
            (state.at(GroupPhase::Complete), GroupAction::Complete(state.stats))
        }
    }

    fn next_snapshot(&self, state: GroupState, pos: usize) -> (r: (GroupState, GroupAction))
        ensures
            r == next_snapshot(*self, state, pos),
    {
        if pos < state.snapshots {
            (state.at(GroupPhase::Pulling(pos)), GroupAction::PullSnapshot(pos))
        } else if self.remove_vanished {
            (state.at(GroupPhase::ListingLocal), GroupAction::ListLocal)
        } else {
            self.end(state)
        }
    }

    fn next_local(&self, state: GroupState, pos: usize) -> (r: (GroupState, GroupAction))
        ensures
            r == next_local(*self, state, pos),
    {
        if pos < state.local {
            (state.at(GroupPhase::CheckingLocal(pos)), GroupAction::CheckLocal(pos))
        } else {
            self.end(state)
        }
    }

    /// The first state and action of a pull of so many snapshots.
    pub fn start(&self, snapshots: usize, total_groups: u64) -> (r: (GroupState, GroupAction))
        ensures
            r == group_start(*self, snapshots, total_groups),
            group_index_ok(r.0),
    {
        let progress = StoreProgress {
            done_groups: 0,
            done_snapshots: 0,
            total_groups,
            group_snapshots: snapshots as u64,
        };
        let state = GroupState {
            phase: GroupPhase::Pulling(0),
            snapshots,
            local: 0,
            progress,
            stats: SyncStats::default(),
        };
        self.next_snapshot(state, 0)
    }

    /// Moves on after `event` and says what to do next.
    pub fn step(&self, state: GroupState, event: GroupEvent) -> (r: (GroupState, GroupAction))
        requires
            group_index_ok(state),
            group_stats_fit(state, event),
        ensures
            r == group_next(*self, state, event),
            group_index_ok(r.0),
    {
        match (state.phase, event) {
            (GroupPhase::Pulling(pos), GroupEvent::Pulled { stats, done_groups }) => {
                let state = state.with_stats(stats).with_progress(pos, done_groups);
                (
                    state.at(GroupPhase::LoggingProgress { pos, ok: true }),
                    GroupAction::LogProgress { parallel: self.threads() != 1 },
                )
            },
            (GroupPhase::Pulling(pos), GroupEvent::PullFailed { done_groups }) => {
                let state = state.with_progress(pos, done_groups);
                (
                    state.at(GroupPhase::LoggingProgress { pos, ok: false }),
                    GroupAction::LogProgress { parallel: self.threads() != 1 },
                )
            },
            (GroupPhase::LoggingProgress { pos, ok }, GroupEvent::Finished) => {
                if ok {
                    self.next_snapshot(state, pos + 1)
                } else {
                    (state.at(GroupPhase::Failed), GroupAction::Abort)
                }
            },
            (GroupPhase::ListingLocal, GroupEvent::Listed(local)) => {
                let state = GroupState {
                    phase: state.phase,
                    snapshots: state.snapshots,
                    local,
                    progress: state.progress,
                    stats: state.stats,
                };
                self.next_local(state, 0)
            },
            (GroupPhase::CheckingLocal(pos), GroupEvent::Checked(verdict)) => match verdict {
                VanishedVerdict::Keep => self.next_local(state, pos + 1),
                VanishedVerdict::Protected => (
                    state.at(GroupPhase::LoggingProtected(pos)),
                    GroupAction::LogProtected(pos),
                ),
                VanishedVerdict::Remove => (
                    state.at(GroupPhase::LoggingRemove(pos)),
                    GroupAction::LogRemove(pos),
                ),
            },
            (GroupPhase::LoggingProtected(pos), GroupEvent::Finished) => self.next_local(
                state,
                pos + 1,
            ),
            (GroupPhase::LoggingRemove(pos), GroupEvent::Finished) => (
                state.at(GroupPhase::Removing(pos)),
                GroupAction::RemoveSnapshot(pos),
            ),
            (GroupPhase::Removing(pos), GroupEvent::Finished) => {
                let removed = RemovedVanishedStats { groups: 0, snapshots: 1, namespaces: 0 };
                let state = state.with_stats(SyncStats::from(removed));
                self.next_local(state, pos + 1)
            },
            (GroupPhase::LoggingDone, GroupEvent::Finished) => (
                state.at(GroupPhase::Complete),
                GroupAction::Complete(state.stats),
            ),
            _ => (state.at(GroupPhase::Failed), GroupAction::Abort),
        }
    }
}

/// A state and the action that leads on from it, after a list of events.
pub open spec fn group_run(
    pull: GroupPull,
    snapshots: usize,
    total_groups: u64,
    events: Seq<GroupEvent>,
) -> (GroupState, GroupAction)
    decreases events.len(),
{
    if events.len() == 0 {
        group_start(pull, snapshots, total_groups)
    } else {
        group_next(
            pull,
            group_run(pull, snapshots, total_groups, events.drop_last()).0,
            events.last(),
        )
    }
}

/// A local snapshot is removed only after it was found to have vanished, and
/// only if vanished snapshots are to be removed at all.
pub proof fn removal_follows_verdict(
    pull: GroupPull,
    snapshots: usize,
    total_groups: u64,
    events: Seq<GroupEvent>,
)
    ensures
        match group_run(pull, snapshots, total_groups, events).0.phase {
            GroupPhase::LoggingRemove(_) | GroupPhase::Removing(_) => pull.remove_vanished
                && events.contains(GroupEvent::Checked(VanishedVerdict::Remove)),
            GroupPhase::ListingLocal
            | GroupPhase::CheckingLocal(_)
            | GroupPhase::LoggingProtected(_) => pull.remove_vanished,
            _ => true,
        },
    decreases events.len(),
{
    if events.len() > 0 {
        let init = events.drop_last();
        removal_follows_verdict(pull, snapshots, total_groups, init);
        let removed = GroupEvent::Checked(VanishedVerdict::Remove);
        if init.contains(removed) {
            let i = init.index_of(removed);
            assert(events[i] == removed);
        }
        if events.last() == removed {
            assert(events[events.len() - 1] == removed);
        }
    }
}

/// The first snapshot that cannot be pulled ends the pull of its group: once its
/// progress is logged, nothing more is pulled or removed.
pub proof fn first_error_ends_the_group(pull: GroupPull, state: GroupState, done_groups: u64, event: GroupEvent)
    requires
        state.phase is Pulling,
    ensures
        ({
            let logged = group_next(pull, state, GroupEvent::PullFailed { done_groups });
            let ended = group_next(pull, logged.0, event);
            &&& logged.1 is LogProgress
            &&& logged.0.stats == state.stats
            &&& ended.0.phase == GroupPhase::Failed
            &&& ended.1 == GroupAction::Abort
        }),
{
}

// ---- what is asked for, answer by answer ----

/// What was asked for last, after a list of answers.
pub open spec fn group_asked(
    pull: GroupPull,
    snapshots: usize,
    total_groups: u64,
    events: Seq<GroupEvent>,
) -> GroupAction {
    group_run(pull, snapshots, total_groups, events).1
}

/// Number of local snapshots that was reported last.
pub open spec fn local_listed(events: Seq<GroupEvent>) -> usize
    decreases events.len(),
{
    if events.len() == 0 {
        0
    } else {
        match events.last() {
            GroupEvent::Listed(local) => local,
            _ => local_listed(events.drop_last()),
        }
    }
}

/// What a phase waits for.
spec fn group_awaited(pull: GroupPull, state: GroupState) -> GroupAction {
    match state.phase {
        GroupPhase::Pulling(pos) => GroupAction::PullSnapshot(pos),
        GroupPhase::LoggingProgress { .. } => GroupAction::LogProgress {
            parallel: !(pull.worker_threads is None || pull.worker_threads == Some(1usize)),
        },
        GroupPhase::ListingLocal => GroupAction::ListLocal,
        GroupPhase::CheckingLocal(pos) => GroupAction::CheckLocal(pos),
        GroupPhase::LoggingProtected(pos) => GroupAction::LogProtected(pos),
        GroupPhase::LoggingRemove(pos) => GroupAction::LogRemove(pos),
        GroupPhase::Removing(pos) => GroupAction::RemoveSnapshot(pos),
        GroupPhase::LoggingDone => GroupAction::LogDone,
        GroupPhase::Complete => GroupAction::Complete(state.stats),
        GroupPhase::Failed => GroupAction::Abort,
    }
}

/// Phases that look at local snapshots.
spec fn at_local(phase: GroupPhase) -> bool {
    phase is CheckingLocal || phase is LoggingProtected || phase is LoggingRemove || phase
        is Removing
}

proof fn group_run_matches(
    pull: GroupPull,
    snapshots: usize,
    total_groups: u64,
    events: Seq<GroupEvent>,
)
    ensures
        ({
            let (state, action) = group_run(pull, snapshots, total_groups, events);
            &&& action == group_awaited(pull, state)
            &&& state.snapshots == snapshots
            &&& state.progress.total_groups == total_groups
            &&& state.progress.group_snapshots == snapshots
            &&& at_local(state.phase) ==> state.local == local_listed(events)
            &&& group_index_ok(state)
        }),
    decreases events.len(),
{
    if events.len() > 0 {
        group_run_matches(pull, snapshots, total_groups, events.drop_last());
    }
}

/// The snapshots that were pulled when they were asked for, in this order.
pub open spec fn snapshots_pulled(
    pull: GroupPull,
    snapshots: usize,
    total_groups: u64,
    events: Seq<GroupEvent>,
) -> Seq<usize>
    decreases events.len(),
{
    if events.len() == 0 {
        seq![]
    } else {
        let init = events.drop_last();
        let before = snapshots_pulled(pull, snapshots, total_groups, init);
        match (group_asked(pull, snapshots, total_groups, init), events.last()) {
            (GroupAction::PullSnapshot(pos), GroupEvent::Pulled { .. }) => before.push(pos),
            _ => before,
        }
    }
}

/// The local snapshots that were judged when they were asked for, with their verdicts.
pub open spec fn snapshots_judged(
    pull: GroupPull,
    snapshots: usize,
    total_groups: u64,
    events: Seq<GroupEvent>,
) -> Seq<(usize, VanishedVerdict)>
    decreases events.len(),
{
    if events.len() == 0 {
        seq![]
    } else {
        let init = events.drop_last();
        let before = snapshots_judged(pull, snapshots, total_groups, init);
        match (group_asked(pull, snapshots, total_groups, init), events.last()) {
            (GroupAction::CheckLocal(pos), GroupEvent::Checked(verdict)) => before.push(
                (pos, verdict),
            ),
            _ => before,
        }
    }
}

/// The local snapshots that were removed when they were asked for, in this order.
pub open spec fn snapshots_removed(
    pull: GroupPull,
    snapshots: usize,
    total_groups: u64,
    events: Seq<GroupEvent>,
) -> Seq<usize>
    decreases events.len(),
{
    if events.len() == 0 {
        seq![]
    } else {
        let init = events.drop_last();
        let before = snapshots_removed(pull, snapshots, total_groups, init);
        match (group_asked(pull, snapshots, total_groups, init), events.last()) {
            (GroupAction::RemoveSnapshot(pos), GroupEvent::Finished) => before.push(pos),
            _ => before,
        }
    }
}

/// Those that were found to have vanished and are not protected.
pub open spec fn to_remove(judged: Seq<(usize, VanishedVerdict)>) -> Seq<usize>
    decreases judged.len(),
{
    if judged.len() == 0 {
        seq![]
    } else if judged.last().1 == VanishedVerdict::Remove {
        to_remove(judged.drop_last()).push(judged.last().0)
    } else {
        to_remove(judged.drop_last())
    }
}

/// What was transferred and removed, as it was asked for.
pub open spec fn group_sum(
    pull: GroupPull,
    snapshots: usize,
    total_groups: u64,
    events: Seq<GroupEvent>,
) -> SyncStats
    decreases events.len(),
{
    if events.len() == 0 {
        SyncStats::zero()
    } else {
        let init = events.drop_last();
        let before = group_sum(pull, snapshots, total_groups, init);
        match (group_asked(pull, snapshots, total_groups, init), events.last()) {
            (GroupAction::PullSnapshot(_), GroupEvent::Pulled { stats, .. }) => before.plus(stats),
            (GroupAction::RemoveSnapshot(_), GroupEvent::Finished) => before.plus(
                SyncStats {
                    chunk_count: 0,
                    bytes: 0,
                    elapsed: 0,
                    removed: Some(
                        RemovedVanishedStats { groups: 0, snapshots: 1, namespaces: 0 },
                    ),
                },
            ),
            _ => before,
        }
    }
}

/// How many snapshots a phase has behind it.
spec fn pulled_behind(state: GroupState) -> nat {
    match state.phase {
        GroupPhase::Pulling(pos) => pos as nat,
        GroupPhase::LoggingProgress { pos, ok } => if ok {
            (pos + 1) as nat
        } else {
            pos as nat
        },
        _ => state.snapshots as nat,
    }
}

/// How many local snapshots a phase has behind it: judged, and dealt with.
spec fn judged_behind(pull: GroupPull, state: GroupState) -> (nat, nat) {
    match state.phase {
        GroupPhase::Pulling(_) | GroupPhase::LoggingProgress { .. } | GroupPhase::ListingLocal => (
            0,
            0,
        ),
        GroupPhase::CheckingLocal(pos) => (pos as nat, pos as nat),
        GroupPhase::LoggingProtected(pos) => ((pos + 1) as nat, (pos + 1) as nat),
        GroupPhase::LoggingRemove(pos) | GroupPhase::Removing(pos) => ((pos + 1) as nat, pos as nat),
        _ => if pull.remove_vanished {
            (state.local as nat, state.local as nat)
        } else {
            (0, 0)
        },
    }
}

/// The positions of what was judged.
spec fn positions(judged: Seq<(usize, VanishedVerdict)>) -> Seq<usize> {
    Seq::new(judged.len(), |i: int| judged[i].0)
}

proof fn group_accounts(
    pull: GroupPull,
    snapshots: usize,
    total_groups: u64,
    events: Seq<GroupEvent>,
)
    ensures
        ({
            let state = group_run(pull, snapshots, total_groups, events).0;
            let judged = snapshots_judged(pull, snapshots, total_groups, events);
            let removed = snapshots_removed(pull, snapshots, total_groups, events);
            let (seen, dealt) = judged_behind(pull, state);
            &&& state.stats == group_sum(pull, snapshots, total_groups, events)
            &&& state.phase != GroupPhase::Failed ==> {
                &&& snapshots_pulled(pull, snapshots, total_groups, events) == first_indices(
                    pulled_behind(state),
                )
                &&& positions(judged) == first_indices(seen)
                &&& seen > dealt ==> judged.last().1 == VanishedVerdict::Remove
                &&& removed == to_remove(judged.take(dealt as int))
            }
            &&& pull.remove_vanished && (state.phase == GroupPhase::LoggingDone || state.phase
                == GroupPhase::Complete) ==> state.local == local_listed(events)
        }),
    decreases events.len(),
{
    group_run_matches(pull, snapshots, total_groups, events);
    if events.len() > 0 {
        let init = events.drop_last();
        group_accounts(pull, snapshots, total_groups, init);
        group_run_matches(pull, snapshots, total_groups, init);
        removal_follows_verdict(pull, snapshots, total_groups, init);
        let before = group_run(pull, snapshots, total_groups, init).0;
        let state = group_run(pull, snapshots, total_groups, events).0;
        let judged0 = snapshots_judged(pull, snapshots, total_groups, init);
        let judged = snapshots_judged(pull, snapshots, total_groups, events);
        match (before.phase, events.last()) {
            (GroupPhase::Pulling(pos), GroupEvent::Pulled { .. }) => {
                assert(first_indices(pos as nat).push(pos) =~= first_indices((pos + 1) as nat));
            },
            (GroupPhase::CheckingLocal(pos), GroupEvent::Checked(verdict)) => {
                assert(judged == judged0.push((pos, verdict)));
                assert(positions(judged) =~= positions(judged0).push(pos));
                assert(first_indices(pos as nat).push(pos) =~= first_indices((pos + 1) as nat));
                assert(judged0.len() == pos) by {
                    assert(positions(judged0).len() == first_indices(pos as nat).len());
                }
                assert(judged.drop_last() =~= judged0);
                assert(judged.take(pos as int) =~= judged0.take(pos as int));
                assert(judged0.take(pos as int) =~= judged0);
                assert(judged.take((pos + 1) as int) =~= judged);
            },
            (GroupPhase::Removing(pos), GroupEvent::Finished) => {
                assert(judged == judged0);
                assert(judged.len() == pos + 1) by {
                    assert(positions(judged).len() == first_indices((pos + 1) as nat).len());
                }
                assert(judged.take((pos + 1) as int) =~= judged);
                assert(judged.take(pos as int) =~= judged.drop_last());
                assert(judged.last().0 == pos) by {
                    assert(positions(judged)[pos as int] == first_indices((pos + 1) as nat)[pos as int]);
                }
            },
            _ => {
                if state.phase != GroupPhase::Failed {
                    assert(judged_behind(pull, state) == judged_behind(pull, before));
                }
            },
        }
    } else {
        assert(first_indices(0) =~= seq![]);
        let none = snapshots_judged(pull, snapshots, total_groups, events);
        assert(none.take(0) =~= none);
        assert(positions(none) =~= first_indices(0));
    }
}

/// Before a group is done, and before any local snapshot is looked at, every snapshot was
/// pulled, each once and in order.
pub proof fn every_snapshot_is_pulled(
    pull: GroupPull,
    snapshots: usize,
    total_groups: u64,
    events: Seq<GroupEvent>,
)
    requires
        match group_asked(pull, snapshots, total_groups, events) {
            GroupAction::PullSnapshot(_)
            | GroupAction::LogProgress { .. }
            | GroupAction::Abort => false,
            _ => true,
        },
    ensures
        snapshots_pulled(pull, snapshots, total_groups, events) == first_indices(snapshots as nat),
{
    group_run_matches(pull, snapshots, total_groups, events);
    group_accounts(pull, snapshots, total_groups, events);
}

/// When a group is done and vanished snapshots are to be removed, every local snapshot
/// was judged, each once and in order, and exactly those were removed that had vanished
/// and are not protected. Otherwise none was even looked at.
pub proof fn every_local_snapshot_is_judged(
    pull: GroupPull,
    snapshots: usize,
    total_groups: u64,
    events: Seq<GroupEvent>,
)
    requires
        match group_asked(pull, snapshots, total_groups, events) {
            GroupAction::LogDone | GroupAction::Complete(_) => true,
            _ => false,
        },
    ensures
        ({
            let judged = snapshots_judged(pull, snapshots, total_groups, events);
            &&& snapshots_removed(pull, snapshots, total_groups, events) == to_remove(judged)
            &&& judged.len() == (if pull.remove_vanished {
                local_listed(events)
            } else {
                0
            })
            &&& forall|i: int| 0 <= i < judged.len() ==> (#[trigger] judged[i]).0 == i
        }),
{
    group_run_matches(pull, snapshots, total_groups, events);
    group_accounts(pull, snapshots, total_groups, events);
    let judged = snapshots_judged(pull, snapshots, total_groups, events);
    let state = group_run(pull, snapshots, total_groups, events).0;
    let n = judged_behind(pull, state).0;
    assert(positions(judged).len() == judged.len());
    assert(first_indices(n).len() == n);
    assert(judged.take(n as int) =~= judged);
    assert forall|i: int| 0 <= i < judged.len() implies (#[trigger] judged[i]).0 == i by {
        assert(positions(judged)[i] == first_indices(n)[i]);
    }
}

/// A group that is done reports the sum of what its snapshots transferred and of the
/// snapshots that were removed.
pub proof fn group_reports_the_sum(
    pull: GroupPull,
    snapshots: usize,
    total_groups: u64,
    events: Seq<GroupEvent>,
    stats: SyncStats,
)
    requires
        group_asked(pull, snapshots, total_groups, events) == GroupAction::Complete(stats),
    ensures
        stats == group_sum(pull, snapshots, total_groups, events),
{
    group_run_matches(pull, snapshots, total_groups, events);
    group_accounts(pull, snapshots, total_groups, events);
}

/// What is asked for once nothing is left to pull or remove: a line that the group is
/// done if it is pulled along with others.
pub open spec fn is_group_end(pull: GroupPull, action: GroupAction) -> bool {
    match pull.worker_threads {
        Some(threads) if threads > 1 => action == GroupAction::LogDone,
        _ => action is Complete,
    }
}

/// What is asked for once the local snapshots before `pos` were dealt with.
pub open spec fn leads_to_local(
    pull: GroupPull,
    events: Seq<GroupEvent>,
    pos: int,
    action: GroupAction,
) -> bool {
    if pos < local_listed(events) {
        action == GroupAction::CheckLocal(pos as usize)
    } else {
        is_group_end(pull, action)
    }
}

/// How the pull of a group starts, and goes on after each snapshot: the progress is logged
/// either way, then the next snapshot follows one that was pulled, and nothing one that
/// was not. After the last one the local snapshots are listed, if vanished ones are to be
/// removed.
pub proof fn snapshots_follow_each_other(
    pull: GroupPull,
    snapshots: usize,
    total_groups: u64,
    events: Seq<GroupEvent>,
    event: GroupEvent,
)
    ensures
        ({
            let after = events.push(event);
            let next = group_asked(pull, snapshots, total_groups, after);
            let logged = group_asked(
                pull,
                snapshots,
                total_groups,
                after.push(GroupEvent::Finished),
            );
            let first = group_asked(pull, snapshots, total_groups, Seq::<GroupEvent>::empty());
            let one_by_one = pull.worker_threads is None || pull.worker_threads == Some(1usize);
            &&& snapshots > 0 ==> first == GroupAction::PullSnapshot(0)
            &&& snapshots == 0 && pull.remove_vanished ==> first == GroupAction::ListLocal
            &&& snapshots == 0 && !pull.remove_vanished ==> is_group_end(pull, first)
            &&& match group_asked(pull, snapshots, total_groups, events) {
                GroupAction::PullSnapshot(pos) => {
                    &&& event is Pulled || event is PullFailed ==> next
                        == (GroupAction::LogProgress { parallel: !one_by_one })
                    &&& !(event is Pulled || event is PullFailed) ==> next == GroupAction::Abort
                    &&& event is PullFailed ==> logged == GroupAction::Abort
                    &&& event is Pulled && pos + 1 < snapshots ==> logged
                        == GroupAction::PullSnapshot((pos + 1) as usize)
                    &&& event is Pulled && pos + 1 >= snapshots && pull.remove_vanished ==> logged
                        == GroupAction::ListLocal
                    &&& event is Pulled && pos + 1 >= snapshots && !pull.remove_vanished
                        ==> is_group_end(pull, logged)
                },
                GroupAction::LogProgress { .. } => event != GroupEvent::Finished ==> next
                    == GroupAction::Abort,
                _ => true,
            }
        }),
{
    let after = events.push(event);
    assert(after.drop_last() =~= events);
    assert(after.push(GroupEvent::Finished).drop_last() =~= after);
    group_run_matches(pull, snapshots, total_groups, events);
    group_run_matches(pull, snapshots, total_groups, after);
}

/// The progress that is logged after a snapshot counts it as done, whether or not it
/// could be pulled, among those of its group, and the groups that were reported as done.
pub proof fn progress_counts_snapshots(
    pull: GroupPull,
    snapshots: usize,
    total_groups: u64,
    events: Seq<GroupEvent>,
    event: GroupEvent,
    pos: usize,
)
    requires
        group_asked(pull, snapshots, total_groups, events) == GroupAction::PullSnapshot(pos),
    ensures
        ({
            let progress = group_run(
                pull,
                snapshots,
                total_groups,
                events.push(event),
            ).0.progress;
            match event {
                GroupEvent::Pulled { done_groups: done, .. } | GroupEvent::PullFailed {
                    done_groups: done,
                } => {
                    &&& progress.done_groups == done
                    &&& progress.done_snapshots == pos + 1
                    &&& progress.total_groups == total_groups
                    &&& progress.group_snapshots == snapshots
                },
                _ => true,
            }
        }),
{
    assert(events.push(event).drop_last() =~= events);
    group_run_matches(pull, snapshots, total_groups, events);
    group_run_matches(pull, snapshots, total_groups, events.push(event));
}

/// How vanished snapshots are removed, whatever was answered before: each local snapshot
/// is judged; one to be removed is logged and removed, a protected one only logged, and
/// the next one follows in any case. Whatever fails ends the group, and nothing follows
/// its end.
pub proof fn local_answers_are_followed(
    pull: GroupPull,
    snapshots: usize,
    total_groups: u64,
    events: Seq<GroupEvent>,
    event: GroupEvent,
)
    ensures
        ({
            let next = group_asked(pull, snapshots, total_groups, events.push(event));
            let done = event == GroupEvent::Finished;
            match group_asked(pull, snapshots, total_groups, events) {
                GroupAction::ListLocal => match event {
                    GroupEvent::Listed(_) => leads_to_local(pull, events.push(event), 0, next),
                    _ => next == GroupAction::Abort,
                },
                GroupAction::CheckLocal(pos) => match event {
                    GroupEvent::Checked(VanishedVerdict::Keep) => leads_to_local(
                        pull,
                        events,
                        pos + 1,
                        next,
                    ),
                    GroupEvent::Checked(VanishedVerdict::Protected) => next
                        == GroupAction::LogProtected(pos),
                    GroupEvent::Checked(VanishedVerdict::Remove) => next == GroupAction::LogRemove(
                        pos,
                    ),
                    _ => next == GroupAction::Abort,
                },
                GroupAction::LogRemove(pos) => next == (if done {
                    GroupAction::RemoveSnapshot(pos)
                } else {
                    GroupAction::Abort
                }),
                GroupAction::LogProtected(pos) | GroupAction::RemoveSnapshot(pos) => if done {
                    leads_to_local(pull, events, pos + 1, next)
                } else {
                    next == GroupAction::Abort
                },
                GroupAction::LogDone => if done {
                    next is Complete
                } else {
                    next == GroupAction::Abort
                },
                GroupAction::Complete(_) | GroupAction::Abort => next == GroupAction::Abort,
                _ => true,
            }
        }),
{
    let after = events.push(event);
    assert(after.drop_last() =~= events);
    group_run_matches(pull, snapshots, total_groups, events);
    group_run_matches(pull, snapshots, total_groups, after);
}

/// Exactly the snapshots in progress are dropped: what is left is finished, in the order of
/// the list, and there is a line for each of the others.
pub proof fn only_finished_snapshots_are_left(list: Seq<SnapshotListItem>)
    ensures
        finished(list).len() + in_progress_lines(list).len() == list.len(),
        forall|i: int| 0 <= i < finished(list).len() ==> (#[trigger] finished(list)[i]).size is Some,
        forall|i: int|
            0 <= i < list.len() && (#[trigger] list[i]).size is Some ==> finished(list).contains(
                list[i],
            ),
        forall|i: int|
            0 <= i < finished(list).len() ==> list.contains(#[trigger] finished(list)[i]),
        (forall|i: int| 0 <= i < list.len() ==> (#[trigger] list[i]).size is Some) ==> finished(list)
            == list,
    decreases list.len(),
{
    if list.len() > 0 {
        let init = list.drop_last();
        only_finished_snapshots_are_left(init);
        let before = finished(init);
        let after = finished(list);
        assert(list[list.len() - 1] == list.last());
        assert forall|i: int| 0 <= i < list.len() && (#[trigger] list[i]).size is Some implies after.contains(
            list[i],
        ) by {
            if i < init.len() {
                assert(init[i] == list[i]);
                let k = before.index_of(list[i]);
                assert(after[k] == list[i]);
            } else {
                assert(after[after.len() - 1] == list[i]);
            }
        }
        assert forall|i: int| 0 <= i < after.len() implies list.contains(#[trigger] after[i]) by {
            if i < before.len() {
                assert(init.contains(before[i]));
                let k = init.index_of(before[i]);
                assert(list[k] == after[i]);
            }
        }
        if forall|i: int| 0 <= i < list.len() ==> (#[trigger] list[i]).size is Some {
            assert forall|i: int| 0 <= i < init.len() implies (#[trigger] init[i]).size is Some by {
                assert(list[i] == init[i]);
            }
            assert(after =~= list);
        }
    }
}

/// A snapshot is wanted exactly if it was verified, where that is asked for, and, where
/// that is, if its manifest is signed only and every other file but the client log is
/// encrypted.
pub proof fn only_unfit_snapshots_are_excluded(
    item: SnapshotListItem,
    verified_only: bool,
    encrypted_only: bool,
)
    ensures
        !excluded(item, verified_only, encrypted_only) <==> {
            &&& verified_only ==> item.verification == Some(VerifyState::Verified)
            &&& encrypted_only ==> forall|i: int|
                0 <= i < item.files@.len() ==> {
                    let file = #[trigger] item.files@[i];
                    &&& file.filename@ == MANIFEST_BLOB_NAME@ ==> file.crypt_mode == Some(
                        CryptMode::SignOnly,
                    )
                    &&& file.filename@ != MANIFEST_BLOB_NAME@ && file.filename@
                        != CLIENT_LOG_BLOB_NAME@ ==> file.crypt_mode == Some(CryptMode::Encrypt)
                }
        },
{
    if encrypted_only && !excluded(item, verified_only, encrypted_only) {
        assert forall|i: int| 0 <= i < item.files@.len() implies content_encrypted(
            #[trigger] item.files@[i],
        ) by {}
    }
}

/// The times to consider are those of the wanted snapshots, no more and no fewer; without
/// a filter they are all that is listed.
pub proof fn wanted_times_are_those_of_wanted_snapshots(
    list: Seq<SnapshotListItem>,
    verified_only: bool,
    encrypted_only: bool,
)
    ensures
        forall|i: int|
            0 <= i < list.len() && !excluded(
                #[trigger] list[i],
                verified_only,
                encrypted_only,
            ) ==> wanted_times(list, verified_only, encrypted_only).contains(list[i].time),
        forall|i: int|
            0 <= i < wanted_times(list, verified_only, encrypted_only).len() ==> exists|j: int|
                0 <= j < list.len() && !excluded(#[trigger] list[j], verified_only, encrypted_only)
                    && list[j].time == #[trigger] wanted_times(
                    list,
                    verified_only,
                    encrypted_only,
                )[i],
        !verified_only && !encrypted_only ==> {
            &&& wanted_times(list, verified_only, encrypted_only).len() == list.len()
            &&& forall|i: int|
                0 <= i < list.len() ==> #[trigger] wanted_times(
                    list,
                    verified_only,
                    encrypted_only,
                )[i] == list[i].time
        },
    decreases list.len(),
{
    if list.len() > 0 {
        let init = list.drop_last();
        wanted_times_are_those_of_wanted_snapshots(init, verified_only, encrypted_only);
        let before = wanted_times(init, verified_only, encrypted_only);
        let times = wanted_times(list, verified_only, encrypted_only);
        assert forall|i: int|
            0 <= i < list.len() && !excluded(
                #[trigger] list[i],
                verified_only,
                encrypted_only,
            ) implies times.contains(list[i].time) by {
            if i < init.len() {
                assert(init[i] == list[i]);
                let k = before.index_of(list[i].time);
                assert(times[k] == list[i].time);
            } else {
                assert(times[times.len() - 1] == list[i].time);
            }
        }
        assert forall|i: int| 0 <= i < times.len() implies exists|j: int|
            0 <= j < list.len() && !excluded(#[trigger] list[j], verified_only, encrypted_only)
                && list[j].time == #[trigger] times[i] by {
            if i < before.len() {
                let j = choose|j: int|
                    0 <= j < init.len() && !excluded(
                        #[trigger] init[j],
                        verified_only,
                        encrypted_only,
                    ) && init[j].time == before[i];
                assert(list[j] == init[j]);
            } else {
                assert(list[list.len() - 1].time == times[i]);
            }
        }
    }
}

/// A local snapshot is pulled anew only if that is asked for, and then exactly if it failed
/// its verification or its manifest cannot be read.
pub proof fn only_corrupt_snapshots_are_pulled_anew(local: LocalSnapshot)
    ensures
        !resync_needed(false, local),
        !resync_needed(true, LocalSnapshot::Missing),
        resync_needed(true, LocalSnapshot::Found(ReadVerifyState::Unreadable)),
        resync_needed(true, LocalSnapshot::Found(ReadVerifyState::Present(VerifyState::Failed))),
        !resync_needed(true, LocalSnapshot::Found(ReadVerifyState::Present(VerifyState::Verified))),
        !resync_needed(true, LocalSnapshot::Found(ReadVerifyState::Missing)),
{
}

/// A corrupt snapshot is pulled in any case, where that is asked for. Of the others those
/// before the last sync were synced already, and without a last sync none was. Of the rest
/// only those later than the last sync are left out, and of these exactly those that are
/// not among the newest ones of the given number; without a number all are pulled.
pub proof fn candidates_are_judged_by_time_and_place(
    rules: SelectionRules,
    total: nat,
    pos: int,
    item: Candidate,
)
    requires
        0 <= pos < total,
    ensures
        ({
            let which = verdict(rules, total, pos, item);
            let anew = rules.resync_corrupt && item.corrupt;
            let before = rules.last_sync_time matches Some(time) && item.time < time;
            let again = rules.last_sync_time matches Some(time) && item.time == time;
            let beyond = rules.transfer_last matches Some(count) && pos + count < total;
            &&& anew ==> which == Verdict::Pull
            &&& !anew && before ==> which == Verdict::AlreadySynced
            &&& !anew && again ==> which == Verdict::Pull
            &&& !anew && !before && !beyond ==> which == Verdict::Pull
            &&& !anew && !before && !again && beyond && item.time > i64::MIN ==> which
                == Verdict::TransferLast
        }),
{
}

/// The source has the snapshots that it lists, whatever their state.
pub proof fn every_listed_snapshot_is_there(list: Seq<SnapshotListItem>, time: i64)
    ensures
        listed_times(list).to_set().contains(time) <==> exists|i: int|
            0 <= i < list.len() && (#[trigger] list[i]).time == time,
{
    let times = listed_times(list);
    if times.contains(time) {
        let i = times.index_of(time);
        assert(list[i].time == time);
    }
    if exists|i: int| 0 <= i < list.len() && (#[trigger] list[i]).time == time {
        let i = choose|i: int| 0 <= i < list.len() && (#[trigger] list[i]).time == time;
        assert(times[i] == time);
    }
}

} // verus!
