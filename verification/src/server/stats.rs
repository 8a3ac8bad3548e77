//! Counters that a sync job keeps.

use vstd::prelude::*;
use crate::text::{decimal, join2, join_with, joined, texts, u64_to_string};

verus! {

/// Longest duration that can be added up, in nanoseconds.
pub const MAX_ELAPSED: u128 = 18446744073709551615999999999;

/// How much was removed because it vanished from the source.
#[derive(Clone, Copy, Debug, PartialEq, Eq, Structural)]
pub struct RemovedVanishedStats {
    pub groups: usize,
    pub snapshots: usize,
    pub namespaces: usize,
}

impl Default for RemovedVanishedStats {
    fn default() -> (r: Self)
        ensures
            r == (RemovedVanishedStats { groups: 0, snapshots: 0, namespaces: 0 }),
    {
        RemovedVanishedStats { groups: 0, snapshots: 0, namespaces: 0 }
    }
}

impl RemovedVanishedStats {
    /// Whether both counters can be added without overflow.
    pub open spec fn fits(self, rhs: RemovedVanishedStats) -> bool {
        &&& self.groups + rhs.groups <= usize::MAX
        &&& self.snapshots + rhs.snapshots <= usize::MAX
        &&& self.namespaces + rhs.namespaces <= usize::MAX
    }

    /// Counter by counter sum.
    pub open spec fn plus(self, rhs: RemovedVanishedStats) -> RemovedVanishedStats {
        RemovedVanishedStats {
            groups: (self.groups + rhs.groups) as usize,
            snapshots: (self.snapshots + rhs.snapshots) as usize,
            namespaces: (self.namespaces + rhs.namespaces) as usize,
        }
    }

    /// Adds the counters of `rhs`.
    pub fn add(&mut self, rhs: RemovedVanishedStats)
        requires
            old(self).fits(rhs),
        ensures
            *final(self) == old(self).plus(rhs),
    {
        self.groups = self.groups + rhs.groups;
        self.snapshots = self.snapshots + rhs.snapshots;
        self.namespaces = self.namespaces + rhs.namespaces;
    }
}

/// What a sync transferred and removed.
#[derive(Clone, Copy, Debug, PartialEq, Eq, Structural)]
pub struct SyncStats {
    /// Number of chunks transferred.
    pub chunk_count: usize,
    /// Number of bytes transferred.
    pub bytes: usize,
    /// Time spent on the transfer, in nanoseconds.
    pub elapsed: u128,
    /// What was removed, if anything was looked at for removal.
    pub removed: Option<RemovedVanishedStats>,
}

impl Default for SyncStats {
    fn default() -> (r: Self)
        ensures
            r == SyncStats::zero(),
    {
        SyncStats { chunk_count: 0, bytes: 0, elapsed: 0, removed: None }
    }
}

impl From<RemovedVanishedStats> for SyncStats {
    fn from(removed: RemovedVanishedStats) -> (r: SyncStats) {
        SyncStats { chunk_count: 0, bytes: 0, elapsed: 0, removed: Some(removed) }
    }
}

impl vstd::std_specs::convert::FromSpecImpl<RemovedVanishedStats> for SyncStats {
    open spec fn obeys_from_spec() -> bool {
        true
    }

    open spec fn from_spec(removed: RemovedVanishedStats) -> SyncStats {
        SyncStats { chunk_count: 0, bytes: 0, elapsed: 0, removed: Some(removed) }
    }
}

impl SyncStats {
    /// Nothing transferred and nothing looked at for removal.
    pub open spec fn zero() -> SyncStats {
        SyncStats { chunk_count: 0, bytes: 0, elapsed: 0, removed: None }
    }

    /// Whether both counters can be added without overflow.
    pub open spec fn fits(self, rhs: SyncStats) -> bool {
        &&& self.chunk_count + rhs.chunk_count <= usize::MAX
        &&& self.bytes + rhs.bytes <= usize::MAX
        &&& self.elapsed + rhs.elapsed <= MAX_ELAPSED
        &&& match (self.removed, rhs.removed) {
            (Some(a), Some(b)) => a.fits(b),
            _ => true,
        }
    }

    /// Counter by counter sum; removals count as soon as one side has them.
    pub open spec fn plus(self, rhs: SyncStats) -> SyncStats {
        SyncStats {
            chunk_count: (self.chunk_count + rhs.chunk_count) as usize,
            bytes: (self.bytes + rhs.bytes) as usize,
            elapsed: (self.elapsed + rhs.elapsed) as u128,
            removed: match (self.removed, rhs.removed) {
                (Some(a), Some(b)) => Some(a.plus(b)),
                (None, b) => b,
                (a, None) => a,
            },
        }
    }

    /// Number of groups removed.
    pub open spec fn groups_removed(self) -> int {
        if self.removed is Some {
            self.removed->0.groups as int
        } else {
            0
        }
    }

    /// Number of snapshots removed.
    pub open spec fn snapshots_removed(self) -> int {
        if self.removed is Some {
            self.removed->0.snapshots as int
        } else {
            0
        }
    }

    /// Number of namespaces removed.
    pub open spec fn namespaces_removed(self) -> int {
        if self.removed is Some {
            self.removed->0.namespaces as int
        } else {
            0
        }
    }

    /// Whether `rhs` can be added without overflow.
    pub fn can_add(&self, rhs: &SyncStats) -> (r: bool)
        ensures
            r == self.fits(*rhs),
    {
        if self.chunk_count > usize::MAX - rhs.chunk_count || self.bytes > usize::MAX - rhs.bytes {
            return false;
        }
        if self.elapsed > MAX_ELAPSED || rhs.elapsed > MAX_ELAPSED - self.elapsed {
            return false;
        }
        match (self.removed, rhs.removed) {
            (Some(a), Some(b)) => {
                a.groups <= usize::MAX - b.groups && a.snapshots <= usize::MAX - b.snapshots
                    && a.namespaces <= usize::MAX - b.namespaces
            },
            _ => true,
        }
    }

    /// Adds the counters of `rhs`.
    pub fn add(&mut self, rhs: SyncStats)
        requires
            old(self).fits(rhs),
        ensures
            *final(self) == old(self).plus(rhs),
    {
        self.chunk_count = self.chunk_count + rhs.chunk_count;
        self.bytes = self.bytes + rhs.bytes;
        self.elapsed = self.elapsed + rhs.elapsed;
        if let Some(rhs_removed) = rhs.removed {
            match self.removed {
                Some(mut removed) => {
                    removed.add(rhs_removed);
                    self.removed = Some(removed);
                },
                None => {
                    self.removed = Some(rhs_removed);
                },
            }
        }
    }
}

/// Adding empty statistics changes nothing, on either side.
pub proof fn stats_zero_is_neutral(s: SyncStats)
    ensures
        s.plus(SyncStats::zero()) == s,
        SyncStats::zero().plus(s) == s,
{
}

/// The order in which statistics are collected does not matter.
pub proof fn stats_add_commutes(a: SyncStats, b: SyncStats)
    ensures
        a.fits(b) == b.fits(a),
        a.plus(b) == b.plus(a),
{
}

/// Statistics may be added up in any grouping.
pub proof fn stats_add_is_associative(a: SyncStats, b: SyncStats, c: SyncStats)
    requires
        a.fits(b),
        a.plus(b).fits(c),
        b.fits(c),
        a.fits(b.plus(c)),
    ensures
        a.plus(b).plus(c) == a.plus(b.plus(c)),
{
}

/// The sum has of each counter what both sides have together, and of the removals too, which
/// are there as soon as one side has them.
pub proof fn sum_counts_both_sides(a: SyncStats, b: SyncStats)
    requires
        a.fits(b),
    ensures
        a.plus(b).chunk_count == a.chunk_count + b.chunk_count,
        a.plus(b).bytes == a.bytes + b.bytes,
        a.plus(b).elapsed == a.elapsed + b.elapsed,
        a.plus(b).removed is None <==> a.removed is None && b.removed is None,
        a.plus(b).removed matches Some(sum) ==> {
            &&& sum.groups == a.groups_removed() + b.groups_removed()
            &&& sum.snapshots == a.snapshots_removed() + b.snapshots_removed()
            &&& sum.namespaces == a.namespaces_removed() + b.namespaces_removed()
        },
{
}

/// The statistics of removals alone tell those and nothing else.
pub proof fn removals_are_kept(removed: RemovedVanishedStats)
    ensures
        ({
            let stats = <SyncStats as vstd::std_specs::convert::FromSpec<
                RemovedVanishedStats,
            >>::from_spec(removed);
            &&& stats.chunk_count == 0
            &&& stats.bytes == 0
            &&& stats.elapsed == 0
            &&& stats.removed == Some(removed)
        }),
{
}

/// Why a snapshot was not transferred.
#[derive(Clone, Copy, Debug, PartialEq, Eq, Structural)]
pub enum SkipReason {
    AlreadySynced,
    TransferLast,
}

impl SkipReason {
    /// Words for the reason.
    pub open spec fn text(self) -> Seq<char> {
        match self {
            SkipReason::AlreadySynced => "older than the newest snapshot present on sync target"@,
            SkipReason::TransferLast => "due to transfer-last"@,
        }
    }

    /// Words for the reason.
    pub fn to_string(&self) -> (r: String)
        ensures
            r@ == self.text(),
    {
        match self {
            SkipReason::AlreadySynced =>
                "older than the newest snapshot present on sync target".to_owned(),
            SkipReason::TransferLast => "due to transfer-last".to_owned(),
        }
    }
}

/// Summary of the snapshots that were skipped for one reason.
#[derive(Clone, Copy, Debug, PartialEq, Eq, Structural)]
pub struct SkipInfo {
    pub oldest: i64,
    pub newest: i64,
    pub count: u64,
    pub skip_reason: SkipReason,
}

impl SkipInfo {
    /// The summary of no snapshot.
    pub open spec fn empty(skip_reason: SkipReason) -> SkipInfo {
        SkipInfo { oldest: i64::MAX, newest: i64::MIN, count: 0, skip_reason }
    }

    /// The summary with one more snapshot.
    pub open spec fn with(self, backup_time: i64) -> SkipInfo {
        SkipInfo {
            oldest: if backup_time < self.oldest { backup_time } else { self.oldest },
            newest: if backup_time > self.newest { backup_time } else { self.newest },
            count: (self.count + 1) as u64,
            skip_reason: self.skip_reason,
        }
    }

    /// The summary of a list of snapshots.
    pub open spec fn of(skip_reason: SkipReason, times: Seq<i64>) -> SkipInfo
        decreases times.len(),
    {
        if times.len() == 0 {
            SkipInfo::empty(skip_reason)
        } else {
            SkipInfo::of(skip_reason, times.drop_last()).with(times.last())
        }
    }

    /// A summary of no snapshot.
    pub fn new(skip_reason: SkipReason) -> (r: SkipInfo)
        ensures
            r == SkipInfo::empty(skip_reason),
    {
        SkipInfo { oldest: i64::MAX, newest: i64::MIN, count: 0, skip_reason }
    }

    /// Forgets all snapshots.
    pub fn reset(&mut self)
        ensures
            *final(self) == SkipInfo::empty(old(self).skip_reason),
    {
        self.count = 0;
        self.oldest = i64::MAX;
        self.newest = i64::MIN;
    }

    /// Takes one more snapshot into the summary.
    pub fn update(&mut self, backup_time: i64)
        requires
            old(self).count < u64::MAX,
        ensures
            *final(self) == old(self).with(backup_time),
    {
        self.count = self.count + 1;
        if backup_time < self.oldest {
            self.oldest = backup_time;
        }
        if backup_time > self.newest {
            self.newest = backup_time;
        }
    }

    /// The times that a message about the skipped snapshots names.
    pub open spec fn shown_times(self) -> Seq<i64> {
        if self.count == 0 {
            seq![]
        } else if self.count == 1 {
            seq![self.oldest]
        } else {
            seq![self.oldest, self.newest]
        }
    }

    /// The times that [`SkipInfo::affected`] needs in printed form.
    pub fn affected_times(&self) -> (r: Vec<i64>)
        ensures
            r@ == self.shown_times(),
    {
        let mut r: Vec<i64> = Vec::new();
        if self.count >= 1 {
            r.push(self.oldest);
        }
        if self.count >= 2 {
            r.push(self.newest);
        }
        assert(r@ =~= self.shown_times());
        r
    }

    /// The affected time or range of times, from the printed
    /// [`SkipInfo::affected_times`].
    pub fn affected(&self, printed: &Vec<String>) -> (r: String)
        requires
            printed@.len() == self.shown_times().len(),
        ensures
            r@ == joined(texts(printed@), " .. "@),
    {
        join_with(printed, " .. ")
    }

    /// The message about the skipped snapshots.
    pub open spec fn message(self, printed: Seq<String>) -> Seq<char> {
        "skipped: "@ + decimal(self.count as nat) + " snapshot(s) ("@ + joined(
            texts(printed),
            " .. "@,
        ) + ") - "@ + self.skip_reason.text()
    }

    /// The message about the skipped snapshots, from the printed
    /// [`SkipInfo::affected_times`].
    pub fn to_string(&self, printed: &Vec<String>) -> (r: String)
        requires
            printed@.len() == self.shown_times().len(),
        ensures
            r@ == self.message(printed@),
    {
        let mut r = join2("skipped: ", u64_to_string(self.count).as_str());
        r.append(" snapshot(s) (");
        r.append(self.affected(printed).as_str());
        r.append(") - ");
        r.append(self.skip_reason.to_string().as_str());
        r
    }
}

/// A summary counts its snapshots, and its bounds are the first and the last
/// of their times.
pub proof fn skip_info_summarises(skip_reason: SkipReason, times: Seq<i64>)
    requires
        times.len() <= u64::MAX,
    ensures
        SkipInfo::of(skip_reason, times).count == times.len(),
        SkipInfo::of(skip_reason, times).skip_reason == skip_reason,
        forall|i: int|
            0 <= i < times.len() ==> SkipInfo::of(skip_reason, times).oldest <= #[trigger] times[i]
                <= SkipInfo::of(skip_reason, times).newest,
        times.len() > 0 ==> times.contains(SkipInfo::of(skip_reason, times).oldest)
            && times.contains(SkipInfo::of(skip_reason, times).newest),
    decreases times.len(),
{
    if times.len() > 0 {
        let init = times.drop_last();
        skip_info_summarises(skip_reason, init);
        let before = SkipInfo::of(skip_reason, init);
        let after = SkipInfo::of(skip_reason, times);
        assert forall|i: int| 0 <= i < times.len() implies after.oldest <= #[trigger] times[i]
            <= after.newest by {
            if i < init.len() {
                assert(times[i] == init[i]);
            }
        }
        assert(times[times.len() - 1] == times.last());
        if init.len() > 0 {
            let a = init.index_of(before.oldest);
            let b = init.index_of(before.newest);
            assert(times[a] == before.oldest);
            assert(times[b] == before.newest);
        }
    }
}

/// A message about skipped snapshots names nothing of none, the time of a single one, and
/// the first and the last time of several, even where these are the same.
pub proof fn message_names_the_bounds(skip_reason: SkipReason, times: Seq<i64>)
    requires
        times.len() <= u64::MAX,
    ensures
        ({
            let shown = SkipInfo::of(skip_reason, times).shown_times();
            &&& times.len() == 0 ==> shown.len() == 0
            &&& times.len() == 1 ==> shown == seq![times[0]]
            &&& times.len() > 1 ==> {
                &&& shown.len() == 2
                &&& times.contains(shown[0]) && times.contains(shown[1])
                &&& forall|i: int|
                    0 <= i < times.len() ==> shown[0] <= #[trigger] times[i] <= shown[1]
            }
        }),
{
    skip_info_summarises(skip_reason, times);
    if times.len() == 1 {
        let oldest = SkipInfo::of(skip_reason, times).oldest;
        assert(times.contains(oldest));
        assert(oldest == times[0]);
    }
}

/// Progress over the groups of a namespace, shared by the workers that pull them.
#[derive(Clone, Copy, Debug, PartialEq, Eq, Structural)]
pub struct SharedGroupProgress {
    pub done: usize,
    pub total: usize,
}

impl SharedGroupProgress {
    /// With one more group done.
    pub open spec fn incremented(self) -> SharedGroupProgress {
        SharedGroupProgress { done: (self.done + 1) as usize, total: self.total }
    }

    /// No group of `total` is done.
    pub fn with_total_groups(total: usize) -> (r: Self)
        ensures
            r == (SharedGroupProgress { done: 0, total }),
    {
        SharedGroupProgress { done: 0, total }
    }

    /// Number of groups that are done.
    pub fn load_done(&self) -> (r: u64)
        ensures
            r == self.done,
    {
        self.done as u64
    }

    /// Counts one more group as done and returns the new number.
    pub fn increment_done(&mut self) -> (r: u64)
        requires
            old(self).done < usize::MAX,
        ensures
            *final(self) == old(self).incremented(),
            r == old(self).done + 1,
    {
        self.done = self.done + 1;
        self.done as u64
    }

    /// Number of groups in all.
    pub fn total_groups(&self) -> (r: u64)
        ensures
            r == self.total,
    {
        self.total as u64
    }
}

/// The progress over `total` groups after each of `workers` counted one as done, in the
/// order in which they got to it.
pub open spec fn progress_after(total: usize, workers: Seq<int>) -> SharedGroupProgress
    decreases workers.len(),
{
    if workers.len() == 0 {
        SharedGroupProgress { done: 0, total }
    } else {
        progress_after(total, workers.drop_last()).incremented()
    }
}

/// The number that the worker at `i` got for its group.
pub open spec fn number_at(total: usize, workers: Seq<int>, i: int) -> int {
    progress_after(total, workers.take(i)).done + 1
}

/// Whichever workers count groups as done, and in whatever order: they get the numbers
/// from 1 on, each one once, and afterwards as many groups are done as were counted, of
/// the same total.
pub proof fn groups_are_numbered_in_turn(total: usize, workers: Seq<int>)
    requires
        workers.len() <= usize::MAX,
    ensures
        progress_after(total, workers) == (SharedGroupProgress {
            done: workers.len() as usize,
            total,
        }),
        forall|i: int| 0 <= i < workers.len() ==> #[trigger] number_at(total, workers, i) == i + 1,
    decreases workers.len(),
{
    if workers.len() > 0 {
        groups_are_numbered_in_turn(total, workers.drop_last());
        assert forall|i: int| 0 <= i < workers.len() implies #[trigger] number_at(total, workers, i)
            == i + 1 by {
            groups_are_numbered_in_turn(total, workers.take(i));
        }
    }
}

/// Progress of a sync over groups and over the snapshots of the current group.
#[derive(Clone, Copy, Debug, PartialEq, Eq, Structural)]
pub struct StoreProgress {
    pub done_groups: u64,
    pub done_snapshots: u64,
    pub total_groups: u64,
    pub group_snapshots: u64,
}

impl StoreProgress {
    /// Nothing done of `total_groups` groups.
    pub fn new(total_groups: u64) -> (r: Self)
        ensures
            r == (StoreProgress { done_groups: 0, done_snapshots: 0, total_groups, group_snapshots: 0 }),
    {
        StoreProgress { done_groups: 0, done_snapshots: 0, total_groups, group_snapshots: 0 }
    }
}

} // verus!
