//! Pulling the chunks that an index refers to.

use vstd::prelude::*;
use crate::server::pull::encountered::{
    extends, reusable_in, with_reusable, with_touched, ChunkMap, EncounteredChunks,
};
use crate::server::stats::SyncStats;
use crate::types::Digest;

verus! {

/// Layout of the index that decrypted chunks are written to.
#[derive(Clone, Copy, Debug, PartialEq, Eq, Structural)]
pub enum IndexKind {
    /// Chunks of equal size, found by their start.
    Fixed,
    /// Chunks of varying size, found by their end.
    Dynamic,
}

/// A chunk that the source index refers to.
#[derive(Clone, Copy, Debug, PartialEq, Eq, Structural)]
pub struct ChunkInfo {
    pub digest: Digest,
    pub size: u64,
}

/// An entry of the decrypted index.
#[derive(Clone, Copy, Debug, PartialEq, Eq, Structural)]
pub enum IndexEntry {
    Fixed { offset: u64, size: u32, digest: Digest },
    Dynamic { end: u64, digest: Digest },
}

/// State shared by the tasks that pull the chunks of one index.
#[derive(Clone, Copy, Debug, PartialEq, Eq, Structural)]
pub struct ChunkPull {
    /// Layout of the decrypted index, if chunks are decrypted.
    pub writer: Option<IndexKind>,
    /// End of the last entry of the decrypted index.
    pub offset: u64,
    /// Number of bytes transferred.
    pub bytes: usize,
    /// Number of chunks transferred.
    pub chunk_count: usize,
}

/// How far the task of one chunk has come.
#[derive(Clone, Copy, Debug, PartialEq, Eq, Structural)]
pub enum ChunkTask {
    /// Nothing has been done.
    Start,
    /// The local chunk is being touched.
    Touching,
    /// The chunk is being read as it is stored.
    ReadingRaw,
    /// The chunk is being read and decrypted.
    ReadingPlain,
    /// A known decrypted chunk is being added to the index.
    IndexingKnown,
    /// A freshly decrypted chunk is being added to the index.
    Indexing { digest: Digest, size: u64, raw_size: usize },
    /// The chunk is being verified and written.
    Writing { raw_size: usize },
    /// The chunk is dealt with.
    Done,
    /// The task gave up.
    Failed,
}

/// What the environment reports of the last action.
#[derive(Clone, Copy, Debug, PartialEq, Eq, Structural)]
pub enum ChunkEvent {
    /// The task begins.
    Begin,
    /// The local chunk was looked for and touched if it exists.
    Touched { exists: bool },
    /// The stored chunk was read and has this size on disk.
    Raw { raw_size: usize },
    /// The chunk was read, decrypted and encoded anew.
    Plain { digest: Digest, size: u64, raw_size: usize },
    /// The entry was added to the index.
    Indexed,
    /// The chunk was handed over for writing.
    Written,
    /// The action failed.
    Failed,
}

/// What the environment has to do next.
#[derive(Clone, Copy, Debug, PartialEq, Eq, Structural)]
pub enum ChunkAction {
    /// Touch the local chunk if it exists.
    Touch,
    /// Read the chunk as it is stored at the source.
    ReadRaw,
    /// Read and decrypt the chunk, and encode the plain data.
    ReadPlain,
    /// Add an entry to the decrypted index.
    AddIndex(IndexEntry),
    /// Verify and write the chunk that was read.
    Write { digest: Digest, size: u64 },
    /// Nothing more to do for this chunk.
    Finish,
    /// Give up on the whole index.
    Abort,
}

/// Result of one step.
pub struct ChunkOutcome {
    pub pull: ChunkPull,
    pub chunks: ChunkMap,
    pub task: ChunkTask,
    pub action: ChunkAction,
}

/// The entry for `size` bytes that start at `offset`.
pub open spec fn index_entry(kind: IndexKind, offset: u64, size: u64, digest: Digest) -> IndexEntry {
    match kind {
        IndexKind::Fixed => IndexEntry::Fixed { offset, size: size as u32, digest },
        IndexKind::Dynamic => IndexEntry::Dynamic { end: offset.wrapping_add(size), digest },
    }
}

/// Whether a task is needed for a chunk at all: a chunk that is reusable and
/// touched needs none, unless its decrypted digest has to be written.
pub open spec fn wanted(chunks: ChunkMap, digest: Digest) -> bool {
    match reusable_in(chunks, digest) {
        Some(reusable) => reusable.decrypted_digest is Some || !reusable.touched,
        None => true,
    }
}

/// The chunks once `digest` is marked as on its way.
pub open spec fn claim(chunks: ChunkMap, digest: Digest) -> ChunkMap {
    with_touched(with_reusable(chunks, digest, None), digest, None)
}

/// First step of the task of a chunk.
pub open spec fn chunk_begin(pull: ChunkPull, chunks: ChunkMap, info: ChunkInfo) -> ChunkOutcome {
    match (pull.writer, reusable_in(chunks, info.digest)) {
        (Some(kind), Some(reusable)) if reusable.decrypted_digest is Some => ChunkOutcome {
            pull: ChunkPull { offset: pull.offset.wrapping_add(info.size), ..pull },
            chunks,
            task: ChunkTask::IndexingKnown,
            action: ChunkAction::AddIndex(
                index_entry(
                    kind,
                    pull.offset,
                    info.size,
                    reusable.decrypted_digest->0,
                ),
            ),
        },
        (Some(_), _) => ChunkOutcome {
            pull,
            chunks,
            task: ChunkTask::ReadingPlain,
            action: ChunkAction::ReadPlain,
        },
        (None, Some(reusable)) => if reusable.touched {
            ChunkOutcome { pull, chunks, task: ChunkTask::Done, action: ChunkAction::Finish }
        } else {
            ChunkOutcome { pull, chunks, task: ChunkTask::Touching, action: ChunkAction::Touch }
        },
        (None, None) => ChunkOutcome {
            pull,
            chunks: claim(chunks, info.digest),
            task: ChunkTask::ReadingRaw,
            action: ChunkAction::ReadRaw,
        },
    }
}

/// Any step of the task of a chunk.
pub open spec fn chunk_next(
    pull: ChunkPull,
    chunks: ChunkMap,
    info: ChunkInfo,
    task: ChunkTask,
    event: ChunkEvent,
) -> ChunkOutcome {
    match (task, event) {
        (ChunkTask::Start, ChunkEvent::Begin) => chunk_begin(pull, chunks, info),
        (ChunkTask::Touching, ChunkEvent::Touched { exists }) => if exists {
            ChunkOutcome {
                pull,
                chunks: with_touched(chunks, info.digest, None),
                task: ChunkTask::Done,
                action: ChunkAction::Finish,
            }
        } else {
            ChunkOutcome {
                pull,
                chunks: claim(chunks, info.digest),
                task: ChunkTask::ReadingRaw,
                action: ChunkAction::ReadRaw,
            }
        },
        (ChunkTask::ReadingRaw, ChunkEvent::Raw { raw_size }) => ChunkOutcome {
            pull,
            chunks,
            task: ChunkTask::Writing { raw_size },
            action: ChunkAction::Write { digest: info.digest, size: info.size },
        },
        (ChunkTask::ReadingPlain, ChunkEvent::Plain { digest, size, raw_size }) => match pull.writer {
            Some(kind) => ChunkOutcome {
                pull: ChunkPull { offset: pull.offset.wrapping_add(size), ..pull },
                chunks,
                task: ChunkTask::Indexing { digest, size, raw_size },
                action: ChunkAction::AddIndex(index_entry(kind, pull.offset, size, digest)),
            },
            None => ChunkOutcome {
                pull,
                chunks,
                task: ChunkTask::Failed,
                action: ChunkAction::Abort,
            },
        },
        (ChunkTask::IndexingKnown, ChunkEvent::Indexed) => ChunkOutcome {
            pull,
            chunks,
            task: ChunkTask::Done,
            action: ChunkAction::Finish,
        },
        (ChunkTask::Indexing { digest, size, raw_size }, ChunkEvent::Indexed) => ChunkOutcome {
            pull,
            chunks: with_reusable(chunks, info.digest, Some(digest)),
            task: ChunkTask::Writing { raw_size },
            action: ChunkAction::Write { digest, size },
        },
        (ChunkTask::Writing { raw_size }, ChunkEvent::Written) => ChunkOutcome {
            pull: ChunkPull {
                bytes: pull.bytes.wrapping_add(raw_size),
                chunk_count: pull.chunk_count.wrapping_add(1),
                ..pull
            },
            chunks,
            task: ChunkTask::Done,
            action: ChunkAction::Finish,
        },
        _ => ChunkOutcome { pull, chunks, task: ChunkTask::Failed, action: ChunkAction::Abort },
    }
}

/// Whether a task is needed for a chunk.
pub fn wants_chunk(encountered: &EncounteredChunks, digest: &Digest) -> (r: bool)
    ensures
        r == wanted(encountered@, *digest),
{
    match encountered.check_reusable(digest) {
        Some(reusable) => reusable.decrypted_digest.is_some() || !reusable.touched,
        None => true,
    }
}

impl ChunkPull {
    /// Nothing pulled yet. Chunks are decrypted into an index of kind `writer`, if any.
    pub fn new(writer: Option<IndexKind>) -> (r: ChunkPull)
        ensures
            r == (ChunkPull { writer, offset: 0, bytes: 0, chunk_count: 0 }),
    {
        ChunkPull { writer, offset: 0, bytes: 0, chunk_count: 0 }
    }

    /// Whether chunks must be dealt with one after the other, in index order:
    /// the decrypted index is written in that order.
    pub fn keeps_order(&self) -> (r: bool)
        ensures
            r == (self.writer is Some),
    {
        self.writer.is_some()
    }

    /// Takes the next place in the decrypted index.
    fn add_entry(&mut self, kind: IndexKind, size: u64, digest: Digest) -> (r: IndexEntry)
        ensures
            r == index_entry(kind, old(self).offset, size, digest),
            *final(self) == (ChunkPull { offset: old(self).offset.wrapping_add(size), ..*old(self) }),
    {
        let start: u64 = self.offset;
        let end: u64 = start.wrapping_add(size);
        self.offset = end;
        match kind {
            IndexKind::Fixed => IndexEntry::Fixed {
                offset: start,
                size: #[verifier::truncate]
                (size as u32),
                digest,
            },
            IndexKind::Dynamic => IndexEntry::Dynamic { end, digest },
        }
    }

    /// First step of the task of a chunk.
    fn begin(&mut self, encountered: &mut EncounteredChunks, info: &ChunkInfo) -> (r: (
        ChunkTask,
        ChunkAction,
    ))
        ensures
            ({
                let want = chunk_begin(*old(self), old(encountered)@, *info);
                &&& *final(self) == want.pull
                &&& final(encountered)@ == want.chunks
                &&& r == (want.task, want.action)
            }),
    {
        let reusable = encountered.check_reusable(&info.digest);
        match self.writer {
            Some(kind) => {
                if let Some(reusable) = reusable {
                    if let Some(digest) = reusable.decrypted_digest {
                        let entry = self.add_entry(kind, info.size, digest);
                        return (ChunkTask::IndexingKnown, ChunkAction::AddIndex(entry));
                    }
                }
                (ChunkTask::ReadingPlain, ChunkAction::ReadPlain)
            },
            None => {
                if let Some(reusable) = reusable {
                    if reusable.touched {
                        (ChunkTask::Done, ChunkAction::Finish)
                    } else {
                        (ChunkTask::Touching, ChunkAction::Touch)
                    }
                } else {
                    encountered.mark_reusable(&info.digest, None);
                    encountered.mark_touched(&info.digest, None);
                    (ChunkTask::ReadingRaw, ChunkAction::ReadRaw)
                }
            },
        }
    }

    /// Moves the task of a chunk on and says what to do next.
    ///
    /// From [`ChunkAction::Touch`] to the event that answers it, nothing else may
    /// change the chunks met.
    pub fn step(
        &mut self,
        encountered: &mut EncounteredChunks,
        info: &ChunkInfo,
        task: ChunkTask,
        event: ChunkEvent,
    ) -> (r: (ChunkTask, ChunkAction))
        ensures
            ({
                let want = chunk_next(*old(self), old(encountered)@, *info, task, event);
                &&& *final(self) == want.pull
                &&& final(encountered)@ == want.chunks
                &&& r == (want.task, want.action)
            }),
    {
        match (task, event) {
            (ChunkTask::Start, ChunkEvent::Begin) => self.begin(encountered, info),
            (ChunkTask::Touching, ChunkEvent::Touched { exists }) => {
                if exists {
                    encountered.mark_touched(&info.digest, None);
                    (ChunkTask::Done, ChunkAction::Finish)
                } else {
                    // mark before actually downloading the chunk, so this happens only once
                    encountered.mark_reusable(&info.digest, None);
                    encountered.mark_touched(&info.digest, None);
                    (ChunkTask::ReadingRaw, ChunkAction::ReadRaw)
                }
            },
            (ChunkTask::ReadingRaw, ChunkEvent::Raw { raw_size }) => (
                ChunkTask::Writing { raw_size },
                ChunkAction::Write { digest: info.digest, size: info.size },
            ),
            (ChunkTask::ReadingPlain, ChunkEvent::Plain { digest, size, raw_size }) => {
                match self.writer {
                    Some(kind) => {
                        let entry = self.add_entry(kind, size, digest);
                        (
                            ChunkTask::Indexing { digest, size, raw_size },
                            ChunkAction::AddIndex(entry),
                        )
                    },
                    None => (ChunkTask::Failed, ChunkAction::Abort),
                }
            },
            (ChunkTask::IndexingKnown, ChunkEvent::Indexed) => (
                ChunkTask::Done,
                ChunkAction::Finish,
            ),
            (ChunkTask::Indexing { digest, size, raw_size }, ChunkEvent::Indexed) => {
                encountered.mark_reusable(&info.digest, Some(digest));
                (ChunkTask::Writing { raw_size }, ChunkAction::Write { digest, size })
            },
            (ChunkTask::Writing { raw_size }, ChunkEvent::Written) => {
                self.bytes = self.bytes.wrapping_add(raw_size);
                self.chunk_count = self.chunk_count.wrapping_add(1);
                (ChunkTask::Done, ChunkAction::Finish)
            },
            _ => (ChunkTask::Failed, ChunkAction::Abort),
        }
    }

    /// What was transferred in `elapsed` nanoseconds.
    pub fn finish(&self, elapsed: u128) -> (r: SyncStats)
        ensures
            r == (SyncStats {
                chunk_count: self.chunk_count,
                bytes: self.bytes,
                elapsed,
                removed: None,
            }),
    {
        SyncStats { chunk_count: self.chunk_count, bytes: self.bytes, elapsed, removed: None }
    }
}

/// No step takes a mark back or replaces a decrypted digest.
pub proof fn step_only_adds_marks(
    pull: ChunkPull,
    chunks: ChunkMap,
    info: ChunkInfo,
    task: ChunkTask,
    event: ChunkEvent,
)
    ensures
        extends(chunks, chunk_next(pull, chunks, info, task, event).chunks),
{
}

/// Without decryption a chunk is downloaded at most once in a sync: the task
/// that decides on the download leaves a mark, and every later task that meets
/// the mark ends at once.
pub proof fn raw_chunk_is_read_once(
    pull: ChunkPull,
    chunks: ChunkMap,
    info: ChunkInfo,
    task: ChunkTask,
    event: ChunkEvent,
    later_pull: ChunkPull,
    later: ChunkMap,
    later_info: ChunkInfo,
)
    requires
        chunk_next(pull, chunks, info, task, event).action == ChunkAction::ReadRaw,
        extends(chunk_next(pull, chunks, info, task, event).chunks, later),
        later_pull.writer is None,
        later_info.digest == info.digest,
    ensures
        chunk_begin(later_pull, later, later_info) == (ChunkOutcome {
            pull: later_pull,
            chunks: later,
            task: ChunkTask::Done,
            action: ChunkAction::Finish,
        }),
{
    let after = chunk_next(pull, chunks, info, task, event).chunks;
    assert(after.dom().contains(info.digest));
}

/// With decryption a chunk is downloaded at most once after it was indexed: its
/// decrypted digest is known from then on, and every later task for it only adds
/// that digest to the index.
pub proof fn plain_chunk_is_read_once(
    pull: ChunkPull,
    chunks: ChunkMap,
    info: ChunkInfo,
    digest: Digest,
    size: u64,
    raw_size: usize,
    later_pull: ChunkPull,
    later: ChunkMap,
    later_info: ChunkInfo,
)
    requires
        extends(
            chunk_next(
                pull,
                chunks,
                info,
                ChunkTask::Indexing { digest, size, raw_size },
                ChunkEvent::Indexed,
            ).chunks,
            later,
        ),
        later_pull.writer is Some,
        later_info.digest == info.digest,
    ensures
        chunk_begin(later_pull, later, later_info).action is AddIndex,
        chunk_begin(later_pull, later, later_info).task == ChunkTask::IndexingKnown,
{
    let after = with_reusable(chunks, info.digest, Some(digest));
    assert(after.dom().contains(info.digest));
    assert(after[info.digest].decrypted_digest is Some);
}

/// A chunk that is filtered out would not have caused any work: without
/// decryption its task ends at once and changes nothing.
pub proof fn unwanted_chunk_needs_no_work(pull: ChunkPull, chunks: ChunkMap, info: ChunkInfo)
    requires
        !wanted(chunks, info.digest),
        pull.writer is None,
    ensures
        chunk_begin(pull, chunks, info) == (ChunkOutcome {
            pull,
            chunks,
            task: ChunkTask::Done,
            action: ChunkAction::Finish,
        }),
{
}

/// Total of a list of sizes.
pub open spec fn total_size(sizes: Seq<u64>) -> int
    decreases sizes.len(),
{
    if sizes.len() == 0 {
        0
    } else {
        total_size(sizes.drop_last()) + sizes.last()
    }
}

/// Where the decrypted index ends once entries of the given sizes were added to
/// an empty one, each at the end of the one before.
pub open spec fn offset_after(sizes: Seq<u64>) -> u64
    decreases sizes.len(),
{
    if sizes.len() == 0 {
        0
    } else {
        offset_after(sizes.drop_last()).wrapping_add(sizes.last())
    }
}

/// Every entry that a step adds to the decrypted index lies directly behind what
/// was added before, and only such a step moves the end of the index.
pub proof fn entries_follow_each_other(
    pull: ChunkPull,
    chunks: ChunkMap,
    info: ChunkInfo,
    task: ChunkTask,
    event: ChunkEvent,
)
    ensures
        ({
            let next = chunk_next(pull, chunks, info, task, event);
            match next.action {
                ChunkAction::AddIndex(entry) => exists|size: u64, digest: Digest|
                    {
                        &&& pull.writer is Some
                        &&& entry == #[trigger] index_entry(
                            pull.writer->0,
                            pull.offset,
                            size,
                            digest,
                        )
                        &&& next.pull.offset == pull.offset.wrapping_add(size)
                    },
                _ => next.pull.offset == pull.offset,
            }
        }),
{
    let next = chunk_next(pull, chunks, info, task, event);
    if let ChunkAction::AddIndex(entry) = next.action {
        match event {
            ChunkEvent::Plain { digest, size, raw_size } => {
                assert(entry == index_entry(pull.writer->0, pull.offset, size, digest));
            },
            _ => {
                let digest = reusable_in(chunks, info.digest)->0.decrypted_digest->0;
                assert(entry == index_entry(pull.writer->0, pull.offset, info.size, digest));
            },
        }
    }
}

/// As long as the decrypted data fits into 64 bits, an entry starts at the total
/// size of the entries before it.
pub proof fn entry_offset_is_total_size(sizes: Seq<u64>)
    requires
        total_size(sizes) <= u64::MAX,
    ensures
        offset_after(sizes) == total_size(sizes),
        total_size(sizes) >= 0,
    decreases sizes.len(),
{
    if sizes.len() > 0 {
        total_size_is_positive(sizes.drop_last());
        entry_offset_is_total_size(sizes.drop_last());
    }
}

proof fn total_size_is_positive(sizes: Seq<u64>)
    ensures
        total_size(sizes) >= 0,
    decreases sizes.len(),
{
    if sizes.len() > 0 {
        total_size_is_positive(sizes.drop_last());
    }
}

/// Without decryption: a chunk that is not known as reusable is read, one that is known and
/// touched needs nothing, and any other one is touched. Touching a chunk that is there ends
/// its task, and one that is not there is read. Whatever is read is written under the digest
/// and size of the source, and only that counts as transferred, with the size it has on
/// disk. In between other tasks may go on, whatever they do.
pub proof fn raw_chunk_is_touched_or_transferred(
    pull: ChunkPull,
    chunks: ChunkMap,
    info: ChunkInfo,
    raw_size: usize,
    pulls: (ChunkPull, ChunkPull, ChunkPull),
    maps: (ChunkMap, ChunkMap, ChunkMap),
)
    requires
        pull.writer is None,
    ensures
        ({
            let known = chunks.dom().contains(info.digest) && chunks[info.digest].reusable;
            let touched = chunks[info.digest].touched;
            let first = chunk_next(pull, chunks, info, ChunkTask::Start, ChunkEvent::Begin);
            let here = chunk_next(
                pulls.0,
                maps.0,
                info,
                first.task,
                ChunkEvent::Touched { exists: true },
            );
            let gone = chunk_next(
                pulls.0,
                maps.0,
                info,
                first.task,
                ChunkEvent::Touched { exists: false },
            );
            let reading = if known {
                gone.task
            } else {
                first.task
            };
            let read = chunk_next(pulls.1, maps.1, info, reading, ChunkEvent::Raw { raw_size });
            let written = chunk_next(pulls.2, maps.2, info, read.task, ChunkEvent::Written);
            &&& first.pull == pull
            &&& known && touched ==> first.action == ChunkAction::Finish && first.chunks == chunks
            &&& known && !touched ==> {
                &&& first.action == ChunkAction::Touch
                &&& first.chunks == chunks
                &&& here.action == ChunkAction::Finish
                &&& here.pull == pulls.0
                &&& here.chunks.dom().contains(info.digest)
                &&& here.chunks[info.digest].touched
                &&& gone.action == ChunkAction::ReadRaw
                &&& gone.pull == pulls.0
                &&& gone.chunks.dom().contains(info.digest)
                &&& gone.chunks[info.digest].reusable && gone.chunks[info.digest].touched
            }
            &&& !known ==> {
                &&& first.action == ChunkAction::ReadRaw
                &&& first.chunks.dom().contains(info.digest)
                &&& first.chunks[info.digest].reusable && first.chunks[info.digest].touched
            }
            &&& !known || !touched ==> {
                &&& read.action == (ChunkAction::Write { digest: info.digest, size: info.size })
                &&& read.pull == pulls.1
                &&& read.chunks == maps.1
                &&& written.action == ChunkAction::Finish
                &&& written.chunks == maps.2
                &&& written.pull.writer == pulls.2.writer
                &&& written.pull.offset == pulls.2.offset
                &&& pulls.2.bytes + raw_size <= usize::MAX ==> written.pull.bytes == pulls.2.bytes
                    + raw_size
                &&& pulls.2.chunk_count < usize::MAX ==> written.pull.chunk_count
                    == pulls.2.chunk_count + 1
            }
        }),
{
}

/// Whether `entry` says of an index of kind `kind` that `size` bytes of the chunk `digest`
/// start at `offset`.
pub open spec fn entry_describes(
    entry: IndexEntry,
    kind: IndexKind,
    offset: u64,
    size: u64,
    digest: Digest,
) -> bool {
    match entry {
        IndexEntry::Fixed { offset: start, size: short, digest: named } => {
            &&& kind == IndexKind::Fixed
            &&& start == offset
            &&& short == size
            &&& named == digest
        },
        IndexEntry::Dynamic { end, digest: named } => {
            &&& kind == IndexKind::Dynamic
            &&& end == offset + size
            &&& named == digest
        },
    }
}

/// With decryption: a chunk whose decrypted digest is known is only added to the index under
/// that digest. Any other one is read and decrypted, added to the index with the digest and
/// size it then has, remembered, and written under them; only that counts as transferred.
/// Every entry stands at the end of the index and moves that end by its size.
pub proof fn plain_chunk_is_indexed_or_transferred(
    pull: ChunkPull,
    chunks: ChunkMap,
    info: ChunkInfo,
    plain: ChunkInfo,
    raw_size: usize,
    pulls: (ChunkPull, ChunkPull, ChunkPull),
    maps: (ChunkMap, ChunkMap, ChunkMap),
)
    requires
        pull.writer is Some,
        pulls.0.writer == pull.writer,
        info.size <= u32::MAX,
        plain.size <= u32::MAX,
        pull.offset + info.size <= u64::MAX,
        pulls.0.offset + plain.size <= u64::MAX,
    ensures
        ({
            let known = chunks.dom().contains(info.digest) && chunks[info.digest].reusable
                && chunks[info.digest].decrypted_digest is Some;
            let first = chunk_next(pull, chunks, info, ChunkTask::Start, ChunkEvent::Begin);
            let listed = chunk_next(pulls.1, maps.1, info, first.task, ChunkEvent::Indexed);
            let read = chunk_next(
                pulls.0,
                maps.0,
                info,
                first.task,
                ChunkEvent::Plain { digest: plain.digest, size: plain.size, raw_size },
            );
            let indexed = chunk_next(pulls.1, maps.1, info, read.task, ChunkEvent::Indexed);
            let written = chunk_next(pulls.2, maps.2, info, indexed.task, ChunkEvent::Written);
            &&& first.chunks == chunks
            &&& known ==> {
                &&& first.action matches ChunkAction::AddIndex(entry) && entry_describes(
                    entry,
                    pull.writer->0,
                    pull.offset,
                    info.size,
                    chunks[info.digest].decrypted_digest->0,
                )
                &&& first.pull.offset == pull.offset + info.size
                &&& first.pull.bytes == pull.bytes
                &&& first.pull.chunk_count == pull.chunk_count
                &&& listed.action == ChunkAction::Finish
                &&& listed.pull == pulls.1
                &&& listed.chunks == maps.1
            }
            &&& !known ==> {
                &&& first.action == ChunkAction::ReadPlain
                &&& first.pull == pull
                &&& read.action matches ChunkAction::AddIndex(entry) && entry_describes(
                    entry,
                    pull.writer->0,
                    pulls.0.offset,
                    plain.size,
                    plain.digest,
                )
                &&& read.pull.offset == pulls.0.offset + plain.size
                &&& read.pull.bytes == pulls.0.bytes
                &&& read.pull.chunk_count == pulls.0.chunk_count
                &&& read.chunks == maps.0
                &&& indexed.action == (ChunkAction::Write {
                    digest: plain.digest,
                    size: plain.size,
                })
                &&& indexed.pull == pulls.1
                &&& indexed.chunks.dom().contains(info.digest)
                &&& indexed.chunks[info.digest].reusable
                &&& (!maps.1.dom().contains(info.digest)
                    || maps.1[info.digest].decrypted_digest is None)
                    ==> indexed.chunks[info.digest].decrypted_digest == Some(plain.digest)
                &&& written.action == ChunkAction::Finish
                &&& written.chunks == maps.2
                &&& written.pull.writer == pulls.2.writer
                &&& written.pull.offset == pulls.2.offset
                &&& pulls.2.bytes + raw_size <= usize::MAX ==> written.pull.bytes == pulls.2.bytes
                    + raw_size
                &&& pulls.2.chunk_count < usize::MAX ==> written.pull.chunk_count
                    == pulls.2.chunk_count + 1
            }
        }),
{
}

/// A failure ends the task of a chunk and the pull of the index, at whatever point it comes,
/// and changes nothing.
pub proof fn failed_chunk_changes_nothing(
    pull: ChunkPull,
    chunks: ChunkMap,
    info: ChunkInfo,
    task: ChunkTask,
)
    ensures
        ({
            let next = chunk_next(pull, chunks, info, task, ChunkEvent::Failed);
            next.action == ChunkAction::Abort && next.pull == pull && next.chunks == chunks
        }),
{
}

/// A chunk is passed over exactly if it is known as reusable, was touched, and has no
/// decrypted digest.
pub proof fn only_settled_chunks_are_passed_over(chunks: ChunkMap, digest: Digest)
    ensures
        !wanted(chunks, digest) <==> chunks.dom().contains(digest) && chunks[digest].reusable
            && chunks[digest].touched && chunks[digest].decrypted_digest is None,
{
}

} // verus!
