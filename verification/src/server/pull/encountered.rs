//! Which chunks a sync has met so far.

use std::collections::HashMap;
use vstd::prelude::*;
use crate::types::Digest;

verus! {

broadcast use vstd::std_specs::hash::group_hash_axioms;

/// What is known of one chunk.
#[derive(Clone, Copy, Debug, PartialEq, Eq, Structural)]
pub struct EncounteredChunkInfo {
    /// The chunk may be reused for the index that is being pulled.
    pub reusable: bool,
    /// The chunk was touched during this sync.
    pub touched: bool,
    /// Digest of the chunk once decrypted.
    pub decrypted_digest: Option<Digest>,
}

/// Properties of a reusable chunk.
#[derive(Clone, Copy, Debug, PartialEq, Eq, Structural)]
pub struct ReusableEncounteredChunk {
    pub touched: bool,
    pub decrypted_digest: Option<Digest>,
}

/// Everything known of the chunks met so far, by digest.
pub type ChunkMap = Map<Digest, EncounteredChunkInfo>;

/// The chunks that a sync has met: whether they can be reused for the index
/// that is being pulled, and whether they were touched during this sync.
pub struct EncounteredChunks {
    chunk_set: HashMap<u128, HashMap<u128, EncounteredChunkInfo>>,
}

/// What is known of a chunk that is not known to be unusable.
pub open spec fn reusable_in(chunks: ChunkMap, digest: Digest) -> Option<ReusableEncounteredChunk> {
    if chunks.dom().contains(digest) && chunks[digest].reusable {
        Some(
            ReusableEncounteredChunk {
                touched: chunks[digest].touched,
                decrypted_digest: chunks[digest].decrypted_digest,
            },
        )
    } else {
        None
    }
}

/// The first of two digests that is set.
pub open spec fn first_set(known: Option<Digest>, new: Option<Digest>) -> Option<Digest> {
    match known {
        Some(d) => Some(d),
        None => new,
    }
}

/// The chunks once `digest` is marked as reusable.
pub open spec fn with_reusable(
    chunks: ChunkMap,
    digest: Digest,
    decrypted_digest: Option<Digest>,
) -> ChunkMap {
    chunks.insert(
        digest,
        if chunks.dom().contains(digest) {
            EncounteredChunkInfo {
                reusable: true,
                touched: chunks[digest].touched,
                decrypted_digest: first_set(chunks[digest].decrypted_digest, decrypted_digest),
            }
        } else {
            EncounteredChunkInfo { reusable: true, touched: false, decrypted_digest }
        },
    )
}

/// The chunks once `digest` is marked as touched.
pub open spec fn with_touched(
    chunks: ChunkMap,
    digest: Digest,
    decrypted_digest: Option<Digest>,
) -> ChunkMap {
    chunks.insert(
        digest,
        if chunks.dom().contains(digest) {
            EncounteredChunkInfo {
                reusable: chunks[digest].reusable,
                touched: true,
                decrypted_digest: first_set(chunks[digest].decrypted_digest, decrypted_digest),
            }
        } else {
            EncounteredChunkInfo { reusable: false, touched: true, decrypted_digest }
        },
    )
}

impl View for EncounteredChunks {
    type V = ChunkMap;

    closed spec fn view(&self) -> ChunkMap {
        Map::new(
            |d: Digest|
                self.chunk_set@.dom().contains(d.hi) && self.chunk_set@[d.hi]@.dom().contains(d.lo),
            |d: Digest| self.chunk_set@[d.hi]@[d.lo],
        )
    }
}

impl EncounteredChunks {
    /// No chunk met, with room for about `capacity` chunks.
    pub fn with_capacity(capacity: usize) -> (r: Self)
        ensures
            r@ == ChunkMap::empty(),
    {
        let r = EncounteredChunks { chunk_set: HashMap::with_capacity(capacity) };
        assert(r@ =~= ChunkMap::empty());
        r
    }

    /// What is known of a chunk.
    fn info(&self, digest: &Digest) -> (r: Option<EncounteredChunkInfo>)
        ensures
            r == (if self@.dom().contains(*digest) {
                Some(self@[*digest])
            } else {
                None
            }),
    {
        match self.chunk_set.get(&digest.hi) {
            Some(inner) => match inner.get(&digest.lo) {
                Some(info) => Some(*info),
                None => None,
            },
            None => None,
        }
    }

    /// Stores what is known of a chunk.
    fn store(&mut self, digest: &Digest, info: EncounteredChunkInfo)
        ensures
            final(self)@ == old(self)@.insert(*digest, info),
    {
        let ghost before = self@;
        let mut inner: HashMap<u128, EncounteredChunkInfo> = match self.chunk_set.remove(
            &digest.hi,
        ) {
            Some(inner) => inner,
            None => HashMap::new(),
        };
        inner.insert(digest.lo, info);
        self.chunk_set.insert(digest.hi, inner);
        assert(self@ =~= before.insert(*digest, info));
    }

    /// If the chunk may be reused, whether it was touched and its decrypted digest.
    pub fn check_reusable(&self, digest: &Digest) -> (r: Option<ReusableEncounteredChunk>)
        ensures
            r == reusable_in(self@, *digest),
    {
        match self.info(digest) {
            Some(info) => if info.reusable {
                Some(
                    ReusableEncounteredChunk {
                        touched: info.touched,
                        decrypted_digest: info.decrypted_digest,
                    },
                )
            } else {
                None
            },
            None => None,
        }
    }

    /// Marks a chunk as reusable, as not touched if it was not met before.
    ///
    /// The decrypted digest is set only where none was set before.
    pub fn mark_reusable(&mut self, digest: &Digest, decrypted_digest: Option<Digest>)
        ensures
            final(self)@ == with_reusable(old(self)@, *digest, decrypted_digest),
    {
        let info = match self.info(digest) {
            Some(info) => EncounteredChunkInfo {
                reusable: true,
                touched: info.touched,
                decrypted_digest: if info.decrypted_digest.is_none() {
                    decrypted_digest
                } else {
                    info.decrypted_digest
                },
            },
            None => EncounteredChunkInfo { reusable: true, touched: false, decrypted_digest },
        };
        self.store(digest, info);
    }

    /// Marks a chunk as touched, as not reusable if it was not met before.
    ///
    /// The decrypted digest is set only where none was set before.
    pub fn mark_touched(&mut self, digest: &Digest, decrypted_digest: Option<Digest>)
        ensures
            final(self)@ == with_touched(old(self)@, *digest, decrypted_digest),
    {
        let info = match self.info(digest) {
            Some(info) => EncounteredChunkInfo {
                reusable: info.reusable,
                touched: true,
                decrypted_digest: if info.decrypted_digest.is_none() {
                    decrypted_digest
                } else {
                    info.decrypted_digest
                },
            },
            None => EncounteredChunkInfo { reusable: false, touched: true, decrypted_digest },
        };
        self.store(digest, info);
    }

    /// Marks the chunks of a list as reusable, in order.
    pub fn mark_all_reusable(&mut self, digests: &Vec<Digest>)
        ensures
            final(self)@ == with_all_reusable(old(self)@, digests@),
    {
        let ghost before = self@;
        for i in 0..digests.len()
            invariant
                self@ == with_all_reusable(before, digests@.take(i as int)),
        {
            let digest: Digest = digests[i];
            self.mark_reusable(&digest, None);
            assert(digests@.take(i + 1).drop_last() =~= digests@.take(i as int));
        }
        assert(digests@.take(digests@.len() as int) =~= digests@);
    }
}

/// The chunks once each of `digests` is marked as reusable.
pub open spec fn with_all_reusable(chunks: ChunkMap, digests: Seq<Digest>) -> ChunkMap
    decreases digests.len(),
{
    if digests.len() == 0 {
        chunks
    } else {
        with_reusable(with_all_reusable(chunks, digests.drop_last()), digests.last(), None)
    }
}

/// One map of chunks follows another if no chunk is forgotten, no mark is taken
/// back and no decrypted digest is replaced.
pub open spec fn extends(earlier: ChunkMap, later: ChunkMap) -> bool {
    forall|d: Digest| #[trigger]
        earlier.dom().contains(d) ==> {
            &&& later.dom().contains(d)
            &&& earlier[d].reusable ==> later[d].reusable
            &&& earlier[d].touched ==> later[d].touched
            &&& earlier[d].decrypted_digest is Some ==> later[d].decrypted_digest
                == earlier[d].decrypted_digest
        }
}

/// Marking never takes anything back: a mark stays, and a decrypted digest that
/// is set is never replaced.
pub proof fn marks_only_grow(chunks: ChunkMap, digest: Digest, decrypted_digest: Option<Digest>)
    ensures
        extends(chunks, with_reusable(chunks, digest, decrypted_digest)),
        extends(chunks, with_touched(chunks, digest, decrypted_digest)),
{
}

/// What follows a map that follows a third one follows that one too.
pub proof fn extends_is_transitive(a: ChunkMap, b: ChunkMap, c: ChunkMap)
    requires
        extends(a, b),
        extends(b, c),
    ensures
        extends(a, c),
{
}

/// A chunk met by either mark is remembered as such.
pub proof fn marks_are_remembered(
    chunks: ChunkMap,
    digest: Digest,
    decrypted_digest: Option<Digest>,
)
    ensures
        reusable_in(with_reusable(chunks, digest, decrypted_digest), digest) is Some,
        with_touched(chunks, digest, decrypted_digest)[digest].touched,
        forall|d: Digest|
            d != digest ==> reusable_in(with_reusable(chunks, digest, decrypted_digest), d)
                == #[trigger] reusable_in(chunks, d),
        forall|d: Digest|
            d != digest ==> reusable_in(with_touched(chunks, digest, decrypted_digest), d)
                == #[trigger] reusable_in(chunks, d),
{
}

/// Chunks of the last backup that are marked as reusable are all reusable
/// afterwards, and no chunk counts as touched that was not touched before.
pub proof fn last_backup_is_reusable(chunks: ChunkMap, digests: Seq<Digest>)
    ensures
        extends(chunks, with_all_reusable(chunks, digests)),
        forall|i: int|
            0 <= i < digests.len() ==> reusable_in(
                with_all_reusable(chunks, digests),
                #[trigger] digests[i],
            ) is Some,
        forall|d: Digest| #[trigger]
            with_all_reusable(chunks, digests).dom().contains(d) && with_all_reusable(
                chunks,
                digests,
            )[d].touched ==> chunks.dom().contains(d) && chunks[d].touched,
    decreases digests.len(),
{
    if digests.len() > 0 {
        let init = digests.drop_last();
        last_backup_is_reusable(chunks, init);
        let mid = with_all_reusable(chunks, init);
        marks_only_grow(mid, digests.last(), None);
        extends_is_transitive(chunks, mid, with_all_reusable(chunks, digests));
        assert forall|i: int| 0 <= i < digests.len() implies reusable_in(
            with_all_reusable(chunks, digests),
            #[trigger] digests[i],
        ) is Some by {
            if i < init.len() {
                assert(reusable_in(mid, init[i]) is Some);
                assert(mid.dom().contains(init[i]));
            }
        }
    }
}

/// A mark says of its chunk what it stands for and nothing else: what was known before
/// stays, a chunk marked as reusable was not touched by that nor the other way round, and the
/// first decrypted digest is the one that is kept.
pub proof fn mark_says_nothing_else(
    chunks: ChunkMap,
    digest: Digest,
    decrypted_digest: Option<Digest>,
)
    ensures
        ({
            let met = chunks.dom().contains(digest);
            let reusable = with_reusable(chunks, digest, decrypted_digest);
            let touched = with_touched(chunks, digest, decrypted_digest);
            &&& reusable.dom() == chunks.dom().insert(digest)
            &&& touched.dom() == chunks.dom().insert(digest)
            &&& reusable[digest].reusable
            &&& reusable[digest].touched <==> met && chunks[digest].touched
            &&& touched[digest].touched
            &&& touched[digest].reusable <==> met && chunks[digest].reusable
            &&& met && chunks[digest].decrypted_digest is Some
                ==> reusable[digest].decrypted_digest == chunks[digest].decrypted_digest
                && touched[digest].decrypted_digest == chunks[digest].decrypted_digest
            &&& !met || chunks[digest].decrypted_digest is None
                ==> reusable[digest].decrypted_digest == decrypted_digest
                && touched[digest].decrypted_digest == decrypted_digest
            &&& forall|d: Digest|
                d != digest && chunks.dom().contains(d) ==> #[trigger] reusable[d] == chunks[d]
                    && touched[d] == chunks[d]
        }),
{
}

/// A chunk can be reused exactly if it is marked so, and what is then told of it is what is
/// known.
pub proof fn only_marked_chunks_are_reusable(chunks: ChunkMap, digest: Digest)
    ensures
        reusable_in(chunks, digest) is Some <==> chunks.dom().contains(digest)
            && chunks[digest].reusable,
        reusable_in(chunks, digest) matches Some(found) ==> found.touched == chunks[digest].touched
            && found.decrypted_digest == chunks[digest].decrypted_digest,
{
}

} // verus!
