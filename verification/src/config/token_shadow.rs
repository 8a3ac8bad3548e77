//! Secrets of API tokens.
//!
//! The shadow file holds a salted hash for each token. Secrets that were verified
//! are kept in memory, so that the hash need not be computed for each request. A
//! generation that all processes share tells whether the file was changed, and so
//! do time and length of the file.

use vstd::hash_map::StringHashMap;
use vstd::prelude::*;
use vstd::utf8::encode_utf8_decode_utf8;
use crate::auth::Authid;
use crate::text::str_eq;

verus! {

/// `openssl::memcmp::eq` tells whether two slices of the same length hold the
/// same bytes. It panics where the lengths differ. That it takes the same time
/// whatever the bytes are is not stated.
pub assume_specification[ openssl::memcmp::eq ](a: &[u8], b: &[u8]) -> (r: bool)
    requires
        a@.len() == b@.len(),
    ensures
        r == (a@ == b@),
;

/// Why a secret is not accepted or not changed.
#[derive(Clone, Copy, Debug, PartialEq, Eq, Structural)]
pub enum TokenError {
    /// The identity is not that of a token.
    NotAToken,
    /// There is no such token.
    InvalidToken,
}

impl TokenError {
    /// The message.
    pub open spec fn text(self) -> Seq<char> {
        match self {
            TokenError::NotAToken => "not an API token ID"@,
            TokenError::InvalidToken => "invalid API token"@,
        }
    }

    /// The message.
    pub fn message(&self) -> (r: &'static str)
        ensures
            r@ == self.text(),
    {
        match self {
            TokenError::NotAToken => "not an API token ID",
            TokenError::InvalidToken => "invalid API token",
        }
    }
}

/// A token and its secret.
pub struct ApiTokenSecret {
    pub tokenid: Authid,
    pub secret: String,
}

/// What is looked at to see whether the shadow file changed. There is neither if
/// there is no file.
#[derive(Clone, Copy, Debug, PartialEq, Eq, Structural)]
pub struct ShadowMeta {
    /// Time of the last change, in nanoseconds.
    pub mtime: Option<i128>,
    pub len: Option<u64>,
}

/// The shadow file when it was last looked at.
#[derive(Clone, Copy, Debug, PartialEq, Eq, Structural)]
pub struct ShadowFileInfo {
    pub meta: ShadowMeta,
    /// When the file was looked at.
    pub last_checked: i64,
}

/// Secrets that were verified.
pub struct ApiTokenSecretCache {
    secrets: StringHashMap<String>,
    shared_gen: usize,
    shadow: Option<ShadowFileInfo>,
}

/// Contents of the cache.
#[verifier::ext_equal]
pub struct CacheView {
    /// Secrets by printed identity of their token.
    pub secrets: Map<Seq<char>, Seq<char>>,
    /// Generation that the secrets belong to.
    pub shared_gen: usize,
    pub shadow: Option<ShadowFileInfo>,
}

impl View for ApiTokenSecretCache {
    type V = CacheView;

    closed spec fn view(&self) -> CacheView {
        CacheView {
            secrets: self.secrets@.map_values(|s: String| s@),
            shared_gen: self.shared_gen,
            shadow: self.shadow,
        }
    }
}

impl CacheView {
    /// An empty cache of a generation.
    pub open spec fn reset(shared_gen: usize) -> CacheView {
        CacheView { secrets: Map::empty(), shared_gen, shadow: None }
    }

    /// The cache, or an empty one if it belongs to another generation.
    pub open spec fn at_generation(self, shared_gen: usize) -> CacheView {
        if self.shared_gen == shared_gen {
            self
        } else {
            CacheView::reset(shared_gen)
        }
    }

    /// Whether the file still is as it was when it was last looked at.
    pub open spec fn unchanged(self, meta: ShadowMeta) -> bool {
        self.shadow is Some && self.shadow->0.meta == meta
    }

    /// Whether a secret is accepted for a token at the current generation.
    pub open spec fn accepts(self, id: Seq<char>, secret: Seq<char>, now: Option<usize>) -> bool {
        &&& self.secrets.dom().contains(id)
        &&& self.secrets[id] == secret
        &&& now == Some(self.shared_gen)
    }
}

/// What came of a refresh.
#[derive(Clone, Copy, Debug, PartialEq, Eq, Structural)]
pub enum Refresh {
    /// The cache can be used.
    Valid,
    /// The cache cannot be used.
    Invalid,
    /// The cache cannot be used, and the other processes are to be told that the
    /// file changed.
    Changed,
}

/// The cache after a refresh, and what came of it.
pub open spec fn refreshed(
    cache: CacheView,
    now: i64,
    shared_gen: Option<usize>,
    meta: Option<ShadowMeta>,
) -> (CacheView, Refresh) {
    match shared_gen {
        None => (cache, Refresh::Invalid),
        Some(generation) => {
            let current = cache.at_generation(generation);
            match meta {
                None => (current, Refresh::Invalid),
                Some(meta) => {
                    let shadow = Some(ShadowFileInfo { meta, last_checked: now });
                    if current.unchanged(meta) {
                        (CacheView { shadow, ..current }, Refresh::Valid)
                    } else {
                        (
                            CacheView { secrets: Map::empty(), shadow, ..current },
                            if current.shadow is Some {
                                Refresh::Changed
                            } else {
                                Refresh::Invalid
                            },
                        )
                    }
                },
            }
        },
    }
}

/// The cache after a secret was verified while the generation was `before`.
pub open spec fn with_verified(
    cache: CacheView,
    id: Seq<char>,
    secret: Seq<char>,
    before: usize,
    now: Option<usize>,
) -> CacheView {
    match now {
        None => cache,
        Some(generation) => {
            let current = cache.at_generation(generation);
            if generation == before {
                CacheView { secrets: current.secrets.insert(id, secret), ..current }
            } else {
                current
            }
        },
    }
}

/// What a change of the shadow file is known by.
#[derive(Clone, Copy, Debug, PartialEq, Eq, Structural)]
pub struct Mutation {
    /// Generation that the change was announced with, if it could be.
    pub bumped: Option<usize>,
    /// Generation after the change.
    pub current: Option<usize>,
    /// The file before the change.
    pub before: ShadowMeta,
    /// The file after the change, if it could be looked at.
    pub after: Option<ShadowMeta>,
    /// Time of the change.
    pub now: i64,
}

/// Whether the secrets of the cache hold up to a change that is announced with
/// `generation`: no other process made a change since, and the file is as it was when
/// it was last looked at.
pub open spec fn holds_up_to(cache: CacheView, generation: usize, before: ShadowMeta) -> bool {
    &&& cache.shared_gen + 1 == generation
    &&& cache.shadow is None || cache.unchanged(before)
}

/// The cache after the secret of a token was set or removed. Where anything is in
/// doubt the cache is emptied.
pub open spec fn mutated(
    cache: CacheView,
    id: Seq<char>,
    new_secret: Option<Seq<char>>,
    change: Mutation,
) -> CacheView {
    match change.current {
        None => CacheView::reset(0),
        Some(generation) => if change.bumped != Some(generation) {
            CacheView::reset(generation)
        } else {
            match change.after {
                None => CacheView::reset(generation),
                Some(after) => {
                    let trusted = if holds_up_to(cache, generation, change.before) {
                        cache.secrets
                    } else {
                        Map::empty()
                    };
                    CacheView {
                        secrets: match new_secret {
                            Some(secret) => trusted.insert(id, secret),
                            None => trusted.remove(id),
                        },
                        shared_gen: generation,
                        shadow: Some(ShadowFileInfo { meta: after, last_checked: change.now }),
                    }
                },
            }
        },
    }
}

fn same_meta(a: ShadowMeta, b: ShadowMeta) -> (r: bool)
    ensures
        r == (a == b),
{
    let mtimes = match (a.mtime, b.mtime) {
        (Some(x), Some(y)) => x == y,
        (None, None) => true,
        _ => false,
    };
    let lens = match (a.len, b.len) {
        (Some(x), Some(y)) => x == y,
        (None, None) => true,
        _ => false,
    };
    mtimes && lens
}

/// Whether both texts are the same, found out without looking at where they
/// differ.
fn same_secret(a: &str, b: &str) -> (r: bool)
    ensures
        r == (a@ == b@),
{
    proof {
        encode_utf8_decode_utf8(a@);
        encode_utf8_decode_utf8(b@);
    }
    let a_bytes = a.as_bytes();
    let b_bytes = b.as_bytes();
    a_bytes.len() == b_bytes.len() && openssl::memcmp::eq(a_bytes, b_bytes)
}

impl ApiTokenSecretCache {
    /// An empty cache.
    pub fn new() -> (r: Self)
        ensures
            r@ == CacheView::reset(0),
    {
        let r = ApiTokenSecretCache { secrets: StringHashMap::new(), shared_gen: 0, shadow: None };
        assert(r@ =~= CacheView::reset(0));
        r
    }

    /// Forgets everything and takes over a generation.
    pub fn reset_and_set_gen(&mut self, new_gen: usize)
        ensures
            final(self)@ == CacheView::reset(new_gen),
    {
        self.secrets.clear();
        self.shared_gen = new_gen;
        self.shadow = None;
        assert(self@ =~= CacheView::reset(new_gen));
    }

    /// Keeps a secret and takes over a generation.
    pub fn insert_and_set_gen(&mut self, tokenid: &Authid, secret: String, new_gen: usize)
        ensures
            final(self)@ == (CacheView {
                secrets: old(self)@.secrets.insert(tokenid@.text(), secret@),
                shared_gen: new_gen,
                ..old(self)@
            }),
    {
        let ghost before = self@;
        self.secrets.insert(tokenid.to_string(), secret);
        self.shared_gen = new_gen;
        assert(self@.secrets =~= before.secrets.insert(tokenid@.text(), secret@));
    }

    /// Forgets a secret and takes over a generation.
    pub fn evict_and_set_gen(&mut self, tokenid: &Authid, new_gen: usize)
        ensures
            final(self)@ == (CacheView {
                secrets: old(self)@.secrets.remove(tokenid@.text()),
                shared_gen: new_gen,
                ..old(self)@
            }),
    {
        let ghost before = self@;
        self.secrets.remove(tokenid.to_string().as_str());
        self.shared_gen = new_gen;
        assert(self@.secrets =~= before.secrets.remove(tokenid@.text()));
    }

    fn clear_secrets(&mut self)
        ensures
            final(self)@ == (CacheView { secrets: Map::empty(), ..old(self)@ }),
    {
        self.secrets.clear();
        assert(self@.secrets =~= Map::empty());
    }

    fn go_to_generation(&mut self, shared_gen: usize)
        ensures
            final(self)@ == old(self)@.at_generation(shared_gen),
    {
        if self.shared_gen != shared_gen {
            self.reset_and_set_gen(shared_gen);
        }
    }

    /// Brings the cache up to date with the shared generation and the shadow file,
    /// each of which may not be known, and tells whether it can be used.
    pub fn refresh_if_file_changed(
        &mut self,
        now: i64,
        shared_gen: Option<usize>,
        meta: Option<ShadowMeta>,
    ) -> (r: Refresh)
        ensures
            (final(self)@, r) == refreshed(old(self)@, now, shared_gen, meta),
    {
        let generation: usize = match shared_gen {
            Some(generation) => generation,
            None => {
                return Refresh::Invalid;
            },
        };
        // another process may have changed anything
        self.go_to_generation(generation);
        let meta: ShadowMeta = match meta {
            Some(meta) => meta,
            None => {
                return Refresh::Invalid;
            },
        };
        let known = match self.shadow {
            Some(shadow) => {
                if same_meta(shadow.meta, meta) {
                    self.shadow = Some(ShadowFileInfo { meta, last_checked: now });
                    return Refresh::Valid;
                }
                true
            },
            None => false,
        };
        self.clear_secrets();
        self.shadow = Some(ShadowFileInfo { meta, last_checked: now });
        if known {
            Refresh::Changed
        } else {
            Refresh::Invalid
        }
    }

    /// Takes over the generation that a change of the file was announced with.
    pub fn set_gen(&mut self, shared_gen: usize)
        ensures
            final(self)@ == (CacheView { shared_gen, ..old(self)@ }),
    {
        self.shared_gen = shared_gen;
    }

    /// Keeps a secret that was verified, unless the file changed since the
    /// generation was `before`.
    pub fn try_insert_secret(
        &mut self,
        tokenid: &Authid,
        secret: String,
        before: usize,
        now: Option<usize>,
    )
        ensures
            final(self)@ == with_verified(old(self)@, tokenid@.text(), secret@, before, now),
    {
        if let Some(generation) = now {
            self.go_to_generation(generation);
            if generation == before {
                self.insert_and_set_gen(tokenid, secret, generation);
            }
        }
    }

    /// Whether a secret is the one that is kept for a token, and is current.
    pub fn try_secret_matches(&self, tokenid: &Authid, secret: &str, now: Option<usize>) -> (r: bool)
        ensures
            r == self@.accepts(tokenid@.text(), secret@, now),
    {
        let id = tokenid.to_string();
        let cached = match self.secrets.get(id.as_str()) {
            Some(cached) => cached,
            None => {
                return false;
            },
        };
        match now {
            Some(generation) => generation == self.shared_gen && same_secret(
                cached.as_str(),
                secret,
            ),
            None => false,
        }
    }

    /// Follows a change of the shadow file that this process made: the secret of a
    /// token was set, or removed.
    pub fn apply_api_mutation(
        &mut self,
        tokenid: &Authid,
        new_secret: &Option<String>,
        change: &Mutation,
    )
        ensures
            final(self)@ == mutated(
                old(self)@,
                tokenid@.text(),
                crate::text::opt_text(*new_secret),
                *change,
            ),
    {
        let generation: usize = match change.current {
            Some(generation) => generation,
            None => {
                self.reset_and_set_gen(0);
                return;
            },
        };
        let announced = match change.bumped {
            Some(bumped) => bumped == generation,
            None => false,
        };
        if !announced {
            self.reset_and_set_gen(generation);
            return;
        }
        let unchanged = match self.shadow {
            Some(shadow) => same_meta(shadow.meta, change.before),
            None => true,
        };
        // somebody else may have changed the file before
        if generation == 0 || self.shared_gen != generation - 1 || !unchanged {
            self.clear_secrets();
        }
        match new_secret {
            Some(secret) => {
                self.insert_and_set_gen(tokenid, secret.clone(), generation);
            },
            None => {
                self.evict_and_set_gen(tokenid, generation);
            },
        }
        match change.after {
            Some(meta) => {
                self.shadow = Some(ShadowFileInfo { meta, last_checked: change.now });
            },
            None => {
                self.reset_and_set_gen(generation);
            },
        }
    }
}

/// What follows when the secret of a token is verified.
#[derive(Clone, Copy, Debug, PartialEq, Eq, Structural)]
pub enum VerifyStep {
    /// The secret is accepted.
    Accept,
    /// The hash of the secret has to be compared to the one on file.
    CheckFile,
}

/// First step of the verification of a secret, from whether the cache is valid
/// and whether it accepts the secret.
pub fn verify_secret(tokenid: &Authid, cache_valid: bool, cached: bool) -> (r: Result<
    VerifyStep,
    TokenError,
>)
    ensures
        r == (if tokenid@.token is None {
            Err::<VerifyStep, TokenError>(TokenError::NotAToken)
        } else if cache_valid && cached {
            Ok(VerifyStep::Accept)
        } else {
            Ok(VerifyStep::CheckFile)
        }),
{
    if !tokenid.is_token() {
        return Err(TokenError::NotAToken);
    }
    if cache_valid && cached {
        Ok(VerifyStep::Accept)
    } else {
        Ok(VerifyStep::CheckFile)
    }
}

/// A token and the hash of its secret.
pub struct ShadowEntry {
    pub id: String,
    pub hash: String,
}

/// Contents of the shadow file.
pub struct ShadowData {
    pub entries: Vec<ShadowEntry>,
}

/// Contents of a list of entries, by token. Of several for the same token the
/// last counts.
pub open spec fn entries_map(entries: Seq<ShadowEntry>) -> Map<Seq<char>, Seq<char>>
    decreases entries.len(),
{
    if entries.len() == 0 {
        Map::empty()
    } else {
        entries_map(entries.drop_last()).insert(entries.last().id@, entries.last().hash@)
    }
}

impl View for ShadowData {
    type V = Map<Seq<char>, Seq<char>>;

    open spec fn view(&self) -> Map<Seq<char>, Seq<char>> {
        entries_map(self.entries@)
    }
}

/// Hash of a token's secret in a list of entries, looked for from the back.
fn find_hash<'a>(entries: &'a Vec<ShadowEntry>, id: &str) -> (r: Option<&'a String>)
    ensures
        match r {
            Some(hash) => entries_map(entries@).dom().contains(id@) && entries_map(entries@)[id@]
                == hash@,
            None => !entries_map(entries@).dom().contains(id@),
        },
{
    let mut i: usize = entries.len();
    assert(entries@.take(i as int) =~= entries@);
    while i > 0
        invariant
            i <= entries@.len(),
            entries_map(entries@).dom().contains(id@) == entries_map(
                entries@.take(i as int),
            ).dom().contains(id@),
            entries_map(entries@).dom().contains(id@) ==> entries_map(entries@)[id@] == entries_map(
                entries@.take(i as int),
            )[id@],
        decreases i,
    {
        assert(entries@.take(i as int).drop_last() =~= entries@.take(i - 1));
        assert(entries@.take(i as int).last() == entries@[i - 1]);
        i = i - 1;
        if str_eq(entries[i].id.as_str(), id) {
            return Some(&entries[i].hash);
        }
    }
    None
}

/// The entries without those of a token.
fn without(entries: Vec<ShadowEntry>, id: &str) -> (r: Vec<ShadowEntry>)
    ensures
        entries_map(r@) == entries_map(entries@).remove(id@),
{
    let ghost all = entries@;
    let mut r: Vec<ShadowEntry> = Vec::new();
    assert(entries_map(r@) =~= entries_map(all.take(0)).remove(id@));
    for entry in it: entries
        invariant
            it.seq() == all,
            entries_map(r@) == entries_map(all.take(it.index() as int)).remove(id@),
    {
        let ghost k = it.index() as int;
        assert(all.take(k + 1).drop_last() =~= all.take(k));
        assert(all.take(k + 1).last() == entry);
        if !str_eq(entry.id.as_str(), id) {
            let ghost before = r@;
            r.push(entry);
            assert(r@.drop_last() =~= before);
            assert(entries_map(r@) =~= entries_map(all.take(k + 1)).remove(id@));
        } else {
            assert(entries_map(r@) =~= entries_map(all.take(k + 1)).remove(id@));
        }
    }
    assert(all.take(all.len() as int) =~= all);
    r
}

impl ShadowData {
    /// Hash of the secret of a token, or an error if there is no such token.
    pub fn lookup(&self, tokenid: &Authid) -> (r: Result<&String, TokenError>)
        ensures
            match r {
                Ok(hash) => self@.dom().contains(tokenid@.text()) && hash@ == self@[tokenid@.text()],
                Err(e) => e == TokenError::InvalidToken && !self@.dom().contains(tokenid@.text()),
            },
    {
        let id = tokenid.to_string();
        match find_hash(&self.entries, id.as_str()) {
            Some(hash) => Ok(hash),
            None => Err(TokenError::InvalidToken),
        }
    }

    /// Sets the hash of the secret of a token.
    pub fn set_secret(&mut self, tokenid: &Authid, hash: String) -> (r: Result<(), TokenError>)
        ensures
            match r {
                Ok(()) => tokenid@.token is Some && final(self)@ == old(self)@.insert(
                    tokenid@.text(),
                    hash@,
                ),
                Err(e) => e == TokenError::NotAToken && tokenid@.token is None && final(self)@
                    == old(self)@,
            },
    {
        if !tokenid.is_token() {
            return Err(TokenError::NotAToken);
        }
        let id = tokenid.to_string();
        let ghost before = self@;
        let mut entries: Vec<ShadowEntry> = Vec::new();
        std::mem::swap(&mut self.entries, &mut entries);
        let mut kept = without(entries, id.as_str());
        let ghost without_id = kept@;
        kept.push(ShadowEntry { id, hash });
        assert(kept@.drop_last() =~= without_id);
        self.entries = kept;
        assert(self@ =~= before.insert(tokenid@.text(), hash@));
        Ok(())
    }

    /// Removes the entry of a token, if it has one.
    pub fn delete_secret(&mut self, tokenid: &Authid) -> (r: Result<(), TokenError>)
        ensures
            match r {
                Ok(()) => tokenid@.token is Some && final(self)@ == old(self)@.remove(
                    tokenid@.text(),
                ),
                Err(e) => e == TokenError::NotAToken && tokenid@.token is None && final(self)@
                    == old(self)@,
            },
    {
        if !tokenid.is_token() {
            return Err(TokenError::NotAToken);
        }
        let id = tokenid.to_string();
        let mut entries: Vec<ShadowEntry> = Vec::new();
        std::mem::swap(&mut self.entries, &mut entries);
        self.entries = without(entries, id.as_str());
        Ok(())
    }
}

/// Once another process has moved on to another generation, no secret of the old
/// one is accepted any more.
pub proof fn stale_secret_is_not_accepted(
    cache: CacheView,
    id: Seq<char>,
    secret: Seq<char>,
    now: Option<usize>,
)
    requires
        now != Some(cache.shared_gen),
    ensures
        !cache.accepts(id, secret, now),
{
}

/// After a change of the shadow file, a refreshed cache holds no secret that was
/// verified before the change.
pub proof fn changed_file_empties_the_cache(
    cache: CacheView,
    now: i64,
    generation: usize,
    meta: ShadowMeta,
)
    requires
        !cache.unchanged(meta) || cache.shared_gen != generation,
    ensures
        refreshed(cache, now, Some(generation), Some(meta)).0.secrets == Map::<
            Seq<char>,
            Seq<char>,
        >::empty(),
        refreshed(cache, now, Some(generation), Some(meta)).1 != Refresh::Valid,
{
}

/// A refresh never adds a secret, and one that reports a valid cache keeps all.
pub proof fn refresh_adds_no_secret(
    cache: CacheView,
    now: i64,
    shared_gen: Option<usize>,
    meta: Option<ShadowMeta>,
)
    ensures
        forall|id: Seq<char>|
            refreshed(cache, now, shared_gen, meta).0.secrets.dom().contains(id)
                ==> cache.secrets.dom().contains(id) && #[trigger] refreshed(
                cache,
                now,
                shared_gen,
                meta,
            ).0.secrets[id] == cache.secrets[id],
        refreshed(cache, now, shared_gen, meta).1 == Refresh::Valid ==> refreshed(
            cache,
            now,
            shared_gen,
            meta,
        ).0.secrets == cache.secrets,
{
}

/// A secret that was verified is kept only if no process changed the file while
/// it was verified.
pub proof fn verified_during_change_is_not_kept(
    cache: CacheView,
    id: Seq<char>,
    secret: Seq<char>,
    before: usize,
    now: usize,
)
    requires
        before != now,
    ensures
        with_verified(cache, id, secret, before, Some(now)) == cache.at_generation(now),
{
}

/// After the secret of a token was set or removed, the cache accepts nothing for
/// the token but the new secret, whatever is known of the change.
pub proof fn old_secret_is_not_accepted_after_change(
    cache: CacheView,
    id: Seq<char>,
    new_secret: Option<Seq<char>>,
    change: Mutation,
    secret: Seq<char>,
    now: Option<usize>,
)
    requires
        mutated(cache, id, new_secret, change).accepts(id, secret, now),
    ensures
        new_secret == Some(secret),
{
}

/// A change that nothing is in doubt of leaves the other secrets in the cache.
pub proof fn other_secrets_stay(
    cache: CacheView,
    id: Seq<char>,
    new_secret: Option<Seq<char>>,
    change: Mutation,
    generation: usize,
    other: Seq<char>,
)
    requires
        change.current == Some(generation),
        change.bumped == Some(generation),
        change.after is Some,
        holds_up_to(cache, generation, change.before),
        other != id,
    ensures
        mutated(cache, id, new_secret, change).secrets.dom().contains(other)
            == cache.secrets.dom().contains(other),
        cache.secrets.dom().contains(other) ==> mutated(cache, id, new_secret, change).secrets[other]
            == cache.secrets[other],
{
}

/// A cache of the current generation whose file has not changed stays valid with all its
/// secrets. Without a generation nothing is known and nothing changes; without the state of
/// the file the cache is not valid. A file that was known and has changed is told apart from
/// one that was not known, and either way its state is noted.
pub proof fn unchanged_file_keeps_the_cache(
    cache: CacheView,
    now: i64,
    generation: usize,
    meta: ShadowMeta,
)
    ensures
        ({
            let (after, refresh) = refreshed(cache, now, Some(generation), Some(meta));
            let current = cache.shared_gen == generation;
            let same = cache.shadow is Some && cache.shadow->0.meta == meta;
            &&& after.shared_gen == generation
            &&& after.shadow == Some(ShadowFileInfo { meta, last_checked: now })
            &&& current && same ==> refresh == Refresh::Valid && after.secrets == cache.secrets
            &&& current && !same && cache.shadow is Some ==> refresh == Refresh::Changed
            &&& !current || cache.shadow is None ==> refresh == Refresh::Invalid
            &&& refreshed(cache, now, Some(generation), None).1 == Refresh::Invalid
            &&& current ==> refreshed(cache, now, Some(generation), None).0 == cache
            &&& refreshed(cache, now, None, Some(meta)) == (cache, Refresh::Invalid)
            &&& refreshed(cache, now, None, None) == (cache, Refresh::Invalid)
        }),
{
}

/// A secret that was verified while the generation stayed the same is accepted from then on,
/// as long as that is the generation; the secrets that a cache of this generation had are
/// kept along with it.
pub proof fn verified_secret_is_accepted(
    cache: CacheView,
    id: Seq<char>,
    secret: Seq<char>,
    generation: usize,
    other: Seq<char>,
)
    ensures
        ({
            let after = with_verified(cache, id, secret, generation, Some(generation));
            &&& after.accepts(id, secret, Some(generation))
            &&& other != id && cache.shared_gen == generation ==> forall|kept: Seq<char>|
                after.accepts(other, kept, Some(generation)) == #[trigger] cache.accepts(
                    other,
                    kept,
                    Some(generation),
                )
            &&& with_verified(cache, id, secret, generation, None) == cache
        }),
{
}

/// A new secret is accepted right after it was set, if the generation was raised to what it
/// then is and the state of the file is known. The other secrets stay exactly if the cache
/// was of the generation before that, and of the file as it was before.
pub proof fn new_secret_is_accepted_after_change(
    cache: CacheView,
    id: Seq<char>,
    secret: Seq<char>,
    change: Mutation,
    generation: usize,
    other: Seq<char>,
    kept: Seq<char>,
)
    requires
        change.current == Some(generation),
        change.bumped == Some(generation),
        change.after is Some,
    ensures
        ({
            let set = mutated(cache, id, Some(secret), change);
            let deleted = mutated(cache, id, None, change);
            let trusted = cache.shared_gen + 1 == generation && (cache.shadow is None
                || cache.shadow->0.meta == change.before);
            &&& set.accepts(id, secret, Some(generation))
            &&& !deleted.secrets.dom().contains(id)
            &&& set.shadow == Some(
                ShadowFileInfo { meta: change.after->0, last_checked: change.now },
            )
            &&& other != id ==> {
                &&& set.accepts(other, kept, Some(generation)) <==> trusted
                    && cache.secrets.dom().contains(other) && cache.secrets[other] == kept
                &&& deleted.accepts(other, kept, Some(generation)) <==> trusted
                    && cache.secrets.dom().contains(other) && cache.secrets[other] == kept
            }
        }),
{
}

/// A change of which the generation or the file afterwards is not known leaves an empty
/// cache.
pub proof fn uncertain_change_empties_the_cache(
    cache: CacheView,
    id: Seq<char>,
    new_secret: Option<Seq<char>>,
    change: Mutation,
)
    requires
        change.current is None || change.bumped != change.current || change.after is None,
    ensures
        mutated(cache, id, new_secret, change).secrets == Map::<Seq<char>, Seq<char>>::empty(),
        mutated(cache, id, new_secret, change).shadow is None,
{
}

/// The last entry for a token is the one that counts, and only tokens with an entry are
/// known.
pub proof fn last_entry_counts(entries: Seq<ShadowEntry>, last: ShadowEntry, id: Seq<char>)
    ensures
        ({
            let before = entries_map(entries);
            let after = entries_map(entries.push(last));
            &&& after.dom().contains(last.id@) && after[last.id@] == last.hash@
            &&& id != last.id@ ==> after.dom().contains(id) == before.dom().contains(id)
            &&& id != last.id@ && before.dom().contains(id) ==> after[id] == before[id]
            &&& !entries_map(Seq::empty()).dom().contains(id)
        }),
{
    assert(entries.push(last).drop_last() =~= entries);
}

} // verus!
