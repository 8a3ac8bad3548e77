//! Which secrets of API tokens are accepted after any list of changes and
//! verifications.
//!
//! The shadow file and its generation are shared by several processes; the cache is
//! that of one of them.

use vstd::prelude::*;
use crate::auth::{printed_identity_is_unique, AuthidView};
use super::token_shadow::{
    holds_up_to, mutated, refreshed, with_verified, CacheView, Mutation, Refresh, ShadowMeta,
};

verus! {

/// Whether a secret belongs to a hash.
pub type HashCheck = spec_fn(Seq<char>, Seq<char>) -> bool;

/// What happens to the tokens.
pub enum TokenEvent {
    /// A secret is set, by the process with the cache or by another one.
    Change {
        by_us: bool,
        id: AuthidView,
        secret: Seq<char>,
        /// What the file holds of the secret.
        hash: Seq<char>,
        /// Time and length of the file afterwards.
        after: ShadowMeta,
        now: i64,
    },
    /// A token is deleted, by the process with the cache or by another one.
    Delete { by_us: bool, id: AuthidView, after: ShadowMeta, now: i64 },
    /// A secret is verified by the process with the cache.
    Verify {
        id: AuthidView,
        secret: Seq<char>,
        now: i64,
        /// Whether the cache can be brought up to date, as no one else uses it.
        refresh: bool,
    },
    /// A secret is kept that was verified from the file when the generation was `before`.
    /// Anything may have happened since.
    Keep { id: AuthidView, secret: Seq<char>, before: usize },
}

/// The shadow file, the generation and the cache of one process.
pub struct TokenWorld {
    /// Hash of the secret by printed identity of the token.
    pub hashes: Map<Seq<char>, Seq<char>>,
    pub generation: usize,
    /// Time and length of the file.
    pub meta: ShadowMeta,
    pub cache: CacheView,
    /// Secrets that were verified from the file, with the generation of that time.
    pub verified: Set<(AuthidView, Seq<char>, usize)>,
}

/// Before the first token, with an empty cache.
pub open spec fn no_tokens(generation: usize, meta: ShadowMeta) -> TokenWorld {
    TokenWorld {
        hashes: Map::empty(),
        generation,
        meta,
        cache: CacheView::reset(0),
        verified: Set::empty(),
    }
}

/// After the file was changed, which was announced with a new generation. The process
/// that made the change follows it in its cache.
pub open spec fn after_change(
    w: TokenWorld,
    by_us: bool,
    id: AuthidView,
    new: Option<(Seq<char>, Seq<char>)>,
    after: ShadowMeta,
    now: i64,
) -> TokenWorld {
    let generation = (w.generation + 1) as usize;
    let change = Mutation {
        bumped: Some(generation),
        current: Some(generation),
        before: w.meta,
        after: Some(after),
        now,
    };
    let (hashes, secret) = match new {
        Some((secret, hash)) => (w.hashes.insert(id.text(), hash), Some(secret)),
        None => (w.hashes.remove(id.text()), None),
    };
    TokenWorld {
        hashes,
        generation,
        meta: after,
        cache: if by_us {
            mutated(w.cache, id.text(), secret, change)
        } else {
            w.cache
        },
        verified: w.verified,
    }
}

/// After the cache was brought up to date, and whether it can be used. A change of the
/// file that had not been announced is announced now.
pub open spec fn after_refresh(w: TokenWorld, now: i64) -> (TokenWorld, bool) {
    let (cache, outcome) = refreshed(w.cache, now, Some(w.generation), Some(w.meta));
    if outcome == Refresh::Changed {
        let generation = (w.generation + 1) as usize;
        let cache = CacheView { shared_gen: generation, ..cache };
        (TokenWorld { generation, cache, ..w }, false)
    } else {
        (TokenWorld { cache, ..w }, outcome == Refresh::Valid)
    }
}

/// Whether the file accepts a secret for a token.
pub open spec fn on_file(
    hashes: Map<Seq<char>, Seq<char>>,
    check: HashCheck,
    id: AuthidView,
    secret: Seq<char>,
) -> bool {
    hashes.dom().contains(id.text()) && check(secret, hashes[id.text()])
}

/// After a secret was verified, and whether it was accepted: by the cache, or else by
/// the file.
pub open spec fn after_verify(
    w: TokenWorld,
    check: HashCheck,
    id: AuthidView,
    secret: Seq<char>,
    now: i64,
    refresh: bool,
) -> (TokenWorld, bool) {
    if id.token is None {
        (w, false)
    } else {
        let (w, usable) = if refresh {
            after_refresh(w, now)
        } else {
            (w, false)
        };
        if usable && w.cache.accepts(id.text(), secret, Some(w.generation)) {
            (w, true)
        } else if on_file(w.hashes, check, id, secret) {
            let verified = w.verified.insert((id, secret, w.generation));
            (TokenWorld { verified, ..w }, true)
        } else {
            (w, false)
        }
    }
}

/// After a secret that was verified was kept.
pub open spec fn after_keep(
    w: TokenWorld,
    id: AuthidView,
    secret: Seq<char>,
    before: usize,
) -> TokenWorld {
    let cache = with_verified(w.cache, id.text(), secret, before, Some(w.generation));
    TokenWorld { cache, ..w }
}

/// After an event. What is not a token has no secret.
pub open spec fn world_next(w: TokenWorld, check: HashCheck, event: TokenEvent) -> TokenWorld {
    match event {
        TokenEvent::Change { by_us, id, secret, hash, after, now } => if id.token is Some {
            after_change(w, by_us, id, Some((secret, hash)), after, now)
        } else {
            w
        },
        TokenEvent::Delete { by_us, id, after, now } => if id.token is Some {
            after_change(w, by_us, id, None, after, now)
        } else {
            w
        },
        TokenEvent::Verify { id, secret, now, refresh } => after_verify(
            w,
            check,
            id,
            secret,
            now,
            refresh,
        ).0,
        TokenEvent::Keep { id, secret, before } => after_keep(w, id, secret, before),
    }
}

/// After a list of events, from the start `w`.
pub open spec fn world_after(
    w: TokenWorld,
    check: HashCheck,
    events: Seq<TokenEvent>,
) -> TokenWorld
    decreases events.len(),
{
    if events.len() == 0 {
        w
    } else {
        world_next(world_after(w, check, events.drop_last()), check, events.last())
    }
}

/// Whether only `secret` belongs to `hash`.
pub open spec fn belongs_to(check: HashCheck, hash: Seq<char>, secret: Seq<char>) -> bool {
    forall|s: Seq<char>| #[trigger] check(s, hash) == (s == secret)
}

/// Whether an event can happen: the identity is valid, there is a next generation, only
/// the secret itself belongs to its hash, and only one that was verified is kept.
pub open spec fn can_happen(w: TokenWorld, check: HashCheck, event: TokenEvent) -> bool {
    &&& w.generation < usize::MAX
    &&& match event {
        TokenEvent::Change { id, secret, hash, .. } => {
            &&& id.valid()
            &&& belongs_to(check, hash, secret)
        },
        TokenEvent::Delete { id, .. } => id.valid(),
        TokenEvent::Verify { id, .. } => id.valid(),
        TokenEvent::Keep { id, secret, before } => w.verified.contains((id, secret, before)),
    }
}

/// Whether each of the events can happen after those before it.
pub open spec fn all_happen(w: TokenWorld, check: HashCheck, events: Seq<TokenEvent>) -> bool
    decreases events.len(),
{
    events.len() > 0 ==> all_happen(w, check, events.drop_last()) && can_happen(
        world_after(w, check, events.drop_last()),
        check,
        events.last(),
    )
}

/// The secret that a token was set to last, unless it was deleted since.
pub open spec fn last_secret(events: Seq<TokenEvent>, id: AuthidView) -> Option<Seq<char>>
    decreases events.len(),
{
    if events.len() == 0 {
        None
    } else {
        match events.last() {
            TokenEvent::Change { id: changed, secret, .. } if changed == id && id.token is Some => Some(
                secret,
            ),
            TokenEvent::Delete { id: changed, .. } if changed == id && id.token is Some => None,
            _ => last_secret(events.drop_last(), id),
        }
    }
}

/// Whether a map has only secrets that tokens were set to last.
spec fn up_to_date(secrets: Map<Seq<char>, Seq<char>>, events: Seq<TokenEvent>) -> bool {
    forall|id: AuthidView|
        id.valid() && id.token is Some && secrets.dom().contains(#[trigger] id.text())
            ==> last_secret(events, id) == Some(secrets[id.text()])
}

/// Whether the file has the hash of the last secret of each token.
spec fn file_is_right(
    hashes: Map<Seq<char>, Seq<char>>,
    check: HashCheck,
    events: Seq<TokenEvent>,
) -> bool {
    forall|id: AuthidView, s: Seq<char>|
        id.valid() && id.token is Some ==> #[trigger] on_file(hashes, check, id, s) == (last_secret(
            events,
            id,
        ) == Some(s))
}

/// Whether each secret that was verified at the current generation was set last.
spec fn verified_are_right(w: TokenWorld, events: Seq<TokenEvent>) -> bool {
    forall|id: AuthidView, s: Seq<char>, g: usize| #[trigger]
        w.verified.contains((id, s, g)) ==> {
            &&& id.valid() && id.token is Some
            &&& g <= w.generation
            &&& g == w.generation ==> last_secret(events, id) == Some(s)
        }
}

spec fn consistent(w: TokenWorld, check: HashCheck, events: Seq<TokenEvent>) -> bool {
    &&& file_is_right(w.hashes, check, events)
    &&& verified_are_right(w, events)
    &&& w.cache.shared_gen <= w.generation
    &&& w.cache.shared_gen == w.generation ==> up_to_date(w.cache.secrets, events)
}

proof fn change_keeps_consistent(
    w: TokenWorld,
    check: HashCheck,
    events: Seq<TokenEvent>,
    by_us: bool,
    id: AuthidView,
    new: Option<(Seq<char>, Seq<char>)>,
    after: ShadowMeta,
    now: i64,
    event: TokenEvent,
)
    requires
        consistent(w, check, events),
        id.token is Some,
        event == (match new {
            Some((secret, hash)) => TokenEvent::Change { by_us, id, secret, hash, after, now },
            None => TokenEvent::Delete { by_us, id, after, now },
        }),
        can_happen(w, check, event),
    ensures
        consistent(
            after_change(w, by_us, id, new, after, now),
            check,
            events.push(event),
        ),
{
    let all = events.push(event);
    assert(all.drop_last() =~= events);
    let next = after_change(w, by_us, id, new, after, now);
    assert forall|other: AuthidView, s: Seq<char>|
        other.valid() && other.token is Some implies #[trigger] on_file(
        next.hashes,
        check,
        other,
        s,
    ) == (last_secret(all, other) == Some(s)) by {
        if other != id {
            if other.text() == id.text() {
                printed_identity_is_unique(other, id);
            }
            assert(on_file(next.hashes, check, other, s) == on_file(w.hashes, check, other, s));
            assert(last_secret(all, other) == last_secret(events, other));
        } else {
            match new {
                Some((secret, hash)) => {
                    assert(next.hashes[id.text()] == hash);
                    assert(belongs_to(check, hash, secret));
                    assert(check(s, hash) == (s == secret));
                    assert(last_secret(all, id) == Some(secret));
                },
                None => {
                    assert(last_secret(all, id) is None);
                },
            }
        }
    }
    if by_us {
        let trusted = if holds_up_to(w.cache, next.generation, w.meta) {
            w.cache.secrets
        } else {
            Map::empty()
        };
        assert(up_to_date(trusted, events));
        assert forall|other: AuthidView|
            other.valid() && other.token is Some && next.cache.secrets.dom().contains(
                #[trigger] other.text(),
            ) implies last_secret(all, other) == Some(next.cache.secrets[other.text()]) by {
            if other != id && other.text() == id.text() {
                printed_identity_is_unique(other, id);
            }
        }
    }
}

proof fn refresh_keeps_consistent(
    w: TokenWorld,
    check: HashCheck,
    events: Seq<TokenEvent>,
    now: i64,
)
    requires
        consistent(w, check, events),
        w.generation < usize::MAX,
    ensures
        consistent(after_refresh(w, now).0, check, events),
        after_refresh(w, now).1 ==> up_to_date(after_refresh(w, now).0.cache.secrets, events),
        after_refresh(w, now).0.hashes == w.hashes,
{
}

proof fn verify_keeps_consistent(
    w: TokenWorld,
    check: HashCheck,
    events: Seq<TokenEvent>,
    id: AuthidView,
    secret: Seq<char>,
    now: i64,
    refresh: bool,
)
    requires
        consistent(w, check, events),
        w.generation < usize::MAX,
        id.valid(),
    ensures
        consistent(after_verify(w, check, id, secret, now, refresh).0, check, events),
        after_verify(w, check, id, secret, now, refresh).1 == (id.token is Some && last_secret(
            events,
            id,
        ) == Some(secret)),
{
    if id.token is Some {
        let (mid, usable) = if refresh {
            after_refresh(w, now)
        } else {
            (w, false)
        };
        if refresh {
            refresh_keeps_consistent(w, check, events, now);
        }
        assert(on_file(mid.hashes, check, id, secret) == (last_secret(events, id) == Some(secret)));
    }
}

proof fn keep_keeps_consistent(
    w: TokenWorld,
    check: HashCheck,
    events: Seq<TokenEvent>,
    id: AuthidView,
    secret: Seq<char>,
    before: usize,
)
    requires
        consistent(w, check, events),
        w.verified.contains((id, secret, before)),
    ensures
        consistent(after_keep(w, id, secret, before), check, events),
{
    assert forall|other: AuthidView|
        other.valid() && other.text() == id.text() implies other == id by {
        printed_identity_is_unique(other, id);
    }
}

proof fn all_events_keep_consistent(
    w: TokenWorld,
    check: HashCheck,
    events: Seq<TokenEvent>,
    generation: usize,
    meta: ShadowMeta,
)
    requires
        w == no_tokens(generation, meta),
        all_happen(w, check, events),
    ensures
        consistent(world_after(w, check, events), check, events),
    decreases events.len(),
{
    if events.len() > 0 {
        let before = events.drop_last();
        let event = events.last();
        let mid = world_after(w, check, before);
        all_events_keep_consistent(w, check, before, generation, meta);
        assert(before.push(event) =~= events);
        match event {
            TokenEvent::Change { by_us, id, secret, hash, after, now } => {
                if id.token is Some {
                    change_keeps_consistent(
                        mid,
                        check,
                        before,
                        by_us,
                        id,
                        Some((secret, hash)),
                        after,
                        now,
                        event,
                    );
                } else {
                    same_secrets(mid, check, before, events);
                }
            },
            TokenEvent::Delete { by_us, id, after, now } => {
                if id.token is Some {
                    change_keeps_consistent(mid, check, before, by_us, id, None, after, now, event);
                } else {
                    same_secrets(mid, check, before, events);
                }
            },
            TokenEvent::Verify { id, secret, now, refresh } => {
                verify_keeps_consistent(mid, check, before, id, secret, now, refresh);
                let next = after_verify(mid, check, id, secret, now, refresh).0;
                same_secrets(next, check, before, events);
            },
            TokenEvent::Keep { id, secret, before: at } => {
                keep_keeps_consistent(mid, check, before, id, secret, at);
                same_secrets(after_keep(mid, id, secret, at), check, before, events);
            },
        }
    }
}

proof fn same_secrets(
    w: TokenWorld,
    check: HashCheck,
    before: Seq<TokenEvent>,
    events: Seq<TokenEvent>,
)
    requires
        consistent(w, check, before),
        forall|id: AuthidView|
            id.token is Some ==> #[trigger] last_secret(events, id) == last_secret(before, id),
    ensures
        consistent(w, check, events),
{
    assert forall|id: AuthidView, s: Seq<char>|
        id.valid() && id.token is Some implies #[trigger] on_file(w.hashes, check, id, s) == (
    last_secret(events, id) == Some(s)) by {
        assert(last_secret(events, id) == last_secret(before, id));
    }
    if up_to_date(w.cache.secrets, before) {
        assert forall|id: AuthidView|
            id.valid() && id.token is Some && w.cache.secrets.dom().contains(#[trigger] id.text())
            implies last_secret(events, id) == Some(w.cache.secrets[id.text()]) by {
            assert(last_secret(events, id) == last_secret(before, id));
        }
    }
}

/// After any list of changes by any process and of verifications, a secret is accepted
/// exactly if it is that of a token and the last change of this very token set it. What
/// the cache holds, whether it could be used, what happened while a secret was verified,
/// and the changes of other tokens make no difference. Only a secret itself belongs to
/// its hash, and no generation comes twice.
pub proof fn only_the_last_secret_is_accepted(
    generation: usize,
    meta: ShadowMeta,
    check: HashCheck,
    events: Seq<TokenEvent>,
    id: AuthidView,
    secret: Seq<char>,
    now: i64,
    refresh: bool,
)
    requires
        all_happen(no_tokens(generation, meta), check, events),
        world_after(no_tokens(generation, meta), check, events).generation < usize::MAX,
        id.valid(),
    ensures
        after_verify(
            world_after(no_tokens(generation, meta), check, events),
            check,
            id,
            secret,
            now,
            refresh,
        ).1 == (id.token is Some && last_secret(events, id) == Some(secret)),
{
    let start = no_tokens(generation, meta);
    all_events_keep_consistent(start, check, events, generation, meta);
    verify_keeps_consistent(
        world_after(start, check, events),
        check,
        events,
        id,
        secret,
        now,
        refresh,
    );
}

} // verus!
