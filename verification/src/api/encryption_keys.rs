//! Requests on the keys that sync jobs use.

use vstd::prelude::*;
use crate::config::encryption_keys::{CryptKey, KeyEntry, KeyError, KeyList};
use crate::text::{join2, join3, join_with, joined, str_eq, texts};

verus! {

// ---- listing ----

/// Whether a key is listed for someone with the given privileges.
pub open spec fn is_listed(
    key: CryptKey,
    privileges: u64,
    include_archived: bool,
    audit: u64,
) -> bool {
    (include_archived || key.archived_at is None) && privileges & audit != 0
}

/// The keys that are listed, in order. Each key comes with the privileges on it of
/// the one who asks.
pub open spec fn listed(keys: Seq<(CryptKey, u64)>, include_archived: bool, audit: u64) -> Seq<
    CryptKey,
>
    decreases keys.len(),
{
    if keys.len() == 0 {
        seq![]
    } else {
        let before = listed(keys.drop_last(), include_archived, audit);
        let (key, privileges) = keys.last();
        if is_listed(key, privileges, include_archived, audit) {
            before.push(key)
        } else {
            before
        }
    }
}

/// Lists the keys that one may look at; archived ones only if asked for.
pub fn list_keys(keys: Vec<(CryptKey, u64)>, include_archived: bool, audit: u64) -> (r: Vec<
    CryptKey,
>)
    ensures
        r@ == listed(keys@, include_archived, audit),
{
    let mut r: Vec<CryptKey> = Vec::new();
    assert(r@ =~= listed(keys@.take(0), include_archived, audit));
    for entry in it: keys
        invariant
            it.seq() == keys@,
            r@ == listed(keys@.take(it.index() as int), include_archived, audit),
    {
        proof {
            let i = it.index() as int;
            assert(entry == keys@[i]);
            assert(keys@.take(i + 1).drop_last() =~= keys@.take(i));
            assert(keys@.take(i + 1).last() == entry);
        }
        let (key, privileges) = entry;
        if (include_archived || key.archived_at.is_none()) && privileges & audit != 0 {
            r.push(key);
        }
    }
    assert(keys@.take(keys@.len() as int) =~= keys@);
    r
}

// ---- creating ----

/// Why a key that was handed in is not used.
pub enum ProvidedKeyError {
    /// It cannot be read; holds why.
    Unreadable(String),
    /// It is protected by a password.
    Protected,
    /// It cannot be loaded; holds why.
    Unusable(String),
}

impl ProvidedKeyError {
    /// The message.
    pub open spec fn text(self) -> Seq<char> {
        match self {
            ProvidedKeyError::Unreadable(err) => "failed to parse provided key: "@ + err@,
            ProvidedKeyError::Protected => "protected keys not supported"@,
            ProvidedKeyError::Unusable(err) => "failed to load provided key: "@ + err@,
        }
    }

    /// The message.
    pub fn message(&self) -> (r: String)
        ensures
            r@ == self.text(),
    {
        match self {
            ProvidedKeyError::Unreadable(err) => {
                join2("failed to parse provided key: ", err.as_str())
            },
            ProvidedKeyError::Protected => "protected keys not supported".to_owned(),
            ProvidedKeyError::Unusable(err) => join2("failed to load provided key: ", err.as_str()),
        }
    }
}

/// Whether a key that was handed in may be loaded. `parsed` tells whether it is
/// protected by a password, or why it could not be read.
pub fn check_provided_key(parsed: Result<bool, String>) -> (r: Result<(), ProvidedKeyError>)
    ensures
        match parsed {
            Ok(true) => r is Err && r->Err_0 is Protected,
            Ok(false) => r is Ok,
            Err(err) => r is Err && r->Err_0 == ProvidedKeyError::Unreadable(err),
        },
{
    match parsed {
        Ok(true) => Err(ProvidedKeyError::Protected),
        Ok(false) => Ok(()),
        Err(err) => Err(ProvidedKeyError::Unreadable(err)),
    }
}

// ---- keys in use ----

/// The keys of a sync job.
pub struct SyncJobKeys {
    pub id: String,
    /// Key that the job encrypts with.
    pub active_encryption_key: Option<String>,
    /// Keys that the job decrypts with.
    pub associated_key: Option<Vec<String>>,
}

/// Whether a job encrypts with a key.
pub open spec fn encrypts_with(job: SyncJobKeys, id: Seq<char>) -> bool {
    job.active_encryption_key is Some && job.active_encryption_key->0@ == id
}

/// Whether a job decrypts with a key.
pub open spec fn decrypts_with(job: SyncJobKeys, id: Seq<char>) -> bool {
    job.associated_key is Some && texts(job.associated_key->0@).contains(id)
}

/// Whether a job uses a key.
pub open spec fn uses(job: SyncJobKeys, id: Seq<char>, include_associated: bool) -> bool {
    encrypts_with(job, id) || include_associated && decrypts_with(job, id)
}

/// The jobs that use a key, in order.
pub open spec fn users(jobs: Seq<SyncJobKeys>, id: Seq<char>, include_associated: bool) -> Seq<
    Seq<char>,
>
    decreases jobs.len(),
{
    if jobs.len() == 0 {
        seq![]
    } else {
        let before = users(jobs.drop_last(), id, include_associated);
        if uses(jobs.last(), id, include_associated) {
            before.push(jobs.last().id@)
        } else {
            before
        }
    }
}

/// Message that some jobs use a key.
pub open spec fn in_use_text(used_by: Seq<Seq<char>>) -> Seq<char> {
    "encryption key in use by sync job"@ + (if used_by.len() > 1 {
        "s"@
    } else {
        ""@
    }) + ": '"@ + joined(used_by, ", "@) + "'"@
}

fn has_text(list: &Vec<String>, text: &str) -> (r: bool)
    ensures
        r == texts(list@).contains(text@),
{
    let ghost all = texts(list@);
    for i in 0..list.len()
        invariant
            all == texts(list@),
            forall|j: int| 0 <= j < i ==> #[trigger] all[j] != text@,
    {
        if str_eq(list[i].as_str(), text) {
            assert(all[i as int] == text@);
            return true;
        }
    }
    false
}

fn job_uses(job: &SyncJobKeys, id: &str, include_associated: bool) -> (r: bool)
    ensures
        r == uses(*job, id@, include_associated),
{
    if let Some(active) = &job.active_encryption_key {
        if str_eq(active.as_str(), id) {
            return true;
        }
    }
    if include_associated {
        if let Some(associated) = &job.associated_key {
            return has_text(associated, id);
        }
    }
    false
}

/// Checks that no job encrypts with a key and, if `include_associated` is set, that
/// none decrypts with it either. Otherwise gives the message that names the jobs.
pub fn check_encryption_key_in_use(
    jobs: &Vec<SyncJobKeys>,
    id: &str,
    include_associated: bool,
) -> (r: Result<(), String>)
    ensures
        match r {
            Ok(()) => users(jobs@, id@, include_associated).len() == 0,
            Err(message) => users(jobs@, id@, include_associated).len() > 0 && message@
                == in_use_text(users(jobs@, id@, include_associated)),
        },
{
    let mut used_by: Vec<String> = Vec::new();
    assert(texts(used_by@) =~= users(jobs@.take(0), id@, include_associated));
    for i in 0..jobs.len()
        invariant
            texts(used_by@) == users(jobs@.take(i as int), id@, include_associated),
    {
        let ghost before = used_by@;
        assert(jobs@.take(i + 1).drop_last() =~= jobs@.take(i as int));
        assert(jobs@.take(i + 1).last() == jobs@[i as int]);
        if job_uses(&jobs[i], id, include_associated) {
            used_by.push(jobs[i].id.clone());
            assert(texts(used_by@) =~= texts(before).push(jobs@[i as int].id@));
        }
    }
    assert(jobs@.take(jobs@.len() as int) =~= jobs@);
    assert(texts(used_by@).len() == used_by@.len());
    if used_by.len() == 0 {
        return Ok(());
    }
    let plural: &str = if used_by.len() > 1 {
        "s"
    } else {
        ""
    };
    let mut message = join3("encryption key in use by sync job", plural, ": '");
    message.append(join_with(&used_by, ", ").as_str());
    message.append("'");
    Err(message)
}

// ---- archiving ----

/// Why a key is not archived.
pub enum ArchiveError {
    /// There is no such key.
    NotConfigured,
    /// It is archived.
    AlreadyArchived,
    /// Jobs encrypt with it; holds the message that names them.
    InUse(String),
}

impl ArchiveError {
    /// The message for a key.
    pub open spec fn text(self, id: Seq<char>) -> Seq<char> {
        match self {
            ArchiveError::NotConfigured => KeyError::NotConfigured.text(id),
            ArchiveError::AlreadyArchived => "key already marked as archived"@,
            ArchiveError::InUse(message) => message@,
        }
    }

    /// The message for a key.
    pub fn message(&self, id: &str) -> (r: String)
        ensures
            r@ == self.text(id@),
    {
        match self {
            ArchiveError::NotConfigured => KeyError::NotConfigured.message(id),
            ArchiveError::AlreadyArchived => "key already marked as archived".to_owned(),
            ArchiveError::InUse(message) => message.clone(),
        }
    }
}

/// Whether a key is configured and not archived, before it is looked at which jobs
/// use it.
pub fn may_archive(config: &KeyList, id: &str) -> (r: Result<(), ArchiveError>)
    requires
        config.valid(),
    ensures
        match r {
            Ok(()) => config@.dom().contains(id@) && config@[id@].archived_at is None,
            Err(ArchiveError::NotConfigured) => !config@.dom().contains(id@),
            Err(ArchiveError::AlreadyArchived) => config@.dom().contains(id@)
                && config@[id@].archived_at is Some,
            Err(ArchiveError::InUse(_)) => false,
        },
{
    match config.lookup(id) {
        None => Err(ArchiveError::NotConfigured),
        Some(key) => {
            if key.archived_at.is_some() {
                Err(ArchiveError::AlreadyArchived)
            } else {
                Ok(())
            }
        },
    }
}

/// Marks a key as archived, so that nothing is encrypted with it any more. A key
/// that jobs encrypt with stays as it is.
pub fn archive_key(config: &mut KeyList, id: &str, jobs: &Vec<SyncJobKeys>, now: i64) -> (r: Result<
    (),
    ArchiveError,
>)
    requires
        old(config).valid(),
    ensures
        final(config).valid(),
        r is Err ==> final(config)@ == old(config)@,
        match r {
            Ok(()) => {
                &&& old(config)@.dom().contains(id@)
                &&& old(config)@[id@].archived_at is None
                &&& users(jobs@, id@, false).len() == 0
                &&& final(config)@ == old(config)@.insert(
                    id@,
                    (KeyEntry { archived_at: Some(now), ..old(config)@[id@] }),
                )
            },
            Err(ArchiveError::NotConfigured) => !old(config)@.dom().contains(id@),
            Err(ArchiveError::AlreadyArchived) => old(config)@.dom().contains(id@)
                && old(config)@[id@].archived_at is Some,
            Err(ArchiveError::InUse(message)) => {
                &&& old(config)@.dom().contains(id@)
                &&& old(config)@[id@].archived_at is None
                &&& users(jobs@, id@, false).len() > 0
                &&& message@ == in_use_text(users(jobs@, id@, false))
            },
        },
{
    match config.lookup(id) {
        None => Err(ArchiveError::NotConfigured),
        Some(key) => {
            if key.archived_at.is_some() {
                return Err(ArchiveError::AlreadyArchived);
            }
            if let Err(message) = check_encryption_key_in_use(jobs, id, false) {
                return Err(ArchiveError::InUse(message));
            }
            let archived = CryptKey {
                id: key.id,
                path: key.path,
                fingerprint: key.fingerprint,
                archived_at: Some(now),
            };
            config.set(archived);
            Ok(())
        },
    }
}

/// An archived key is not loaded to encrypt with, but still to decrypt with if it
/// was loaded so before.
pub proof fn archived_key_only_decrypts(entry: KeyEntry, now: i64)
    ensures
        ({
            let archived = KeyEntry { archived_at: Some(now), ..entry };
            &&& crate::config::encryption_keys::load_choice(Some(archived), true) == Err::<
                Seq<char>,
                KeyError,
            >(KeyError::Archived)
            &&& crate::config::encryption_keys::load_choice(Some(archived), false)
                == crate::config::encryption_keys::load_choice(Some(entry), false)
        }),
{
}

/// A job counts as a user for archiving only if it also does for deleting.
pub proof fn deleting_asks_for_more(jobs: Seq<SyncJobKeys>, id: Seq<char>)
    requires
        users(jobs, id, true).len() == 0,
    ensures
        users(jobs, id, false).len() == 0,
    decreases jobs.len(),
{
    if jobs.len() > 0 {
        deleting_asks_for_more(jobs.drop_last(), id);
    }
}

/// No job is passed over: a key is free only if no job uses it.
pub proof fn free_key_has_no_user(
    jobs: Seq<SyncJobKeys>,
    id: Seq<char>,
    include_associated: bool,
    i: int,
)
    requires
        users(jobs, id, include_associated).len() == 0,
        0 <= i < jobs.len(),
    ensures
        !uses(jobs[i], id, include_associated),
    decreases jobs.len(),
{
    if i < jobs.len() - 1 {
        free_key_has_no_user(jobs.drop_last(), id, include_associated, i);
    }
}

/// A key is listed exactly if it may be audited and is not archived, or archived ones are
/// asked for.
pub proof fn listed_keys_may_be_seen(
    keys: Seq<(CryptKey, u64)>,
    include_archived: bool,
    audit: u64,
    key: CryptKey,
)
    ensures
        listed(keys, include_archived, audit).contains(key) <==> (include_archived
            || key.archived_at is None) && exists|i: int|
            0 <= i < keys.len() && (#[trigger] keys[i]).0 == key && keys[i].1 & audit != 0,
        listed(keys, include_archived, audit).len() <= keys.len(),
    decreases keys.len(),
{
    if keys.len() > 0 {
        let init = keys.drop_last();
        listed_keys_may_be_seen(init, include_archived, audit, key);
        let before = listed(init, include_archived, audit);
        let after = listed(keys, include_archived, audit);
        assert(keys[keys.len() - 1] == keys.last());
        if after.contains(key) {
            let k = after.index_of(key);
            if k < before.len() {
                assert(before[k] == key);
                assert(before.contains(key));
                let i = choose|i: int|
                    0 <= i < init.len() && (#[trigger] init[i]).0 == key && init[i].1 & audit != 0;
                assert(keys[i] == init[i]);
            }
        }
        if (include_archived || key.archived_at is None) && exists|i: int|
            0 <= i < keys.len() && (#[trigger] keys[i]).0 == key && keys[i].1 & audit != 0 {
            let i = choose|i: int|
                0 <= i < keys.len() && (#[trigger] keys[i]).0 == key && keys[i].1 & audit != 0;
            if i < init.len() {
                assert(init[i] == keys[i]);
                assert(before.contains(key));
                let k = before.index_of(key);
                assert(after[k] == key);
            } else {
                assert(after[after.len() - 1] == key);
            }
        }
    }
}

/// A job uses a key exactly if it encrypts with it, or, where that counts, decrypts with
/// it; every job that does is told.
pub proof fn every_user_is_told(
    jobs: Seq<SyncJobKeys>,
    id: Seq<char>,
    include_associated: bool,
    i: int,
)
    requires
        0 <= i < jobs.len(),
        (jobs[i].active_encryption_key matches Some(key) && key@ == id) || (include_associated
            && (jobs[i].associated_key matches Some(keys) && texts(keys@).contains(id))),
    ensures
        users(jobs, id, include_associated).contains(jobs[i].id@),
    decreases jobs.len(),
{
    let init = jobs.drop_last();
    let before = users(init, id, include_associated);
    let after = users(jobs, id, include_associated);
    if i < init.len() {
        assert(init[i] == jobs[i]);
        every_user_is_told(init, id, include_associated, i);
        let k = before.index_of(jobs[i].id@);
        assert(after[k] == jobs[i].id@);
    } else {
        assert(after[after.len() - 1] == jobs[i].id@);
    }
}

/// A key that no job encrypts with, or, where that counts, decrypts with, is free.
pub proof fn unused_key_is_free(jobs: Seq<SyncJobKeys>, id: Seq<char>, include_associated: bool)
    requires
        forall|i: int|
            0 <= i < jobs.len() ==> !((#[trigger] jobs[i]).active_encryption_key matches Some(key)
                && key@ == id),
        include_associated ==> forall|i: int|
            0 <= i < jobs.len() ==> !((#[trigger] jobs[i]).associated_key matches Some(keys)
                && texts(keys@).contains(id)),
    ensures
        users(jobs, id, include_associated).len() == 0,
    decreases jobs.len(),
{
    if jobs.len() > 0 {
        let init = jobs.drop_last();
        assert(jobs[jobs.len() - 1] == jobs.last());
        assert forall|i: int| 0 <= i < init.len() implies !((
        #[trigger] init[i]).active_encryption_key matches Some(key) && key@ == id) by {
            assert(init[i] == jobs[i]);
        }
        if include_associated {
            assert forall|i: int| 0 <= i < init.len() implies !((
            #[trigger] init[i]).associated_key matches Some(keys) && texts(keys@).contains(id)) by {
                assert(init[i] == jobs[i]);
            }
        }
        unused_key_is_free(init, id, include_associated);
    }
}

} // verus!
