//! Keys that sync jobs encrypt and decrypt snapshots with.
//!
//! The configuration lists the keys; each key itself lies in a file of its own.

use vstd::prelude::*;
use crate::text::{join2, join3, str_eq};
use crate::types::Digest;

verus! {

/// Where the keys are listed.
pub const ENCRYPTION_KEYS_CFG_FILENAME: &'static str = "/etc/proxmox-backup/encryption-keys.cfg";

/// Lock that is held while the list is changed.
pub const ENCRYPTION_KEYS_CFG_LOCKFILE: &'static str = "/etc/proxmox-backup/.encryption-keys.lck";

/// Where the files with the keys are.
pub const ENCRYPTION_KEYS_DIR: &'static str = "/etc/proxmox-backup/encryption-keys/";

/// Type of the entries of the list.
pub const ENCRYPTION_KEYS_CFG_TYPE_ID: &'static str = "sync-key";

/// What the configuration tells of a key.
pub struct CryptKey {
    pub id: String,
    /// File that holds the key.
    pub path: Option<String>,
    pub fingerprint: Option<Digest>,
    /// When the key was archived.
    pub archived_at: Option<i64>,
}

/// What the configuration tells of a key, apart from its name.
#[verifier::ext_equal]
pub struct KeyEntry {
    pub path: Option<Seq<char>>,
    pub fingerprint: Option<Digest>,
    pub archived_at: Option<i64>,
}

impl CryptKey {
    /// The key, without its name.
    pub open spec fn entry(self) -> KeyEntry {
        KeyEntry {
            path: match self.path {
                Some(path) => Some(path@),
                None => None,
            },
            fingerprint: self.fingerprint,
            archived_at: self.archived_at,
        }
    }

    /// A copy.
    pub fn copy(&self) -> (r: CryptKey)
        ensures
            r.id@ == self.id@,
            r.entry() == self.entry(),
    {
        CryptKey {
            id: self.id.clone(),
            path: match &self.path {
                Some(path) => Some(path.clone()),
                None => None,
            },
            fingerprint: self.fingerprint,
            archived_at: self.archived_at,
        }
    }
}

/// The keys that are configured. No name occurs twice.
pub struct KeyList {
    keys: Vec<CryptKey>,
}

/// The entries by name.
pub open spec fn entries(keys: Seq<CryptKey>) -> Map<Seq<char>, KeyEntry>
    decreases keys.len(),
{
    if keys.len() == 0 {
        Map::empty()
    } else {
        entries(keys.drop_last()).insert(keys.last().id@, keys.last().entry())
    }
}

/// Whether all names differ.
pub open spec fn distinct(keys: Seq<CryptKey>) -> bool {
    forall|i: int, j: int| 0 <= i < j < keys.len() ==> (#[trigger] keys[i]).id@ != (#[trigger] keys[
        j]).id@
}

impl View for KeyList {
    type V = Map<Seq<char>, KeyEntry>;

    closed spec fn view(&self) -> Map<Seq<char>, KeyEntry> {
        entries(self.keys@)
    }
}

/// The entries are those of the list.
proof fn entries_hold(keys: Seq<CryptKey>)
    requires
        distinct(keys),
    ensures
        forall|i: int|
            0 <= i < keys.len() ==> entries(keys).dom().contains((#[trigger] keys[i]).id@)
                && entries(keys)[keys[i].id@] == keys[i].entry(),
        forall|id: Seq<char>| #[trigger]
            entries(keys).dom().contains(id) ==> exists|i: int|
                0 <= i < keys.len() && (#[trigger] keys[i]).id@ == id,
    decreases keys.len(),
{
    if keys.len() > 0 {
        let init = keys.drop_last();
        assert forall|i: int, j: int| 0 <= i < j < init.len() implies (#[trigger] init[i]).id@ != (
        #[trigger] init[j]).id@ by {
            assert(init[i] == keys[i] && init[j] == keys[j]);
        }
        entries_hold(init);
        assert forall|i: int| 0 <= i < keys.len() implies entries(keys).dom().contains(
            (#[trigger] keys[i]).id@,
        ) && entries(keys)[keys[i].id@] == keys[i].entry() by {
            if i < init.len() {
                assert(init[i] == keys[i]);
                assert(keys[i].id@ != keys[keys.len() - 1].id@);
            }
        }
        assert forall|id: Seq<char>| #[trigger] entries(keys).dom().contains(id) implies exists|
            i: int,
        |
            0 <= i < keys.len() && (#[trigger] keys[i]).id@ == id by {
            if id == keys.last().id@ {
                assert(keys[keys.len() - 1].id@ == id);
            } else {
                let i = choose|i: int| 0 <= i < init.len() && (#[trigger] init[i]).id@ == id;
                assert(keys[i].id@ == id);
            }
        }
    }
}

/// Taking one out of a list takes its entry out.
proof fn entries_without(keys: Seq<CryptKey>, at: int)
    requires
        distinct(keys),
        0 <= at < keys.len(),
    ensures
        distinct(keys.remove(at)),
        entries(keys.remove(at)) == entries(keys).remove(keys[at].id@),
{
    let rest = keys.remove(at);
    assert forall|i: int, j: int| 0 <= i < j < rest.len() implies (#[trigger] rest[i]).id@ != (
    #[trigger] rest[j]).id@ by {
        let a = if i < at { i } else { i + 1 };
        let b = if j < at { j } else { j + 1 };
        assert(keys[a].id@ != keys[b].id@);
    }
    entries_hold(keys);
    entries_hold(rest);
    let all = entries(keys).remove(keys[at].id@);
    assert forall|id: Seq<char>| entries(rest).dom().contains(id) implies all.dom().contains(id)
        && all[id] == entries(rest)[id] by {
        let i = choose|i: int| 0 <= i < rest.len() && (#[trigger] rest[i]).id@ == id;
        let a = if i < at { i } else { i + 1 };
        assert(keys[a] == rest[i]);
        if a < at {
            assert(keys[a].id@ != keys[at].id@);
        } else {
            assert(keys[at].id@ != keys[a].id@);
        }
    }
    assert forall|id: Seq<char>| all.dom().contains(id) implies entries(rest).dom().contains(id) by {
        let i = choose|i: int| 0 <= i < keys.len() && (#[trigger] keys[i]).id@ == id;
        assert(i != at);
        let a = if i < at { i } else { i - 1 };
        assert(rest[a] == keys[i]);
    }
    assert(entries(rest) =~= all);
}

impl KeyList {
    /// No name occurs twice.
    pub closed spec fn valid(&self) -> bool {
        distinct(self.keys@)
    }

    /// No keys.
    pub fn new() -> (r: KeyList)
        ensures
            r.valid(),
            r@ == Map::<Seq<char>, KeyEntry>::empty(),
    {
        KeyList { keys: Vec::new() }
    }

    /// Place of a key in the list.
    fn position(&self, id: &str) -> (r: Option<usize>)
        requires
            self.valid(),
        ensures
            match r {
                Some(i) => i < self.keys@.len() && self.keys@[i as int].id@ == id@
                    && self@.dom().contains(id@) && self@[id@] == self.keys@[i as int].entry(),
                None => !self@.dom().contains(id@),
            },
    {
        proof {
            entries_hold(self.keys@);
        }
        for i in 0..self.keys.len()
            invariant
                self.valid(),
                forall|j: int| 0 <= j < i ==> (#[trigger] self.keys@[j]).id@ != id@,
                forall|j: int|
                    0 <= j < self.keys@.len() ==> self@.dom().contains(
                        (#[trigger] self.keys@[j]).id@,
                    ) && self@[self.keys@[j].id@] == self.keys@[j].entry(),
        {
            if str_eq(self.keys[i].id.as_str(), id) {
                return Some(i);
            }
        }
        None
    }

    /// Whether a key is configured.
    pub fn contains(&self, id: &str) -> (r: bool)
        requires
            self.valid(),
        ensures
            r == self@.dom().contains(id@),
    {
        self.position(id).is_some()
    }

    /// The configured key.
    pub fn lookup(&self, id: &str) -> (r: Option<CryptKey>)
        requires
            self.valid(),
        ensures
            match r {
                Some(key) => self@.dom().contains(id@) && key.id@ == id@ && key.entry()
                    == self@[id@],
                None => !self@.dom().contains(id@),
            },
    {
        match self.position(id) {
            Some(i) => Some(self.keys[i].copy()),
            None => None,
        }
    }

    /// Adds a key, or puts it in the place of the one of the same name.
    pub fn set(&mut self, key: CryptKey)
        requires
            old(self).valid(),
        ensures
            final(self).valid(),
            final(self)@ == old(self)@.insert(key.id@, key.entry()),
    {
        let _ = self.remove(key.id.as_str());
        proof {
            entries_hold(self.keys@);
            assert(forall|i: int| 0 <= i < self.keys@.len() ==> (#[trigger] self.keys@[i]).id@
                != key.id@);
            assert(self.keys@.push(key).drop_last() =~= self.keys@);
            assert(old(self)@.remove(key.id@).insert(key.id@, key.entry()) =~= old(self)@.insert(
                key.id@,
                key.entry(),
            ));
        }
        self.keys.push(key);
    }

    /// Takes a key out of the list.
    pub fn remove(&mut self, id: &str) -> (r: Option<CryptKey>)
        requires
            old(self).valid(),
        ensures
            final(self).valid(),
            final(self)@ == old(self)@.remove(id@),
            match r {
                Some(key) => old(self)@.dom().contains(id@) && key.id@ == id@ && key.entry()
                    == old(self)@[id@],
                None => !old(self)@.dom().contains(id@),
            },
    {
        match self.position(id) {
            Some(i) => {
                proof {
                    entries_without(self.keys@, i as int);
                }
                Some(self.keys.remove(i))
            },
            None => {
                assert(self@.remove(id@) =~= self@);
                None
            },
        }
    }

    /// The names of the keys, each once.
    pub fn ids(&self) -> (r: Vec<String>)
        requires
            self.valid(),
        ensures
            forall|i: int| 0 <= i < r@.len() ==> self@.dom().contains((#[trigger] r@[i])@),
            forall|id: Seq<char>| #[trigger]
                self@.dom().contains(id) ==> exists|i: int|
                    0 <= i < r@.len() && (#[trigger] r@[i])@ == id,
            forall|i: int, j: int| 0 <= i < j < r@.len() ==> (#[trigger] r@[i])@ != (#[trigger] r@[
                j])@,
    {
        let mut r: Vec<String> = Vec::new();
        for i in 0..self.keys.len()
            invariant
                r@.len() == i,
                forall|j: int| 0 <= j < i ==> (#[trigger] r@[j])@ == self.keys@[j].id@,
        {
            r.push(self.keys[i].id.clone());
        }
        proof {
            entries_hold(self.keys@);
            assert forall|id: Seq<char>| #[trigger] self@.dom().contains(id) implies exists|i: int|
                0 <= i < r@.len() && (#[trigger] r@[i])@ == id by {
                let i = choose|i: int|
                    0 <= i < self.keys@.len() && (#[trigger] self.keys@[i]).id@ == id;
                assert(r@[i]@ == id);
            }
        }
        r
    }
}

/// The names of the keys for completion on the command line. There are none if the
/// configuration cannot be read.
pub fn complete_encryption_key_id(config: Option<&KeyList>) -> (r: Vec<String>)
    requires
        config is Some ==> config->0.valid(),
    ensures
        config is None ==> r@.len() == 0,
        forall|i: int| 0 <= i < r@.len() ==> config->0@.dom().contains((#[trigger] r@[i])@),
        config is Some ==> forall|id: Seq<char>| #[trigger]
            config->0@.dom().contains(id) ==> exists|i: int|
                0 <= i < r@.len() && (#[trigger] r@[i])@ == id,
        forall|i: int, j: int| 0 <= i < j < r@.len() ==> (#[trigger] r@[i])@ != (#[trigger] r@[j])@,
{
    match config {
        Some(list) => list.ids(),
        None => Vec::new(),
    }
}

/// Why a key is not loaded, stored or deleted.
#[derive(Clone, Copy, Debug, PartialEq, Eq, Structural)]
pub enum KeyError {
    /// There is no such key.
    NotConfigured,
    /// The key is archived.
    Archived,
    /// It is not known which file holds the key.
    MissingPath,
    /// The file holds another key.
    Mismatch,
    /// There is a key of that name.
    Exists,
    /// There is a file where the key would be stored.
    FileExists,
    /// A key that is to be deleted is not archived.
    StillActive,
    /// The file of a key that is to be deleted holds another key.
    UnexpectedKey,
    /// It is not known which file holds the key that is to be deleted.
    MissingFile,
}

impl KeyError {
    /// The message for a key.
    pub open spec fn text(self, id: Seq<char>) -> Seq<char> {
        match self {
            KeyError::NotConfigured => "no such sync-key '"@ + id + "'"@,
            KeyError::Archived => "cannot load archived encryption key "@ + id,
            KeyError::MissingPath => "missing path for encryption key "@ + id,
            KeyError::Mismatch => "loaded key does not match the config for key "@ + id,
            KeyError::Exists => "key with id '"@ + id + "' already exists."@,
            KeyError::FileExists => "detected pre-existing key file, refusing to overwrite."@,
            KeyError::StillActive =>
                "key still active, deleting is only possible for archived keys"@,
            KeyError::UnexpectedKey => "unexpected key detected in key file, refuse to delete"@,
            KeyError::MissingFile => "missing key file path for key '"@ + id + "'"@,
        }
    }

    /// The message for a key.
    pub fn message(&self, id: &str) -> (r: String)
        ensures
            r@ == self.text(id@),
    {
        match self {
            KeyError::NotConfigured => join3("no such sync-key '", id, "'"),
            KeyError::Archived => join2("cannot load archived encryption key ", id),
            KeyError::MissingPath => join2("missing path for encryption key ", id),
            KeyError::Mismatch => join2("loaded key does not match the config for key ", id),
            KeyError::Exists => join3("key with id '", id, "' already exists."),
            KeyError::FileExists => {
                "detected pre-existing key file, refusing to overwrite.".to_owned()
            },
            KeyError::StillActive => {
                "key still active, deleting is only possible for archived keys".to_owned()
            },
            KeyError::UnexpectedKey => {
                "unexpected key detected in key file, refuse to delete".to_owned()
            },
            KeyError::MissingFile => join3("missing key file path for key '", id, "'"),
        }
    }
}

// ---- loading ----

/// The file to load a key from, or why it is not loaded.
pub open spec fn load_choice(entry: Option<KeyEntry>, fail_on_archived: bool) -> Result<
    Seq<char>,
    KeyError,
> {
    match entry {
        None => Err(KeyError::NotConfigured),
        Some(entry) => if fail_on_archived && entry.archived_at is Some {
            Err(KeyError::Archived)
        } else {
            match entry.path {
                Some(path) => Ok(path),
                None => Err(KeyError::MissingPath),
            }
        },
    }
}

/// The entry of a key, if it is configured.
pub open spec fn entry_of(config: Map<Seq<char>, KeyEntry>, id: Seq<char>) -> Option<KeyEntry> {
    if config.dom().contains(id) {
        Some(config[id])
    } else {
        None
    }
}

fn same_fingerprint(a: Option<Digest>, b: Option<Digest>) -> (r: bool)
    ensures
        r == (a == b),
{
    match (a, b) {
        (Some(x), Some(y)) => x == y,
        (None, None) => true,
        _ => false,
    }
}

/// The file to load a key from and the fingerprint that the key there has to have.
pub fn load_key_config(config: &KeyList, id: &str, fail_on_archived: bool) -> (r: Result<
    (String, Option<Digest>),
    KeyError,
>)
    requires
        config.valid(),
    ensures
        match r {
            Ok((path, fingerprint)) => load_choice(entry_of(config@, id@), fail_on_archived)
                == Ok::<Seq<char>, KeyError>(path@) && fingerprint == config@[id@].fingerprint,
            Err(err) => load_choice(entry_of(config@, id@), fail_on_archived) == Err::<
                Seq<char>,
                KeyError,
            >(err),
        },
{
    match config.lookup(id) {
        None => Err(KeyError::NotConfigured),
        Some(key) => {
            if fail_on_archived && key.archived_at.is_some() {
                return Err(KeyError::Archived);
            }
            match key.path {
                Some(path) => Ok((path, key.fingerprint)),
                None => Err(KeyError::MissingPath),
            }
        },
    }
}

/// Whether the key in the file is the one that is configured.
pub fn check_loaded_key(configured: Option<Digest>, stored: Option<Digest>) -> (r: Result<
    (),
    KeyError,
>)
    ensures
        r == (if configured == stored {
            Ok::<(), KeyError>(())
        } else {
            Err(KeyError::Mismatch)
        }),
{
    if same_fingerprint(configured, stored) {
        Ok(())
    } else {
        Err(KeyError::Mismatch)
    }
}

// ---- storing ----

/// File that a new key is stored in.
pub open spec fn new_key_path(id: Seq<char>) -> Seq<char> {
    ENCRYPTION_KEYS_DIR@ + id + ".enc"@
}

/// File that a new key is stored in.
pub fn key_path(id: &str) -> (r: String)
    ensures
        r@ == new_key_path(id@),
{
    join3(ENCRYPTION_KEYS_DIR, id, ".enc")
}

/// Lock that is held while the file of a key is created or removed.
pub fn key_lock_path(key_path: &str) -> (r: String)
    ensures
        r@ == key_path@ + ".lck"@,
{
    join2(key_path, ".lck")
}

/// The entry of a new key.
pub open spec fn new_entry(id: Seq<char>, fingerprint: Option<Digest>) -> KeyEntry {
    KeyEntry { path: Some(new_key_path(id)), fingerprint, archived_at: None }
}

/// The configuration with a new key, for when the key has been written to its file.
pub fn add_key(config: &mut KeyList, id: &str, fingerprint: Option<Digest>)
    requires
        old(config).valid(),
    ensures
        final(config).valid(),
        final(config)@ == old(config)@.insert(id@, new_entry(id@, fingerprint)),
{
    let key = CryptKey {
        id: id.to_owned(),
        path: Some(key_path(id)),
        fingerprint,
        archived_at: None,
    };
    config.set(key);
}

/// How far a key has been stored.
#[derive(Clone, Copy, Debug, PartialEq, Eq, Structural)]
pub enum StoreState {
    Start,
    CreatingDir,
    LockingFile,
    LookingAtFile,
    WritingKey,
    SavingConfig,
    RemovingFile,
    Complete,
    Failed,
}

/// What the environment reports of the last action.
#[derive(Clone, Copy, Debug, PartialEq, Eq, Structural)]
pub enum StoreEvent {
    /// Whether a key of that name is configured.
    Configured(bool),
    /// Length of the file, if there is one.
    File(Option<u64>),
    /// The action was done.
    Finished,
    /// The action failed.
    Failed,
}

/// What the environment has to do next.
#[derive(Clone, Copy, Debug, PartialEq, Eq, Structural)]
pub enum StoreAction {
    /// See that the directory is there.
    CreateDir,
    /// Lock the file of the key.
    LockFile,
    /// See whether there is a file.
    LookAtFile,
    /// Write the key to its file.
    WriteKey,
    /// Save the configuration with the new key.
    SaveConfig,
    /// Remove the file of the key; it does no harm if that fails.
    RemoveFile,
    /// Done.
    Complete,
    /// Refuse for the given reason.
    Refuse(KeyError),
    /// Give up with the error of the step that failed.
    Abort,
}

/// The next state and action.
pub open spec fn store_next(state: StoreState, event: StoreEvent) -> (StoreState, StoreAction) {
    match (state, event) {
        (StoreState::Start, StoreEvent::Configured(exists)) => if exists {
            (StoreState::Failed, StoreAction::Refuse(KeyError::Exists))
        } else {
            (StoreState::CreatingDir, StoreAction::CreateDir)
        },
        (StoreState::CreatingDir, StoreEvent::Finished) => (
            StoreState::LockingFile,
            StoreAction::LockFile,
        ),
        (StoreState::LockingFile, StoreEvent::Finished) => (
            StoreState::LookingAtFile,
            StoreAction::LookAtFile,
        ),
        (StoreState::LookingAtFile, StoreEvent::File(len)) => match len {
            Some(len) if len > 0 => (
                StoreState::Failed,
                StoreAction::Refuse(KeyError::FileExists),
            ),
            _ => (StoreState::WritingKey, StoreAction::WriteKey),
        },
        (StoreState::WritingKey, StoreEvent::Finished) => (
            StoreState::SavingConfig,
            StoreAction::SaveConfig,
        ),
        (StoreState::SavingConfig, StoreEvent::Finished) => (
            StoreState::Complete,
            StoreAction::Complete,
        ),
        (StoreState::SavingConfig, StoreEvent::Failed) => (
            StoreState::RemovingFile,
            StoreAction::RemoveFile,
        ),
        _ => (StoreState::Failed, StoreAction::Abort),
    }
}

/// Moves the storing of a key on and says what to do next.
pub fn store_key(state: StoreState, event: StoreEvent) -> (r: (StoreState, StoreAction))
    ensures
        r == store_next(state, event),
{
    match (state, event) {
        (StoreState::Start, StoreEvent::Configured(exists)) => {
            if exists {
                (StoreState::Failed, StoreAction::Refuse(KeyError::Exists))
            } else {
                (StoreState::CreatingDir, StoreAction::CreateDir)
            }
        },
        (StoreState::CreatingDir, StoreEvent::Finished) => (
            StoreState::LockingFile,
            StoreAction::LockFile,
        ),
        (StoreState::LockingFile, StoreEvent::Finished) => (
            StoreState::LookingAtFile,
            StoreAction::LookAtFile,
        ),
        (StoreState::LookingAtFile, StoreEvent::File(len)) => match len {
            Some(len) if len > 0 => (
                StoreState::Failed,
                StoreAction::Refuse(KeyError::FileExists),
            ),
            _ => (StoreState::WritingKey, StoreAction::WriteKey),
        },
        (StoreState::WritingKey, StoreEvent::Finished) => (
            StoreState::SavingConfig,
            StoreAction::SaveConfig,
        ),
        (StoreState::SavingConfig, StoreEvent::Finished) => (
            StoreState::Complete,
            StoreAction::Complete,
        ),
        (StoreState::SavingConfig, StoreEvent::Failed) => (
            StoreState::RemovingFile,
            StoreAction::RemoveFile,
        ),
        _ => (StoreState::Failed, StoreAction::Abort),
    }
}

/// The state after a list of events, from the start.
pub open spec fn store_run(events: Seq<StoreEvent>) -> StoreState
    decreases events.len(),
{
    if events.len() == 0 {
        StoreState::Start
    } else {
        store_next(store_run(events.drop_last()), events.last()).0
    }
}

/// States in which the file of the key has been written to.
pub open spec fn file_written(state: StoreState) -> bool {
    match state {
        StoreState::WritingKey
        | StoreState::SavingConfig
        | StoreState::RemovingFile
        | StoreState::Complete => true,
        _ => false,
    }
}

/// A file is written to only if no key of that name is configured and there was no
/// file, or an empty one.
pub proof fn key_files_are_not_overwritten(events: Seq<StoreEvent>)
    requires
        file_written(store_run(events)),
    ensures
        events.len() > 0 && events[0] == StoreEvent::Configured(false),
        events.contains(StoreEvent::File(None)) || events.contains(StoreEvent::File(Some(0))),
    decreases events.len(),
{
    reveal_with_fuel(store_run, 5);
    let init = events.drop_last();
    if file_written(store_run(init)) {
        key_files_are_not_overwritten(init);
        assert(events[0] == init[0]);
        if init.contains(StoreEvent::File(None)) {
            let i = init.index_of(StoreEvent::File(None));
            assert(events[i] == init[i]);
        } else {
            let i = init.index_of(StoreEvent::File(Some(0)));
            assert(events[i] == init[i]);
        }
    } else {
        assert(events[events.len() - 1] == events.last());
        let b = init.drop_last();
        let c = b.drop_last();
        let d = c.drop_last();
        assert(store_run(init) == StoreState::LookingAtFile);
        assert(store_run(b) == StoreState::LockingFile);
        assert(store_run(c) == StoreState::CreatingDir);
        assert(store_run(d) == StoreState::Start);
        store_starts_once(d);
        assert(events[0] == c.last());
    }
}

/// No event leads back to the start.
proof fn store_starts_once(events: Seq<StoreEvent>)
    requires
        store_run(events) == StoreState::Start,
    ensures
        events.len() == 0,
{
    reveal_with_fuel(store_run, 2);
}

/// If the configuration cannot be saved, the file of the key is removed again and
/// the key is not stored.
pub proof fn unsaved_key_is_removed(event: StoreEvent)
    ensures
        store_next(StoreState::SavingConfig, StoreEvent::Failed) == (
            StoreState::RemovingFile,
            StoreAction::RemoveFile,
        ),
        store_next(StoreState::RemovingFile, event) == (StoreState::Failed, StoreAction::Abort),
{
}

/// A stored key can be loaded again from where it was stored, and the key found
/// there has to be the one that was stored. Other keys stay as they were.
pub proof fn stored_key_is_found(
    config: Map<Seq<char>, KeyEntry>,
    id: Seq<char>,
    fingerprint: Option<Digest>,
    fail_on_archived: bool,
)
    ensures
        ({
            let stored = config.insert(id, new_entry(id, fingerprint));
            &&& load_choice(entry_of(stored, id), fail_on_archived) == Ok::<Seq<char>, KeyError>(
                new_key_path(id),
            )
            &&& stored[id].fingerprint == fingerprint
            &&& forall|other: Seq<char>|
                other != id ==> #[trigger] entry_of(stored, other) == entry_of(config, other)
        }),
{
}

/// Keys of different names are stored in different files.
pub proof fn key_files_are_distinct(a: Seq<char>, b: Seq<char>)
    requires
        new_key_path(a) == new_key_path(b),
    ensures
        a == b,
{
    let p = new_key_path(a);
    let q = new_key_path(b);
    let n = ENCRYPTION_KEYS_DIR@.len() as int;
    assert(p.len() == n + a.len() + ".enc"@.len());
    assert(q.len() == n + b.len() + ".enc"@.len());
    assert(a =~= p.subrange(n, n + a.len()));
    assert(b =~= q.subrange(n, n + b.len()));
}

// ---- deleting ----

/// What is known of a key that is to be deleted.
#[derive(Clone, Copy, Debug, PartialEq, Eq, Structural)]
pub struct KeyToDelete {
    pub fingerprint: Option<Digest>,
}

/// The file of a key that may be deleted, `None` if there is no such key, or why it
/// may not be deleted.
pub open spec fn delete_choice(entry: Option<KeyEntry>) -> Result<Option<Seq<char>>, KeyError> {
    match entry {
        None => Ok(None),
        Some(entry) => if entry.archived_at is None {
            Err(KeyError::StillActive)
        } else {
            match entry.path {
                Some(path) => Ok(Some(path)),
                None => Err(KeyError::MissingFile),
            }
        },
    }
}

/// Takes a key out of the configuration, unless it may not be deleted. Gives its
/// file and the fingerprint that the key there has to have.
pub fn delete_key(config: &mut KeyList, id: &str) -> (r: Result<
    Option<(String, KeyToDelete)>,
    KeyError,
>)
    requires
        old(config).valid(),
    ensures
        final(config).valid(),
        final(config)@ == (if r is Ok {
            old(config)@.remove(id@)
        } else {
            old(config)@
        }),
        match r {
            Ok(Some((path, key))) => delete_choice(entry_of(old(config)@, id@)) == Ok::<
                Option<Seq<char>>,
                KeyError,
            >(Some(path@)) && key.fingerprint == old(config)@[id@].fingerprint,
            Ok(None) => delete_choice(entry_of(old(config)@, id@)) == Ok::<
                Option<Seq<char>>,
                KeyError,
            >(None),
            Err(err) => delete_choice(entry_of(old(config)@, id@)) == Err::<
                Option<Seq<char>>,
                KeyError,
            >(err),
        },
{
    match config.lookup(id) {
        None => {
            assert(config@.remove(id@) =~= config@);
            Ok(None)
        },
        Some(key) => {
            if key.archived_at.is_none() {
                return Err(KeyError::StillActive);
            }
            match key.path {
                Some(path) => {
                    let _ = config.remove(id);
                    Ok(Some((path, KeyToDelete { fingerprint: key.fingerprint })))
                },
                None => Err(KeyError::MissingFile),
            }
        },
    }
}

/// How far a key has been deleted.
#[derive(Clone, Copy, Debug, PartialEq, Eq, Structural)]
pub enum DeleteState {
    Start,
    LockingFile,
    LoadingKey,
    WritingConfig,
    RemovingFile,
    Complete,
    Failed,
}

/// What the environment reports of the last action.
#[derive(Clone, Copy, Debug, PartialEq, Eq, Structural)]
pub enum DeleteEvent {
    /// The fingerprint of the key in the file.
    Loaded(Option<Digest>),
    /// The action was done.
    Finished,
    /// The action failed.
    Failed,
}

/// What the environment has to do next.
#[derive(Clone, Copy, Debug, PartialEq, Eq, Structural)]
pub enum DeleteAction {
    /// Lock the file of the key.
    LockFile,
    /// Load the key from its file.
    LoadKey,
    /// Write the configuration without the key.
    WriteConfig,
    /// Remove the file of the key.
    RemoveFile,
    /// Done.
    Complete,
    /// Refuse for the given reason.
    Refuse(KeyError),
    /// Give up with the error of the step that failed.
    Abort,
}

/// The next state and action.
pub open spec fn delete_next(key: KeyToDelete, state: DeleteState, event: DeleteEvent) -> (
    DeleteState,
    DeleteAction,
) {
    match (state, event) {
        (DeleteState::Start, DeleteEvent::Finished) => (
            DeleteState::LockingFile,
            DeleteAction::LockFile,
        ),
        (DeleteState::LockingFile, DeleteEvent::Finished) => (
            DeleteState::LoadingKey,
            DeleteAction::LoadKey,
        ),
        (DeleteState::LoadingKey, DeleteEvent::Loaded(stored)) => if stored == key.fingerprint {
            (DeleteState::WritingConfig, DeleteAction::WriteConfig)
        } else {
            (DeleteState::Failed, DeleteAction::Refuse(KeyError::UnexpectedKey))
        },
        (DeleteState::WritingConfig, DeleteEvent::Finished) => (
            DeleteState::RemovingFile,
            DeleteAction::RemoveFile,
        ),
        (DeleteState::RemovingFile, DeleteEvent::Finished) => (
            DeleteState::Complete,
            DeleteAction::Complete,
        ),
        _ => (DeleteState::Failed, DeleteAction::Abort),
    }
}

impl KeyToDelete {
    /// Moves the deletion of a key on and says what to do next.
    pub fn step(&self, state: DeleteState, event: DeleteEvent) -> (r: (DeleteState, DeleteAction))
        ensures
            r == delete_next(*self, state, event),
    {
        match (state, event) {
            (DeleteState::Start, DeleteEvent::Finished) => (
                DeleteState::LockingFile,
                DeleteAction::LockFile,
            ),
            (DeleteState::LockingFile, DeleteEvent::Finished) => (
                DeleteState::LoadingKey,
                DeleteAction::LoadKey,
            ),
            (DeleteState::LoadingKey, DeleteEvent::Loaded(stored)) => {
                if same_fingerprint(stored, self.fingerprint) {
                    (DeleteState::WritingConfig, DeleteAction::WriteConfig)
                } else {
                    (DeleteState::Failed, DeleteAction::Refuse(KeyError::UnexpectedKey))
                }
            },
            (DeleteState::WritingConfig, DeleteEvent::Finished) => (
                DeleteState::RemovingFile,
                DeleteAction::RemoveFile,
            ),
            (DeleteState::RemovingFile, DeleteEvent::Finished) => (
                DeleteState::Complete,
                DeleteAction::Complete,
            ),
            _ => (DeleteState::Failed, DeleteAction::Abort),
        }
    }
}

/// The state after a list of events, from the start.
pub open spec fn delete_run(key: KeyToDelete, events: Seq<DeleteEvent>) -> DeleteState
    decreases events.len(),
{
    if events.len() == 0 {
        DeleteState::Start
    } else {
        delete_next(key, delete_run(key, events.drop_last()), events.last()).0
    }
}

/// The file of a key is removed only if it held the configured key, and only after
/// the configuration without the key was written.
pub proof fn only_the_configured_key_is_removed(key: KeyToDelete, events: Seq<DeleteEvent>)
    requires
        delete_run(key, events) == DeleteState::RemovingFile,
    ensures
        events.contains(DeleteEvent::Loaded(key.fingerprint)),
        events.last() == DeleteEvent::Finished,
        delete_run(key, events.drop_last()) == DeleteState::WritingConfig,
{
    reveal_with_fuel(delete_run, 3);
    let init = events.drop_last();
    assert(delete_run(key, init) == DeleteState::WritingConfig);
    assert(init.last() == DeleteEvent::Loaded(key.fingerprint));
    assert(events[events.len() - 2] == init.last());
}

/// A key that is not archived is not deleted.
pub proof fn active_key_is_not_deleted(entry: KeyEntry)
    requires
        entry.archived_at is None,
    ensures
        delete_choice(Some(entry)) == Err::<Option<Seq<char>>, KeyError>(KeyError::StillActive),
{
}

/// A key is stored only under a name that is free and in a file that is not there or empty:
/// the directory is made, the file locked and looked at, the key written and the
/// configuration saved. Each refusal has its own reason, and whatever fails ends it, after
/// the file was removed where the configuration could not be saved.
pub proof fn key_is_stored_in_order(len: u64)
    ensures
        ({
            let done = StoreEvent::Finished;
            let failed = StoreEvent::Failed;
            let (making, first) = store_next(StoreState::Start, StoreEvent::Configured(false));
            let (locking, second) = store_next(making, done);
            let (looking, third) = store_next(locking, done);
            let (writing, fourth) = store_next(looking, StoreEvent::File(None));
            let (saving, fifth) = store_next(writing, done);
            &&& store_next(StoreState::Start, StoreEvent::Configured(true)).1
                == StoreAction::Refuse(KeyError::Exists)
            &&& first == StoreAction::CreateDir
            &&& second == StoreAction::LockFile
            &&& third == StoreAction::LookAtFile
            &&& fourth == StoreAction::WriteKey
            &&& store_next(looking, StoreEvent::File(Some(len))).1 == (if len == 0 {
                StoreAction::WriteKey
            } else {
                StoreAction::Refuse(KeyError::FileExists)
            })
            &&& fifth == StoreAction::SaveConfig
            &&& store_next(saving, done).1 == StoreAction::Complete
            &&& store_next(saving, failed).1 == StoreAction::RemoveFile
            &&& store_next(making, failed).1 == StoreAction::Abort
            &&& store_next(locking, failed).1 == StoreAction::Abort
            &&& store_next(looking, failed).1 == StoreAction::Abort
            &&& store_next(writing, failed).1 == StoreAction::Abort
        }),
{
}

/// A key is loaded from the file that is configured for it, unless there is none, or it is
/// archived and that matters.
pub proof fn configured_key_is_loaded(entry: KeyEntry, fail_on_archived: bool)
    ensures
        load_choice(None, fail_on_archived) == Err::<Seq<char>, KeyError>(KeyError::NotConfigured),
        fail_on_archived && entry.archived_at is Some ==> load_choice(Some(entry), fail_on_archived)
            == Err::<Seq<char>, KeyError>(KeyError::Archived),
        (!fail_on_archived || entry.archived_at is None) && entry.path is Some ==> load_choice(
            Some(entry),
            fail_on_archived,
        ) == Ok::<Seq<char>, KeyError>(entry.path->0),
        (!fail_on_archived || entry.archived_at is None) && entry.path is None ==> load_choice(
            Some(entry),
            fail_on_archived,
        ) == Err::<Seq<char>, KeyError>(KeyError::MissingPath),
{
}

/// An archived key is deleted along with its file, if that is known; there being no such
/// key is no error.
pub proof fn archived_key_can_be_deleted(entry: KeyEntry)
    requires
        entry.archived_at is Some,
    ensures
        entry.path is Some ==> delete_choice(Some(entry)) == Ok::<Option<Seq<char>>, KeyError>(
            entry.path,
        ),
        entry.path is None ==> delete_choice(Some(entry)) == Err::<Option<Seq<char>>, KeyError>(
            KeyError::MissingFile,
        ),
        delete_choice(None) == Ok::<Option<Seq<char>>, KeyError>(None),
{
}

/// A key is deleted after its file was locked and found to hold it: first the configuration
/// is written without it, then the file removed. A file with another key is refused, and
/// whatever fails ends it.
pub proof fn key_is_deleted_in_order(key: KeyToDelete, stored: Option<Digest>)
    ensures
        ({
            let done = DeleteEvent::Finished;
            let failed = DeleteEvent::Failed;
            let (locking, first) = delete_next(key, DeleteState::Start, done);
            let (loading, second) = delete_next(key, locking, done);
            let (writing, third) = delete_next(key, loading, DeleteEvent::Loaded(key.fingerprint));
            let (removing, fourth) = delete_next(key, writing, done);
            &&& first == DeleteAction::LockFile
            &&& second == DeleteAction::LoadKey
            &&& third == DeleteAction::WriteConfig
            &&& stored != key.fingerprint ==> delete_next(
                key,
                loading,
                DeleteEvent::Loaded(stored),
            ).1 == DeleteAction::Refuse(KeyError::UnexpectedKey)
            &&& fourth == DeleteAction::RemoveFile
            &&& delete_next(key, removing, done).1 == DeleteAction::Complete
            &&& delete_next(key, locking, failed).1 == DeleteAction::Abort
            &&& delete_next(key, loading, failed).1 == DeleteAction::Abort
            &&& delete_next(key, writing, failed).1 == DeleteAction::Abort
            &&& delete_next(key, removing, failed).1 == DeleteAction::Abort
        }),
{
}

} // verus!
