//! Whether a snapshot is decrypted while it is pulled.

use vstd::prelude::*;
use crate::text::{join2, join3};
use crate::types::{CryptMode, Digest, Level};

verus! {

/// A fingerprint read from a manifest.
#[derive(Clone, Copy, Debug, PartialEq, Eq, Structural)]
pub enum ReadFingerprint {
    /// The manifest holds something else in its place.
    Unreadable,
    /// The manifest holds none.
    Missing,
    /// The manifest holds this one.
    Present(Digest),
}

/// What is read from a manifest to decide on decryption.
pub struct ManifestKeys {
    /// Fingerprint of the key that the files are encrypted or signed with.
    pub fingerprint: ReadFingerprint,
    /// How the chunks of each file are protected.
    pub crypt_modes: Vec<CryptMode>,
}

/// A key that snapshots may be decrypted with.
pub struct DecryptionKey {
    pub id: String,
    pub fingerprint: Digest,
}

/// Why a snapshot is not pulled.
#[derive(Clone, Copy, Debug, PartialEq, Eq, Structural)]
pub enum DecryptionError {
    /// The fingerprint of the source manifest cannot be read.
    SourceFingerprint,
    /// The fingerprint of the local manifest cannot be read.
    TargetFingerprint,
    /// The local snapshot was made with another key.
    DifferentKey,
    /// The local snapshot is encrypted, and no key matches.
    NoMatchingKey,
    /// The signature of the source manifest does not hold.
    Signature,
    /// The change detection fingerprint of the source manifest cannot be read.
    ChangeFingerprint,
    /// The source manifest has no change detection fingerprint.
    NoChangeFingerprint,
    /// The local manifest cannot be signed with the key.
    TargetSignature,
    /// The local snapshot does not stem from the source snapshot.
    ChangeFingerprintMismatch,
}

impl DecryptionError {
    /// The message, where no underlying error gives one.
    pub open spec fn text(self) -> Option<Seq<char>> {
        match self {
            DecryptionError::DifferentKey => Some(
                "Local encrypted or signed snapshot with different key detected, refuse to sync"@,
            ),
            DecryptionError::NoMatchingKey => Some("No matching key found, refusing sync"@),
            DecryptionError::ChangeFingerprintMismatch => Some(
                "Change detection fingerprint mismatch, refuse to continue!"@,
            ),
            DecryptionError::NoChangeFingerprint => Some(
                "No change detection fingerprint found, refuse to continue!"@,
            ),
            DecryptionError::Signature => Some("failed to check source manifest signature"@),
            DecryptionError::ChangeFingerprint => Some(
                "failed to parse change detection fingerprint of source manifest"@,
            ),
            _ => None,
        }
    }

    /// The message, where no underlying error gives one.
    pub fn message(&self) -> (r: Option<&'static str>)
        ensures
            match r {
                Some(m) => self.text() == Some(m@),
                None => self.text() is None,
            },
    {
        match self {
            DecryptionError::DifferentKey => Some(
                "Local encrypted or signed snapshot with different key detected, refuse to sync",
            ),
            DecryptionError::NoMatchingKey => Some("No matching key found, refusing sync"),
            DecryptionError::ChangeFingerprintMismatch => Some(
                "Change detection fingerprint mismatch, refuse to continue!",
            ),
            DecryptionError::NoChangeFingerprint => Some(
                "No change detection fingerprint found, refuse to continue!",
            ),
            DecryptionError::Signature => Some("failed to check source manifest signature"),
            DecryptionError::ChangeFingerprint => Some(
                "failed to parse change detection fingerprint of source manifest",
            ),
            _ => None,
        }
    }
}

/// What to do about decryption, as far as the manifests and the keys tell.
#[derive(Clone, Copy, Debug, PartialEq, Eq, Structural)]
pub enum KeyChoice {
    /// Pull the snapshot as it is.
    Regular,
    /// Pull the snapshot as it is, and log that no key matches.
    NoMatchingKey,
    /// Pull the snapshot as it is, and warn that the key is not used although it matches.
    NotFullyEncrypted { key: usize },
    /// Decrypt with this key, if the signature of the source manifest holds.
    CheckSignature { key: usize },
    /// Do not pull the snapshot.
    Refuse(DecryptionError),
}

/// What to do about decryption.
#[derive(Clone, Copy, Debug, PartialEq, Eq, Structural)]
pub enum Decryption {
    /// Decrypt with this key. If `skip` is set, the local snapshot is up to date.
    Use { key: usize, skip: bool },
    /// Do not pull the snapshot.
    Refuse(DecryptionError),
}

/// Whether every file is encrypted.
pub open spec fn fully_encrypted(modes: Seq<CryptMode>) -> bool {
    forall|i: int| 0 <= i < modes.len() ==> #[trigger] modes[i] == CryptMode::Encrypt
}

/// Whether `key` is the first of the keys with this fingerprint.
pub open spec fn is_first_match(keys: Seq<DecryptionKey>, fingerprint: Digest, key: int) -> bool {
    &&& 0 <= key < keys.len()
    &&& keys[key].fingerprint == fingerprint
    &&& forall|i: int| 0 <= i < key ==> (#[trigger] keys[i]).fingerprint != fingerprint
}

/// Whether no key has this fingerprint.
pub open spec fn no_match(keys: Seq<DecryptionKey>, fingerprint: Digest) -> bool {
    forall|i: int| 0 <= i < keys.len() ==> (#[trigger] keys[i]).fingerprint != fingerprint
}

/// What a local manifest alone decides for a source that was made with the key
/// `fingerprint`, or `None` if the keys have to be looked at.
pub open spec fn local_decides(
    fingerprint: Digest,
    encrypted: bool,
    existing: Option<ManifestKeys>,
) -> Option<KeyChoice> {
    match existing {
        None => None,
        Some(local) => match local.fingerprint {
            ReadFingerprint::Unreadable => Some(
                KeyChoice::Refuse(DecryptionError::TargetFingerprint),
            ),
            ReadFingerprint::Missing => None,
            ReadFingerprint::Present(local_fp) => if local_fp != fingerprint {
                Some(KeyChoice::Refuse(DecryptionError::DifferentKey))
            } else if encrypted == fully_encrypted(local.crypt_modes@) {
                Some(KeyChoice::Regular)
            } else {
                None
            },
        },
    }
}

/// Whether `choice` is right for the manifests and keys.
pub open spec fn right_choice(
    source: ManifestKeys,
    existing: Option<ManifestKeys>,
    keys: Seq<DecryptionKey>,
    choice: KeyChoice,
) -> bool {
    let encrypted = fully_encrypted(source.crypt_modes@);
    match source.fingerprint {
        ReadFingerprint::Unreadable => choice == KeyChoice::Refuse(
            DecryptionError::SourceFingerprint,
        ),
        ReadFingerprint::Missing => choice == KeyChoice::Regular,
        ReadFingerprint::Present(fp) => match local_decides(fp, encrypted, existing) {
            Some(decided) => choice == decided,
            None => if no_match(keys, fp) {
                choice == (if encrypted && existing is Some {
                    KeyChoice::Refuse(DecryptionError::NoMatchingKey)
                } else if keys.len() > 0 {
                    KeyChoice::NoMatchingKey
                } else {
                    KeyChoice::Regular
                })
            } else {
                match choice {
                    KeyChoice::CheckSignature { key } => encrypted && is_first_match(
                        keys,
                        fp,
                        key as int,
                    ),
                    KeyChoice::NotFullyEncrypted { key } => !encrypted && is_first_match(
                        keys,
                        fp,
                        key as int,
                    ),
                    _ => false,
                }
            },
        },
    }
}

/// Whether every file is encrypted.
pub fn all_encrypted(modes: &Vec<CryptMode>) -> (r: bool)
    ensures
        r == fully_encrypted(modes@),
{
    for i in 0..modes.len()
        invariant
            forall|j: int| 0 <= j < i ==> #[trigger] modes@[j] == CryptMode::Encrypt,
    {
        if modes[i] != CryptMode::Encrypt {
            return false;
        }
    }
    true
}

/// The first key with this fingerprint.
fn find_key(keys: &Vec<DecryptionKey>, fingerprint: Digest) -> (r: Option<usize>)
    ensures
        match r {
            Some(key) => is_first_match(keys@, fingerprint, key as int),
            None => no_match(keys@, fingerprint),
        },
{
    for i in 0..keys.len()
        invariant
            forall|j: int| 0 <= j < i ==> (#[trigger] keys@[j]).fingerprint != fingerprint,
    {
        if keys[i].fingerprint == fingerprint {
            return Some(i);
        }
    }
    None
}

/// What to do about decryption, from the source manifest, the local manifest if
/// there is one, and the keys.
pub fn choose_decryption_key(
    source: &ManifestKeys,
    existing: &Option<ManifestKeys>,
    keys: &Vec<DecryptionKey>,
) -> (r: KeyChoice)
    ensures
        right_choice(*source, *existing, keys@, r),
{
    let fingerprint: Digest = match source.fingerprint {
        ReadFingerprint::Unreadable => {
            return KeyChoice::Refuse(DecryptionError::SourceFingerprint);
        },
        ReadFingerprint::Missing => {
            // no fingerprint on source, regular pull
            return KeyChoice::Regular;
        },
        ReadFingerprint::Present(fingerprint) => fingerprint,
    };
    let encrypted = all_encrypted(&source.crypt_modes);
    if let Some(local) = existing {
        match local.fingerprint {
            ReadFingerprint::Unreadable => {
                return KeyChoice::Refuse(DecryptionError::TargetFingerprint);
            },
            ReadFingerprint::Missing => {},
            ReadFingerprint::Present(local_fingerprint) => {
                if local_fingerprint != fingerprint {
                    return KeyChoice::Refuse(DecryptionError::DifferentKey);
                }
                if encrypted == all_encrypted(&local.crypt_modes) {
                    // both sides are signed or encrypted with the same key, just resync
                    return KeyChoice::Regular;
                }
            },
        }
    }
    match find_key(keys, fingerprint) {
        None => {
            if encrypted && existing.is_some() {
                KeyChoice::Refuse(DecryptionError::NoMatchingKey)
            } else if keys.len() > 0 {
                KeyChoice::NoMatchingKey
            } else {
                KeyChoice::Regular
            }
        },
        Some(key) => {
            assert(!no_match(keys@, fingerprint));
            if encrypted {
                KeyChoice::CheckSignature { key }
            } else {
                KeyChoice::NotFullyEncrypted { key }
            }
        },
    }
}

/// What is known once a key was chosen: whether the signature of the source
/// manifest holds, and, if there is a local manifest, the change detection
/// fingerprint of the source and the signature of the local manifest under the key.
pub struct SignatureCheck {
    pub signature_ok: bool,
    pub existing: bool,
    pub change_fingerprint: ReadFingerprint,
    pub target_signature: Option<Digest>,
}

/// What to do about decryption with a chosen key.
pub open spec fn decryption_with(key: usize, check: SignatureCheck) -> Decryption {
    if !check.signature_ok {
        Decryption::Refuse(DecryptionError::Signature)
    } else if !check.existing {
        Decryption::Use { key, skip: false }
    } else {
        match check.change_fingerprint {
            ReadFingerprint::Unreadable => Decryption::Refuse(DecryptionError::ChangeFingerprint),
            ReadFingerprint::Missing => Decryption::Refuse(DecryptionError::NoChangeFingerprint),
            ReadFingerprint::Present(source) => match check.target_signature {
                None => Decryption::Refuse(DecryptionError::TargetSignature),
                Some(target) => if target == source {
                    Decryption::Use { key, skip: true }
                } else {
                    Decryption::Refuse(DecryptionError::ChangeFingerprintMismatch)
                },
            },
        }
    }
}

/// What to do about decryption with a chosen key.
pub fn optionally_use_decryption_key(key: usize, check: &SignatureCheck) -> (r: Decryption)
    ensures
        r == decryption_with(key, *check),
{
    if !check.signature_ok {
        return Decryption::Refuse(DecryptionError::Signature);
    }
    if !check.existing {
        return Decryption::Use { key, skip: false };
    }
    // avoid overwriting a local snapshot
    match check.change_fingerprint {
        ReadFingerprint::Unreadable => Decryption::Refuse(DecryptionError::ChangeFingerprint),
        ReadFingerprint::Missing => Decryption::Refuse(DecryptionError::NoChangeFingerprint),
        ReadFingerprint::Present(source) => match check.target_signature {
            None => Decryption::Refuse(DecryptionError::TargetSignature),
            Some(target) => if target == source {
                Decryption::Use { key, skip: true }
            } else {
                Decryption::Refuse(DecryptionError::ChangeFingerprintMismatch)
            },
        },
    }
}

/// The line to log for a choice, with the key's printed fingerprint.
pub open spec fn choice_line(
    choice: KeyChoice,
    keys: Seq<DecryptionKey>,
    prefix: Seq<char>,
    fingerprint: Seq<char>,
) -> Option<(Level, Seq<char>)> {
    match choice {
        KeyChoice::NoMatchingKey => Some(
            (Level::Info, prefix + ": No matching key found, sync without decryption"@),
        ),
        KeyChoice::NotFullyEncrypted { key } => Some(
            (
                Level::Warn,
                "Snapshot not fully encrypted, sync as is despite matching key '"@
                    + keys[key as int].id@ + "' with fingerprint "@ + fingerprint,
            ),
        ),
        _ => None,
    }
}

/// The line to log for a choice, if any, with the key's printed fingerprint.
pub fn log_choice(
    choice: KeyChoice,
    keys: &Vec<DecryptionKey>,
    prefix: &str,
    fingerprint: &str,
) -> (r: Option<(Level, String)>)
    requires
        choice matches KeyChoice::NotFullyEncrypted { key } ==> key < keys@.len(),
    ensures
        match r {
            Some((level, line)) => choice_line(choice, keys@, prefix@, fingerprint@) == Some(
                (level, line@),
            ),
            None => choice_line(choice, keys@, prefix@, fingerprint@) is None,
        },
{
    match choice {
        KeyChoice::NoMatchingKey => Some(
            (Level::Info, join2(prefix, ": No matching key found, sync without decryption")),
        ),
        KeyChoice::NotFullyEncrypted { key } => {
            let mut line = join3(
                "Snapshot not fully encrypted, sync as is despite matching key '",
                keys[key].id.as_str(),
                "' with fingerprint ",
            );
            line.append(fingerprint);
            Some((Level::Warn, line))
        },
        _ => None,
    }
}

/// The line to log when a snapshot is decrypted.
pub fn decrypt_line(key_id: &str, fingerprint: &str) -> (r: String)
    ensures
        r@ == "Found matching key '"@ + key_id@ + "' with fingerprint "@ + fingerprint@
            + ", decrypt on pull"@,
{
    let mut line = join3("Found matching key '", key_id, "' with fingerprint ");
    line.append(fingerprint);
    line.append(", decrypt on pull");
    line
}

/// There is exactly one right choice.
pub proof fn choice_is_unique(
    source: ManifestKeys,
    existing: Option<ManifestKeys>,
    keys: Seq<DecryptionKey>,
    a: KeyChoice,
    b: KeyChoice,
)
    requires
        right_choice(source, existing, keys, a),
        right_choice(source, existing, keys, b),
    ensures
        a == b,
{
    if let ReadFingerprint::Present(fp) = source.fingerprint {
        let key_of = |c: KeyChoice|
            match c {
                KeyChoice::CheckSignature { key } => key as int,
                KeyChoice::NotFullyEncrypted { key } => key as int,
                _ => 0,
            };
        let i = key_of(a);
        let j = key_of(b);
        if is_first_match(keys, fp, i) && is_first_match(keys, fp, j) {
            if i < j {
                assert(keys[i].fingerprint != fp);
            }
            if j < i {
                assert(keys[j].fingerprint != fp);
            }
        }
    }
}

/// A snapshot is decrypted only if each of its files is encrypted, and only with
/// a key that has the fingerprint which the source manifest names.
pub proof fn only_encrypted_snapshots_are_decrypted(
    source: ManifestKeys,
    existing: Option<ManifestKeys>,
    keys: Seq<DecryptionKey>,
    key: usize,
)
    requires
        right_choice(source, existing, keys, KeyChoice::CheckSignature { key }),
    ensures
        fully_encrypted(source.crypt_modes@),
        key < keys.len(),
        source.fingerprint == ReadFingerprint::Present(keys[key as int].fingerprint),
{
}

/// A local snapshot is never overwritten by decrypted contents: decryption goes
/// ahead only where there is none, and a local snapshot is either found to be up
/// to date or the pull is refused.
pub proof fn local_snapshot_is_not_decrypted_over(key: usize, check: SignatureCheck)
    requires
        check.existing,
    ensures
        match decryption_with(key, check) {
            Decryption::Use { key: _, skip } => skip,
            Decryption::Refuse(_) => true,
        },
{
}

/// A local snapshot that was made with another key is never synced to.
pub proof fn different_key_is_refused(
    source: ManifestKeys,
    existing: ManifestKeys,
    keys: Seq<DecryptionKey>,
    choice: KeyChoice,
    source_fp: Digest,
    local_fp: Digest,
)
    requires
        source.fingerprint == ReadFingerprint::Present(source_fp),
        existing.fingerprint == ReadFingerprint::Present(local_fp),
        source_fp != local_fp,
        right_choice(source, Some(existing), keys, choice),
    ensures
        choice == KeyChoice::Refuse(DecryptionError::DifferentKey),
{
}

/// What is chosen, case by case. A source without a readable key is refused or pulled as it
/// is. A local snapshot with the same key and encrypted alike is pulled as it is; one whose
/// key cannot be read is refused. In all other cases but that of a different key the keys
/// decide: the first that matches is used if every file is encrypted; without a match a
/// snapshot that is encrypted is never pulled over a local one.
pub proof fn key_is_chosen_by_case(
    source: ManifestKeys,
    existing: Option<ManifestKeys>,
    keys: Seq<DecryptionKey>,
    choice: KeyChoice,
    fp: Digest,
)
    requires
        right_choice(source, existing, keys, choice),
    ensures
        ({
            let encrypted = forall|i: int|
                0 <= i < source.crypt_modes@.len() ==> #[trigger] source.crypt_modes@[i]
                    == CryptMode::Encrypt;
            let local_encrypted = forall|i: int|
                0 <= i < existing->0.crypt_modes@.len() ==> #[trigger] existing->0.crypt_modes@[i]
                    == CryptMode::Encrypt;
            let alike = existing is Some && existing->0.fingerprint == ReadFingerprint::Present(fp)
                && encrypted == local_encrypted;
            let keys_decide = existing is None || existing->0.fingerprint == ReadFingerprint::Missing
                || (existing->0.fingerprint == ReadFingerprint::Present(fp) && encrypted
                != local_encrypted);
            let matched = exists|i: int| 0 <= i < keys.len() && (#[trigger] keys[i]).fingerprint == fp;
            &&& source.fingerprint == ReadFingerprint::Unreadable ==> choice == KeyChoice::Refuse(
                DecryptionError::SourceFingerprint,
            )
            &&& source.fingerprint == ReadFingerprint::Missing ==> choice == KeyChoice::Regular
            &&& source.fingerprint == ReadFingerprint::Present(fp) ==> {
                &&& existing is Some && existing->0.fingerprint == ReadFingerprint::Unreadable
                    ==> choice == KeyChoice::Refuse(DecryptionError::TargetFingerprint)
                &&& alike ==> choice == KeyChoice::Regular
                &&& keys_decide && matched ==> {
                    let key = match choice {
                        KeyChoice::CheckSignature { key } => key as int,
                        KeyChoice::NotFullyEncrypted { key } => key as int,
                        _ => -1,
                    };
                    &&& encrypted ==> choice is CheckSignature
                    &&& !encrypted ==> choice is NotFullyEncrypted
                    &&& 0 <= key < keys.len()
                    &&& keys[key].fingerprint == fp
                    &&& forall|i: int| 0 <= i < key ==> (#[trigger] keys[i]).fingerprint != fp
                }
                &&& keys_decide && !matched ==> {
                    &&& encrypted && existing is Some ==> choice == KeyChoice::Refuse(
                        DecryptionError::NoMatchingKey,
                    )
                    &&& !(encrypted && existing is Some) && keys.len() > 0 ==> choice
                        == KeyChoice::NoMatchingKey
                    &&& !(encrypted && existing is Some) && keys.len() == 0 ==> choice
                        == KeyChoice::Regular
                }
            }
        }),
{
}

/// A chosen key is used if the signature of the source holds and there is no local snapshot,
/// or that is up to date, which is when its signature under the key is what the source
/// tells; then nothing is pulled. Everything else is refused, each with its own reason.
pub proof fn chosen_key_is_used_by_case(
    key: usize,
    check: SignatureCheck,
    source: Digest,
    target: Digest,
)
    ensures
        ({
            let result = decryption_with(key, check);
            let compared = check.signature_ok && check.existing;
            &&& !check.signature_ok ==> result == Decryption::Refuse(DecryptionError::Signature)
            &&& check.signature_ok && !check.existing ==> result == (Decryption::Use {
                key,
                skip: false,
            })
            &&& compared && check.change_fingerprint == ReadFingerprint::Unreadable ==> result
                == Decryption::Refuse(DecryptionError::ChangeFingerprint)
            &&& compared && check.change_fingerprint == ReadFingerprint::Missing ==> result
                == Decryption::Refuse(DecryptionError::NoChangeFingerprint)
            &&& compared && check.change_fingerprint == ReadFingerprint::Present(source)
                && check.target_signature is None ==> result == Decryption::Refuse(
                DecryptionError::TargetSignature,
            )
            &&& compared && check.change_fingerprint == ReadFingerprint::Present(source)
                && check.target_signature == Some(target) ==> {
                &&& target == source ==> result == (Decryption::Use { key, skip: true })
                &&& target != source ==> result == Decryption::Refuse(
                    DecryptionError::ChangeFingerprintMismatch,
                )
            }
        }),
{
}

} // verus!
