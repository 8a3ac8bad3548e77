//! Plain values shared by the modules of this crate.

use vstd::prelude::*;

verus! {

/// A SHA-256 checksum, as its first and its last sixteen bytes in big-endian order.
#[derive(Clone, Copy, Debug, PartialEq, Eq, Structural)]
pub struct Digest {
    pub hi: u128,
    pub lo: u128,
}

/// How the contents of a file are protected.
#[derive(Clone, Copy, Debug, PartialEq, Eq, Structural)]
pub enum CryptMode {
    /// Not protected.
    Plain,
    /// Encrypted.
    Encrypt,
    /// Only signed.
    SignOnly,
}

/// Result of the last verification of a snapshot.
#[derive(Clone, Copy, Debug, PartialEq, Eq, Structural)]
pub enum VerifyState {
    Verified,
    Failed,
}

/// Kind of an archive of a snapshot.
#[derive(Clone, Copy, Debug, PartialEq, Eq, Structural)]
pub enum ArchiveType {
    DynamicIndex,
    FixedIndex,
    Blob,
}

/// Kind of the guest or host that a group holds backups of.
#[derive(Clone, Copy, Debug, PartialEq, Eq, Structural)]
pub enum BackupType {
    Vm,
    Ct,
    Host,
}

/// Severity of a log line.
#[derive(Clone, Copy, Debug, PartialEq, Eq, Structural)]
pub enum Level {
    Error,
    Warn,
    Info,
    Debug,
    Trace,
}

/// Name of the manifest of a snapshot.
pub const MANIFEST_BLOB_NAME: &'static str = "index.json.blob";

/// Name of the client log of a snapshot.
pub const CLIENT_LOG_BLOB_NAME: &'static str = "client.log.blob";

} // verus!
