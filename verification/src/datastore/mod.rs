//! Layout of a datastore on disk, and what is done to groups and snapshots.

pub mod backup_info;
pub mod destroy;
pub mod lock_path;
pub mod locking;
pub mod move_journal;
pub mod paths;
pub mod relocate;
pub mod temp_dir;
