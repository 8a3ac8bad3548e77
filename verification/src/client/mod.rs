//! Client side: where backups are kept and how commands reach them.

pub mod group;
pub mod log_throttle;
pub mod namespace;
pub mod repository;
