//! Logic of a backup server: synchronising datastores, keeping the on-disk
//! layout of backup groups and snapshots, and the configuration around it.
//!
//! Every item is verified. Whatever touches a disk, a network or a clock is
//! done by the caller, who hands in what was observed and performs the actions
//! that come back.

pub mod address;
pub mod api;
pub mod auth;
pub mod buildcfg;
pub mod checksum;
pub mod client;
pub mod config;
pub mod datastore;
pub mod docgen;
pub mod namespace;
pub mod server;
pub mod sort;
pub mod text;
pub mod tools;
pub mod types;
