//! Pulling the contents of a source datastore into a local one.

pub mod archive;
pub mod chunks;
pub mod decryption;
pub mod encountered;
pub mod group;
pub mod ns;
pub mod params;
pub mod snapshot;
pub mod store;
pub mod unprotected;
