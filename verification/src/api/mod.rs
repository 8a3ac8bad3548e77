//! Requests to the server.

pub mod acme;
pub mod certificates;
pub mod encryption_keys;
pub mod journal;
pub mod namespace;
pub mod s3;
