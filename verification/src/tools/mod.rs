//! Tools that are shared by server and client.

pub mod bounded_join_set;
pub mod buffered_logger;
