//! Server side: sync jobs and metric collection.

pub mod metric_collection;
pub mod pull;
pub mod stats;
pub mod sync;
