//! Configuration of the server.

pub mod encryption_keys;
pub mod node;
pub mod plugin;
pub mod token_history;
pub mod token_shadow;
