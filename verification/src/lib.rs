//! Core of a bounded download queue: the task table, the manager of the
//! download slots, the steps of one download run and the dispatch loop,
//! each with a contract that is proved of it.

pub mod checksums;
pub mod clock;
pub mod db;
pub mod deps;
pub mod error;
pub mod executor;
pub mod laws;
pub mod logger;
pub mod manager;
pub mod metadata;
pub mod order;
pub mod output;
pub mod paths;
pub mod progress;
pub mod scheduler;
pub mod schema;
pub mod settings;
pub mod status;
pub mod text;
pub mod types;
pub mod validation;
