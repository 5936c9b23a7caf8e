//! Replicated file-metadata store: the record model, the transactional
//! repository with its two secondary indexes, and the state machine that a
//! replication layer drives.

pub mod api;
pub mod codec;
pub mod config;
pub mod db;
pub mod engine;
pub mod error;
pub mod laws;
pub mod models;
pub mod object_store;
pub mod protocol;
pub mod state_machine;
pub mod store;
pub mod tables;
pub mod text;
