//! A small preference persistence engine.
//!
//! A preference set is described by a [`schema::Schema`]: an ordered list of
//! named, typed fields with defaults and stable storage keys. A
//! [`record::Record`] holds the current value of every field, backed by a
//! [`storage::Storage`], and persists itself as one TOML document through
//! the [`codec`]. Batches of changes go through a [`record::EditGuard`],
//! which saves once, and only if something changed. A
//! [`lock::InstanceRegistry`] admits at most one live record per schema.
//!
//! The library performs no input or output of its own. A host hands it a
//! backend that does, and keeps one registry for the process.

pub mod codec;
pub mod error;
pub mod lock;
pub mod record;
pub mod schema;
pub mod storage;
pub mod value;
