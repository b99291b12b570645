//! Versioned, reversible schema migrations for SQLite.
//!
//! A set of [`Migrations`] is an ordered list of steps, each with a forward
//! script and, where it can be reverted, a reverse script. The store keeps a
//! single counter, the number of steps that have been applied to it. A run
//! takes the store from the counter's value to a target, forward or
//! backward, inside one transaction: either every step of the run is kept,
//! together with the new value of the counter, or nothing is.
//!
//! What the store does with a request is not proved here. What is proved is
//! what the library asks of the store, in which order, and when it asks
//! nothing at all: see [`plan`], [`session`] and [`laws`].

pub mod clock;
pub mod command;
pub mod engine;
pub mod error;
pub mod laws;
pub mod loader;
pub mod plan;
pub mod session;
pub mod step;
pub mod store;
pub mod text;
pub mod version;

pub use crate::engine::Migrations;
pub use crate::error::{
    FileLoadError, ForeignKeyCheckError, HookError, HookResult, MigrationDefinitionError,
    MigrationError,
};
pub use crate::loader::{
    check_slots, empty_slots, from_directory, get_id, place, script_kind, MigrationFile,
    ScriptKind,
};
pub use crate::session::{Request, Session};
pub use crate::step::{MView, MigrationHook, M};
pub use crate::version::SchemaVersion;
