use vstd::prelude::*;
use crate::version::SchemaVersion;

verus! {

/// A set of migrations, or a request made of it, that cannot be acted on.
/// These are found before anything is asked of the store.
#[derive(Debug, PartialEq, Eq, Clone, Copy)]
pub enum MigrationDefinitionError {
    /// The step at this index (counted from 0) would have to be reverted and
    /// has no reverse script.
    DownNotDefined { migration_index: usize },
    /// The set of migrations is empty.
    NoMigrationsDefined,
    /// The store is at a version beyond the last known step, and a lower
    /// version was asked for.
    DatabaseTooFarAhead,
}

/// One row of the store's foreign key check: a row that refers to a parent
/// that does not exist.
#[derive(Debug, PartialEq, Eq, Clone)]
pub struct ForeignKeyCheckError {
    /// The table that holds the row.
    pub table: String,
    /// The row.
    pub rowid: i64,
    /// The table that the row refers to.
    pub parent: String,
    /// Which of the table's foreign keys is violated, counted from 0.
    pub fkid: i64,
}

/// A problem with the files of a migration directory.
#[derive(Debug, PartialEq, Eq, Clone)]
pub enum FileLoadError {
    /// The name holds no `-`, so no id can be cut from it.
    MissingId { file_name: String },
    /// What stands before the first `-` is not a number that fits a `usize`.
    InvalidId { file_name: String },
    /// The id is 0.
    ZeroId { file_name: String },
    /// An id is larger than the number of entries, so some id is missing.
    NotConsecutive,
    /// Two entries carry the same id.
    Duplicate { id: usize },
    /// There are no entries.
    NoMigrationFiles,
}

/// What a hook reports when it fails.
#[derive(Debug, PartialEq)]
pub enum HookError {
    /// A store call made by the hook failed.
    RusqliteError(rusqlite::Error),
    /// Any other failure, in the hook's own words.
    Hook(String),
}

/// The result of a hook.
pub type HookResult = Result<(), HookError>;

/// Everything that can go wrong while loading or running migrations.
#[derive(Debug, PartialEq)]
pub enum MigrationError {
    /// The store refused a request. `query` is what was being run.
    RusqliteError { query: String, err: rusqlite::Error },
    /// A version was asked for that lies beyond the last known step.
    SpecifiedSchemaVersion { specified: SchemaVersion, highest: SchemaVersion },
    /// The migrations cannot be acted on as they are defined.
    MigrationDefinition(MigrationDefinitionError),
    /// The foreign key check that follows a step found a violation.
    ForeignKeyCheck(ForeignKeyCheckError),
    /// A hook failed.
    Hook(String),
    /// The migration directory could not be made into a set of migrations.
    FileLoad(FileLoadError),
}

impl MigrationError {
    /// Errors that are raised while a transaction is open: a request that the
    /// store refused, a violated foreign key, a failed hook.
    pub open spec fn is_execution(self) -> bool {
        self is RusqliteError || self is ForeignKeyCheck || self is Hook
    }

    /// The error for a request that the store refused.
    pub fn with_sql(err: rusqlite::Error, query: &str) -> (e: MigrationError)
        ensures
            e matches MigrationError::RusqliteError { query: q, err: inner } && q@ == query@
                && inner == err,
    {
        MigrationError::RusqliteError { query: query.to_owned(), err }
    }

    /// Turns a hook's failure into the engine's error.
    pub fn from_hook(err: HookError) -> (e: MigrationError)
        ensures
            e is RusqliteError || e is Hook,
            err matches HookError::Hook(message) ==> e == MigrationError::Hook(message),
            err matches HookError::RusqliteError(inner) ==> (e
                matches MigrationError::RusqliteError { query, err: source } && query@ == Seq::<
                char,
            >::empty() && source == inner),
    {
        match err {
            HookError::RusqliteError(inner) => MigrationError::RusqliteError {
                query: String::new(),
                err: inner,
            },
            HookError::Hook(message) => MigrationError::Hook(message),
        }
    }
}

} // verus!
