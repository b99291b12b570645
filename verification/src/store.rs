//! The calls into `rusqlite`. Nothing here is proved: each function hands one
//! request to the store and hands the answer back.

use vstd::prelude::*;

verus! {

/// A connection to a SQLite database.
#[verifier::external_type_specification]
#[verifier::external_body]
pub struct ExConnection(rusqlite::Connection);

/// A transaction that is open on a connection. It rolls back when it is
/// dropped, unless it was committed.
#[verifier::external_type_specification]
#[verifier::external_body]
pub struct ExTransaction<'conn>(rusqlite::Transaction<'conn>);

/// The store's own error.
#[verifier::external_type_specification]
#[verifier::external_body]
pub struct ExStoreError(rusqlite::Error);

/// `Connection::open_in_memory`: a connection to a new database that lives in
/// memory. Whether it can be had is the machine's to say.
#[verifier::external_body]
pub(crate) fn open_in_memory() -> (r: Result<rusqlite::Connection, rusqlite::Error>) {
    rusqlite::Connection::open_in_memory()
}

/// `Connection::query_row` on `PRAGMA user_version`, reading the first column
/// of the row as an `i64`. The value is whatever the store holds.
#[verifier::external_body]
pub(crate) fn query_user_version(conn: &rusqlite::Connection) -> (r: Result<i64, rusqlite::Error>) {
    conn.query_row("PRAGMA user_version", [], |row| row.get(0))
}

/// `Connection::transaction`: begins a transaction. Nothing is claimed of the
/// connection afterwards.
#[verifier::external_body]
pub(crate) fn begin<'conn>(conn: &'conn mut rusqlite::Connection) -> (r: Result<
    rusqlite::Transaction<'conn>,
    rusqlite::Error,
>) {
    conn.transaction()
}

/// `Connection::execute_batch`, through the transaction: runs the statements
/// of `sql` one after the other. Whether they succeed is the store's to say.
#[verifier::external_body]
pub(crate) fn execute_batch(tx: &rusqlite::Transaction<'_>, sql: &str) -> (r: Result<
    (),
    rusqlite::Error,
>) {
    tx.execute_batch(sql)
}

/// `Connection::query_row` on `PRAGMA foreign_key_check`, followed by
/// `OptionalExtension::optional`: the four columns of the first row that the
/// check reports, or `None` where it reports no row.
#[verifier::external_body]
pub(crate) fn query_foreign_key_check(tx: &rusqlite::Transaction<'_>) -> (r: Result<
    Option<(String, i64, String, i64)>,
    rusqlite::Error,
>) {
    rusqlite::OptionalExtension::optional(
        tx.query_row(
            "PRAGMA foreign_key_check",
            [],
            |row| Ok((row.get(0)?, row.get(1)?, row.get(2)?, row.get(3)?)),
        ),
    )
}

/// `Connection::pragma_update` of `user_version`, through the transaction.
#[verifier::external_body]
pub(crate) fn pragma_update_user_version(tx: &rusqlite::Transaction<'_>, v: u32) -> (r: Result<
    (),
    rusqlite::Error,
>) {
    tx.pragma_update(None, "user_version", v)
}

/// `Transaction::commit`: consumes the transaction and commits it.
#[verifier::external_body]
pub(crate) fn commit(tx: rusqlite::Transaction<'_>) -> (r: Result<(), rusqlite::Error>) {
    tx.commit()
}

} // verus!
