use migrator::session::{counter_of, foreign_key_verdict};
use migrator::{ForeignKeyCheckError, MigrationError, Migrations, Session, M};
use rusqlite::Connection;

fn read_version(conn: &Connection) -> Result<i64, rusqlite::Error> {
    conn.query_row("PRAGMA user_version", [], |row| row.get(0))
}

fn count(conn: &Connection, table: &str) -> Option<i64> {
    conn.query_row(&format!("SELECT count(*) FROM {table}"), [], |row| row.get(0)).ok()
}

#[test]
fn a_committed_session_keeps_what_was_done() {
    let mut conn = Connection::open_in_memory().unwrap();
    {
        let mut session = Session::begin(&mut conn).ok().unwrap();
        assert_eq!(session.execute_batch("CREATE TABLE t(a); INSERT INTO t VALUES (1);"), Ok(()));
        assert_eq!(session.set_user_version(4), Ok(()));
        assert_eq!(session.commit(), Ok(()));
    }
    assert_eq!(count(&conn, "t"), Some(1));
    assert_eq!(read_version(&conn), Ok(4));
}

#[test]
fn a_dropped_session_keeps_nothing() {
    let mut conn = Connection::open_in_memory().unwrap();
    {
        let mut session = Session::begin(&mut conn).ok().unwrap();
        assert_eq!(session.execute_batch("CREATE TABLE t(a); INSERT INTO t VALUES (1);"), Ok(()));
        assert_eq!(session.set_user_version(4), Ok(()));
    }
    assert_eq!(count(&conn, "t"), None);
    assert_eq!(read_version(&conn), Ok(0));
}

#[test]
fn a_failed_batch_names_its_script() {
    let mut conn = Connection::open_in_memory().unwrap();
    let mut session = Session::begin(&mut conn).ok().unwrap();
    match session.execute_batch("CREATE TABLE t(a); this is no sql") {
        Err(MigrationError::RusqliteError { query, .. }) => {
            assert_eq!(query, "CREATE TABLE t(a); this is no sql")
        },
        other => panic!("expected a store error, got {other:?}"),
    }
}

#[test]
fn the_foreign_key_check_of_a_session() {
    let mut conn = Connection::open_in_memory().unwrap();
    conn.execute_batch("PRAGMA foreign_keys = OFF").unwrap();
    let mut session = Session::begin(&mut conn).ok().unwrap();
    session
        .execute_batch(
            "CREATE TABLE parent(id INTEGER PRIMARY KEY);
             CREATE TABLE child(id INTEGER PRIMARY KEY, parent_id INTEGER REFERENCES parent(id));",
        )
        .unwrap();
    assert_eq!(session.validate_foreign_keys(), Ok(()));
    session.execute_batch("INSERT INTO child(id, parent_id) VALUES (3, 5);").unwrap();
    assert_eq!(
        session.validate_foreign_keys(),
        Err(MigrationError::ForeignKeyCheck(ForeignKeyCheckError {
            table: String::from("child"),
            rowid: 3,
            parent: String::from("parent"),
            fkid: 0,
        }))
    );
}

#[test]
fn the_verdict_on_a_row_of_the_foreign_key_check() {
    assert_eq!(foreign_key_verdict(None), Ok(()));
    assert_eq!(
        foreign_key_verdict(Some((String::from("child"), 3, String::from("parent"), 1))),
        Err(MigrationError::ForeignKeyCheck(ForeignKeyCheckError {
            table: String::from("child"),
            rowid: 3,
            parent: String::from("parent"),
            fkid: 1,
        }))
    );
}

#[test]
fn the_version_counter_is_cut_to_32_bits() {
    let mut conn = Connection::open_in_memory().unwrap();
    {
        let mut session = Session::begin(&mut conn).ok().unwrap();
        assert_eq!(session.set_user_version((1usize << 32) + 7), Ok(()));
        assert_eq!(session.commit(), Ok(()));
    }
    assert_eq!(read_version(&conn), Ok(7));
}

#[test]
fn apply_up_runs_the_steps_sets_the_version_and_commits() {
    let migrations = Migrations::new(vec![
        M::up(String::from("CREATE TABLE t(a)")),
        M::up(String::from("INSERT INTO t VALUES (1)")),
        M::up(String::from("INSERT INTO t VALUES (2)")),
    ]);
    let mut conn = Connection::open_in_memory().unwrap();
    {
        let mut session = Session::begin(&mut conn).ok().unwrap();
        assert_eq!(migrations.apply_up(&mut session, 0, 2), Ok(()));
    }
    assert_eq!(count(&conn, "t"), Some(1));
    assert_eq!(read_version(&conn), Ok(2));
}

#[test]
fn apply_up_that_fails_does_not_commit() {
    let migrations = Migrations::new(vec![
        M::up(String::from("CREATE TABLE t(a)")),
        M::up(String::from("INSERT INTO no_such_table VALUES (1)")),
    ]);
    let mut conn = Connection::open_in_memory().unwrap();
    {
        let mut session = Session::begin(&mut conn).ok().unwrap();
        match migrations.apply_up(&mut session, 0, 2) {
            Err(MigrationError::RusqliteError { query, .. }) => {
                assert_eq!(query, "INSERT INTO no_such_table VALUES (1)")
            },
            other => panic!("expected a store error, got {other:?}"),
        }
    }
    assert_eq!(count(&conn, "t"), None);
    assert_eq!(read_version(&conn), Ok(0));
}

#[test]
fn apply_down_reverts_the_steps_sets_the_version_and_commits() {
    let migrations = Migrations::new(vec![
        M::up(String::from("CREATE TABLE t(a)")).down(String::from("DROP TABLE t")),
        M::up(String::from("INSERT INTO t VALUES (1)")).down(String::from("DELETE FROM t")),
    ]);
    let mut conn = Connection::open_in_memory().unwrap();
    migrations.to_latest(&mut conn).unwrap();
    {
        let mut session = Session::begin(&mut conn).ok().unwrap();
        assert_eq!(migrations.apply_down(&mut session, 2, 1), Ok(()));
    }
    assert_eq!(count(&conn, "t"), Some(0));
    assert_eq!(read_version(&conn), Ok(1));
}

#[test]
fn a_counter_that_is_not_negative_is_the_version() {
    assert_eq!(counter_of(0), 0);
    assert_eq!(counter_of(1), 1);
    assert_eq!(counter_of(42), 42);
    assert_eq!(counter_of(i64::from(i32::MAX)), 2147483647);
}

#[test]
fn a_negative_counter_wraps_around() {
    assert_eq!(counter_of(-1), usize::MAX);
    assert_eq!(counter_of(-2), usize::MAX - 1);
    assert_eq!(counter_of(i64::from(i32::MIN)), usize::MAX - 2147483647);
}

#[test]
fn conclude_sets_the_version_and_commits() {
    let mut conn = Connection::open_in_memory().unwrap();
    {
        let mut session = Session::begin(&mut conn).ok().unwrap();
        session.execute_batch("CREATE TABLE t(a)").unwrap();
        assert_eq!(session.conclude(6), Ok(()));
    }
    assert_eq!(count(&conn, "t"), Some(0));
    assert_eq!(read_version(&conn), Ok(6));
}
