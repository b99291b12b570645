use migrator::{
    check_slots, empty_slots, from_directory, get_id, place, script_kind, FileLoadError,
    MigrationDefinitionError, MigrationError, MigrationFile, Migrations, SchemaVersion,
    ScriptKind, M,
};
use rusqlite::Connection;

fn file(name: &str, up: &str, down: Option<&str>) -> MigrationFile {
    MigrationFile::new(String::from(name), String::from(up), down.map(String::from)).unwrap()
}

fn load_error(e: FileLoadError) -> MigrationError {
    MigrationError::FileLoad(e)
}

#[test]
fn get_id_reads_the_number_before_the_first_dash() {
    assert_eq!(get_id("0001-create_table"), Ok(1));
    assert_eq!(get_id("12-ab"), Ok(12));
    assert_eq!(get_id("7-a-b-c"), Ok(7));
    assert_eq!(get_id("+3-plus"), Ok(3));
    assert_eq!(get_id("18446744073709551615-max"), Ok(usize::MAX));
    assert_eq!(get_id("5-"), Ok(5));
}

#[test]
fn get_id_without_a_dash() {
    assert_eq!(
        get_id("0001_create"),
        Err(load_error(FileLoadError::MissingId { file_name: String::from("0001_create") }))
    );
    assert_eq!(
        get_id(""),
        Err(load_error(FileLoadError::MissingId { file_name: String::new() }))
    );
}

#[test]
fn get_id_without_a_number() {
    for name in ["-create", "abc-create", "1a-create", " 1-create", "+-create", "1_0-create", "٣-create"] {
        assert_eq!(
            get_id(name),
            Err(load_error(FileLoadError::InvalidId { file_name: String::from(name) }))
        );
    }
    assert_eq!(
        get_id("18446744073709551616-too_large"),
        Err(load_error(FileLoadError::InvalidId {
            file_name: String::from("18446744073709551616-too_large")
        }))
    );
}

#[test]
fn get_id_reads_as_the_standard_library_does() {
    for name in ["0001-a", "+3-b", "-c", "x-d", "007-e", "99999999999999999999999-f", "0-g", "+-h", "+0-i", "12 -j"] {
        let prefix = name.split_once('-').unwrap().0;
        let expected = prefix.parse::<usize>().ok().filter(|v| *v != 0);
        assert_eq!(get_id(name).ok(), expected, "{name}");
    }
}

#[test]
fn get_id_of_zero() {
    assert_eq!(
        get_id("0-create"),
        Err(load_error(FileLoadError::ZeroId { file_name: String::from("0-create") }))
    );
    assert_eq!(
        get_id("000-create"),
        Err(load_error(FileLoadError::ZeroId { file_name: String::from("000-create") }))
    );
}

#[test]
fn migration_file_takes_its_number_from_its_name() {
    let f = file("0002-add_column", "up", Some("down"));
    assert_eq!(f.id, 2);
    assert_eq!(f.name, "0002-add_column");
    assert_eq!(f.up, "up");
    assert_eq!(f.down, Some(String::from("down")));
    assert_eq!(
        MigrationFile::new(String::from("nothing"), String::new(), None).err(),
        Some(load_error(FileLoadError::MissingId { file_name: String::from("nothing") }))
    );
}

#[test]
fn a_step_from_a_file_carries_its_scripts() {
    let with_down = M::from(&file("1-a", "CREATE TABLE t(a)", Some("DROP TABLE t")));
    assert_eq!(with_down.up_sql(), "CREATE TABLE t(a)");
    assert_eq!(with_down.down_sql(), Some("DROP TABLE t"));
    assert!(!with_down.checks_foreign_keys());
    let without_down = M::from(&file("1-a", "CREATE TABLE t(a)", None));
    assert_eq!(without_down.up_sql(), "CREATE TABLE t(a)");
    assert_eq!(without_down.down_sql(), None);
    let with_empty_down = M::from(&file("1-a", "CREATE TABLE t(a)", Some("")));
    assert_eq!(with_empty_down.down_sql(), Some(""));
}

#[test]
fn a_step_loaded_without_a_reverse_script_cannot_be_reverted() {
    let migrations = Migrations::from_directory(vec![
        file("0001-create", "CREATE TABLE t(a)", Some("DROP TABLE t")),
        file("0002-fill", "INSERT INTO t VALUES (1)", None),
        file("0003-more", "INSERT INTO t VALUES (2)", Some("DELETE FROM t WHERE a = 2")),
    ])
    .ok()
    .unwrap();
    assert_eq!(migrations.first_without_down(0, 3), Some(1));
    let mut conn = Connection::open_in_memory().unwrap();
    migrations.to_latest(&mut conn).unwrap();
    assert_eq!(
        migrations.to_version(&mut conn, 0),
        Err(MigrationError::MigrationDefinition(MigrationDefinitionError::DownNotDefined {
            migration_index: 1
        }))
    );
    assert_eq!(migrations.current_version(&conn), Ok(SchemaVersion::Inside(3)));
    let n: i64 = conn.query_row("SELECT count(*) FROM t", [], |row| row.get(0)).unwrap();
    assert_eq!(n, 2);
    assert_eq!(migrations.to_version(&mut conn, 2), Ok(()));
    assert_eq!(migrations.current_version(&conn), Ok(SchemaVersion::Inside(2)));
}

fn ups(slots: &[Option<M>]) -> Vec<Option<String>> {
    slots.iter().map(|slot| slot.as_ref().map(|m| String::from(m.up_sql()))).collect()
}

#[test]
fn empty_slots_are_all_empty() {
    assert_eq!(ups(&empty_slots(0)), Vec::<Option<String>>::new());
    assert_eq!(ups(&empty_slots(3)), vec![None, None, None]);
}

#[test]
fn place_puts_a_step_at_the_place_of_its_number() {
    let mut slots = empty_slots(3);
    assert_eq!(place(&mut slots, &file("3-c", "three", None)), Ok(()));
    assert_eq!(ups(&slots), vec![None, None, Some(String::from("three"))]);
    assert_eq!(place(&mut slots, &file("1-a", "one", None)), Ok(()));
    assert_eq!(
        ups(&slots),
        vec![Some(String::from("one")), None, Some(String::from("three"))]
    );
}

#[test]
fn place_refuses_what_has_no_place() {
    let mut slots = empty_slots(2);
    assert_eq!(place(&mut slots, &file("2-b", "two", None)), Ok(()));
    assert_eq!(
        place(&mut slots, &file("3-c", "three", None)),
        Err(load_error(FileLoadError::NotConsecutive))
    );
    assert_eq!(
        place(&mut slots, &file("02-again", "again", None)),
        Err(load_error(FileLoadError::Duplicate { id: 2 }))
    );
    let zero = MigrationFile { id: 0, name: String::from("zero"), up: String::new(), down: None };
    assert_eq!(
        place(&mut slots, &zero),
        Err(load_error(FileLoadError::ZeroId { file_name: String::from("zero") }))
    );
    assert_eq!(ups(&slots), vec![None, Some(String::from("two"))]);
}

#[test]
fn check_slots_asks_for_every_place_to_be_taken() {
    assert_eq!(check_slots(&empty_slots(0)), Err(load_error(FileLoadError::NoMigrationFiles)));
    assert_eq!(check_slots(&empty_slots(2)), Err(load_error(FileLoadError::NoMigrationFiles)));
    let mut slots = empty_slots(2);
    place(&mut slots, &file("2-b", "two", None)).unwrap();
    assert_eq!(check_slots(&slots), Err(load_error(FileLoadError::NotConsecutive)));
    place(&mut slots, &file("1-a", "one", None)).unwrap();
    assert_eq!(check_slots(&slots), Ok(()));
}

#[test]
fn migrations_from_slots_keep_the_order_of_the_places() {
    let mut slots = empty_slots(2);
    place(&mut slots, &file("2-b", "CREATE TABLE u(b)", None)).unwrap();
    assert_eq!(
        Migrations::from_slots(slots.clone()).err(),
        Some(load_error(FileLoadError::NotConsecutive))
    );
    place(&mut slots, &file("1-a", "CREATE TABLE t(a)", None)).unwrap();
    let migrations = Migrations::from_slots(slots).ok().unwrap();
    assert_eq!(migrations.len(), 2);
    let mut conn = Connection::open_in_memory().unwrap();
    migrations.to_version(&mut conn, 1).unwrap();
    let n: i64 = conn.query_row("SELECT count(*) FROM t", [], |row| row.get(0)).unwrap();
    assert_eq!(n, 0);
    assert_eq!(
        Migrations::from_slots(Vec::new()).err(),
        Some(load_error(FileLoadError::NoMigrationFiles))
    );
}

#[test]
fn a_misplaced_number_is_found_before_a_later_name_is_read() {
    // The second entry cannot be placed; the name of what would be the third
    // has no number at all. Placing entry by entry stops at the second.
    let mut slots = empty_slots(3);
    assert_eq!(place(&mut slots, &file("1-a", "", None)), Ok(()));
    assert_eq!(
        place(&mut slots, &file("7-b", "", None)),
        Err(load_error(FileLoadError::NotConsecutive))
    );
    assert_eq!(
        MigrationFile::new(String::from("nameless"), String::new(), None).err(),
        Some(load_error(FileLoadError::MissingId { file_name: String::from("nameless") }))
    );
}

#[test]
fn from_directory_orders_by_number() {
    let slots = from_directory(vec![
        file("1-c", "one", None),
        file("3-a", "three", None),
        file("2-b", "two", None),
    ])
    .ok()
    .unwrap();
    let ups: Vec<String> =
        slots.iter().map(|slot| String::from(slot.as_ref().unwrap().up_sql())).collect();
    assert_eq!(ups, vec!["one", "two", "three"]);
}

#[test]
fn from_directory_of_nothing() {
    assert_eq!(
        from_directory(Vec::new()).err(),
        Some(load_error(FileLoadError::NoMigrationFiles))
    );
    assert_eq!(
        Migrations::from_directory(Vec::new()).err(),
        Some(load_error(FileLoadError::NoMigrationFiles))
    );
}

#[test]
fn from_directory_with_a_gap() {
    assert_eq!(
        from_directory(vec![file("1-a", "", None), file("3-c", "", None)]).err(),
        Some(load_error(FileLoadError::NotConsecutive))
    );
    assert_eq!(
        Migrations::from_directory(vec![file("2-a", "", None)]).err(),
        Some(load_error(FileLoadError::NotConsecutive))
    );
}

#[test]
fn from_directory_with_a_number_twice() {
    assert_eq!(
        from_directory(vec![file("1-a", "", None), file("01-b", "", None)]).err(),
        Some(load_error(FileLoadError::Duplicate { id: 1 }))
    );
    assert_eq!(
        Migrations::from_directory(vec![
            file("1-a", "", None),
            file("2-b", "", None),
            file("2-c", "", None)
        ])
        .err(),
        Some(load_error(FileLoadError::Duplicate { id: 2 }))
    );
}

#[test]
fn from_directory_reports_the_first_entry_that_cannot_be_placed() {
    assert_eq!(
        from_directory(vec![
            file("1-a", "", None),
            file("1-b", "", None),
            file("9-c", "", None)
        ])
        .err(),
        Some(load_error(FileLoadError::Duplicate { id: 1 }))
    );
    assert_eq!(
        from_directory(vec![
            file("9-a", "", None),
            file("1-b", "", None),
            file("1-c", "", None)
        ])
        .err(),
        Some(load_error(FileLoadError::NotConsecutive))
    );
}

#[test]
fn from_directory_with_a_number_of_zero() {
    let zero = MigrationFile {
        id: 0,
        name: String::from("zero"),
        up: String::new(),
        down: None,
    };
    assert_eq!(
        from_directory(vec![zero]).err(),
        Some(load_error(FileLoadError::ZeroId { file_name: String::from("zero") }))
    );
}

#[test]
fn migrations_from_a_directory_run() {
    let migrations = Migrations::from_directory(vec![
        file("0001-create", "CREATE TABLE t(a)", Some("DROP TABLE t")),
        file("0002-fill", "INSERT INTO t VALUES (1)", Some("DELETE FROM t")),
    ])
    .ok()
    .unwrap();
    assert_eq!(migrations.len(), 2);
    let mut conn = Connection::open_in_memory().unwrap();
    migrations.to_latest(&mut conn).unwrap();
    assert_eq!(migrations.current_version(&conn).unwrap(), SchemaVersion::Inside(2));
    let n: i64 = conn.query_row("SELECT count(*) FROM t", [], |row| row.get(0)).unwrap();
    assert_eq!(n, 1);
    migrations.to_version(&mut conn, 0).unwrap();
    assert_eq!(migrations.current_version(&conn).unwrap(), SchemaVersion::NoneSet);
}

#[test]
fn script_kind_goes_by_the_end_of_the_name() {
    assert_eq!(script_kind("up.sql"), ScriptKind::Up);
    assert_eq!(script_kind("down.sql"), ScriptKind::Down);
    assert_eq!(script_kind("0001.up.sql"), ScriptKind::Up);
    assert_eq!(script_kind("setup.sql"), ScriptKind::Up);
    assert_eq!(script_kind("teardown.sql"), ScriptKind::Down);
    assert_eq!(script_kind("p.sql"), ScriptKind::Other);
    assert_eq!(script_kind("up.sql.bak"), ScriptKind::Other);
    assert_eq!(script_kind(""), ScriptKind::Other);
    assert_eq!(script_kind("UP.SQL"), ScriptKind::Other);
}

