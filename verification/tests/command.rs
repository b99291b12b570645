use migrator::command::{
    folder_name, last_sequence_number, next_sequence_number, placeholder, placeholders,
    sequence_number,
};

#[test]
fn sequence_number_of_a_directory() {
    assert_eq!(sequence_number("0001-create"), Some(1));
    assert_eq!(sequence_number("12-a-b"), Some(12));
    assert_eq!(sequence_number("4294967295-last"), Some(u32::MAX));
    assert_eq!(sequence_number("4294967296-beyond"), None);
    assert_eq!(sequence_number("0001_create"), None);
    assert_eq!(sequence_number("x-create"), None);
    assert_eq!(sequence_number("-create"), None);
    assert_eq!(sequence_number("0-create"), Some(0));
}

#[test]
fn the_next_sequence_number_follows_the_largest() {
    let names = |v: &[&str]| v.iter().map(|s| String::from(*s)).collect::<Vec<String>>();
    assert_eq!(last_sequence_number(&names(&[])), 0);
    assert_eq!(next_sequence_number(&names(&[])), Some(1));
    assert_eq!(last_sequence_number(&names(&["0001-a", "0003-c", "0002-b"])), 3);
    assert_eq!(next_sequence_number(&names(&["0001-a", "0003-c", "0002-b"])), Some(4));
    assert_eq!(next_sequence_number(&names(&["notes", "x-y", "0007-g"])), Some(8));
    assert_eq!(next_sequence_number(&names(&["4294967295-last"])), None);
}

#[test]
fn folder_name_of_a_new_migration() {
    assert_eq!(folder_name(1, "create table"), "0001-create_table");
    assert_eq!(folder_name(12, "add-column"), "0012-add_column");
    assert_eq!(folder_name(3, "trailing_ -"), "0003-trailing");
    assert_eq!(folder_name(12345, "big"), "12345-big");
    assert_eq!(folder_name(2, "___"), "0002-");
    assert_eq!(folder_name(2, ""), "0002-");
    assert_eq!(folder_name(2, " lead"), "0002-_lead");
    for name in ["create table", "a-b c_", "x__ ", "", "-", "é à"] {
        let expected = format!("{:04}-{}", 7, name.replace(['-', ' '], "_").trim_end_matches('_'));
        assert_eq!(folder_name(7, name), expected);
    }
}

#[test]
fn placeholder_of_a_new_script() {
    assert_eq!(
        placeholder("Up", "0001-create_table", "2024-02-03 04:05:06"),
        "-- Up migration `0001-create_table` generated at 2024-02-03 04:05:06."
    );
    assert_eq!(placeholder("", "", ""), "--  migration `` generated at .");
}

#[test]
fn placeholders_carry_one_date() {
    let (up, down) = placeholders("0001-create_table");
    let up_head = "-- Up migration `0001-create_table` generated at ";
    let down_head = "-- Down migration `0001-create_table` generated at ";
    assert!(up.starts_with(up_head));
    assert!(down.starts_with(down_head));
    assert!(up.ends_with('.'));
    let date = &up[up_head.len()..up.len() - 1];
    assert_eq!(&down[down_head.len()..down.len() - 1], date);
    assert_eq!(up, placeholder("Up", "0001-create_table", date));
    assert_eq!(down, placeholder("Down", "0001-create_table", date));
    let shape: String =
        date.chars().map(|c| if c.is_ascii_digit() { '0' } else { c }).collect();
    assert_eq!(shape, "0000-00-00 00:00:00");
}
