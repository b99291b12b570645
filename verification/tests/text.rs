use migrator::text::{chars_of, decimal, ends_with, find, padded_decimal, parse_usize};

#[test]
fn chars_of_keeps_every_character() {
    let chars = chars_of("a-ß→𝄞");
    assert_eq!(chars, vec!['a', '-', 'ß', '→', '𝄞']);
    assert_eq!(chars_of(""), Vec::<char>::new());
}

#[test]
fn find_gives_the_first_place() {
    assert_eq!(find(&chars_of("ab-cd-e"), '-'), 2);
    assert_eq!(find(&chars_of("-"), '-'), 0);
    assert_eq!(find(&chars_of("abc"), '-'), 3);
    assert_eq!(find(&chars_of(""), '-'), 0);
}

#[test]
fn ends_with_compares_the_tail() {
    assert!(ends_with(&chars_of("backup.sql"), &chars_of("up.sql")));
    assert!(ends_with(&chars_of("up.sql"), &chars_of("up.sql")));
    assert!(ends_with(&chars_of("anything"), &chars_of("")));
    assert!(!ends_with(&chars_of("p.sql"), &chars_of("up.sql")));
    assert!(!ends_with(&chars_of("up.sqk"), &chars_of("up.sql")));
}

#[test]
fn parse_usize_reads_decimal_numbers() {
    let chars = chars_of("0042x");
    assert_eq!(parse_usize(&chars, 4), Some(42));
    assert_eq!(parse_usize(&chars, 5), None);
    assert_eq!(parse_usize(&chars, 0), None);
    assert_eq!(parse_usize(&chars_of("+"), 1), None);
    assert_eq!(parse_usize(&chars_of("+17"), 3), Some(17));
    assert_eq!(parse_usize(&chars_of("-17"), 3), None);
    assert_eq!(parse_usize(&chars_of("18446744073709551615"), 20), Some(usize::MAX));
    assert_eq!(parse_usize(&chars_of("18446744073709551616"), 20), None);
    assert_eq!(parse_usize(&chars_of("99999999999999999999"), 20), None);
}

#[test]
fn decimal_writes_what_parse_reads() {
    for n in [0usize, 1, 9, 10, 11, 99, 100, 101, 4294967295, usize::MAX] {
        let text = decimal(n);
        assert_eq!(text, n.to_string());
        let chars = chars_of(&text);
        assert_eq!(parse_usize(&chars, chars.len()), Some(n));
    }
}

#[test]
fn padded_decimal_fills_with_zeros() {
    assert_eq!(padded_decimal(7, 4), "0007");
    assert_eq!(padded_decimal(0, 4), "0000");
    assert_eq!(padded_decimal(1234, 4), "1234");
    assert_eq!(padded_decimal(12345, 4), "12345");
    assert_eq!(padded_decimal(5, 0), "5");
    assert_eq!(padded_decimal(5, 1), "5");
}

