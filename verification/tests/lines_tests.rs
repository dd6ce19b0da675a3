use owntracks_exporter::aggregate::parse_rec_lines;
use owntracks_exporter::lines::{classify_line, LineClass};

#[test]
fn point_line_is_classified() {
    assert_eq!(classify_line("2024-01-01T00:00:00 * lat=1 lon=2"), LineClass::Point);
}

#[test]
fn lwt_line_is_classified() {
    assert_eq!(classify_line("2024-01-01T00:00:02 lwt"), LineClass::Lwt);
}

#[test]
fn one_token_line_is_ignored() {
    assert_eq!(classify_line("garbage"), LineClass::Ignored);
}

#[test]
fn empty_line_is_ignored() {
    assert_eq!(classify_line(""), LineClass::Ignored);
}

#[test]
fn whitespace_only_line_is_ignored() {
    assert_eq!(classify_line(" \t  "), LineClass::Ignored);
}

#[test]
fn other_second_field_is_ignored() {
    assert_eq!(classify_line("a b c"), LineClass::Ignored);
    assert_eq!(classify_line("ts ** x"), LineClass::Ignored);
    assert_eq!(classify_line("ts lwtx"), LineClass::Ignored);
    assert_eq!(classify_line("ts lw"), LineClass::Ignored);
}

#[test]
fn star_in_first_position_is_not_a_point() {
    assert_eq!(classify_line("* x"), LineClass::Ignored);
}

#[test]
fn leading_and_repeated_whitespace_is_skipped() {
    assert_eq!(classify_line("   ts \t\t *   rest"), LineClass::Point);
    assert_eq!(classify_line("\tts  lwt"), LineClass::Lwt);
}

#[test]
fn unicode_whitespace_splits_fields() {
    assert_eq!(classify_line("ts\u{3000}*"), LineClass::Point);
    assert_eq!(classify_line("ts\u{2028}lwt"), LineClass::Lwt);
    assert_eq!(classify_line("caf\u{e9}\u{a0}* lat"), LineClass::Point);
}

#[test]
fn second_field_at_line_end_counts() {
    assert_eq!(classify_line("ts *"), LineClass::Point);
    assert_eq!(classify_line("ts lwt"), LineClass::Lwt);
}

#[test]
fn classification_of_a_small_file() {
    let lines = vec![
        "2024-01-01T00:00:00 * lat=1 lon=2".to_string(),
        "2024-01-01T00:00:01 * lat=1 lon=2".to_string(),
        "2024-01-01T00:00:02 lwt".to_string(),
        "garbage line with one token".to_string(),
    ];
    let stats = parse_rec_lines(&lines);
    assert_eq!(stats.points_count_total, 2);
    assert_eq!(stats.lwts_count_total, 1);
}

#[test]
fn empty_file_counts_nothing() {
    let stats = parse_rec_lines(&Vec::new());
    assert_eq!(stats.points_count_total, 0);
    assert_eq!(stats.lwts_count_total, 0);
}
