use risico::tokens::{skipped_line, split_on, split_whitespace, text_rows};

#[test]
fn words_are_separated_by_any_white_space() {
    assert_eq!(split_whitespace("  1 2\t3  \u{3000}4 "), vec!["1", "2", "3", "4"]);
    assert!(split_whitespace(" \t ").is_empty());
    assert_eq!(split_whitespace("one"), vec!["one"]);
}

#[test]
fn pieces_keep_empty_fields() {
    assert_eq!(split_on("80,81", ','), vec!["80", "81"]);
    assert_eq!(split_on("", ','), vec![""]);
    assert_eq!(split_on("a,,b,", ','), vec!["a", "", "b", ""]);
}

#[test]
fn blank_and_comment_lines_carry_no_data() {
    assert!(skipped_line("   ", true));
    assert!(skipped_line("  # header", false));
    assert!(skipped_line("% matlab comment", true));
    assert!(!skipped_line("% matlab comment", false));
    assert!(!skipped_line("1 2 3", true));
}

#[test]
fn rows_keep_their_line_numbers() {
    let rows = text_rows("1 2 3 4 5 6 7\n\n# note\n8 9 10 11 12 13 14 15 16\n", true);
    assert_eq!(rows.len(), 2);
    assert_eq!(rows[0].line, 0);
    assert_eq!(rows[0].columns.len(), 7);
    assert_eq!(rows[1].line, 3);
    assert_eq!(rows[1].columns.len(), 9);
    assert_eq!(rows[1].columns[7], "15");
}

#[test]
fn fwi_history_rows_split_into_comma_lists() {
    let rows = text_rows("202607190000,202607200000 80,81 6,7 15,16 0,1\n", true);
    assert_eq!(rows.len(), 1);
    assert_eq!(rows[0].columns.len(), 5);
    assert_eq!(split_on(&rows[0].columns[0], ','), vec!["202607190000", "202607200000"]);
    assert_eq!(split_on(&rows[0].columns[4], ','), vec!["0", "1"]);
}
