use risico::config_text::{config_entries, config_value, grid_count, ConfigLineError};

#[test]
fn grid_files_are_read_as_key_value_entries() {
    let text = "GRIDNROWS=2\nGRIDNCOLS=3f\n% note\n# another\n\n  MINLAT=39.5  \nMINLAT=40.0\nA=b=c\n";
    let entries = config_entries(text).unwrap();
    assert_eq!(entries.len(), 5);
    assert_eq!(entries[0], ("GRIDNROWS".to_owned(), "2".to_owned()));
    assert_eq!(entries[2], ("MINLAT".to_owned(), "39.5".to_owned()));
    assert_eq!(entries[4], ("A".to_owned(), "b".to_owned()));
    assert_eq!(config_value(&entries, "MINLAT").as_deref(), Some("39.5"));
    assert_eq!(config_value(&entries, "MAXLAT"), None);
    assert_eq!(grid_count(&config_value(&entries, "GRIDNCOLS").unwrap()), Some(3));
}

#[test]
fn a_data_line_without_equals_is_rejected() {
    assert_eq!(config_entries("A=1\n\nnot a pair\nB=2"), Err(ConfigLineError { line: 2 }));
}

#[test]
fn grid_counts_drop_their_f_suffix() {
    assert_eq!(grid_count("100f"), Some(100));
    assert_eq!(grid_count("+7"), Some(7));
    assert_eq!(grid_count("f1f2f"), Some(12));
    assert_eq!(grid_count(""), None);
    assert_eq!(grid_count("+"), None);
    assert_eq!(grid_count("1.5"), None);
    assert_eq!(grid_count("-3"), None);
    assert_eq!(grid_count("99999999999999999999999"), None);
    assert_eq!(grid_count("18446744073709551615"), Some(usize::MAX));
}
