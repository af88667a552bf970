use risico::catalog::InputCatalog;
use chrono::{TimeZone, Utc};
use risico::inputs::{parse_line, read_input_line, InputLine, InputNameError};
use risico::variables::InputVariableName;

#[test]
fn parse_line_fails_for_malformed_line() {
    let line = "test/path/to/foo.txt";
    let result = parse_line(&line);
    assert!(result.is_err());
}

#[test]
fn parse_line_ok() {
    let line = "test/path/to/202205060000_grid_variable.txt";
    let result = parse_line(&line);
    assert!(result.is_ok());
    let (grid, variable, date) = result.expect("should unwrap");
    assert_eq!(grid, "grid");
    assert_eq!(variable, "variable");
    assert_eq!(date, Utc.with_ymd_and_hms(2022, 5, 6, 0, 0, 0).unwrap().timestamp());
}

#[test]
fn each_malformed_name_has_its_error() {
    assert_eq!(parse_line("a/b.c.zbin"), Err(InputNameError::Extension));
    assert_eq!(parse_line("a/202205060000_grid.zbin"), Err(InputNameError::Parts));
    assert_eq!(parse_line("a/20220506_grid_T.zbin"), Err(InputNameError::Date));
}

#[test]
fn input_list_lines_become_input_files() {
    match read_input_line("/data/202205060300_ITALY_T.zbin") {
        InputLine::File(file) => {
            assert_eq!(file.time, Utc.with_ymd_and_hms(2022, 5, 6, 3, 0, 0).unwrap().timestamp());
            assert_eq!(file.grid_name, "ITALY");
            assert_eq!(file.variable, InputVariableName::T);
            assert_eq!(file.path, "/data/202205060300_ITALY_T.zbin");
        }
        other => panic!("unexpected {other:?}"),
    }
    assert!(matches!(read_input_line("/data/202205060300_ITALY_T.txt"), InputLine::Ignored));
    assert!(matches!(
        read_input_line("/data/202205060300_ITALY_XYZ.zbin"),
        InputLine::Invalid(InputNameError::Variable)
    ));
    assert!(matches!(read_input_line("/data/bad.zbin"), InputLine::Invalid(InputNameError::Parts)));
}

#[test]
fn input_catalog_files_each_time_and_variable() {
    let stamp = |h: u32| Utc.with_ymd_and_hms(2022, 5, 6, h, 0, 0).unwrap().timestamp();
    let mut catalog = InputCatalog::new();
    assert!(matches!(catalog.add_line("/d/202205060300_ITALY_T.zbin"), InputLine::File(_)));
    assert!(matches!(catalog.add_line("/d/202205060000_ITALY_H.zbin"), InputLine::File(_)));
    assert!(matches!(catalog.add_line("/e/202205060300_EUROPE_T.zbin"), InputLine::File(_)));
    assert!(matches!(
        catalog.add_line("/d/202205060600_ITALY_XYZ.zbin"),
        InputLine::Invalid(InputNameError::Variable)
    ));
    assert!(matches!(catalog.add_line("/d/202205060900_ITALY_T.txt"), InputLine::Ignored));
    assert!(matches!(catalog.add_line("/d/bad.zbin"), InputLine::Invalid(InputNameError::Parts)));

    assert_eq!(catalog.timeline(), vec![stamp(0), stamp(3), stamp(6)]);
    let later = catalog.file_for(stamp(3), InputVariableName::T).expect("a temperature file at 03:00");
    assert_eq!(later.path, "/e/202205060300_EUROPE_T.zbin");
    assert_eq!(later.grid_name, "EUROPE");
    assert_eq!(catalog.file_for(stamp(0), InputVariableName::H).map(|f| f.path.as_str()), Some("/d/202205060000_ITALY_H.zbin"));
    assert!(catalog.file_for(stamp(0), InputVariableName::T).is_none());
    assert!(catalog.file_for(stamp(6), InputVariableName::T).is_none());
    assert!(catalog.file_for(stamp(9), InputVariableName::T).is_none());
}
