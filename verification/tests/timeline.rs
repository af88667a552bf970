use chrono::{TimeZone, Utc};
use risico::timeline::{
    check_write_warm_state, minutes_stamp, parse_minutes_stamp, pick_warm_state, should_write_output,
    snapshot_file_name, warm_state_file_name, warm_state_search_time, warm_state_search_times,
};

fn at(y: i32, mo: u32, d: u32, h: u32, mi: u32) -> i64 {
    Utc.with_ymd_and_hms(y, mo, d, h, mi, 0).single().expect("valid test date").timestamp()
}

#[test]
fn netcdf_cutoff_uses_the_same_lag_as_legacy_lookup() {
    let run_date = at(2024, 1, 2, 0, 0);
    assert_eq!(warm_state_search_time(run_date, 0, 1), at(2024, 1, 1, 0, 0));
}

#[test]
fn the_search_moves_back_by_days_and_forward_by_hours() {
    let run_date = at(2024, 3, 10, 12, 0);
    assert_eq!(warm_state_search_time(run_date, 6, 2), at(2024, 3, 8, 18, 0));
    assert_eq!(
        warm_state_search_times(run_date, 0, 1),
        vec![at(2024, 3, 9, 12, 0), at(2024, 3, 8, 12, 0), at(2024, 3, 7, 12, 0), at(2024, 3, 6, 12, 0)]
    );
}

#[test]
fn the_first_warm_state_found_is_loaded_and_otherwise_the_last_time_tried() {
    let times = vec![40, 30, 20, 10];
    assert_eq!(pick_warm_state(&times, &vec![false, true, true, false]), (Some(1), 30));
    assert_eq!(pick_warm_state(&times, &vec![false, false, false, false]), (None, 10));
}

#[test]
fn warm_state_is_written_at_its_hour() {
    assert!(check_write_warm_state(at(2024, 5, 1, 0, 0), 0));
    assert!(!check_write_warm_state(at(2024, 5, 1, 1, 0), 0));
    assert!(check_write_warm_state(at(2024, 5, 1, 12, 59), 12));
    // Times before 1970 still have their hour of the day.
    assert!(check_write_warm_state(at(1969, 12, 31, 23, 30), 23));
}

#[test]
fn outputs_are_written_every_resolution_hours() {
    let run = at(2024, 5, 1, 0, 0);
    assert!(should_write_output(run, run, 3));
    assert!(!should_write_output(at(2024, 5, 1, 1, 0), run, 3));
    assert!(should_write_output(at(2024, 5, 1, 3, 30), run, 3));
    assert!(should_write_output(at(2024, 5, 2, 0, 0), run, 24));
    // Whole hours are counted toward zero before the run as well.
    assert!(should_write_output(at(2024, 4, 30, 21, 0), run, 3));
    assert!(!should_write_output(at(2024, 4, 30, 22, 0), run, 3));
}

#[test]
fn legacy_and_snapshot_names_carry_the_time() {
    let time = at(2026, 7, 20, 0, 0);
    assert_eq!(minutes_stamp(time).as_deref(), Some("202607200000"));
    assert_eq!(parse_minutes_stamp("202607200000"), Some(time));
    assert_eq!(parse_minutes_stamp("2026-07-20"), None);
    assert_eq!(
        warm_state_file_name("/state/state0RISICO_", time).as_deref(),
        Some("/state/state0RISICO_202607200000")
    );
    assert_eq!(snapshot_file_name("RISICO", 1_700_000_000).as_deref(), Some("RISICO_20231114T221320Z.nc"));
    assert_eq!(minutes_stamp(i64::MAX), None);
}

#[test]
fn a_written_stamp_reads_back_as_the_start_of_its_minute() {
    for time in [
        1_784_505_600i64 + 59,
        0,
        -1,
        -62_167_219_200,
        253_402_300_799,
        1_700_000_123,
    ] {
        let stamp = minutes_stamp(time).expect("years 0 to 9999 are written");
        assert_eq!(stamp.len(), 12);
        assert_eq!(parse_minutes_stamp(&stamp), Some(time - time.rem_euclid(60)), "stamp {stamp}");
    }
}
