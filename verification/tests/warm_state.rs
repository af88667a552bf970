use risico::scratch::select_cells;
use chrono::{TimeZone, Utc};
use risico::config::{MissingWarmStatePolicy, StaticDataConfig, WarmStateConfig};
use risico::ragged::{concat_histories, history_index, history_lengths, history_ranges, split_histories, RaggedIndexError};
use risico::snapshots::{legacy_snapshots, select_snapshots, snapshot_candidates, strip_prefix, DiscoveryError};
use risico::warm_state::{
    arguments_from_config, check_risico_variables, sample_cells, check_snapshot_header, fwi_history_lengths, fwi_history_runs,
    conversions_succeeded, is_legacy_version, tally_conversions, validate_cell_count, ConversionOutcome, ConversionTally, CellCountMismatch, ConversionConfigError, FwiStateError, HistoryShape, SnapshotError, SnapshotHeader,
    SnapshotModel,
};

fn header(model: &str, version: &str, grid: &str, layout: Option<&str>, cells: Vec<u32>) -> SnapshotHeader {
    SnapshotHeader {
        schema_version: 1,
        model: model.to_owned(),
        model_version: version.to_owned(),
        grid_hash: grid.to_owned(),
        history_layout: layout.map(str::to_owned),
        cell_indexes: cells,
    }
}

#[test]
fn mismatched_grid_is_not_loaded() {
    let stored = header("RISICO", "v2023", "grid-1", None, vec![3]);
    assert_eq!(
        check_snapshot_header(&stored, SnapshotModel::Risico, "v2023", "grid-2", &[3]),
        Err(SnapshotError::GridMismatch)
    );
    assert_eq!(check_snapshot_header(&stored, SnapshotModel::Risico, "v2023", "grid-1", &[3]), Ok(vec![0]));
}

#[test]
fn a_snapshot_is_sampled_onto_the_configured_cells() {
    // Written for active cells 3 and 9; the domain now has the single cell 3.
    let stored = header("RISICO", "v2023", "grid-1", None, vec![3, 9]);
    let positions = check_snapshot_header(&stored, SnapshotModel::Risico, "v2023", "grid-1", &[3]).unwrap();
    assert_eq!(positions, vec![0]);
    let records = [30.5f32, 90.5];
    assert_eq!(select_cells(&records, &positions), vec![30.5]);
    assert_eq!(check_snapshot_header(&stored, SnapshotModel::Risico, "v2023", "grid-1", &[9, 3]), Ok(vec![1, 0]));
    assert_eq!(check_snapshot_header(&stored, SnapshotModel::Risico, "v2023", "grid-1", &[]), Ok(vec![]));
    // A configured cell the snapshot has no record for makes it invalid.
    assert_eq!(
        check_snapshot_header(&stored, SnapshotModel::Risico, "v2023", "grid-1", &[3, 4, 5]),
        Err(SnapshotError::CellOutsideSnapshot(4))
    );
    assert_eq!(
        check_snapshot_header(&stored, SnapshotModel::Risico, "v2023", "grid-1", &[9, 4]),
        Err(SnapshotError::CellOutsideSnapshot(4))
    );
}

#[test]
fn cells_are_sampled_in_and_out_of_grid_order() {
    assert_eq!(sample_cells(&[1, 4, 6, 8], &[4, 8]), Ok(vec![1, 3]));
    assert_eq!(sample_cells(&[8, 1, 6, 4], &[4, 8]), Ok(vec![3, 0]));
    assert_eq!(sample_cells(&[4, 4, 2], &[4, 2]), Ok(vec![0, 2]));
    assert_eq!(sample_cells(&[1, 4, 6, 8], &[4, 7, 8]), Err(SnapshotError::CellOutsideSnapshot(7)));
    assert_eq!(sample_cells(&[], &[0]), Err(SnapshotError::CellOutsideSnapshot(0)));
}

#[test]
fn each_header_check_has_its_error() {
    let mut stored = header("FWI", "legacy", "g", Some("contiguous_ragged_v1"), vec![2, 7]);
    assert_eq!(check_snapshot_header(&stored, SnapshotModel::Fwi, "legacy", "g", &[2, 7]), Ok(vec![0, 1]));
    assert_eq!(
        check_snapshot_header(&stored, SnapshotModel::Risico, "legacy", "g", &[2, 7]),
        Err(SnapshotError::WrongModel)
    );
    assert_eq!(
        check_snapshot_header(&stored, SnapshotModel::Fwi, "v2023", "g", &[2, 7]),
        Err(SnapshotError::VersionMismatch)
    );
    assert_eq!(
        check_snapshot_header(&stored, SnapshotModel::Fwi, "legacy", "g", &[2, 8]),
        Err(SnapshotError::CellOutsideSnapshot(8))
    );
    stored.history_layout = Some("grids".to_owned());
    assert_eq!(
        check_snapshot_header(&stored, SnapshotModel::Fwi, "legacy", "g", &[2, 7]),
        Err(SnapshotError::UnsupportedHistoryLayout)
    );
    stored.history_layout = None;
    assert_eq!(
        check_snapshot_header(&stored, SnapshotModel::Fwi, "legacy", "g", &[2, 7]),
        Err(SnapshotError::MissingHistoryLayout)
    );
    stored.schema_version = 2;
    assert_eq!(
        check_snapshot_header(&stored, SnapshotModel::Fwi, "legacy", "g", &[2, 7]),
        Err(SnapshotError::UnsupportedSchema(2))
    );
}

#[test]
fn risico_variables_must_cover_every_cell() {
    assert_eq!(check_risico_variables(&[2; 9], 2), Ok(()));
    let mut lengths = [2usize; 9];
    lengths[4] = 1;
    lengths[6] = 0;
    assert_eq!(check_risico_variables(&lengths, 2), Err(SnapshotError::VariableLength(4)));
}

#[test]
fn fwi_ragged_history_roundtrip() {
    let time = 1_700_000_000i64;
    let previous = time - 3600;
    let dates = vec![vec![previous, time], vec![time]];
    let ffmc = vec![vec![80.0f32, 81.0], vec![75.0]];
    let rain = vec![vec![0.0f32, 1.25], vec![2.0]];

    let lengths = history_lengths(&dates);
    let (starts, counts) = history_index(&lengths);
    assert_eq!(starts, vec![0, 2]);
    assert_eq!(counts, vec![2, 1]);
    let times = concat_histories(&dates);
    let ffmc_values = concat_histories(&ffmc);
    let rain_values = concat_histories(&rain);

    let ranges = fwi_history_runs(&starts, &counts, &times, &[ffmc_values.len(), rain_values.len()], 2).unwrap();
    assert_eq!(split_histories(&times, &ranges)[0], vec![previous, time]);
    assert_eq!(split_histories(&ffmc_values, &ranges)[0], vec![80.0, 81.0]);
    assert_eq!(split_histories(&rain_values, &ranges)[1], vec![2.0]);
}

#[test]
fn legacy_fwi_scalar_state_roundtrip_matches_deployed_warm_state() {
    // A deployed legacy cell: three dates of rain but one value per code.
    let shape = HistoryShape { dates: 3, ffmc: 1, dmc: 1, dc: 1, rain: 3 };
    assert!(is_legacy_version("legacy"));
    assert_eq!(fwi_history_lengths(&vec![shape], 1, true), Ok(vec![1]));
    assert_eq!(fwi_history_lengths(&vec![shape], 1, false), Err(FwiStateError::InconsistentHistory(0)));
    let empty = HistoryShape { dates: 2, ffmc: 0, dmc: 0, dc: 0, rain: 2 };
    assert_eq!(fwi_history_lengths(&vec![shape, empty], 2, true), Ok(vec![1, 0]));
    assert_eq!(fwi_history_lengths(&vec![shape], 2, true), Err(FwiStateError::CellCountMismatch));
    assert!(!is_legacy_version("v2023"));
}

#[test]
fn unreadable_ragged_indexes_are_rejected() {
    let times = vec![0i64, 60, 120];
    assert_eq!(history_ranges(&vec![0], &vec![1, 1], &times, 2), Err(RaggedIndexError::IndexLengths));
    assert_eq!(history_ranges(&vec![0, 2], &vec![2, 2], &times, 2), Err(RaggedIndexError::RangeOutside(1)));
    assert_eq!(
        history_ranges(&vec![0, 1], &vec![1, 1], &vec![0, i64::MAX], 2),
        Err(RaggedIndexError::InvalidTime(1, i64::MAX))
    );
    assert_eq!(history_ranges(&vec![0, 1], &vec![1, 2], &times, 2), Ok(vec![(0, 1), (1, 3)]));
    assert_eq!(
        fwi_history_runs(&vec![0], &vec![1], &times, &[3, 2], 1),
        Err(SnapshotError::HistoryLengths)
    );
}

#[test]
fn invalid_newest_snapshot_falls_back_to_older_valid_snapshot() {
    let older = 1_700_000_000i64;
    let newer = older + 3600;
    let run = newer + 3600;
    // Listed in directory order: the newer snapshot first.
    let order = snapshot_candidates(&vec![Some(newer), Some(older)], run, 24);
    assert_eq!(order, vec![(newer, 0), (older, 1)]);
    // The newer one carries the wrong grid, so the older one seeds the run.
    let headers = [
        header("RISICO", "v2023", "wrong-grid", None, vec![3]),
        header("RISICO", "v2023", "grid-1", None, vec![3]),
    ];
    let chosen = order
        .iter()
        .find(|(_, k)| check_snapshot_header(&headers[*k], SnapshotModel::Risico, "v2023", "grid-1", &[3]).is_ok());
    assert_eq!(chosen, Some(&(older, 1)));
}

#[test]
fn snapshots_outside_the_window_are_not_candidates() {
    let run = 1_700_000_000i64;
    let times = vec![Some(run - 25 * 3600), Some(run + 60), None, Some(run - 3600), Some(run), Some(run - 3600)];
    assert_eq!(snapshot_candidates(&times, run, 24), vec![(run, 4), (run - 3600, 3), (run - 3600, 5)]);
    assert_eq!(snapshot_candidates(&times, run, 0), vec![(run, 4)]);
}

fn names(list: &[&str]) -> Vec<String> {
    list.iter().map(|name| name.to_string()).collect()
}

#[test]
fn discovers_prefixed_snapshots_in_time_order() {
    let listing = names(&["state0_202607200000", "state0_202607190000", "unrelated"]);
    let snapshots = legacy_snapshots(&listing, "state0_").expect("snapshots should be discovered");
    assert_eq!(snapshots.len(), 2);
    assert_eq!(snapshots[0].0, Utc.with_ymd_and_hms(2026, 7, 19, 0, 0, 0).unwrap().timestamp());
    assert_eq!(snapshots[0].1, 1);
    assert_eq!(select_snapshots(snapshots.clone(), true), vec![snapshots[1]]);
    assert_eq!(select_snapshots(snapshots.clone(), false), snapshots);
}

#[test]
fn discovers_bare_timestamp_files_in_a_directory() {
    let snapshots = legacy_snapshots(&names(&["202607200000"]), "").expect("snapshot should be discovered");
    assert_eq!(snapshots.len(), 1);
    assert_eq!(legacy_snapshots(&names(&["notes.txt"]), ""), Err(DiscoveryError::NoSnapshots));
    assert_eq!(strip_prefix("state0_2026", "state0_"), Some("2026"));
    assert_eq!(strip_prefix("state", "state0_"), None);
}

#[test]
fn conversions_take_their_paths_from_the_model_configuration() {
    let static_data = StaticDataConfig::GeoTiff {
        domain_mask: "/static/domain_mask.tif".to_owned(),
        slope: None,
        aspect: None,
        vegetation_id: None,
        vegetation_catalog: None,
        ppf_summer: None,
        ppf_winter: None,
    };
    let warm_state = WarmStateConfig::NetCdf {
        directory: "/state-nc".to_owned(),
        max_age_hours: Some(120),
        on_missing: MissingWarmStatePolicy::Error,
        legacy_fallback: Some("/STATE0/state0RISICO_".to_owned()),
    };
    let args = arguments_from_config(Some(static_data.clone()), Some(warm_state), "v2025".to_owned(), true, false)
        .unwrap();
    assert_eq!(args.domain_mask, "/static/domain_mask.tif");
    assert_eq!(args.output, "/state-nc");
    assert_eq!(args.legacy_prefix, "/STATE0/state0RISICO_");
    assert_eq!(args.model_version, "v2025");
    assert!(args.latest_only && !args.overwrite);
    assert_eq!(
        arguments_from_config(None, None, String::new(), false, false).unwrap_err(),
        ConversionConfigError::MissingStaticData
    );
    assert_eq!(
        arguments_from_config(Some(static_data.clone()), None, String::new(), false, false).unwrap_err(),
        ConversionConfigError::MissingWarmState
    );
    let without_fallback = WarmStateConfig::NetCdf {
        directory: "/state-nc".to_owned(),
        max_age_hours: None,
        on_missing: MissingWarmStatePolicy::Defaults,
        legacy_fallback: None,
    };
    assert_eq!(
        arguments_from_config(Some(static_data), Some(without_fallback), String::new(), false, false).unwrap_err(),
        ConversionConfigError::MissingLegacyFallback
    );
}

#[test]
fn warm_state_cell_count_must_match_the_domain() {
    assert_eq!(validate_cell_count(12, 12), Ok(()));
    assert_eq!(
        validate_cell_count(11, 12),
        Err(CellCountMismatch { state_cells: 11, active_cells: 12 })
    );
}

#[test]
fn a_failed_conversion_is_counted_without_stopping_the_others() {
    let outcomes = vec![ConversionOutcome::Written, ConversionOutcome::Failed, ConversionOutcome::Skipped, ConversionOutcome::Written];
    assert_eq!(tally_conversions(&outcomes), ConversionTally { written: 2, skipped: 1, failed: 1 });
    assert!(!conversions_succeeded(&outcomes));
    assert!(conversions_succeeded(&vec![ConversionOutcome::Written, ConversionOutcome::Skipped]));
    assert!(conversions_succeeded(&vec![]));
    assert_eq!(tally_conversions(&vec![]), ConversionTally { written: 0, skipped: 0, failed: 0 });
}
