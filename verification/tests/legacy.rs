use chrono::{TimeZone, Utc};
use risico::legacy::{
    vegetation_row, VegetationRowError, canonical_index, fwi_histories_consistent, fwi_row_fields, risico_row_fields, risico_row_has_ndwi, rows_present, static_row_columns,
    LegacyRowError, PlacementError,
};
use risico::tokens::{text_rows, TextRow};

#[test]
fn reads_risico_old_and_current_layouts() {
    const NODATAVAL: f32 = -9999.0;
    let rows = text_rows("1 2 3 4 5 6 7\n8 9 10 11 12 13 14 15 16\n", true);
    assert_eq!(rows.len(), 2);
    assert_eq!(risico_row_has_ndwi(&rows[0]), Ok(false));
    assert_eq!(risico_row_has_ndwi(&rows[1]), Ok(true));
    // The numbers are read as a warm-state record is: NDWI, when absent,
    // is no data and its time zero.
    let ndwi = |row: &TextRow| -> (f32, f32) {
        let fields = risico_row_fields(row).expect("legacy RISICO state should parse");
        match fields.ndwi {
            Some((value, time)) => (value.parse().unwrap(), time.parse().unwrap()),
            None => (NODATAVAL, 0.0),
        }
    };
    assert_eq!(ndwi(&rows[0]), (NODATAVAL, 0.0));
    assert_eq!(ndwi(&rows[1]), (15.0, 16.0));
    let current = risico_row_fields(&rows[1]).unwrap();
    assert_eq!(current.dffm, "8");
    assert_eq!(current.ndvi_time, "14");
    let old = risico_row_fields(&rows[0]).unwrap();
    assert_eq!(old.dffm, "1");
    assert_eq!(old.msi_ttl, "5");
    assert_eq!(old.ndvi_time, "7");
}

#[test]
fn rejects_short_risico_rows_without_panicking() {
    let rows = text_rows("1 2 3\n", true);
    assert_eq!(risico_row_has_ndwi(&rows[0]), Err(LegacyRowError::RisicoColumns { line: 0, found: 3 }));
    let no_cells = text_rows("# header\n\n", true);
    assert_eq!(rows_present(&no_cells), Err(LegacyRowError::NoRows));
    assert_eq!(rows_present(&rows), Ok(()));
}

#[test]
fn reads_deployed_fwi_scalar_order() {
    let time = Utc.with_ymd_and_hms(2026, 7, 20, 0, 0, 0).unwrap().timestamp();
    let rows = text_rows("1 80 6 15\n", true);
    let fields = fwi_row_fields(&rows[0], time).expect("deployed FWI state should parse");
    assert_eq!(fields.dates, vec![time]);
    assert_eq!(fields.rain, vec!["1"]);
    assert_eq!(fields.ffmc, vec!["80"]);
}

#[test]
fn reads_fwi_history_layout() {
    let time = Utc.with_ymd_and_hms(2026, 7, 20, 0, 0, 0).unwrap().timestamp();
    let rows = text_rows("202607190000,202607200000 80,81 6,7 15,16 0,1\n", true);
    let fields = fwi_row_fields(&rows[0], time).expect("FWI history state should parse");
    assert_eq!(fields.dates.len(), 2);
    assert_eq!(fields.dates[1], time);
    assert_eq!(fields.rain, vec!["0", "1"]);
    assert!(fwi_histories_consistent(2, 2, 2, 2, 2));
    assert!(!fwi_histories_consistent(2, 2, 1, 2, 2));
    assert!(!fwi_histories_consistent(0, 0, 0, 0, 0));
}

#[test]
fn malformed_fwi_rows_are_rejected() {
    let rows = text_rows("1 2 3\nbad 80 6 15 0\n", true);
    assert_eq!(fwi_row_fields(&rows[0], 0).unwrap_err(), LegacyRowError::FwiColumns { line: 0, found: 3 });
    assert_eq!(fwi_row_fields(&rows[1], 0).unwrap_err(), LegacyRowError::FwiDate { line: 1 });
}

#[test]
fn static_rows_need_their_leading_columns() {
    let rows = text_rows("# lon lat slope aspect vegetation\n10 41 5 90 1\n12 41\n", true);
    assert_eq!(static_row_columns(&rows[0], 5), Ok(()));
    assert_eq!(static_row_columns(&rows[1], 5), Err(LegacyRowError::StaticColumns { line: 2, found: 2 }));
    assert_eq!(static_row_columns(&rows[1], 2), Ok(()));
}

#[test]
fn converts_north_to_south_cells_without_changing_active_order() {
    // A 3 by 2 grid: (col, row) of three cells in canonical order.
    let first = canonical_index(0, 0, true, 3, 2, 0, None).unwrap();
    let second = canonical_index(2, 0, true, 3, 2, 1, Some(first)).unwrap();
    let third = canonical_index(1, 1, true, 3, 2, 2, Some(second)).unwrap();
    assert_eq!((first, second, third), (0, 2, 4));
    assert_eq!(canonical_index(1, 0, true, 3, 2, 3, Some(third)), Err(PlacementError::OutOfOrder { row: 3 }));
    assert_eq!(canonical_index(2, 0, true, 3, 2, 1, Some(2)), Err(PlacementError::OutOfOrder { row: 1 }));
    assert_eq!(canonical_index(3, 0, true, 3, 2, 0, None), Err(PlacementError::NotAligned { row: 0 }));
    assert_eq!(canonical_index(-1, 0, true, 3, 2, 0, None), Err(PlacementError::NotAligned { row: 0 }));
    assert_eq!(canonical_index(0, 0, false, 3, 2, 0, None), Err(PlacementError::NotAligned { row: 0 }));
}

#[test]
fn vegetation_rows_carry_their_flag_and_name() {
    assert!(vegetation_row(0, "# id d0 d1 hhv umid v0 T0 sat name").unwrap().is_none());
    assert!(vegetation_row(3, "").unwrap().is_none());
    let row = vegetation_row(1, "11 1.5 2.0 18000 20 140 30 1 grass").unwrap().unwrap();
    assert_eq!(row.id, "11");
    assert_eq!(row.numbers, vec!["1.5", "2.0", "18000", "20", "140", "30", "1"]);
    assert!(!row.use_ndvi);
    assert_eq!(row.name, "grass");
    let row = vegetation_row(2, "12 1 2 3 4 5 6 7 true broad leaves").unwrap().unwrap();
    assert!(row.use_ndvi);
    assert_eq!(row.name, "leaves");
    assert_eq!(vegetation_row(4, "13 1 2 3").unwrap_err(), VegetationRowError::TooFewColumns { line: 4 });
    assert_eq!(
        vegetation_row(5, "14 1 2 3 4 5 6 7 yes shrub").unwrap_err(),
        VegetationRowError::NdviFlag { line: 5 }
    );
}
