use risico::grid::{palette_rows, transparent, CellIndexes, Color};

const NODATAVAL: f32 = -9999.0;

#[test]
fn packed_indexes_round_trip_mapped_and_unmapped_cells() {
    // The positions a 2x2 regular grid gives for (0, 0), (1, 1) and a point
    // far outside it.
    let indexes = CellIndexes::from_positions(&vec![Some(0), Some(3), None]);

    assert_eq!(indexes.len(), 3);
    assert_eq!(indexes.get(0), Some(0));
    assert_eq!(indexes.get(1), Some(3));
    assert_eq!(indexes.get(2), None);
    assert_eq!(indexes.get(3), None);
}

#[test]
fn gather_substitutes_nodata_for_unmapped_cells() {
    let indexes = CellIndexes::from_positions(&vec![Some(0), None, Some(3)]);
    let values = [10.0, 20.0, 30.0, 40.0];

    let gathered = indexes.gather(&values, NODATAVAL);

    assert_eq!(gathered.len(), 3);
    assert_eq!(gathered[0], 10.0);
    assert_eq!(gathered[1], NODATAVAL);
    assert_eq!(gathered[2], 40.0);
}

#[test]
fn empty_index_sets_are_empty() {
    let indexes = CellIndexes::from_positions(&vec![]);
    assert!(indexes.is_empty());
    assert_eq!(indexes.gather(&[1u8, 2], 0), Vec::<u8>::new());
}

#[test]
fn palette_rows_skip_comments_and_short_rows() {
    let rows = palette_rows("# bound r g b a\n0 0 0 0 255\n10 255 0 0\n\n20 0 255 0 255\n");
    assert_eq!(rows.len(), 2);
    assert_eq!(rows[0].line, 1);
    assert_eq!(rows[0].columns, vec!["0", "0", "0", "0", "255"]);
    assert_eq!(rows[1].line, 4);
    assert_eq!(rows[1].columns[2], "255");
    assert_eq!(transparent(), Color { r: 0, g: 0, b: 0, a: 0 });
}
