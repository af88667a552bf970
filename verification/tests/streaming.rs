use risico::streaming::{GridWindow, RasterShape, SpatialTile, TilePlan, TilePlanError};

fn grid(width: usize, height: usize) -> RasterShape {
    RasterShape { width, height }
}

#[test]
fn raster_plan_groups_active_cells_into_spatial_squares() {
    let plan = TilePlan::raster(grid(5, 4), &[0, 1, 4, 5, 7, 13, 19], 2, 2).unwrap();
    let tiles = plan.tiles();
    assert_eq!(tiles.len(), 5);
    assert_eq!(
        tiles[0].window,
        Some(GridWindow {
            row: 0,
            col: 0,
            height: 2,
            width: 2
        })
    );
    assert_eq!(tiles[0].model_positions, vec![0, 1, 3]);
    assert_eq!(tiles[0].grid_cell_indexes, vec![0, 1, 5]);
    assert_eq!(plan.cell_count(), 7);
    assert!(tiles.iter().all(|tile| {
        tile.grid_cell_indexes
            .iter()
            .all(|index| tile.window.unwrap().contains_cell(*index, 5))
    }));
}

#[test]
fn raster_plan_clips_edge_windows_and_skips_empty_tiles() {
    let plan = TilePlan::raster(grid(5, 3), &[4, 14], 2, 3).unwrap();
    let windows: Vec<_> = plan
        .tiles()
        .iter()
        .map(|tile| tile.window.unwrap())
        .collect();
    assert_eq!(
        windows,
        vec![
            GridWindow {
                row: 0,
                col: 3,
                height: 2,
                width: 2
            },
            GridWindow {
                row: 2,
                col: 3,
                height: 1,
                width: 2
            },
        ]
    );
}

#[test]
fn cell_plan_covers_every_legacy_model_position_once() {
    let plan = TilePlan::cells(7, 3).unwrap();
    assert_eq!(
        plan.tiles()
            .iter()
            .flat_map(|tile| tile.model_positions.iter().copied())
            .collect::<Vec<_>>(),
        (0..7).collect::<Vec<_>>()
    );
    assert_eq!(plan.tiles().last().unwrap().len(), 1);
}

#[test]
fn raster_plan_rejects_zero_tile_dimensions() {
    assert_eq!(
        TilePlan::raster(grid(5, 4), &[0], 0, 2).unwrap_err(),
        TilePlanError::ZeroTileDimension
    );
    assert_eq!(
        TilePlan::raster(grid(5, 4), &[0], 2, 0).unwrap_err(),
        TilePlanError::ZeroTileDimension
    );
}

#[test]
fn raster_plan_rejects_cells_outside_the_raster() {
    assert_eq!(
        TilePlan::raster(grid(5, 4), &[0, 20], 2, 2).unwrap_err(),
        TilePlanError::CellOutsideRaster(20)
    );
}

#[test]
fn raster_plan_rejects_rasters_too_large_to_address() {
    assert_eq!(
        TilePlan::raster(grid(usize::MAX, 2), &[0], 2, 2).unwrap_err(),
        TilePlanError::RasterTooLarge
    );
}

#[test]
fn cell_plan_rejects_zero_cells_per_tile() {
    assert_eq!(TilePlan::cells(7, 0).unwrap_err(), TilePlanError::ZeroCellsPerTile);
}

#[test]
fn raster_plan_lists_every_active_cell_once_in_model_order() {
    let active = [3u32, 17, 0, 9, 24, 12];
    let plan = TilePlan::raster(grid(5, 5), &active, 2, 3).unwrap();
    let mut seen: Vec<usize> = plan
        .tiles()
        .iter()
        .flat_map(|tile| tile.model_positions.iter().copied())
        .collect();
    seen.sort();
    assert_eq!(seen, (0..active.len()).collect::<Vec<_>>());
    for (ordinal, tile) in plan.tiles().iter().enumerate() {
        assert_eq!(tile.ordinal, ordinal);
        assert!(tile.model_positions.windows(2).all(|pair| pair[0] < pair[1]));
        for (position, index) in tile.model_positions.iter().zip(&tile.grid_cell_indexes) {
            assert_eq!(active[*position], *index);
            assert!(tile.window.unwrap().contains_cell(*index, 5));
        }
    }
    assert_eq!(plan.cell_count(), active.len());
}

#[test]
fn windows_report_their_extent() {
    let window = GridWindow { row: 2, col: 3, height: 4, width: 5 };
    assert_eq!(window.end_row(), 6);
    assert_eq!(window.end_col(), 8);
    assert_eq!(window.len(), 20);
    assert!(!window.is_empty());
    assert!(GridWindow { row: 0, col: 0, height: 0, width: 3 }.is_empty());
    assert!(window.contains_cell(2 * 10 + 3, 10));
    assert!(!window.contains_cell(2 * 10 + 8, 10));
    assert!(!window.contains_cell(6 * 10 + 3, 10));
}

#[test]
fn tiles_report_their_size() {
    let tile = SpatialTile {
        ordinal: 0,
        window: None,
        model_positions: vec![4, 5, 6],
        grid_cell_indexes: Vec::new(),
    };
    assert_eq!(tile.len(), 3);
    assert!(!tile.is_empty());
    let empty = SpatialTile {
        ordinal: 1,
        window: None,
        model_positions: Vec::new(),
        grid_cell_indexes: Vec::new(),
    };
    assert!(empty.is_empty());
}

#[test]
fn cell_plan_counts_the_configured_cells() {
    let plan = TilePlan::cells(10, 4).unwrap();
    assert_eq!(plan.cell_count(), 10);
    let lens: Vec<usize> = plan.tiles().iter().map(|tile| tile.len()).collect();
    assert_eq!(lens, vec![4, 4, 2]);
    assert!(plan.tiles().iter().all(|tile| tile.window.is_none() && tile.grid_cell_indexes.is_empty()));
}
