use risico::concurrency::{largest_tile_len, tile_concurrency_for, tiles_within_budget, TileMemoryModel};
use risico::config::{ByteSizeError, StreamingExecutionConfig};
use risico::streaming::{SpatialTile, TilePlan};

const GB: u64 = 1_000_000_000;

#[test]
fn a_budget_pays_for_what_is_left_after_the_domain() {
    // 8 GB budget, 4 GB domain, 500 MB per tile: eight tiles fit.
    assert_eq!(tiles_within_budget(8 * GB, 4 * GB, GB / 2, 14), 8);
    // Raising the budget buys more tiles until the ceiling stops it.
    assert_eq!(tiles_within_budget(12 * GB, 4 * GB, GB / 2, 14), 14);
    // Lowering it gives them back.
    assert_eq!(tiles_within_budget(5 * GB, 4 * GB, GB / 2, 14), 2);
}

#[test]
fn a_budget_below_the_domain_still_runs_one_tile_at_a_time() {
    assert_eq!(tiles_within_budget(GB, 4 * GB, GB / 2, 14), 1);
    assert_eq!(tiles_within_budget(0, 4 * GB, GB / 2, 14), 1);
}

#[test]
fn the_ceiling_is_never_exceeded_and_never_reaches_zero() {
    assert_eq!(tiles_within_budget(1_000 * GB, 0, GB, 4), 4);
    assert_eq!(tiles_within_budget(1_000 * GB, 0, GB, 0), 1);
    // A model that costs nothing per tile still respects the ceiling.
    assert_eq!(tiles_within_budget(GB, 0, 0, 6), 6);
}

#[test]
fn a_larger_budget_never_buys_fewer_tiles() {
    let mut previous = 0;
    for budget in (0..40).map(|step| step * GB / 4) {
        let tiles = tiles_within_budget(budget, 2 * GB, GB / 3, 9);
        assert!(tiles >= previous);
        assert!((1..=9).contains(&tiles));
        previous = tiles;
    }
}

fn tile(positions: Vec<usize>) -> SpatialTile {
    SpatialTile { ordinal: 0, window: None, model_positions: positions, grid_cell_indexes: Vec::new() }
}

#[test]
fn the_largest_tile_bounds_concurrency() {
    assert_eq!(largest_tile_len(&[]), 0);
    assert_eq!(largest_tile_len(&[tile(vec![0, 1]), tile(vec![2, 3, 4]), tile(vec![5])]), 3);
}

fn execution(concurrency: Option<usize>) -> StreamingExecutionConfig {
    StreamingExecutionConfig { tile_concurrency: concurrency, ..StreamingExecutionConfig::default() }
}

#[test]
fn explicit_concurrency_wins_over_a_budget() {
    let plan = TilePlan::cells(100, 10).unwrap();
    let footprint = TileMemoryModel { resident_per_cell: 10, in_flight_per_cell: 10 };
    assert_eq!(tile_concurrency_for(&execution(Some(3)), Ok(Some(1_000)), footprint, &plan, 8), Ok(Some(3)));
    assert_eq!(tile_concurrency_for(&execution(None), Ok(None), footprint, &plan, 8), Ok(None));
    assert_eq!(
        tile_concurrency_for(&execution(None), Err(ByteSizeError::NoLeadingNumber), footprint, &plan, 8),
        Err(ByteSizeError::NoLeadingNumber)
    );
}

#[test]
fn a_budget_is_charged_the_domain_then_the_largest_tile() {
    // 100 cells at 10 bytes: 1000 bytes resident; tiles of 10 cells at
    // 10 bytes: 100 bytes each.
    let plan = TilePlan::cells(100, 10).unwrap();
    let footprint = TileMemoryModel { resident_per_cell: 10, in_flight_per_cell: 10 };
    assert_eq!(tile_concurrency_for(&execution(None), Ok(Some(1_500)), footprint, &plan, 8), Ok(Some(5)));
    assert_eq!(tile_concurrency_for(&execution(None), Ok(Some(1_500)), footprint, &plan, 3), Ok(Some(3)));
    assert_eq!(tile_concurrency_for(&execution(None), Ok(Some(500)), footprint, &plan, 8), Ok(Some(1)));
    assert_eq!(tile_concurrency_for(&execution(None), Ok(Some(1_000_000)), footprint, &plan, 64), Ok(Some(10)));
}
