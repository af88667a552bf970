//! How many tiles may run at once under a memory budget.

use vstd::prelude::*;
use vstd::arithmetic::div_mod::lemma_div_is_ordered;

use crate::config::{ByteSizeError, StreamingExecutionConfig};
use crate::streaming::{SpatialTile, TilePlan};

verus! {

/// Per-cell memory cost of a model, used to derive tile concurrency.
///
/// Both figures are of the model's own arrays; a run always needs some
/// headroom above what they predict.
#[derive(Debug, Clone, Copy, PartialEq, Eq, Structural)]
pub struct TileMemoryModel {
    /// Held for every domain cell for the whole run, whatever the tiling is.
    pub resident_per_cell: usize,
    /// Held per tile cell only while that tile is in flight.
    pub in_flight_per_cell: usize,
}

/// `ceiling`, but never below one.
pub open spec fn at_least_one(ceiling: int) -> int {
    if ceiling < 1 { 1 } else { ceiling }
}

/// How many tiles `budget` pays for once `resident` bytes are charged, each
/// tile costing `per_tile`, between one and `ceiling` (or one).
pub open spec fn spec_tiles_within_budget(budget: int, resident: int, per_tile: int, ceiling: int) -> int {
    let top = at_least_one(ceiling);
    if per_tile == 0 {
        top
    } else {
        let left = if budget > resident { budget - resident } else { 0 };
        let affordable = left / per_tile;
        if affordable < 1 {
            1
        } else if affordable > top {
            top
        } else {
            affordable
        }
    }
}

/// How many tiles a budget pays for once the whole-domain arrays are charged.
///
/// Always at least one: a budget smaller than the domain's fixed cost cannot be
/// honoured by tiling at all, and running at the smallest footprint is more
/// useful than refusing to run.
pub fn tiles_within_budget(budget: u64, resident: u64, per_tile: u64, ceiling: usize) -> (n: usize)
    ensures
        n == spec_tiles_within_budget(budget as int, resident as int, per_tile as int, ceiling as int),
        1 <= n <= at_least_one(ceiling as int),
{
    let top: usize = if ceiling < 1 { 1 } else { ceiling };
    if per_tile == 0 {
        return top;
    }
    let left: u64 = if budget > resident { budget - resident } else { 0 };
    let affordable: u64 = left / per_tile;
    if affordable < 1 {
        1
    } else if affordable > top as u64 {
        top
    } else {
        affordable as usize
    }
}

/// A larger budget never allows fewer concurrent tiles.
pub proof fn law_budget_is_monotone(smaller: u64, larger: u64, resident: u64, per_tile: u64, ceiling: usize)
    requires
        smaller <= larger,
    ensures
        spec_tiles_within_budget(smaller as int, resident as int, per_tile as int, ceiling as int)
            <= spec_tiles_within_budget(larger as int, resident as int, per_tile as int, ceiling as int),
{
    if per_tile != 0 {
        let l1: int = if smaller > resident { smaller - resident } else { 0 };
        let l2: int = if larger > resident { larger - resident } else { 0 };
        lemma_div_is_ordered(l1, l2, per_tile as int);
    }
}

/// A budget that the domain alone uses up still runs one tile at a time.
pub proof fn law_exhausted_budget_runs_one_tile(budget: u64, resident: u64, per_tile: u64, ceiling: usize)
    requires
        budget <= resident,
        per_tile > 0,
    ensures
        spec_tiles_within_budget(budget as int, resident as int, per_tile as int, ceiling as int) == 1,
{
}

/// The length of the largest tile, or zero for no tiles.
pub open spec fn max_tile_len(tiles: Seq<SpatialTile>) -> nat
    decreases tiles.len(),
{
    if tiles.len() == 0 {
        0
    } else {
        let rest = max_tile_len(tiles.drop_last());
        let last = tiles.last().model_positions@.len();
        if last > rest { last } else { rest }
    }
}

proof fn lemma_max_tile_len_bounds(tiles: Seq<SpatialTile>)
    ensures
        forall|k: int| 0 <= k < tiles.len() ==> (#[trigger] tiles[k]).model_positions@.len() <= max_tile_len(tiles),
        tiles.len() > 0 ==> exists|k: int| 0 <= k < tiles.len() && (#[trigger] tiles[k]).model_positions@.len() == max_tile_len(tiles),
    decreases tiles.len(),
{
    if tiles.len() > 0 {
        let rest = tiles.drop_last();
        lemma_max_tile_len_bounds(rest);
        assert forall|k: int| 0 <= k < tiles.len() implies (#[trigger] tiles[k]).model_positions@.len() <= max_tile_len(tiles) by {
            if k < tiles.len() - 1 {
                assert(tiles[k] == rest[k]);
            }
        }
        if tiles.last().model_positions@.len() <= max_tile_len(rest) && rest.len() > 0 {
            let k = choose|k: int| 0 <= k < rest.len() && (#[trigger] rest[k]).model_positions@.len() == max_tile_len(rest);
            assert(tiles[k] == rest[k]);
        } else {
            assert(tiles[tiles.len() - 1] == tiles.last());
        }
    }
}

/// The length of the largest tile, or zero for no tiles.
pub fn largest_tile_len(tiles: &[SpatialTile]) -> (n: usize)
    ensures
        n == max_tile_len(tiles@),
        forall|k: int| 0 <= k < tiles@.len() ==> (#[trigger] tiles@[k]).model_positions@.len() <= n,
{
    let mut best: usize = 0;
    let mut i: usize = 0;
    while i < tiles.len()
        invariant
            i <= tiles@.len(),
            best == max_tile_len(tiles@.take(i as int)),
        decreases tiles@.len() - i,
    {
        proof {
            assert(tiles@.take(i + 1).drop_last() =~= tiles@.take(i as int));
            assert(tiles@.take(i + 1).last() == tiles@[i as int]);
        }
        let len = tiles[i].len();
        if len > best {
            best = len;
        }
        i += 1;
    }
    proof {
        assert(tiles@.take(i as int) =~= tiles@);
        lemma_max_tile_len_bounds(tiles@);
    }
    best
}

/// The concurrency that a configuration asks for, given what its
/// `max_memory` reads as, the plan, the model's memory figures and how many
/// worker threads are available.
///
/// An explicit `tile_concurrency` is taken as given. Otherwise a `max_memory`
/// budget becomes a thread count by charging the whole-domain arrays first and
/// dividing what is left by the cost of the largest tile. With neither, `None`
/// keeps the default of one tile per worker thread.
pub open spec fn spec_tile_concurrency(
    execution: StreamingExecutionConfig,
    budget: Result<Option<u64>, ByteSizeError>,
    footprint: TileMemoryModel,
    plan: TilePlan,
    available_threads: int,
) -> Result<Option<usize>, ByteSizeError> {
    match execution.tile_concurrency {
        Some(threads) => Ok(Some(threads)),
        None => match budget {
            Err(error) => Err(error),
            Ok(None) => Ok(None),
            Ok(Some(budget)) => {
                let tile_count = plan.spec_tiles().len() as int;
                let ceiling = if tile_count < available_threads { tile_count } else { available_threads };
                Ok(Some(spec_tiles_within_budget(
                    budget as int,
                    plan.spec_cell_count() * footprint.resident_per_cell,
                    max_tile_len(plan.spec_tiles()) * footprint.in_flight_per_cell,
                    ceiling,
                ) as usize))
            },
        },
    }
}

/// What is left of `budget` once `resident` bytes are charged.
pub open spec fn budget_left(budget: int, resident: int) -> int {
    if budget > resident { budget - resident } else { 0 }
}

/// A budget pays for the tiles in flight at the cost of the largest: when it
/// lets more than one tile run, any `n` tiles of the plan together fit in what
/// is left once the whole-domain arrays are charged; and unless the tile
/// count or the thread count caps it, one more tile as large as the largest
/// would not fit.
pub proof fn law_budget_pays_for_the_largest_tile(
    execution: StreamingExecutionConfig,
    budget: u64,
    footprint: TileMemoryModel,
    plan: TilePlan,
    available_threads: int,
)
    requires
        execution.tile_concurrency is None,
        0 <= available_threads <= usize::MAX,
    ensures
        ({
            let tiles = plan.spec_tiles();
            let resident = plan.spec_cell_count() * footprint.resident_per_cell;
            let left = budget_left(budget as int, resident);
            let ceiling = if tiles.len() < available_threads { tiles.len() as int } else { available_threads };
            match spec_tile_concurrency(execution, Ok(Some(budget)), footprint, plan, available_threads) {
                Ok(Some(n)) => {
                    &&& 1 <= n
                    &&& n > 1 ==> forall|k: int| 0 <= k < tiles.len()
                        ==> n * ((#[trigger] tiles[k]).model_positions@.len() * footprint.in_flight_per_cell) <= left
                    &&& n > 1 ==> forall|k: int| 0 <= k < tiles.len()
                        ==> resident + n * ((#[trigger] tiles[k]).model_positions@.len() * footprint.in_flight_per_cell)
                            <= budget || tiles[k].model_positions@.len() * footprint.in_flight_per_cell == 0
                    &&& (n < ceiling && exists|k: int| 0 <= k < tiles.len()
                        && (#[trigger] tiles[k]).model_positions@.len() * footprint.in_flight_per_cell > 0)
                        ==> exists|k: int| 0 <= k < tiles.len()
                            && (n + 1) * ((#[trigger] tiles[k]).model_positions@.len() * footprint.in_flight_per_cell) > left
                },
                _ => false,
            }
        }),
{
    let tiles = plan.spec_tiles();
    let resident = plan.spec_cell_count() * footprint.resident_per_cell;
    let left = budget_left(budget as int, resident);
    let w = footprint.in_flight_per_cell as int;
    let per = max_tile_len(tiles) * w;
    let tile_count = tiles.len() as int;
    let ceiling = if tile_count < available_threads { tile_count } else { available_threads };
    let n = spec_tiles_within_budget(budget as int, resident, per, ceiling);
    lemma_max_tile_len_bounds(tiles);
    assert(1 <= n <= at_least_one(ceiling));
    assert(n as usize == n);
    assert(spec_tile_concurrency(execution, Ok(Some(budget)), footprint, plan, available_threads)
        == Ok::<Option<usize>, ByteSizeError>(Some(n as usize)));
    assert forall|k: int| 0 <= k < tiles.len()
        implies (#[trigger] tiles[k]).model_positions@.len() * w <= per by {
        let len = tiles[k].model_positions@.len() as int;
        let m = max_tile_len(tiles) as int;
        assert(len * w <= m * w) by (nonlinear_arith)
            requires
                0 <= len <= m,
                0 <= w,
        ;
    }
    if n > 1 {
        if per > 0 {
            let affordable = left / per;
            assert(affordable >= n);
            assert(n * per <= left) by (nonlinear_arith)
                requires
                    per > 0,
                    left >= 0,
                    affordable == left / per,
                    affordable >= n,
                    n >= 0,
            ;
        }
        assert forall|k: int| 0 <= k < tiles.len()
            implies n * ((#[trigger] tiles[k]).model_positions@.len() * w) <= left by {
            let c = tiles[k].model_positions@.len() * w;
            assert(n * c <= n * per) by (nonlinear_arith)
                requires
                    0 <= c <= per,
                    n >= 0,
            ;
            if per == 0 {
                assert(n * c == 0) by (nonlinear_arith)
                    requires
                        c == 0,
                ;
            }
        }
        assert forall|k: int| 0 <= k < tiles.len()
            implies resident + n * ((#[trigger] tiles[k]).model_positions@.len() * w) <= budget
                || tiles[k].model_positions@.len() * w == 0 by {
            let c = tiles[k].model_positions@.len() * w;
            if c != 0 {
                assert(n * c <= left);
                assert(n * c > 0) by (nonlinear_arith)
                    requires
                        c > 0,
                        n > 1,
                ;
            }
        }
    }
    if n < ceiling && exists|k: int| 0 <= k < tiles.len()
        && (#[trigger] tiles[k]).model_positions@.len() * w > 0 {
        let j = choose|k: int| 0 <= k < tiles.len() && (#[trigger] tiles[k]).model_positions@.len() == max_tile_len(tiles);
        let k0 = choose|k: int| 0 <= k < tiles.len() && (#[trigger] tiles[k]).model_positions@.len() * w > 0;
        assert(per > 0);
        let affordable = left / per;
        assert((n + 1) * per > left) by (nonlinear_arith)
            requires
                per > 0,
                left >= 0,
                affordable == left / per,
                n >= 1,
                affordable < 1 ==> n == 1,
                affordable >= 1 ==> n == affordable,
        ;
        assert(tiles[j].model_positions@.len() * w == per);
    }
}

/// Whether the memory figures of `plan` fit in 64 bits.
pub open spec fn footprint_fits(footprint: TileMemoryModel, plan: TilePlan) -> bool {
    &&& plan.spec_cell_count() <= usize::MAX
    &&& plan.spec_cell_count() * footprint.resident_per_cell <= u64::MAX
    &&& max_tile_len(plan.spec_tiles()) * footprint.in_flight_per_cell <= u64::MAX
}

/// Decide how many tiles may run at once, for a given number of worker threads.
pub fn tile_concurrency_for(
    execution: &StreamingExecutionConfig,
    budget: Result<Option<u64>, ByteSizeError>,
    footprint: TileMemoryModel,
    plan: &TilePlan,
    available_threads: usize,
) -> (result: Result<Option<usize>, ByteSizeError>)
    requires
        footprint_fits(footprint, *plan),
    ensures
        result == spec_tile_concurrency(*execution, budget, footprint, *plan, available_threads as int),
        execution.tile_concurrency is None ==> (result matches Ok(Some(n)) ==> n >= 1),
        match budget {
            Ok(Some(bytes)) => execution.tile_concurrency is None ==> (result matches Ok(Some(n))
                && (n > 1 ==> forall|k: int| 0 <= k < plan.spec_tiles().len()
                    ==> plan.spec_cell_count() * footprint.resident_per_cell
                        + n * ((#[trigger] plan.spec_tiles()[k]).model_positions@.len() * footprint.in_flight_per_cell)
                        <= bytes || plan.spec_tiles()[k].model_positions@.len() * footprint.in_flight_per_cell == 0)),
            _ => true,
        },
{
    proof {
        if execution.tile_concurrency is None {
            if let Ok(Some(bytes)) = budget {
                law_budget_pays_for_the_largest_tile(*execution, bytes, footprint, *plan, available_threads as int);
            }
        }
    }
    if let Some(threads) = execution.tile_concurrency {
        return Ok(Some(threads));
    }
    let budget = match budget {
        Err(error) => return Err(error),
        Ok(None) => return Ok(None),
        Ok(Some(budget)) => budget,
    };
    let cell_count = plan.cell_count() as u64;
    let resident: u64 = cell_count * footprint.resident_per_cell as u64;
    let tiles = plan.tiles();
    let largest = largest_tile_len(tiles) as u64;
    let per_tile: u64 = largest * footprint.in_flight_per_cell as u64;
    let tile_count = tiles.len();
    let ceiling = if tile_count < available_threads { tile_count } else { available_threads };
    Ok(Some(tiles_within_budget(budget, resident, per_tile, ceiling)))
}

/// The number of worker threads in the current thread pool.
///
/// Calls `rayon::current_num_threads`. The figure depends on the machine and
/// the environment; what is stated is that a pool has at least one thread.
#[verifier::external_body]
pub(crate) fn worker_thread_count() -> (n: usize)
    ensures
        n >= 1,
{
    rayon::current_num_threads()
}

/// Decide how many tiles may run at once on the current thread pool.
///
/// `budget` is what the configuration's `max_memory` reads as. Whatever the
/// pool's size, an explicit `tile_concurrency` is returned as given, a missing
/// budget gives `None`, a malformed one its parse error, and a budget at least
/// one tile.
pub fn resolve_tile_concurrency(
    execution: &StreamingExecutionConfig,
    budget: Result<Option<u64>, ByteSizeError>,
    footprint: TileMemoryModel,
    plan: &TilePlan,
) -> (result: Result<Option<usize>, ByteSizeError>)
    requires
        footprint_fits(footprint, *plan),
    ensures
        exists|threads: int| 1 <= threads <= usize::MAX
            && result == spec_tile_concurrency(*execution, budget, footprint, *plan, threads),
        execution.tile_concurrency matches Some(n) ==> result == Ok::<Option<usize>, ByteSizeError>(Some(n)),
        execution.tile_concurrency is None ==> match budget {
            Err(error) => result == Err::<Option<usize>, ByteSizeError>(error),
            Ok(None) => result == Ok::<Option<usize>, ByteSizeError>(None),
            Ok(Some(_)) => result matches Ok(Some(n)) && n >= 1,
        },
{
    let threads = worker_thread_count();
    tile_concurrency_for(execution, budget, footprint, plan, threads)
}

} // verus!
