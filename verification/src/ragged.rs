//! The contiguous ragged layout of per-cell histories in a warm-state
//! snapshot: every cell's observations stored one after another, each cell's
//! run given by a start offset and a count.

use vstd::prelude::*;

use crate::timeline::{is_utc_timestamp, utc_timestamp_exists};

verus! {

/// The sum of the first `n` lengths.
pub open spec fn sum_prefix(lengths: Seq<usize>, n: int) -> int
    decreases n,
{
    if n <= 0 {
        0
    } else {
        sum_prefix(lengths, n - 1) + lengths[n - 1]
    }
}

/// The total of all lengths.
pub open spec fn sum_all(lengths: Seq<usize>) -> int {
    sum_prefix(lengths, lengths.len() as int)
}

/// Every cell's values, one cell after another.
pub open spec fn concat_cells<T>(cells: Seq<Vec<T>>) -> Seq<T>
    decreases cells.len(),
{
    if cells.len() == 0 {
        Seq::empty()
    } else {
        concat_cells(cells.drop_last()) + cells.last()@
    }
}

/// Whether `lengths` gives the length of every cell's values.
pub open spec fn lengths_of<T>(cells: Seq<Vec<T>>, lengths: Seq<usize>) -> bool {
    lengths.len() == cells.len() && forall|c: int| 0 <= c < cells.len() ==> lengths[c] == (#[trigger] cells[c])@.len()
}

pub proof fn lemma_sum_prefix_monotone(lengths: Seq<usize>, a: int, b: int)
    requires
        0 <= a <= b <= lengths.len(),
    ensures
        sum_prefix(lengths, a) <= sum_prefix(lengths, b),
        sum_prefix(lengths, a) >= 0,
    decreases b,
{
    if a < b {
        lemma_sum_prefix_monotone(lengths, a, b - 1);
    } else if a > 0 {
        lemma_sum_prefix_monotone(lengths, 0, a - 1);
    }
}

pub proof fn lemma_sum_prefix_same(x: Seq<usize>, y: Seq<usize>, n: int)
    requires
        0 <= n <= x.len(),
        n <= y.len(),
        forall|i: int| 0 <= i < n ==> x[i] == y[i],
    ensures
        sum_prefix(x, n) == sum_prefix(y, n),
    decreases n,
{
    if n > 0 {
        lemma_sum_prefix_same(x, y, n - 1);
    }
}

/// The cells' values laid end to end hold, at each cell's offset, exactly
/// that cell's values.
pub proof fn lemma_concat_cells_layout<T>(cells: Seq<Vec<T>>, lengths: Seq<usize>)
    requires
        lengths_of(cells, lengths),
    ensures
        concat_cells(cells).len() == sum_all(lengths),
        forall|c: int| 0 <= c < cells.len() ==>
            concat_cells(cells).subrange(sum_prefix(lengths, c), sum_prefix(lengths, c) + lengths[c])
                == #[trigger] cells[c]@,
    decreases cells.len(),
{
    if cells.len() > 0 {
        let n = cells.len() - 1;
        let rest = cells.drop_last();
        let rest_lengths = lengths.drop_last();
        assert forall|c: int| 0 <= c < rest.len() implies rest_lengths[c] == (#[trigger] rest[c])@.len() by {
            assert(rest[c] == cells[c]);
        }
        lemma_concat_cells_layout(rest, rest_lengths);
        lemma_sum_prefix_same(rest_lengths, lengths, n);
        let whole = concat_cells(cells);
        let front = concat_cells(rest);
        assert(whole == front + cells.last()@);
        assert(cells.last() == cells[n]);
        assert forall|c: int| 0 <= c < cells.len() implies
            whole.subrange(sum_prefix(lengths, c), sum_prefix(lengths, c) + lengths[c]) == #[trigger] cells[c]@ by {
            if c < n {
                lemma_sum_prefix_same(rest_lengths, lengths, c);
                lemma_sum_prefix_same(rest_lengths, lengths, c + 1);
                lemma_sum_prefix_monotone(rest_lengths, c + 1, n);
                assert(rest[c] == cells[c]);
                assert(rest_lengths[c] == lengths[c]);
                let lo = sum_prefix(lengths, c);
                assert(front.len() == sum_prefix(rest_lengths, n));
                assert(sum_prefix(lengths, c + 1) == lo + lengths[c]);
                assert(lo + lengths[c] <= front.len());
                lemma_sum_prefix_monotone(lengths, c, c);
                assert(0 <= lo);
                assert(front.subrange(lo, lo + lengths[c]) == cells[c]@);
                assert(whole.subrange(lo, lo + lengths[c]) =~= front.subrange(lo, lo + lengths[c]));
            } else {
                assert(whole.subrange(front.len() as int, whole.len() as int) =~= cells.last()@);
            }
        }
    }
}

/// The length of every cell's values.
pub fn history_lengths<T>(cells: &Vec<Vec<T>>) -> (lengths: Vec<usize>)
    ensures
        lengths_of(cells@, lengths@),
{
    let mut lengths: Vec<usize> = Vec::new();
    let mut c: usize = 0;
    while c < cells.len()
        invariant
            c <= cells@.len(),
            lengths@.len() == c,
            forall|k: int| 0 <= k < c ==> lengths@[k] == (#[trigger] cells@[k])@.len(),
        decreases cells@.len() - c,
    {
        lengths.push(cells[c].len());
        c += 1;
    }
    lengths
}

/// The offset and count of each cell's run, for histories of the given
/// lengths stored one after another.
///
/// Each length must fit the 32-bit count field and the total the 64-bit
/// offset field.
pub fn history_index(lengths: &Vec<usize>) -> (index: (Vec<u64>, Vec<u32>))
    requires
        forall|i: int| 0 <= i < lengths@.len() ==> lengths@[i] <= u32::MAX,
        sum_all(lengths@) <= u64::MAX,
    ensures
        index.0@.len() == lengths@.len(),
        index.1@.len() == lengths@.len(),
        forall|i: int| 0 <= i < lengths@.len() ==> index.0@[i] == sum_prefix(lengths@, i),
        forall|i: int| 0 <= i < lengths@.len() ==> index.1@[i] == lengths@[i],
{
    let mut starts: Vec<u64> = Vec::new();
    let mut counts: Vec<u32> = Vec::new();
    let mut offset: u64 = 0;
    let mut i: usize = 0;
    while i < lengths.len()
        invariant
            i <= lengths@.len(),
            forall|k: int| 0 <= k < lengths@.len() ==> lengths@[k] <= u32::MAX,
            sum_all(lengths@) <= u64::MAX,
            offset == sum_prefix(lengths@, i as int),
            starts@.len() == i,
            counts@.len() == i,
            forall|k: int| 0 <= k < i ==> starts@[k] == sum_prefix(lengths@, k),
            forall|k: int| 0 <= k < i ==> counts@[k] == lengths@[k],
        decreases lengths@.len() - i,
    {
        proof {
            lemma_sum_prefix_monotone(lengths@, i + 1, lengths@.len() as int);
        }
        starts.push(offset);
        counts.push(lengths[i] as u32);
        offset = offset + lengths[i] as u64;
        i += 1;
    }
    (starts, counts)
}

/// Every cell's values, one cell after another.
pub fn concat_histories<T: Copy>(cells: &Vec<Vec<T>>) -> (values: Vec<T>)
    ensures
        values@ == concat_cells(cells@),
{
    let mut values: Vec<T> = Vec::new();
    let mut c: usize = 0;
    while c < cells.len()
        invariant
            c <= cells@.len(),
            values@ == concat_cells(cells@.take(c as int)),
        decreases cells@.len() - c,
    {
        let cell = &cells[c];
        let ghost before = values@;
        let mut j: usize = 0;
        while j < cell.len()
            invariant
                j <= cell@.len(),
                values@ == before + cell@.take(j as int),
            decreases cell@.len() - j,
        {
            values.push(cell[j]);
            j += 1;
            proof {
                assert(cell@.take(j as int) =~= cell@.take(j - 1).push(cell@[j - 1]));
            }
        }
        proof {
            assert(cell@.take(j as int) =~= cell@);
            assert(cells@.take(c + 1).drop_last() =~= cells@.take(c as int));
            assert(cells@.take(c + 1).last() == cells@[c as int]);
        }
        c += 1;
    }
    proof {
        assert(cells@.take(c as int) =~= cells@);
    }
    values
}

/// Why a stored ragged index cannot be read back.
#[derive(Clone, Copy, Debug, PartialEq, Eq, Structural)]
pub enum RaggedIndexError {
    /// The start or count arrays do not have one entry per cell.
    IndexLengths,
    /// The start of this cell's run does not fit in `usize`.
    StartTooLarge(usize),
    /// This cell's run does not lie within the stored observations.
    RangeOutside(usize),
    /// This cell's run holds a time that is not a representable date.
    InvalidTime(usize, i64),
}

/// Whether cell `c`'s run lies within `observation_count` observations.
pub open spec fn run_is_valid(starts: Seq<u64>, counts: Seq<u32>, c: int, observation_count: int) -> bool {
    starts[c] <= usize::MAX && starts[c] + counts[c] <= observation_count
        && starts[c] + counts[c] <= usize::MAX
}

/// Whether every time of cell `c`'s run is a representable date.
pub open spec fn run_times_valid(starts: Seq<u64>, counts: Seq<u32>, times: Seq<i64>, c: int) -> bool {
    forall|j: int| starts[c] <= j < starts[c] + counts[c] ==> is_utc_timestamp(#[trigger] times[j])
}

/// Whether cell `c`'s run can be read back.
pub open spec fn run_is_readable(starts: Seq<u64>, counts: Seq<u32>, times: Seq<i64>, c: int) -> bool {
    run_is_valid(starts, counts, c, times.len() as int) && run_times_valid(starts, counts, times, c)
}

/// The error that cell `c`'s run gives, when its range is not valid.
pub open spec fn run_error(starts: Seq<u64>, c: int) -> RaggedIndexError {
    if starts[c] > usize::MAX {
        RaggedIndexError::StartTooLarge(c as usize)
    } else {
        RaggedIndexError::RangeOutside(c as usize)
    }
}

/// The error that an unreadable run of cell `c` gives: its range, or else the
/// first time in it that is not a date.
pub open spec fn run_failure(starts: Seq<u64>, counts: Seq<u32>, times: Seq<i64>, c: int, error: RaggedIndexError) -> bool {
    if !run_is_valid(starts, counts, c, times.len() as int) {
        error == run_error(starts, c)
    } else {
        exists|j: int| starts[c] <= j < starts[c] + counts[c]
            && (forall|i: int| starts[c] <= i < j ==> is_utc_timestamp(#[trigger] times[i]))
            && !is_utc_timestamp(times[j])
            && error == RaggedIndexError::InvalidTime(c as usize, times[j])
    }
}

/// Whether `result` is what reading back the runs of `cell_count` cells
/// gives: every run's range when each can be read back, otherwise the error of
/// the first cell whose run cannot.
pub open spec fn runs_read_back(
    starts: Seq<u64>,
    counts: Seq<u32>,
    times: Seq<i64>,
    cell_count: int,
    result: Result<Vec<(usize, usize)>, RaggedIndexError>,
) -> bool {
    match result {
        Ok(ranges) => {
            &&& forall|c: int| 0 <= c < cell_count ==> run_is_readable(starts, counts, times, c)
            &&& ranges@.len() == cell_count
            &&& forall|c: int| 0 <= c < cell_count ==> (#[trigger] ranges@[c]).0 == starts[c]
                && ranges@[c].1 == starts[c] + counts[c]
        },
        Err(error) => exists|c: int| 0 <= c < cell_count
            && (forall|d: int| 0 <= d < c ==> run_is_readable(starts, counts, times, d))
            && !run_is_readable(starts, counts, times, c)
            && run_failure(starts, counts, times, c, error),
    }
}

/// The runs of `cell_count` cells, as half-open ranges into `times`, when the
/// index can be read back; otherwise the error of the first cell whose run
/// cannot.
pub fn history_ranges(starts: &Vec<u64>, counts: &Vec<u32>, times: &Vec<i64>, cell_count: usize)
    -> (result: Result<Vec<(usize, usize)>, RaggedIndexError>)
    ensures
        (starts@.len() != cell_count || counts@.len() != cell_count)
            ==> result == Err::<Vec<(usize, usize)>, RaggedIndexError>(RaggedIndexError::IndexLengths),
        (starts@.len() == cell_count && counts@.len() == cell_count)
            ==> runs_read_back(starts@, counts@, times@, cell_count as int, result),
{
    if starts.len() != cell_count || counts.len() != cell_count {
        return Err(RaggedIndexError::IndexLengths);
    }
    let observation_count = times.len();
    let mut ranges: Vec<(usize, usize)> = Vec::new();
    let mut c: usize = 0;
    while c < cell_count
        invariant
            starts@.len() == cell_count,
            counts@.len() == cell_count,
            observation_count == times@.len(),
            c <= cell_count,
            ranges@.len() == c,
            forall|d: int| 0 <= d < c ==> run_is_readable(starts@, counts@, times@, d),
            forall|d: int| 0 <= d < c ==> (#[trigger] ranges@[d]).0 == starts@[d]
                && ranges@[d].1 == starts@[d] + counts@[d],
        decreases cell_count - c,
    {
        let start64 = starts[c];
        if start64 > usize::MAX as u64 {
            proof {
                assert(!run_is_valid(starts@, counts@, c as int, observation_count as int));
                assert(run_error(starts@, c as int) == RaggedIndexError::StartTooLarge(c));
                assert(!run_is_readable(starts@, counts@, times@, c as int));
                assert(run_failure(starts@, counts@, times@, c as int, RaggedIndexError::StartTooLarge(c)));
            }
            return Err(RaggedIndexError::StartTooLarge(c));
        }
        let start = start64 as usize;
        let count = counts[c] as usize;
        if count > usize::MAX - start || start + count > observation_count {
            proof {
                assert(!run_is_valid(starts@, counts@, c as int, observation_count as int));
                assert(run_error(starts@, c as int) == RaggedIndexError::RangeOutside(c));
                assert(!run_is_readable(starts@, counts@, times@, c as int));
                assert(run_failure(starts@, counts@, times@, c as int, RaggedIndexError::RangeOutside(c)));
            }
            return Err(RaggedIndexError::RangeOutside(c));
        }
        let end = start + count;
        let mut j: usize = start;
        while j < end
            invariant
                starts@.len() == cell_count,
                counts@.len() == cell_count,
                observation_count == times@.len(),
                c < cell_count,
                forall|d: int| 0 <= d < c ==> run_is_readable(starts@, counts@, times@, d),
                start <= j <= end <= times@.len(),
                start == starts@[c as int],
                end == starts@[c as int] + counts@[c as int],
                forall|i: int| start <= i < j ==> is_utc_timestamp(#[trigger] times@[i]),
            decreases end - j,
        {
            if !utc_timestamp_exists(times[j]) {
                proof {
                    assert(run_is_valid(starts@, counts@, c as int, observation_count as int));
                    assert(!run_times_valid(starts@, counts@, times@, c as int));
                    assert(!run_is_readable(starts@, counts@, times@, c as int));
                    assert(run_failure(starts@, counts@, times@, c as int, RaggedIndexError::InvalidTime(c, times@[j as int])));
                }
                return Err(RaggedIndexError::InvalidTime(c, times[j]));
            }
            j += 1;
        }
        ranges.push((start, end));
        c += 1;
    }
    Ok(ranges)
}

/// The values of each run, in cell order.
pub fn split_histories<T: Copy>(values: &Vec<T>, ranges: &Vec<(usize, usize)>) -> (cells: Vec<Vec<T>>)
    requires
        forall|c: int| 0 <= c < ranges@.len() ==> (#[trigger] ranges@[c]).0 <= ranges@[c].1 <= values@.len(),
    ensures
        cells@.len() == ranges@.len(),
        forall|c: int| 0 <= c < ranges@.len() ==>
            (#[trigger] cells@[c])@ == values@.subrange(ranges@[c].0 as int, ranges@[c].1 as int),
{
    let mut cells: Vec<Vec<T>> = Vec::new();
    let mut c: usize = 0;
    while c < ranges.len()
        invariant
            c <= ranges@.len(),
            forall|k: int| 0 <= k < ranges@.len() ==> (#[trigger] ranges@[k]).0 <= ranges@[k].1 <= values@.len(),
            cells@.len() == c,
            forall|k: int| 0 <= k < c ==>
                (#[trigger] cells@[k])@ == values@.subrange(ranges@[k].0 as int, ranges@[k].1 as int),
        decreases ranges@.len() - c,
    {
        let (lo, hi) = ranges[c];
        assert(ranges@[c as int].0 <= ranges@[c as int].1 <= values@.len());
        let mut cell: Vec<T> = Vec::new();
        let mut j: usize = lo;
        while j < hi
            invariant
                lo <= j <= hi <= values@.len(),
                cell@ == values@.subrange(lo as int, j as int),
            decreases hi - j,
        {
            cell.push(values[j]);
            j += 1;
            proof {
                assert(values@.subrange(lo as int, j as int)
                    =~= values@.subrange(lo as int, j - 1).push(values@[j - 1]));
            }
        }
        cells.push(cell);
        c += 1;
    }
    cells
}

/// Histories written one after another and read back through their stored
/// offsets and counts come back unchanged, cell by cell.
pub proof fn law_ragged_roundtrip<T>(cells: Seq<Vec<T>>, lengths: Seq<usize>, starts: Seq<u64>, counts: Seq<u32>)
    requires
        lengths_of(cells, lengths),
        starts.len() == cells.len(),
        counts.len() == cells.len(),
        forall|c: int| 0 <= c < cells.len() ==> starts[c] == sum_prefix(lengths, c),
        forall|c: int| 0 <= c < cells.len() ==> counts[c] == lengths[c],
        concat_cells(cells).len() <= usize::MAX,
    ensures
        forall|c: int| 0 <= c < cells.len() ==>
            run_is_valid(starts, counts, c, concat_cells(cells).len() as int),
        forall|c: int| 0 <= c < cells.len() ==>
            concat_cells(cells).subrange(starts[c] as int, starts[c] + counts[c]) == #[trigger] cells[c]@,
{
    lemma_concat_cells_layout(cells, lengths);
    assert forall|c: int| 0 <= c < cells.len() implies
        run_is_valid(starts, counts, c, concat_cells(cells).len() as int) by {
        lemma_sum_prefix_monotone(lengths, c + 1, cells.len() as int);
    }
    assert forall|c: int| 0 <= c < cells.len() implies
        concat_cells(cells).subrange(starts[c] as int, starts[c] + counts[c]) == #[trigger] cells[c]@ by {
        assert(cells[c]@ == concat_cells(cells).subrange(sum_prefix(lengths, c), sum_prefix(lengths, c) + lengths[c]));
    }
}

} // verus!
