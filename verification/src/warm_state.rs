//! The rules a warm-state snapshot obeys when it is written and read back:
//! what its header must say, how FWI histories are laid out, and what a
//! conversion of legacy files is configured with.

use vstd::prelude::*;

use crate::config::{StaticDataConfig, WarmStateConfig};
use crate::ragged::{history_ranges, runs_read_back, RaggedIndexError};
use crate::text::same_text;

verus! {

/// The version of the snapshot layout this library writes and reads.
pub const STATE_SCHEMA_VERSION: i32 = 1;

/// The models that keep warm state in NetCDF snapshots.
#[derive(Clone, Copy, Debug, PartialEq, Eq, Structural)]
pub enum SnapshotModel {
    Risico,
    Fwi,
}

impl SnapshotModel {
    pub open spec fn spec_name(self) -> Seq<char> {
        match self {
            SnapshotModel::Risico => "RISICO"@,
            SnapshotModel::Fwi => "FWI"@,
        }
    }

    /// The model name stored in, and expected from, a snapshot.
    pub fn name(&self) -> (name: &'static str)
        ensures
            name@ == self.spec_name(),
    {
        match self {
            SnapshotModel::Risico => "RISICO",
            SnapshotModel::Fwi => "FWI",
        }
    }
}

/// Snapshots name their model `RISICO` or `FWI`.
pub proof fn law_snapshot_model_names()
    ensures
        SnapshotModel::Risico.spec_name() == "RISICO"@,
        SnapshotModel::Fwi.spec_name() == "FWI"@,
        ragged_layout_name() == "contiguous_ragged_v1"@,
{
}

/// The layout FWI histories are stored in.
pub open spec fn ragged_layout_name() -> Seq<char> {
    "contiguous_ragged_v1"@
}

pub fn history_layout_name() -> (name: &'static str)
    ensures
        name@ == ragged_layout_name(),
{
    "contiguous_ragged_v1"
}

/// The identifying attributes of a stored snapshot.
#[derive(Clone, Debug)]
pub struct SnapshotHeader {
    pub schema_version: i32,
    pub model: String,
    pub model_version: String,
    pub grid_hash: String,
    /// Only FWI snapshots carry one.
    pub history_layout: Option<String>,
    pub cell_indexes: Vec<u32>,
}

/// Why a stored snapshot cannot seed a run.
#[derive(Clone, Copy, Debug, PartialEq, Eq, Structural)]
pub enum SnapshotError {
    UnsupportedSchema(i32),
    WrongModel,
    VersionMismatch,
    GridMismatch,
    MissingHistoryLayout,
    UnsupportedHistoryLayout,
    /// This active cell of the run maps to no record of the snapshot.
    CellOutsideSnapshot(u32),
    /// The variable at this position of the read order has the wrong length.
    VariableLength(usize),
    /// The FWI history variables differ in length from the history times.
    HistoryLengths,
    /// The FWI ragged index cannot be read back.
    History(RaggedIndexError),
}

/// The checks of a snapshot header's attributes, in the order they are made.
pub open spec fn spec_check_header(
    header: SnapshotHeader,
    model: SnapshotModel,
    model_version: Seq<char>,
    grid_hash: Seq<char>,
) -> Result<(), SnapshotError> {
    if header.schema_version != STATE_SCHEMA_VERSION {
        Err(SnapshotError::UnsupportedSchema(header.schema_version))
    } else if header.model@ != model.spec_name() {
        Err(SnapshotError::WrongModel)
    } else if header.model_version@ != model_version {
        Err(SnapshotError::VersionMismatch)
    } else if header.grid_hash@ != grid_hash {
        Err(SnapshotError::GridMismatch)
    } else if model == SnapshotModel::Fwi && header.history_layout is None {
        Err(SnapshotError::MissingHistoryLayout)
    } else if model == SnapshotModel::Fwi && header.history_layout.unwrap()@ != ragged_layout_name() {
        Err(SnapshotError::UnsupportedHistoryLayout)
    } else {
        Ok(())
    }
}

/// Whether `position` is where the record of grid cell `cell` sits among the
/// `stored` cell indexes: the first record stored for that cell.
pub open spec fn locates(stored: Seq<u32>, cell: u32, position: int) -> bool {
    &&& 0 <= position < stored.len()
    &&& stored[position] == cell
    &&& forall|q: int| 0 <= q < position ==> stored[q] != cell
}

/// Whether `positions` give, for each of the run's active cells, the record of
/// the snapshot stored for that cell.
pub open spec fn samples_cells(stored: Seq<u32>, expected: Seq<u32>, positions: Seq<usize>) -> bool {
    &&& positions.len() == expected.len()
    &&& forall|i: int| 0 <= i < expected.len() ==> locates(stored, expected[i], #[trigger] positions[i] as int)
}

/// Whether `error` reports the first of the run's active cells that the
/// snapshot holds no record for.
pub open spec fn misses_cell(stored: Seq<u32>, expected: Seq<u32>, error: SnapshotError) -> bool {
    exists|i: int|
        0 <= i < expected.len() && !stored.contains(#[trigger] expected[i])
            && (forall|j: int| 0 <= j < i ==> stored.contains(#[trigger] expected[j]))
            && error == SnapshotError::CellOutsideSnapshot(expected[i])
}

pub open spec fn strictly_increasing_u32(s: Seq<u32>) -> bool {
    forall|i: int, j: int| 0 <= i < j < s.len() ==> #[trigger] s[i] < #[trigger] s[j]
}

fn is_strictly_increasing(s: &[u32]) -> (b: bool)
    ensures
        b == strictly_increasing_u32(s@),
{
    let mut i: usize = 1;
    if s.len() < 2 {
        return true;
    }
    while i < s.len()
        invariant
            1 <= i <= s@.len(),
            forall|a: int, b: int| 0 <= a < b < i ==> #[trigger] s@[a] < #[trigger] s@[b],
        decreases s@.len() - i,
    {
        if s[i - 1] >= s[i] {
            return false;
        }
        proof {
            assert forall|a: int, b: int| 0 <= a < b < i + 1 implies #[trigger] s@[a] < #[trigger] s@[b] by {
                if b == i && a < i - 1 {
                    assert(s@[a] < s@[i - 1]);
                }
            }
        }
        i += 1;
    }
    true
}

/// Where the record of `cell` sits among `stored`, searching from the start.
fn find_cell(stored: &[u32], cell: u32) -> (found: Option<usize>)
    ensures
        match found {
            Some(p) => locates(stored@, cell, p as int),
            None => !stored@.contains(cell),
        },
{
    let mut q: usize = 0;
    while q < stored.len()
        invariant
            q <= stored@.len(),
            forall|r: int| 0 <= r < q ==> stored@[r] != cell,
        decreases stored@.len() - q,
    {
        if stored[q] == cell {
            return Some(q);
        }
        q += 1;
    }
    None
}

/// Samples a snapshot onto the run's active cells: for each cell, by grid
/// index, the position of the record the snapshot stores for it.
///
/// A snapshot may hold more cells than the run, for example one written for a
/// larger domain on the same grid; every cell of the run must find a record,
/// and the first cell that does not makes the snapshot invalid.
pub fn sample_cells(stored: &[u32], expected: &[u32]) -> (result: Result<Vec<usize>, SnapshotError>)
    ensures
        result is Ok <==> forall|i: int| 0 <= i < expected@.len() ==> stored@.contains(#[trigger] expected@[i]),
        match result {
            Ok(positions) => samples_cells(stored@, expected@, positions@),
            Err(error) => misses_cell(stored@, expected@, error),
        },
{
    let n = expected.len();
    let m = stored.len();
    let mut positions: Vec<usize> = Vec::new();
    if is_strictly_increasing(stored) && is_strictly_increasing(expected) {
        // Both in grid order: one walk through the stored cells.
        let mut i: usize = 0;
        let mut j: usize = 0;
        while i < n
            invariant
                n == expected@.len(),
                m == stored@.len(),
                strictly_increasing_u32(stored@),
                strictly_increasing_u32(expected@),
                i <= n,
                j <= m,
                positions@.len() == i,
                forall|k: int| 0 <= k < i ==> locates(stored@, expected@[k], #[trigger] positions@[k] as int),
                i < n ==> forall|q: int| 0 <= q < j ==> stored@[q] < expected@[i as int],
            decreases n - i,
        {
            while j < m && stored[j] < expected[i]
                invariant
                    n == expected@.len(),
                    m == stored@.len(),
                    i < n,
                    j <= m,
                    forall|q: int| 0 <= q < j ==> stored@[q] < expected@[i as int],
                decreases m - j,
            {
                j += 1;
            }
            if j < m && stored[j] == expected[i] {
                proof {
                    assert(locates(stored@, expected@[i as int], j as int));
                    assert forall|q: int| 0 <= q < j + 1 && i + 1 < n implies stored@[q] < expected@[i + 1] by {
                        assert(expected@[i as int] < expected@[i + 1]);
                    }
                }
                positions.push(j);
                j += 1;
                i += 1;
            } else {
                let cell = expected[i];
                proof {
                    assert forall|q: int| 0 <= q < m implies stored@[q] != cell by {
                        if q >= j {
                            if q > j {
                                assert(stored@[j as int] < stored@[q]);
                            }
                        }
                    }
                    assert(!stored@.contains(cell));
                    assert forall|k: int| 0 <= k < i implies stored@.contains(#[trigger] expected@[k]) by {
                        assert(stored@[positions@[k] as int] == expected@[k]);
                    }
                }
                return Err(SnapshotError::CellOutsideSnapshot(cell));
            }
        }
        proof {
            assert forall|k: int| 0 <= k < n implies stored@.contains(#[trigger] expected@[k]) by {
                assert(stored@[positions@[k] as int] == expected@[k]);
            }
        }
        return Ok(positions);
    }
    let mut i: usize = 0;
    while i < n
        invariant
            n == expected@.len(),
            i <= n,
            positions@.len() == i,
            forall|k: int| 0 <= k < i ==> locates(stored@, expected@[k], #[trigger] positions@[k] as int),
        decreases n - i,
    {
        match find_cell(stored, expected[i]) {
            Some(p) => {
                positions.push(p);
            },
            None => {
                proof {
                    assert forall|k: int| 0 <= k < i implies stored@.contains(#[trigger] expected@[k]) by {
                        assert(stored@[positions@[k] as int] == expected@[k]);
                    }
                }
                return Err(SnapshotError::CellOutsideSnapshot(expected[i]));
            },
        }
        i += 1;
    }
    proof {
        assert forall|k: int| 0 <= k < n implies stored@.contains(#[trigger] expected@[k]) by {
            assert(stored@[positions@[k] as int] == expected@[k]);
        }
    }
    Ok(positions)
}

/// Whether a snapshot can seed a run of `model` at `model_version` on the
/// grid `grid_hash`, and if so, where the record of each of the run's active
/// cells sits in it: the snapshot's state is sampled onto the run's cells, and
/// a cell the snapshot holds no record for makes it invalid.
pub fn check_snapshot_header(
    header: &SnapshotHeader,
    model: SnapshotModel,
    model_version: &str,
    grid_hash: &str,
    expected_cell_indexes: &[u32],
) -> (result: Result<Vec<usize>, SnapshotError>)
    ensures
        match spec_check_header(*header, model, model_version@, grid_hash@) {
            Err(error) => result == Err::<Vec<usize>, SnapshotError>(error),
            Ok(()) => match result {
                Ok(positions) => samples_cells(header.cell_indexes@, expected_cell_indexes@, positions@),
                Err(error) => misses_cell(header.cell_indexes@, expected_cell_indexes@, error),
            },
        },
        result is Ok <==> (spec_check_header(*header, model, model_version@, grid_hash@) is Ok
            && forall|i: int| 0 <= i < expected_cell_indexes@.len()
                ==> header.cell_indexes@.contains(#[trigger] expected_cell_indexes@[i])),
{
    if header.schema_version != STATE_SCHEMA_VERSION {
        return Err(SnapshotError::UnsupportedSchema(header.schema_version));
    }
    if !same_text(header.model.as_str(), model.name()) {
        return Err(SnapshotError::WrongModel);
    }
    if !same_text(header.model_version.as_str(), model_version) {
        return Err(SnapshotError::VersionMismatch);
    }
    if !same_text(header.grid_hash.as_str(), grid_hash) {
        return Err(SnapshotError::GridMismatch);
    }
    if model == SnapshotModel::Fwi {
        match &header.history_layout {
            None => return Err(SnapshotError::MissingHistoryLayout),
            Some(layout) => {
                if !same_text(layout.as_str(), history_layout_name()) {
                    return Err(SnapshotError::UnsupportedHistoryLayout);
                }
            },
        }
    }
    sample_cells(header.cell_indexes.as_slice(), expected_cell_indexes)
}

/// The first position whose length differs from `expected`, if any.
pub fn first_length_mismatch(lengths: &[usize], expected: usize) -> (found: Option<usize>)
    ensures
        match found {
            Some(k) => k < lengths@.len() && lengths@[k as int] != expected
                && forall|j: int| 0 <= j < k ==> lengths@[j] == expected,
            None => forall|j: int| 0 <= j < lengths@.len() ==> lengths@[j] == expected,
        },
{
    let mut k: usize = 0;
    while k < lengths.len()
        invariant
            k <= lengths@.len(),
            forall|j: int| 0 <= j < k ==> lengths@[j] == expected,
        decreases lengths@.len() - k,
    {
        if lengths[k] != expected {
            return Some(k);
        }
        k += 1;
    }
    None
}

/// Whether the per-cell variables of a RISICO snapshot, given by their
/// lengths in read order, each hold one value per cell the snapshot stores.
pub fn check_risico_variables(lengths: &[usize], expected_len: usize) -> (result: Result<(), SnapshotError>)
    ensures
        match result {
            Ok(()) => forall|j: int| 0 <= j < lengths@.len() ==> lengths@[j] == expected_len,
            Err(error) => exists|k: int| 0 <= k < lengths@.len() && lengths@[k] != expected_len
                && (forall|j: int| 0 <= j < k ==> lengths@[j] == expected_len)
                && error == SnapshotError::VariableLength(k as usize),
        },
{
    match first_length_mismatch(lengths, expected_len) {
        Some(k) => Err(SnapshotError::VariableLength(k)),
        None => Ok(()),
    }
}

/// The history runs of an FWI snapshot that stores `cell_count` cells.
///
/// `value_lengths` are the lengths of the per-observation variables (FFMC,
/// DMC, DC, rain); each must equal the number of history times.
pub fn fwi_history_runs(
    starts: &Vec<u64>,
    counts: &Vec<u32>,
    times: &Vec<i64>,
    value_lengths: &[usize],
    cell_count: usize,
) -> (result: Result<Vec<(usize, usize)>, SnapshotError>)
    ensures
        (starts@.len() != cell_count || counts@.len() != cell_count)
            ==> result == Err::<Vec<(usize, usize)>, SnapshotError>(SnapshotError::History(RaggedIndexError::IndexLengths)),
        (starts@.len() == cell_count && counts@.len() == cell_count
            && exists|k: int| 0 <= k < value_lengths@.len() && value_lengths@[k] != times@.len())
            ==> result == Err::<Vec<(usize, usize)>, SnapshotError>(SnapshotError::HistoryLengths),
        (starts@.len() == cell_count && counts@.len() == cell_count
            && forall|k: int| 0 <= k < value_lengths@.len() ==> value_lengths@[k] == times@.len())
            ==> match result {
                Ok(ranges) => runs_read_back(starts@, counts@, times@, cell_count as int,
                    Ok::<Vec<(usize, usize)>, RaggedIndexError>(ranges)),
                Err(SnapshotError::History(error)) => runs_read_back(starts@, counts@, times@, cell_count as int,
                    Err::<Vec<(usize, usize)>, RaggedIndexError>(error)),
                Err(_) => false,
            },
{
    if starts.len() != cell_count || counts.len() != cell_count {
        return Err(SnapshotError::History(RaggedIndexError::IndexLengths));
    }
    if let Some(_) = first_length_mismatch(value_lengths, times.len()) {
        return Err(SnapshotError::HistoryLengths);
    }
    match history_ranges(starts, counts, times, cell_count) {
        Ok(ranges) => Ok(ranges),
        Err(error) => Err(SnapshotError::History(error)),
    }
}

/// The lengths of each cell's FWI histories.
#[derive(Clone, Copy, Debug, PartialEq, Eq, Structural)]
pub struct HistoryShape {
    pub dates: usize,
    pub ffmc: usize,
    pub dmc: usize,
    pub dc: usize,
    pub rain: usize,
}

/// Why FWI warm state cannot be written as a snapshot.
#[derive(Clone, Copy, Debug, PartialEq, Eq, Structural)]
pub enum FwiStateError {
    /// The state does not have one cell per active grid cell.
    CellCountMismatch,
    /// This cell's histories have different lengths.
    InconsistentHistory(usize),
    /// This cell's history is too long for a 32-bit count.
    HistoryTooLong(usize),
    /// The histories together are too long for a 64-bit offset.
    TooManyObservations,
}

/// Whether every history of a cell is as long as its dates.
pub open spec fn histories_agree(shape: HistoryShape) -> bool {
    shape.ffmc == shape.dates && shape.dmc == shape.dates && shape.dc == shape.dates
        && shape.rain == shape.dates
}

/// How many observations a cell stores: its dates, or, for the legacy model,
/// one scalar observation when it has any moisture code at all.
pub open spec fn stored_observations(shape: HistoryShape, legacy: bool) -> usize {
    if legacy {
        if shape.ffmc > 0 || shape.dmc > 0 || shape.dc > 0 { 1 } else { 0 }
    } else {
        shape.dates
    }
}

/// Whether `model_version` names the legacy FWI model.
pub fn is_legacy_version(model_version: &str) -> (legacy: bool)
    ensures
        legacy == (model_version@ == "legacy"@),
{
    same_text(model_version, "legacy")
}

/// The number of observations each cell of an FWI state stores, checked
/// against the grid it is written for.
pub fn fwi_history_lengths(shapes: &Vec<HistoryShape>, cell_count: usize, legacy: bool)
    -> (result: Result<Vec<usize>, FwiStateError>)
    ensures
        shapes@.len() != cell_count ==> result == Err::<Vec<usize>, FwiStateError>(FwiStateError::CellCountMismatch),
        shapes@.len() == cell_count ==> match result {
            Ok(lengths) => {
                &&& lengths@.len() == cell_count
                &&& forall|c: int| 0 <= c < cell_count ==> legacy || histories_agree(#[trigger] shapes@[c])
                &&& forall|c: int| 0 <= c < cell_count ==> lengths@[c] == stored_observations(#[trigger] shapes@[c], legacy)
            },
            Err(error) => !legacy && exists|c: int| 0 <= c < cell_count
                && (forall|d: int| 0 <= d < c ==> histories_agree(#[trigger] shapes@[d]))
                && !histories_agree(shapes@[c])
                && error == FwiStateError::InconsistentHistory(c as usize),
        },
{
    if shapes.len() != cell_count {
        return Err(FwiStateError::CellCountMismatch);
    }
    let mut lengths: Vec<usize> = Vec::new();
    let mut c: usize = 0;
    while c < shapes.len()
        invariant
            shapes@.len() == cell_count,
            c <= cell_count,
            lengths@.len() == c,
            forall|d: int| 0 <= d < c ==> legacy || histories_agree(#[trigger] shapes@[d]),
            forall|d: int| 0 <= d < c ==> lengths@[d] == stored_observations(#[trigger] shapes@[d], legacy),
        decreases cell_count - c,
    {
        let shape = shapes[c];
        if legacy {
            if shape.ffmc > 0 || shape.dmc > 0 || shape.dc > 0 {
                lengths.push(1);
            } else {
                lengths.push(0);
            }
        } else {
            if shape.ffmc != shape.dates || shape.dmc != shape.dates || shape.dc != shape.dates
                || shape.rain != shape.dates {
                proof {
                    assert(!histories_agree(shapes@[c as int]));
                }
                return Err(FwiStateError::InconsistentHistory(c));
            }
            lengths.push(shape.dates);
        }
        c += 1;
    }
    Ok(lengths)
}

/// The paths and metadata a conversion of legacy warm state works with.
#[derive(Clone, Debug)]
pub struct ConvertArgs {
    /// Legacy filename prefix, or a directory when files are named only by time.
    pub legacy_prefix: String,
    /// GeoTIFF domain mask that defines the output grid.
    pub domain_mask: String,
    /// Destination directory for NetCDF snapshots.
    pub output: String,
    /// Model version stored in and validated against each snapshot.
    pub model_version: String,
    /// Convert only the newest legacy snapshot.
    pub latest_only: bool,
    /// Replace an existing NetCDF snapshot with the same time.
    pub overwrite: bool,
}

/// Why a model's configuration cannot drive a conversion.
#[derive(Clone, Copy, Debug, PartialEq, Eq, Structural)]
pub enum ConversionConfigError {
    /// The model has no GeoTIFF static data to take the domain mask from.
    MissingStaticData,
    /// The model has no NetCDF warm-state directory to write to.
    MissingWarmState,
    /// The model's warm state names no legacy snapshots to convert.
    MissingLegacyFallback,
}

/// The conversion a model's configuration describes: its domain mask, its
/// warm-state directory, the legacy prefix its warm state falls back to, and
/// the version and options given.
pub fn arguments_from_config(
    static_data: Option<StaticDataConfig>,
    warm_state: Option<WarmStateConfig>,
    model_version: String,
    latest_only: bool,
    overwrite: bool,
) -> (result: Result<ConvertArgs, ConversionConfigError>)
    ensures
        static_data is None ==> result == Err::<ConvertArgs, ConversionConfigError>(ConversionConfigError::MissingStaticData),
        static_data is Some && warm_state is None
            ==> result == Err::<ConvertArgs, ConversionConfigError>(ConversionConfigError::MissingWarmState),
        (static_data is Some && (warm_state matches Some(WarmStateConfig::NetCdf { legacy_fallback: None, .. })))
            ==> result == Err::<ConvertArgs, ConversionConfigError>(ConversionConfigError::MissingLegacyFallback),
        result matches Ok(args) ==> {
            &&& static_data matches Some(StaticDataConfig::GeoTiff { domain_mask, .. }) && args.domain_mask == domain_mask
            &&& warm_state matches Some(WarmStateConfig::NetCdf { directory, legacy_fallback: Some(prefix), .. })
                && args.output == directory && args.legacy_prefix == prefix
            &&& args.model_version == model_version
            &&& args.latest_only == latest_only
            &&& args.overwrite == overwrite
        },
        (static_data is Some && (warm_state matches Some(WarmStateConfig::NetCdf { legacy_fallback: Some(_), .. })))
            ==> result is Ok,
{
    let domain_mask = match static_data {
        Some(StaticDataConfig::GeoTiff { domain_mask, .. }) => domain_mask,
        None => return Err(ConversionConfigError::MissingStaticData),
    };
    let (output, legacy_prefix) = match warm_state {
        Some(WarmStateConfig::NetCdf { directory, legacy_fallback: Some(prefix), .. }) => (directory, prefix),
        Some(WarmStateConfig::NetCdf { legacy_fallback: None, .. }) => {
            return Err(ConversionConfigError::MissingLegacyFallback)
        },
        None => return Err(ConversionConfigError::MissingWarmState),
    };
    Ok(ConvertArgs { legacy_prefix, domain_mask, output, model_version, latest_only, overwrite })
}

/// A warm state whose cell count is not the domain's count of active cells.
#[derive(Clone, Copy, Debug, PartialEq, Eq, Structural)]
pub struct CellCountMismatch {
    pub state_cells: usize,
    pub active_cells: usize,
}

/// Whether a warm state has one cell per active cell of the domain.
pub fn validate_cell_count(state_cells: usize, active_cells: usize) -> (result: Result<(), CellCountMismatch>)
    ensures
        result is Ok <==> state_cells == active_cells,
        result matches Err(e) ==> e == (CellCountMismatch { state_cells, active_cells }),
{
    if state_cells != active_cells {
        Err(CellCountMismatch { state_cells, active_cells })
    } else {
        Ok(())
    }
}

/// What converting one legacy snapshot came to.
#[derive(Clone, Copy, Debug, PartialEq, Eq, Structural)]
pub enum ConversionOutcome {
    /// The snapshot was converted and the written file read back valid.
    Written,
    /// A converted file was already there and was kept.
    Skipped,
    /// The snapshot could not be converted.
    Failed,
}

/// How many of `outcomes` are `kind`.
pub open spec fn outcome_count(outcomes: Seq<ConversionOutcome>, kind: ConversionOutcome) -> nat
    decreases outcomes.len(),
{
    if outcomes.len() == 0 {
        0
    } else {
        outcome_count(outcomes.drop_last(), kind) + if outcomes.last() == kind { 1nat } else { 0nat }
    }
}

/// The counts a conversion run reports.
#[derive(Clone, Copy, Debug, PartialEq, Eq, Structural)]
pub struct ConversionTally {
    pub written: usize,
    pub skipped: usize,
    pub failed: usize,
}

proof fn lemma_outcome_counts(outcomes: Seq<ConversionOutcome>)
    ensures
        outcome_count(outcomes, ConversionOutcome::Written) + outcome_count(outcomes, ConversionOutcome::Skipped)
            + outcome_count(outcomes, ConversionOutcome::Failed) == outcomes.len(),
        outcome_count(outcomes, ConversionOutcome::Failed) == 0 <==> !outcomes.contains(ConversionOutcome::Failed),
    decreases outcomes.len(),
{
    if outcomes.len() > 0 {
        let rest = outcomes.drop_last();
        lemma_outcome_counts(rest);
        if outcomes.contains(ConversionOutcome::Failed) && outcomes.last() != ConversionOutcome::Failed {
            let k = choose|k: int| 0 <= k < outcomes.len() && outcomes[k] == ConversionOutcome::Failed;
            assert(rest[k] == ConversionOutcome::Failed);
        }
        if rest.contains(ConversionOutcome::Failed) {
            let k = choose|k: int| 0 <= k < rest.len() && rest[k] == ConversionOutcome::Failed;
            assert(outcomes[k] == ConversionOutcome::Failed);
        }
        if outcomes.last() == ConversionOutcome::Failed {
            assert(outcomes[outcomes.len() - 1] == ConversionOutcome::Failed);
        }
    }
}

/// The counts of a conversion run: every snapshot is tried, and a failed one
/// does not stop the others from being counted.
pub fn tally_conversions(outcomes: &Vec<ConversionOutcome>) -> (tally: ConversionTally)
    ensures
        tally.written == outcome_count(outcomes@, ConversionOutcome::Written),
        tally.skipped == outcome_count(outcomes@, ConversionOutcome::Skipped),
        tally.failed == outcome_count(outcomes@, ConversionOutcome::Failed),
        tally.written + tally.skipped + tally.failed == outcomes@.len(),
{
    let mut tally = ConversionTally { written: 0, skipped: 0, failed: 0 };
    let mut k: usize = 0;
    while k < outcomes.len()
        invariant
            k <= outcomes@.len(),
            tally.written == outcome_count(outcomes@.take(k as int), ConversionOutcome::Written),
            tally.skipped == outcome_count(outcomes@.take(k as int), ConversionOutcome::Skipped),
            tally.failed == outcome_count(outcomes@.take(k as int), ConversionOutcome::Failed),
        decreases outcomes@.len() - k,
    {
        proof {
            lemma_outcome_counts(outcomes@.take(k as int));
            assert(outcomes@.take(k + 1).drop_last() =~= outcomes@.take(k as int));
        }
        match outcomes[k] {
            ConversionOutcome::Written => tally.written = tally.written + 1,
            ConversionOutcome::Skipped => tally.skipped = tally.skipped + 1,
            ConversionOutcome::Failed => tally.failed = tally.failed + 1,
        }
        k += 1;
    }
    proof {
        assert(outcomes@.take(k as int) =~= outcomes@);
        lemma_outcome_counts(outcomes@);
    }
    tally
}

/// A conversion run succeeds exactly when no snapshot failed.
pub fn conversions_succeeded(outcomes: &Vec<ConversionOutcome>) -> (ok: bool)
    ensures
        ok <==> !outcomes@.contains(ConversionOutcome::Failed),
{
    let tally = tally_conversions(outcomes);
    proof {
        lemma_outcome_counts(outcomes@);
    }
    tally.failed == 0
}

} // verus!
