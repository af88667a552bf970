use vstd::prelude::*;
use vstd::string::StrSliceExecFns;
use crate::decimal::{is_numeric_char, numeric_prefix_len};
use crate::text::{chars_of, eq_ignore_ascii_case, range_eq_ignore_ascii_case, trim, trim_range};

verus! {

/// Why a human byte size (`6GB`, `768 MiB`, `512`) was rejected.
#[derive(Clone, Copy, Debug, PartialEq, Eq, Structural)]
pub enum ByteSizeError {
    /// Nothing but white space.
    Empty,
    /// No number, or a malformed one, before the unit.
    NoLeadingNumber,
    /// The amount is zero.
    NotPositive,
    /// A unit outside the decimal (`kB`..`TB`) and binary (`KiB`..`TiB`) scales.
    UnknownUnit,
}

/// The number of bytes a unit stands for; case is ignored and an empty unit
/// means bytes.
pub open spec fn unit_multiplier(unit: Seq<char>) -> Option<u64> {
    if unit.len() == 0 || eq_ignore_ascii_case(unit, seq!['b']) {
        Some(1)
    } else if eq_ignore_ascii_case(unit, seq!['k']) || eq_ignore_ascii_case(unit, seq!['k', 'b']) {
        Some(1_000)
    } else if eq_ignore_ascii_case(unit, seq!['m']) || eq_ignore_ascii_case(unit, seq!['m', 'b']) {
        Some(1_000_000)
    } else if eq_ignore_ascii_case(unit, seq!['g']) || eq_ignore_ascii_case(unit, seq!['g', 'b']) {
        Some(1_000_000_000)
    } else if eq_ignore_ascii_case(unit, seq!['t']) || eq_ignore_ascii_case(unit, seq!['t', 'b']) {
        Some(1_000_000_000_000)
    } else if eq_ignore_ascii_case(unit, seq!['k', 'i']) || eq_ignore_ascii_case(unit, seq!['k', 'i', 'b']) {
        Some(1024)
    } else if eq_ignore_ascii_case(unit, seq!['m', 'i']) || eq_ignore_ascii_case(unit, seq!['m', 'i', 'b']) {
        Some(1_048_576)
    } else if eq_ignore_ascii_case(unit, seq!['g', 'i']) || eq_ignore_ascii_case(unit, seq!['g', 'i', 'b']) {
        Some(1_073_741_824)
    } else if eq_ignore_ascii_case(unit, seq!['t', 'i']) || eq_ignore_ascii_case(unit, seq!['t', 'i', 'b']) {
        Some(1_099_511_627_776)
    } else {
        None
    }
}

fn is_numeric_exec(c: char) -> (b: bool)
    ensures
        b == is_numeric_char(c),
{
    ('0' <= c && c <= '9') || c == '.'
}

/// Whether `cs[lo..hi]` spells `word`, ignoring ASCII case.
fn unit_is(cs: &Vec<char>, lo: usize, hi: usize, word: &str) -> (b: bool)
    requires
        lo <= hi <= cs@.len(),
    ensures
        b == eq_ignore_ascii_case(cs@.subrange(lo as int, hi as int), word@),
{
    let w = chars_of(word);
    range_eq_ignore_ascii_case(cs, lo, hi, &w)
}

fn unit_multiplier_exec(cs: &Vec<char>, lo: usize, hi: usize) -> (m: Option<u64>)
    requires
        lo <= hi <= cs@.len(),
    ensures
        m == unit_multiplier(cs@.subrange(lo as int, hi as int)),
{
    proof {
        reveal_strlit("b");
        reveal_strlit("k");
        reveal_strlit("kb");
        reveal_strlit("m");
        reveal_strlit("mb");
        reveal_strlit("g");
        reveal_strlit("gb");
        reveal_strlit("t");
        reveal_strlit("tb");
        reveal_strlit("ki");
        reveal_strlit("kib");
        reveal_strlit("mi");
        reveal_strlit("mib");
        reveal_strlit("gi");
        reveal_strlit("gib");
        reveal_strlit("ti");
        reveal_strlit("tib");
        assert("b"@ =~= seq!['b']);
        assert("k"@ =~= seq!['k']);
        assert("kb"@ =~= seq!['k', 'b']);
        assert("m"@ =~= seq!['m']);
        assert("mb"@ =~= seq!['m', 'b']);
        assert("g"@ =~= seq!['g']);
        assert("gb"@ =~= seq!['g', 'b']);
        assert("t"@ =~= seq!['t']);
        assert("tb"@ =~= seq!['t', 'b']);
        assert("ki"@ =~= seq!['k', 'i']);
        assert("kib"@ =~= seq!['k', 'i', 'b']);
        assert("mi"@ =~= seq!['m', 'i']);
        assert("mib"@ =~= seq!['m', 'i', 'b']);
        assert("gi"@ =~= seq!['g', 'i']);
        assert("gib"@ =~= seq!['g', 'i', 'b']);
        assert("ti"@ =~= seq!['t', 'i']);
        assert("tib"@ =~= seq!['t', 'i', 'b']);
    }
    if lo == hi || unit_is(cs, lo, hi, "b") {
        Some(1)
    } else if unit_is(cs, lo, hi, "k") || unit_is(cs, lo, hi, "kb") {
        Some(1_000)
    } else if unit_is(cs, lo, hi, "m") || unit_is(cs, lo, hi, "mb") {
        Some(1_000_000)
    } else if unit_is(cs, lo, hi, "g") || unit_is(cs, lo, hi, "gb") {
        Some(1_000_000_000)
    } else if unit_is(cs, lo, hi, "t") || unit_is(cs, lo, hi, "tb") {
        Some(1_000_000_000_000)
    } else if unit_is(cs, lo, hi, "ki") || unit_is(cs, lo, hi, "kib") {
        Some(1024)
    } else if unit_is(cs, lo, hi, "mi") || unit_is(cs, lo, hi, "mib") {
        Some(1_048_576)
    } else if unit_is(cs, lo, hi, "gi") || unit_is(cs, lo, hi, "gib") {
        Some(1_073_741_824)
    } else if unit_is(cs, lo, hi, "ti") || unit_is(cs, lo, hi, "tib") {
        Some(1_099_511_627_776)
    } else {
        None
    }
}


/// The leading number of a human byte size: what precedes the first
/// character, after leading and trailing white space, that is neither an
/// ASCII digit nor a point.
pub open spec fn byte_size_number(text: Seq<char>) -> Seq<char> {
    let t = trim(text);
    t.take(numeric_prefix_len(t) as int)
}

/// The unit of a human byte size: what follows its number, trimmed.
pub open spec fn byte_size_unit(text: Seq<char>) -> Seq<char> {
    let t = trim(text);
    trim(t.skip(numeric_prefix_len(t) as int))
}

/// The number and the unit a human byte size is written with.
#[derive(Clone, Debug)]
pub struct ByteSizeText {
    pub number: String,
    pub unit: String,
}

/// Splits a human byte size such as `512MB`, `6 GiB` or `1.5GB` into its
/// leading number and its unit. Only a text of nothing but white space has
/// neither, and is rejected. Reading the number is left to the caller: it is
/// a floating-point amount.
pub fn split_byte_size(text: &str) -> (parts: Result<ByteSizeText, ByteSizeError>)
    ensures
        parts is Err <==> trim(text@).len() == 0,
        parts matches Err(e) ==> e == ByteSizeError::Empty,
        parts matches Ok(p) ==> p.number@ == byte_size_number(text@) && p.unit@ == byte_size_unit(text@),
{
    let cs = chars_of(text);
    let (lo, hi) = trim_range(&cs, 0, cs.len());
    assert(cs@.subrange(0, cs@.len() as int) =~= text@);
    let ghost t = cs@.subrange(lo as int, hi as int);
    if lo == hi {
        return Err(ByteSizeError::Empty);
    }
    let mut split = lo;
    while split < hi && is_numeric_exec(cs[split])
        invariant
            lo <= split <= hi <= cs@.len(),
            t == cs@.subrange(lo as int, hi as int),
            numeric_prefix_len(t) == (split - lo) + numeric_prefix_len(cs@.subrange(split as int, hi as int)),
        decreases hi - split,
    {
        assert(cs@.subrange(split as int, hi as int).drop_first() =~= cs@.subrange(split + 1, hi as int));
        split += 1;
    }
    let ghost k = (split - lo) as int;
    assert(numeric_prefix_len(t) == k);
    assert(t.take(k) =~= cs@.subrange(lo as int, split as int));
    assert(t.skip(k) =~= cs@.subrange(split as int, hi as int));
    let (unit_lo, unit_hi) = trim_range(&cs, split, hi);
    let number = text.substring_char(lo, split).to_owned();
    let unit = text.substring_char(unit_lo, unit_hi).to_owned();
    Ok(ByteSizeText { number, unit })
}

/// The number of bytes a unit stands for, if it is one of the decimal
/// (`kB`..`TB`) or binary (`KiB`..`TiB`) units, a bare `B` or nothing; case is
/// ignored.
pub fn byte_unit_multiplier(unit: &str) -> (m: Option<u64>)
    ensures
        m == unit_multiplier(unit@),
{
    let cs = chars_of(unit);
    assert(cs@.subrange(0, cs@.len() as int) =~= unit@);
    unit_multiplier_exec(&cs, 0, cs.len())
}

/// Where the static layers of a model come from.
#[derive(Debug, Clone, PartialEq, Eq)]
pub enum StaticDataConfig {
    /// Aligned single-band GeoTIFF layers; the domain mask defines the grid.
    GeoTiff {
        domain_mask: String,
        slope: Option<String>,
        aspect: Option<String>,
        vegetation_id: Option<String>,
        vegetation_catalog: Option<String>,
        ppf_summer: Option<String>,
        ppf_winter: Option<String>,
    },
}

/// What a run does when no valid warm-state snapshot is found.
#[derive(Debug, Clone, Copy, PartialEq, Eq, Structural)]
pub enum MissingWarmStatePolicy {
    /// Stop the run.
    Error,
    /// Seed the run with default state.
    Defaults,
}

impl Default for MissingWarmStatePolicy {
    fn default() -> (policy: Self)
        ensures
            policy == MissingWarmStatePolicy::Error,
    {
        MissingWarmStatePolicy::Error
    }
}

/// Where warm-state snapshots are read from and written to.
#[derive(Debug, Clone, PartialEq, Eq)]
pub enum WarmStateConfig {
    /// NetCDF snapshots in `directory`; `legacy_fallback` is the prefix of the
    /// legacy text snapshots that a conversion turns into NetCDF ones.
    NetCdf {
        directory: String,
        max_age_hours: Option<i64>,
        on_missing: MissingWarmStatePolicy,
        legacy_fallback: Option<String>,
    },
}

pub fn default_tile_height() -> (h: usize)
    ensures
        h == 512,
{
    512
}

pub fn default_tile_width() -> (w: usize)
    ensures
        w == 512,
{
    512
}

pub fn default_cells_per_tile() -> (n: usize)
    ensures
        n == 1_048_576,
{
    1_048_576
}

/// Model-independent controls for bounded-memory execution.
///
/// Raster-backed models use two-dimensional windows. Point models use batches
/// in their configured cell order but enter the same tile runner.
#[derive(Debug, Clone)]
pub struct StreamingExecutionConfig {
    pub tile_height: usize,
    pub tile_width: usize,
    pub cells_per_tile: usize,
    /// How many tiles may be processed at once.
    pub tile_concurrency: Option<usize>,
    /// Target peak resident size, as a human size such as `6GB` or `768 MiB`.
    pub max_memory: Option<String>,
    pub scratch_directory: Option<String>,
}

impl Default for StreamingExecutionConfig {
    fn default() -> (config: Self)
        ensures
            config.tile_height == 512,
            config.tile_width == 512,
            config.cells_per_tile == 1_048_576,
            config.tile_concurrency is None,
            config.max_memory is None,
            config.scratch_directory is None,
    {
        StreamingExecutionConfig {
            tile_height: default_tile_height(),
            tile_width: default_tile_width(),
            cells_per_tile: default_cells_per_tile(),
            tile_concurrency: None,
            max_memory: None,
            scratch_directory: None,
        }
    }
}

/// Why a streaming configuration was rejected.
#[derive(Clone, Copy, Debug, PartialEq, Eq, Structural)]
pub enum StreamingConfigError {
    /// A tile height or width of zero.
    ZeroTileDimension,
    /// Zero cells per point-model batch.
    ZeroCellsPerTile,
    /// A tile concurrency of zero.
    ZeroTileConcurrency,
    /// A `max_memory` that is not a byte size.
    MaxMemory(ByteSizeError),
}

impl StreamingExecutionConfig {
    /// The checks a configuration must pass, in the order they are made;
    /// `budget` is what its `max_memory` reads as.
    pub open spec fn spec_validate(&self, budget: Result<Option<u64>, ByteSizeError>) -> Result<(), StreamingConfigError> {
        if self.tile_height == 0 || self.tile_width == 0 {
            Err(StreamingConfigError::ZeroTileDimension)
        } else if self.cells_per_tile == 0 {
            Err(StreamingConfigError::ZeroCellsPerTile)
        } else if self.tile_concurrency == Some(0usize) {
            Err(StreamingConfigError::ZeroTileConcurrency)
        } else {
            match budget {
                Err(error) => Err(StreamingConfigError::MaxMemory(error)),
                Ok(_) => Ok(()),
            }
        }
    }

    /// Checks the configuration, given `budget`, what its `max_memory` reads
    /// as: none when it has none, or the byte count or error that reading the
    /// human size gives.
    pub fn validate(&self, budget: Result<Option<u64>, ByteSizeError>) -> (result: Result<(), StreamingConfigError>)
        ensures
            result == self.spec_validate(budget),
    {
        if self.tile_height == 0 || self.tile_width == 0 {
            return Err(StreamingConfigError::ZeroTileDimension);
        }
        if self.cells_per_tile == 0 {
            return Err(StreamingConfigError::ZeroCellsPerTile);
        }
        if let Some(threads) = self.tile_concurrency {
            if threads == 0 {
                return Err(StreamingConfigError::ZeroTileConcurrency);
            }
        }
        match budget {
            Err(error) => Err(StreamingConfigError::MaxMemory(error)),
            Ok(_) => Ok(()),
        }
    }
}

} // verus!
