//! The row layouts of the legacy text files: RISICO and FWI warm states and
//! the static cell lists, and the canonical order of converted cells.

use vstd::prelude::*;

use crate::timeline::{parse_minutes_stamp, parsed_utc};
use crate::tokens::{pieces, split_on, texts, TextRow};

verus! {

/// Why a row of a legacy text file was rejected; `line` counts from zero.
#[derive(Clone, Copy, Debug, PartialEq, Eq, Structural)]
pub enum LegacyRowError {
    /// A RISICO warm-state row without 7 or 9 columns.
    RisicoColumns { line: usize, found: usize },
    /// An FWI warm-state row without 4 or 5 columns.
    FwiColumns { line: usize, found: usize },
    /// An FWI history date that is not a `YYYYmmDDHHMM` time.
    FwiDate { line: usize },
    /// FWI histories of different (or no) lengths.
    FwiHistoryLengths { line: usize },
    /// A static cell row with fewer columns than the file needs.
    StaticColumns { line: usize, found: usize },
    /// A file without any data row.
    NoRows,
}

/// Whether a legacy file has any data row: a warm state with no cells, or a
/// cell list with no cells, is rejected once its rows have been read.
pub fn rows_present(rows: &Vec<TextRow>) -> (result: Result<(), LegacyRowError>)
    ensures
        result is Ok <==> rows@.len() > 0,
        result matches Err(e) ==> e == LegacyRowError::NoRows,
{
    if rows.len() == 0 {
        Err(LegacyRowError::NoRows)
    } else {
        Ok(())
    }
}

/// Whether a RISICO warm-state row carries the NDWI columns: rows have 7
/// columns, or 9 with NDWI and its time.
pub fn risico_row_has_ndwi(row: &TextRow) -> (has: Result<bool, LegacyRowError>)
    ensures
        match has {
            Ok(ndwi) => (row.columns@.len() == 7 && !ndwi) || (row.columns@.len() == 9 && ndwi),
            Err(e) => row.columns@.len() != 7 && row.columns@.len() != 9
                && e == (LegacyRowError::RisicoColumns { line: row.line, found: row.columns@.len() as usize }),
        },
{
    let n = row.columns.len();
    if n == 7 {
        Ok(false)
    } else if n == 9 {
        Ok(true)
    } else {
        Err(LegacyRowError::RisicoColumns { line: row.line, found: n })
    }
}

/// The fields of a RISICO warm-state row, before the numbers are read:
/// `dffm snow_cover snow_cover_time MSI MSI_TTL NDVI NDVI_TIME`, then NDWI
/// and its time in the current layout only.
#[derive(Clone, Debug)]
pub struct RisicoRowFields {
    pub dffm: String,
    pub snow_cover: String,
    pub snow_cover_time: String,
    pub msi: String,
    pub msi_ttl: String,
    pub ndvi: String,
    pub ndvi_time: String,
    /// NDWI and its time; absent from rows of the old seven-column layout.
    pub ndwi: Option<(String, String)>,
}

/// The fields of a RISICO warm-state row, each from its column.
pub fn risico_row_fields(row: &TextRow) -> (fields: Result<RisicoRowFields, LegacyRowError>)
    ensures
        match fields {
            Ok(f) => {
                let c = texts(row.columns@);
                &&& (c.len() == 7 || c.len() == 9)
                &&& f.dffm@ == c[0] && f.snow_cover@ == c[1] && f.snow_cover_time@ == c[2]
                &&& f.msi@ == c[3] && f.msi_ttl@ == c[4] && f.ndvi@ == c[5] && f.ndvi_time@ == c[6]
                &&& match f.ndwi {
                    None => c.len() == 7,
                    Some((ndwi, ndwi_time)) => c.len() == 9 && ndwi@ == c[7] && ndwi_time@ == c[8],
                }
            },
            Err(e) => row.columns@.len() != 7 && row.columns@.len() != 9
                && e == (LegacyRowError::RisicoColumns { line: row.line, found: row.columns@.len() as usize }),
        },
{
    let has_ndwi = match risico_row_has_ndwi(row) {
        Err(e) => return Err(e),
        Ok(has) => has,
    };
    let c = &row.columns;
    let ndwi = if has_ndwi { Some((c[7].clone(), c[8].clone())) } else { None };
    Ok(RisicoRowFields {
        dffm: c[0].clone(),
        snow_cover: c[1].clone(),
        snow_cover_time: c[2].clone(),
        msi: c[3].clone(),
        msi_ttl: c[4].clone(),
        ndvi: c[5].clone(),
        ndvi_time: c[6].clone(),
        ndwi,
    })
}

/// The fields of an FWI warm-state row, before the numbers are read.
#[derive(Clone, Debug)]
pub struct FwiRowFields {
    pub dates: Vec<i64>,
    pub ffmc: Vec<String>,
    pub dmc: Vec<String>,
    pub dc: Vec<String>,
    pub rain: Vec<String>,
}

/// The times of `stamps`, when every one is a `YYYYmmDDHHMM` time.
pub open spec fn stamp_times(stamps: Seq<Seq<char>>) -> Option<Seq<i64>>
    decreases stamps.len(),
{
    if stamps.len() == 0 {
        Some(Seq::empty())
    } else {
        match (stamp_times(stamps.drop_last()), parsed_utc(stamps.last(), "%Y%m%d%H%M"@)) {
            (Some(times), Some(t)) => Some(times.push(t)),
            _ => None,
        }
    }
}

/// Whether `fields` are what an FWI row with these columns holds: the
/// five-column history layout `dates ffmc dmc dc rain`, or the deployed
/// four-column scalar layout `rain ffmc dmc dc` dated at `snapshot_time`.
pub open spec fn fwi_fields_of(columns: Seq<Seq<char>>, snapshot_time: i64, fields: FwiRowFields) -> bool {
    if columns.len() == 5 {
        &&& stamp_times(pieces(columns[0], ',')) == Some(fields.dates@)
        &&& texts(fields.ffmc@) == pieces(columns[1], ',')
        &&& texts(fields.dmc@) == pieces(columns[2], ',')
        &&& texts(fields.dc@) == pieces(columns[3], ',')
        &&& texts(fields.rain@) == pieces(columns[4], ',')
    } else {
        &&& fields.dates@ == seq![snapshot_time]
        &&& texts(fields.rain@) == pieces(columns[0], ',')
        &&& texts(fields.ffmc@) == pieces(columns[1], ',')
        &&& texts(fields.dmc@) == pieces(columns[2], ',')
        &&& texts(fields.dc@) == pieces(columns[3], ',')
    }
}

fn stamps_to_times(stamps: &Vec<String>) -> (times: Option<Vec<i64>>)
    ensures
        match times {
            Some(t) => stamp_times(texts(stamps@)) == Some(t@),
            None => stamp_times(texts(stamps@)) is None,
        },
{
    let mut times: Vec<i64> = Vec::new();
    let mut k: usize = 0;
    while k < stamps.len()
        invariant
            k <= stamps@.len(),
            stamp_times(texts(stamps@.take(k as int))) == Some(times@),
        decreases stamps@.len() - k,
    {
        proof {
            assert(texts(stamps@.take(k + 1)).drop_last() =~= texts(stamps@.take(k as int)));
            assert(texts(stamps@.take(k + 1)).last() == stamps@[k as int]@);
        }
        match parse_minutes_stamp(stamps[k].as_str()) {
            None => {
                proof {
                    lemma_stamp_times_prefix(texts(stamps@), k + 1);
                    assert(texts(stamps@).take(k + 1) =~= texts(stamps@.take(k + 1)));
                }
                return None;
            },
            Some(t) => {
                times.push(t);
            },
        }
        k += 1;
    }
    proof {
        assert(stamps@.take(k as int) =~= stamps@);
    }
    Some(times)
}

/// A list with an unreadable stamp has no times, however it continues.
proof fn lemma_stamp_times_prefix(stamps: Seq<Seq<char>>, n: int)
    requires
        0 <= n <= stamps.len(),
        stamp_times(stamps.take(n)) is None,
    ensures
        stamp_times(stamps) is None,
    decreases stamps.len() - n,
{
    if n < stamps.len() {
        assert(stamps.take(n + 1).drop_last() =~= stamps.take(n));
        lemma_stamp_times_prefix(stamps, n + 1);
    } else {
        assert(stamps.take(n) =~= stamps);
    }
}

/// An FWI row is read column by column: FFMC, DMC and DC are always columns
/// 1, 2 and 3; rain is the last column of the history layout and the first of
/// the deployed scalar one.
pub proof fn law_fwi_columns(columns: Seq<Seq<char>>, snapshot_time: i64, fields: FwiRowFields)
    requires
        columns.len() == 4 || columns.len() == 5,
        fwi_fields_of(columns, snapshot_time, fields),
    ensures
        texts(fields.ffmc@) == pieces(columns[1], ','),
        texts(fields.dmc@) == pieces(columns[2], ','),
        texts(fields.dc@) == pieces(columns[3], ','),
        columns.len() == 5 ==> texts(fields.rain@) == pieces(columns[4], ',')
            && stamp_times(pieces(columns[0], ',')) == Some(fields.dates@),
        columns.len() == 4 ==> texts(fields.rain@) == pieces(columns[0], ',')
            && fields.dates@ == seq![snapshot_time],
{
}

/// The fields of an FWI warm-state row.
pub fn fwi_row_fields(row: &TextRow, snapshot_time: i64) -> (fields: Result<FwiRowFields, LegacyRowError>)
    ensures
        match fields {
            Ok(f) => (row.columns@.len() == 4 || row.columns@.len() == 5)
                && fwi_fields_of(texts(row.columns@), snapshot_time, f)
                && texts(f.ffmc@) == pieces(row.columns@[1]@, ',')
                && texts(f.dmc@) == pieces(row.columns@[2]@, ',')
                && texts(f.dc@) == pieces(row.columns@[3]@, ',')
                && (row.columns@.len() == 5 ==> texts(f.rain@) == pieces(row.columns@[4]@, ',')
                    && stamp_times(pieces(row.columns@[0]@, ',')) == Some(f.dates@))
                && (row.columns@.len() == 4 ==> texts(f.rain@) == pieces(row.columns@[0]@, ',')
                    && f.dates@ == seq![snapshot_time]),
            Err(e) => if row.columns@.len() != 4 && row.columns@.len() != 5 {
                e == (LegacyRowError::FwiColumns { line: row.line, found: row.columns@.len() as usize })
            } else {
                row.columns@.len() == 5 && stamp_times(pieces(row.columns@[0]@, ',')) is None
                    && e == (LegacyRowError::FwiDate { line: row.line })
            },
        },
{
    let n = row.columns.len();
    if n == 5 {
        let stamps = split_on(row.columns[0].as_str(), ',');
        let dates = match stamps_to_times(&stamps) {
            None => return Err(LegacyRowError::FwiDate { line: row.line }),
            Some(dates) => dates,
        };
        Ok(FwiRowFields {
            dates,
            ffmc: split_on(row.columns[1].as_str(), ','),
            dmc: split_on(row.columns[2].as_str(), ','),
            dc: split_on(row.columns[3].as_str(), ','),
            rain: split_on(row.columns[4].as_str(), ','),
        })
    } else if n == 4 {
        let mut dates: Vec<i64> = Vec::new();
        dates.push(snapshot_time);
        proof {
            assert(dates@ =~= seq![snapshot_time]);
        }
        Ok(FwiRowFields {
            dates,
            rain: split_on(row.columns[0].as_str(), ','),
            ffmc: split_on(row.columns[1].as_str(), ','),
            dmc: split_on(row.columns[2].as_str(), ','),
            dc: split_on(row.columns[3].as_str(), ','),
        })
    } else {
        Err(LegacyRowError::FwiColumns { line: row.line, found: n })
    }
}

/// Whether a cell's FWI histories are usable: at least one date, and every
/// history as long as its dates.
pub fn fwi_histories_consistent(dates: usize, ffmc: usize, dmc: usize, dc: usize, rain: usize) -> (ok: bool)
    ensures
        ok == (dates > 0 && ffmc == dates && dmc == dates && dc == dates && rain == dates),
{
    dates > 0 && ffmc == dates && dmc == dates && dc == dates && rain == dates
}

/// Whether a static cell row has the `needed` leading columns.
pub fn static_row_columns(row: &TextRow, needed: usize) -> (result: Result<(), LegacyRowError>)
    ensures
        result is Ok <==> row.columns@.len() >= needed,
        result matches Err(e) ==> e == (LegacyRowError::StaticColumns { line: row.line, found: row.columns@.len() as usize }),
{
    if row.columns.len() < needed {
        Err(LegacyRowError::StaticColumns { line: row.line, found: row.columns.len() })
    } else {
        Ok(())
    }
}

/// Why a converted cell cannot be placed on the output grid; `row` counts
/// the cell rows from zero.
#[derive(Clone, Copy, Debug, PartialEq, Eq, Structural)]
pub enum PlacementError {
    /// The cell is off the grid, or not at a grid point.
    NotAligned { row: usize },
    /// The cell does not come after the previous one in north-to-south,
    /// west-to-east order (or repeats it).
    OutOfOrder { row: usize },
}

/// The grid index of a converted cell at column `col` and row `row` of a
/// `width` by `height` grid, given whether it sits on a grid point and the
/// index of the cell before it.
///
/// Cells must be unique and come in north-to-south, west-to-east order, so
/// every index placed is greater than the one before.
pub fn canonical_index(
    col: i64,
    row: i64,
    aligned: bool,
    width: usize,
    height: usize,
    row_number: usize,
    previous: Option<usize>,
) -> (index: Result<usize, PlacementError>)
    requires
        width * height <= usize::MAX,
    ensures
        match index {
            Ok(i) => {
                &&& aligned && 0 <= col < width && 0 <= row < height
                &&& i == row * width + col
                &&& i < width * height
                &&& previous matches Some(p) ==> p < i
            },
            Err(e) => if !(aligned && 0 <= col < width && 0 <= row < height) {
                e == (PlacementError::NotAligned { row: row_number })
            } else {
                previous matches Some(p) && p >= row * width + col
                    && e == (PlacementError::OutOfOrder { row: row_number })
            },
        },
{
    if col < 0 || row < 0 || col as u64 >= width as u64 || row as u64 >= height as u64 || !aligned {
        return Err(PlacementError::NotAligned { row: row_number });
    }
    let c = col as usize;
    let r = row as usize;
    proof {
        assert(r * width + c < width * height) by (nonlinear_arith)
            requires
                r < height,
                c < width;
    }
    let index = r * width + c;
    if let Some(p) = previous {
        if p >= index {
            return Err(PlacementError::OutOfOrder { row: row_number });
        }
    }
    Ok(index)
}

/// The fields of a vegetation catalog row, before the numbers are read.
#[derive(Clone, Debug)]
pub struct VegetationFields {
    pub id: String,
    /// `d0`, `d1`, `hhv`, `umid`, `v0`, `T0` and `sat`, in that order.
    pub numbers: Vec<String>,
    pub use_ndvi: bool,
    pub name: String,
}

/// Why a vegetation catalog row was rejected; `line` counts from zero.
#[derive(Clone, Copy, Debug, PartialEq, Eq, Structural)]
pub enum VegetationRowError {
    /// Fewer than nine columns.
    TooFewColumns { line: usize },
    /// A tenth column whose NDVI flag is neither `true` nor `false`.
    NdviFlag { line: usize },
}

/// Whether a catalog line is skipped: the header comment of the first line,
/// or an empty line.
pub open spec fn vegetation_line_skipped(index: int, line: Seq<char>) -> bool {
    (index == 0 && line.len() > 0 && line[0] == '#') || line.len() == 0
}

/// Whether `fields` are what a catalog row with these columns holds.
pub open spec fn vegetation_fields_of(columns: Seq<Seq<char>>, fields: VegetationFields) -> bool {
    &&& fields.id@ == columns[0]
    &&& texts(fields.numbers@) == columns.subrange(1, 8)
    &&& fields.name@ == columns.last()
    &&& fields.use_ndvi == (columns.len() >= 10 && columns[8] == "true"@)
}

/// The fields of line `index` of a vegetation catalog: none for a skipped
/// line; nine columns at least, the NDVI flag read from the ninth when a
/// tenth follows, and the name from the last.
pub fn vegetation_row(index: usize, line: &str) -> (row: Result<Option<VegetationFields>, VegetationRowError>)
    ensures
        vegetation_line_skipped(index as int, line@) ==> row matches Ok(None),
        !vegetation_line_skipped(index as int, line@) ==> match row {
            Ok(Some(fields)) => crate::tokens::words(line@).len() >= 9
                && vegetation_fields_of(crate::tokens::words(line@), fields),
            Ok(None) => false,
            Err(VegetationRowError::TooFewColumns { line: l }) => l == index && crate::tokens::words(line@).len() < 9,
            Err(VegetationRowError::NdviFlag { line: l }) => l == index && crate::tokens::words(line@).len() >= 10
                && crate::tokens::words(line@)[8] != "true"@ && crate::tokens::words(line@)[8] != "false"@,
        },
{
    let cs = crate::text::chars_of(line);
    if cs.len() == 0 || (index == 0 && cs[0] == '#') {
        return Ok(None);
    }
    let columns = crate::tokens::split_whitespace(line);
    let n = columns.len();
    proof {
        assert(texts(columns@).len() == columns@.len());
    }
    if n < 9 {
        return Err(VegetationRowError::TooFewColumns { line: index });
    }
    let use_ndvi = if n >= 10 {
        if crate::text::same_text(columns[8].as_str(), "true") {
            true
        } else if crate::text::same_text(columns[8].as_str(), "false") {
            false
        } else {
            return Err(VegetationRowError::NdviFlag { line: index });
        }
    } else {
        false
    };
    let mut numbers: Vec<String> = Vec::new();
    let mut k: usize = 1;
    while k < 8
        invariant
            1 <= k <= 8,
            n == columns@.len(),
            n >= 9,
            texts(numbers@) == texts(columns@).subrange(1, k as int),
        decreases 8 - k,
    {
        let ghost before = numbers@;
        let item = columns[k].clone();
        numbers.push(item);
        proof {
            assert(numbers@ == before.push(item));
            assert(texts(numbers@) =~= texts(before).push(item@));
            assert(item@ == texts(columns@)[k as int]);
            assert(texts(numbers@) =~= texts(columns@).subrange(1, k + 1));
        }
        k += 1;
    }
    Ok(Some(VegetationFields { id: columns[0].clone(), numbers, use_ndvi, name: columns[n - 1].clone() }))
}

} // verus!
