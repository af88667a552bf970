//! Source-grid positions of model cells, and output colours.

use vstd::prelude::*;

use crate::tokens::{rows_from, pieces, rows_view, text_rows, TextRow};

verus! {

/// Marks a model cell that falls outside the source grid.
pub const UNMAPPED_CELL: u32 = 0xffff_ffff;

/// Source-grid positions for a set of model cells, four bytes each.
///
/// A sentinel keeps the position or its absence in one `u32`.
#[derive(Clone, Debug)]
pub struct CellIndexes {
    indexes: Vec<u32>,
}

/// A position packed into a `u32`, the sentinel standing for none.
pub open spec fn packed(position: Option<usize>) -> u32 {
    match position {
        Some(index) => index as u32,
        None => UNMAPPED_CELL,
    }
}

/// A packed position unpacked.
pub open spec fn unpacked(index: u32) -> Option<usize> {
    if index == UNMAPPED_CELL { None } else { Some(index as usize) }
}

/// Whether every position can be packed: each below the sentinel.
pub open spec fn packable(positions: Seq<Option<usize>>) -> bool {
    forall|k: int| 0 <= k < positions.len() ==> (#[trigger] positions[k] matches Some(i) ==> i < UNMAPPED_CELL)
}

impl CellIndexes {
    /// Each cell's source-grid position, or `None` where it is unmapped.
    pub closed spec fn positions(&self) -> Seq<Option<usize>> {
        Seq::new(self.indexes@.len(), |k: int| unpacked(self.indexes@[k]))
    }

    /// Packs one source-grid position (or none) per model cell.
    pub fn from_positions(positions: &Vec<Option<usize>>) -> (indexes: CellIndexes)
        requires
            packable(positions@),
        ensures
            indexes.positions() == positions@,
    {
        let mut packed_indexes: Vec<u32> = Vec::new();
        let mut k: usize = 0;
        while k < positions.len()
            invariant
                packable(positions@),
                k <= positions@.len(),
                packed_indexes@.len() == k,
                forall|j: int| 0 <= j < k ==> unpacked(#[trigger] packed_indexes@[j]) == positions@[j],
            decreases positions@.len() - k,
        {
            let value = match positions[k] {
                Some(index) => index as u32,
                None => UNMAPPED_CELL,
            };
            proof {
                assert(positions@[k as int] matches Some(i) ==> i < UNMAPPED_CELL);
            }
            packed_indexes.push(value);
            k += 1;
        }
        let indexes = CellIndexes { indexes: packed_indexes };
        proof {
            assert(indexes.positions() =~= positions@);
        }
        indexes
    }

    pub fn len(&self) -> (n: usize)
        ensures
            n == self.positions().len(),
    {
        self.indexes.len()
    }

    pub fn is_empty(&self) -> (empty: bool)
        ensures
            empty == (self.positions().len() == 0),
    {
        self.indexes.len() == 0
    }

    /// The source-grid position of a model cell, or `None` if it is unmapped
    /// or not a cell of this set.
    pub fn get(&self, position: usize) -> (index: Option<usize>)
        ensures
            index == (if position < self.positions().len() { self.positions()[position as int] } else { None }),
    {
        if position >= self.indexes.len() {
            return None;
        }
        let index = self.indexes[position];
        if index == UNMAPPED_CELL {
            None
        } else {
            Some(index as usize)
        }
    }

    /// One source value per model cell, `nodata` where the cell has no
    /// counterpart on the source grid.
    pub fn gather<T: Copy>(&self, values: &[T], nodata: T) -> (gathered: Vec<T>)
        requires
            forall|k: int| 0 <= k < self.positions().len() ==>
                (#[trigger] self.positions()[k] matches Some(i) ==> i < values@.len()),
        ensures
            gathered@.len() == self.positions().len(),
            forall|k: int| 0 <= k < self.positions().len() ==> #[trigger] gathered@[k] == match self.positions()[k] {
                Some(i) => values@[i as int],
                None => nodata,
            },
    {
        let mut gathered: Vec<T> = Vec::new();
        let mut k: usize = 0;
        while k < self.indexes.len()
            invariant
                forall|j: int| 0 <= j < self.positions().len() ==>
                    (#[trigger] self.positions()[j] matches Some(i) ==> i < values@.len()),
                k <= self.indexes@.len(),
                gathered@.len() == k,
                forall|j: int| 0 <= j < k ==> #[trigger] gathered@[j] == match self.positions()[j] {
                    Some(i) => values@[i as int],
                    None => nodata,
                },
            decreases self.indexes@.len() - k,
        {
            let index = self.indexes[k];
            proof {
                assert(self.positions()[k as int] == unpacked(index));
            }
            if index == UNMAPPED_CELL {
                gathered.push(nodata);
            } else {
                gathered.push(values[index as usize]);
            }
            k += 1;
        }
        gathered
    }
}

/// A colour of a palette.
#[derive(Clone, Copy, Debug, PartialEq, Eq, Structural)]
pub struct Color {
    pub r: u8,
    pub g: u8,
    pub b: u8,
    pub a: u8,
}

/// The colour used where a palette has none to give.
pub fn transparent() -> (color: Color)
    ensures
        color == (Color { r: 0, g: 0, b: 0, a: 0 }),
{
    Color { r: 0, g: 0, b: 0, a: 0 }
}

/// The rows with at least five columns: a bound and four colour components.
pub open spec fn palette_entries(rows: Seq<(int, Seq<Seq<char>>)>) -> Seq<(int, Seq<Seq<char>>)>
    decreases rows.len(),
{
    if rows.len() == 0 {
        rows
    } else if rows.last().1.len() >= 5 {
        palette_entries(rows.drop_last()).push(rows.last())
    } else {
        palette_entries(rows.drop_last())
    }
}

/// The entries of a palette file: its data rows (blank lines and `#`
/// comments left out) with at least a bound and four colour components.
pub fn palette_rows(text: &str) -> (rows: Vec<TextRow>)
    ensures
        rows_view(rows@) == palette_entries(rows_from(pieces(text@, '\n'), 0, false)),
{
    let all = text_rows(text, false);
    let ghost view = rows_view(all@);
    let mut rows: Vec<TextRow> = Vec::new();
    let mut k: usize = 0;
    while k < all.len()
        invariant
            view == rows_view(all@),
            k <= all@.len(),
            rows_view(rows@) == palette_entries(view.take(k as int)),
        decreases all@.len() - k,
    {
        let row = all[k].clone();
        proof {
            assert(view.take(k + 1).drop_last() =~= view.take(k as int));
            assert(view.take(k + 1).last() == view[k as int]);
        }
        if all[k].columns.len() >= 5 {
            let kept = TextRow { line: all[k].line, columns: clone_texts(&all[k].columns) };
            proof {
                assert(rows_view(rows@.push(kept)) =~= rows_view(rows@).push(view[k as int]));
            }
            rows.push(kept);
        }
        k += 1;
    }
    proof {
        assert(view.take(k as int) =~= view);
    }
    rows
}

fn clone_texts(texts: &Vec<String>) -> (copy: Vec<String>)
    ensures
        crate::tokens::texts(copy@) == crate::tokens::texts(texts@),
{
    let mut copy: Vec<String> = Vec::new();
    let mut k: usize = 0;
    while k < texts.len()
        invariant
            k <= texts@.len(),
            copy@.len() == k,
            forall|j: int| 0 <= j < k ==> (#[trigger] copy@[j])@ == texts@[j]@,
        decreases texts@.len() - k,
    {
        copy.push(texts[k].clone());
        k += 1;
    }
    proof {
        assert(crate::tokens::texts(copy@) =~= crate::tokens::texts(texts@));
    }
    copy
}

} // verus!
