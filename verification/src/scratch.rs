//! The layout of the plane-oriented scratch files that hold model state and
//! output between timesteps: `plane_count` planes of `cell_count` 32-bit
//! little-endian values, one plane after another.

use vstd::prelude::*;

use crate::variables::OutputVariableName;
use crate::zbin::{le_bytes, word_at, words_at, words_bytes};

verus! {

/// The size of one stored value.
pub const FLOAT_BYTES: usize = 4;

/// Why a scratch operation was refused.
#[derive(Clone, Copy, Debug, PartialEq, Eq, Structural)]
pub enum ScratchError {
    /// A scratch needs at least one plane.
    NoPlanes,
    /// `plane_count * cell_count` does not fit in `usize`.
    ValueCountOverflow,
    /// The byte length does not fit in `usize`.
    ByteLengthOverflow,
    /// A scratch of no bytes cannot be mapped.
    Empty,
    /// The plane is not one of the configured planes.
    PlaneOutside(usize),
    /// The cell is not one of the configured cells.
    CellOutside(usize),
    /// A plane write with the wrong number of values.
    LengthMismatch(usize),
    /// A scatter through the wrong number of positions.
    PositionCount(usize),
    /// A scatter position outside the destination.
    PositionOutside(usize),
    /// Tile outputs that do not cover the domain: how many cells they cover.
    CoverMismatch(usize),
    /// A tile's output does not hold this variable.
    MissingVariable(OutputVariableName),
}

/// The shape of a scratch file.
#[derive(Clone, Copy, Debug, PartialEq, Eq, Structural)]
pub struct PlaneLayout {
    pub plane_count: usize,
    pub cell_count: usize,
}

impl PlaneLayout {
    /// Whether the layout's bytes can be addressed.
    pub open spec fn fits(self) -> bool {
        self.plane_count * self.cell_count * FLOAT_BYTES <= usize::MAX
    }

    /// The shape of a new scratch file, when it can be created.
    pub fn new(plane_count: usize, cell_count: usize) -> (layout: Result<PlaneLayout, ScratchError>)
        ensures
            match layout {
                Ok(l) => l.plane_count == plane_count && l.cell_count == cell_count && l.fits()
                    && plane_count > 0 && cell_count > 0,
                Err(e) => e == if plane_count == 0 {
                    ScratchError::NoPlanes
                } else if plane_count * cell_count > usize::MAX {
                    ScratchError::ValueCountOverflow
                } else if plane_count * cell_count * FLOAT_BYTES > usize::MAX {
                    ScratchError::ByteLengthOverflow
                } else {
                    ScratchError::Empty
                },
            },
    {
        if plane_count == 0 {
            return Err(ScratchError::NoPlanes);
        }
        let value_count = match plane_count.checked_mul(cell_count) {
            None => return Err(ScratchError::ValueCountOverflow),
            Some(n) => n,
        };
        let byte_len = match value_count.checked_mul(FLOAT_BYTES) {
            None => return Err(ScratchError::ByteLengthOverflow),
            Some(n) => n,
        };
        if byte_len == 0 {
            proof {
                assert(cell_count == 0) by (nonlinear_arith)
                    requires
                        plane_count > 0,
                        plane_count * cell_count * 4 == 0;
            }
            return Err(ScratchError::Empty);
        }
        proof {
            assert(cell_count > 0) by (nonlinear_arith)
                requires
                    plane_count * cell_count * 4 != 0,
                    cell_count >= 0;
        }
        Ok(PlaneLayout { plane_count, cell_count })
    }

    /// The scratch file's length in bytes.
    pub fn byte_len(&self) -> (n: usize)
        requires
            self.fits(),
        ensures
            n == self.plane_count * self.cell_count * FLOAT_BYTES,
    {
        proof {
            lemma_product_bound(self.plane_count as int, self.cell_count as int);
        }
        self.plane_count * self.cell_count * FLOAT_BYTES
    }

    /// Whether `plane` is one of the configured planes.
    pub fn validate_plane(&self, plane: usize) -> (result: Result<(), ScratchError>)
        ensures
            result is Ok <==> plane < self.plane_count,
            result matches Err(e) ==> e == ScratchError::PlaneOutside(plane),
    {
        if plane >= self.plane_count {
            Err(ScratchError::PlaneOutside(plane))
        } else {
            Ok(())
        }
    }

    /// The byte offset of one value.
    pub fn value_byte_offset(&self, plane: usize, cell: usize) -> (offset: Result<usize, ScratchError>)
        requires
            self.fits(),
            plane < self.plane_count,
        ensures
            cell < self.cell_count ==> offset == Ok::<usize, ScratchError>(
                ((plane * self.cell_count + cell) * FLOAT_BYTES) as usize),
            cell >= self.cell_count ==> offset == Err::<usize, ScratchError>(ScratchError::CellOutside(cell)),
    {
        if cell >= self.cell_count {
            return Err(ScratchError::CellOutside(cell));
        }
        proof {
            lemma_offset_bound(plane as int, cell as int, self.plane_count as int, self.cell_count as int);
        }
        Ok((plane * self.cell_count + cell) * FLOAT_BYTES)
    }

    /// The bytes of one plane, as a half-open range.
    pub fn plane_byte_range(&self, plane: usize) -> (range: Result<(usize, usize), ScratchError>)
        requires
            self.fits(),
            plane < self.plane_count,
            self.cell_count > 0,
        ensures
            range == Ok::<(usize, usize), ScratchError>((
                (plane * self.cell_count * FLOAT_BYTES) as usize,
                ((plane + 1) * self.cell_count * FLOAT_BYTES) as usize,
            )),
    {
        let start = match self.value_byte_offset(plane, 0) {
            Ok(start) => start,
            Err(e) => return Err(e),
        };
        proof {
            lemma_offset_bound(plane as int, self.cell_count - 1, self.plane_count as int, self.cell_count as int);
            assert((plane + 1) * self.cell_count * 4 == plane * self.cell_count * 4 + self.cell_count * 4) by (nonlinear_arith);
            assert(plane * self.cell_count * 4 == (plane * self.cell_count + 0) * 4) by (nonlinear_arith);
        }
        let len = self.cell_count * FLOAT_BYTES;
        Ok((start, start + len))
    }

    /// The byte range a plane write lands in, when `len` values fill the plane.
    pub fn plane_write_range(&self, plane: usize, len: usize) -> (range: Result<(usize, usize), ScratchError>)
        requires
            self.fits(),
            self.cell_count > 0,
        ensures
            plane >= self.plane_count ==> range == Err::<(usize, usize), ScratchError>(ScratchError::PlaneOutside(plane)),
            plane < self.plane_count && len != self.cell_count
                ==> range == Err::<(usize, usize), ScratchError>(ScratchError::LengthMismatch(len)),
            plane < self.plane_count && len == self.cell_count ==> range == Ok::<(usize, usize), ScratchError>((
                (plane * self.cell_count * FLOAT_BYTES) as usize,
                ((plane + 1) * self.cell_count * FLOAT_BYTES) as usize,
            )),
    {
        if let Err(e) = self.validate_plane(plane) {
            return Err(e);
        }
        if len != self.cell_count {
            return Err(ScratchError::LengthMismatch(len));
        }
        self.plane_byte_range(plane)
    }
}

proof fn lemma_product_bound(planes: int, cells: int)
    requires
        planes >= 0,
        cells >= 0,
    ensures
        planes * cells >= 0,
        planes * cells * 4 >= planes * cells,
{
    assert(planes * cells >= 0) by (nonlinear_arith)
        requires
            planes >= 0,
            cells >= 0;
}

proof fn lemma_offset_bound(plane: int, cell: int, planes: int, cells: int)
    requires
        0 <= plane < planes,
        0 <= cell < cells,
    ensures
        0 <= (plane * cells + cell) * 4 < planes * cells * 4,
        plane * cells + cell < planes * cells,
{
    assert(plane * cells + cell < planes * cells) by (nonlinear_arith)
        requires
            0 <= plane < planes,
            0 <= cell < cells;
    assert(plane * cells >= 0) by (nonlinear_arith)
        requires
            0 <= plane,
            0 <= cells;
}

/// The stored bytes of one plane's values.
pub fn encode_plane(values: &[u32]) -> (bytes: Vec<u8>)
    ensures
        bytes@ == words_bytes(values@),
{
    let mut bytes: Vec<u8> = Vec::new();
    let mut k: usize = 0;
    while k < values.len()
        invariant
            k <= values@.len(),
            bytes@ == words_bytes(values@.take(k as int)),
        decreases values@.len() - k,
    {
        let x = values[k];
        bytes.push((x & 0xff) as u8);
        bytes.push(((x >> 8) & 0xff) as u8);
        bytes.push(((x >> 16) & 0xff) as u8);
        bytes.push(((x >> 24) & 0xff) as u8);
        proof {
            assert(values@.take(k + 1).drop_last() =~= values@.take(k as int));
            assert(values@.take(k + 1).last() == x);
            assert(bytes@ =~= words_bytes(values@.take(k + 1)));
        }
        k += 1;
    }
    proof {
        assert(values@.take(k as int) =~= values@);
    }
    bytes
}

/// The values stored in one plane's bytes.
pub fn decode_plane(bytes: &[u8]) -> (values: Vec<u32>)
    requires
        bytes@.len() % 4 == 0,
    ensures
        values@ == words_at(bytes@, 0, (bytes@.len() / 4) as int),
{
    let len = bytes.len();
    let n = len / 4;
    let mut values: Vec<u32> = Vec::new();
    let mut k: usize = 0;
    while k < n
        invariant
            len == bytes@.len(),
            n == bytes@.len() / 4,
            bytes@.len() % 4 == 0,
            k <= n,
            values@ == words_at(bytes@, 0, k as int),
        decreases n - k,
    {
        let o = 4 * k;
        let w = (bytes[o] as u32) | ((bytes[o + 1] as u32) << 8) | ((bytes[o + 2] as u32) << 16)
            | ((bytes[o + 3] as u32) << 24);
        values.push(w);
        proof {
            assert(w == word_at(bytes@, 0 + 4 * k));
            assert(values@ =~= words_at(bytes@, 0, k + 1));
        }
        k += 1;
    }
    values
}

/// A plane written and read back gives the same values.
pub proof fn law_plane_roundtrip(values: Seq<u32>)
    ensures
        words_bytes(values).len() == 4 * values.len(),
        words_at(words_bytes(values), 0, values.len() as int) == values,
{
    crate::zbin::lemma_words_read_back(Seq::empty(), values, Seq::empty());
    assert(Seq::<u8>::empty() + words_bytes(values) + Seq::<u8>::empty() =~= words_bytes(values));
}

/// `destination` after writing `values[k]` at `positions[k]` for every `k`
/// below `n`, in order.
pub open spec fn scattered<T>(destination: Seq<T>, values: Seq<T>, positions: Seq<usize>, n: int) -> Seq<T>
    decreases n,
{
    if n <= 0 {
        destination
    } else {
        scattered(destination, values, positions, n - 1).update(positions[n - 1] as int, values[n - 1])
    }
}

/// Scatters one value per configured cell into `destination` at the given
/// positions.
///
/// The first position outside `destination` stops the scatter with an error;
/// the values before it have been written.
pub fn scatter<T: Copy>(values: &[T], positions: &[usize], destination: &mut Vec<T>)
    -> (result: Result<(), ScratchError>)
    ensures
        positions@.len() != values@.len() ==> result == Err::<(), ScratchError>(ScratchError::PositionCount(positions@.len() as usize))
            && final(destination)@ == old(destination)@,
        positions@.len() == values@.len() ==> match result {
            Ok(()) => (forall|k: int| 0 <= k < positions@.len() ==> positions@[k] < old(destination)@.len())
                && final(destination)@ == scattered(old(destination)@, values@, positions@, positions@.len() as int),
            Err(e) => exists|k: int| 0 <= k < positions@.len()
                && (forall|j: int| 0 <= j < k ==> positions@[j] < old(destination)@.len())
                && positions@[k] >= old(destination)@.len()
                && e == ScratchError::PositionOutside(positions@[k])
                && final(destination)@ == scattered(old(destination)@, values@, positions@, k),
        },
{
    if positions.len() != values.len() {
        return Err(ScratchError::PositionCount(positions.len()));
    }
    let ghost start = destination@;
    let len = destination.len();
    let mut k: usize = 0;
    while k < values.len()
        invariant
            positions@.len() == values@.len(),
            start == old(destination)@,
            len == start.len(),
            destination@.len() == len,
            k <= values@.len(),
            forall|j: int| 0 <= j < k ==> positions@[j] < len,
            destination@ == scattered(start, values@, positions@, k as int),
        decreases values@.len() - k,
    {
        let position = positions[k];
        if position >= len {
            proof {
                assert(start == old(destination)@);
                assert(positions@[k as int] >= old(destination)@.len());
                assert(forall|j: int| 0 <= j < k ==> positions@[j] < old(destination)@.len());
                assert(destination@ == scattered(old(destination)@, values@, positions@, k as int));
            }
            return Err(ScratchError::PositionOutside(position));
        }
        destination.set(position, values[k]);
        proof {
            assert(destination@ =~= scattered(start, values@, positions@, k + 1));
        }
        k += 1;
    }
    Ok(())
}

/// The total length of all tiles' positions, when it fits in `usize`.
pub open spec fn total_len(lengths: Seq<usize>) -> int
    decreases lengths.len(),
{
    if lengths.len() == 0 { 0 } else { total_len(lengths.drop_last()) + lengths.last() }
}

/// Whether tiles of these lengths cover a domain of `cell_count` cells.
pub fn check_cover(lengths: &[usize], cell_count: usize) -> (result: Result<(), ScratchError>)
    ensures
        result is Ok <==> total_len(lengths@) == cell_count,
        result matches Err(e) ==> (total_len(lengths@) <= usize::MAX ==> e == ScratchError::CoverMismatch(total_len(lengths@) as usize))
            && (total_len(lengths@) > usize::MAX ==> e == ScratchError::CoverMismatch(usize::MAX)),
{
    let mut covered: usize = 0;
    let mut overflowed = false;
    let mut k: usize = 0;
    while k < lengths.len()
        invariant
            k <= lengths@.len(),
            !overflowed ==> covered == total_len(lengths@.take(k as int)),
            overflowed ==> total_len(lengths@.take(k as int)) > usize::MAX && covered == usize::MAX,
        decreases lengths@.len() - k,
    {
        proof {
            assert(lengths@.take(k + 1).drop_last() =~= lengths@.take(k as int));
            assert(lengths@.take(k + 1).last() == lengths@[k as int]);
        }
        if !overflowed {
            if lengths[k] > usize::MAX - covered {
                overflowed = true;
                covered = usize::MAX;
            } else {
                covered = covered + lengths[k];
            }
        }
        k += 1;
    }
    proof {
        assert(lengths@.take(k as int) =~= lengths@);
    }
    if overflowed || covered != cell_count {
        return Err(ScratchError::CoverMismatch(covered));
    }
    Ok(())
}

/// Scattering leaves a position that is not written unchanged, and gives a
/// position written once the value written there.
pub proof fn lemma_scattered_at<T>(destination: Seq<T>, values: Seq<T>, positions: Seq<usize>, n: int, p: int)
    requires
        0 <= n <= positions.len(),
        n <= values.len(),
        forall|k: int| 0 <= k < n ==> positions[k] < destination.len(),
        0 <= p < destination.len(),
    ensures
        scattered(destination, values, positions, n).len() == destination.len(),
        (forall|k: int| 0 <= k < n ==> positions[k] != p) ==> scattered(destination, values, positions, n)[p] == destination[p],
        forall|k: int| 0 <= k < n && positions[k] == p && (forall|j: int| 0 <= j < n && j != k ==> positions[j] != p)
            ==> scattered(destination, values, positions, n)[p] == values[k],
    decreases n,
{
    if n > 0 {
        lemma_scattered_at(destination, values, positions, n - 1, p);
        assert forall|k: int| 0 <= k < n && positions[k] == p && (forall|j: int| 0 <= j < n && j != k ==> positions[j] != p)
            implies scattered(destination, values, positions, n)[p] == values[k] by {
            if k < n - 1 {
                assert(positions[n - 1] != p);
                assert(forall|j: int| 0 <= j < n - 1 && j != k ==> positions[j] != p);
            }
        }
    }
}

/// In a scatter, a position written more than once holds the value of its
/// last write.
pub proof fn law_scatter_last_write_wins<T>(destination: Seq<T>, values: Seq<T>, positions: Seq<usize>, n: int, k: int)
    requires
        0 <= k < n <= positions.len(),
        n <= values.len(),
        forall|j: int| 0 <= j < n ==> positions[j] < destination.len(),
        forall|j: int| k < j < n ==> positions[j] != positions[k],
    ensures
        scattered(destination, values, positions, n)[positions[k] as int] == values[k],
    decreases n,
{
    lemma_scattered_len(destination, values, positions, n - 1);
    if k < n - 1 {
        law_scatter_last_write_wins(destination, values, positions, n - 1, k);
    }
}

/// A scatter leaves every position it does not write unchanged.
pub proof fn law_scatter_keeps_unwritten<T>(destination: Seq<T>, values: Seq<T>, positions: Seq<usize>, n: int, p: int)
    requires
        0 <= n <= positions.len(),
        n <= values.len(),
        forall|j: int| 0 <= j < n ==> positions[j] < destination.len(),
        0 <= p < destination.len(),
        forall|j: int| 0 <= j < n ==> positions[j] != p,
    ensures
        scattered(destination, values, positions, n)[p] == destination[p],
{
    lemma_scattered_at(destination, values, positions, n, p);
}

/// How many positions the tiles list in all.
pub open spec fn tile_total(positions: Seq<Vec<usize>>) -> int
    decreases positions.len(),
{
    if positions.len() == 0 { 0 } else { tile_total(positions.drop_last()) + positions.last()@.len() }
}

/// The domain after the tiles before `t` have been scattered into `fill`.
pub open spec fn joined<T>(fill: Seq<T>, values: Seq<Vec<T>>, positions: Seq<Vec<usize>>, t: int) -> Seq<T>
    decreases t,
{
    if t <= 0 {
        fill
    } else {
        scattered(joined(fill, values, positions, t - 1), values[t - 1]@, positions[t - 1]@, positions[t - 1]@.len() as int)
    }
}

/// Whether tile `t` can be scattered into a domain of `len` cells.
pub open spec fn tile_fits<T>(values: Seq<Vec<T>>, positions: Seq<Vec<usize>>, t: int, len: int) -> bool {
    positions[t]@.len() == values[t]@.len() && forall|k: int| 0 <= k < positions[t]@.len() ==> #[trigger] positions[t]@[k] < len
}

/// The error that scattering tile `t` into `len` cells gives.
pub open spec fn tile_error<T>(values: Seq<Vec<T>>, positions: Seq<Vec<usize>>, t: int, len: int, e: ScratchError) -> bool {
    if positions[t]@.len() != values[t]@.len() {
        e == ScratchError::PositionCount(positions[t]@.len() as usize)
    } else {
        exists|k: int| 0 <= k < positions[t]@.len() && (forall|j: int| 0 <= j < k ==> positions[t]@[j] < len)
            && positions[t]@[k] >= len && e == ScratchError::PositionOutside(positions[t]@[k])
    }
}

/// One variable of the whole domain, rejoined from every tile's values: the
/// tiles must cover exactly `cell_count` cells, and each value lands at its
/// tile's position for it. Cells no tile writes keep `fill`.
pub fn join_tiles<T: Copy>(cell_count: usize, positions: &Vec<Vec<usize>>, values: &Vec<Vec<T>>, fill: T)
    -> (joined_values: Result<Vec<T>, ScratchError>)
    requires
        positions@.len() == values@.len(),
    ensures
        ({
            let filled = Seq::new(cell_count as nat, |p: int| fill);
            &&& tile_total(positions@) != cell_count ==> joined_values is Err
            &&& match joined_values {
                Ok(v) => tile_total(positions@) == cell_count
                    && (forall|t: int| 0 <= t < positions@.len() ==> tile_fits(values@, positions@, t, cell_count as int))
                    && v@ == joined(filled, values@, positions@, positions@.len() as int),
                Err(e) => (tile_total(positions@) != cell_count && e matches ScratchError::CoverMismatch(_))
                    || (tile_total(positions@) == cell_count && exists|t: int| 0 <= t < positions@.len()
                        && (forall|u: int| 0 <= u < t ==> tile_fits(values@, positions@, u, cell_count as int))
                        && !tile_fits(values@, positions@, t, cell_count as int)
                        && tile_error(values@, positions@, t, cell_count as int, e)),
            }
        }),
{
    let ghost filled = Seq::new(cell_count as nat, |p: int| fill);
    let mut tile_lengths: Vec<usize> = Vec::new();
    let mut t: usize = 0;
    while t < positions.len()
        invariant
            t <= positions@.len(),
            tile_lengths@.len() == t,
            forall|u: int| 0 <= u < t ==> tile_lengths@[u] == positions@[u]@.len(),
            total_len(tile_lengths@) == tile_total(positions@.take(t as int)),
        decreases positions@.len() - t,
    {
        let ghost before = tile_lengths@;
        tile_lengths.push(positions[t].len());
        proof {
            assert(tile_lengths@.drop_last() =~= before);
            assert(positions@.take(t + 1).drop_last() =~= positions@.take(t as int));
        }
        t += 1;
    }
    proof {
        assert(positions@.take(t as int) =~= positions@);
    }
    if let Err(e) = check_cover(tile_lengths.as_slice(), cell_count) {
        return Err(e);
    }
    let mut joined_values: Vec<T> = Vec::new();
    let mut p: usize = 0;
    while p < cell_count
        invariant
            p <= cell_count,
            joined_values@ == filled.take(p as int),
            filled.len() == cell_count,
            forall|q: int| 0 <= q < cell_count ==> filled[q] == fill,
        decreases cell_count - p,
    {
        joined_values.push(fill);
        proof {
            assert(joined_values@ =~= filled.take(p + 1));
        }
        p += 1;
    }
    proof {
        assert(filled.take(p as int) =~= filled);
    }
    let mut t: usize = 0;
    while t < positions.len()
        invariant
            positions@.len() == values@.len(),
            t <= positions@.len(),
            joined_values@.len() == cell_count,
            joined_values@ == joined(filled, values@, positions@, t as int),
            forall|u: int| 0 <= u < t ==> tile_fits(values@, positions@, u, cell_count as int),
            tile_total(positions@) == cell_count,
        decreases positions@.len() - t,
    {
        let ghost before = joined_values@;
        let result = scatter(values[t].as_slice(), positions[t].as_slice(), &mut joined_values);
        match result {
            Err(e) => {
                proof {
                    assert(!tile_fits(values@, positions@, t as int, cell_count as int));
                    assert(tile_error(values@, positions@, t as int, cell_count as int, e));
                }
                return Err(e);
            },
            Ok(()) => {
                proof {
                    lemma_scattered_len(before, values@[t as int]@, positions@[t as int]@, positions@[t as int]@.len() as int);
                }
            },
        }
        t += 1;
    }
    Ok(joined_values)
}

/// One tile's native output: the domain positions of its cells and, for each
/// variable it holds, one plane of values, a value per cell.
#[derive(Clone, Debug)]
pub struct TileOutput<T> {
    pub positions: Vec<usize>,
    pub variables: Vec<OutputVariableName>,
    pub planes: Vec<Vec<T>>,
}

/// Where `variable` is among `variables`: its first place.
pub open spec fn plane_of(variables: Seq<OutputVariableName>, variable: OutputVariableName) -> Option<int>
    decreases variables.len(),
{
    if variables.len() == 0 {
        None
    } else if variables[0] == variable {
        Some(0)
    } else {
        match plane_of(variables.drop_first(), variable) {
            Some(i) => Some(i + 1),
            None => None,
        }
    }
}

/// The plane a tile holds for `variable`.
pub open spec fn tile_plane<T>(tile: TileOutput<T>, variable: OutputVariableName) -> Vec<T> {
    match plane_of(tile.variables@, variable) {
        Some(i) => tile.planes@[i],
        None => vstd::pervasive::arbitrary(),
    }
}

/// The positions of each tile.
pub open spec fn tile_positions<T>(tiles: Seq<TileOutput<T>>) -> Seq<Vec<usize>> {
    Seq::new(tiles.len(), |t: int| tiles[t].positions)
}

/// The plane each tile holds for `variable`.
pub open spec fn tile_planes<T>(tiles: Seq<TileOutput<T>>, variable: OutputVariableName) -> Seq<Vec<T>> {
    Seq::new(tiles.len(), |t: int| tile_plane(tiles[t], variable))
}

/// Whether tile `t` holds `variable` in a plane that can be scattered into
/// `len` cells.
pub open spec fn tile_joins<T>(tiles: Seq<TileOutput<T>>, variable: OutputVariableName, t: int, len: int) -> bool {
    plane_of(tiles[t].variables@, variable) is Some
        && tile_fits(tile_planes(tiles, variable), tile_positions(tiles), t, len)
}

/// Whether joining `variable` stops at tile `t` with `error`: every tile
/// before it joins, and `t` does not hold the variable, or holds a plane that
/// cannot be scattered.
pub open spec fn join_fails_at<T>(
    tiles: Seq<TileOutput<T>>,
    variable: OutputVariableName,
    len: int,
    t: int,
    error: ScratchError,
) -> bool {
    &&& 0 <= t < tiles.len()
    &&& forall|u: int| 0 <= u < t ==> tile_joins(tiles, variable, u, len)
    &&& if plane_of(tiles[t].variables@, variable) is None {
        error == ScratchError::MissingVariable(variable)
    } else {
        !tile_fits(tile_planes(tiles, variable), tile_positions(tiles), t, len)
            && tile_error(tile_planes(tiles, variable), tile_positions(tiles), t, len, error)
    }
}

fn find_plane(variables: &Vec<OutputVariableName>, variable: OutputVariableName) -> (found: Option<usize>)
    ensures
        match found {
            Some(i) => plane_of(variables@, variable) == Some(i as int),
            None => plane_of(variables@, variable) is None,
        },
{
    let mut i: usize = 0;
    assert(variables@.skip(0) =~= variables@);
    while i < variables.len()
        invariant
            i <= variables@.len(),
            forall|j: int| 0 <= j < i ==> variables@[j] != variable,
            plane_of(variables@, variable) == match plane_of(variables@.skip(i as int), variable) {
                Some(k) => Some(k + i),
                None => None::<int>,
            },
        decreases variables@.len() - i,
    {
        proof {
            assert(variables@.skip(i as int).drop_first() =~= variables@.skip(i + 1));
            assert(variables@.skip(i as int)[0] == variables@[i as int]);
        }
        if variables[i] == variable {
            return Some(i);
        }
        i += 1;
    }
    None
}

/// One variable of the whole domain, rejoined from every tile's output: the
/// tiles must cover exactly `cell_count` cells; then, tile by tile, each must
/// hold the variable, and its plane lands at the tile's positions, a later
/// tile winning on overlap. Cells no tile lists keep `fill`.
pub fn join_variable<T: Copy>(cell_count: usize, tiles: &Vec<TileOutput<T>>, variable: OutputVariableName, fill: T)
    -> (joined_values: Result<Vec<T>, ScratchError>)
    requires
        forall|t: int| 0 <= t < tiles@.len() ==> (#[trigger] tiles@[t]).variables@.len() == tiles@[t].planes@.len(),
    ensures
        ({
            let positions = tile_positions(tiles@);
            let planes = tile_planes(tiles@, variable);
            let filled = Seq::new(cell_count as nat, |p: int| fill);
            &&& tile_total(positions) != cell_count ==> joined_values is Err
            &&& match joined_values {
                Ok(v) => tile_total(positions) == cell_count
                    && (forall|t: int| 0 <= t < tiles@.len() ==> tile_joins(tiles@, variable, t, cell_count as int))
                    && v@ == joined(filled, planes, positions, tiles@.len() as int),
                Err(e) => (tile_total(positions) != cell_count && e matches ScratchError::CoverMismatch(_))
                    || (tile_total(positions) == cell_count && exists|t: int|
                        #[trigger] join_fails_at(tiles@, variable, cell_count as int, t, e)),
            }
        }),
{
    let ghost positions = tile_positions(tiles@);
    let ghost planes = tile_planes(tiles@, variable);
    let ghost filled = Seq::new(cell_count as nat, |p: int| fill);
    let mut tile_lengths: Vec<usize> = Vec::new();
    let mut t: usize = 0;
    while t < tiles.len()
        invariant
            positions == tile_positions(tiles@),
            t <= tiles@.len(),
            tile_lengths@.len() == t,
            forall|u: int| 0 <= u < t ==> tile_lengths@[u] == positions[u]@.len(),
            total_len(tile_lengths@) == tile_total(positions.take(t as int)),
        decreases tiles@.len() - t,
    {
        let ghost before = tile_lengths@;
        tile_lengths.push(tiles[t].positions.len());
        proof {
            assert(tile_lengths@.drop_last() =~= before);
            assert(positions.take(t + 1).drop_last() =~= positions.take(t as int));
        }
        t += 1;
    }
    proof {
        assert(positions.take(t as int) =~= positions);
    }
    if let Err(e) = check_cover(tile_lengths.as_slice(), cell_count) {
        return Err(e);
    }
    let mut joined_values: Vec<T> = Vec::new();
    let mut p: usize = 0;
    while p < cell_count
        invariant
            p <= cell_count,
            joined_values@ == filled.take(p as int),
            filled.len() == cell_count,
            forall|q: int| 0 <= q < cell_count ==> filled[q] == fill,
        decreases cell_count - p,
    {
        joined_values.push(fill);
        proof {
            assert(joined_values@ =~= filled.take(p + 1));
        }
        p += 1;
    }
    proof {
        assert(filled.take(p as int) =~= filled);
    }
    let mut t: usize = 0;
    while t < tiles.len()
        invariant
            positions == tile_positions(tiles@),
            planes == tile_planes(tiles@, variable),
            forall|u: int| 0 <= u < tiles@.len() ==> (#[trigger] tiles@[u]).variables@.len() == tiles@[u].planes@.len(),
            t <= tiles@.len(),
            joined_values@.len() == cell_count,
            joined_values@ == joined(filled, planes, positions, t as int),
            forall|u: int| 0 <= u < t ==> tile_joins(tiles@, variable, u, cell_count as int),
            tile_total(positions) == cell_count,
        decreases tiles@.len() - t,
    {
        let k = match find_plane(&tiles[t].variables, variable) {
            None => {
                proof {
                    assert(join_fails_at(tiles@, variable, cell_count as int, t as int,
                        ScratchError::MissingVariable(variable)));
                }
                return Err(ScratchError::MissingVariable(variable));
            },
            Some(k) => k,
        };
        proof {
            lemma_plane_of_bound(tiles@[t as int].variables@, variable);
            assert(planes[t as int] == tiles@[t as int].planes@[k as int]);
            assert(positions[t as int] == tiles@[t as int].positions);
        }
        let ghost before = joined_values@;
        let result = scatter(tiles[t].planes[k].as_slice(), tiles[t].positions.as_slice(), &mut joined_values);
        match result {
            Err(e) => {
                proof {
                    assert(!tile_fits(planes, positions, t as int, cell_count as int));
                    assert(tile_error(planes, positions, t as int, cell_count as int, e));
                    assert(join_fails_at(tiles@, variable, cell_count as int, t as int, e));
                }
                return Err(e);
            },
            Ok(()) => {
                proof {
                    lemma_scattered_len(before, planes[t as int]@, positions[t as int]@, positions[t as int]@.len() as int);
                }
            },
        }
        t += 1;
    }
    Ok(joined_values)
}

proof fn lemma_plane_of_bound(variables: Seq<OutputVariableName>, variable: OutputVariableName)
    ensures
        plane_of(variables, variable) matches Some(i) ==> 0 <= i < variables.len() && variables[i] == variable,
    decreases variables.len(),
{
    if variables.len() > 0 && variables[0] != variable {
        lemma_plane_of_bound(variables.drop_first(), variable);
    }
}

/// Tiles that list every domain cell exactly once rejoin into domain order:
/// each cell holds the value its tile computed for it.
pub proof fn law_join_restores_domain_order<T>(
    fill: Seq<T>,
    values: Seq<Vec<T>>,
    positions: Seq<Vec<usize>>,
    t: int,
    k: int,
)
    requires
        positions.len() == values.len(),
        forall|u: int| 0 <= u < positions.len() ==> tile_fits(values, positions, u, fill.len() as int),
        0 <= t < positions.len(),
        0 <= k < positions[t]@.len(),
        forall|u: int, i: int, w: int, j: int|
            0 <= u < positions.len() && 0 <= i < positions[u]@.len() && 0 <= w < positions.len()
                && 0 <= j < positions[w]@.len() && (u != w || i != j)
                ==> positions[u]@[i] != positions[w]@[j],
    ensures
        joined(fill, values, positions, positions.len() as int)[positions[t]@[k] as int] == values[t]@[k],
{
    lemma_joined_at(fill, values, positions, positions.len() as int, t, k);
}

/// Rejoining tiles, a cell listed more than once holds the value of its last
/// listing, the later tile winning on overlap.
pub proof fn law_join_later_tile_wins<T>(
    fill: Seq<T>,
    values: Seq<Vec<T>>,
    positions: Seq<Vec<usize>>,
    t: int,
    k: int,
)
    requires
        positions.len() == values.len(),
        forall|u: int| 0 <= u < positions.len() ==> tile_fits(values, positions, u, fill.len() as int),
        0 <= t < positions.len(),
        0 <= k < positions[t]@.len(),
        forall|j: int| k < j < positions[t]@.len() ==> positions[t]@[j] != positions[t]@[k],
        forall|u: int, j: int| t < u < positions.len() && 0 <= j < positions[u]@.len()
            ==> positions[u]@[j] != positions[t]@[k],
    ensures
        joined(fill, values, positions, positions.len() as int)[positions[t]@[k] as int] == values[t]@[k],
{
    lemma_joined_last(fill, values, positions, positions.len() as int, t, k);
}

proof fn lemma_joined_last<T>(fill: Seq<T>, values: Seq<Vec<T>>, positions: Seq<Vec<usize>>, n: int, t: int, k: int)
    requires
        positions.len() == values.len(),
        forall|u: int| 0 <= u < positions.len() ==> tile_fits(values, positions, u, fill.len() as int),
        0 <= t < n <= positions.len(),
        0 <= k < positions[t]@.len(),
        forall|j: int| k < j < positions[t]@.len() ==> positions[t]@[j] != positions[t]@[k],
        forall|u: int, j: int| t < u < n && 0 <= j < positions[u]@.len() ==> positions[u]@[j] != positions[t]@[k],
    ensures
        joined(fill, values, positions, n)[positions[t]@[k] as int] == values[t]@[k],
    decreases n,
{
    let p = positions[t]@[k] as int;
    let last = n - 1;
    let before = joined(fill, values, positions, last);
    lemma_joined_len(fill, values, positions, last);
    assert(tile_fits(values, positions, last, fill.len() as int));
    assert(tile_fits(values, positions, t, fill.len() as int));
    if t == last {
        law_scatter_last_write_wins(before, values[last]@, positions[last]@, positions[last]@.len() as int, k);
    } else {
        lemma_joined_last(fill, values, positions, last, t, k);
        assert(positions[t]@[k] < fill.len());
        law_scatter_keeps_unwritten(before, values[last]@, positions[last]@, positions[last]@.len() as int, p);
    }
}

/// Rejoining tiles leaves a cell that no tile lists with its fill value.
pub proof fn law_join_keeps_unlisted<T>(fill: Seq<T>, values: Seq<Vec<T>>, positions: Seq<Vec<usize>>, p: int)
    requires
        positions.len() == values.len(),
        forall|u: int| 0 <= u < positions.len() ==> tile_fits(values, positions, u, fill.len() as int),
        0 <= p < fill.len(),
        forall|u: int, j: int| 0 <= u < positions.len() && 0 <= j < positions[u]@.len() ==> positions[u]@[j] != p,
    ensures
        joined(fill, values, positions, positions.len() as int)[p] == fill[p],
{
    lemma_joined_unlisted(fill, values, positions, positions.len() as int, p);
}

proof fn lemma_joined_unlisted<T>(fill: Seq<T>, values: Seq<Vec<T>>, positions: Seq<Vec<usize>>, n: int, p: int)
    requires
        positions.len() == values.len(),
        forall|u: int| 0 <= u < positions.len() ==> tile_fits(values, positions, u, fill.len() as int),
        0 <= n <= positions.len(),
        0 <= p < fill.len(),
        forall|u: int, j: int| 0 <= u < n && 0 <= j < positions[u]@.len() ==> positions[u]@[j] != p,
    ensures
        joined(fill, values, positions, n)[p] == fill[p],
    decreases n,
{
    if n > 0 {
        let last = n - 1;
        lemma_joined_unlisted(fill, values, positions, last, p);
        lemma_joined_len(fill, values, positions, last);
        assert(tile_fits(values, positions, last, fill.len() as int));
        law_scatter_keeps_unwritten(joined(fill, values, positions, last), values[last]@, positions[last]@,
            positions[last]@.len() as int, p);
    }
}

proof fn lemma_joined_len<T>(fill: Seq<T>, values: Seq<Vec<T>>, positions: Seq<Vec<usize>>, n: int)
    requires
        0 <= n <= positions.len(),
        positions.len() == values.len(),
        forall|u: int| 0 <= u < positions.len() ==> tile_fits(values, positions, u, fill.len() as int),
    ensures
        joined(fill, values, positions, n).len() == fill.len(),
    decreases n,
{
    if n > 0 {
        lemma_joined_len(fill, values, positions, n - 1);
        let before = joined(fill, values, positions, n - 1);
        assert(tile_fits(values, positions, n - 1, fill.len() as int));
        lemma_scattered_len(before, values[n - 1]@, positions[n - 1]@, positions[n - 1]@.len() as int);
    }
}

proof fn lemma_scattered_len<T>(destination: Seq<T>, values: Seq<T>, positions: Seq<usize>, n: int)
    requires
        0 <= n <= positions.len(),
        forall|k: int| 0 <= k < n ==> positions[k] < destination.len(),
    ensures
        scattered(destination, values, positions, n).len() == destination.len(),
    decreases n,
{
    if n > 0 {
        lemma_scattered_len(destination, values, positions, n - 1);
    }
}

proof fn lemma_joined_at<T>(fill: Seq<T>, values: Seq<Vec<T>>, positions: Seq<Vec<usize>>, n: int, t: int, k: int)
    requires
        positions.len() == values.len(),
        forall|u: int| 0 <= u < positions.len() ==> tile_fits(values, positions, u, fill.len() as int),
        0 <= t < n <= positions.len(),
        0 <= k < positions[t]@.len(),
        forall|u: int, i: int, w: int, j: int|
            0 <= u < positions.len() && 0 <= i < positions[u]@.len() && 0 <= w < positions.len()
                && 0 <= j < positions[w]@.len() && (u != w || i != j)
                ==> positions[u]@[i] != positions[w]@[j],
    ensures
        joined(fill, values, positions, n)[positions[t]@[k] as int] == values[t]@[k],
    decreases n,
{
    let p = positions[t]@[k] as int;
    let before = joined(fill, values, positions, n - 1);
    let last = n - 1;
    assert(tile_fits(values, positions, t, fill.len() as int));
    assert(positions[t]@[k] < fill.len());
    lemma_joined_len(fill, values, positions, n - 1);
    assert(tile_fits(values, positions, last, fill.len() as int));
    lemma_scattered_at(before, values[last]@, positions[last]@, positions[last]@.len() as int, p);
    if t < last {
        lemma_joined_at(fill, values, positions, n - 1, t, k);
        assert forall|j: int| 0 <= j < positions[last]@.len() implies positions[last]@[j] != p by {
            assert(positions[t]@[k] != positions[last]@[j]);
        }
    } else {
        assert forall|j: int| 0 <= j < positions[last]@.len() && j != k implies positions[last]@[j] != p by {
            assert(positions[t]@[k] != positions[last]@[j]);
        }
    }
}

/// A tile's slice of a domain array: the value at each of its positions.
pub fn select_cells<T: Copy>(data: &[T], positions: &[usize]) -> (selected: Vec<T>)
    requires
        forall|k: int| 0 <= k < positions@.len() ==> #[trigger] positions@[k] < data@.len(),
    ensures
        selected@.len() == positions@.len(),
        forall|k: int| 0 <= k < positions@.len() ==> #[trigger] selected@[k] == data@[positions@[k] as int],
{
    let mut selected: Vec<T> = Vec::new();
    let mut k: usize = 0;
    while k < positions.len()
        invariant
            forall|j: int| 0 <= j < positions@.len() ==> #[trigger] positions@[j] < data@.len(),
            k <= positions@.len(),
            selected@.len() == k,
            forall|j: int| 0 <= j < k ==> #[trigger] selected@[j] == data@[positions@[j] as int],
        decreases positions@.len() - k,
    {
        selected.push(data[positions[k]]);
        k += 1;
    }
    selected
}

/// A tile's slice of the domain warm state; once the domain warm state has
/// been released (it is empty), a shell of `fill` records of the tile's size.
pub fn select_warm_state<T: Copy>(data: &[T], positions: &[usize], fill: T) -> (selected: Vec<T>)
    requires
        data@.len() > 0 ==> forall|k: int| 0 <= k < positions@.len() ==> #[trigger] positions@[k] < data@.len(),
    ensures
        selected@.len() == positions@.len(),
        data@.len() == 0 ==> forall|k: int| 0 <= k < positions@.len() ==> #[trigger] selected@[k] == fill,
        data@.len() > 0 ==> forall|k: int| 0 <= k < positions@.len() ==> #[trigger] selected@[k] == data@[positions@[k] as int],
{
    if data.len() == 0 {
        let mut shell: Vec<T> = Vec::new();
        let mut k: usize = 0;
        while k < positions.len()
            invariant
                k <= positions@.len(),
                shell@.len() == k,
                forall|j: int| 0 <= j < k ==> #[trigger] shell@[j] == fill,
            decreases positions@.len() - k,
        {
            shell.push(fill);
            k += 1;
        }
        return shell;
    }
    select_cells(data, positions)
}

} // verus!
