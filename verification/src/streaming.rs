use vstd::prelude::*;
use vstd::arithmetic::div_mod::*;
use vstd::set_lib::*;

verus! {

/// A rectangular, row-major window on a regular raster.
#[derive(Clone, Copy, Debug, PartialEq, Eq, Structural)]
pub struct GridWindow {
    pub row: usize,
    pub col: usize,
    pub height: usize,
    pub width: usize,
}

impl GridWindow {
    /// The window's rows and columns stay inside the addressable range.
    pub open spec fn fits(self) -> bool {
        &&& self.row + self.height <= usize::MAX
        &&& self.col + self.width <= usize::MAX
    }

    /// Whether the raster cell at `(r, c)` lies inside the window.
    pub open spec fn covers(self, r: int, c: int) -> bool {
        &&& self.row <= r < self.row + self.height
        &&& self.col <= c < self.col + self.width
    }

    pub fn end_row(self) -> (end: usize)
        requires
            self.row + self.height <= usize::MAX,
        ensures
            end == self.row + self.height,
    {
        self.row + self.height
    }

    pub fn end_col(self) -> (end: usize)
        requires
            self.col + self.width <= usize::MAX,
        ensures
            end == self.col + self.width,
    {
        self.col + self.width
    }

    pub fn len(self) -> (n: usize)
        requires
            self.height * self.width <= usize::MAX,
        ensures
            n == self.height * self.width,
    {
        self.height * self.width
    }

    pub fn is_empty(self) -> (empty: bool)
        ensures
            empty == (self.height == 0 || self.width == 0),
    {
        self.height == 0 || self.width == 0
    }

    /// Whether the row-major cell `cell_index` of a raster `grid_width`
    /// cells wide falls inside the window.
    pub fn contains_cell(self, cell_index: u32, grid_width: usize) -> (inside: bool)
        requires
            grid_width > 0,
            self.fits(),
        ensures
            inside == self.covers(cell_index as int / grid_width as int, cell_index as int % grid_width as int),
    {
        let index = cell_index as usize;
        let row = index / grid_width;
        let col = index % grid_width;
        self.row <= row && row < self.end_row() && self.col <= col && col < self.end_col()
    }
}


/// A unit of spatial work.
///
/// `model_positions` addresses the compact, active-cell arrays of the model.
/// `grid_cell_indexes` addresses the native regular raster and is empty for
/// point/cell configurations.
#[derive(Clone, Debug, PartialEq, Eq)]
pub struct SpatialTile {
    pub ordinal: usize,
    pub window: Option<GridWindow>,
    pub model_positions: Vec<usize>,
    pub grid_cell_indexes: Vec<u32>,
}

impl SpatialTile {
    pub fn len(&self) -> (n: usize)
        ensures
            n == self.model_positions@.len(),
    {
        self.model_positions.len()
    }

    pub fn is_empty(&self) -> (empty: bool)
        ensures
            empty == (self.model_positions@.len() == 0),
    {
        self.model_positions.len() == 0
    }
}

/// The dimensions of the regular raster a plan tiles.
#[derive(Clone, Copy, Debug, PartialEq, Eq, Structural)]
pub struct RasterShape {
    pub width: usize,
    pub height: usize,
}

/// Why a tile plan could not be built.
#[derive(Clone, Copy, Debug, PartialEq, Eq, Structural)]
pub enum TilePlanError {
    /// A tile height or width of zero.
    ZeroTileDimension,
    /// No tile can hold a cell when there are zero cells per tile.
    ZeroCellsPerTile,
    /// `width * height` does not fit in `usize`.
    RasterTooLarge,
    /// An active cell index that does not address a raster cell.
    CellOutsideRaster(u32),
    /// The number of tiles does not fit in `usize`.
    TileCountOverflow,
}

/// The same tile contract for raster-native and legacy point models.
#[derive(Clone, Debug)]
pub enum TilePlan {
    Raster { tiles: Vec<SpatialTile>, shape: RasterShape },
    Cells { tiles: Vec<SpatialTile>, cell_count: usize },
}

/// `a / b` rounded up.
pub open spec fn ceil_div(a: int, b: int) -> int {
    (a + b - 1) / b
}

/// The window that the raster tile with row-major number `source` covers,
/// clipped to the raster.
pub open spec fn tile_window(source: int, shape: RasterShape, tile_height: int, tile_width: int) -> GridWindow {
    let tile_cols = ceil_div(shape.width as int, tile_width);
    let row = (source / tile_cols) * tile_height;
    let col = (source % tile_cols) * tile_width;
    GridWindow {
        row: row as usize,
        col: col as usize,
        height: (if tile_height <= shape.height - row { tile_height } else { shape.height - row }) as usize,
        width: (if tile_width <= shape.width - col { tile_width } else { shape.width - col }) as usize,
    }
}

/// Whether raster cell `cell` (row-major) lies inside `window`.
pub open spec fn window_holds_cell(window: GridWindow, cell: int, width: int) -> bool {
    window.covers(cell / width, cell % width)
}

/// `positions` lists, in increasing order, exactly the model positions whose
/// active cell lies inside `window`.
pub open spec fn positions_in_window(positions: Seq<usize>, active: Seq<u32>, window: GridWindow, width: int) -> bool {
    &&& forall|j: int| 0 <= j < positions.len() ==> #[trigger] positions[j] < active.len()
    &&& forall|j: int| 0 <= j < positions.len() ==> window_holds_cell(window, active[#[trigger] positions[j] as int] as int, width)
    &&& forall|j: int, k: int| 0 <= j < k < positions.len() ==> #[trigger] positions[j] < #[trigger] positions[k]
    &&& forall|p: int| 0 <= p < active.len() && window_holds_cell(window, active[p] as int, width) ==> positions.contains(p as usize)
}

/// `window` is the clipped window of one of the raster's tiles.
pub open spec fn is_tile_window(window: GridWindow, shape: RasterShape, tile_height: int, tile_width: int) -> bool {
    &&& window.row as int % tile_height == 0
    &&& window.col as int % tile_width == 0
    &&& window.row < shape.height
    &&& window.col < shape.width
    &&& window.height == (if tile_height <= shape.height - window.row { tile_height } else { shape.height - window.row })
    &&& window.width == (if tile_width <= shape.width - window.col { tile_width } else { shape.width - window.col })
}

/// Windows ordered north to south, then west to east.
pub open spec fn window_before(a: GridWindow, b: GridWindow) -> bool {
    a.row < b.row || (a.row == b.row && a.col < b.col)
}

/// The tiles of a raster plan: the non-empty tile windows in row-major order,
/// each listing its active cells in model order.
pub open spec fn raster_tiles_spec(
    tiles: Seq<SpatialTile>,
    active: Seq<u32>,
    shape: RasterShape,
    tile_height: int,
    tile_width: int,
) -> bool {
    &&& forall|k: int| 0 <= k < tiles.len() ==> (#[trigger] tiles[k]).ordinal == k
    &&& forall|k: int| 0 <= k < tiles.len() ==> (#[trigger] tiles[k]).window is Some
    &&& forall|k: int| 0 <= k < tiles.len() ==> is_tile_window(
        (#[trigger] tiles[k]).window->0, shape, tile_height, tile_width)
    &&& forall|k: int| 0 <= k < tiles.len() ==> positions_in_window(
        (#[trigger] tiles[k]).model_positions@, active, tiles[k].window->0, shape.width as int)
    &&& forall|k: int| 0 <= k < tiles.len() ==> (#[trigger] tiles[k]).model_positions@.len() > 0
    &&& forall|k: int| 0 <= k < tiles.len() ==> (#[trigger] tiles[k]).grid_cell_indexes@
        == tiles[k].model_positions@.map_values(|p: usize| active[p as int])
    &&& forall|k: int, l: int| 0 <= k < l < tiles.len() ==> window_before(
        (#[trigger] tiles[k]).window->0, (#[trigger] tiles[l]).window->0)
    &&& forall|p: int| 0 <= p < active.len() ==> #[trigger] tile_lists_position(tiles, p)
}

/// Some tile lists model position `p`.
pub open spec fn tile_lists_position(tiles: Seq<SpatialTile>, p: int) -> bool {
    exists|k: int| 0 <= k < tiles.len() && (#[trigger] tiles[k]).model_positions@.contains(p as usize)
}

/// The tiles of a cell plan: consecutive batches of `per_tile` positions.
pub open spec fn cell_tiles_spec(tiles: Seq<SpatialTile>, cell_count: int, per_tile: int) -> bool {
    &&& tiles.len() == ceil_div(cell_count, per_tile)
    &&& forall|k: int| 0 <= k < tiles.len() ==> (#[trigger] tiles[k]).ordinal == k
    &&& forall|k: int| 0 <= k < tiles.len() ==> (#[trigger] tiles[k]).window is None
    &&& forall|k: int| 0 <= k < tiles.len() ==> (#[trigger] tiles[k]).grid_cell_indexes@.len() == 0
    &&& forall|k: int| 0 <= k < tiles.len() ==> (#[trigger] tiles[k]).model_positions@
        == Seq::new(
            ((if (k + 1) * per_tile <= cell_count { (k + 1) * per_tile } else { cell_count }) - k * per_tile) as nat,
            |i: int| (k * per_tile + i) as usize,
        )
}

/// The number of model positions the tiles cover together.
pub open spec fn total_tile_len(tiles: Seq<SpatialTile>) -> nat
    decreases tiles.len(),
{
    if tiles.len() == 0 {
        0
    } else {
        total_tile_len(tiles.drop_last()) + tiles.last().model_positions@.len()
    }
}

/// `cells_per_tile` batches of `cell_count` positions can be delimited
/// without overflowing `usize`.
pub open spec fn cell_batches_fit(cell_count: int, cells_per_tile: int) -> bool {
    cells_per_tile == 0 || cell_count == 0
        || ((cell_count - 1) / cells_per_tile) * cells_per_tile + cells_per_tile <= usize::MAX
}

impl TilePlan {
    pub open spec fn spec_tiles(self) -> Seq<SpatialTile> {
        match self {
            TilePlan::Raster { tiles, .. } => tiles@,
            TilePlan::Cells { tiles, .. } => tiles@,
        }
    }

    pub open spec fn spec_cell_count(self) -> int {
        match self {
            TilePlan::Raster { tiles, .. } => total_tile_len(tiles@) as int,
            TilePlan::Cells { cell_count, .. } => cell_count as int,
        }
    }
}


/// The row-major number of the raster tile that holds cell `cell`.
pub open spec fn tile_source(cell: int, shape: RasterShape, tile_height: int, tile_width: int) -> int {
    (cell / (shape.width as int) / tile_height) * ceil_div(shape.width as int, tile_width)
        + (cell % (shape.width as int)) / tile_width
}

/// Bounds of a rounded-up quotient.
proof fn lemma_ceil_div_bounds(a: int, b: int)
    requires
        a >= 0,
        b > 0,
    ensures
        ceil_div(a, b) >= 0,
        ceil_div(a, b) * b >= a,
        a > 0 ==> (ceil_div(a, b) - 1) * b < a,
        a == 0 ==> ceil_div(a, b) == 0,
        ceil_div(a, b) <= a,
{
    let q = ceil_div(a, b);
    lemma_fundamental_div_mod(a + b - 1, b);
    lemma_mod_pos_bound(a + b - 1, b);
    let r = (a + b - 1) % b;
    assert(a + b - 1 == b * q + r);
    lemma_div_pos_is_pos(a + b - 1, b);
    assert(q * b >= a) by (nonlinear_arith)
        requires
            a + b - 1 == b * q + r,
            r < b,
    ;
    assert((q - 1) * b < a) by (nonlinear_arith)
        requires
            a + b - 1 == b * q + r,
            0 <= r,
    ;
    if a == 0 {
        assert(q == 0) by (nonlinear_arith)
            requires
                b - 1 == b * q + r,
                0 <= r < b,
                q >= 0,
        ;
    }
    assert(q <= a) by (nonlinear_arith)
        requires
            a + b - 1 == b * q + r,
            0 <= r,
            b >= 1,
            a >= 0,
            q >= 0,
    ;
}

/// The rounded-up quotient computed without overflow.
fn ceil_div_exec(a: usize, b: usize) -> (q: usize)
    requires
        b > 0,
    ensures
        q == ceil_div(a as int, b as int),
{
    let q = a / b;
    let r = a % b;
    proof {
        lemma_fundamental_div_mod(a as int, b as int);
        lemma_mod_pos_bound(a as int, b as int);
        lemma_ceil_div_bounds(a as int, b as int);
    }
    if r == 0 {
        proof {
            assert(a + b - 1 == q * b + (b - 1)) by (nonlinear_arith)
                requires
                    a == b * q + r,
                    r == 0,
            ;
            lemma_fundamental_div_mod_converse_div(a + b - 1, b as int, q as int, b - 1);
        }
        q
    } else {
        proof {
            assert(a + b - 1 == (q + 1) * b + (r - 1)) by (nonlinear_arith)
                requires
                    a == b * q + r,
            ;
            lemma_fundamental_div_mod_converse_div(a + b - 1, b as int, q + 1, r - 1);
        }
        q + 1
    }
}

/// Tile windows start inside the raster.
proof fn lemma_window_origin(s: int, shape: RasterShape, tile_height: int, tile_width: int)
    requires
        shape.width > 0,
        shape.height > 0,
        tile_height > 0,
        tile_width > 0,
        0 <= s < ceil_div(shape.width as int, tile_width) * ceil_div(shape.height as int, tile_height),
    ensures
        ({
            let tc = ceil_div(shape.width as int, tile_width);
            &&& tc > 0
            &&& 0 <= (s / tc) * tile_height < shape.height
            &&& 0 <= (s % tc) * tile_width < shape.width
            &&& s == tc * (s / tc) + s % tc
            &&& 0 <= s % tc < tc
            &&& 0 <= s / tc < ceil_div(shape.height as int, tile_height)
        }),
{
    let w = shape.width as int;
    let h = shape.height as int;
    let tc = ceil_div(w, tile_width);
    let tr = ceil_div(h, tile_height);
    lemma_ceil_div_bounds(w, tile_width);
    lemma_ceil_div_bounds(h, tile_height);
    assert(tc > 0) by (nonlinear_arith)
        requires
            tc * tile_width >= w,
            w > 0,
            tile_width > 0,
    ;
    lemma_fundamental_div_mod(s, tc);
    lemma_mod_pos_bound(s, tc);
    lemma_div_pos_is_pos(s, tc);
    let sr = s / tc;
    let sc = s % tc;
    assert(sr < tr) by (nonlinear_arith)
        requires
            s == tc * sr + sc,
            0 <= sc,
            s < tc * tr,
            tc > 0,
    ;
    assert(sr * tile_height < h) by (nonlinear_arith)
        requires
            0 <= sr < tr,
            (tr - 1) * tile_height < h,
            tile_height > 0,
    ;
    assert(sc * tile_width < w) by (nonlinear_arith)
        requires
            0 <= sc < tc,
            (tc - 1) * tile_width < w,
            tile_width > 0,
    ;
    assert(0 <= sr * tile_height) by (nonlinear_arith)
        requires
            0 <= sr,
            tile_height > 0,
    ;
    assert(0 <= sc * tile_width) by (nonlinear_arith)
        requires
            0 <= sc,
            tile_width > 0,
    ;
}

/// `q` is the quotient of `x` by `d` exactly when `x` lies in `[q*d, q*d + d)`.
proof fn lemma_quotient_band(x: int, d: int, q: int)
    requires
        x >= 0,
        d > 0,
    ensures
        (x / d == q) <==> (q * d <= x < q * d + d),
{
    lemma_fundamental_div_mod(x, d);
    lemma_mod_pos_bound(x, d);
    if q * d <= x < q * d + d {
        lemma_fundamental_div_mod_converse_div(x, d, q, x - q * d);
    }
    if x / d == q {
        assert(q * d == d * q) by (nonlinear_arith);
    }
}

/// A raster cell lies in a tile's window exactly when that tile is the
/// cell's tile.
proof fn lemma_tile_membership(cell: int, s: int, shape: RasterShape, tile_height: int, tile_width: int)
    requires
        tile_height > 0,
        tile_width > 0,
        0 <= cell < shape.width * shape.height,
        0 <= s < ceil_div(shape.width as int, tile_width) * ceil_div(shape.height as int, tile_height),
    ensures
        window_holds_cell(tile_window(s, shape, tile_height, tile_width), cell, shape.width as int)
            <==> tile_source(cell, shape, tile_height, tile_width) == s,
        0 <= tile_source(cell, shape, tile_height, tile_width)
            < ceil_div(shape.width as int, tile_width) * ceil_div(shape.height as int, tile_height),
{
    let w = shape.width as int;
    let h = shape.height as int;
    assert(w > 0 && h > 0) by (nonlinear_arith)
        requires
            0 <= cell < w * h,
            w >= 0,
            h >= 0,
    ;
    let tc = ceil_div(w, tile_width);
    let tr = ceil_div(h, tile_height);
    lemma_window_origin(s, shape, tile_height, tile_width);
    lemma_ceil_div_bounds(w, tile_width);
    lemma_ceil_div_bounds(h, tile_height);
    lemma_fundamental_div_mod(cell, w);
    lemma_mod_pos_bound(cell, w);
    lemma_div_pos_is_pos(cell, w);
    let r = cell / w;
    let c = cell % w;
    assert(r < h) by (nonlinear_arith)
        requires
            cell == w * r + c,
            0 <= c,
            cell < w * h,
            w > 0,
    ;
    let sr = s / tc;
    let sc = s % tc;
    let win = tile_window(s, shape, tile_height, tile_width);
    assert(win.row == sr * tile_height);
    assert(win.col == sc * tile_width);
    // Clipping never cuts a cell that lies inside the raster.
    assert(win.covers(r, c) <==> (sr * tile_height <= r < sr * tile_height + tile_height
        && sc * tile_width <= c < sc * tile_width + tile_width));
    lemma_quotient_band(r, tile_height, sr);
    lemma_quotient_band(c, tile_width, sc);
    lemma_div_pos_is_pos(r, tile_height);
    lemma_div_pos_is_pos(c, tile_width);
    let rq = r / tile_height;
    let cq = c / tile_width;
    lemma_fundamental_div_mod(r, tile_height);
    lemma_mod_pos_bound(r, tile_height);
    lemma_fundamental_div_mod(c, tile_width);
    lemma_mod_pos_bound(c, tile_width);
    assert(cq < tc) by (nonlinear_arith)
        requires
            c == tile_width * cq + c % tile_width,
            0 <= c % tile_width,
            c < w,
            tc * tile_width >= w,
            tile_width > 0,
    ;
    assert(rq < tr) by (nonlinear_arith)
        requires
            r == tile_height * rq + r % tile_height,
            0 <= r % tile_height,
            r < h,
            tr * tile_height >= h,
            tile_height > 0,
    ;
    let src = rq * tc + cq;
    assert(tile_source(cell, shape, tile_height, tile_width) == src);
    assert(0 <= src < tc * tr) by (nonlinear_arith)
        requires
            0 <= rq < tr,
            0 <= cq < tc,
            src == rq * tc + cq,
    ;
    if src == s {
        lemma_fundamental_div_mod_converse(s, tc, rq, cq);
    }
    if rq == sr && cq == sc {
        assert(src == tc * sr + sc) by (nonlinear_arith)
            requires
                src == rq * tc + cq,
                rq == sr,
                cq == sc,
        ;
    }
}

/// Tile windows are those of the raster's tiles, and tiles numbered in
/// row-major order have windows ordered north to south, west to east.
proof fn lemma_window_order(s: int, t: int, shape: RasterShape, tile_height: int, tile_width: int)
    requires
        shape.width > 0,
        shape.height > 0,
        tile_height > 0,
        tile_width > 0,
        0 <= s < t < ceil_div(shape.width as int, tile_width) * ceil_div(shape.height as int, tile_height),
    ensures
        window_before(
            tile_window(s, shape, tile_height, tile_width),
            tile_window(t, shape, tile_height, tile_width),
        ),
{
    let tc = ceil_div(shape.width as int, tile_width);
    lemma_window_origin(s, shape, tile_height, tile_width);
    lemma_window_origin(t, shape, tile_height, tile_width);
    lemma_div_is_ordered(s, t, tc);
    let (sr, sc, tr_, tcol) = (s / tc, s % tc, t / tc, t % tc);
    if sr < tr_ {
        assert(sr * tile_height < tr_ * tile_height) by (nonlinear_arith)
            requires
                sr < tr_,
                tile_height > 0,
        ;
    } else {
        assert(sc < tcol);
        assert(sc * tile_width < tcol * tile_width) by (nonlinear_arith)
            requires
                sc < tcol,
                tile_width > 0,
        ;
    }
}

/// The window of tile `s` is a clipped tile window of the raster.
proof fn lemma_window_shape(s: int, shape: RasterShape, tile_height: int, tile_width: int)
    requires
        shape.width > 0,
        shape.height > 0,
        tile_height > 0,
        tile_width > 0,
        0 <= s < ceil_div(shape.width as int, tile_width) * ceil_div(shape.height as int, tile_height),
    ensures
        is_tile_window(tile_window(s, shape, tile_height, tile_width), shape, tile_height, tile_width),
{
    let tc = ceil_div(shape.width as int, tile_width);
    lemma_window_origin(s, shape, tile_height, tile_width);
    lemma_mod_multiples_basic(s / tc, tile_height);
    lemma_mod_multiples_basic(s % tc, tile_width);
}


/// A cell of the raster falls in one of its tiles.
proof fn lemma_tile_source_range(cell: int, shape: RasterShape, tile_height: int, tile_width: int)
    requires
        tile_height > 0,
        tile_width > 0,
        0 <= cell < shape.width * shape.height,
    ensures
        0 <= tile_source(cell, shape, tile_height, tile_width)
            < ceil_div(shape.width as int, tile_width) * ceil_div(shape.height as int, tile_height),
        0 <= cell / (shape.width as int) < shape.height,
        0 <= cell % (shape.width as int) < shape.width,
        cell / (shape.width as int) / tile_height < ceil_div(shape.height as int, tile_height),
        cell % (shape.width as int) / tile_width < ceil_div(shape.width as int, tile_width),
{
    let w = shape.width as int;
    let h = shape.height as int;
    assert(w > 0 && h > 0) by (nonlinear_arith)
        requires
            0 <= cell < w * h,
            w >= 0,
            h >= 0,
    ;
    let tc = ceil_div(w, tile_width);
    let tr = ceil_div(h, tile_height);
    lemma_ceil_div_bounds(w, tile_width);
    lemma_ceil_div_bounds(h, tile_height);
    lemma_fundamental_div_mod(cell, w);
    lemma_mod_pos_bound(cell, w);
    lemma_div_pos_is_pos(cell, w);
    let r = cell / w;
    let c = cell % w;
    assert(r < h) by (nonlinear_arith)
        requires
            cell == w * r + c,
            0 <= c,
            cell < w * h,
            w > 0,
    ;
    lemma_div_pos_is_pos(r, tile_height);
    lemma_div_pos_is_pos(c, tile_width);
    let rq = r / tile_height;
    let cq = c / tile_width;
    lemma_fundamental_div_mod(r, tile_height);
    lemma_mod_pos_bound(r, tile_height);
    lemma_fundamental_div_mod(c, tile_width);
    lemma_mod_pos_bound(c, tile_width);
    assert(cq < tc) by (nonlinear_arith)
        requires
            c == tile_width * cq + c % tile_width,
            0 <= c % tile_width,
            c < w,
            tc * tile_width >= w,
            tile_width > 0,
    ;
    assert(rq < tr) by (nonlinear_arith)
        requires
            r == tile_height * rq + r % tile_height,
            0 <= r % tile_height,
            r < h,
            tr * tile_height >= h,
            tile_height > 0,
    ;
    assert(0 <= rq * tc + cq < tc * tr) by (nonlinear_arith)
        requires
            0 <= rq < tr,
            0 <= cq < tc,
    ;
}

/// `bucket` lists, in increasing order, exactly the positions below `limit`
/// whose active cell belongs to tile `s`.
pub open spec fn bucket_holds(
    bucket: Seq<usize>,
    active: Seq<u32>,
    limit: int,
    s: int,
    shape: RasterShape,
    tile_height: int,
    tile_width: int,
) -> bool {
    &&& forall|j: int| 0 <= j < bucket.len() ==> #[trigger] bucket[j] < limit
    &&& forall|j: int| 0 <= j < bucket.len() ==> tile_source(
        active[#[trigger] bucket[j] as int] as int, shape, tile_height, tile_width) == s
    &&& forall|j: int, k: int| 0 <= j < k < bucket.len() ==> #[trigger] bucket[j] < #[trigger] bucket[k]
    &&& forall|p: int| 0 <= p < limit && tile_source(active[p] as int, shape, tile_height, tile_width) == s
        ==> #[trigger] bucket.contains(p as usize)
}

/// A full bucket lists exactly the active cells of its tile's window.
proof fn lemma_bucket_is_window(
    bucket: Seq<usize>,
    active: Seq<u32>,
    s: int,
    shape: RasterShape,
    tile_height: int,
    tile_width: int,
)
    requires
        tile_height > 0,
        tile_width > 0,
        0 <= s < ceil_div(shape.width as int, tile_width) * ceil_div(shape.height as int, tile_height),
        forall|p: int| 0 <= p < active.len() ==> (#[trigger] active[p]) < shape.width * shape.height,
        bucket_holds(bucket, active, active.len() as int, s, shape, tile_height, tile_width),
    ensures
        positions_in_window(bucket, active, tile_window(s, shape, tile_height, tile_width), shape.width as int),
{
    let win = tile_window(s, shape, tile_height, tile_width);
    assert forall|j: int| 0 <= j < bucket.len() implies window_holds_cell(
        win, active[#[trigger] bucket[j] as int] as int, shape.width as int) by {
        let p = bucket[j] as int;
        assert(p < active.len());
        assert(active[p] < shape.width * shape.height);
        lemma_tile_membership(active[p] as int, s, shape, tile_height, tile_width);
    }
    assert forall|p: int| 0 <= p < active.len() && window_holds_cell(win, active[p] as int, shape.width as int)
        implies bucket.contains(p as usize) by {
        assert(active[p] < shape.width * shape.height);
        lemma_tile_membership(active[p] as int, s, shape, tile_height, tile_width);
        assert(tile_source(active[p] as int, shape, tile_height, tile_width) == s);
    }
}

impl TilePlan {
    /// Group the active cells of a raster into rectangular tiles.
    ///
    /// The raster is cut into `tile_height` by `tile_width` windows in
    /// row-major order (edge windows are clipped to the raster); each window
    /// that holds at least one active cell becomes a tile listing its cells in
    /// model order.
    pub fn raster(
        shape: RasterShape,
        active_cell_indexes: &[u32],
        tile_height: usize,
        tile_width: usize,
    ) -> (result: Result<TilePlan, TilePlanError>)
        ensures
            result is Ok <==> {
                &&& tile_height > 0 && tile_width > 0
                &&& shape.width * shape.height <= usize::MAX
                &&& forall|p: int| 0 <= p < active_cell_indexes@.len()
                    ==> (#[trigger] active_cell_indexes@[p]) < shape.width * shape.height
            },
            result matches Ok(plan) ==> {
                &&& plan matches TilePlan::Raster { tiles, shape: plan_shape }
                &&& plan_shape == shape
                &&& raster_tiles_spec(plan.spec_tiles(), active_cell_indexes@, shape,
                    tile_height as int, tile_width as int)
                &&& plan.spec_cell_count() == total_tile_len(plan.spec_tiles())
                &&& plan.spec_cell_count() == active_cell_indexes@.len()
            },
            result == Err::<TilePlan, TilePlanError>(TilePlanError::ZeroTileDimension)
                <==> (tile_height == 0 || tile_width == 0),
            result == Err::<TilePlan, TilePlanError>(TilePlanError::RasterTooLarge) <==> {
                &&& tile_height > 0 && tile_width > 0
                &&& shape.width * shape.height > usize::MAX
            },
            result matches Err(TilePlanError::CellOutsideRaster(index)) ==> {
                &&& tile_height > 0 && tile_width > 0
                &&& shape.width * shape.height <= usize::MAX
                &&& exists|p: int| 0 <= p < active_cell_indexes@.len()
                    && #[trigger] active_cell_indexes@[p] == index
                    && index >= shape.width * shape.height
                    && forall|q: int| 0 <= q < p ==> (#[trigger] active_cell_indexes@[q])
                        < shape.width * shape.height
            },
            result != Err::<TilePlan, TilePlanError>(TilePlanError::ZeroCellsPerTile),
            result != Err::<TilePlan, TilePlanError>(TilePlanError::TileCountOverflow),
    {
        if tile_height == 0 || tile_width == 0 {
            return Err(TilePlanError::ZeroTileDimension);
        }
        let grid_len = match shape.width.checked_mul(shape.height) {
            Some(len) => len,
            None => {
                return Err(TilePlanError::RasterTooLarge);
            },
        };
        let n = active_cell_indexes.len();
        let mut i: usize = 0;
        while i < n
            invariant
                n == active_cell_indexes@.len(),
                grid_len == shape.width * shape.height,
                tile_height > 0,
                tile_width > 0,
                forall|q: int| 0 <= q < i ==> (#[trigger] active_cell_indexes@[q]) < grid_len,
            decreases n - i,
        {
            if active_cell_indexes[i] as usize >= grid_len {
                proof {
                    let p = i as int;
                    assert(0 <= p < active_cell_indexes@.len()
                        && active_cell_indexes@[p] == active_cell_indexes[i as int]
                        && active_cell_indexes[i as int] >= shape.width * shape.height
                        && forall|q: int| 0 <= q < p ==> (#[trigger] active_cell_indexes@[q])
                            < shape.width * shape.height);
                }
                return Err(TilePlanError::CellOutsideRaster(active_cell_indexes[i]));
            }
            i += 1;
        }

        let tile_cols = ceil_div_exec(shape.width, tile_width);
        let tile_rows = ceil_div_exec(shape.height, tile_height);
        proof {
            lemma_ceil_div_bounds(shape.width as int, tile_width as int);
            lemma_ceil_div_bounds(shape.height as int, tile_height as int);
            assert(tile_cols * tile_rows <= shape.width * shape.height) by (nonlinear_arith)
                requires
                    0 <= tile_cols <= shape.width,
                    0 <= tile_rows <= shape.height,
            ;
        }
        let tile_count = tile_cols * tile_rows;
        let ghost th = tile_height as int;
        let ghost tw = tile_width as int;

        let mut positions: Vec<Vec<usize>> = Vec::new();
        let mut indexes: Vec<Vec<u32>> = Vec::new();
        let mut t: usize = 0;
        while t < tile_count
            invariant
                positions@.len() == t,
                indexes@.len() == t,
                t <= tile_count,
                forall|s: int| 0 <= s < t ==> (#[trigger] positions@[s])@.len() == 0,
                forall|s: int| 0 <= s < t ==> (#[trigger] indexes@[s])@.len() == 0,
            decreases tile_count - t,
        {
            positions.push(Vec::new());
            indexes.push(Vec::new());
            t += 1;
        }

        let mut i: usize = 0;
        while i < n
            invariant
                n == active_cell_indexes@.len(),
                grid_len == shape.width * shape.height,
                forall|q: int| 0 <= q < n ==> (#[trigger] active_cell_indexes@[q]) < grid_len,
                tile_height > 0,
                tile_width > 0,
                th == tile_height,
                tw == tile_width,
                tile_cols == ceil_div(shape.width as int, tw),
                tile_rows == ceil_div(shape.height as int, th),
                tile_count == tile_cols * tile_rows,
                positions@.len() == tile_count,
                indexes@.len() == tile_count,
                i <= n,
                forall|s: int| 0 <= s < tile_count ==> bucket_holds(
                    #[trigger] positions@[s]@, active_cell_indexes@, i as int, s, shape, th, tw),
                forall|s: int| 0 <= s < tile_count ==> (#[trigger] indexes@[s])@
                    == positions@[s]@.map_values(|p: usize| active_cell_indexes@[p as int]),
            decreases n - i,
        {
            let cell = active_cell_indexes[i] as usize;
            proof {
                lemma_tile_source_range(cell as int, shape, th, tw);
            }
            let row = cell / shape.width;
            let col = cell % shape.width;
            let tile_row = row / tile_height;
            let tile_col = col / tile_width;
            proof {
                assert(tile_row * tile_cols + tile_col < tile_count);
                assert(tile_row * tile_cols + tile_col == tile_source(cell as int, shape, th, tw));
            }
            let tile_index = tile_row * tile_cols + tile_col;
            let ghost before_pos = positions@;
            let ghost before_idx = indexes@;
            positions[tile_index].push(i);
            indexes[tile_index].push(active_cell_indexes[i]);
            proof {
                assert forall|s: int| 0 <= s < tile_count implies bucket_holds(
                    #[trigger] positions@[s]@, active_cell_indexes@, i + 1, s, shape, th, tw) by {
                    if s == tile_index {
                        let b = positions@[s]@;
                        assert(b == before_pos[s]@.push(i));
                        assert forall|p: int| 0 <= p < i + 1 && tile_source(
                            active_cell_indexes@[p] as int, shape, th, tw) == s
                            implies #[trigger] b.contains(p as usize) by {
                            if p < i {
                                assert(before_pos[s]@.contains(p as usize));
                                let j = choose|j: int| 0 <= j < before_pos[s]@.len() && before_pos[s]@[j] == p as usize;
                                assert(b[j] == p as usize);
                            } else {
                                assert(b[b.len() - 1] == p as usize);
                            }
                        }
                    } else {
                        assert(positions@[s] == before_pos[s]);
                    }
                }
                assert forall|s: int| 0 <= s < tile_count implies (#[trigger] indexes@[s])@
                    == positions@[s]@.map_values(|p: usize| active_cell_indexes@[p as int]) by {
                    if s == tile_index {
                        assert(indexes@[s]@ == before_idx[s]@.push(active_cell_indexes@[i as int]));
                        assert(positions@[s]@ == before_pos[s]@.push(i));
                        assert(positions@[s]@.map_values(|p: usize| active_cell_indexes@[p as int])
                            =~= before_pos[s]@.map_values(|p: usize| active_cell_indexes@[p as int])
                                .push(active_cell_indexes@[i as int]));
                    } else {
                        assert(positions@[s] == before_pos[s]);
                        assert(indexes@[s] == before_idx[s]);
                    }
                }
            }
            i += 1;
        }

        let ghost orig_pos = positions@;
        let ghost orig_idx = indexes@;
        let ghost mut srcs: Seq<int> = Seq::empty();
        let mut tiles: Vec<SpatialTile> = Vec::new();
        let mut source: usize = 0;
        while source < tile_count
            invariant
                n == active_cell_indexes@.len(),
                grid_len == shape.width * shape.height,
                forall|q: int| 0 <= q < n ==> (#[trigger] active_cell_indexes@[q]) < grid_len,
                tile_height > 0,
                tile_width > 0,
                th == tile_height,
                tw == tile_width,
                tile_cols == ceil_div(shape.width as int, tw),
                tile_rows == ceil_div(shape.height as int, th),
                tile_count == tile_cols * tile_rows,
                positions@.len() == tile_count,
                indexes@.len() == tile_count,
                orig_pos.len() == tile_count,
                orig_idx.len() == tile_count,
                source <= tile_count,
                forall|s: int| source <= s < tile_count ==> (#[trigger] positions@[s])@ == orig_pos[s]@,
                forall|s: int| source <= s < tile_count ==> (#[trigger] indexes@[s])@ == orig_idx[s]@,
                forall|s: int| 0 <= s < tile_count ==> bucket_holds(
                    #[trigger] orig_pos[s]@, active_cell_indexes@, n as int, s, shape, th, tw),
                forall|s: int| 0 <= s < tile_count ==> (#[trigger] orig_idx[s])@
                    == orig_pos[s]@.map_values(|p: usize| active_cell_indexes@[p as int]),
                srcs.len() == tiles@.len(),
                forall|k: int| 0 <= k < srcs.len() ==> 0 <= #[trigger] srcs[k] < source,
                forall|j: int, k: int| 0 <= j < k < srcs.len() ==> #[trigger] srcs[j] < #[trigger] srcs[k],
                forall|k: int| 0 <= k < srcs.len() ==> (#[trigger] tiles@[k]).ordinal == k,
                forall|k: int| 0 <= k < srcs.len() ==> (#[trigger] tiles@[k]).window
                    == Some(tile_window(srcs[k], shape, th, tw)),
                forall|k: int| 0 <= k < srcs.len() ==> (#[trigger] tiles@[k]).model_positions@
                    == orig_pos[srcs[k]]@,
                forall|k: int| 0 <= k < srcs.len() ==> (#[trigger] tiles@[k]).grid_cell_indexes@
                    == orig_idx[srcs[k]]@,
                forall|k: int| 0 <= k < srcs.len() ==> orig_pos[#[trigger] srcs[k]]@.len() > 0,
                forall|s: int| 0 <= s < source && (#[trigger] orig_pos[s])@.len() > 0
                    ==> exists|k: int| 0 <= k < srcs.len() && srcs[k] == s,
            decreases tile_count - source,
        {
            let ghost old_srcs = srcs;
            if positions[source].len() != 0 {
                proof {
                    assert(shape.width > 0 && shape.height > 0) by {
                        let b = orig_pos[source as int]@;
                        let p = b[0] as int;
                        assert(active_cell_indexes@[p] < grid_len);
                        assert(shape.width * shape.height > 0);
                        assert(shape.width > 0 && shape.height > 0) by (nonlinear_arith)
                            requires
                                shape.width * shape.height > 0,
                        ;
                    }
                    lemma_window_origin(source as int, shape, th, tw);
                }
                let tile_row = source / tile_cols;
                let tile_col = source % tile_cols;
                let row = tile_row * tile_height;
                let col = tile_col * tile_width;
                let height = if tile_height <= shape.height - row { tile_height } else { shape.height - row };
                let width = if tile_width <= shape.width - col { tile_width } else { shape.width - col };
                let mut model_positions: Vec<usize> = Vec::new();
                std::mem::swap(&mut model_positions, &mut positions[source]);
                let mut grid_cell_indexes: Vec<u32> = Vec::new();
                std::mem::swap(&mut grid_cell_indexes, &mut indexes[source]);
                let ordinal = tiles.len();
                let window = GridWindow { row, col, height, width };
                proof {
                    assert(window == tile_window(source as int, shape, th, tw));
                }
                tiles.push(SpatialTile { ordinal, window: Some(window), model_positions, grid_cell_indexes });
                proof {
                    srcs = srcs.push(source as int);
                }
            }
            proof {
                assert forall|s: int| 0 <= s < source + 1 && (#[trigger] orig_pos[s])@.len() > 0
                    implies exists|k: int| 0 <= k < srcs.len() && srcs[k] == s by {
                    if s == source {
                        assert(srcs[srcs.len() - 1] == s);
                    } else {
                        let k = choose|k: int| 0 <= k < old_srcs.len() && old_srcs[k] == s;
                        assert(srcs[k] == s);
                    }
                }
            }
            source += 1;
        }

        proof {
            assert forall|s: int| 0 <= s < tile_count implies (#[trigger] orig_pos[s])@.len() > 0
                ==> exists|k: int| 0 <= k < srcs.len() && srcs[k] == s by {}
            lemma_buckets_give_tiles(tiles@, srcs, orig_pos, orig_idx, active_cell_indexes@, shape, th, tw);
            let plan = TilePlan::Raster { tiles, shape };
            law_raster_plan_cell_count(plan, active_cell_indexes@, shape, th, tw);
        }
        Ok(TilePlan::Raster { tiles, shape })
    }
}

/// The non-empty buckets, taken in tile order, form a raster plan.
proof fn lemma_buckets_give_tiles(
    tiles: Seq<SpatialTile>,
    srcs: Seq<int>,
    buckets: Seq<Vec<usize>>,
    cells: Seq<Vec<u32>>,
    active: Seq<u32>,
    shape: RasterShape,
    tile_height: int,
    tile_width: int,
)
    requires
        tile_height > 0,
        tile_width > 0,
        buckets.len() == ceil_div(shape.width as int, tile_width) * ceil_div(shape.height as int, tile_height),
        cells.len() == buckets.len(),
        forall|p: int| 0 <= p < active.len() ==> (#[trigger] active[p]) < shape.width * shape.height,
        forall|s: int| 0 <= s < buckets.len() ==> bucket_holds(
            #[trigger] buckets[s]@, active, active.len() as int, s, shape, tile_height, tile_width),
        forall|s: int| 0 <= s < buckets.len() ==> (#[trigger] cells[s])@
            == buckets[s]@.map_values(|p: usize| active[p as int]),
        srcs.len() == tiles.len(),
        forall|k: int| 0 <= k < srcs.len() ==> 0 <= #[trigger] srcs[k] < buckets.len(),
        forall|j: int, k: int| 0 <= j < k < srcs.len() ==> #[trigger] srcs[j] < #[trigger] srcs[k],
        forall|k: int| 0 <= k < srcs.len() ==> (#[trigger] tiles[k]).ordinal == k,
        forall|k: int| 0 <= k < srcs.len() ==> (#[trigger] tiles[k]).window
            == Some(tile_window(srcs[k], shape, tile_height, tile_width)),
        forall|k: int| 0 <= k < srcs.len() ==> (#[trigger] tiles[k]).model_positions@ == buckets[srcs[k]]@,
        forall|k: int| 0 <= k < srcs.len() ==> (#[trigger] tiles[k]).grid_cell_indexes@ == cells[srcs[k]]@,
        forall|k: int| 0 <= k < srcs.len() ==> buckets[#[trigger] srcs[k]]@.len() > 0,
        forall|s: int| 0 <= s < buckets.len() && (#[trigger] buckets[s])@.len() > 0
            ==> exists|k: int| 0 <= k < srcs.len() && srcs[k] == s,
    ensures
        raster_tiles_spec(tiles, active, shape, tile_height, tile_width),
{
    if tiles.len() > 0 {
        let b = buckets[srcs[0]]@;
        assert(active[b[0] as int] < shape.width * shape.height);
        assert(shape.width > 0 && shape.height > 0) by (nonlinear_arith)
            requires
                shape.width * shape.height > 0,
        ;
    }
    assert forall|k: int| 0 <= k < tiles.len() implies is_tile_window(
        (#[trigger] tiles[k]).window->0, shape, tile_height, tile_width) by {
        lemma_window_shape(srcs[k], shape, tile_height, tile_width);
    }
    assert forall|k: int| 0 <= k < tiles.len() implies positions_in_window(
        (#[trigger] tiles[k]).model_positions@, active, tiles[k].window->0, shape.width as int) by {
        lemma_bucket_is_window(buckets[srcs[k]]@, active, srcs[k], shape, tile_height, tile_width);
    }
    assert forall|k: int, l: int| 0 <= k < l < tiles.len() implies window_before(
        (#[trigger] tiles[k]).window->0, (#[trigger] tiles[l]).window->0) by {
        lemma_window_order(srcs[k], srcs[l], shape, tile_height, tile_width);
    }
    assert forall|p: int| 0 <= p < active.len() implies #[trigger] tile_lists_position(tiles, p) by {
        lemma_tile_source_range(active[p] as int, shape, tile_height, tile_width);
        let s = tile_source(active[p] as int, shape, tile_height, tile_width);
        assert(buckets[s]@.contains(p as usize));
        let k = choose|k: int| 0 <= k < srcs.len() && srcs[k] == s;
        assert(tiles[k].model_positions@.contains(p as usize));
    }
}


/// The rounded-up quotient is the number of `b`-sized batches that cover `a`.
proof fn lemma_ceil_div_unique(a: int, b: int, k: int)
    requires
        a >= 0,
        b > 0,
        k >= 0,
        (k - 1) * b < a,
        a <= k * b,
    ensures
        ceil_div(a, b) == k,
{
    assert((k - 1) * b == k * b - b) by (nonlinear_arith);
    assert(a + b - 1 == k * b + (a + b - 1 - k * b));
    lemma_fundamental_div_mod_converse_div(a + b - 1, b, k, a + b - 1 - k * b);
}

/// The partial sums of tile lengths never exceed the total.
proof fn lemma_total_tile_len_prefix(tiles: Seq<SpatialTile>, i: int)
    requires
        0 <= i <= tiles.len(),
    ensures
        total_tile_len(tiles.take(i)) <= total_tile_len(tiles),
    decreases tiles.len() - i,
{
    if i < tiles.len() {
        lemma_total_tile_len_prefix(tiles, i + 1);
        assert(tiles.take(i + 1).drop_last() =~= tiles.take(i));
    } else {
        assert(tiles.take(i) =~= tiles);
    }
}

impl TilePlan {
    /// Cut `cell_count` model positions into consecutive batches of
    /// `cells_per_tile` positions (the last batch may be shorter).
    pub fn cells(cell_count: usize, cells_per_tile: usize) -> (result: Result<TilePlan, TilePlanError>)
        requires
            cell_batches_fit(cell_count as int, cells_per_tile as int),
        ensures
            result is Ok <==> cells_per_tile > 0,
            result matches Err(error) ==> error == TilePlanError::ZeroCellsPerTile,
            result matches Ok(plan) ==> {
                &&& plan matches TilePlan::Cells { tiles, cell_count: count }
                &&& count == cell_count
                &&& cell_tiles_spec(plan.spec_tiles(), cell_count as int, cells_per_tile as int)
                &&& plan.spec_cell_count() == total_tile_len(plan.spec_tiles())
            },
    {
        if cells_per_tile == 0 {
            return Err(TilePlanError::ZeroCellsPerTile);
        }
        let ghost c = cells_per_tile as int;
        let ghost n = cell_count as int;
        let mut tiles: Vec<SpatialTile> = Vec::new();
        let mut start: usize = 0;
        assert(tiles@.len() * c == 0) by (nonlinear_arith)
            requires
                tiles@.len() == 0,
        ;
        while start < cell_count
            invariant
                c == cells_per_tile,
                n == cell_count,
                c > 0,
                cell_batches_fit(n, c),
                start == (if tiles@.len() * c <= n { tiles@.len() * c } else { n }),
                tiles@.len() == 0 || (tiles@.len() - 1) * c < n,
                forall|k: int| 0 <= k < tiles@.len() ==> (#[trigger] tiles@[k]).ordinal == k,
                forall|k: int| 0 <= k < tiles@.len() ==> (#[trigger] tiles@[k]).window is None,
                forall|k: int| 0 <= k < tiles@.len() ==> (#[trigger] tiles@[k]).grid_cell_indexes@.len() == 0,
                forall|k: int| 0 <= k < tiles@.len() ==> (#[trigger] tiles@[k]).model_positions@
                    == Seq::new(
                        ((if (k + 1) * c <= n { (k + 1) * c } else { n }) - k * c) as nat,
                        |i: int| (k * c + i) as usize,
                    ),
            decreases cell_count - start,
        {
            let ghost k = tiles@.len() as int;
            assert(start == k * c);
            proof {
                assert(k <= (n - 1) / c) by {
                    lemma_fundamental_div_mod(n - 1, c);
                    lemma_mod_pos_bound(n - 1, c);
                    lemma_quotient_band(n - 1, c, (n - 1) / c);
                    assert(k * c <= n - 1);
                    let q = (n - 1) / c;
                    if k > q {
                        assert(k * c > n - 1) by (nonlinear_arith)
                            requires
                                k > q,
                                c > 0,
                                n - 1 < q * c + c,
                        ;
                    }
                }
                assert(k * c + c <= usize::MAX) by (nonlinear_arith)
                    requires
                        k <= (n - 1) / c,
                        ((n - 1) / c) * c + c <= usize::MAX,
                        c > 0,
                ;
            }
            let end = if start + cells_per_tile <= cell_count { start + cells_per_tile } else { cell_count };
            let mut model_positions: Vec<usize> = Vec::new();
            let mut position = start;
            while position < end
                invariant
                    start <= position <= end,
                    model_positions@ == Seq::new((position - start) as nat, |i: int| (start + i) as usize),
                decreases end - position,
            {
                model_positions.push(position);
                position += 1;
                assert(model_positions@ =~= Seq::new((position - start) as nat, |i: int| (start + i) as usize));
            }
            let ordinal = tiles.len();
            tiles.push(SpatialTile { ordinal, window: None, model_positions, grid_cell_indexes: Vec::new() });
            proof {
                assert((k + 1) * c == k * c + c) by (nonlinear_arith);
                assert forall|j: int| 0 <= j < tiles@.len() implies (#[trigger] tiles@[j]).model_positions@
                    == Seq::new(
                        ((if (j + 1) * c <= n { (j + 1) * c } else { n }) - j * c) as nat,
                        |i: int| (j * c + i) as usize,
                    ) by {
                    if j == k {
                        assert(tiles@[j].model_positions@ =~= Seq::new(
                            ((if (j + 1) * c <= n { (j + 1) * c } else { n }) - j * c) as nat,
                            |i: int| (j * c + i) as usize,
                        ));
                    }
                }
            }
            start = end;
        }
        proof {
            let k = tiles@.len() as int;
            assert(k * c >= n);
            lemma_ceil_div_unique(n, c, k);
            law_plan_cell_count_is_tile_total(TilePlan::Cells { tiles, cell_count }, c);
        }
        Ok(TilePlan::Cells { tiles, cell_count })
    }

    /// The plan's tiles, in processing order.
    pub fn tiles(&self) -> (tiles: &[SpatialTile])
        ensures
            tiles@ == self.spec_tiles(),
    {
        match self {
            TilePlan::Raster { tiles, .. } => tiles.as_slice(),
            TilePlan::Cells { tiles, .. } => tiles.as_slice(),
        }
    }

    /// How many model positions the plan covers.
    pub fn cell_count(&self) -> (count: usize)
        requires
            self.spec_cell_count() <= usize::MAX,
        ensures
            count == self.spec_cell_count(),
    {
        match self {
            TilePlan::Raster { tiles, .. } => {
                let mut total: usize = 0;
                let mut i: usize = 0;
                while i < tiles.len()
                    invariant
                        i <= tiles@.len(),
                        total == total_tile_len(tiles@.take(i as int)),
                        total_tile_len(tiles@) <= usize::MAX,
                    decreases tiles@.len() - i,
                {
                    proof {
                        lemma_total_tile_len_prefix(tiles@, i + 1);
                        assert(tiles@.take(i + 1).drop_last() =~= tiles@.take(i as int));
                    }
                    total = total + tiles[i].len();
                    i += 1;
                }
                proof {
                    assert(tiles@.take(i as int) =~= tiles@);
                }
                total
            },
            TilePlan::Cells { cell_count, .. } => *cell_count,
        }
    }
}


/// Every model position below `n` is listed by exactly one tile, and tiles
/// list nothing else.
pub open spec fn tiles_partition_positions(tiles: Seq<SpatialTile>, n: int) -> bool {
    &&& forall|p: int| 0 <= p < n ==> #[trigger] tile_lists_position(tiles, p)
    &&& forall|p: usize, k: int, l: int|
        #![trigger tiles[k].model_positions@.contains(p), tiles[l].model_positions@.contains(p)]
        0 <= k < tiles.len() && 0 <= l < tiles.len()
            && tiles[k].model_positions@.contains(p)
            && tiles[l].model_positions@.contains(p) ==> k == l
    &&& forall|k: int, j: int| 0 <= k < tiles.len() && 0 <= j < tiles[k].model_positions@.len()
        ==> (#[trigger] tiles[k].model_positions@[j]) < n
}

/// Two tile windows that hold the same raster cell are the same window.
proof fn lemma_tile_windows_agree(a: GridWindow, b: GridWindow, r: int, c: int, shape: RasterShape, tile_height: int, tile_width: int)
    requires
        tile_height > 0,
        tile_width > 0,
        is_tile_window(a, shape, tile_height, tile_width),
        is_tile_window(b, shape, tile_height, tile_width),
        a.covers(r, c),
        b.covers(r, c),
    ensures
        a.row == b.row && a.col == b.col,
{
    lemma_fundamental_div_mod(a.row as int, tile_height);
    lemma_fundamental_div_mod(b.row as int, tile_height);
    lemma_fundamental_div_mod(a.col as int, tile_width);
    lemma_fundamental_div_mod(b.col as int, tile_width);
    let (qa, qb) = (a.row as int / tile_height, b.row as int / tile_height);
    let (pa, pb) = (a.col as int / tile_width, b.col as int / tile_width);
    lemma_quotient_band(r, tile_height, qa);
    lemma_quotient_band(r, tile_height, qb);
    lemma_quotient_band(c, tile_width, pa);
    lemma_quotient_band(c, tile_width, pb);
    assert(a.row == qa * tile_height) by (nonlinear_arith)
        requires
            a.row == tile_height * qa + 0,
    ;
    assert(b.row == qb * tile_height) by (nonlinear_arith)
        requires
            b.row == tile_height * qb + 0,
    ;
    assert(a.col == pa * tile_width) by (nonlinear_arith)
        requires
            a.col == tile_width * pa + 0,
    ;
    assert(b.col == pb * tile_width) by (nonlinear_arith)
        requires
            b.col == tile_width * pb + 0,
    ;
}

/// Raster plans partition the model positions: each active cell is handled
/// by exactly one tile.
pub proof fn law_raster_plan_partitions_positions(
    tiles: Seq<SpatialTile>,
    active: Seq<u32>,
    shape: RasterShape,
    tile_height: int,
    tile_width: int,
)
    requires
        tile_height > 0,
        tile_width > 0,
        raster_tiles_spec(tiles, active, shape, tile_height, tile_width),
    ensures
        tiles_partition_positions(tiles, active.len() as int),
{
    assert forall|p: usize, k: int, l: int|
        #![trigger tiles[k].model_positions@.contains(p), tiles[l].model_positions@.contains(p)]
        0 <= k < tiles.len() && 0 <= l < tiles.len()
            && tiles[k].model_positions@.contains(p)
            && tiles[l].model_positions@.contains(p) implies k == l by {
        let pk = tiles[k].model_positions@;
        let pl = tiles[l].model_positions@;
        let jk = choose|j: int| 0 <= j < pk.len() && pk[j] == p;
        let jl = choose|j: int| 0 <= j < pl.len() && pl[j] == p;
        assert(pk[jk] == p);
        assert(pl[jl] == p);
        let cell = active[p as int] as int;
        let w = shape.width as int;
        lemma_tile_windows_agree(tiles[k].window->0, tiles[l].window->0, cell / w, cell % w,
            shape, tile_height, tile_width);
        if k < l {
            assert(window_before(tiles[k].window->0, tiles[l].window->0));
        } else if l < k {
            assert(window_before(tiles[l].window->0, tiles[k].window->0));
        }
    }
}

/// Every batch of a cell plan starts before the last position.
proof fn lemma_batch_start(k: int, n: int, c: int)
    requires
        c > 0,
        n >= 0,
        0 <= k < ceil_div(n, c),
    ensures
        0 <= k * c < n,
{
    lemma_ceil_div_bounds(n, c);
    assert(0 <= k * c < n) by (nonlinear_arith)
        requires
            0 <= k < ceil_div(n, c),
            n > 0 ==> (ceil_div(n, c) - 1) * c < n,
            n == 0 ==> ceil_div(n, c) == 0,
            c > 0,
    ;
}

/// Cell plans partition the model positions: each of the `cell_count`
/// positions is handled by exactly one batch.
pub proof fn law_cell_plan_partitions_positions(tiles: Seq<SpatialTile>, cell_count: int, cells_per_tile: int)
    requires
        cells_per_tile > 0,
        0 <= cell_count <= usize::MAX,
        cell_tiles_spec(tiles, cell_count, cells_per_tile),
    ensures
        tiles_partition_positions(tiles, cell_count),
{
    let c = cells_per_tile;
    assert forall|k: int, j: int| 0 <= k < tiles.len() && 0 <= j < tiles[k].model_positions@.len()
        implies (#[trigger] tiles[k].model_positions@[j]) < cell_count by {
        lemma_batch_start(k, cell_count, c);
        assert((k + 1) * c == k * c + c) by (nonlinear_arith);
        assert(k * c + j < cell_count);
        assert(tiles[k].model_positions@[j] == k * c + j);
    }
    assert forall|p: int| 0 <= p < cell_count implies #[trigger] tile_lists_position(tiles, p) by {
        let k = p / c;
        lemma_fundamental_div_mod(p, c);
        lemma_mod_pos_bound(p, c);
        lemma_div_pos_is_pos(p, c);
        lemma_ceil_div_bounds(cell_count, c);
        assert(k * c <= p < k * c + c) by (nonlinear_arith)
            requires
                p == c * k + p % c,
                0 <= p % c < c,
        ;
        assert(k < tiles.len()) by {
            if k >= ceil_div(cell_count, c) {
                assert(k * c >= ceil_div(cell_count, c) * c) by (nonlinear_arith)
                    requires
                        k >= ceil_div(cell_count, c),
                        c > 0,
                ;
            }
        }
        let ps = tiles[k].model_positions@;
        assert((k + 1) * c == k * c + c) by (nonlinear_arith);
        assert(p - k * c < ps.len());
        assert(ps[p - k * c] == p as usize);
    }
    assert forall|p: usize, k: int, l: int|
        #![trigger tiles[k].model_positions@.contains(p), tiles[l].model_positions@.contains(p)]
        0 <= k < tiles.len() && 0 <= l < tiles.len()
            && tiles[k].model_positions@.contains(p)
            && tiles[l].model_positions@.contains(p) implies k == l by {
        let pk = tiles[k].model_positions@;
        let pl = tiles[l].model_positions@;
        let jk = choose|j: int| 0 <= j < pk.len() && pk[j] == p;
        let jl = choose|j: int| 0 <= j < pl.len() && pl[j] == p;
        lemma_batch_start(k, cell_count, c);
        lemma_batch_start(l, cell_count, c);
        assert((k + 1) * c == k * c + c) by (nonlinear_arith);
        assert((l + 1) * c == l * c + c) by (nonlinear_arith);
        assert(pk[jk] == k * c + jk);
        assert(pl[jl] == l * c + jl);
        lemma_quotient_band(p as int, c, k);
        lemma_quotient_band(p as int, c, l);
        assert((k + 1) * c == k * c + c) by (nonlinear_arith);
        assert((l + 1) * c == l * c + c) by (nonlinear_arith);
    }
}

/// The set of model positions that a run of tiles lists.
pub open spec fn listed_positions(tiles: Seq<SpatialTile>) -> Set<usize>
    decreases tiles.len(),
{
    if tiles.len() == 0 {
        Set::empty()
    } else {
        listed_positions(tiles.drop_last()) + tiles.last().model_positions@.to_set()
    }
}

proof fn lemma_listed_positions(tiles: Seq<SpatialTile>)
    requires
        forall|k: int| 0 <= k < tiles.len() ==> (#[trigger] tiles[k]).model_positions@.no_duplicates(),
        forall|p: usize, k: int, l: int|
            #![trigger tiles[k].model_positions@.contains(p), tiles[l].model_positions@.contains(p)]
            0 <= k < tiles.len() && 0 <= l < tiles.len()
                && tiles[k].model_positions@.contains(p)
                && tiles[l].model_positions@.contains(p) ==> k == l,
    ensures
        listed_positions(tiles).finite(),
        listed_positions(tiles).len() == total_tile_len(tiles),
        forall|p: usize| #[trigger] listed_positions(tiles).contains(p)
            <==> exists|k: int| 0 <= k < tiles.len() && (#[trigger] tiles[k]).model_positions@.contains(p),
    decreases tiles.len(),
{
    if tiles.len() > 0 {
        let init = tiles.drop_last();
        let last = tiles.last().model_positions@;
        lemma_listed_positions(init);
        last.unique_seq_to_set();
        assert forall|p: usize| #[trigger] listed_positions(tiles).contains(p)
            <==> exists|k: int| 0 <= k < tiles.len() && (#[trigger] tiles[k]).model_positions@.contains(p) by {
            if listed_positions(tiles).contains(p) {
                if listed_positions(init).contains(p) {
                    let k = choose|k: int| 0 <= k < init.len() && (#[trigger] init[k]).model_positions@.contains(p);
                    assert(tiles[k] == init[k]);
                } else {
                    assert(last.to_set().contains(p));
                    assert(tiles[tiles.len() - 1].model_positions@.contains(p));
                }
            }
            if exists|k: int| 0 <= k < tiles.len() && (#[trigger] tiles[k]).model_positions@.contains(p) {
                let k = choose|k: int| 0 <= k < tiles.len() && (#[trigger] tiles[k]).model_positions@.contains(p);
                if k < tiles.len() - 1 {
                    assert(init[k] == tiles[k]);
                } else {
                    assert(last.to_set().contains(p));
                }
            }
        }
        assert(listed_positions(init).disjoint(last.to_set())) by {
            assert forall|p: usize| listed_positions(init).contains(p) implies !last.to_set().contains(p) by {
                let k = choose|k: int| 0 <= k < init.len() && (#[trigger] init[k]).model_positions@.contains(p);
                assert(tiles[k] == init[k]);
                if last.to_set().contains(p) {
                    assert(tiles[tiles.len() - 1].model_positions@.contains(p));
                }
            }
        }
        lemma_set_disjoint_lens(listed_positions(init), last.to_set());
    }
}

/// The positions below `n`, as a set, has `n` elements.
proof fn lemma_position_range_len(n: int)
    requires
        0 <= n <= usize::MAX + 1,
    ensures
        Set::new(|p: usize| (p as int) < n).finite(),
        Set::new(|p: usize| (p as int) < n).len() == n,
{
    let ints = set_int_range(0, n);
    let target = Set::new(|p: usize| (p as int) < n);
    let f = |i: int| i as usize;
    lemma_int_range(0, n);
    assert(ints.map(f) =~= target) by {
        assert forall|p: usize| target.contains(p) implies ints.map(f).contains(p) by {
            assert(ints.contains(p as int) && f(p as int) == p);
        }
    }
    lemma_map_size(ints, target, f);
}

/// Tiles that partition `n` positions, each listing a position at most once,
/// list `n` positions in total.
pub proof fn law_partition_total(tiles: Seq<SpatialTile>, n: int)
    requires
        0 <= n <= usize::MAX + 1,
        tiles_partition_positions(tiles, n),
        forall|k: int| 0 <= k < tiles.len() ==> (#[trigger] tiles[k]).model_positions@.no_duplicates(),
    ensures
        total_tile_len(tiles) == n,
{
    lemma_listed_positions(tiles);
    lemma_position_range_len(n);
    assert(listed_positions(tiles) =~= Set::new(|p: usize| (p as int) < n)) by {
        assert forall|p: usize| listed_positions(tiles).contains(p) implies (p as int) < n by {
            let k = choose|k: int| 0 <= k < tiles.len() && (#[trigger] tiles[k]).model_positions@.contains(p);
            let j = choose|j: int| 0 <= j < tiles[k].model_positions@.len() && tiles[k].model_positions@[j] == p;
            assert(tiles[k].model_positions@[j] < n);
        }
        assert forall|p: usize| (p as int) < n implies listed_positions(tiles).contains(p) by {
            assert(tile_lists_position(tiles, p as int));
        }
    }
}

/// A raster plan covers exactly the active cells it was built from.
pub proof fn law_raster_plan_cell_count(
    plan: TilePlan,
    active: Seq<u32>,
    shape: RasterShape,
    tile_height: int,
    tile_width: int,
)
    requires
        tile_height > 0,
        tile_width > 0,
        active.len() <= usize::MAX,
        plan is Raster,
        raster_tiles_spec(plan.spec_tiles(), active, shape, tile_height, tile_width),
    ensures
        plan.spec_cell_count() == active.len(),
{
    let tiles = plan.spec_tiles();
    law_raster_plan_partitions_positions(tiles, active, shape, tile_height, tile_width);
    assert forall|k: int| 0 <= k < tiles.len() implies (#[trigger] tiles[k]).model_positions@.no_duplicates() by {
        let ps = tiles[k].model_positions@;
        assert forall|i: int, j: int| 0 <= i < ps.len() && 0 <= j < ps.len() && i != j implies ps[i] != ps[j] by {
            if i < j {
                assert(ps[i] < ps[j]);
            } else {
                assert(ps[j] < ps[i]);
            }
        }
    }
    law_partition_total(tiles, active.len() as int);
}

/// A plan's cell count is the number of positions its tiles list: for a
/// raster plan, its active cells; for a cell plan, the cells it batches.
pub proof fn law_plan_cell_count_is_tile_total(plan: TilePlan, cells_per_tile: int)
    requires
        plan is Raster || {
            &&& cells_per_tile > 0
            &&& 0 <= plan.spec_cell_count() <= usize::MAX
            &&& cell_tiles_spec(plan.spec_tiles(), plan.spec_cell_count(), cells_per_tile)
        },
    ensures
        plan.spec_cell_count() == total_tile_len(plan.spec_tiles()),
{
    if plan is Cells {
        let tiles = plan.spec_tiles();
        let n = plan.spec_cell_count();
        law_cell_plan_partitions_positions(tiles, n, cells_per_tile);
        assert forall|k: int| 0 <= k < tiles.len() implies (#[trigger] tiles[k]).model_positions@.no_duplicates() by {
            let ps = tiles[k].model_positions@;
            assert forall|i: int, j: int| 0 <= i < ps.len() && 0 <= j < ps.len() && i != j implies ps[i] != ps[j] by {
                lemma_batch_start(k, n, cells_per_tile);
                assert(ps[i] == (k * cells_per_tile + i) as usize);
                assert(ps[j] == (k * cells_per_tile + j) as usize);
                assert((k + 1) * cells_per_tile == k * cells_per_tile + cells_per_tile) by (nonlinear_arith);
            }
        }
        law_partition_total(tiles, n);
    }
}

} // verus!
