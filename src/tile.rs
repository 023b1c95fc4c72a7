//! The tile grid: tiles, the column or row that holds a coordinate at a
//! given scale, and the cells that a range of coordinates spans.
use crate::geometry::{Extent, Point, Scalar};
use crate::scale::Ratio;
use crate::spatial::{intersects, IndexEntry};
use vstd::arithmetic::div_mod::{lemma_div_is_ordered, lemma_fundamental_div_mod};
use vstd::prelude::*;

verus! {

pub type RowIndex = i64;

pub type ColumnIndex = i64;

/// The largest magnitude of the camera position and of the viewport and tile
/// extents of a tiled layer.
pub const COORDINATE_LIMIT: i64 = 0x8000_0000;

/// The largest magnitude of a tile's edges.
pub const TILE_EDGE_LIMIT: i64 = 0x100_0000_0000;

/// A cell of the tile grid. Columns and rows are never zero: column 1 spans
/// from 0 to one tile width, column -1 from minus one tile width to 0.
#[derive(Clone, Copy, Debug, PartialEq, Eq, Hash, Default, Structural)]
pub struct TiledLayerTile {
    pub column: ColumnIndex,
    pub row: RowIndex,
    pub extent: Extent,
}

impl TiledLayerTile {
    pub open spec fn left_spec(self) -> int {
        self.extent.width * (if self.column < 0 {
            self.column as int
        } else {
            self.column - 1
        })
    }

    pub open spec fn top_spec(self) -> int {
        self.extent.height * (if self.row < 0 {
            self.row as int
        } else {
            self.row - 1
        })
    }

    /// The tile's size is within the coordinate limit and its edges within
    /// the edge limit.
    pub open spec fn fits(self) -> bool {
        &&& 0 <= self.extent.width <= COORDINATE_LIMIT
        &&& 0 <= self.extent.height <= COORDINATE_LIMIT
        &&& -TILE_EDGE_LIMIT <= self.left_spec() <= TILE_EDGE_LIMIT
        &&& -TILE_EDGE_LIMIT <= self.top_spec() <= TILE_EDGE_LIMIT
    }

    /// The tile's box in doubled coordinates.
    pub open spec fn doubled_box_spec(self) -> (int, int, int, int) {
        (
            2 * self.left_spec(),
            2 * self.top_spec(),
            2 * (self.left_spec() + self.extent.width),
            2 * (self.top_spec() + self.extent.height),
        )
    }

    pub fn new(row: RowIndex, column: ColumnIndex) -> (r: Self)
        ensures
            r.row == row && r.column == column && r.extent == (Extent { width: 0, height: 0 }),
    {
        TiledLayerTile { column, row, extent: Extent::zero() }
    }

    pub fn coordinate(&self) -> (r: (ColumnIndex, RowIndex))
        ensures
            r == (self.column, self.row),
    {
        (self.column, self.row)
    }

    pub fn left(&self) -> (r: Scalar)
        requires
            self.fits(),
        ensures
            r == self.left_spec(),
    {
        let left = if self.column < 0 {
            self.column
        } else {
            self.column - 1
        };
        self.extent.width * left
    }

    pub fn top(&self) -> (r: Scalar)
        requires
            self.fits(),
        ensures
            r == self.top_spec(),
    {
        let top = if self.row < 0 {
            self.row
        } else {
            self.row - 1
        };
        self.extent.height * top
    }

    pub fn right(&self) -> (r: Scalar)
        requires
            self.fits(),
        ensures
            r == self.left_spec() + self.extent.width,
    {
        self.left() + self.extent.width
    }

    pub fn bottom(&self) -> (r: Scalar)
        requires
            self.fits(),
        ensures
            r == self.top_spec() + self.extent.height,
    {
        self.top() + self.extent.height
    }

    pub fn origin(&self) -> (r: Point)
        requires
            self.fits(),
        ensures
            r.x == self.left_spec() && r.y == self.top_spec(),
    {
        Point::new(self.left(), self.top())
    }

    pub fn width(&self) -> (r: Scalar)
        ensures
            r == self.extent.width,
    {
        self.extent.width
    }

    pub fn height(&self) -> (r: Scalar)
        ensures
            r == self.extent.height,
    {
        self.extent.height
    }

    pub(crate) fn doubled_box(&self) -> (r: (i128, i128, i128, i128))
        requires
            self.fits(),
        ensures
            (r.0 as int, r.1 as int, r.2 as int, r.3 as int) == self.doubled_box_spec(),
            r.0 <= r.2 && r.1 <= r.3,
    {
        let left = self.left() as i128;
        let top = self.top() as i128;
        (
            2 * left,
            2 * top,
            2 * (left + self.extent.width as i128),
            2 * (top + self.extent.height as i128),
        )
    }
}

/// The column (or row) of the tile that holds the coordinate `doubled / 2`,
/// with tiles `tile * factor.0 / factor.1` wide: the quotient of the
/// coordinate by the tile width, truncated toward zero, plus its sign, where
/// zero counts as positive.
pub open spec fn index_at(doubled: int, tile: int, factor: (int, int)) -> int {
    let a = doubled * factor.1;
    let b = 2 * tile * factor.0;
    if a >= 0 {
        a / b + 1
    } else {
        -((-a) / b) - 1
    }
}

/// Does the box `e` share a point with the tile?
pub open spec fn touches_tile(e: IndexEntry, tile: TiledLayerTile) -> bool {
    intersects(
        e,
        tile.doubled_box_spec().0 as i128,
        tile.doubled_box_spec().1 as i128,
        tile.doubled_box_spec().2 as i128,
        tile.doubled_box_spec().3 as i128,
    )
}

/// The whole numbers from `lo` to `hi`, but zero, in increasing order.
pub open spec fn nonzero_span(lo: int, hi: int) -> Seq<i64>
    decreases hi - lo + 1,
{
    if lo > hi {
        Seq::empty()
    } else if lo == 0 {
        nonzero_span(1, hi)
    } else {
        seq![lo as i64] + nonzero_span(lo + 1, hi)
    }
}

/// The cells of the grid spanned by `columns` and `rows`, row after row.
pub open spec fn tile_grid(columns: Seq<i64>, rows: Seq<i64>) -> Seq<(i64, i64)>
    decreases rows.len(),
{
    if rows.len() == 0 {
        Seq::empty()
    } else {
        tile_grid(columns, rows.drop_last()) + columns.map_values(|c: i64| (c, rows.last()))
    }
}

pub open spec fn abs(v: int) -> int {
    if v < 0 {
        -v
    } else {
        v
    }
}

/// Computes `index_at`; a tile takes no more of the range than the
/// coordinate's magnitude.
pub(crate) fn column_at(doubled: i64, tile: i64, factor: Ratio) -> (r: i64)
    requires
        -3 * COORDINATE_LIMIT <= doubled <= 3 * COORDINATE_LIMIT,
        1 <= tile <= COORDINATE_LIMIT,
        factor.numerator >= 1,
        factor.denominator >= 1,
        factor.denominator <= 2 * factor.numerator,
    ensures
        r == index_at(
            doubled as int,
            tile as int,
            (factor.numerator as int, factor.denominator as int),
        ),
        r != 0,
        tile * (abs(r as int) - 1) <= abs(doubled as int),
{
    let n = factor.numerator as i128;
    let d = factor.denominator as i128;
    assert(-3 * COORDINATE_LIMIT * d <= doubled * d <= 3 * COORDINATE_LIMIT * d) by (nonlinear_arith)
        requires
            -3 * COORDINATE_LIMIT <= doubled <= 3 * COORDINATE_LIMIT,
            d >= 1,
    ;
    assert(3 * COORDINATE_LIMIT * d <= 3 * COORDINATE_LIMIT * 0x1_0000_0000_0000_0000) by (nonlinear_arith)
        requires
            d <= 0xffff_ffff_ffff_ffff,
    ;
    assert(2 * tile * n <= 2 * COORDINATE_LIMIT * 0x1_0000_0000_0000_0000) by (nonlinear_arith)
        requires
            tile <= COORDINATE_LIMIT,
            n <= 0xffff_ffff_ffff_ffff,
            tile >= 1,
            n >= 1,
    ;
    assert(2 * tile * n >= 2) by (nonlinear_arith)
        requires
            tile >= 1,
            n >= 1,
    ;
    let a: i128 = doubled as i128 * d;
    let b: i128 = 2 * (tile as i128) * n;
    let m: i128 = if a >= 0 {
        a
    } else {
        -a
    };
    let k: i128 = m / b;
    proof {
        lemma_fundamental_div_mod(m as int, b as int);
        let ad = abs(doubled as int);
        assert(m == ad * d) by (nonlinear_arith)
            requires
                a == doubled * d,
                m == abs(a as int),
                ad == abs(doubled as int),
                d >= 1,
        ;
        assert(tile * k <= ad) by (nonlinear_arith)
            requires
                m == b * k + m % b,
                0 <= m % b,
                b == 2 * tile * n,
                m == ad * d,
                d <= 2 * n,
                ad >= 0,
                n >= 1,
                tile >= 1,
                k >= 0,
        ;
        assert(k <= ad) by (nonlinear_arith)
            requires
                tile * k <= ad,
                tile >= 1,
                k >= 0,
        ;
    }
    if a >= 0 {
        k as i64 + 1
    } else {
        -(k as i64) - 1
    }
}

/// A tile further along the range lies in a column (or row) at least as far.
pub(crate) proof fn lemma_index_at_monotone(d1: int, d2: int, tile: int, factor: (int, int))
    requires
        d1 <= d2,
        tile >= 1,
        factor.0 >= 1,
        factor.1 >= 1,
    ensures
        index_at(d1, tile, factor) <= index_at(d2, tile, factor),
{
    let a1 = d1 * factor.1;
    let a2 = d2 * factor.1;
    let b = 2 * tile * factor.0;
    assert(a1 <= a2) by (nonlinear_arith)
        requires
            d1 <= d2,
            factor.1 >= 1,
            a1 == d1 * factor.1,
            a2 == d2 * factor.1,
    ;
    assert(b > 0) by (nonlinear_arith)
        requires
            tile >= 1,
            factor.0 >= 1,
            b == 2 * tile * factor.0,
    ;
    if a1 >= 0 {
        lemma_div_is_ordered(a1, a2, b);
    } else if a2 < 0 {
        lemma_div_is_ordered(-a2, -a1, b);
    } else {
        assert((-a1) / b >= 0) by {
            lemma_div_is_ordered(0, -a1, b);
        }
        assert(a2 / b >= 0) by {
            lemma_div_is_ordered(0, a2, b);
        }
    }
}

/// The whole numbers from `lo` to `hi`, but zero.
pub(crate) fn nonzero_indices(lo: i64, hi: i64) -> (r: Vec<i64>)
    requires
        hi < i64::MAX,
    ensures
        r@ == nonzero_span(lo as int, hi as int),
        forall|i: int| 0 <= i < r@.len() ==> lo <= #[trigger] r@[i] <= hi && r@[i] != 0,
{
    let mut r: Vec<i64> = Vec::new();
    let mut c: i64 = lo;
    if lo > hi {
        return r;
    }
    while c <= hi
        invariant
            lo <= c <= hi + 1,
            hi < i64::MAX,
            nonzero_span(lo as int, hi as int) == r@ + nonzero_span(c as int, hi as int),
            forall|i: int| 0 <= i < r@.len() ==> lo <= #[trigger] r@[i] < c && r@[i] != 0,
        decreases hi + 1 - c,
    {
        let ghost before = r@;
        if c != 0 {
            r.push(c);
            assert(before + nonzero_span(c as int, hi as int) =~= r@ + nonzero_span(
                c + 1,
                hi as int,
            ));
        }
        c = c + 1;
    }
    assert(r@ + nonzero_span(c as int, hi as int) =~= r@);
    r
}

/// A tile whose column lies between two computed columns has its left edge
/// within the edge limit.
pub(crate) proof fn lemma_column_edge(c: int, start: int, end: int, tile: int, ds: int, de: int)
    requires
        start <= c <= end,
        c != 0,
        1 <= tile <= COORDINATE_LIMIT,
        tile * (abs(start) - 1) <= abs(ds),
        tile * (abs(end) - 1) <= abs(de),
        abs(ds) <= 3 * COORDINATE_LIMIT,
        abs(de) <= 3 * COORDINATE_LIMIT,
    ensures
        -TILE_EDGE_LIMIT <= tile * (if c < 0 {
            c
        } else {
            c - 1
        }) <= TILE_EDGE_LIMIT,
{
    if c > 0 {
        assert(0 <= tile * (c - 1) <= tile * (end - 1)) by (nonlinear_arith)
            requires
                1 <= c <= end,
                tile >= 1,
        ;
    } else {
        assert(tile * (-c - 1) <= tile * (-start - 1)) by (nonlinear_arith)
            requires
                start <= c <= -1,
                tile >= 1,
        ;
        assert(tile * c == -(tile * (-c - 1)) - tile) by (nonlinear_arith);
        assert(tile * (-c - 1) >= 0) by (nonlinear_arith)
            requires
                c <= -1,
                tile >= 1,
        ;
    }
}

/// Is `t` the tile of the cell, of the given extent, with its edges within
/// the limit and neither its column nor its row zero?
pub open spec fn visible_tile(t: TiledLayerTile, cell: (i64, i64), extent: Extent) -> bool {
    &&& t.column == cell.0
    &&& t.row == cell.1
    &&& t.extent == extent
    &&& t.fits()
    &&& t.column != 0
    &&& t.row != 0
}

} // verus!
