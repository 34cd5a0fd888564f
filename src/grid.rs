//! Geometry of an N×N tile grid laid over an image.

use vstd::prelude::*;
use vstd::arithmetic::div_mod::*;
use vstd::arithmetic::mul::*;

verus! {

/// An axis-aligned rectangle of pixels: its left and top edges and its size.
#[derive(Clone, Copy, Debug, PartialEq, Eq, Structural)]
pub struct TileRect {
    pub x: u32,
    pub y: u32,
    pub width: u32,
    pub height: u32,
}

impl TileRect {
    /// Whether pixel `(px, py)` lies inside the rectangle.
    pub open spec fn contains(self, px: int, py: int) -> bool {
        self.x <= px < self.x + self.width && self.y <= py < self.y + self.height
    }
}

/// An image of `width` × `height` pixels can be cut into an `n` × `n` grid of
/// equal tiles, and the cell numbers `0 .. n * n` fit in a `u32`.
pub open spec fn grid_fits(width: u32, height: u32, n: u32) -> bool {
    &&& 0 < n
    &&& width % n == 0
    &&& height % n == 0
    &&& n * n <= u32::MAX
}

/// Number of the cell in column `col` and row `row`, counted row by row.
pub open spec fn cell_index(n: int, col: int, row: int) -> int {
    row * n + col
}

/// `r` is the tile of cell `index`: column `index % n`, row `index / n`,
/// each tile `width / n` by `height / n` pixels.
pub open spec fn is_tile(r: TileRect, width: u32, height: u32, n: u32, index: int) -> bool {
    &&& r.width == width / n
    &&& r.height == height / n
    &&& r.x == (index % n as int) * (width / n) as int
    &&& r.y == (index / n as int) * (height / n) as int
}

/// The tile of cell `index`, where its edges fit in a `u32`.
pub open spec fn tile_spec(width: u32, height: u32, n: u32, index: int) -> TileRect {
    TileRect {
        x: ((index % n as int) * (width / n) as int) as u32,
        y: ((index / n as int) * (height / n) as int) as u32,
        width: width / n,
        height: height / n,
    }
}

/// The tiles of `n` consecutive cells of a side of length `side` start at
/// multiples of `side / n` and end inside the side.
proof fn lemma_cell_edge(side: int, n: int, k: int)
    requires
        0 < n,
        0 <= side,
        side % n == 0,
        0 <= k < n,
    ensures
        0 <= k * (side / n),
        k * (side / n) + side / n <= side,
        n * (side / n) == side,
{
    lemma_fundamental_div_mod(side, n);
    lemma_div_pos_is_pos(side, n);
    lemma_mul_inequality(k, n - 1, side / n);
    lemma_mul_nonnegative(k, side / n);
    lemma_mul_is_distributive_sub_other_way(side / n, n, 1);
    lemma_mul_is_commutative(n, side / n);
}

/// Returns the rectangle of cell `index` of the `n` × `n` grid over an image
/// of `width` × `height` pixels.
pub fn tile_rect(width: u32, height: u32, n: u32, index: u32) -> (r: TileRect)
    requires
        grid_fits(width, height, n),
        index < n * n,
    ensures
        is_tile(r, width, height, n, index as int),
        r == tile_spec(width, height, n, index as int),
        r.x + r.width <= width,
        r.y + r.height <= height,
{
    let tw = width / n;
    let th = height / n;
    let col = index % n;
    let row = index / n;
    proof {
        lemma_mod_pos_bound(index as int, n as int);
        lemma_div_pos_is_pos(index as int, n as int);
        lemma_div_by_multiple_is_strongly_ordered(index as int, (n * n) as int, n as int, n as int);
        lemma_div_by_multiple(n as int, n as int);
        lemma_cell_edge(width as int, n as int, col as int);
        lemma_cell_edge(height as int, n as int, row as int);
    }
    TileRect { x: col * tw, y: row * th, width: tw, height: th }
}

/// Returns the `n * n` tiles of the grid over an image of `width` × `height`
/// pixels, cell by cell.
pub fn partition(width: u32, height: u32, n: u32) -> (r: Vec<TileRect>)
    requires
        grid_fits(width, height, n),
    ensures
        r@.len() == n * n,
        forall|i: int| 0 <= i < r@.len() ==> #[trigger] is_tile(r@[i], width, height, n, i),
        forall|i: int| 0 <= i < r@.len() ==> r@[i] == #[trigger] tile_spec(width, height, n, i),
{
    let count: u32 = n * n;
    let mut tiles: Vec<TileRect> = Vec::new();
    let mut i: u32 = 0;
    while i < count
        invariant
            grid_fits(width, height, n),
            count == n * n,
            i <= count,
            tiles@.len() == i,
            forall|k: int| 0 <= k < i ==> #[trigger] is_tile(tiles@[k], width, height, n, k),
            forall|k: int| 0 <= k < i ==> tiles@[k] == #[trigger] tile_spec(width, height, n, k),
        decreases count - i,
    {
        let t = tile_rect(width, height, n, i);
        tiles.push(t);
        i = i + 1;
    }
    tiles
}

/// The tile of each cell lies inside the image, at the place that
/// `is_tile` gives, with no edge cut short by the width of a `u32`.
pub proof fn lemma_tile_inside(width: u32, height: u32, n: u32, index: int)
    requires
        grid_fits(width, height, n),
        0 <= index < n * n,
    ensures
        is_tile(tile_spec(width, height, n, index), width, height, n, index),
        tile_spec(width, height, n, index).x + tile_spec(width, height, n, index).width <= width,
        tile_spec(width, height, n, index).y + tile_spec(width, height, n, index).height <= height,
{
    let n_ = n as int;
    lemma_mod_pos_bound(index, n_);
    lemma_div_pos_is_pos(index, n_);
    lemma_div_by_multiple_is_strongly_ordered(index, n_ * n_, n_, n_);
    lemma_div_by_multiple(n_, n_);
    lemma_cell_edge(width as int, n_, index % n_);
    lemma_cell_edge(height as int, n_, index / n_);
}

/// The `n * n` tiles of the grid hold as many pixels, together, as the image.
pub proof fn lemma_tiles_total_area(width: u32, height: u32, n: u32)
    requires
        grid_fits(width, height, n),
    ensures
        (n * n) as int * ((width / n) as int * (height / n) as int) == width as int * height as int,
{
    let n_ = n as int;
    let tw = (width / n) as int;
    let th = (height / n) as int;
    lemma_cell_edge(width as int, n_, 0);
    lemma_cell_edge(height as int, n_, 0);
    assert((n_ * n_) * (tw * th) == (n_ * tw) * (n_ * th)) by (nonlinear_arith);
}

/// Every pixel of the image lies in exactly one tile of the grid: the tile of
/// the cell in column `px / (width / n)` and row `py / (height / n)`.
pub proof fn lemma_pixel_in_one_tile(width: u32, height: u32, n: u32, px: int, py: int)
    requires
        grid_fits(width, height, n),
        0 <= px < width,
        0 <= py < height,
    ensures
        0 <= cell_index(n as int, px / (width / n) as int, py / (height / n) as int) < n * n,
        forall|i: int| 0 <= i < n * n ==>
            (#[trigger] tile_spec(width, height, n, i).contains(px, py)
                <==> i == cell_index(n as int, px / (width / n) as int, py / (height / n) as int)),
{
    let n_ = n as int;
    let tw = (width / n) as int;
    let th = (height / n) as int;
    lemma_fundamental_div_mod(width as int, n_);
    lemma_fundamental_div_mod(height as int, n_);
    assert(tw > 0) by {
        if tw <= 0 {
            lemma_div_pos_is_pos(width as int, n_);
            assert(n_ * tw == 0) by (nonlinear_arith) requires tw == 0;
        }
    }
    assert(th > 0) by {
        if th <= 0 {
            lemma_div_pos_is_pos(height as int, n_);
            assert(n_ * th == 0) by (nonlinear_arith) requires th == 0;
        }
    }
    let col = px / tw;
    let row = py / th;
    lemma_fundamental_div_mod(px, tw);
    lemma_fundamental_div_mod(py, th);
    lemma_mod_pos_bound(px, tw);
    lemma_mod_pos_bound(py, th);
    lemma_div_pos_is_pos(px, tw);
    lemma_div_pos_is_pos(py, th);
    assert(col < n_) by {
        lemma_mul_is_commutative(n_, tw);
        lemma_multiply_divide_lt(px, tw, n_);
    }
    assert(row < n_) by {
        lemma_mul_is_commutative(n_, th);
        lemma_multiply_divide_lt(py, th, n_);
    }
    let c = cell_index(n_, col, row);
    lemma_fundamental_div_mod_converse(c, n_, row, col);
    assert(0 <= c < n_ * n_) by (nonlinear_arith)
        requires c == row * n_ + col, 0 <= row < n_, 0 <= col < n_;
    assert forall|i: int| 0 <= i < n * n implies
        (#[trigger] tile_spec(width, height, n, i).contains(px, py) <==> i == c) by {
        lemma_tile_inside(width, height, n, i);
        lemma_mod_pos_bound(i, n_);
        lemma_div_pos_is_pos(i, n_);
        lemma_fundamental_div_mod(i, n_);
        if tile_spec(width, height, n, i).contains(px, py) {
            lemma_fundamental_div_mod_converse(px, tw, i % n_, px - (i % n_) * tw);
            lemma_fundamental_div_mod_converse(py, th, i / n_, py - (i / n_) * th);
            lemma_mul_is_commutative(n_, i / n_);
        }
        if i == c {
            lemma_mul_is_commutative(tw, col);
            lemma_mul_is_commutative(th, row);
        }
    }
}

} // verus!
