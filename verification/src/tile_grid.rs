//! The grid: tiles in row-major order, generated so that neighbours agree, and
//! doubled by reflection.

use crate::drawing::frame;
use crate::drawing::framed;
use crate::drawing::is_exact;
use crate::tile::lemma_glyph_lines;
use crate::tile::Tile;
use crate::tile::TileError;
use crate::vector::document_markup;
use crate::vector::exact;
use crate::vector::group_add_group;
use crate::vector::group_markup;
use crate::vector::group_new;
use crate::vector::Markup;
use svg::node::element::Group;
use svg::Document;
use vstd::prelude::*;
use vstd::string::StrSliceExecFns;
use vstd::string::StringExecFns;

verus! {

/// What a grid is, mathematically: its dimensions and its cells in row-major
/// order. A grid fresh from `new` has no cells yet; a populated one has
/// `rows * cols` of them.
pub ghost struct GridModel {
    pub rows: nat,
    pub cols: nat,
    pub cells: Seq<Tile>,
}

impl GridModel {
    /// Every cell of the grid is there.
    pub open spec fn populated(self) -> bool {
        self.cells.len() == self.rows * self.cols
    }

    /// The cell in row `i`, column `j`.
    pub open spec fn at(self, i: int, j: int) -> Tile {
        self.cells[i * self.cols + j]
    }

    /// Cell `(i, j)` and its right-hand neighbour agree on the edge between them.
    pub open spec fn matches_right(self, i: int, j: int) -> bool {
        self.at(i, j).right == self.at(i, j + 1).left
    }

    /// Cell `(i, j)` and the cell below it agree on the edge between them.
    pub open spec fn matches_below(self, i: int, j: int) -> bool {
        self.at(i, j).bottom == self.at(i + 1, j).top
    }

    /// Every two cells that lie side by side, or one above the other, agree on
    /// the edge they share.
    pub open spec fn edges_match(self) -> bool {
        &&& forall|i: int, j: int|
            0 <= i < self.rows && 0 <= j && j + 1 < self.cols
                ==> #[trigger] self.matches_right(i, j)
        &&& forall|i: int, j: int|
            0 <= i && i + 1 < self.rows && 0 <= j < self.cols
                ==> #[trigger] self.matches_below(i, j)
    }

    /// Cell `(i, j)` of the grid doubled across the vertical axis: the left half
    /// is this grid, the right half its mirror image, tile by tile reflected.
    pub open spec fn reflect_v_cell(self, i: int, j: int) -> Tile {
        if j < self.cols {
            self.at(i, j)
        } else {
            self.at(i, 2 * self.cols - 1 - j).spec_reflect_v()
        }
    }

    /// The grid doubled across the vertical axis: as many rows, twice the columns.
    pub open spec fn reflect_v(self) -> GridModel {
        GridModel {
            rows: self.rows,
            cols: 2 * self.cols,
            cells: Seq::new(
                self.rows * (2 * self.cols),
                |k: int| self.reflect_v_cell(k / (2 * self.cols) as int, k % (2 * self.cols) as int),
            ),
        }
    }

    /// Cell `(i, j)` of the grid doubled across the horizontal axis: the upper
    /// half is this grid, the lower half its mirror image, tile by tile reflected.
    pub open spec fn reflect_h_cell(self, i: int, j: int) -> Tile {
        if i < self.rows {
            self.at(i, j)
        } else {
            self.at(2 * self.rows - 1 - i, j).spec_reflect_h()
        }
    }

    /// The grid doubled across the horizontal axis: twice the rows, as many columns.
    pub open spec fn reflect_h(self) -> GridModel {
        GridModel {
            rows: 2 * self.rows,
            cols: self.cols,
            cells: Seq::new(
                (2 * self.rows) * self.cols,
                |k: int| self.reflect_h_cell(k / self.cols as int, k % self.cols as int),
            ),
        }
    }

    /// In row `i`, the cell `k` columns right of the middle is the reflection of
    /// the cell `k` columns left of it.
    pub open spec fn mirrors_v(self, i: int, k: int) -> bool {
        self.at(i, self.cols / 2 + k) == self.at(i, self.cols / 2 - 1 - k).spec_reflect_v()
    }

    /// In column `j`, the cell `k` rows below the middle is the reflection of the
    /// cell `k` rows above it.
    pub open spec fn mirrors_h(self, k: int, j: int) -> bool {
        self.at(self.rows / 2 + k, j) == self.at(self.rows / 2 - 1 - k, j).spec_reflect_h()
    }

    /// The right half of the grid is the mirror image of the left half.
    pub open spec fn mirrored_v(self) -> bool {
        &&& self.cols % 2 == 0
        &&& forall|i: int, k: int|
            0 <= i < self.rows && 0 <= k < self.cols / 2 ==> #[trigger] self.mirrors_v(i, k)
    }

    /// The lower half of the grid is the mirror image of the upper half.
    pub open spec fn mirrored_h(self) -> bool {
        &&& self.rows % 2 == 0
        &&& forall|k: int, j: int|
            0 <= k < self.rows / 2 && 0 <= j < self.cols ==> #[trigger] self.mirrors_h(k, j)
    }

    /// Line `k` of the blocks of the first `n` cells of row `i`, side by side.
    pub open spec fn text_line(self, i: int, k: int, n: int) -> Seq<char>
        decreases n,
    {
        if n <= 0 {
            Seq::empty()
        } else {
            self.text_line(i, k, n - 1) + self.at(i, n - 1).glyph_line(k)
        }
    }

    /// Row `i` as text: the three lines of its blocks, each closed by a line break.
    pub open spec fn text_row(self, i: int) -> Seq<char> {
        self.text_line(i, 0, self.cols as int) + seq!['\n']
            + self.text_line(i, 1, self.cols as int) + seq!['\n']
            + self.text_line(i, 2, self.cols as int) + seq!['\n']
    }

    /// The first `n` rows as text, one after the other.
    pub open spec fn text_rows(self, n: int) -> Seq<char>
        decreases n,
    {
        if n <= 0 {
            Seq::empty()
        } else {
            self.text_rows(n - 1) + self.text_row(n - 1)
        }
    }

    /// The whole grid as text.
    pub open spec fn text(self) -> Seq<char> {
        self.text_rows(self.rows as int)
    }

    /// The drawing of the cell at place `k` in row-major order: its tile, of the
    /// given size, one size further right for each column and one size further
    /// down for each row.
    pub open spec fn cell_drawing(self, size: int, k: int) -> Markup {
        self.cells[k].drawing((k % self.cols as int) * size, (k / self.cols as int) * size, size)
    }

    /// The grid as a drawing: a group that holds the drawings of its cells in
    /// row-major order.
    pub open spec fn drawing(self, size: int) -> Markup {
        Markup {
            tag: "g"@,
            attrs: Map::empty(),
            children: Seq::new(self.rows * self.cols, |k: int| self.cell_drawing(size, k)),
        }
    }

    /// Cell `(i, j)` agrees with the cell to its left and the cell above it, as
    /// far as it has them.
    pub open spec fn joins_back(self, i: int, j: int) -> bool {
        &&& j > 0 ==> self.at(i, j).left == self.at(i, j - 1).right
        &&& i > 0 ==> self.at(i, j).top == self.at(i - 1, j).bottom
    }
}

/// Row-major indexing: cell `(i, j)` of a grid with `cols` columns lies at
/// `i * cols + j`, inside the grid, and no other cell lies there.
pub proof fn lemma_cell_index(rows: int, cols: int, i: int, j: int)
    requires
        0 <= i < rows,
        0 <= j < cols,
    ensures
        0 <= i * cols + j < rows * cols,
        i * cols + j < (i + 1) * cols,
        (i + 1) * cols <= rows * cols,
        (i * cols + j) / cols == i,
        (i * cols + j) % cols == j,
{
    assert(i * cols + j < (i + 1) * cols) by (nonlinear_arith)
        requires
            0 <= j < cols,
    ;
    assert((i + 1) * cols <= rows * cols) by (nonlinear_arith)
        requires
            0 <= i < rows,
            0 < cols,
    ;
    assert(0 <= i * cols) by (nonlinear_arith)
        requires
            0 <= i,
            0 < cols,
    ;
    vstd::arithmetic::div_mod::lemma_fundamental_div_mod_converse(i * cols + j, cols, i, j);
}

/// Cells of different rows lie at different places, the earlier row first.
pub proof fn lemma_rows_apart(cols: int, a: int, b: int, i: int, j: int)
    requires
        0 <= a < i,
        0 <= b < cols,
        0 <= j,
    ensures
        a * cols + b < i * cols + j,
{
    assert((a + 1) * cols <= i * cols) by (nonlinear_arith)
        requires
            a + 1 <= i,
            0 < cols,
    ;
    assert((a + 1) * cols == a * cols + cols) by (nonlinear_arith);
}

/// Where the cells of a grid doubled across the vertical axis come from: cell
/// `(i, j)` is this grid's cell `(i, j)` in the left half, and the reflection of
/// this grid's cell `(i, 2 * cols - 1 - j)` in the right half.
pub proof fn lemma_reflect_v_at(grid: GridModel, i: int, j: int)
    requires
        0 <= i < grid.rows,
        0 <= j < 2 * grid.cols,
    ensures
        grid.reflect_v().at(i, j) == grid.reflect_v_cell(i, j),
{
    lemma_cell_index(grid.rows as int, 2 * grid.cols as int, i, j);
}

/// Where the cells of a grid doubled across the horizontal axis come from: cell
/// `(i, j)` is this grid's cell `(i, j)` in the upper half, and the reflection of
/// this grid's cell `(2 * rows - 1 - i, j)` in the lower half.
pub proof fn lemma_reflect_h_at(grid: GridModel, i: int, j: int)
    requires
        0 <= i < 2 * grid.rows,
        0 <= j < grid.cols,
    ensures
        grid.reflect_h().at(i, j) == grid.reflect_h_cell(i, j),
{
    lemma_cell_index(2 * grid.rows as int, grid.cols as int, i, j);
}

/// A grid doubled across the vertical axis is its own mirror image: column
/// `cols + k` of the result is the reflection of its column `cols - 1 - k`.
pub proof fn lemma_reflect_v_is_mirrored(grid: GridModel)
    ensures
        grid.reflect_v().mirrored_v(),
{
    let doubled = grid.reflect_v();
    assert forall|i: int, k: int|
        0 <= i < doubled.rows && 0 <= k < doubled.cols / 2
            implies #[trigger] doubled.mirrors_v(i, k) by {
        lemma_reflect_v_at(grid, i, grid.cols + k);
        lemma_reflect_v_at(grid, i, grid.cols - 1 - k);
    }
}

/// A grid doubled across the horizontal axis is its own mirror image: row
/// `rows + k` of the result is the reflection of its row `rows - 1 - k`.
pub proof fn lemma_reflect_h_is_mirrored(grid: GridModel)
    ensures
        grid.reflect_h().mirrored_h(),
{
    let doubled = grid.reflect_h();
    assert forall|k: int, j: int|
        0 <= k < doubled.rows / 2 && 0 <= j < doubled.cols
            implies #[trigger] doubled.mirrors_h(k, j) by {
        lemma_reflect_h_at(grid, grid.rows + k, j);
        lemma_reflect_h_at(grid, grid.rows - 1 - k, j);
    }
}

/// Doubling across the vertical axis keeps neighbours in agreement, also across
/// the seam between the two halves.
pub proof fn lemma_reflect_v_keeps_edges(grid: GridModel)
    requires
        grid.edges_match(),
    ensures
        grid.reflect_v().edges_match(),
{
    let doubled = grid.reflect_v();
    let c = grid.cols as int;
    assert forall|i: int, j: int|
        0 <= i < doubled.rows && 0 <= j && j + 1 < doubled.cols
            implies #[trigger] doubled.matches_right(i, j) by {
        lemma_reflect_v_at(grid, i, j);
        lemma_reflect_v_at(grid, i, j + 1);
        if j + 1 < c {
            assert(grid.matches_right(i, j));
        } else if j >= c {
            assert(grid.matches_right(i, 2 * c - 2 - j));
        }
    }
    assert forall|i: int, j: int|
        0 <= i && i + 1 < doubled.rows && 0 <= j < doubled.cols
            implies #[trigger] doubled.matches_below(i, j) by {
        lemma_reflect_v_at(grid, i, j);
        lemma_reflect_v_at(grid, i + 1, j);
        if j < c {
            assert(grid.matches_below(i, j));
        } else {
            assert(grid.matches_below(i, 2 * c - 1 - j));
        }
    }
}

/// Doubling across the horizontal axis keeps neighbours in agreement, also
/// across the seam between the two halves.
pub proof fn lemma_reflect_h_keeps_edges(grid: GridModel)
    requires
        grid.edges_match(),
    ensures
        grid.reflect_h().edges_match(),
{
    let doubled = grid.reflect_h();
    let r = grid.rows as int;
    assert forall|i: int, j: int|
        0 <= i < doubled.rows && 0 <= j && j + 1 < doubled.cols
            implies #[trigger] doubled.matches_right(i, j) by {
        lemma_reflect_h_at(grid, i, j);
        lemma_reflect_h_at(grid, i, j + 1);
        if i < r {
            assert(grid.matches_right(i, j));
        } else {
            assert(grid.matches_right(2 * r - 1 - i, j));
        }
    }
    assert forall|i: int, j: int|
        0 <= i && i + 1 < doubled.rows && 0 <= j < doubled.cols
            implies #[trigger] doubled.matches_below(i, j) by {
        lemma_reflect_h_at(grid, i, j);
        lemma_reflect_h_at(grid, i + 1, j);
        if i + 1 < r {
            assert(grid.matches_below(i, j));
        } else if i >= r {
            assert(grid.matches_below(2 * r - 2 - i, j));
        }
    }
}

/// Doubling across the horizontal axis keeps a grid that is mirrored left to
/// right mirrored left to right.
pub proof fn lemma_reflect_h_keeps_mirror_v(grid: GridModel)
    requires
        grid.mirrored_v(),
    ensures
        grid.reflect_h().mirrored_v(),
{
    let doubled = grid.reflect_h();
    let r = grid.rows as int;
    let half = grid.cols as int / 2;
    assert forall|i: int, k: int|
        0 <= i < doubled.rows && 0 <= k < doubled.cols / 2
            implies #[trigger] doubled.mirrors_v(i, k) by {
        lemma_reflect_h_at(grid, i, half + k);
        lemma_reflect_h_at(grid, i, half - 1 - k);
        if i < r {
            assert(grid.mirrors_v(i, k));
        } else {
            assert(grid.mirrors_v(2 * r - 1 - i, k));
        }
    }
}

/// Doubling across the vertical axis keeps a grid that is mirrored top to
/// bottom mirrored top to bottom.
pub proof fn lemma_reflect_v_keeps_mirror_h(grid: GridModel)
    requires
        grid.mirrored_h(),
    ensures
        grid.reflect_v().mirrored_h(),
{
    let doubled = grid.reflect_v();
    let c = grid.cols as int;
    let half = grid.rows as int / 2;
    assert forall|k: int, j: int|
        0 <= k < doubled.rows / 2 && 0 <= j < doubled.cols
            implies #[trigger] doubled.mirrors_h(k, j) by {
        lemma_reflect_v_at(grid, half + k, j);
        lemma_reflect_v_at(grid, half - 1 - k, j);
        if j < c {
            assert(grid.mirrors_h(k, j));
        } else {
            assert(grid.mirrors_h(k, 2 * c - 1 - j));
        }
    }
}

/// A multiple of `size` that is no larger than an exact one is exact.
pub proof fn lemma_scaled_exact(count: int, k: int, size: int)
    requires
        0 <= k <= count,
        exact(count * size),
    ensures
        exact(k * size),
{
    if size >= 0 {
        assert(0 <= k * size <= count * size) by (nonlinear_arith)
            requires
                0 <= k <= count,
                size >= 0,
        ;
    } else {
        assert(count * size <= k * size <= 0) by (nonlinear_arith)
            requires
                0 <= k <= count,
                size < 0,
        ;
    }
}

/// Tests whether `count` times `size` is a coordinate that path data holds
/// exactly.
fn fits(count: usize, size: i32) -> (yes: bool)
    ensures
        yes == exact(count * size),
{
    if size == 0 {
        assert(count * size == 0) by (nonlinear_arith)
            requires
                size == 0,
        ;
        true
    } else if count > 16_777_216 {
        assert(count * size > 16_777_216 || count * size < -16_777_216) by (nonlinear_arith)
            requires
                size != 0,
                count > 16_777_216,
        ;
        false
    } else {
        assert(-16_777_216 * 0x8000_0000 <= count * size <= 16_777_216 * 0x8000_0000)
            by (nonlinear_arith)
            requires
                0 <= count <= 16_777_216,
                -0x8000_0000 <= size < 0x8000_0000,
        ;
        is_exact((count as i64) * (size as i64))
    }
}

/// `count` times `size`, where that is a coordinate that path data holds exactly.
fn scaled(count: usize, size: i32) -> (product: i32)
    requires
        exact(count * size),
    ensures
        product == count * size,
{
    if size == 0 {
        assert(count * size == 0) by (nonlinear_arith)
            requires
                size == 0,
        ;
        0
    } else {
        assert(count <= 16_777_216) by (nonlinear_arith)
            requires
                size != 0,
                0 <= count,
                -16_777_216 <= count * size <= 16_777_216,
        ;
        (count as i32) * size
    }
}

/// A rectangular arrangement of tiles.
#[derive(Debug)]
pub struct TileGrid {
    rows: usize,
    cols: usize,
    tiles: Vec<Tile>,
}

impl View for TileGrid {
    type V = GridModel;

    closed spec fn view(&self) -> GridModel {
        GridModel { rows: self.rows as nat, cols: self.cols as nat, cells: self.tiles@ }
    }
}

impl TileGrid {
    /// A grid of the given dimensions with no cells yet. A dimension may be 0.
    pub fn new(rows: usize, cols: usize) -> (grid: Self)
        ensures
            grid@ == (GridModel { rows: rows as nat, cols: cols as nat, cells: Seq::empty() }),
    {
        TileGrid { rows, cols, tiles: Vec::new() }
    }

    /// The number of rows and of columns.
    pub fn dimensions(&self) -> (dims: (usize, usize))
        ensures
            dims.0 == self@.rows,
            dims.1 == self@.cols,
    {
        (self.rows, self.cols)
    }

    /// Whether every cell of the grid is there.
    pub fn is_populated(&self) -> (full: bool)
        ensures
            full == self@.populated(),
    {
        match self.rows.checked_mul(self.cols) {
            Some(count) => self.tiles.len() == count,
            None => {
                assert(self.tiles@.len() == self.tiles.len());
                false
            },
        }
    }

    /// The tile in row `i`, column `j`.
    pub fn get_tile(&self, i: usize, j: usize) -> (tile: &Tile)
        requires
            i < self@.rows,
            j < self@.cols,
            self@.populated() || i * self@.cols + j < self@.cells.len(),
        ensures
            *tile == self@.at(i as int, j as int),
    {
        proof {
            lemma_cell_index(self.rows as int, self.cols as int, i as int, j as int);
            assert(self.cols * i == i * self.cols) by (nonlinear_arith);
            assert(self.tiles@.len() == self.tiles.len());
        }
        &self.tiles[self.cols * i + j]
    }

    /// The tile in row `i`, column `j`, or `IndexOutOfRange` where the grid has no
    /// such cell: the row or the column lies outside the grid, or the grid has
    /// not been populated.
    pub fn try_get_tile(&self, i: usize, j: usize) -> (found: Result<&Tile, TileError>)
        ensures
            self@.populated() && i < self@.rows && j < self@.cols ==> found == Ok::<
                &Tile,
                TileError,
            >(&self@.at(i as int, j as int)),
            !(self@.populated() && i < self@.rows && j < self@.cols) ==> found == Err::<
                &Tile,
                TileError,
            >(TileError::IndexOutOfRange),
    {
        if i < self.rows && j < self.cols && self.is_populated() {
            Ok(self.get_tile(i, j))
        } else {
            Err(TileError::IndexOutOfRange)
        }
    }

    /// A tile for cell `(i, j)` that fits the cells before it: its top edge
    /// matches the cell above, its left edge the cell to the left, and what has
    /// no such neighbour is drawn at random.
    pub fn gen_tile(&self, i: usize, j: usize) -> (tile: Tile)
        requires
            i < self@.rows,
            j < self@.cols,
            self@.populated() || i * self@.cols + j <= self@.cells.len(),
        ensures
            j > 0 ==> tile.left == self@.at(i as int, j - 1).right,
            i > 0 ==> tile.top == self@.at(i - 1, j as int).bottom,
    {
        proof {
            lemma_cell_index(self.rows as int, self.cols as int, i as int, j as int);
            if i > 0 {
                lemma_cell_index(self.rows as int, self.cols as int, i - 1, j as int);
            }
        }
        match (i, j) {
            (0, 0) => Tile::new_random(),
            (0, j) => Tile::new_with_constraints(None, Some(self.get_tile(0, j - 1)), None, None),
            (i, 0) => Tile::new_with_constraints(Some(self.get_tile(i - 1, 0)), None, None, None),
            (i, j) => Tile::new_with_constraints(
                Some(self.get_tile(i - 1, j)),
                Some(self.get_tile(i, j - 1)),
                None,
                None,
            ),
        }
    }

    /// Populates the grid anew, cell by cell in row-major order, each cell fitted
    /// to the cells above it and to its left. Whatever the grid held before is
    /// discarded. Hands the grid back for further changes.
    pub fn randomize_mut(&mut self) -> (grid: &mut Self)
        ensures
            grid@.rows == old(self)@.rows,
            grid@.cols == old(self)@.cols,
            grid@.populated(),
            grid@.edges_match(),
            *final(self) == *final(grid),
    {
        self.tiles.clear();
        let rows = self.rows;
        let cols = self.cols;
        assert(0 * cols == 0) by (nonlinear_arith);
        for i in 0..rows
            invariant
                self.rows == rows == old(self).rows,
                self.cols == cols == old(self).cols,
                self.tiles@.len() == i * cols,
                forall|a: int, b: int|
                    0 <= a < i && 0 <= b < cols ==> #[trigger] self@.joins_back(a, b),
        {
            for j in 0..cols
                invariant
                    i < rows,
                    self.rows == rows,
                    self.cols == cols,
                    self.tiles@.len() == i * cols + j,
                    forall|a: int, b: int|
                        0 <= a < i && 0 <= b < cols ==> #[trigger] self@.joins_back(a, b),
                    forall|b: int| 0 <= b < j ==> #[trigger] self@.joins_back(i as int, b),
            {
                let tile = self.gen_tile(i, j);
                let ghost before = self@;
                self.tiles.push(tile);
                proof {
                    assert forall|a: int, b: int|
                        0 <= a <= i && 0 <= b < cols && (a < i || b <= j)
                        implies #[trigger] self@.joins_back(a, b) by {
                        lemma_cell_index(rows as int, cols as int, a, b);
                        lemma_cell_index(rows as int, cols as int, i as int, j as int);
                        if a > 0 {
                            lemma_cell_index(rows as int, cols as int, a - 1, b);
                        }
                        if b > 0 {
                            lemma_cell_index(rows as int, cols as int, a, b - 1);
                        }
                        if a < i {
                            lemma_rows_apart(cols as int, a, b, i as int, j as int);
                            assert(before.joins_back(a, b));
                        } else if b < j {
                            assert(before.joins_back(a, b));
                        }
                    }
                }
            }
            proof {
                assert((i + 1) * cols == i * cols + cols) by (nonlinear_arith);
            }
        }
        proof {
            let grid = self@;
            assert forall|a: int, b: int|
                0 <= a < grid.rows && 0 <= b && b + 1 < grid.cols
                    implies #[trigger] grid.matches_right(a, b) by {
                assert(grid.joins_back(a, b + 1));
            }
            assert forall|a: int, b: int|
                0 <= a && a + 1 < grid.rows && 0 <= b < grid.cols
                    implies #[trigger] grid.matches_below(a, b) by {
                assert(grid.joins_back(a + 1, b));
            }
        }
        self
    }

    /// Populates the grid as `randomize_mut` does, and hands back a shared
    /// reference: through it the grid can be read and reflected, not populated
    /// again.
    pub fn randomize(&mut self) -> (grid: &Self)
        ensures
            grid@.rows == old(self)@.rows,
            grid@.cols == old(self)@.cols,
            grid@.populated(),
            grid@.edges_match(),
            *final(self) == *grid,
    {
        self.randomize_mut()
    }

    /// A new grid with the same rows and twice the columns: each row is followed
    /// by its own mirror image. This grid is left as it is.
    pub fn reflect_v(&self) -> (grid: Self)
        requires
            self@.populated(),
            2 * self@.cols <= usize::MAX,
        ensures
            grid@ == self@.reflect_v(),
            grid@.rows == self@.rows,
            grid@.cols == 2 * self@.cols,
            grid@.populated(),
            grid@.mirrored_v(),
            self@.edges_match() ==> grid@.edges_match(),
            self@.mirrored_h() ==> grid@.mirrored_h(),
    {
        let ghost target = self@.reflect_v();
        proof {
            lemma_reflect_v_is_mirrored(self@);
            if self@.edges_match() {
                lemma_reflect_v_keeps_edges(self@);
            }
            if self@.mirrored_h() {
                lemma_reflect_v_keeps_mirror_h(self@);
            }
        }
        let mut tile_grid = TileGrid::new(self.rows, self.cols * 2);
        assert(0 * (2 * self.cols) == 0) by (nonlinear_arith);
        for i in 0..self.rows
            invariant
                self@.populated(),
                2 * self.cols <= usize::MAX,
                target == self@.reflect_v(),
                tile_grid.rows == self.rows,
                tile_grid.cols == 2 * self.cols,
                tile_grid.tiles@.len() == i * (2 * self.cols),
                forall|k: int|
                    0 <= k < tile_grid.tiles@.len() ==> #[trigger] tile_grid.tiles@[k]
                        == target.cells[k],
        {
            for j in 0..self.cols
                invariant
                    i < self.rows,
                    self@.populated(),
                    2 * self.cols <= usize::MAX,
                    target == self@.reflect_v(),
                    tile_grid.rows == self.rows,
                    tile_grid.cols == 2 * self.cols,
                    tile_grid.tiles@.len() == i * (2 * self.cols) + j,
                    forall|k: int|
                        0 <= k < tile_grid.tiles@.len() ==> #[trigger] tile_grid.tiles@[k]
                            == target.cells[k],
            {
                proof {
                    lemma_cell_index(self.rows as int, 2 * self.cols, i as int, j as int);
                }
                tile_grid.tiles.push(self.get_tile(i, j).clone());
            }
            for j in 0..self.cols
                invariant
                    i < self.rows,
                    self@.populated(),
                    2 * self.cols <= usize::MAX,
                    target == self@.reflect_v(),
                    tile_grid.rows == self.rows,
                    tile_grid.cols == 2 * self.cols,
                    tile_grid.tiles@.len() == i * (2 * self.cols) + self.cols + j,
                    forall|k: int|
                        0 <= k < tile_grid.tiles@.len() ==> #[trigger] tile_grid.tiles@[k]
                            == target.cells[k],
            {
                proof {
                    lemma_cell_index(self.rows as int, 2 * self.cols, i as int, self.cols + j);
                }
                tile_grid.tiles.push(self.get_tile(i, self.cols - j - 1).reflect_v());
            }
            proof {
                assert((i + 1) * (2 * self.cols) == i * (2 * self.cols) + self.cols + self.cols)
                    by (nonlinear_arith);
            }
        }
        assert(tile_grid.tiles@ =~= target.cells);
        tile_grid
    }

    /// A new grid with twice the rows and the same columns: the rows are followed
    /// by their own mirror image, last row first. This grid is left as it is.
    pub fn reflect_h(&self) -> (grid: Self)
        requires
            self@.populated(),
            2 * self@.rows <= usize::MAX,
        ensures
            grid@ == self@.reflect_h(),
            grid@.rows == 2 * self@.rows,
            grid@.cols == self@.cols,
            grid@.populated(),
            grid@.mirrored_h(),
            self@.edges_match() ==> grid@.edges_match(),
            self@.mirrored_v() ==> grid@.mirrored_v(),
    {
        let ghost target = self@.reflect_h();
        proof {
            lemma_reflect_h_is_mirrored(self@);
            if self@.edges_match() {
                lemma_reflect_h_keeps_edges(self@);
            }
            if self@.mirrored_v() {
                lemma_reflect_h_keeps_mirror_v(self@);
            }
        }
        let mut tile_grid = TileGrid::new(self.rows * 2, self.cols);
        assert(0 * self.cols == 0) by (nonlinear_arith);
        for i in 0..self.rows
            invariant
                self@.populated(),
                2 * self.rows <= usize::MAX,
                target == self@.reflect_h(),
                tile_grid.rows == 2 * self.rows,
                tile_grid.cols == self.cols,
                tile_grid.tiles@.len() == i * self.cols,
                forall|k: int|
                    0 <= k < tile_grid.tiles@.len() ==> #[trigger] tile_grid.tiles@[k]
                        == target.cells[k],
        {
            for j in 0..self.cols
                invariant
                    i < self.rows,
                    self@.populated(),
                    2 * self.rows <= usize::MAX,
                    target == self@.reflect_h(),
                    tile_grid.rows == 2 * self.rows,
                    tile_grid.cols == self.cols,
                    tile_grid.tiles@.len() == i * self.cols + j,
                    forall|k: int|
                        0 <= k < tile_grid.tiles@.len() ==> #[trigger] tile_grid.tiles@[k]
                            == target.cells[k],
            {
                proof {
                    lemma_cell_index(2 * self.rows, self.cols as int, i as int, j as int);
                }
                tile_grid.tiles.push(self.get_tile(i, j).clone());
            }
            proof {
                assert((i + 1) * self.cols == i * self.cols + self.cols) by (nonlinear_arith);
            }
        }
        for i in 0..self.rows
            invariant
                self@.populated(),
                2 * self.rows <= usize::MAX,
                target == self@.reflect_h(),
                tile_grid.rows == 2 * self.rows,
                tile_grid.cols == self.cols,
                tile_grid.tiles@.len() == (self.rows + i) * self.cols,
                forall|k: int|
                    0 <= k < tile_grid.tiles@.len() ==> #[trigger] tile_grid.tiles@[k]
                        == target.cells[k],
        {
            for j in 0..self.cols
                invariant
                    i < self.rows,
                    self@.populated(),
                    2 * self.rows <= usize::MAX,
                    target == self@.reflect_h(),
                    tile_grid.rows == 2 * self.rows,
                    tile_grid.cols == self.cols,
                    tile_grid.tiles@.len() == (self.rows + i) * self.cols + j,
                    forall|k: int|
                        0 <= k < tile_grid.tiles@.len() ==> #[trigger] tile_grid.tiles@[k]
                            == target.cells[k],
            {
                proof {
                    lemma_cell_index(2 * self.rows, self.cols as int, self.rows + i, j as int);
                }
                tile_grid.tiles.push(self.get_tile(self.rows - i - 1, j).reflect_h());
            }
            proof {
                assert((self.rows + i + 1) * self.cols == (self.rows + i) * self.cols + self.cols)
                    by (nonlinear_arith);
            }
        }
        assert(tile_grid.tiles@ =~= target.cells);
        tile_grid
    }

    /// The grid as text: for each row of the grid three lines, on which the
    /// blocks of its tiles stand side by side.
    pub fn to_string(&self) -> (text: String)
        requires
            self@.populated(),
        ensures
            text@ == self@.text(),
    {
        let mut result = String::new();
        proof {
            reveal_strlit("\n");
        }
        for i in 0..self.rows
            invariant
                self@.populated(),
                "\n"@ == seq!['\n'],
                result@ == self@.text_rows(i as int),
        {
            let mut row_string = String::new();
            let ghost cols = self.cols as int;
            for j in 0..self.cols
                invariant
                    i < self.rows,
                    self@.populated(),
                    row_string@ == self@.text_line(i as int, 0, j as int),
            {
                let tile_as_string = self.get_tile(i, j).to_string();
                proof {
                    lemma_glyph_lines(self@.at(i as int, j as int));
                }
                row_string.append(tile_as_string.as_str().substring_char(0, 6));
            }
            row_string.append("\n");
            for j in 0..self.cols
                invariant
                    i < self.rows,
                    self@.populated(),
                    cols == self.cols,
                    row_string@ == self@.text_line(i as int, 0, cols) + seq!['\n']
                        + self@.text_line(i as int, 1, j as int),
            {
                let tile_as_string = self.get_tile(i, j).to_string();
                proof {
                    lemma_glyph_lines(self@.at(i as int, j as int));
                }
                row_string.append(tile_as_string.as_str().substring_char(7, 13));
            }
            row_string.append("\n");
            for j in 0..self.cols
                invariant
                    i < self.rows,
                    self@.populated(),
                    cols == self.cols,
                    row_string@ == self@.text_line(i as int, 0, cols) + seq!['\n']
                        + self@.text_line(i as int, 1, cols) + seq!['\n']
                        + self@.text_line(i as int, 2, j as int),
            {
                let tile_as_string = self.get_tile(i, j).to_string();
                proof {
                    lemma_glyph_lines(self@.at(i as int, j as int));
                }
                row_string.append(tile_as_string.as_str().substring_char(14, 20));
            }
            row_string.append("\n");
            result.append(row_string.as_str());
        }
        result
    }

    /// Tests whether the grid can be drawn with tiles of the given size, 30 by
    /// default: every cell is there, and the width and the height of the drawing
    /// are coordinates that path data holds exactly.
    pub fn is_drawable(&self, tile_size: Option<i32>) -> (yes: bool)
        ensures
            yes == (self@.populated() && exact(self@.rows * tile_size.unwrap_or(30)) && exact(
                self@.cols * tile_size.unwrap_or(30),
            )),
    {
        let size = tile_size.unwrap_or(30);
        self.is_populated() && fits(self.rows, size) && fits(self.cols, size)
    }

    /// The grid as a drawing: the drawings of its tiles, left to right and top to
    /// bottom, each `tile_size` from the one before. The size is 30 by default.
    pub fn to_svg(&self, tile_size: Option<i32>) -> (group: Group)
        requires
            self@.populated(),
            self@.rows > 0 && self@.cols > 0 ==> exact(self@.rows * tile_size.unwrap_or(30))
                && exact(self@.cols * tile_size.unwrap_or(30)),
        ensures
            group_markup(group) == self@.drawing(tile_size.unwrap_or(30) as int),
    {
        let tile_size = tile_size.unwrap_or(30);
        let ghost size = tile_size as int;
        let ghost grid = self@;

        let mut offset_x: i32 = 0;
        let mut offset_y: i32 = 0;
        let mut group = group_new();
        if self.cols == 0 {
            assert(grid.rows * grid.cols == 0) by (nonlinear_arith)
                requires
                    grid.cols == 0,
            ;
            assert(group_markup(group).children =~= grid.drawing(size).children);
            return group;
        }
        assert(0 * self.cols == 0) by (nonlinear_arith);
        for i in 0..self.rows
            invariant
                grid == self@,
                grid.populated(),
                self.cols > 0,
                size == tile_size,
                grid.rows > 0 ==> exact(grid.rows * size) && exact(grid.cols * size),
                offset_y == i * size,
                group_markup(group).tag == "g"@,
                group_markup(group).attrs == Map::<Seq<char>, Seq<char>>::empty(),
                group_markup(group).children == Seq::new(
                    (i * self.cols) as nat,
                    |k: int| grid.cell_drawing(size, k),
                ),
        {
            for j in 0..self.cols
                invariant
                    i < self.rows,
                    grid == self@,
                    grid.populated(),
                    size == tile_size,
                    exact(grid.rows * size),
                    exact(grid.cols * size),
                    offset_y == i * size,
                    j > 0 ==> offset_x == j * size,
                    group_markup(group).tag == "g"@,
                    group_markup(group).attrs == Map::<Seq<char>, Seq<char>>::empty(),
                    group_markup(group).children == Seq::new(
                        (i * self.cols + j) as nat,
                        |k: int| grid.cell_drawing(size, k),
                    ),
            {
                if j == 0 {
                    offset_x = 0
                }
                proof {
                    lemma_cell_index(self.rows as int, self.cols as int, i as int, j as int);
                    lemma_scaled_exact(self.cols as int, j as int, size);
                    lemma_scaled_exact(self.cols as int, j + 1, size);
                    lemma_scaled_exact(self.rows as int, i as int, size);
                    lemma_scaled_exact(self.rows as int, i + 1, size);
                    assert((j + 1) * size == j * size + size) by (nonlinear_arith);
                    assert((i + 1) * size == i * size + size) by (nonlinear_arith);
                    assert(0 * size == 0) by (nonlinear_arith);
                }
                let ghost before = group_markup(group);
                let tile_svg =
                    self.get_tile(i, j).to_svg(Some(offset_x), Some(offset_y), Some(tile_size));
                group = group_add_group(group, tile_svg);
                proof {
                    assert(group_markup(group).children =~= Seq::new(
                        (i * self.cols + j + 1) as nat,
                        |k: int| grid.cell_drawing(size, k),
                    ));
                }
                offset_x += tile_size;
            }
            proof {
                lemma_scaled_exact(self.rows as int, i + 1, size);
                assert((i + 1) * size == i * size + size) by (nonlinear_arith);
                assert((i + 1) * self.cols == i * self.cols + self.cols) by (nonlinear_arith);
            }
            offset_y += tile_size;
        }
        group
    }

    /// The grid drawn as `to_svg` draws it, as a document as wide as its columns
    /// and as high as its rows.
    pub fn to_document(&self, tile_size: Option<i32>) -> (document: Document)
        requires
            self@.populated(),
            exact(self@.rows * tile_size.unwrap_or(30)),
            exact(self@.cols * tile_size.unwrap_or(30)),
        ensures
            document_markup(document) == framed(
                self@.cols * tile_size.unwrap_or(30),
                self@.rows * tile_size.unwrap_or(30),
                self@.drawing(tile_size.unwrap_or(30) as int),
            ),
    {
        let tile_size = tile_size.unwrap_or(30);
        let tile_grid_svg = self.to_svg(Some(tile_size));
        let width = scaled(self.cols, tile_size);
        let height = scaled(self.rows, tile_size);
        frame(width, height, tile_grid_svg)
    }
}

} // verus!
