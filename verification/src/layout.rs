//! Placing card images on pages.
//!
//! Images are laid out in rows that run left to right and stack downwards from
//! the top margin; a full page is followed by a fresh one. Coordinates are
//! those of the lower left corner of an image, measured from the lower left
//! corner of the page. All distances are whole micrometres.

use vstd::prelude::*;
use vstd::arithmetic::div_mod::lemma_fundamental_div_mod;
use vstd::arithmetic::div_mod::lemma_fundamental_div_mod_converse;
use crate::deck::Card;

verus! {

/// The mathematical content of a [`LayoutConfig`].
pub struct Geometry {
    pub page_width: int,
    pub page_height: int,
    pub cell_width: int,
    pub cell_height: int,
    pub columns: int,
    pub margin: int,
}

/// The mathematical content of a [`Placement`].
pub struct PlacementView {
    pub asset_id: Seq<char>,
    pub page_index: int,
    pub x: int,
    pub y: int,
}

impl Geometry {
    /// Cells have a size, the configured columns fit across the page, and one
    /// row fits below the top margin.
    pub open spec fn valid(self) -> bool {
        &&& 0 < self.cell_width
        &&& 0 < self.cell_height
        &&& 1 <= self.columns
        &&& 0 <= self.margin
        &&& self.columns * self.cell_width <= self.page_width
        &&& self.margin + self.cell_height <= self.page_height
    }

    /// Left edge of every row: the configured columns are centred on the page.
    pub open spec fn x_start(self) -> int {
        (self.page_width - self.columns * self.cell_width) / 2
    }

    /// Lower edge of the first row of a page.
    pub open spec fn y_top(self) -> int {
        self.page_height - self.margin - self.cell_height
    }

    /// How many cells a row takes before the next one would cross the right
    /// edge of the page.
    pub open spec fn cells_per_row(self) -> int {
        (self.page_width - self.x_start()) / self.cell_width
    }

    /// How many rows a page takes before the next one would cross its lower
    /// edge.
    pub open spec fn rows_per_page(self) -> int {
        self.y_top() / self.cell_height + 1
    }

    /// How many cells a page takes.
    pub open spec fn cells_per_page(self) -> int {
        self.cells_per_row() * self.rows_per_page()
    }

    /// The row of the `i`-th cell, counted over all pages.
    pub open spec fn row_of(self, i: int) -> int {
        i / self.cells_per_row()
    }

    /// The column of the `i`-th cell.
    pub open spec fn column_of(self, i: int) -> int {
        i % self.cells_per_row()
    }

    /// The page of the `i`-th cell.
    pub open spec fn page_of(self, i: int) -> int {
        self.row_of(i) / self.rows_per_page()
    }

    /// Left edge of the `i`-th cell.
    pub open spec fn x_of(self, i: int) -> int {
        self.x_start() + self.column_of(i) * self.cell_width
    }

    /// Lower edge of the `i`-th cell.
    pub open spec fn y_of(self, i: int) -> int {
        self.y_top() - (self.row_of(i) % self.rows_per_page()) * self.cell_height
    }

    /// Where the `i`-th image goes, given its identifier.
    pub open spec fn placement(self, asset_id: Seq<char>, i: int) -> PlacementView {
        PlacementView { asset_id, page_index: self.page_of(i), x: self.x_of(i), y: self.y_of(i) }
    }
}

/// Page and cell sizes, the number of columns to centre, and the top margin.
///
/// A value of this type always describes a [valid](Geometry::valid) geometry.
#[derive(Debug, Clone, Copy)]
pub struct LayoutConfig {
    page_width: u64,
    page_height: u64,
    cell_width: u64,
    cell_height: u64,
    columns: u64,
    margin: u64,
}

impl View for LayoutConfig {
    type V = Geometry;

    closed spec fn view(&self) -> Geometry {
        Geometry {
            page_width: self.page_width as int,
            page_height: self.page_height as int,
            cell_width: self.cell_width as int,
            cell_height: self.cell_height as int,
            columns: self.columns as int,
            margin: self.margin as int,
        }
    }
}

/// One image on one page.
#[derive(Debug)]
pub struct Placement {
    pub asset_id: String,
    pub page_index: usize,
    pub x: u64,
    pub y: u64,
}

impl Clone for Placement {
    fn clone(&self) -> (copy: Placement)
        ensures
            copy == *self,
    {
        Placement {
            asset_id: self.asset_id.clone(),
            page_index: self.page_index,
            x: self.x,
            y: self.y,
        }
    }
}

impl View for Placement {
    type V = PlacementView;

    open spec fn view(&self) -> PlacementView {
        PlacementView {
            asset_id: self.asset_id@,
            page_index: self.page_index as int,
            x: self.x as int,
            y: self.y as int,
        }
    }
}

/// The image identifiers of `cards`, in order.
pub open spec fn card_ids(cards: Seq<Card>) -> Seq<Seq<char>> {
    Seq::new(cards.len(), |i: int| cards[i].scryfall_id@)
}

/// The image identifiers of `placements`, in order.
pub open spec fn placement_ids(placements: Seq<Placement>) -> Seq<Seq<char>> {
    Seq::new(placements.len(), |i: int| placements[i].asset_id@)
}

/// Splitting `total` into whole `cell`s and a remainder, and a cursor that has
/// advanced by `taken` cells: the next cell crosses the end exactly when all
/// whole cells are taken.
proof fn lemma_cursor(total: int, cell: int, taken: int)
    requires
        0 < cell,
        0 <= total,
        0 <= taken <= total / cell,
    ensures
        taken * cell <= total,
        (total - taken * cell < cell) <==> taken == total / cell,
{
    let q = total / cell;
    lemma_fundamental_div_mod(total, cell);
    assert(total == cell * q + total % cell);
    assert(taken * cell <= q * cell) by (nonlinear_arith)
        requires
            0 <= taken <= q,
            0 < cell,
    ;
    assert(cell * q == q * cell) by (nonlinear_arith);
    if taken < q {
        assert((taken + 1) * cell <= q * cell) by (nonlinear_arith)
            requires
                taken + 1 <= q,
                0 < cell,
        ;
        assert((taken + 1) * cell == taken * cell + cell) by (nonlinear_arith);
    }
}

/// A row takes at least the configured columns, and a page at least one row.
pub proof fn lemma_capacity(g: Geometry)
    requires
        g.valid(),
    ensures
        0 <= g.x_start(),
        g.x_start() + g.columns * g.cell_width <= g.page_width,
        g.columns <= g.cells_per_row(),
        0 <= g.y_top(),
        1 <= g.rows_per_page(),
{
    let total = g.page_width - g.x_start();
    let row = g.columns * g.cell_width;
    assert(0 <= row) by (nonlinear_arith)
        requires
            row == g.columns * g.cell_width,
            0 <= g.columns,
            0 <= g.cell_width,
    ;
    assert(total / g.cell_width >= g.columns) by (nonlinear_arith)
        requires
            total >= g.columns * g.cell_width,
            g.cell_width > 0,
    ;
    assert(g.y_top() / g.cell_height >= 0) by (nonlinear_arith)
        requires
            g.y_top() >= 0,
            g.cell_height > 0,
    ;
}

/// The cell in column `col` of row `row` on page `page` is cell number
/// `(page * rows + row) * per_row + col`.
proof fn lemma_cell_number(g: Geometry, page: int, row: int, col: int, i: int)
    requires
        0 < g.cells_per_row(),
        0 < g.rows_per_page(),
        0 <= page,
        0 <= row < g.rows_per_page(),
        0 <= col < g.cells_per_row(),
        i == (page * g.rows_per_page() + row) * g.cells_per_row() + col,
    ensures
        g.column_of(i) == col,
        g.row_of(i) == page * g.rows_per_page() + row,
        g.row_of(i) % g.rows_per_page() == row,
        g.page_of(i) == page,
{
    let per_row = g.cells_per_row();
    let rows = g.rows_per_page();
    let r = page * rows + row;
    lemma_fundamental_div_mod_converse(i, per_row, r, col);
    lemma_fundamental_div_mod_converse(r, rows, page, row);
}

/// Every cell lies on its page: between the left and right edges, and between
/// the lower edge and the top margin.
pub proof fn lemma_placement_within_page(g: Geometry, i: int)
    requires
        g.valid(),
        0 <= i,
    ensures
        0 <= g.x_start() <= g.x_of(i),
        g.x_of(i) + g.cell_width <= g.page_width,
        0 <= g.y_of(i) <= g.y_top(),
        g.y_of(i) + g.cell_height + g.margin <= g.page_height,
        0 <= g.page_of(i) <= i,
{
    lemma_capacity(g);
    let per_row = g.cells_per_row();
    let rows = g.rows_per_page();
    let col = g.column_of(i);
    let row = g.row_of(i) % rows;
    assert(0 <= col < per_row && 0 <= g.row_of(i) <= i) by (nonlinear_arith)
        requires
            col == i % per_row,
            g.row_of(i) == i / per_row,
            0 <= i,
            1 <= per_row,
    ;
    assert(0 <= row < rows && 0 <= g.page_of(i) <= g.row_of(i)) by (nonlinear_arith)
        requires
            row == g.row_of(i) % rows,
            g.page_of(i) == g.row_of(i) / rows,
            0 <= g.row_of(i),
            1 <= rows,
    ;
    lemma_cursor(g.page_width - g.x_start(), g.cell_width, col + 1);
    assert((col + 1) * g.cell_width == col * g.cell_width + g.cell_width) by (nonlinear_arith);
    assert(0 <= col * g.cell_width) by (nonlinear_arith)
        requires
            0 <= col,
            0 < g.cell_width,
    ;
    lemma_cursor(g.y_top(), g.cell_height, row);
    assert(0 <= row * g.cell_height) by (nonlinear_arith)
        requires
            0 <= row,
            0 < g.cell_height,
    ;
}

/// The first cell of every row stands at the same left edge, and the cell
/// after a full row is the first of the next row.
pub proof fn lemma_row_wraps(g: Geometry, r: int)
    requires
        g.valid(),
        0 <= r,
    ensures
        g.column_of(r * g.cells_per_row()) == 0,
        g.row_of(r * g.cells_per_row()) == r,
        g.x_of(r * g.cells_per_row()) == g.x_start(),
{
    lemma_capacity(g);
    let per_row = g.cells_per_row();
    lemma_fundamental_div_mod_converse(r * per_row, per_row, r, 0);
    assert(0 * g.cell_width == 0) by (nonlinear_arith);
}

/// The cell after a full page is the first of the next page: it stands at
/// the left edge of the top row.
pub proof fn lemma_page_wraps(g: Geometry, p: int)
    requires
        g.valid(),
        0 <= p,
    ensures
        g.page_of(p * g.cells_per_page()) == p,
        g.x_of(p * g.cells_per_page()) == g.x_start(),
        g.y_of(p * g.cells_per_page()) == g.y_top(),
{
    lemma_capacity(g);
    let per_row = g.cells_per_row();
    let rows = g.rows_per_page();
    let i = p * g.cells_per_page();
    assert(i == (p * rows + 0) * per_row + 0) by (nonlinear_arith)
        requires
            i == p * (per_row * rows),
    ;
    lemma_cell_number(g, p, 0, 0, i);
    assert(0 * g.cell_width == 0) by (nonlinear_arith);
    assert(0 * g.cell_height == 0) by (nonlinear_arith);
}

/// Where the space left beside the centred columns is under one cell wide, a
/// row takes exactly the configured columns.
pub proof fn lemma_columns_exact(g: Geometry)
    requires
        g.valid(),
        g.page_width - g.x_start() - g.columns * g.cell_width < g.cell_width,
    ensures
        g.cells_per_row() == g.columns,
{
    lemma_capacity(g);
    let total = g.page_width - g.x_start();
    lemma_fundamental_div_mod_converse(
        total,
        g.cell_width,
        g.columns,
        total - g.columns * g.cell_width,
    );
}

/// Two different cells never share a spot.
pub proof fn lemma_cells_apart(g: Geometry, i: int, j: int)
    requires
        g.valid(),
        0 <= i,
        0 <= j,
        g.page_of(i) == g.page_of(j),
        g.x_of(i) == g.x_of(j),
        g.y_of(i) == g.y_of(j),
    ensures
        i == j,
{
    lemma_capacity(g);
    let per_row = g.cells_per_row();
    let rows = g.rows_per_page();
    assert(g.column_of(i) == g.column_of(j)) by (nonlinear_arith)
        requires
            g.column_of(i) * g.cell_width == g.column_of(j) * g.cell_width,
            0 < g.cell_width,
    ;
    assert(g.row_of(i) % rows == g.row_of(j) % rows) by (nonlinear_arith)
        requires
            (g.row_of(i) % rows) * g.cell_height == (g.row_of(j) % rows) * g.cell_height,
            0 < g.cell_height,
    ;
    lemma_fundamental_div_mod(g.row_of(i), rows);
    lemma_fundamental_div_mod(g.row_of(j), rows);
    lemma_fundamental_div_mod(i, per_row);
    lemma_fundamental_div_mod(j, per_row);
}

impl LayoutConfig {
    #[verifier::type_invariant]
    spec fn inv(self) -> bool {
        self@.valid()
    }

    /// A configuration with the given sizes, all in micrometres, or `None`
    /// where they describe no valid geometry.
    pub fn new(
        page_width: u64,
        page_height: u64,
        cell_width: u64,
        cell_height: u64,
        columns: u64,
        margin: u64,
    ) -> (cfg: Option<LayoutConfig>)
        ensures
            cfg is Some <==> (Geometry {
                page_width: page_width as int,
                page_height: page_height as int,
                cell_width: cell_width as int,
                cell_height: cell_height as int,
                columns: columns as int,
                margin: margin as int,
            }).valid(),
            cfg matches Some(c) ==> c@ == (Geometry {
                page_width: page_width as int,
                page_height: page_height as int,
                cell_width: cell_width as int,
                cell_height: cell_height as int,
                columns: columns as int,
                margin: margin as int,
            }),
    {
        if cell_width == 0 || cell_height == 0 || columns == 0 {
            return None;
        }
        let row_width = match columns.checked_mul(cell_width) {
            Some(row_width) => row_width,
            None => {
                return None;
            },
        };
        if row_width > page_width {
            return None;
        }
        if page_height < cell_height || page_height - cell_height < margin {
            return None;
        }
        Some(LayoutConfig { page_width, page_height, cell_width, cell_height, columns, margin })
    }

    /// The configuration used when nothing else is asked for: A4 pages of
    /// 210 mm by 297 mm, cells of 63 mm by 87.8 mm, 3 columns, and a top margin
    /// of 15 mm.
    pub fn a4() -> (cfg: LayoutConfig)
        ensures
            cfg@ == (Geometry {
                page_width: 210_000,
                page_height: 297_000,
                cell_width: 63_000,
                cell_height: 87_800,
                columns: 3,
                margin: 15_000,
            }),
    {
        LayoutConfig {
            page_width: 210_000,
            page_height: 297_000,
            cell_width: 63_000,
            cell_height: 87_800,
            columns: 3,
            margin: 15_000,
        }
    }

    pub fn page_width(&self) -> (v: u64)
        ensures
            v == self@.page_width,
    {
        self.page_width
    }

    pub fn page_height(&self) -> (v: u64)
        ensures
            v == self@.page_height,
    {
        self.page_height
    }

    pub fn cell_width(&self) -> (v: u64)
        ensures
            v == self@.cell_width,
    {
        self.cell_width
    }

    pub fn cell_height(&self) -> (v: u64)
        ensures
            v == self@.cell_height,
    {
        self.cell_height
    }

    pub fn columns(&self) -> (v: u64)
        ensures
            v == self@.columns,
    {
        self.columns
    }

    pub fn margin(&self) -> (v: u64)
        ensures
            v == self@.margin,
    {
        self.margin
    }

    /// Left edge of every row.
    pub fn x_start(&self) -> (v: u64)
        ensures
            self@.valid(),
            v == self@.x_start(),
            v <= self@.page_width,
    {
        proof {
            use_type_invariant(self);
        }
        (self.page_width - self.columns * self.cell_width) / 2
    }

    /// Lower edge of the first row of a page.
    pub fn y_top(&self) -> (v: u64)
        ensures
            self@.valid(),
            v == self@.y_top(),
    {
        proof {
            use_type_invariant(self);
        }
        self.page_height - self.margin - self.cell_height
    }

    /// How many cells go in one row.
    pub fn cells_per_row(&self) -> (v: u64)
        ensures
            v == self@.cells_per_row(),
    {
        let x0 = self.x_start();
        (self.page_width - x0) / self.cell_width
    }

    /// How many rows go on one page.
    pub fn rows_per_page(&self) -> (v: u64)
        ensures
            v == self@.rows_per_page(),
    {
        let y0 = self.y_top();
        proof {
            lemma_fundamental_div_mod(y0 as int, self.cell_height as int);
            assert(self.cell_height * (y0 / self.cell_height) <= y0);
            assert(y0 / self.cell_height <= self.cell_height * (y0 / self.cell_height))
                by (nonlinear_arith)
                requires
                    self.cell_height >= 1,
                    y0 / self.cell_height >= 0,
            ;
        }
        y0 / self.cell_height + 1
    }
}

/// Places the images of `cards`, in their order, on as many pages as it takes.
///
/// The `i`-th placement carries the identifier of the `i`-th card and stands
/// where [`Geometry::placement`] puts cell `i`.
pub fn layout(cards: &Vec<Card>, cfg: &LayoutConfig) -> (out: Vec<Placement>)
    ensures
        out@.len() == cards@.len(),
        forall|i: int|
            0 <= i < cards@.len() ==> (#[trigger] out@[i])@ == cfg@.placement(
                cards@[i].scryfall_id@,
                i,
            ),
        placement_ids(out@) == card_ids(cards@),
        forall|i: int|
            0 <= i < out@.len() ==> (#[trigger] out@[i]).x + cfg@.cell_width <= cfg@.page_width,
{
    let x0 = cfg.x_start();
    let y0 = cfg.y_top();
    let page_width = cfg.page_width();
    let cell_width = cfg.cell_width();
    let cell_height = cfg.cell_height();
    let ghost g = cfg@;
    let ghost per_row = g.cells_per_row();
    let ghost rows = g.rows_per_page();
    proof {
        lemma_capacity(g);
        assert((0 * rows + 0) * per_row + 0 == 0) by (nonlinear_arith);
    }
    let mut out: Vec<Placement> = Vec::new();
    let mut x: u64 = x0;
    let mut y: u64 = y0;
    let mut page: usize = 0;
    let ghost mut col: int = 0;
    let ghost mut row: int = 0;
    let mut i: usize = 0;
    while i < cards.len()
        invariant
            g == cfg@,
            g.valid(),
            per_row == g.cells_per_row(),
            rows == g.rows_per_page(),
            x0 == g.x_start(),
            y0 == g.y_top(),
            page_width == g.page_width,
            cell_width == g.cell_width,
            cell_height == g.cell_height,
            x0 <= page_width,
            1 <= per_row,
            1 <= rows,
            0 <= i <= cards@.len(),
            0 <= col <= per_row,
            0 <= row < rows,
            x == x0 + col * cell_width,
            x <= page_width,
            y == y0 - row * cell_height,
            i == (page * rows + row) * per_row + col,
            page + col <= i,
            out@.len() == i,
            forall|k: int|
                0 <= k < i ==> (#[trigger] out@[k])@ == g.placement(cards@[k].scryfall_id@, k),
            forall|k: int| 0 <= k < i ==> (#[trigger] out@[k]).x + cell_width <= page_width,
        decreases cards@.len() - i,
    {
        proof {
            lemma_cursor(page_width - x0, cell_width as int, col);
            lemma_cursor(y0 as int, cell_height as int, row);
        }
        if page_width - x < cell_width {
            x = x0;
            if y >= cell_height {
                proof {
                    assert((row + 1) * cell_height == row * cell_height + cell_height)
                        by (nonlinear_arith);
                    assert((page * rows + row + 1) * per_row == (page * rows + row) * per_row
                        + per_row) by (nonlinear_arith);
                    row = row + 1;
                }
                y = y - cell_height;
            } else {
                proof {
                    assert(((page + 1) * rows + 0) * per_row == (page * rows + row) * per_row
                        + per_row) by (nonlinear_arith)
                        requires
                            row + 1 == rows,
                    ;
                    row = 0;
                }
                page = page + 1;
                y = y0;
            }
            proof {
                col = 0;
            }
        }
        proof {
            lemma_cell_number(g, page as int, row, col, i as int);
            assert((col + 1) * cell_width == col * cell_width + cell_width) by (nonlinear_arith);
            lemma_cursor(page_width - x0, cell_width as int, col + 1);
        }
        out.push(Placement { asset_id: cards[i].scryfall_id.clone(), page_index: page, x, y });
        x = x + cell_width;
        i = i + 1;
        proof {
            col = col + 1;
        }
    }
    assert(placement_ids(out@) =~= card_ids(cards@));
    out
}

} // verus!
