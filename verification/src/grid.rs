//! The grid of hexagons: the template that fixes where every cell lies, and the
//! tessellation that adds to each cell what the board holds there.
use vstd::prelude::*;
use vstd::slice::slice_to_vec;
use crate::arith::floor_sqrt3_exec;
use crate::arith::lemma_floor_sqrt3;
use crate::board::Board;
use crate::board::Tile;
use crate::hex::Blank;
use crate::hex::BlankView;
use crate::hex::Danger;
use crate::hex::Detail;
use crate::hex::DetailView;
use crate::hex::hexagon_fits;
use crate::layout::blank_at;
use crate::layout::cell_center;
use crate::layout::cell_fits;
use crate::layout::cell_x;
use crate::layout::grid_cells;
use crate::layout::grid_fits;
use crate::layout::hex_width;
use crate::layout::lemma_grid_fits;
use crate::layout::row_depth;
use crate::layout::row_indent;
use crate::primitive::Point;

verus! {

/// What a template holds.
pub ghost struct TemplateView {
    pub columns: u32,
    pub rows: u32,
    pub radius: u32,
    pub cells: Seq<BlankView>,
}

/// The cells of a rectangular grid with all their coordinates worked out, ready to
/// be drawn on. A template has at least one cell.
#[derive(Debug, PartialEq, Eq)]
pub struct Template {
    columns: u32,
    rows: u32,
    radius: u32,
    hexes: Vec<Blank>,
}

impl View for Template {
    type V = TemplateView;

    closed spec fn view(&self) -> TemplateView {
        TemplateView {
            columns: self.columns,
            rows: self.rows,
            radius: self.radius,
            cells: self.hexes@.map_values(|blank: Blank| blank@),
        }
    }
}

impl Template {
    #[verifier::type_invariant]
    spec fn filled(self) -> bool {
        &&& self.hexes@.len() == self.columns * self.rows
        &&& self.hexes@.len() >= 1
    }

    /// The template of the given cells, which are those of its rows one after the
    /// other.
    pub fn new(columns: u32, rows: u32, radius: u32, hexes: &[Blank]) -> (template: Self)
        requires
            columns >= 1,
            rows >= 1,
            hexes@.len() == columns * rows,
        ensures
            template@.columns == columns,
            template@.rows == rows,
            template@.radius == radius,
            template@.cells == hexes@.map_values(|blank: Blank| blank@),
    {
        assert(columns * rows >= 1) by (nonlinear_arith)
            requires
                columns >= 1,
                rows >= 1,
        ;
        Template { columns, rows, radius, hexes: slice_to_vec(hexes) }
    }

    pub fn radius(&self) -> (radius: u32)
        ensures
            radius == self@.radius,
    {
        self.radius
    }

    /// The number of cells, which is that of the columns times that of the rows.
    pub fn len(&self) -> (len: usize)
        ensures
            len == self@.cells.len(),
            len == self@.columns * self@.rows,
            len >= 1,
    {
        proof {
            use_type_invariant(&*self);
        }
        self.hexes.len()
    }
}

impl Clone for Template {
    fn clone(&self) -> (copy: Self)
        ensures
            copy@ == self@,
    {
        proof {
            use_type_invariant(&*self);
        }
        Template {
            columns: self.columns,
            rows: self.rows,
            radius: self.radius,
            hexes: slice_to_vec(self.hexes.as_slice()),
        }
    }
}

/// The integer nearest to `sqrt(3) * radius`.
fn width_of(radius: u32) -> (width: i64)
    ensures
        width == hex_width(radius as int),
        0 <= width <= 0x2_0000_0000,
{
    proof {
        lemma_floor_sqrt3(2 * radius);
    }
    (floor_sqrt3_exec(2 * (radius as i64)) + 1) / 2
}

/// Whether `generate_template` can make the grid: it has a cell, its cells can be
/// counted, and every corner of every cell is a pixel of the surface.
pub fn template_fits(columns: u32, rows: u32, start: Point, radius: u32) -> (fits: bool)
    ensures
        fits == (columns >= 1 && rows >= 1 && columns * rows <= usize::MAX && grid_fits(
            columns as int,
            rows as int,
            start,
            radius as int,
        )),
{
    if columns == 0 || rows == 0 {
        return false;
    }
    assert(columns * rows <= 0xffff_ffff_ffff_ffff) by (nonlinear_arith)
        requires
            columns <= 0xffff_ffff,
            rows <= 0xffff_ffff,
    ;
    if (columns as u64) * (rows as u64) > (usize::MAX as u64) {
        return false;
    }
    proof {
        lemma_grid_fits(columns as int, rows as int, start, radius as int);
    }
    let width: i128 = width_of(radius) as i128;
    let reach: i128 = crate::hex::reach_of(radius) as i128;
    let r: i128 = radius as i128;
    let indent: i128 = if rows >= 2 {
        width / 2
    } else {
        0
    };
    let last: i128 = (rows - 1) as i128;
    assert((columns - 1) * width <= 0x2_0000_0000_0000_0000 && (last / 2) * (3 * r)
        <= 0x2_0000_0000_0000_0000 && (columns - 1) * width >= 0 && (last / 2) * (3 * r) >= 0)
        by (nonlinear_arith)
        requires
            0 <= columns - 1 <= 0xffff_ffff,
            0 <= width <= 0x2_0000_0000,
            0 <= last <= 0xffff_ffff,
            0 <= r <= 0xffff_ffff,
    ;
    let depth: i128 = (last / 2) * (3 * r) + if last % 2 == 0 {
        0
    } else {
        (3 * r + 1) / 2
    };
    let left: i128 = start.x as i128 - reach;
    let right: i128 = start.x as i128 + indent + ((columns - 1) as i128) * width + reach;
    let top: i128 = start.y as i128 - r;
    let bottom: i128 = start.y as i128 + depth + r;
    -0x8000_0000 <= left && right <= 0x7fff_ffff && -0x8000_0000 <= top && bottom <= 0x7fff_ffff
}

/// One row of blank cells: `columns` of them, the first around `start`, each `width`
/// to the right of the one before.
fn generate_row(columns: u32, start: Point, width: i64, radius: u32) -> (row: Vec<Blank>)
    requires
        0 <= width <= 0x2_0000_0000,
        forall|c: int|
            0 <= c < columns ==> i32::MIN <= start.x + #[trigger] (c * width) <= i32::MAX
                && hexagon_fits(
                Point { x: (start.x + c * width) as i32, y: start.y },
                radius as int,
            ),
    ensures
        row@.len() == columns,
        forall|c: int|
            0 <= c < columns ==> (#[trigger] row@[c])@ == blank_at(
                Point { x: (start.x + c * width) as i32, y: start.y },
                radius as int,
            ),
{
    let mut row: Vec<Blank> = Vec::new();
    let mut column: u32 = 0;
    while column < columns
        invariant
            column <= columns,
            0 <= width <= 0x2_0000_0000,
            row@.len() == column,
            forall|c: int|
                0 <= c < columns ==> i32::MIN <= start.x + #[trigger] (c * width) <= i32::MAX
                    && hexagon_fits(
                    Point { x: (start.x + c * width) as i32, y: start.y },
                    radius as int,
                ),
            forall|c: int|
                0 <= c < column ==> (#[trigger] row@[c])@ == blank_at(
                    Point { x: (start.x + c * width) as i32, y: start.y },
                    radius as int,
                ),
        decreases columns - column,
    {
        assert(i32::MIN <= start.x + (column as int) * width <= i32::MAX);
        let shift: i64 = (column as i64) * width;
        let center = Point::new((start.x as i64 + shift) as i32, start.y);
        row.push(Blank::new(&center, radius));
        column += 1;
    }
    row
}

/// The template of a grid of `columns` by `rows` hexagons of the given radius, the
/// centre of the first at `start`. The cells come row after row, each row from left
/// to right, so that a cell's place in the template is its row times `columns` plus
/// its column; rows and columns lie as `row_depth`, `row_indent` and `hex_width` say.
///
/// The grid needs a cell, and every corner of every cell has to be a pixel of the
/// surface: `template_fits` finds that out, and `lemma_grid_within_box` shows it of
/// a grid whose cells lie in a box on the surface.
pub fn generate_template(columns: u32, rows: u32, start: Point, radius: u32) -> (template:
    Template)
    requires
        columns >= 1,
        rows >= 1,
        columns * rows <= usize::MAX,
        grid_fits(columns as int, rows as int, start, radius as int),
    ensures
        template@.columns == columns,
        template@.rows == rows,
        template@.radius == radius,
        template@.cells.len() == columns * rows,
        template@.cells == grid_cells(columns as int, rows as int, start, radius as int),
{
    let width: i64 = width_of(radius);
    let half_width: i64 = width / 2;
    let three_quarter_height: i64 = (3 * (radius as i64) + 1) / 2;
    let one_and_half_height: i64 = 3 * (radius as i64);
    let mut blanks: Vec<Blank> = Vec::new();
    let mut even_rows: i64 = 0;
    let mut odd_rows: i64 = 0;
    let mut row: u32 = 0;
    while row < rows
        invariant
            row <= rows,
            columns >= 1,
            columns * rows <= usize::MAX,
            grid_fits(columns as int, rows as int, start, radius as int),
            width == hex_width(radius as int),
            0 <= width <= 0x2_0000_0000,
            half_width == width / 2,
            three_quarter_height == (3 * radius + 1) / 2,
            one_and_half_height == 3 * radius,
            even_rows == (row + 1) / 2,
            odd_rows == row / 2,
            blanks@.len() == row * columns,
            forall|i: int|
                0 <= i < blanks@.len() ==> (#[trigger] blanks@[i])@ == blank_at(
                    cell_center(start, radius as int, i % (columns as int), i / (columns as int)),
                    radius as int,
                ),
        decreases rows - row,
    {
        let ghost r = row as int;
        let ghost cols = columns as int;
        let ghost rad = radius as int;
        assert(cell_fits(start, rad, 0, r));
        proof {
            crate::hex::lemma_corner_reach_bounds(rad);
        }
        let dx: i64;
        let dy: i64;
        if row % 2 == 0 {
            assert(even_rows * one_and_half_height == row_depth(rad, r)) by (nonlinear_arith)
                requires
                    even_rows == r / 2,
                    one_and_half_height == 3 * rad,
                    row_depth(rad, r) == (r / 2) * (3 * rad),
            ;
            dx = 0;
            dy = one_and_half_height * even_rows;
            even_rows += 1;
        } else {
            assert(odd_rows * one_and_half_height == (r / 2) * (3 * rad)) by (nonlinear_arith)
                requires
                    odd_rows == r / 2,
                    one_and_half_height == 3 * rad,
            ;
            dx = half_width;
            dy = three_quarter_height + one_and_half_height * odd_rows;
            odd_rows += 1;
        }
        assert(dx == row_indent(rad, r));
        assert(dy == row_depth(rad, r));
        let row_start = Point::new((start.x as i64 + dx) as i32, (start.y as i64 + dy) as i32);
        assert forall|c: int| 0 <= c < columns implies i32::MIN <= row_start.x + #[trigger] (c
            * width) <= i32::MAX && hexagon_fits(
            Point { x: (row_start.x + c * width) as i32, y: row_start.y },
            rad,
        ) by {
            assert(cell_fits(start, rad, c, r));
        }
        let mut cells = generate_row(columns, row_start, width, radius);
        let ghost before = blanks@;
        let ghost added = cells@;
        blanks.append(&mut cells);
        proof {
            assert((r + 1) * cols == r * cols + cols) by (nonlinear_arith);
            assert((r + 1) * cols <= rows * cols) by (nonlinear_arith)
                requires
                    r + 1 <= rows,
                    cols >= 1,
            ;
            assert forall|i: int| 0 <= i < blanks@.len() implies (#[trigger] blanks@[i])@
                == blank_at(cell_center(start, rad, i % cols, i / cols), rad) by {
                if i >= before.len() {
                    let c = i - r * cols;
                    vstd::arithmetic::div_mod::lemma_fundamental_div_mod_converse(i, cols, r, c);
                    assert(cell_fits(start, rad, c, r));
                    assert(blanks@[i] == added[c]);
                    assert(row_start.x + c * width == cell_x(start, rad, c, r));
                }
            }
        }
        row += 1;
    }
    assert(rows * columns == columns * rows) by (nonlinear_arith);
    let template = Template::new(columns, rows, radius, blanks.as_slice());
    assert(template@.cells =~= grid_cells(columns as int, rows as int, start, radius as int));
    template
}

/// What a tessellation holds.
pub ghost struct TessellationView {
    pub rows: u32,
    pub columns: u32,
    pub radius: u32,
    pub cells: Seq<DetailView>,
}

/// The grid as it is drawn: the cells of a template, each with the owner and the
/// dice of the board's tile at the same place, and with the mark the selection has
/// put on it. A tessellation has at least one cell.
#[derive(Debug, PartialEq, Eq)]
pub struct Tessellation {
    rows: u32,
    columns: u32,
    radius: u32,
    hexes: Vec<Detail>,
}

impl View for Tessellation {
    type V = TessellationView;

    closed spec fn view(&self) -> TessellationView {
        TessellationView {
            rows: self.rows,
            columns: self.columns,
            radius: self.radius,
            cells: self.hexes@.map_values(|detail: Detail| detail@),
        }
    }
}

impl Clone for Tessellation {
    fn clone(&self) -> (copy: Self)
        ensures
            copy@ == self@,
    {
        proof {
            use_type_invariant(&*self);
        }
        Tessellation {
            rows: self.rows,
            columns: self.columns,
            radius: self.radius,
            hexes: slice_to_vec(self.hexes.as_slice()),
        }
    }
}

impl Tessellation {
    #[verifier::type_invariant]
    spec fn filled(self) -> bool {
        &&& self.hexes@.len() == self.rows * self.columns
        &&& self.hexes@.len() >= 1
    }

    /// The tessellation of the given cells, which are those of its rows one after
    /// the other.
    pub fn new(rows: u32, columns: u32, radius: u32, hexes: &[Detail]) -> (tessellation: Self)
        requires
            rows >= 1,
            columns >= 1,
            hexes@.len() == rows * columns,
        ensures
            tessellation@.rows == rows,
            tessellation@.columns == columns,
            tessellation@.radius == radius,
            tessellation@.cells == hexes@.map_values(|detail: Detail| detail@),
    {
        assert(rows * columns >= 1) by (nonlinear_arith)
            requires
                columns >= 1,
                rows >= 1,
        ;
        Tessellation { rows, columns, radius, hexes: slice_to_vec(hexes) }
    }

    /// The cell at `index`, to be changed in place. The indices go round the cells:
    /// one past the last cell is the first again, so there is a cell at every index.
    pub fn hex_mut(&mut self, index: usize) -> (cell: Option<&mut Detail>)
        ensures
            old(self)@.cells.len() >= 1,
            match cell {
                Some(detail) => {
                    &&& (*detail)@ == old(self)@.cells[index as int % old(self)@.cells.len() as int]
                    &&& final(self)@ == (TessellationView {
                        cells: old(self)@.cells.update(
                            index as int % old(self)@.cells.len() as int,
                            (*final(detail))@,
                        ),
                        ..old(self)@
                    })
                },
                None => false,
            },
    {
        proof {
            use_type_invariant(&*self);
        }
        let index: usize = index % self.hexes.len();
        let ghost before = self.hexes@;
        let detail = &mut self.hexes[index];
        proof {
            assert(after_borrow(self.hexes)@ == before.update(index as int, *final(detail)));
            assert(after_borrow(self.hexes)@.map_values(|detail: Detail| detail@)
                =~= before.map_values(|detail: Detail| detail@).update(
                index as int,
                (*final(detail))@,
            ));
        }
        Some(detail)
    }

    /// The cell at `index`. The indices go round the cells: one past the last cell
    /// is the first again.
    pub fn hex(&self, index: usize) -> (cell: Detail)
        ensures
            self@.cells.len() >= 1,
            cell@ == self@.cells[index as int % self@.cells.len() as int],
    {
        proof {
            use_type_invariant(&*self);
        }
        let index: usize = index % self.hexes.len();
        self.hexes[index]
    }

    /// The cell at `index`, or nothing where the tessellation has no such cell.
    pub fn hex_checked(&self, index: usize) -> (cell: Option<Detail>)
        ensures
            match cell {
                Some(detail) => index < self@.cells.len() && detail@ == self@.cells[index as int],
                None => index >= self@.cells.len(),
            },
    {
        if index < self.hexes.len() {
            Some(self.hexes[index])
        } else {
            None
        }
    }

    /// The number of cells, which is that of the rows times that of the columns.
    pub fn len(&self) -> (len: usize)
        ensures
            len == self@.cells.len(),
            len == self@.rows * self@.columns,
            len >= 1,
    {
        proof {
            use_type_invariant(&*self);
        }
        self.hexes.len()
    }

    pub fn radius(&self) -> (radius: u32)
        ensures
            radius == self@.radius,
    {
        self.radius
    }

    /// The centre of the first cell, from which the pixels of the grid are measured.
    pub fn start_hex_center(&self) -> (center: Point)
        ensures
            self@.cells.len() >= 1,
            center == self@.cells[0].center,
    {
        proof {
            use_type_invariant(&*self);
        }
        self.hexes[0].center()
    }

    /// Marks the cell at `index` as safe and leaves every other cell as it is. The
    /// indices go round the cells.
    pub fn set_safe(&mut self, index: usize)
        ensures
            final(self)@ == old(self)@.marked(index as int, Danger::Safe),
    {
        match self.hex_mut(index) {
            Some(detail) => detail.set_safe(),
            None => {},
        }
    }

    /// Marks the cell at `index` as attacking and leaves every other cell as it is.
    /// The indices go round the cells.
    pub fn set_attacking(&mut self, index: usize)
        ensures
            final(self)@ == old(self)@.marked(index as int, Danger::Attacking),
    {
        match self.hex_mut(index) {
            Some(detail) => detail.set_attacking(),
            None => {},
        }
    }

    /// Marks the cell at `index` as threatened and leaves every other cell as it is.
    /// The indices go round the cells.
    pub fn set_threatened(&mut self, index: usize)
        ensures
            final(self)@ == old(self)@.marked(index as int, Danger::Threatened),
    {
        match self.hex_mut(index) {
            Some(detail) => detail.set_threatened(),
            None => {},
        }
    }
}

impl TessellationView {
    /// The same cells, the one at `index` marked with `danger`; the indices go
    /// round the cells.
    pub open spec fn marked(self, index: int, danger: Danger) -> TessellationView {
        let place = index % self.cells.len() as int;
        TessellationView {
            cells: self.cells.update(place, self.cells[place].with_danger(danger)),
            ..self
        }
    }
}

/// The cell of a tessellation at a place where the template has `blank` and the
/// board has `tile`: the blank's corners and centre, the tile's owner and dice, safe.
pub open spec fn drawn(blank: BlankView, tile: Tile) -> DetailView {
    DetailView {
        corners: blank.corners,
        center: blank.center,
        player_number: tile.owner,
        danger: Danger::Safe,
        dice: tile.dice,
    }
}

/// The tessellation of a template and a board of as many tiles: cell for cell the
/// template's hexagon with the board's tile at the same place, every cell safe.
pub fn generate_tessellation(template: &Template, board: &Board) -> (tessellation: Tessellation)
    requires
        template@.cells.len() == board@.tiles.len(),
    ensures
        tessellation@.rows == template@.rows,
        tessellation@.columns == template@.columns,
        tessellation@.radius == template@.radius,
        tessellation@.cells.len() == template@.cells.len(),
        tessellation@.cells.len() == board@.tiles.len(),
        tessellation@.cells == Seq::new(
            template@.cells.len(),
            |i: int| drawn(template@.cells[i], board@.tiles[i]),
        ),
{
    proof {
        use_type_invariant(template);
    }
    let tiles = board.tiles();
    let mut detail: Vec<Detail> = Vec::new();
    let mut i: usize = 0;
    while i < template.hexes.len()
        invariant
            i <= template.hexes@.len(),
            template.hexes@.len() == board@.tiles.len(),
            tiles@ == board@.tiles,
            detail@.len() == i,
            forall|j: int|
                0 <= j < i ==> (#[trigger] detail@[j])@ == drawn(
                    template.hexes@[j]@,
                    board@.tiles[j],
                ),
        decreases template.hexes@.len() - i,
    {
        let blank = &template.hexes[i];
        let tile = tiles[i];
        let corners = blank.points();
        assert(corners@.take(6) =~= blank@.corners);
        let cell = Detail::new(corners, blank.center(), tile.owner, tile.dice);
        detail.push(cell);
        i += 1;
    }
    assert(template.rows * template.columns == template.columns * template.rows)
        by (nonlinear_arith);
    let tessellation = Tessellation {
        rows: template.rows,
        columns: template.columns,
        radius: template.radius,
        hexes: detail,
    };
    assert(tessellation@.cells =~= Seq::new(
        template@.cells.len(),
        |i: int| drawn(template@.cells[i], board@.tiles[i]),
    ));
    tessellation
}

} // verus!
