//! Where the cells of a grid lie: the width of a cell, the indent and depth of a
//! row, the sides of the whole grid, and the way from the centre of a cell back to
//! the cell.
use vstd::prelude::*;
use crate::arith::half_sqrt3;
use crate::arith::lemma_floor_sqrt3;
use crate::hex::corner_reach;
use crate::hex::hexagon_corners;
use crate::hex::BlankView;
use crate::primitive::hex_column;
use crate::primitive::hex_row;
use crate::primitive::Point;

verus! {

/// The distance between the centres of two neighbours in a row: the integer nearest
/// to `sqrt(3) * radius`.
pub open spec fn hex_width(radius: int) -> int {
    half_sqrt3(2 * radius)
}

/// How far right of the grid's start a row begins: the rows with an odd number are
/// set in by half a cell's width, the half rounded down.
pub open spec fn row_indent(radius: int, row: int) -> int {
    if row % 2 == 0 {
        0
    } else {
        hex_width(radius) / 2
    }
}

/// How far below the grid's start a row lies. A hexagon is `2 * radius` high; two
/// rows of the same kind, even or odd, lie one and a half heights apart, and the
/// first odd row lies three quarters of a height below the first even one, half a
/// pixel counting as a whole one.
pub open spec fn row_depth(radius: int, row: int) -> int {
    (row / 2) * (3 * radius) + if row % 2 == 0 {
        0
    } else {
        (3 * radius + 1) / 2
    }
}

/// The x coordinate of the centre of the cell at `column` of `row`.
pub open spec fn cell_x(start: Point, radius: int, column: int, row: int) -> int {
    start.x + row_indent(radius, row) + column * hex_width(radius)
}

/// The y coordinate of the centres of the cells of `row`.
pub open spec fn cell_y(start: Point, radius: int, row: int) -> int {
    start.y + row_depth(radius, row)
}

/// Whether the cell, corners and all, lies among the pixels that `i32` pairs name.
pub open spec fn cell_fits(start: Point, radius: int, column: int, row: int) -> bool {
    &&& i32::MIN <= cell_x(start, radius, column, row) - corner_reach(radius)
    &&& cell_x(start, radius, column, row) + corner_reach(radius) <= i32::MAX
    &&& i32::MIN <= cell_y(start, radius, row) - radius
    &&& cell_y(start, radius, row) + radius <= i32::MAX
}

/// Whether every cell of the grid fits.
pub open spec fn grid_fits(columns: int, rows: int, start: Point, radius: int) -> bool {
    forall|column: int, row: int|
        0 <= column < columns && 0 <= row < rows ==> #[trigger] cell_fits(
            start,
            radius,
            column,
            row,
        )
}

/// The centre of the cell at `column` of `row`, where the cell fits.
pub open spec fn cell_center(start: Point, radius: int, column: int, row: int) -> Point {
    Point {
        x: cell_x(start, radius, column, row) as i32,
        y: cell_y(start, radius, row) as i32,
    }
}

/// The blank hexagon around `center`.
pub open spec fn blank_at(center: Point, radius: int) -> BlankView {
    BlankView { corners: hexagon_corners(center, radius), center }
}

/// The cells of a grid, row after row and from left to right within a row.
pub open spec fn grid_cells(columns: int, rows: int, start: Point, radius: int) -> Seq<
    BlankView,
> {
    Seq::new(
        (columns * rows) as nat,
        |i: int| blank_at(cell_center(start, radius, i % columns, i / columns), radius),
    )
}

/// The axial coordinate of the cell at `column` of `row`: every second row starts
/// one axial column further left.
pub open spec fn cell_axial(column: int, row: int) -> (int, int) {
    (column - row / 2, row)
}

/// The width of a hexagon, seen through squares: `3 * radius^2` lies between
/// `w^2 - w + 1` and `w^2 + w` for `w = hex_width(radius)`, which says that `w` is the
/// integer nearest to `sqrt(3) * radius`.
pub proof fn lemma_hex_width(radius: int)
    requires
        radius >= 1,
    ensures
        hex_width(radius) >= radius + 1,
        hex_width(radius) <= 2 * radius,
        hex_width(radius) * hex_width(radius) - hex_width(radius) + 1 <= 3 * radius * radius,
        3 * radius * radius <= hex_width(radius) * hex_width(radius) + hex_width(radius),
{
    lemma_floor_sqrt3(2 * radius);
    let g = crate::arith::floor_sqrt3(2 * radius);
    let w = hex_width(radius);
    let n = 3 * radius * radius;
    assert(3 * (2 * radius) * (2 * radius) == 4 * n) by (nonlinear_arith)
        requires
            n == 3 * radius * radius,
    ;
    assert(2 * w - 1 <= g <= 2 * w);
    assert(g >= 3) by (nonlinear_arith)
        requires
            0 <= g,
            4 * n < (g + 1) * (g + 1),
            n == 3 * radius * radius,
            radius >= 1,
    ;
    crate::arith::lemma_square_monotone(2 * w - 1, g);
    crate::arith::lemma_square_monotone(g + 1, 2 * w + 1);
    assert(w * w - w + 1 <= n && n <= w * w + w) by (nonlinear_arith)
        requires
            (2 * w - 1) * (2 * w - 1) <= 4 * n,
            4 * n < (2 * w + 1) * (2 * w + 1),
    ;
    assert(w >= radius + 1 && w <= 2 * radius) by (nonlinear_arith)
        requires
            w * w - w + 1 <= n,
            n <= w * w + w,
            n == 3 * radius * radius,
            radius >= 1,
            w >= 2,
    ;
}

/// In an even row: the centre of column `c`, `sqrt(3)` times its doubled distance
/// `2 * c * w` from the start, lies strictly between the doubled borders
/// `3 * r * (2 * c - 1)` and `3 * r * (2 * c + 1)` of its column, all squared.
proof fn lemma_even_row_borders(n: int, w: int, c: int)
    requires
        w * w - w + 1 <= n,
        n <= w * w + w,
        1 <= c <= w - 1,
    ensures
        n * ((2 * c - 1) * (2 * c - 1)) <= 4 * (c * w) * (c * w),
        4 * (c * w) * (c * w) < n * ((2 * c + 1) * (2 * c + 1)),
{
    let a = (2 * c - 1) * (2 * c - 1);
    let b = (2 * c + 1) * (2 * c + 1);
    let m = 4 * (c * w) * (c * w);
    assert(a >= 0 && b >= 1) by (nonlinear_arith)
        requires
            a == (2 * c - 1) * (2 * c - 1),
            b == (2 * c + 1) * (2 * c + 1),
            c >= 1,
    ;
    assert(n * a <= (w * w + w) * a) by (nonlinear_arith)
        requires
            n <= w * w + w,
            a >= 0,
    ;
    assert(m - (w * w + w) * a == w * ((4 * c - 1) * w - a)) by (nonlinear_arith)
        requires
            a == (2 * c - 1) * (2 * c - 1),
            m == 4 * (c * w) * (c * w),
    ;
    assert((4 * c - 1) * w - a >= 0) by (nonlinear_arith)
        requires
            a == (2 * c - 1) * (2 * c - 1),
            1 <= c <= w,
    ;
    assert(w * ((4 * c - 1) * w - a) >= 0) by (nonlinear_arith)
        requires
            w >= 0,
            (4 * c - 1) * w - a >= 0,
    ;
    assert((w * w - w + 1) * b <= n * b) by (nonlinear_arith)
        requires
            w * w - w + 1 <= n,
            b >= 0,
    ;
    assert((w * w - w + 1) * b - m == w * ((4 * c + 1) * w - b) + b) by (nonlinear_arith)
        requires
            b == (2 * c + 1) * (2 * c + 1),
            m == 4 * (c * w) * (c * w),
    ;
    assert((4 * c + 1) * w - b >= 0) by (nonlinear_arith)
        requires
            b == (2 * c + 1) * (2 * c + 1),
            1 <= c,
            c + 1 <= w,
    ;
    assert(w * ((4 * c + 1) * w - b) >= 0) by (nonlinear_arith)
        requires
            w >= 0,
            (4 * c + 1) * w - b >= 0,
    ;
}

/// A product of two neighbours is even, so three times an odd square is not one.
proof fn lemma_neighbours_make_radius_even(r: int, w: int)
    requires
        r >= 0,
        w >= 0,
        3 * r * r == w * w + w,
    ensures
        r % 2 == 0,
{
    let a = w / 2;
    let h = if w % 2 == 0 {
        a * (w + 1)
    } else {
        w * (a + 1)
    };
    assert(w * w + w == 2 * h) by (nonlinear_arith)
        requires
            w == 2 * a || w == 2 * a + 1,
            h == if w == 2 * a {
                a * (w + 1)
            } else {
                w * (a + 1)
            },
    ;
    if r % 2 == 1 {
        let b = r / 2;
        assert(3 * r * r == 2 * (6 * (b * b) + 6 * b + 1) + 1) by (nonlinear_arith)
            requires
                r == 2 * b + 1,
        ;
    }
}

/// In an odd row: the centre of column `c`, `sqrt(3)` times its doubled distance
/// `x2` from the start, lies at or beyond the doubled near border `6 * r * c + e` of
/// its column, all squared.
proof fn lemma_odd_row_near_border(r: int, w: int, c: int, d: int, e: int, x2: int)
    requires
        r >= 1,
        3 * r * r <= w * w + w,
        r + 1 <= w,
        0 <= c,
        c + 1 <= w,
        0 <= d <= 1,
        e == r % 2,
        x2 == (2 * c + 1) * w - d,
    ensures
        (6 * r * c + e) * (6 * r * c + e) <= 3 * x2 * x2,
{
    let n = 3 * r * r;
    let k = 2 * c + 1;
    let low = k * w - 1;
    assert(low >= 0) by (nonlinear_arith)
        requires
            low == k * w - 1,
            k >= 1,
            w >= 2,
    ;
    crate::arith::lemma_square_monotone(low, x2);
    assert(3 * x2 * x2 == 3 * (x2 * x2)) by (nonlinear_arith);
    let l = 6 * r * c + e;
    let l1 = 6 * r * c + 1;
    assert(0 <= l <= l1 && (e == 0 ==> l == 6 * (r * c))) by (nonlinear_arith)
        requires
            l == 6 * r * c + e,
            l1 == 6 * r * c + 1,
            0 <= e <= 1,
            r >= 1,
            c >= 0,
    ;
    crate::arith::lemma_square_monotone(l, l1);
    assert(l1 * l1 == 12 * n * (c * c) + 12 * (r * c) + 1) by (nonlinear_arith)
        requires
            l1 == 6 * r * c + 1,
            n == 3 * r * r,
    ;
    assert(3 * (low * low) - 12 * (w * w + w) * (c * c) - 12 * (r * c) - 1 == 12 * c * (w * (w
        - 1 - c) - r) + 3 * w * w - 6 * w + 2) by (nonlinear_arith)
        requires
            low == k * w - 1,
            k == 2 * c + 1,
    ;
    assert(3 * w * w - 6 * w + 2 >= 0) by (nonlinear_arith)
        requires
            w >= 2,
    ;
    if c + 2 <= w {
        assert(12 * n * (c * c) <= 12 * (w * w + w) * (c * c)) by (nonlinear_arith)
            requires
                n <= w * w + w,
        ;
        assert(w * (w - 1 - c) - r >= 0) by (nonlinear_arith)
            requires
                w - 1 - c >= 1,
                w >= r + 1,
                r >= 1,
        ;
        assert(12 * c * (w * (w - 1 - c) - r) >= 0) by (nonlinear_arith)
            requires
                c >= 0,
                w * (w - 1 - c) - r >= 0,
        ;
        assert(l * l <= 3 * x2 * x2);
    } else if n < w * w + w {
        let cc = c * c;
        let rc = r * c;
        let top = 12 * (w * w + w) * (c * c);
        let rest = 3 * w * w - 6 * w + 2;
        assert(12 * n * (c * c) <= top - 12 * cc) by (nonlinear_arith)
            requires
                n <= w * w + w - 1,
                top == 12 * (w * w + w) * (c * c),
                cc == c * c,
        ;
        assert(12 * c * (w * (w - 1 - c) - r) == -(12 * rc)) by (nonlinear_arith)
            requires
                w - 1 - c == 0,
                rc == r * c,
        ;
        assert(cc - rc >= 0) by (nonlinear_arith)
            requires
                cc == c * c,
                rc == r * c,
                c >= r,
                r >= 1,
        ;
        assert(l1 * l1 <= top - 12 * cc + 12 * rc + 1);
        assert(3 * (low * low) == top + 1 + rest);
        assert(l1 * l1 <= 3 * (low * low));
        assert(l * l <= 3 * x2 * x2);
    } else {
        lemma_neighbours_make_radius_even(r, w);
        assert(l * l == 12 * n * (c * c)) by (nonlinear_arith)
            requires
                l == 6 * (r * c),
                n == 3 * r * r,
        ;
        assert(low == (2 * w + 1) * c) by (nonlinear_arith)
            requires
                low == k * w - 1,
                k == 2 * c + 1,
                c == w - 1,
        ;
        let cc = c * c;
        assert(3 * (low * low) == 3 * (4 * (w * w + w) + 1) * cc) by (nonlinear_arith)
            requires
                low == (2 * w + 1) * c,
                cc == c * c,
        ;
        assert(12 * n * cc <= 3 * (4 * (w * w + w) + 1) * cc) by (nonlinear_arith)
            requires
                n == w * w + w,
                cc >= 0,
        ;
        assert(l * l <= 3 * x2 * x2);
    }
}

/// In an odd row: the centre of column `c`, `sqrt(3)` times its doubled distance
/// `x2` from the start, lies short of the doubled far border `6 * r * (c + 1) + e` of
/// its column, all squared.
proof fn lemma_odd_row_far_border(r: int, w: int, c: int, d: int, e: int, x2: int)
    requires
        r >= 1,
        w * w - w + 1 <= 3 * r * r,
        0 <= c,
        c + 1 <= w,
        0 <= d <= 1,
        0 <= e <= 1,
        x2 == (2 * c + 1) * w - d,
    ensures
        3 * x2 * x2 < (6 * r * (c + 1) + e) * (6 * r * (c + 1) + e),
{
    let n = 3 * r * r;
    let k = 2 * c + 1;
    let high = k * w;
    assert(x2 >= 0) by (nonlinear_arith)
        requires
            x2 == k * w - d,
            d <= 1,
            k >= 1,
            w >= 1,
    ;
    crate::arith::lemma_square_monotone(x2, high);
    assert(3 * x2 * x2 == 3 * (x2 * x2)) by (nonlinear_arith);
    let u = 6 * r * (c + 1) + e;
    let u0 = 6 * r * (c + 1);
    assert(0 <= u0 <= u) by (nonlinear_arith)
        requires
            u == 6 * r * (c + 1) + e,
            u0 == 6 * r * (c + 1),
            0 <= e,
            r >= 1,
            c >= 0,
    ;
    crate::arith::lemma_square_monotone(u0, u);
    let q = (c + 1) * (c + 1);
    assert(u0 * u0 == 12 * n * q) by (nonlinear_arith)
        requires
            u0 == 6 * r * (c + 1),
            n == 3 * r * r,
            q == (c + 1) * (c + 1),
    ;
    assert(12 * (w * w - w + 1) * q <= 12 * n * q) by (nonlinear_arith)
        requires
            w * w - w + 1 <= n,
            q >= 0,
    ;
    let kk = k * k;
    let ww = w * w;
    let t = ww - w + 1;
    let hh = high * high;
    assert(hh == kk * ww) by (nonlinear_arith)
        requires
            hh == high * high,
            high == k * w,
            kk == k * k,
            ww == w * w,
    ;
    assert(4 * q == kk + 4 * c + 3) by (nonlinear_arith)
        requires
            q == (c + 1) * (c + 1),
            kk == k * k,
            k == 2 * c + 1,
    ;
    assert(12 * (w * w - w + 1) * q == 3 * (t * (4 * q))) by (nonlinear_arith)
        requires
            t == w * w - w + 1,
    ;
    assert(t * (kk + 4 * c + 3) - kk * ww == (4 * c + 3) * t - kk * (w - 1)) by (nonlinear_arith)
        requires
            t == ww - w + 1,
    ;
    assert((4 * c + 3) * w >= kk) by (nonlinear_arith)
        requires
            kk == k * k,
            k == 2 * c + 1,
            c >= 0,
            w >= c + 1,
    ;
    assert((w - 1) * ((4 * c + 3) * w) >= (w - 1) * kk) by (nonlinear_arith)
        requires
            (4 * c + 3) * w >= kk,
            w >= 1,
    ;
    assert((4 * c + 3) * t == (w - 1) * ((4 * c + 3) * w) + (4 * c + 3)) by (nonlinear_arith)
        requires
            t == ww - w + 1,
            ww == w * w,
    ;
    assert((w - 1) * kk == kk * (w - 1)) by (nonlinear_arith);
    assert(12 * (w * w - w + 1) * q > 3 * hh);
    assert(3 * x2 * x2 <= 3 * hh);
    assert(3 * x2 * x2 < u * u);
}

/// A height in a row converts back to the row.
proof fn lemma_row_round_trip(radius: int, row: int)
    requires
        radius >= 1,
        0 <= row,
    ensures
        hex_row(row_depth(radius, row), radius) == row,
{
    let j = row / 2;
    let o = row % 2;
    let t = (3 * radius + 1) / 2;
    let e = 2 * t - 3 * radius;
    let y = row_depth(radius, row);
    let six = 6 * radius;
    let yj = j * (3 * radius);
    assert(yj >= 0) by (nonlinear_arith)
        requires
            yj == j * (3 * radius),
            j >= 0,
            radius >= 1,
    ;
    assert(row * (2 * (3 * radius)) == 4 * yj + o * six) by (nonlinear_arith)
        requires
            row == 2 * j + o,
            yj == j * (3 * radius),
            six == 6 * radius,
    ;
    assert(o * six == if o == 0 {
        0
    } else {
        six
    }) by (nonlinear_arith)
        requires
            o == 0 || o == 1,
    ;
    if o == 0 {
        vstd::arithmetic::div_mod::lemma_fundamental_div_mod_converse(
            2 * (2 * y) + 3 * radius,
            2 * (3 * radius),
            row,
            3 * radius,
        );
    } else {
        vstd::arithmetic::div_mod::lemma_fundamental_div_mod_converse(
            2 * (2 * y) + 3 * radius,
            2 * (3 * radius),
            row,
            3 * radius + 2 * e,
        );
    }
}

/// A pixel right of the first column lies in the axial column `q` if `sqrt(3)`
/// times its doubled distance `2 * x` lies between the doubled borders `low` and
/// `low + 6 * radius` of that column, all squared.
proof fn lemma_column_between_borders(x: int, y: int, radius: int, q: int, low: int)
    requires
        radius >= 1,
        x > 0,
        low == 6 * radius * q - 3 * radius + 2 * y,
        low <= 0 || low * low <= 3 * (2 * x) * (2 * x),
        low + 6 * radius > 0,
        3 * (2 * x) * (2 * x) < (low + 6 * radius) * (low + 6 * radius),
    ensures
        hex_column(x, y, radius) == q,
{
    let six = 6 * radius;
    let high = low + six;
    lemma_floor_sqrt3(2 * x);
    let f = crate::arith::floor_sqrt3(2 * x);
    if low > f {
        crate::arith::lemma_square_monotone(f + 1, low);
    }
    if f >= high {
        crate::arith::lemma_square_monotone(high, f);
    }
    assert(low <= f < high);
    assert(q * six == 6 * radius * q) by (nonlinear_arith)
        requires
            six == 6 * radius,
    ;
    vstd::arithmetic::div_mod::lemma_fundamental_div_mod_converse(
        f - 2 * y + 3 * radius,
        six,
        q,
        f - low,
    );
}

/// The centre of the first cell of an even row converts back to its cell.
proof fn lemma_first_column_round_trip(radius: int, j: int)
    requires
        radius >= 1,
        0 <= j,
    ensures
        hex_column(0, j * (3 * radius), radius) == -j,
{
    let y = j * (3 * radius);
    assert(y >= 0 && (y == 0 ==> j == 0) && j * (2 * (3 * radius)) == 2 * y) by (nonlinear_arith)
        requires
            y == j * (3 * radius),
            radius >= 1,
            j >= 0,
    ;
    if y == 0 {
        vstd::arithmetic::div_mod::lemma_fundamental_div_mod_converse(
            3 * radius,
            2 * (3 * radius),
            0,
            3 * radius,
        );
    } else {
        vstd::arithmetic::div_mod::lemma_fundamental_div_mod_converse(
            -2 * (-y) + 3 * radius,
            2 * (3 * radius),
            j,
            3 * radius,
        );
    }
}

/// The centre of a cell of an even row, right of the first, converts back to its
/// column.
proof fn lemma_even_row_round_trip(radius: int, column: int, j: int)
    requires
        radius >= 1,
        1 <= column < hex_width(radius),
        0 <= j,
    ensures
        hex_column(column * hex_width(radius), j * (3 * radius), radius) == column - j,
{
    let w = hex_width(radius);
    let n = 3 * radius * radius;
    let x = column * w;
    let y = j * (3 * radius);
    lemma_hex_width(radius);
    lemma_even_row_borders(n, w, column);
    let a = (2 * column - 1) * (2 * column - 1);
    let b = (2 * column + 1) * (2 * column + 1);
    let low = 3 * radius * (2 * column - 1);
    let high = 3 * radius * (2 * column + 1);
    assert(low == 6 * radius * (column - j) - 3 * radius + 2 * y && high == low + 6 * radius) by (
    nonlinear_arith)
        requires
            low == 3 * radius * (2 * column - 1),
            high == 3 * radius * (2 * column + 1),
            y == j * (3 * radius),
    ;
    assert(low * low == 3 * (n * a) && high * high == 3 * (n * b)) by (nonlinear_arith)
        requires
            low == 3 * radius * (2 * column - 1),
            high == 3 * radius * (2 * column + 1),
            n == 3 * radius * radius,
            a == (2 * column - 1) * (2 * column - 1),
            b == (2 * column + 1) * (2 * column + 1),
    ;
    assert(3 * (2 * x) * (2 * x) == 3 * (4 * (column * w) * (column * w))) by (nonlinear_arith)
        requires
            x == column * w,
    ;
    assert(x >= 1 && high >= 1) by (nonlinear_arith)
        requires
            x == column * w,
            high == 3 * radius * (2 * column + 1),
            radius >= 1,
            column >= 1,
            w >= 1,
    ;
    lemma_column_between_borders(x, y, radius, column - j, low);
}

/// The centre of a cell of an odd row converts back to its column.
proof fn lemma_odd_row_round_trip(radius: int, column: int, j: int)
    requires
        radius >= 1,
        0 <= column < hex_width(radius),
        0 <= j,
    ensures
        hex_column(
            hex_width(radius) / 2 + column * hex_width(radius),
            j * (3 * radius) + (3 * radius + 1) / 2,
            radius,
        ) == column - j,
{
    let w = hex_width(radius);
    let t = (3 * radius + 1) / 2;
    let e = 2 * t - 3 * radius;
    let d = w - 2 * (w / 2);
    let x = w / 2 + column * w;
    let y = j * (3 * radius) + t;
    lemma_hex_width(radius);
    assert(2 * x == (2 * column + 1) * w - d && x >= 1) by (nonlinear_arith)
        requires
            x == w / 2 + column * w,
            d == w - 2 * (w / 2),
            w / 2 >= 1,
            column >= 0,
            w >= 2,
    ;
    lemma_odd_row_near_border(radius, w, column, d, e, 2 * x);
    lemma_odd_row_far_border(radius, w, column, d, e, 2 * x);
    let low = 6 * radius * column + e;
    assert(low == 6 * radius * (column - j) - 3 * radius + 2 * y && low >= 0 && low + 6 * radius
        == 6 * radius * (column + 1) + e) by (nonlinear_arith)
        requires
            low == 6 * radius * column + e,
            y == j * (3 * radius) + t,
            e == 2 * t - 3 * radius,
            e >= 0,
            radius >= 1,
            column >= 0,
    ;
    lemma_column_between_borders(x, y, radius, column - j, low);
}

/// The centre of a cell lies in that cell.
///
/// Take the cell at `column` of `row` of a grid of hexagons of radius `radius`, and the
/// pixel at its centre, measured from the centre of the first cell. The hexagon that
/// `hex_column` and `hex_row` find under that pixel is the cell itself, at the axial
/// coordinate `cell_axial(column, row)`. This holds in every row, for every radius
/// from 1 on, as long as the column is less than `hex_width(radius)`: the width of a
/// cell is a whole number of pixels, and what it differs from `sqrt(3) * radius` adds
/// up along a row.
pub proof fn lemma_center_round_trip(radius: int, column: int, row: int)
    requires
        radius >= 1,
        0 <= column < hex_width(radius),
        0 <= row,
    ensures
        hex_row(row_depth(radius, row), radius) == cell_axial(column, row).1,
        hex_column(
            row_indent(radius, row) + column * hex_width(radius),
            row_depth(radius, row),
            radius,
        ) == cell_axial(column, row).0,
{
    lemma_row_round_trip(radius, row);
    if row % 2 == 1 {
        lemma_odd_row_round_trip(radius, column, row / 2);
    } else if column >= 1 {
        lemma_even_row_round_trip(radius, column, row / 2);
    } else {
        assert(column * hex_width(radius) == 0) by (nonlinear_arith)
            requires
                column == 0,
        ;
        lemma_first_column_round_trip(radius, row / 2);
    }
}

/// The rows lie deeper one after the other.
proof fn lemma_row_depth_monotone(radius: int, above: int, below: int)
    requires
        0 <= radius,
        0 <= above <= below,
    ensures
        0 <= row_depth(radius, above) <= row_depth(radius, below),
{
    let t = (3 * radius + 1) / 2;
    let e = 2 * t - 3 * radius;
    let ja = (above / 2) * (3 * radius);
    let jb = (below / 2) * (3 * radius);
    assert(2 * ja == 3 * radius * above - (above % 2) * (3 * radius) && ja >= 0) by (
    nonlinear_arith)
        requires
            ja == (above / 2) * (3 * radius),
            above == 2 * (above / 2) + above % 2,
            above / 2 >= 0,
            radius >= 0,
    ;
    assert(2 * jb == 3 * radius * below - (below % 2) * (3 * radius)) by (nonlinear_arith)
        requires
            jb == (below / 2) * (3 * radius),
            below == 2 * (below / 2) + below % 2,
    ;
    assert(3 * radius * below >= 3 * radius * above && (above < below ==> 3 * radius * below >= 3
        * radius * above + 3 * radius)) by (nonlinear_arith)
        requires
            0 <= radius,
            above <= below,
    ;
    assert((above % 2) * (3 * radius) == if above % 2 == 0 {
        0
    } else {
        3 * radius
    }) by (nonlinear_arith)
        requires
            above % 2 == 0 || above % 2 == 1,
    ;
    assert((below % 2) * (3 * radius) == if below % 2 == 0 {
        0
    } else {
        3 * radius
    }) by (nonlinear_arith)
        requires
            below % 2 == 0 || below % 2 == 1,
    ;
}

/// The left side of the grid: the least x of any corner of any cell.
pub open spec fn grid_left(start: Point, radius: int) -> int {
    start.x - corner_reach(radius)
}

/// The right side of the grid: the greatest x of any corner of any cell, which is in
/// an odd row where there is one.
pub open spec fn grid_right(columns: int, rows: int, start: Point, radius: int) -> int {
    start.x + (if rows >= 2 {
        hex_width(radius) / 2
    } else {
        0
    }) + (columns - 1) * hex_width(radius) + corner_reach(radius)
}

/// The top of the grid: the least y of any corner of any cell.
pub open spec fn grid_top(start: Point, radius: int) -> int {
    start.y - radius
}

/// The bottom of the grid: the greatest y of any corner of any cell.
pub open spec fn grid_bottom(rows: int, start: Point, radius: int) -> int {
    start.y + row_depth(radius, rows - 1) + radius
}

/// A grid fits when its four sides do.
pub proof fn lemma_grid_fits(columns: int, rows: int, start: Point, radius: int)
    requires
        columns >= 1,
        rows >= 1,
        radius >= 0,
    ensures
        grid_fits(columns, rows, start, radius) <==> {
            &&& i32::MIN <= grid_left(start, radius)
            &&& grid_right(columns, rows, start, radius) <= i32::MAX
            &&& i32::MIN <= grid_top(start, radius)
            &&& grid_bottom(rows, start, radius) <= i32::MAX
        },
{
    let w = hex_width(radius);
    lemma_floor_sqrt3(2 * radius);
    crate::hex::lemma_corner_reach_bounds(radius);
    let sides = {
        &&& i32::MIN <= grid_left(start, radius)
        &&& grid_right(columns, rows, start, radius) <= i32::MAX
        &&& i32::MIN <= grid_top(start, radius)
        &&& grid_bottom(rows, start, radius) <= i32::MAX
    };
    assert(0 * w == 0 && (columns - 1) * w >= 0) by (nonlinear_arith)
        requires
            columns >= 1,
            w >= 0,
    ;
    lemma_row_depth_monotone(radius, 0, rows - 1);
    assert(row_depth(radius, 0) == 0) by (nonlinear_arith)
        requires
            row_depth(radius, 0) == (0int / 2) * (3 * radius),
    ;
    if grid_fits(columns, rows, start, radius) {
        assert(cell_fits(start, radius, 0, 0));
        assert(cell_fits(start, radius, 0, rows - 1));
        if rows >= 2 {
            assert(cell_fits(start, radius, columns - 1, 1));
        } else {
            assert(cell_fits(start, radius, columns - 1, 0));
        }
        assert(sides);
    }
    if sides {
        assert forall|column: int, row: int|
            0 <= column < columns && 0 <= row < rows implies #[trigger] cell_fits(
            start,
            radius,
            column,
            row,
        ) by {
            lemma_row_depth_monotone(radius, row, rows - 1);
            lemma_row_depth_monotone(radius, 0, row);
            assert(0 <= column * w <= (columns - 1) * w) by (nonlinear_arith)
                requires
                    0 <= column <= columns - 1,
                    w >= 0,
            ;
        }
    }
}

/// A grid fits if the squares around its cells do: each cell lies in a square of
/// twice its radius, and with the odd rows set in by at most a radius the squares of
/// a grid of `columns` by `rows` cells reach no further than `2 * radius * columns`
/// to the right of the centre of the first cell and `2 * radius * rows - radius`
/// below it.
pub proof fn lemma_grid_within_box(columns: int, rows: int, start: Point, radius: int)
    requires
        columns >= 1,
        rows >= 1,
        radius >= 0,
        i32::MIN <= start.x - radius,
        start.x + 2 * radius * columns <= i32::MAX,
        i32::MIN <= start.y - radius,
        start.y + 2 * radius * rows - radius <= i32::MAX,
    ensures
        grid_fits(columns, rows, start, radius),
{
    lemma_grid_fits(columns, rows, start, radius);
    crate::hex::lemma_corner_reach_bounds(radius);
    lemma_floor_sqrt3(2 * radius);
    let w = hex_width(radius);
    assert(0 <= w <= 2 * radius);
    assert((columns - 1) * w <= (columns - 1) * (2 * radius) && (columns - 1) * (2 * radius) == 2
        * radius * columns - 2 * radius) by (nonlinear_arith)
        requires
            columns >= 1,
            0 <= w <= 2 * radius,
    ;
    let last = rows - 1;
    let depth = row_depth(radius, last);
    let half = (last / 2) * (3 * radius);
    assert(2 * half == 3 * radius * last - (last % 2) * (3 * radius) && 3 * radius * last == 2
        * radius * rows - 2 * radius + radius * last && radius * last >= 0) by (nonlinear_arith)
        requires
            half == (last / 2) * (3 * radius),
            last == 2 * (last / 2) + last % 2,
            last == rows - 1,
            last >= 0,
            radius >= 0,
    ;
    assert((last % 2) * (3 * radius) == if last % 2 == 0 {
        0
    } else {
        3 * radius
    }) by (nonlinear_arith)
        requires
            last % 2 == 0 || last % 2 == 1,
    ;
    let rl = radius * last;
    assert((last >= 1 && radius >= 1 ==> rl >= 1) && rl == radius * rows - radius && 2 * radius
        * rows == 2 * (radius * rows)) by (nonlinear_arith)
        requires
            rl == radius * last,
            last == rows - 1,
            last >= 0,
            radius >= 0,
    ;
    assert(2 * depth <= 3 * radius * last + 1);
    assert(radius == 0 ==> depth == 0);
    assert(depth + radius <= 2 * radius * rows - radius);
}

} // verus!
