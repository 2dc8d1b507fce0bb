//! Points, hexagon coordinates and colours: the small values everything else is made of.
use vstd::prelude::*;
use vstd::std_specs::ops::AddSpecImpl;
use vstd::std_specs::ops::MulSpecImpl;
use vstd::std_specs::ops::SubSpecImpl;
use crate::arith::floor_div_exec;
use crate::arith::floor_sqrt3;
use crate::arith::floor_sqrt3_exec;
use crate::arith::lemma_floor_sqrt3;
use crate::arith::lemma_round_ratio;
use crate::arith::round_ratio;
use crate::arith::round_ratio_exec;

verus! {

/// One cell of a hexagonal grid in axial form: `column` runs along a row of cells,
/// `row` runs down the rows, and each row down starts half a cell further right.
#[derive(Debug, Copy, Clone, PartialEq, Eq, Structural)]
pub struct Axial {
    pub column: i32,
    pub row: i32,
}

impl Axial {
    pub fn new(column: i32, row: i32) -> (a: Self)
        ensures
            a == (Axial { column, row }),
    {
        Axial { column, row }
    }

    pub fn column(&self) -> (c: i32)
        ensures
            c == self.column,
    {
        self.column
    }

    pub fn row(&self) -> (r: i32)
        ensures
            r == self.row,
    {
        self.row
    }
}

/// The row of the hexagon of radius `radius` that holds the height `y`, measured from
/// the centre of the hexagon at row 0: the integer nearest to `(2/3 * y) / radius`.
pub open spec fn hex_row(y: int, radius: int) -> int {
    round_ratio(2 * y, 3 * radius)
}

/// The axial column of the hexagon of radius `radius` that holds the pixel `(x, y)`,
/// measured from the centre of the hexagon at column 0, row 0: the integer nearest to
/// `(sqrt(3)/3 * x - 1/3 * y) / radius`.
///
/// The quotient can lie half way between two integers only where `x` is zero; there
/// it goes to the integer farther from zero.
pub open spec fn hex_column(x: int, y: int, radius: int) -> int {
    if x == 0 {
        round_ratio(-y, 3 * radius)
    } else {
        (floor_sqrt3(2 * x) - 2 * y + 3 * radius) / (6 * radius)
    }
}

/// `hex_column` and `hex_row` name the nearest column and row.
///
/// With `q` the column and `r` the row found for the pixel `(x, y)`: the quotient
/// `2 * y / (3 * radius)` differs from `r` by at most a half, and so does the quotient
/// `(sqrt(3) * x - y) / (3 * radius)` from `q`. For `x` other than zero the second is
/// irrational, and is stated through the integer part of `2 * sqrt(3) * x`, which lies
/// from `3 * radius * (2 * q - 1) + 2 * y` up to, but not at, `3 * radius * (2 * q + 1)
/// + 2 * y`.
pub proof fn lemma_hex_is_nearest(x: int, y: int, radius: int)
    requires
        0 < radius,
    ensures
        -(3 * radius) <= 2 * (3 * radius) * hex_row(y, radius) - 2 * (2 * y) <= 3 * radius,
        x == 0 ==> -(3 * radius) <= 2 * (3 * radius) * hex_column(x, y, radius) - 2 * (-y) <= 3
            * radius,
        x != 0 ==> 3 * radius * (2 * hex_column(x, y, radius) - 1) + 2 * y <= floor_sqrt3(2 * x)
            < 3 * radius * (2 * hex_column(x, y, radius) + 1) + 2 * y,
{
    lemma_round_ratio(2 * y, 3 * radius);
    lemma_round_ratio(-y, 3 * radius);
    if x != 0 {
        let f = floor_sqrt3(2 * x);
        let num = f - 2 * y + 3 * radius;
        let q = num / (6 * radius);
        let rem = num % (6 * radius);
        vstd::arithmetic::div_mod::lemma_fundamental_div_mod(num, 6 * radius);
        vstd::arithmetic::div_mod::lemma_mod_bound(num, 6 * radius);
        assert(3 * radius * (2 * q - 1) == (6 * radius) * q - 3 * radius && 3 * radius * (2 * q
            + 1) == (6 * radius) * q + 3 * radius) by (nonlinear_arith);
    }
}

/// `column` and `row` name the hexagon of radius `radius` under the pixel `(x, y)`,
/// stated without a division: `f` is the integer part of `2 * sqrt(3) * x`, and the
/// quotients that `hex_column` and `hex_row` round lie within a half of `column` and
/// `row`, on the side away from zero where they lie a half off.
pub open spec fn is_hexagon_at(x: int, y: int, radius: int, f: int, column: int, row: int) -> bool {
    &&& f == floor_sqrt3(2 * x)
    &&& y >= 0 ==> 6 * radius * row - 3 * radius <= 4 * y < 6 * radius * row + 3 * radius
    &&& y < 0 ==> 6 * radius * row - 3 * radius < 4 * y <= 6 * radius * row + 3 * radius
    &&& x != 0 ==> 6 * radius * column - 3 * radius <= f - 2 * y < 6 * radius * column + 3
        * radius
    &&& x == 0 && y <= 0 ==> 6 * radius * column - 3 * radius <= -2 * y < 6 * radius * column
        + 3 * radius
    &&& x == 0 && y > 0 ==> 6 * radius * column - 3 * radius < -2 * y <= 6 * radius * column + 3
        * radius
}

/// Whatever satisfies `is_hexagon_at` is the value of `hex_column` and `hex_row`:
/// the way to learn the cell under a given pixel, with `lemma_floor_sqrt3_is` for
/// the root.
pub proof fn lemma_hexagon_at(x: int, y: int, radius: int, f: int, column: int, row: int)
    requires
        0 < radius,
        is_hexagon_at(x, y, radius, f, column, row),
    ensures
        hex_column(x, y, radius) == column,
        hex_row(y, radius) == row,
{
    assert(2 * (3 * radius) * row == 6 * radius * row && 2 * (3 * radius) * column == 6 * radius
        * column && column * (6 * radius) == 6 * radius * column) by (nonlinear_arith);
    crate::arith::lemma_round_ratio_is(2 * y, 3 * radius, row);
    if x == 0 {
        crate::arith::lemma_round_ratio_is(-y, 3 * radius, column);
    } else {
        vstd::arithmetic::div_mod::lemma_fundamental_div_mod_converse(
            f - 2 * y + 3 * radius,
            6 * radius,
            column,
            f - 2 * y + 3 * radius - 6 * radius * column,
        );
    }
}

/// Both coordinates of the hexagon under a pixel fit the machine integers of an
/// `Axial`, wherever on the surface the pixel lies.
pub proof fn lemma_hex_in_range(x: int, y: int, radius: int)
    requires
        i32::MIN <= x <= i32::MAX,
        i32::MIN <= y <= i32::MAX,
        0 < radius,
    ensures
        i32::MIN <= hex_row(y, radius) <= i32::MAX,
        i32::MIN <= hex_column(x, y, radius) <= i32::MAX,
{
    lemma_round_ratio(2 * y, 3 * radius);
    lemma_round_ratio(-y, 3 * radius);
    let row = hex_row(y, radius);
    assert(i32::MIN <= row <= i32::MAX) by (nonlinear_arith)
        requires
            -(3 * radius) <= 2 * (3 * radius) * row - 2 * (2 * y) <= 3 * radius,
            i32::MIN <= y <= i32::MAX,
            0 < radius,
    ;
    if x == 0 {
        let col = round_ratio(-y, 3 * radius);
        assert(i32::MIN <= col <= i32::MAX) by (nonlinear_arith)
            requires
                -(3 * radius) <= 2 * (3 * radius) * col - 2 * (-y) <= 3 * radius,
                i32::MIN <= y <= i32::MAX,
                0 < radius,
        ;
    } else {
        lemma_floor_sqrt3(2 * x);
        let f = floor_sqrt3(2 * x);
        let num = f - 2 * y + 3 * radius;
        let col = num / (6 * radius);
        let rem = num % (6 * radius);
        vstd::arithmetic::div_mod::lemma_fundamental_div_mod(num, 6 * radius);
        vstd::arithmetic::div_mod::lemma_mod_bound(num, 6 * radius);
        assert(num == (6 * radius) * col + rem);
        assert(i32::MIN <= col <= i32::MAX) by (nonlinear_arith)
            requires
                num == (6 * radius) * col + rem,
                0 <= rem < 6 * radius,
                0 < radius,
                -0x2_C000_0000 + 3 * radius <= num <= 0x2_C000_0000 + 3 * radius,
        ;
    }
}

/// A position on the display surface, in whole pixels.
#[derive(Debug, Copy, Clone, PartialEq, Eq, Structural)]
pub struct Point {
    pub x: i32,
    pub y: i32,
}

impl Point {
    pub fn new(x: i32, y: i32) -> (p: Self)
        ensures
            p == (Point { x, y }),
    {
        Point { x, y }
    }

    pub fn x(&self) -> (x: i32)
        ensures
            x == self.x,
    {
        self.x
    }

    pub fn y(&self) -> (y: i32)
        ensures
            y == self.y,
    {
        self.y
    }

    /// The cell of a grid of hexagons of radius `radius` that holds this pixel, the
    /// pixel being measured from the centre of the cell at column 0, row 0.
    ///
    /// Every pixel has a cell, whether or not a board has a tile there. Which cell
    /// it is for a given pixel, `lemma_hexagon_at` tells.
    pub fn hexagon_axial(&self, radius: u32) -> (cell: Axial)
        requires
            radius > 0,
        ensures
            cell.column == hex_column(self.x as int, self.y as int, radius as int),
            cell.row == hex_row(self.y as int, radius as int),
    {
        let x: i64 = self.x as i64;
        let y: i64 = self.y as i64;
        let r: i64 = radius as i64;
        proof {
            lemma_hex_in_range(x as int, y as int, r as int);
            lemma_floor_sqrt3(2 * x);
        }
        let row: i64 = round_ratio_exec(2 * y, 3 * r);
        let column: i64 = if x == 0 {
            round_ratio_exec(-y, 3 * r)
        } else {
            floor_div_exec(floor_sqrt3_exec(2 * x) - 2 * y + 3 * r, 6 * r)
        };
        Axial { column: column as i32, row: row as i32 }
    }

    /// Whether the sum of the two points is a point.
    pub open spec fn can_add(self, rhs: Point) -> bool {
        &&& i32::MIN <= self.x + rhs.x <= i32::MAX
        &&& i32::MIN <= self.y + rhs.y <= i32::MAX
    }

    /// Whether the difference of the two points is a point.
    pub open spec fn can_sub(self, rhs: Point) -> bool {
        &&& i32::MIN <= self.x - rhs.x <= i32::MAX
        &&& i32::MIN <= self.y - rhs.y <= i32::MAX
    }

    /// Whether the point scaled by `rhs` is a point.
    pub open spec fn can_scale(self, rhs: i32) -> bool {
        &&& i32::MIN <= self.x * rhs <= i32::MAX
        &&& i32::MIN <= self.y * rhs <= i32::MAX
    }

    /// The point moved by `rhs`.
    pub open spec fn plus(self, rhs: Point) -> Point {
        Point { x: (self.x + rhs.x) as i32, y: (self.y + rhs.y) as i32 }
    }

    /// The point moved back by `rhs`.
    pub open spec fn minus(self, rhs: Point) -> Point {
        Point { x: (self.x - rhs.x) as i32, y: (self.y - rhs.y) as i32 }
    }

    /// Both coordinates multiplied by `rhs`.
    pub open spec fn scaled(self, rhs: i32) -> Point {
        Point { x: (self.x * rhs) as i32, y: (self.y * rhs) as i32 }
    }
}

impl Default for Point {
    fn default() -> (p: Self)
        ensures
            p == (Point { x: 0, y: 0 }),
    {
        Point::new(0, 0)
    }
}

impl std::ops::Add for Point {
    type Output = Point;

    fn add(self, rhs: Point) -> (sum: Point) {
        Point { x: self.x + rhs.x, y: self.y + rhs.y }
    }
}

impl AddSpecImpl for Point {
    open spec fn obeys_add_spec() -> bool {
        true
    }

    open spec fn add_req(self, rhs: Point) -> bool {
        self.can_add(rhs)
    }

    open spec fn add_spec(self, rhs: Point) -> Point {
        self.plus(rhs)
    }
}

impl<'a> std::ops::Add<&'a Point> for Point {
    type Output = Point;

    fn add(self, rhs: &Point) -> (sum: Point) {
        Point { x: self.x + rhs.x, y: self.y + rhs.y }
    }
}

impl<'a> AddSpecImpl<&'a Point> for Point {
    open spec fn obeys_add_spec() -> bool {
        true
    }

    open spec fn add_req(self, rhs: &'a Point) -> bool {
        self.can_add(*rhs)
    }

    open spec fn add_spec(self, rhs: &'a Point) -> Point {
        self.plus(*rhs)
    }
}

impl std::ops::Sub for Point {
    type Output = Point;

    fn sub(self, rhs: Point) -> (difference: Point) {
        Point { x: self.x - rhs.x, y: self.y - rhs.y }
    }
}

impl SubSpecImpl for Point {
    open spec fn obeys_sub_spec() -> bool {
        true
    }

    open spec fn sub_req(self, rhs: Point) -> bool {
        self.can_sub(rhs)
    }

    open spec fn sub_spec(self, rhs: Point) -> Point {
        self.minus(rhs)
    }
}

impl<'a> std::ops::Sub<&'a Point> for Point {
    type Output = Point;

    fn sub(self, rhs: &Point) -> (difference: Point) {
        Point { x: self.x - rhs.x, y: self.y - rhs.y }
    }
}

impl<'a> SubSpecImpl<&'a Point> for Point {
    open spec fn obeys_sub_spec() -> bool {
        true
    }

    open spec fn sub_req(self, rhs: &'a Point) -> bool {
        self.can_sub(*rhs)
    }

    open spec fn sub_spec(self, rhs: &'a Point) -> Point {
        self.minus(*rhs)
    }
}

impl std::ops::Mul<i32> for Point {
    type Output = Point;

    fn mul(self, rhs: i32) -> (product: Point) {
        Point { x: self.x * rhs, y: self.y * rhs }
    }
}

impl MulSpecImpl<i32> for Point {
    open spec fn obeys_mul_spec() -> bool {
        true
    }

    open spec fn mul_req(self, rhs: i32) -> bool {
        self.can_scale(rhs)
    }

    open spec fn mul_spec(self, rhs: i32) -> Point {
        self.scaled(rhs)
    }
}

/// The colours a cell or a die is drawn in.
#[derive(Debug, Copy, Clone, PartialEq, Eq, Structural)]
pub enum Colour {
    Black,
    White,
    LightBlue,
    Blue,
    DarkBlue,
    LightGreen,
    Green,
    DarkGreen,
    LightRed,
    Red,
    DarkRed,
    LightBrown,
    Brown,
    DarkBrown,
    LightYellow,
    Yellow,
    Orange,
    MediumPurple,
    Purple,
    RebeccaPurple,
}

impl Colour {
    /// The colour's name as a style sheet spells it.
    pub open spec fn name(self) -> Seq<char> {
        match self {
            Colour::Black => "black"@,
            Colour::White => "white"@,
            Colour::LightBlue => "lightblue"@,
            Colour::Blue => "blue"@,
            Colour::DarkBlue => "darkblue"@,
            Colour::LightGreen => "lightgreen"@,
            Colour::Green => "green"@,
            Colour::DarkGreen => "darkgreen"@,
            Colour::LightRed => "lightred"@,
            Colour::Red => "red"@,
            Colour::DarkRed => "darkred"@,
            Colour::LightBrown => "lightbrown"@,
            Colour::Brown => "brown"@,
            Colour::DarkBrown => "darkbrown"@,
            Colour::LightYellow => "lightyellow"@,
            Colour::Yellow => "yellow"@,
            Colour::Orange => "orange"@,
            Colour::MediumPurple => "mediumpurple"@,
            Colour::Purple => "purple"@,
            Colour::RebeccaPurple => "rebeccapurple"@,
        }
    }

    pub fn to_string(&self) -> (text: String)
        ensures
            text@ == self.name(),
    {
        match self {
            Colour::Black => "black".to_owned(),
            Colour::White => "white".to_owned(),
            Colour::LightBlue => "lightblue".to_owned(),
            Colour::Blue => "blue".to_owned(),
            Colour::DarkBlue => "darkblue".to_owned(),
            Colour::LightGreen => "lightgreen".to_owned(),
            Colour::Green => "green".to_owned(),
            Colour::DarkGreen => "darkgreen".to_owned(),
            Colour::LightRed => "lightred".to_owned(),
            Colour::Red => "red".to_owned(),
            Colour::DarkRed => "darkred".to_owned(),
            Colour::LightBrown => "lightbrown".to_owned(),
            Colour::Brown => "brown".to_owned(),
            Colour::DarkBrown => "darkbrown".to_owned(),
            Colour::LightYellow => "lightyellow".to_owned(),
            Colour::Yellow => "yellow".to_owned(),
            Colour::Orange => "orange".to_owned(),
            Colour::MediumPurple => "mediumpurple".to_owned(),
            Colour::Purple => "purple".to_owned(),
            Colour::RebeccaPurple => "rebeccapurple".to_owned(),
        }
    }
}

/// The three colours of one player: a cell at rest, a cell that attacks, and a cell
/// under threat.
#[derive(Debug, Copy, Clone, PartialEq, Eq, Structural)]
pub struct Colours {
    pub unselected_colour: Colour,
    pub selected_colour: Colour,
    pub threatened_colour: Colour,
}

impl Colours {
    pub fn new(uc: Colour, sc: Colour, tc: Colour) -> (c: Self)
        ensures
            c == (Colours { unselected_colour: uc, selected_colour: sc, threatened_colour: tc }),
    {
        Colours { unselected_colour: uc, selected_colour: sc, threatened_colour: tc }
    }

    /// The colours of the player with the given number. There are six sets, and the
    /// numbers go round them; the count starts one set on, so that a number divisible
    /// by six has the blue set and number 1 has the green one.
    pub open spec fn of_player(player_number: int) -> Colours {
        let set = player_number % 6;
        if set == 0 {
            Colours {
                unselected_colour: Colour::Blue,
                selected_colour: Colour::DarkBlue,
                threatened_colour: Colour::LightBlue,
            }
        } else if set == 1 {
            Colours {
                unselected_colour: Colour::Green,
                selected_colour: Colour::DarkGreen,
                threatened_colour: Colour::LightGreen,
            }
        } else if set == 2 {
            Colours {
                unselected_colour: Colour::Red,
                selected_colour: Colour::DarkRed,
                threatened_colour: Colour::LightRed,
            }
        } else if set == 3 {
            Colours {
                unselected_colour: Colour::Brown,
                selected_colour: Colour::DarkBrown,
                threatened_colour: Colour::LightBrown,
            }
        } else if set == 4 {
            Colours {
                unselected_colour: Colour::Yellow,
                selected_colour: Colour::Orange,
                threatened_colour: Colour::LightYellow,
            }
        } else {
            Colours {
                unselected_colour: Colour::Purple,
                selected_colour: Colour::RebeccaPurple,
                threatened_colour: Colour::MediumPurple,
            }
        }
    }

    pub fn from_player_number(player_number: usize) -> (c: Self)
        ensures
            c == Colours::of_player(player_number as int),
    {
        let set: usize = player_number % 6;
        if set == 0 {
            Colours::new(Colour::Blue, Colour::DarkBlue, Colour::LightBlue)
        } else if set == 1 {
            Colours::new(Colour::Green, Colour::DarkGreen, Colour::LightGreen)
        } else if set == 2 {
            Colours::new(Colour::Red, Colour::DarkRed, Colour::LightRed)
        } else if set == 3 {
            Colours::new(Colour::Brown, Colour::DarkBrown, Colour::LightBrown)
        } else if set == 4 {
            Colours::new(Colour::Yellow, Colour::Orange, Colour::LightYellow)
        } else {
            Colours::new(Colour::Purple, Colour::RebeccaPurple, Colour::MediumPurple)
        }
    }
}

} // verus!
