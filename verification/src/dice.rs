//! The dice drawn on a cell: the square of a die and the dots on it.
use vstd::prelude::*;
use crate::arith::lemma_round_ratio;
use crate::arith::round_ratio;
use crate::arith::round_ratio_exec;
use crate::hex::on_surface;
use crate::primitive::Point;

verus! {

/// A square on the surface, by its top left corner and the length of its sides.
#[derive(Debug, Copy, Clone, PartialEq, Eq, Structural)]
pub struct Square {
    pub top_left: Point,
    pub length: i32,
}

/// A dot of a die, by its centre and radius.
#[derive(Debug, Copy, Clone, PartialEq, Eq, Structural)]
pub struct Dot {
    pub center: Point,
    pub radius: u32,
}

impl Dot {
    pub fn new(center: Point, radius: u32) -> (dot: Self)
        ensures
            dot == (Dot { center, radius }),
    {
        Dot { center, radius }
    }

    pub fn x(&self) -> (x: i32)
        ensures
            x == self.center.x,
    {
        self.center.x()
    }

    pub fn y(&self) -> (y: i32)
        ensures
            y == self.center.y,
    {
        self.center.y()
    }

    pub fn radius(&self) -> (radius: u32)
        ensures
            radius == self.radius,
    {
        self.radius
    }
}

/// The side of a die on a hexagon of the given radius: the integer nearest to the
/// radius divided by two and a half.
pub open spec fn dice_len(radius: int) -> int {
    round_ratio(2 * radius, 5)
}

/// The side of a die on a hexagon of the given radius.
pub fn dice_len_from_radius(radius: u32) -> (len: i32)
    ensures
        len == dice_len(radius as int),
        0 <= len,
{
    proof {
        lemma_round_ratio(2 * radius, 5);
    }
    round_ratio_exec(2 * (radius as i64), 5) as i32
}

/// Where a die lies about the centre of its hexagon, and where a dot lies on its
/// die.
#[derive(Debug, Copy, Clone, PartialEq, Eq, Structural)]
pub enum Position {
    TopLeft,
    TopRight,
    BottomLeft,
    BottomRight,
    Center,
}

impl Position {
    /// How far the square of a die of side `len` at this position lies from the
    /// centre of its hexagon, in sides to the right and down: a die in a corner
    /// touches the centre with its opposite corner, and the die in the middle lies
    /// half a side, rounded down, up and to the left.
    pub open spec fn square_offset(self, len: int) -> (int, int) {
        match self {
            Position::TopLeft => (-len, -len),
            Position::TopRight => (0, -len),
            Position::BottomLeft => (-len, 0),
            Position::BottomRight => (0, 0),
            Position::Center => (-(len / 2), -(len / 2)),
        }
    }

    /// Where the dot at this position lies on a die, in quarters of the side to the
    /// right and down from the die's top left corner.
    pub open spec fn dot_quarters(self) -> (int, int) {
        match self {
            Position::TopLeft => (1, 1),
            Position::TopRight => (3, 1),
            Position::BottomLeft => (1, 3),
            Position::BottomRight => (3, 3),
            Position::Center => (2, 2),
        }
    }
}

/// One die of a cell, ready to be drawn.
#[derive(Debug, Copy, Clone, PartialEq, Eq)]
pub struct DiceTemplate {
    square: Square,
}

impl View for DiceTemplate {
    type V = Square;

    closed spec fn view(&self) -> Square {
        self.square
    }
}

impl DiceTemplate {
    #[verifier::type_invariant]
    spec fn sized(self) -> bool {
        0 <= self.square.length
    }

    /// Whether the square of the die at `position` has a top left corner that an
    /// `i32` pair can name.
    pub open spec fn fits(hex_center: Point, hex_radius: int, position: Position) -> bool {
        let (dx, dy) = position.square_offset(dice_len(hex_radius));
        &&& i32::MIN <= hex_center.x + dx <= i32::MAX
        &&& i32::MIN <= hex_center.y + dy <= i32::MAX
    }

    /// Whether `new` can place the die: `fits`, found out.
    pub fn can_place(hex_center: &Point, hex_radius: u32, position: Position) -> (fits: bool)
        ensures
            fits == DiceTemplate::fits(*hex_center, hex_radius as int, position),
    {
        let len: i64 = dice_len_from_radius(hex_radius) as i64;
        let (dx, dy): (i64, i64) = match position {
            Position::TopLeft => (-len, -len),
            Position::TopRight => (0, -len),
            Position::BottomLeft => (-len, 0),
            Position::BottomRight => (0, 0),
            Position::Center => (-(len / 2), -(len / 2)),
        };
        on_surface(hex_center.x as i64 + dx) && on_surface(hex_center.y as i64 + dy)
    }

    /// The die at `position` on the hexagon of the given centre and radius.
    pub fn new(hex_center: &Point, hex_radius: u32, position: Position) -> (dice: Self)
        requires
            DiceTemplate::fits(*hex_center, hex_radius as int, position),
        ensures
            dice@.length == dice_len(hex_radius as int),
            dice@.top_left.x == hex_center.x + position.square_offset(
                dice_len(hex_radius as int),
            ).0,
            dice@.top_left.y == hex_center.y + position.square_offset(
                dice_len(hex_radius as int),
            ).1,
    {
        let len: i32 = dice_len_from_radius(hex_radius);
        let shift = match position {
            Position::TopLeft => Point::new(-len, -len),
            Position::TopRight => Point::new(0, -len),
            Position::BottomLeft => Point::new(-len, 0),
            Position::BottomRight => Point::new(0, 0),
            Position::Center => Point::new(-(len / 2), -(len / 2)),
        };
        let square_top_left = *hex_center + shift;
        DiceTemplate { square: Square { top_left: square_top_left, length: len } }
    }

    pub fn x(&self) -> (x: i32)
        ensures
            x == self@.top_left.x,
    {
        self.square.top_left.x()
    }

    pub fn y(&self) -> (y: i32)
        ensures
            y == self@.top_left.y,
    {
        self.square.top_left.y()
    }

    pub fn width(&self) -> (width: i32)
        ensures
            width == self@.length,
            width >= 0,
    {
        proof {
            use_type_invariant(&*self);
        }
        self.square.length
    }

    pub fn height(&self) -> (height: i32)
        ensures
            height == self@.length,
            height >= 0,
    {
        proof {
            use_type_invariant(&*self);
        }
        self.square.length
    }

    /// How far a quarter of the side is: the integer nearest to a quarter of it.
    pub open spec fn quarter(self) -> int {
        round_ratio(self@.length as int, 4)
    }

    /// Whether the centre of the dot at `position` is a pixel that an `i32` pair can
    /// name.
    pub open spec fn dot_fits(self, position: Position) -> bool {
        let (qx, qy) = position.dot_quarters();
        &&& i32::MIN <= self@.top_left.x + qx * self.quarter() <= i32::MAX
        &&& i32::MIN <= self@.top_left.y + qy * self.quarter() <= i32::MAX
    }

    /// Whether `dot` can place the dot: `dot_fits`, found out.
    pub fn can_dot(&self, position: Position) -> (fits: bool)
        ensures
            fits == self.dot_fits(position),
    {
        proof {
            use_type_invariant(&*self);
            lemma_round_ratio(self@.length as int, 4);
        }
        let pos_inc: i64 = round_ratio_exec(self.square.length as i64, 4);
        let (qx, qy): (i64, i64) = match position {
            Position::TopLeft => (1, 1),
            Position::TopRight => (3, 1),
            Position::BottomLeft => (1, 3),
            Position::BottomRight => (3, 3),
            Position::Center => (2, 2),
        };
        on_surface(self.square.top_left.x as i64 + qx * pos_inc) && on_surface(
            self.square.top_left.y as i64 + qy * pos_inc,
        )
    }

    /// The dot at `position` on the die: its radius is the integer nearest to a
    /// tenth of the side, and its centre lies as many quarters of the side from the
    /// top left corner as the position says.
    pub fn dot(&self, position: Position) -> (dot: Dot)
        requires
            self.dot_fits(position),
        ensures
            dot.radius == round_ratio(self@.length as int, 10),
            dot.center.x == self@.top_left.x + position.dot_quarters().0 * self.quarter(),
            dot.center.y == self@.top_left.y + position.dot_quarters().1 * self.quarter(),
    {
        proof {
            use_type_invariant(&*self);
            lemma_round_ratio(self@.length as int, 10);
            lemma_round_ratio(self@.length as int, 4);
        }
        let length: i64 = self.square.length as i64;
        let radius: u32 = round_ratio_exec(length, 10) as u32;
        let pos_inc: i64 = round_ratio_exec(length, 4);
        let tl = self.square.top_left;
        let (qx, qy): (i64, i64) = match position {
            Position::TopLeft => (1, 1),
            Position::TopRight => (3, 1),
            Position::BottomLeft => (1, 3),
            Position::BottomRight => (3, 3),
            Position::Center => (2, 2),
        };
        let point = Point::new(
            (tl.x as i64 + qx * pos_inc) as i32,
            (tl.y as i64 + qy * pos_inc) as i32,
        );
        Dot::new(point, radius)
    }
}

} // verus!
