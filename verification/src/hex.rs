//! One hexagon: its corners, the blank cell of a template and the cell as it is drawn.
use vstd::prelude::*;
use crate::arith::floor_sqrt3_exec;
use crate::arith::half_sqrt3;
use crate::arith::lemma_floor_sqrt3;
use crate::primitive::Colour;
use crate::primitive::Colours;
use crate::primitive::Point;

verus! {

/// How far the four slanted corners of a pointy-topped hexagon stand to the side of
/// its centre: the integer nearest to `radius * cos(30 deg)`.
pub open spec fn corner_reach(radius: int) -> int {
    half_sqrt3(radius)
}

/// How far the four slanted corners stand above or below the centre: the integer
/// nearest to `radius * sin(30 deg)`, half a pixel counting as a whole one.
pub open spec fn corner_rise(radius: int) -> int {
    (radius + 1) / 2
}

/// Where corner `corner` stands, seen from the centre. Corner `k` lies at the angle
/// `60 * k - 30` degrees, the y axis pointing down the screen; the corners repeat
/// after six.
pub open spec fn corner_offset(radius: int, corner: int) -> (int, int) {
    let k = corner % 6;
    if k == 0 {
        (corner_reach(radius), -corner_rise(radius))
    } else if k == 1 {
        (corner_reach(radius), corner_rise(radius))
    } else if k == 2 {
        (0, radius)
    } else if k == 3 {
        (-corner_reach(radius), corner_rise(radius))
    } else if k == 4 {
        (-corner_reach(radius), -corner_rise(radius))
    } else {
        (0, -radius)
    }
}

/// Whether the corner is a pixel that an `i32` pair can name.
pub open spec fn corner_fits(center: Point, radius: int, corner: int) -> bool {
    &&& i32::MIN <= center.x + corner_offset(radius, corner).0 <= i32::MAX
    &&& i32::MIN <= center.y + corner_offset(radius, corner).1 <= i32::MAX
}

/// The corner as a point, where it fits.
pub open spec fn corner_point(center: Point, radius: int, corner: int) -> Point {
    Point {
        x: (center.x + corner_offset(radius, corner).0) as i32,
        y: (center.y + corner_offset(radius, corner).1) as i32,
    }
}

/// Whether all six corners of the hexagon are pixels that `i32` pairs can name.
pub open spec fn hexagon_fits(center: Point, radius: int) -> bool {
    &&& i32::MIN <= center.x - corner_reach(radius)
    &&& center.x + corner_reach(radius) <= i32::MAX
    &&& i32::MIN <= center.y - radius
    &&& center.y + radius <= i32::MAX
}

/// The slanted corners stand no farther out than the radius.
pub proof fn lemma_corner_reach_bounds(radius: int)
    requires
        0 <= radius,
    ensures
        0 <= corner_reach(radius) <= radius,
        0 <= corner_rise(radius) <= radius,
        radius > 0 ==> corner_reach(radius) > 0,
{
    lemma_floor_sqrt3(radius);
}

/// A hexagon whose circle lies on the surface fits, with every corner.
pub proof fn lemma_hexagon_within_radius(center: Point, radius: int)
    requires
        0 <= radius,
        i32::MIN <= center.x - radius,
        center.x + radius <= i32::MAX,
        i32::MIN <= center.y - radius,
        center.y + radius <= i32::MAX,
    ensures
        hexagon_fits(center, radius),
        forall|corner: int| corner_fits(center, radius, corner),
{
    lemma_corner_reach_bounds(radius);
}

/// A hexagon fits exactly when each of its corners does.
pub proof fn lemma_hexagon_fits(center: Point, radius: int)
    requires
        0 <= radius,
    ensures
        hexagon_fits(center, radius) <==> forall|corner: int|
            0 <= corner < 6 ==> corner_fits(center, radius, corner),
{
    lemma_corner_reach_bounds(radius);
    if hexagon_fits(center, radius) {
        assert forall|corner: int| 0 <= corner < 6 implies corner_fits(
            center,
            radius,
            corner,
        ) by {}
    }
    if forall|corner: int| 0 <= corner < 6 ==> corner_fits(center, radius, corner) {
        assert(corner_fits(center, radius, 0));
        assert(corner_fits(center, radius, 2));
        assert(corner_fits(center, radius, 3));
        assert(corner_fits(center, radius, 5));
    }
}

/// The cosine of corner `corner`'s angle, `60 * corner - 30` degrees, counted in
/// units of `sqrt(3) / 2`.
pub open spec fn cosine_units(corner: int) -> int {
    let k = corner % 6;
    if k == 0 || k == 1 {
        1
    } else if k == 3 || k == 4 {
        -1
    } else {
        0
    }
}

/// Twice the sine of corner `corner`'s angle, `60 * corner - 30` degrees.
pub open spec fn sine_units(corner: int) -> int {
    let k = corner % 6;
    if k == 0 || k == 4 {
        -1
    } else if k == 1 || k == 3 {
        1
    } else if k == 2 {
        2
    } else {
        -2
    }
}

/// The corners of a hexagon lie on the circle of its radius, and sixty degrees apart.
///
/// For a radius above zero and any corner number: the corner's distance from the
/// centre differs from the radius by at most one pixel, and its offset is the pair of
/// integers nearest to `(radius * cos a, radius * sin a)` for `a = 60 * corner - 30`
/// degrees. The cosine is `cosine_units * sqrt(3) / 2`, and that `reach` is nearest to
/// `sqrt(3) / 2 * radius` is stated over squares; the sine is `sine_units / 2`.
pub proof fn lemma_corner_on_circle(radius: int, corner: int)
    requires
        radius > 0,
    ensures
        ({
            let (dx, dy) = corner_offset(radius, corner);
            let reach = corner_reach(radius);
            &&& (radius - 1) * (radius - 1) <= dx * dx + dy * dy
            &&& dx * dx + dy * dy <= (radius + 1) * (radius + 1)
            &&& dx == cosine_units(corner) * reach
            &&& (2 * reach - 1) * (2 * reach - 1) <= 3 * radius * radius
            &&& 3 * radius * radius < (2 * reach + 1) * (2 * reach + 1)
            &&& -1 <= 2 * dy - sine_units(corner) * radius <= 1
        }),
{
    lemma_floor_sqrt3(radius);
    let f = crate::arith::floor_sqrt3(radius);
    let reach = corner_reach(radius);
    let rise = corner_rise(radius);
    let n = 3 * radius * radius;
    assert(2 * reach - 1 <= f <= 2 * reach);
    assert(1 <= reach);
    crate::arith::lemma_square_monotone(2 * reach - 1, f);
    crate::arith::lemma_square_monotone(f + 1, 2 * reach + 1);
    let a = 2 * reach;
    let b = 2 * rise;
    assert(radius <= b <= radius + 1);
    assert(a <= 2 * radius) by (nonlinear_arith)
        requires
            (a - 1) * (a - 1) <= 3 * radius * radius,
            radius > 0,
            a >= 1,
    ;
    let lo = (radius - 1) * (radius - 1);
    let mid = radius * radius;
    let hi = (radius + 1) * (radius + 1);
    let slanted = reach * reach + rise * rise;
    assert(lo <= slanted <= hi) by (nonlinear_arith)
        requires
            (a - 1) * (a - 1) <= 3 * radius * radius,
            3 * radius * radius < (a + 1) * (a + 1),
            1 <= a <= 2 * radius,
            radius <= b <= radius + 1,
            radius > 0,
            a == 2 * reach,
            b == 2 * rise,
            lo == (radius - 1) * (radius - 1),
            hi == (radius + 1) * (radius + 1),
            slanted == reach * reach + rise * rise,
    ;
    assert(lo <= mid <= hi) by (nonlinear_arith)
        requires
            radius > 0,
            lo == (radius - 1) * (radius - 1),
            mid == radius * radius,
            hi == (radius + 1) * (radius + 1),
    ;
    assert((-reach) * (-reach) == reach * reach && (-rise) * (-rise) == rise * rise && (-radius)
        * (-radius) == radius * radius && 0 * 0 == 0int) by (nonlinear_arith);
    let (dx, dy) = corner_offset(radius, corner);
    let k = corner % 6;
    if k == 2 || k == 5 {
        assert(dx * dx + dy * dy == mid);
    } else {
        assert(dx * dx + dy * dy == slanted);
    }
    let su = sine_units(corner);
    assert(su * radius == if su == 1 {
        radius
    } else if su == -1 {
        -radius
    } else if su == 2 {
        2 * radius
    } else {
        -2 * radius
    }) by (nonlinear_arith)
        requires
            su == 1 || su == -1 || su == 2 || su == -2,
    ;
    let cu = cosine_units(corner);
    assert(cu * reach == if cu == 1 {
        reach
    } else if cu == -1 {
        -reach
    } else {
        0
    }) by (nonlinear_arith)
        requires
            cu == 1 || cu == -1 || cu == 0,
    ;
    assert(-1 <= 2 * dy - su * radius <= 1);
}

/// How far the slanted corners of a hexagon of the given radius stand to the side
/// of its centre.
pub fn reach_of(radius: u32) -> (reach: i64)
    ensures
        reach == corner_reach(radius as int),
        0 <= reach <= radius,
{
    proof {
        lemma_corner_reach_bounds(radius as int);
        lemma_floor_sqrt3(radius as int);
    }
    (floor_sqrt3_exec(radius as i64) + 1) / 2
}

/// Where corner `corner` of a hexagon of the given radius stands, seen from the
/// centre.
fn offset_of(radius: u32, corner: u8) -> (offset: (i64, i64))
    ensures
        offset.0 == corner_offset(radius as int, corner as int).0,
        offset.1 == corner_offset(radius as int, corner as int).1,
        -radius <= offset.0 <= radius,
        -radius <= offset.1 <= radius,
{
    let r: i64 = radius as i64;
    let reach: i64 = reach_of(radius);
    let rise: i64 = (r + 1) / 2;
    let k: u8 = corner % 6;
    let dx: i64 = if k == 0 || k == 1 {
        reach
    } else if k == 3 || k == 4 {
        -reach
    } else {
        0
    };
    let dy: i64 = if k == 1 || k == 3 {
        rise
    } else if k == 0 || k == 4 {
        -rise
    } else if k == 2 {
        r
    } else {
        -r
    };
    (dx, dy)
}

/// Whether a value lies among those of an `i32`.
pub fn on_surface(value: i64) -> (fits: bool)
    ensures
        fits == (i32::MIN <= value <= i32::MAX),
{
    -0x8000_0000 <= value && value <= 0x7fff_ffff
}

/// Whether the corner is a pixel of the surface, so that `pointy_hex_corner` can
/// name it.
pub fn corner_on_surface(center: &Point, radius: u32, corner: u8) -> (fits: bool)
    ensures
        fits == corner_fits(*center, radius as int, corner as int),
{
    let (dx, dy) = offset_of(radius, corner);
    on_surface(center.x as i64 + dx) && on_surface(center.y as i64 + dy)
}

/// Whether all six corners of the hexagon are pixels of the surface, so that
/// `Blank::new` can make the hexagon.
pub fn hexagon_on_surface(center: &Point, radius: u32) -> (fits: bool)
    ensures
        fits == hexagon_fits(*center, radius as int),
{
    let reach: i64 = reach_of(radius);
    let r: i64 = radius as i64;
    on_surface(center.x as i64 - reach) && on_surface(center.x as i64 + reach) && on_surface(
        center.y as i64 - r,
    ) && on_surface(center.y as i64 + r)
}

/// One corner of the pointy-topped hexagon of the given centre and radius.
///
/// The corner has to be a pixel of the surface, which `corner_on_surface` finds out
/// and `lemma_hexagon_within_radius` shows of a hexagon whose circle lies on the
/// surface. What `corner_reach` is for a given radius, `lemma_half_sqrt3_is` tells.
pub fn pointy_hex_corner(center: &Point, radius: u32, corner: u8) -> (p: Point)
    requires
        corner_fits(*center, radius as int, corner as int),
    ensures
        p == corner_point(*center, radius as int, corner as int),
{
    let (dx, dy) = offset_of(radius, corner);
    Point::new((center.x as i64 + dx) as i32, (center.y as i64 + dy) as i32)
}

/// The six corners of a hexagon in the order a cell keeps them: corner 1 first and
/// corner 6, which is corner 0 again, last.
pub open spec fn hexagon_corners(center: Point, radius: int) -> Seq<Point> {
    Seq::new(6, |i: int| corner_point(center, radius, i + 1))
}

/// What a blank cell holds.
pub ghost struct BlankView {
    pub corners: Seq<Point>,
    pub center: Point,
}

/// A hexagon with nothing on it: one cell of a template.
#[derive(Debug, Copy, Clone, PartialEq, Eq)]
pub struct Blank {
    points: [Point; 6],
    center: Point,
}

impl View for Blank {
    type V = BlankView;

    closed spec fn view(&self) -> BlankView {
        BlankView { corners: self.points@, center: self.center }
    }
}

impl Blank {
    /// The blank hexagon of the given centre and radius, all of whose corners have
    /// to be pixels of the surface: `hexagon_on_surface` finds that out.
    pub fn new(center: &Point, radius: u32) -> (blank: Self)
        requires
            hexagon_fits(*center, radius as int),
        ensures
            blank@.center == *center,
            blank@.corners == hexagon_corners(*center, radius as int),
    {
        proof {
            lemma_hexagon_fits(*center, radius as int);
            assert(corner_fits(*center, radius as int, 0));
            assert(corner_fits(*center, radius as int, 1));
            assert(corner_fits(*center, radius as int, 2));
            assert(corner_fits(*center, radius as int, 3));
            assert(corner_fits(*center, radius as int, 4));
            assert(corner_fits(*center, radius as int, 5));
        }
        let blank = Blank {
            points: [
                pointy_hex_corner(center, radius, 1),
                pointy_hex_corner(center, radius, 2),
                pointy_hex_corner(center, radius, 3),
                pointy_hex_corner(center, radius, 4),
                pointy_hex_corner(center, radius, 5),
                pointy_hex_corner(center, radius, 6),
            ],
            center: *center,
        };
        assert(blank@.corners =~= hexagon_corners(*center, radius as int));
        blank
    }

    pub fn points(&self) -> (corners: &[Point])
        ensures
            corners@ == self@.corners,
            corners@.len() == 6,
    {
        self.points.as_slice()
    }

    pub fn center(&self) -> (center: Point)
        ensures
            center == self@.center,
    {
        self.center
    }
}

/// What the selection has made of a cell.
#[derive(Debug, Copy, Clone, PartialEq, Eq, Structural)]
pub enum Danger {
    Safe,
    Attacking,
    Threatened,
}

/// What a drawn cell holds. Its colours are those of its player.
pub ghost struct DetailView {
    pub corners: Seq<Point>,
    pub center: Point,
    pub player_number: usize,
    pub danger: Danger,
    pub dice: u8,
}

impl DetailView {
    /// The colour the cell is drawn in: of its player's three, the one that goes
    /// with its danger.
    pub open spec fn colour(self) -> Colour {
        let colours = Colours::of_player(self.player_number as int);
        match self.danger {
            Danger::Safe => colours.unselected_colour,
            Danger::Attacking => colours.selected_colour,
            Danger::Threatened => colours.threatened_colour,
        }
    }

    /// The same cell with another danger.
    pub open spec fn with_danger(self, danger: Danger) -> DetailView {
        DetailView { danger, ..self }
    }
}

/// A hexagon with all that is needed to draw it: where it is, whose it is, how many
/// dice lie on it, and whether the selection has marked it.
#[derive(Debug, Copy, Clone, PartialEq, Eq)]
pub struct Detail {
    points: [Point; 6],
    center: Point,
    colours: Colours,
    player_number: usize,
    danger: Danger,
    dice: u8,
}

impl View for Detail {
    type V = DetailView;

    closed spec fn view(&self) -> DetailView {
        DetailView {
            corners: self.points@,
            center: self.center,
            player_number: self.player_number,
            danger: self.danger,
            dice: self.dice,
        }
    }
}

impl Detail {
    #[verifier::type_invariant]
    spec fn coloured_by_player(self) -> bool {
        self.colours == Colours::of_player(self.player_number as int)
    }

    /// A safe cell with the first six of the given points as its corners.
    pub fn new(points: &[Point], center: Point, player_number: usize, dice: u8) -> (detail: Self)
        requires
            points@.len() >= 6,
        ensures
            detail@ == (DetailView {
                corners: points@.take(6),
                center,
                player_number,
                danger: Danger::Safe,
                dice,
            }),
    {
        let detail = Detail {
            points: [points[0], points[1], points[2], points[3], points[4], points[5]],
            center,
            colours: Colours::from_player_number(player_number),
            player_number,
            danger: Danger::Safe,
            dice,
        };
        assert(detail@.corners =~= points@.take(6));
        detail
    }

    pub fn center(&self) -> (center: Point)
        ensures
            center == self@.center,
    {
        self.center
    }

    pub fn set_safe(&mut self)
        ensures
            final(self)@ == old(self)@.with_danger(Danger::Safe),
    {
        proof {
            use_type_invariant(&*self);
        }
        self.danger = Danger::Safe;
    }

    pub fn set_attacking(&mut self)
        ensures
            final(self)@ == old(self)@.with_danger(Danger::Attacking),
    {
        proof {
            use_type_invariant(&*self);
        }
        self.danger = Danger::Attacking;
    }

    pub fn set_threatened(&mut self)
        ensures
            final(self)@ == old(self)@.with_danger(Danger::Threatened),
    {
        proof {
            use_type_invariant(&*self);
        }
        self.danger = Danger::Threatened;
    }

    /// The corner at `index`; the indices go round the six corners.
    pub fn point(&self, index: usize) -> (corner: Point)
        ensures
            self@.corners.len() == 6,
            corner == self@.corners[index as int % 6],
    {
        let index: usize = index % 6;
        self.points[index]
    }

    pub fn selected_colour(&self) -> (colour: Colour)
        ensures
            colour == Colours::of_player(self@.player_number as int).selected_colour,
    {
        proof {
            use_type_invariant(&*self);
        }
        self.colours.selected_colour
    }

    pub fn unselected_colour(&self) -> (colour: Colour)
        ensures
            colour == Colours::of_player(self@.player_number as int).unselected_colour,
    {
        proof {
            use_type_invariant(&*self);
        }
        self.colours.unselected_colour
    }

    pub fn threatened_colour(&self) -> (colour: Colour)
        ensures
            colour == Colours::of_player(self@.player_number as int).threatened_colour,
    {
        proof {
            use_type_invariant(&*self);
        }
        self.colours.threatened_colour
    }

    /// The colour to draw the cell in.
    pub fn colour(&self) -> (colour: Colour)
        ensures
            colour == self@.colour(),
    {
        proof {
            use_type_invariant(&*self);
        }
        match self.danger {
            Danger::Safe => self.colours.unselected_colour,
            Danger::Attacking => self.colours.selected_colour,
            Danger::Threatened => self.colours.threatened_colour,
        }
    }

    pub fn dice(&self) -> (dice: u8)
        ensures
            dice == self@.dice,
    {
        self.dice
    }

    pub fn danger(&self) -> (danger: Danger)
        ensures
            danger == self@.danger,
    {
        self.danger
    }

    pub fn player_number(&self) -> (number: usize)
        ensures
            number == self@.player_number,
    {
        self.player_number
    }
}

} // verus!
