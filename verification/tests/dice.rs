use hex_board::dice::dice_len_from_radius;
use hex_board::dice::Dot;
use hex_board::DiceTemplate;
use hex_board::Point;
use hex_board::Position;

#[test]
fn side_of_a_die() {
    assert_eq!(dice_len_from_radius(0), 0);
    assert_eq!(dice_len_from_radius(1), 0);
    assert_eq!(dice_len_from_radius(2), 1);
    assert_eq!(dice_len_from_radius(3), 1);
    assert_eq!(dice_len_from_radius(7), 3);
    assert_eq!(dice_len_from_radius(20), 8);
    assert_eq!(dice_len_from_radius(25), 10);
    assert_eq!(dice_len_from_radius(40), 16);
    assert_eq!(dice_len_from_radius(u32::MAX), 1717986918);
}

#[test]
fn dice_around_the_center_of_a_hexagon() {
    let center = Point::new(100, 200);
    let top_left = DiceTemplate::new(&center, 25, Position::TopLeft);
    assert_eq!((top_left.x(), top_left.y()), (90, 190));
    let top_right = DiceTemplate::new(&center, 25, Position::TopRight);
    assert_eq!((top_right.x(), top_right.y()), (100, 190));
    let bottom_left = DiceTemplate::new(&center, 25, Position::BottomLeft);
    assert_eq!((bottom_left.x(), bottom_left.y()), (90, 200));
    let bottom_right = DiceTemplate::new(&center, 25, Position::BottomRight);
    assert_eq!((bottom_right.x(), bottom_right.y()), (100, 200));
    let middle = DiceTemplate::new(&center, 25, Position::Center);
    assert_eq!((middle.x(), middle.y()), (95, 195));
    assert_eq!(middle.width(), 10);
    assert_eq!(middle.height(), 10);
}

#[test]
fn die_in_the_middle_with_an_odd_side() {
    let center = Point::new(0, 0);
    let middle = DiceTemplate::new(&center, 7, Position::Center);
    assert_eq!(middle.width(), 3);
    assert_eq!((middle.x(), middle.y()), (-1, -1));
}

#[test]
fn dots_on_a_die() {
    let center = Point::new(100, 200);
    let dice = DiceTemplate::new(&center, 40, Position::BottomRight);
    assert_eq!(dice.width(), 16);
    let top_left = dice.dot(Position::TopLeft);
    assert_eq!((top_left.x(), top_left.y(), top_left.radius()), (104, 204, 2));
    let top_right = dice.dot(Position::TopRight);
    assert_eq!((top_right.x(), top_right.y(), top_right.radius()), (112, 204, 2));
    let bottom_left = dice.dot(Position::BottomLeft);
    assert_eq!((bottom_left.x(), bottom_left.y(), bottom_left.radius()), (104, 212, 2));
    let bottom_right = dice.dot(Position::BottomRight);
    assert_eq!((bottom_right.x(), bottom_right.y(), bottom_right.radius()), (112, 212, 2));
    let middle = dice.dot(Position::Center);
    assert_eq!((middle.x(), middle.y(), middle.radius()), (108, 208, 2));
}

#[test]
fn dots_on_a_die_of_side_ten_round_half_up() {
    let center = Point::new(0, 0);
    let dice = DiceTemplate::new(&center, 25, Position::BottomRight);
    assert_eq!(dice.width(), 10);
    let dot = dice.dot(Position::TopRight);
    assert_eq!(dot.radius(), 1);
    assert_eq!((dot.x(), dot.y()), (9, 3));
}

#[test]
fn dots_on_the_smallest_dice() {
    let center = Point::new(5, 5);
    let none = DiceTemplate::new(&center, 1, Position::TopLeft);
    assert_eq!(none.width(), 0);
    assert_eq!(none.dot(Position::BottomRight), Dot::new(Point::new(5, 5), 0));
    let one = DiceTemplate::new(&center, 2, Position::TopLeft);
    assert_eq!(one.width(), 1);
    assert_eq!((one.x(), one.y()), (4, 4));
    assert_eq!(one.dot(Position::BottomRight), Dot::new(Point::new(4, 4), 0));
}

#[test]
fn dot_holds_its_center_and_radius() {
    let dot = Dot::new(Point::new(1, 2), 3);
    assert_eq!(dot.x(), 1);
    assert_eq!(dot.y(), 2);
    assert_eq!(dot.radius(), 3);
}
