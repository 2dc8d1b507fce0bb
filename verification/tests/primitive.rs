use hex_board::primitive::Axial;
use hex_board::primitive::Colour;
use hex_board::primitive::Colours;
use hex_board::primitive::Point;

#[test]
fn point_holds_its_coordinates() {
    let p = Point::new(3, -4);
    assert_eq!(p.x(), 3);
    assert_eq!(p.y(), -4);
    assert_eq!(p, Point { x: 3, y: -4 });
}

#[test]
fn point_default_is_the_origin() {
    assert_eq!(Point::default(), Point::new(0, 0));
}

#[test]
fn points_add_and_subtract() {
    let a = Point::new(3, -4);
    let b = Point::new(10, 20);
    assert_eq!(a + b, Point::new(13, 16));
    assert_eq!(a + &b, Point::new(13, 16));
    assert_eq!(a - b, Point::new(-7, -24));
    assert_eq!(a - &b, Point::new(-7, -24));
    assert_eq!(b - b, Point::default());
}

#[test]
fn points_scale() {
    assert_eq!(Point::new(3, -4) * 5, Point::new(15, -20));
    assert_eq!(Point::new(3, -4) * 0, Point::new(0, 0));
    assert_eq!(Point::new(3, -4) * -1, Point::new(-3, 4));
}

#[test]
fn points_at_the_limits_of_the_surface() {
    let far = Point::new(i32::MAX - 1, i32::MIN + 1);
    assert_eq!(far + Point::new(1, -1), Point::new(i32::MAX, i32::MIN));
    assert_eq!(Point::new(i32::MAX, i32::MIN) - Point::new(1, -1), far);
}

#[test]
fn axial_holds_its_coordinates() {
    let a = Axial::new(2, -1);
    assert_eq!(a.column(), 2);
    assert_eq!(a.row(), -1);
    assert_eq!(a, Axial { column: 2, row: -1 });
    assert_ne!(a, Axial::new(-1, 2));
}

#[test]
fn colour_names() {
    assert_eq!(Colour::Black.to_string(), "black");
    assert_eq!(Colour::White.to_string(), "white");
    assert_eq!(Colour::LightBlue.to_string(), "lightblue");
    assert_eq!(Colour::Blue.to_string(), "blue");
    assert_eq!(Colour::DarkBlue.to_string(), "darkblue");
    assert_eq!(Colour::LightGreen.to_string(), "lightgreen");
    assert_eq!(Colour::Green.to_string(), "green");
    assert_eq!(Colour::DarkGreen.to_string(), "darkgreen");
    assert_eq!(Colour::LightRed.to_string(), "lightred");
    assert_eq!(Colour::Red.to_string(), "red");
    assert_eq!(Colour::DarkRed.to_string(), "darkred");
    assert_eq!(Colour::LightBrown.to_string(), "lightbrown");
    assert_eq!(Colour::Brown.to_string(), "brown");
    assert_eq!(Colour::DarkBrown.to_string(), "darkbrown");
    assert_eq!(Colour::LightYellow.to_string(), "lightyellow");
    assert_eq!(Colour::Yellow.to_string(), "yellow");
    assert_eq!(Colour::Orange.to_string(), "orange");
    assert_eq!(Colour::MediumPurple.to_string(), "mediumpurple");
    assert_eq!(Colour::Purple.to_string(), "purple");
    assert_eq!(Colour::RebeccaPurple.to_string(), "rebeccapurple");
}

#[test]
fn colours_of_the_players() {
    assert_eq!(
        Colours::from_player_number(0),
        Colours::new(Colour::Blue, Colour::DarkBlue, Colour::LightBlue)
    );
    assert_eq!(
        Colours::from_player_number(1),
        Colours::new(Colour::Green, Colour::DarkGreen, Colour::LightGreen)
    );
    assert_eq!(
        Colours::from_player_number(2),
        Colours::new(Colour::Red, Colour::DarkRed, Colour::LightRed)
    );
    assert_eq!(
        Colours::from_player_number(3),
        Colours::new(Colour::Brown, Colour::DarkBrown, Colour::LightBrown)
    );
    assert_eq!(
        Colours::from_player_number(4),
        Colours::new(Colour::Yellow, Colour::Orange, Colour::LightYellow)
    );
    assert_eq!(
        Colours::from_player_number(5),
        Colours::new(Colour::Purple, Colour::RebeccaPurple, Colour::MediumPurple)
    );
}

#[test]
fn colours_go_round_after_six_players() {
    let mut number: usize = 0;
    while number < 6 {
        assert_eq!(Colours::from_player_number(number + 6), Colours::from_player_number(number));
        assert_eq!(Colours::from_player_number(number + 600), Colours::from_player_number(number));
        number += 1;
    }
    assert_eq!(Colours::from_player_number(usize::MAX), Colours::from_player_number(usize::MAX % 6));
}

#[test]
fn colours_holds_its_three_colours() {
    let colours = Colours::new(Colour::Red, Colour::DarkRed, Colour::LightRed);
    assert_eq!(colours.unselected_colour, Colour::Red);
    assert_eq!(colours.selected_colour, Colour::DarkRed);
    assert_eq!(colours.threatened_colour, Colour::LightRed);
}
