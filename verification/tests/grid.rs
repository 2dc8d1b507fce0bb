use hex_board::board::Board;
use hex_board::board::Tile;
use hex_board::grid::generate_template;
use hex_board::grid::generate_tessellation;
use hex_board::grid::Template;
use hex_board::hex::Blank;
use hex_board::hex::Danger;
use hex_board::hex::Detail;
use hex_board::primitive::Axial;
use hex_board::primitive::Colour;
use hex_board::Point;
use hex_board::Tessellation;

fn board_of(columns: i32, rows: i32) -> Board {
    let mut tiles = Vec::new();
    let mut row = 0;
    while row < rows {
        let mut column = 0;
        while column < columns {
            let place = (row * columns + column) as usize;
            tiles.push(Tile::new(Axial::new(column - row / 2, row), place % 3 + 1, (place % 5) as u8 + 1));
            column += 1;
        }
        row += 1;
    }
    Board::new(tiles, 1, 0, 0)
}

fn centers(tessellation: &Tessellation) -> Vec<(i32, i32)> {
    let mut all = Vec::new();
    let mut i = 0;
    while i < tessellation.len() {
        let center = tessellation.hex(i).center();
        all.push((center.x(), center.y()));
        i += 1;
    }
    all
}

#[test]
fn template_has_columns_times_rows_cells() {
    let start = Point::new(0, 0);
    assert_eq!(generate_template(1, 1, start, 10).len(), 1);
    assert_eq!(generate_template(3, 2, start, 10).len(), 6);
    assert_eq!(generate_template(2, 3, start, 10).len(), 6);
    assert_eq!(generate_template(7, 5, start, 10).len(), 35);
    assert_eq!(generate_template(1, 9, start, 10).len(), 9);
    assert_eq!(generate_template(9, 1, start, 10).len(), 9);
}

#[test]
fn template_keeps_its_radius() {
    assert_eq!(generate_template(2, 2, Point::new(0, 0), 17).radius(), 17);
    assert_eq!(generate_template(2, 2, Point::new(0, 0), 0).radius(), 0);
}

#[test]
fn template_cells_come_row_after_row() {
    let template = generate_template(3, 3, Point::new(50, 60), 20);
    let tessellation = generate_tessellation(&template, &board_of(3, 3));
    assert_eq!(
        centers(&tessellation),
        vec![
            (50, 60),
            (85, 60),
            (120, 60),
            (67, 90),
            (102, 90),
            (137, 90),
            (50, 120),
            (85, 120),
            (120, 120)
        ]
    );
}

#[test]
fn template_rows_of_a_kind_lie_one_and_a_half_heights_apart() {
    let template = generate_template(2, 4, Point::new(0, 0), 7);
    let tessellation = generate_tessellation(&template, &board_of(2, 4));
    assert_eq!(
        centers(&tessellation),
        vec![(0, 0), (12, 0), (6, 11), (18, 11), (0, 21), (12, 21), (6, 32), (18, 32)]
    );
}

#[test]
fn template_cells_have_the_corners_of_their_centers() {
    let template = generate_template(3, 3, Point::new(50, 60), 20);
    let tessellation = generate_tessellation(&template, &board_of(3, 3));
    let mut i = 0;
    while i < 9 {
        let cell = tessellation.hex(i);
        let blank = Blank::new(&cell.center(), 20);
        let mut k = 0;
        while k < 6 {
            assert_eq!(cell.point(k), blank.points()[k]);
            k += 1;
        }
        i += 1;
    }
    let first = tessellation.hex(0);
    assert_eq!(first.point(0), Point::new(67, 70));
    assert_eq!(first.point(1), Point::new(50, 80));
    assert_eq!(first.point(2), Point::new(33, 70));
    assert_eq!(first.point(3), Point::new(33, 50));
    assert_eq!(first.point(4), Point::new(50, 40));
    assert_eq!(first.point(5), Point::new(67, 50));
}

#[test]
fn centers_of_cells_convert_back_to_their_cells() {
    let radius: u32 = 20;
    let columns: u32 = 12;
    let rows: u32 = 9;
    let start = Point::new(300, -40);
    let template = generate_template(columns, rows, start, radius);
    let tessellation = generate_tessellation(&template, &board_of(columns as i32, rows as i32));
    let origin = tessellation.start_hex_center();
    assert_eq!(origin, start);
    let mut row: i32 = 0;
    while row < rows as i32 {
        let mut column: i32 = 0;
        while column < columns as i32 {
            let center = tessellation.hex((row * columns as i32 + column) as usize).center();
            let cell = (center - origin).hexagon_axial(radius);
            assert_eq!(cell, Axial::new(column - row / 2, row));
            column += 1;
        }
        row += 1;
    }
}

#[test]
fn centers_convert_back_in_every_column_below_the_width() {
    let mut radius: u32 = 1;
    while radius < 60 {
        let width = generate_tessellation(
            &generate_template(2, 1, Point::new(0, 0), radius),
            &board_of(2, 1),
        )
        .hex(1)
        .center()
        .x();
        if width >= 2 {
            let columns = width as u32;
            let template = generate_template(columns, 4, Point::new(0, 0), radius);
            let tessellation = generate_tessellation(&template, &board_of(columns as i32, 4));
            let mut row: i32 = 0;
            while row < 4 {
                let mut column: i32 = 0;
                while column < columns as i32 {
                    let center = tessellation.hex((row * columns as i32 + column) as usize).center();
                    assert_eq!(center.hexagon_axial(radius), Axial::new(column - row / 2, row));
                    column += 1;
                }
                row += 1;
            }
        }
        radius += 1;
    }
}

#[test]
fn a_center_at_the_column_of_the_width_may_convert_to_a_neighbour() {
    let template = generate_template(4, 2, Point::new(0, 0), 2);
    let tessellation = generate_tessellation(&template, &board_of(4, 2));
    let center = tessellation.hex(7).center();
    assert_eq!(center, Point::new(10, 3));
    assert_eq!(center.hexagon_axial(2), Axial::new(2, 1));
    assert_eq!(tessellation.hex(6).center().hexagon_axial(2), Axial::new(2, 1));
}

#[test]
fn a_center_far_along_a_row_of_small_cells_converts_to_a_neighbour() {
    let template = generate_template(5, 1, Point::new(0, 0), 1);
    let tessellation = generate_tessellation(&template, &board_of(5, 1));
    let center = tessellation.hex(4).center();
    assert_eq!(center, Point::new(8, 0));
    assert_eq!(center.hexagon_axial(1), Axial::new(5, 0));
}

#[test]
fn template_of_given_blanks() {
    let blanks = vec![
        Blank::new(&Point::new(0, 0), 5),
        Blank::new(&Point::new(9, 0), 5),
    ];
    let template = Template::new(2, 1, 5, blanks.as_slice());
    assert_eq!(template.len(), 2);
    assert_eq!(template.radius(), 5);
    let copy = template.clone();
    assert_eq!(copy, template);
    let tessellation = generate_tessellation(&template, &board_of(2, 1));
    assert_eq!(centers(&tessellation), vec![(0, 0), (9, 0)]);
}

#[test]
fn tessellation_is_as_long_as_template_and_board() {
    let template = generate_template(4, 3, Point::new(10, 10), 15);
    let board = board_of(4, 3);
    let tessellation = generate_tessellation(&template, &board);
    assert_eq!(tessellation.len(), 12);
    assert_eq!(tessellation.len(), template.len());
    assert_eq!(tessellation.len(), board.len());
    assert_eq!(tessellation.radius(), 15);
}

#[test]
fn tessellation_takes_owner_and_dice_from_the_board() {
    let template = generate_template(3, 2, Point::new(0, 0), 10);
    let tessellation = generate_tessellation(&template, &board_of(3, 2));
    let mut i = 0;
    while i < 6 {
        let cell = tessellation.hex(i);
        assert_eq!(cell.player_number(), i % 3 + 1);
        assert_eq!(cell.dice(), (i % 5) as u8 + 1);
        assert_eq!(cell.danger(), Danger::Safe);
        i += 1;
    }
    assert_eq!(tessellation.hex(0).colour(), Colour::Green);
    assert_eq!(tessellation.hex(1).colour(), Colour::Red);
    assert_eq!(tessellation.hex(2).colour(), Colour::Brown);
}

#[test]
fn tessellation_indices_go_round() {
    let template = generate_template(3, 2, Point::new(0, 0), 10);
    let tessellation = generate_tessellation(&template, &board_of(3, 2));
    assert_eq!(tessellation.hex(6), tessellation.hex(0));
    assert_eq!(tessellation.hex(7), tessellation.hex(1));
    assert_eq!(tessellation.hex(605), tessellation.hex(5));
    assert_eq!(tessellation.hex(usize::MAX), tessellation.hex(usize::MAX % 6));
    assert_ne!(tessellation.hex(6), tessellation.hex(1));
}

#[test]
fn tessellation_checked_access_stops_at_the_end() {
    let template = generate_template(3, 2, Point::new(0, 0), 10);
    let tessellation = generate_tessellation(&template, &board_of(3, 2));
    assert_eq!(tessellation.hex_checked(0), Some(tessellation.hex(0)));
    assert_eq!(tessellation.hex_checked(5), Some(tessellation.hex(5)));
    assert_eq!(tessellation.hex_checked(6), None);
    assert_eq!(tessellation.hex_checked(usize::MAX), None);
}

#[test]
fn tessellation_marks_one_cell_and_no_other() {
    let template = generate_template(3, 2, Point::new(0, 0), 10);
    let before = generate_tessellation(&template, &board_of(3, 2));
    let mut tessellation = before.clone();
    tessellation.set_attacking(2);
    tessellation.set_threatened(4);
    let mut i = 0;
    while i < 6 {
        let expected = if i == 2 {
            Danger::Attacking
        } else if i == 4 {
            Danger::Threatened
        } else {
            Danger::Safe
        };
        assert_eq!(tessellation.hex(i).danger(), expected);
        assert_eq!(tessellation.hex(i).center(), before.hex(i).center());
        assert_eq!(tessellation.hex(i).dice(), before.hex(i).dice());
        assert_eq!(tessellation.hex(i).player_number(), before.hex(i).player_number());
        i += 1;
    }
    tessellation.set_safe(2);
    tessellation.set_safe(4);
    assert_eq!(tessellation, before);
}

#[test]
fn tessellation_marks_go_round_too() {
    let template = generate_template(3, 2, Point::new(0, 0), 10);
    let mut tessellation = generate_tessellation(&template, &board_of(3, 2));
    tessellation.set_threatened(8);
    assert_eq!(tessellation.hex(2).danger(), Danger::Threatened);
    tessellation.set_attacking(6);
    assert_eq!(tessellation.hex(0).danger(), Danger::Attacking);
    tessellation.set_safe(14);
    assert_eq!(tessellation.hex(2).danger(), Danger::Safe);
}

#[test]
fn tessellation_cell_changed_in_place() {
    let template = generate_template(3, 2, Point::new(0, 0), 10);
    let mut tessellation = generate_tessellation(&template, &board_of(3, 2));
    tessellation.hex_mut(3).unwrap().set_attacking();
    assert_eq!(tessellation.hex(3).danger(), Danger::Attacking);
    assert_eq!(tessellation.hex(2).danger(), Danger::Safe);
    assert_eq!(tessellation.hex(4).danger(), Danger::Safe);
    tessellation.hex_mut(9).unwrap().set_safe();
    assert_eq!(tessellation.hex(3).danger(), Danger::Safe);
    assert!(tessellation.hex_mut(usize::MAX).is_some());
}

#[test]
fn tessellation_of_given_cells() {
    let points = Blank::new(&Point::new(5, 5), 4);
    let cells = vec![
        Detail::new(points.points(), points.center(), 1, 2),
        Detail::new(points.points(), points.center(), 2, 3),
    ];
    let tessellation = Tessellation::new(1, 2, 4, cells.as_slice());
    assert_eq!(tessellation.len(), 2);
    assert_eq!(tessellation.radius(), 4);
    assert_eq!(tessellation.start_hex_center(), Point::new(5, 5));
    assert_eq!(tessellation.hex(1).dice(), 3);
}

#[test]
fn detail_shows_the_colour_of_its_danger() {
    let blank = Blank::new(&Point::new(0, 0), 10);
    let mut detail = Detail::new(blank.points(), blank.center(), 2, 4);
    assert_eq!(detail.center(), Point::new(0, 0));
    assert_eq!(detail.dice(), 4);
    assert_eq!(detail.player_number(), 2);
    assert_eq!(detail.unselected_colour(), Colour::Red);
    assert_eq!(detail.selected_colour(), Colour::DarkRed);
    assert_eq!(detail.threatened_colour(), Colour::LightRed);
    assert_eq!(detail.danger(), Danger::Safe);
    assert_eq!(detail.colour(), Colour::Red);
    detail.set_attacking();
    assert_eq!(detail.danger(), Danger::Attacking);
    assert_eq!(detail.colour(), Colour::DarkRed);
    detail.set_threatened();
    assert_eq!(detail.danger(), Danger::Threatened);
    assert_eq!(detail.colour(), Colour::LightRed);
    detail.set_safe();
    assert_eq!(detail.colour(), Colour::Red);
}

#[test]
fn detail_corners_go_round() {
    let blank = Blank::new(&Point::new(0, 0), 10);
    let detail = Detail::new(blank.points(), blank.center(), 2, 4);
    let mut k = 0;
    while k < 6 {
        assert_eq!(detail.point(k), blank.points()[k]);
        assert_eq!(detail.point(k + 6), blank.points()[k]);
        k += 1;
    }
    assert_eq!(detail.point(usize::MAX), blank.points()[usize::MAX % 6]);
}

#[test]
fn detail_takes_the_first_six_of_more_points() {
    let points = vec![
        Point::new(0, 0),
        Point::new(1, 0),
        Point::new(2, 0),
        Point::new(3, 0),
        Point::new(4, 0),
        Point::new(5, 0),
        Point::new(6, 0),
    ];
    let detail = Detail::new(points.as_slice(), Point::new(9, 9), 0, 1);
    assert_eq!(detail.point(5), Point::new(5, 0));
    assert_eq!(detail.point(6), Point::new(0, 0));
}
