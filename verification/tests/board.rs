use hex_board::board::Action;
use hex_board::board::Board;
use hex_board::board::Choice;
use hex_board::board::OffBoard;
use hex_board::board::OutOfGrid;
use hex_board::board::Progression;
use hex_board::board::Tile;
use hex_board::board::Turn;
use hex_board::primitive::Axial;

fn two_by_two() -> Board {
    Board::new(
        vec![
            Tile::new(Axial::new(0, 0), 1, 2),
            Tile::new(Axial::new(1, 0), 2, 1),
            Tile::new(Axial::new(0, 1), 2, 3),
            Tile::new(Axial::new(1, 1), 1, 1),
        ],
        1,
        2,
        5,
    )
}

#[test]
fn board_holds_what_it_was_given() {
    let board = two_by_two();
    assert_eq!(board.len(), 4);
    assert_eq!(board.current_player(), 1);
    assert_eq!(board.moved(), 2);
    assert_eq!(board.captured_dice(), 5);
    assert_eq!(board.tile(2), Some(Tile::new(Axial::new(0, 1), 2, 3)));
    assert_eq!(board.tile(4), None);
    assert_eq!(board.tiles().len(), 4);
    assert_eq!(board.tiles()[3], Tile::new(Axial::new(1, 1), 1, 1));
    assert_eq!(board.clone(), board);
}

#[test]
fn board_finds_the_index_of_a_coordinate() {
    let board = two_by_two();
    assert_eq!(board.fetch_index(Axial::new(0, 0)), Ok(0));
    assert_eq!(board.fetch_index(Axial::new(1, 0)), Ok(1));
    assert_eq!(board.fetch_index(Axial::new(0, 1)), Ok(2));
    assert_eq!(board.fetch_index(Axial::new(1, 1)), Ok(3));
}

#[test]
fn board_reports_a_coordinate_off_the_grid() {
    let board = two_by_two();
    assert_eq!(
        board.fetch_index(Axial::new(2, 0)),
        Err(OutOfGrid { coordinate: Axial::new(2, 0) })
    );
    assert_eq!(
        board.fetch_index(Axial::new(-1, -1)),
        Err(OutOfGrid { coordinate: Axial::new(-1, -1) })
    );
    let empty = Board::new(Vec::new(), 1, 0, 0);
    assert_eq!(
        empty.fetch_index(Axial::new(0, 0)),
        Err(OutOfGrid { coordinate: Axial::new(0, 0) })
    );
}

#[test]
fn board_finds_the_first_of_two_tiles_at_one_coordinate() {
    let board = Board::new(
        vec![
            Tile::new(Axial::new(0, 0), 1, 2),
            Tile::new(Axial::new(5, 5), 2, 1),
            Tile::new(Axial::new(5, 5), 1, 1),
        ],
        1,
        0,
        0,
    );
    assert_eq!(board.fetch_index(Axial::new(5, 5)), Ok(1));
}

#[test]
fn turn_holds_what_it_was_given() {
    let choices = vec![
        Choice::new(Action::Other, None),
        Choice::new(Action::Attack { from: Axial::new(0, 0), to: Axial::new(1, 0) }, Some(7)),
    ];
    let turn = Turn::new(two_by_two(), choices.clone(), Progression::PlayOn).unwrap();
    assert_eq!(turn.board(), &two_by_two());
    assert_eq!(turn.choices(), choices.as_slice());
    assert_eq!(turn.game(), Progression::PlayOn);
    assert_eq!(turn.choices()[1].score(), Some(7));
    assert_eq!(turn.choices()[0].action(), Action::Other);
    assert_eq!(turn.clone(), turn);
}

#[test]
fn turn_refuses_an_attack_that_goes_off_the_board() {
    let choices = vec![
        Choice::new(Action::Other, None),
        Choice::new(Action::Attack { from: Axial::new(0, 0), to: Axial::new(1, 0) }, None),
        Choice::new(Action::Attack { from: Axial::new(0, 0), to: Axial::new(2, 0) }, None),
        Choice::new(Action::Attack { from: Axial::new(9, 9), to: Axial::new(1, 0) }, None),
    ];
    assert_eq!(
        Turn::new(two_by_two(), choices, Progression::PlayOn),
        Err(OffBoard { choice: 2 })
    );
}

#[test]
fn turn_takes_an_attack_that_starts_off_the_board() {
    let choices = vec![
        Choice::new(Action::Attack { from: Axial::new(9, 9), to: Axial::new(1, 0) }, None),
        Choice::new(Action::Attack { from: Axial::new(9, 9), to: Axial::new(8, 8) }, None),
    ];
    let turn = Turn::new(two_by_two(), choices.clone(), Progression::GameOverStalemate).unwrap();
    assert_eq!(turn.choices(), choices.as_slice());
    assert_eq!(turn.game(), Progression::GameOverStalemate);
}

#[test]
fn turn_refuses_the_first_attack_that_leaves_the_board() {
    let choices = vec![
        Choice::new(Action::Attack { from: Axial::new(9, 9), to: Axial::new(8, 8) }, None),
        Choice::new(Action::Attack { from: Axial::new(1, 1), to: Axial::new(1, 2) }, None),
        Choice::new(Action::Attack { from: Axial::new(0, 0), to: Axial::new(-1, 0) }, None),
    ];
    assert_eq!(
        Turn::new(two_by_two(), choices, Progression::PlayOn),
        Err(OffBoard { choice: 1 })
    );
}

#[test]
fn turn_without_choices_or_tiles() {
    let turn = Turn::new(Board::new(Vec::new(), 3, 0, 0), Vec::new(), Progression::GameOverWinner(3))
        .unwrap();
    assert_eq!(turn.choices().len(), 0);
    assert_eq!(turn.board().len(), 0);
    assert_eq!(turn.game(), Progression::GameOverWinner(3));
}
