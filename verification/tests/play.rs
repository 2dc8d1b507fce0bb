use std::collections::HashSet;

use hex_board::board::Action;
use hex_board::board::Board;
use hex_board::board::Choice;
use hex_board::board::Progression;
use hex_board::board::Tile;
use hex_board::board::Turn;
use hex_board::grid::generate_template;
use hex_board::hex::Danger;
use hex_board::play::handle_ai_turn;
use hex_board::play::Advancement;
use hex_board::play::Game;
use hex_board::play::Outcome;
use hex_board::selection::Selected;
use hex_board::selection::Threatened;
use hex_board::primitive::Axial;
use hex_board::primitive::Colour;
use hex_board::Point;

fn attack(from: (i32, i32), to: (i32, i32)) -> Choice {
    Choice::new(
        Action::Attack { from: Axial::new(from.0, from.1), to: Axial::new(to.0, to.1) },
        None,
    )
}

fn scored(score: i64) -> Choice {
    Choice::new(Action::Other, Some(score))
}

fn tiles_2x2() -> Vec<Tile> {
    vec![
        Tile::new(Axial::new(0, 0), 1, 2),
        Tile::new(Axial::new(1, 0), 2, 1),
        Tile::new(Axial::new(0, 1), 2, 3),
        Tile::new(Axial::new(1, 1), 1, 1),
    ]
}

fn turn_2x2(choices: Vec<Choice>) -> Turn {
    Turn::new(Board::new(tiles_2x2(), 1, 0, 0), choices, Progression::PlayOn).unwrap()
}

fn game_2x2(choices: Vec<Choice>) -> Game {
    let template = generate_template(2, 2, Point::new(0, 0), 20);
    Game::new(turn_2x2(choices), HashSet::new(), 3, 3, template)
}

fn dangers(game: &Game) -> Vec<Danger> {
    let tessellation = game.tessellation();
    let mut all = Vec::new();
    let mut i = 0;
    while i < tessellation.len() {
        all.push(tessellation.hex(i).danger());
        i += 1;
    }
    all
}

const SAFE: Danger = Danger::Safe;
const ATTACKING: Danger = Danger::Attacking;
const THREATENED: Danger = Danger::Threatened;

#[test]
fn new_game_has_every_cell_safe() {
    let game = game_2x2(vec![Choice::new(Action::Other, None), attack((0, 0), (1, 0))]);
    let tessellation = game.tessellation();
    assert_eq!(tessellation.len(), 4);
    assert_eq!(dangers(&game), vec![SAFE, SAFE, SAFE, SAFE]);
    assert_eq!(tessellation.hex(0).dice(), 2);
    assert_eq!(tessellation.hex(0).player_number(), 1);
    assert_eq!(tessellation.hex(2).dice(), 3);
    assert_eq!(tessellation.hex(2).player_number(), 2);
    assert_eq!(tessellation.hex(3).center(), Point::new(52, 30));
}

#[test]
fn one_attack_on_a_board_of_two_by_two() {
    let mut game = game_2x2(vec![Choice::new(Action::Other, None), attack((0, 0), (1, 0))]);
    assert_eq!(game.select_hex_with_pixel(Point::new(0, 0)), Outcome::Selected);
    assert_eq!(dangers(&game), vec![ATTACKING, THREATENED, SAFE, SAFE]);
    assert_eq!(game.select_hex_with_pixel(Point::new(35, 0)), Outcome::Attack(1));
    let after = Turn::new(
        Board::new(
            vec![
                Tile::new(Axial::new(0, 0), 1, 1),
                Tile::new(Axial::new(1, 0), 1, 1),
                Tile::new(Axial::new(0, 1), 2, 3),
                Tile::new(Axial::new(1, 1), 1, 1),
            ],
            1,
            1,
            1,
        ),
        vec![Choice::new(Action::Other, None)],
        Progression::PlayOn,
    )
    .unwrap();
    game.adopt_turn(after);
    assert_eq!(dangers(&game), vec![SAFE, SAFE, SAFE, SAFE]);
    assert_eq!(game.tessellation().len(), 4);
    assert_eq!(game.tessellation().hex(1).player_number(), 1);
    assert_eq!(game.tessellation().hex(0).dice(), 1);
    assert_eq!(game.select_hex_with_pixel(Point::new(35, 0)), Outcome::Selected);
    assert_eq!(dangers(&game), vec![SAFE, ATTACKING, SAFE, SAFE]);
}

#[test]
fn selecting_marks_the_attacker_and_all_it_threatens() {
    let mut game = game_2x2(vec![
        attack((1, 0), (0, 0)),
        attack((0, 0), (1, 0)),
        Choice::new(Action::Other, None),
        attack((0, 0), (0, 1)),
        attack((1, 1), (0, 1)),
    ]);
    assert_eq!(game.select_hexagon(Axial::new(0, 0)), Outcome::Selected);
    assert_eq!(dangers(&game), vec![ATTACKING, THREATENED, THREATENED, SAFE]);
    let tessellation = game.tessellation();
    assert_eq!(tessellation.hex(0).colour(), Colour::DarkGreen);
    assert_eq!(tessellation.hex(1).colour(), Colour::LightRed);
    assert_eq!(tessellation.hex(2).colour(), Colour::LightRed);
    assert_eq!(tessellation.hex(3).colour(), Colour::Green);
}

#[test]
fn selecting_a_cell_without_attacks_marks_it_alone() {
    let mut game = game_2x2(vec![attack((0, 0), (1, 0))]);
    assert_eq!(game.select_hexagon(Axial::new(1, 1)), Outcome::Selected);
    assert_eq!(dangers(&game), vec![SAFE, SAFE, SAFE, ATTACKING]);
    assert_eq!(game.select_hexagon(Axial::new(0, 0)), Outcome::Invalid);
    assert_eq!(dangers(&game), vec![SAFE, SAFE, SAFE, ATTACKING]);
    assert_eq!(game.select_hexagon(Axial::new(1, 1)), Outcome::Deselected);
    assert_eq!(dangers(&game), vec![SAFE, SAFE, SAFE, SAFE]);
}

#[test]
fn tapping_the_attacker_again_makes_every_cell_safe() {
    let mut game = game_2x2(vec![attack((0, 0), (1, 0)), attack((0, 0), (0, 1))]);
    let before = game.tessellation();
    assert_eq!(game.select_hexagon(Axial::new(0, 0)), Outcome::Selected);
    assert_ne!(game.tessellation(), before);
    assert_eq!(game.select_hexagon(Axial::new(0, 0)), Outcome::Deselected);
    assert_eq!(game.tessellation(), before);
    assert_eq!(game.select_hexagon(Axial::new(1, 0)), Outcome::Selected);
    assert_eq!(dangers(&game), vec![SAFE, ATTACKING, SAFE, SAFE]);
}

#[test]
fn tapping_a_cell_of_no_use_changes_nothing() {
    let mut game = game_2x2(vec![attack((0, 0), (1, 0)), attack((1, 1), (0, 1))]);
    assert_eq!(game.select_hexagon(Axial::new(0, 0)), Outcome::Selected);
    let held = game.tessellation();
    assert_eq!(game.select_hexagon(Axial::new(0, 1)), Outcome::Invalid);
    assert_eq!(game.tessellation(), held);
    assert_eq!(game.select_hexagon(Axial::new(1, 1)), Outcome::Invalid);
    assert_eq!(game.tessellation(), held);
    assert_eq!(game.select_hexagon(Axial::new(1, 0)), Outcome::Attack(0));
    assert_eq!(game.select_hexagon(Axial::new(0, 0)), Outcome::Deselected);
}

#[test]
fn tapping_off_the_board_changes_nothing() {
    let mut game = game_2x2(vec![attack((0, 0), (1, 0))]);
    let before = game.tessellation();
    assert_eq!(game.select_hexagon(Axial::new(5, 5)), Outcome::OutOfGrid);
    assert_eq!(game.select_hex_with_pixel(Point::new(-35, 0)), Outcome::OutOfGrid);
    assert_eq!(game.tessellation(), before);
    assert_eq!(game.select_hexagon(Axial::new(0, 0)), Outcome::Selected);
    let held = game.tessellation();
    assert_eq!(game.select_hexagon(Axial::new(5, 5)), Outcome::OutOfGrid);
    assert_eq!(game.select_hex_with_pixel(Point::new(1000, 1000)), Outcome::OutOfGrid);
    assert_eq!(game.tessellation(), held);
    assert_eq!(game.select_hexagon(Axial::new(0, 0)), Outcome::Deselected);
}

#[test]
fn confirming_an_attack_names_the_first_matching_action_and_changes_nothing() {
    let mut game = game_2x2(vec![
        Choice::new(Action::Other, None),
        attack((0, 0), (0, 1)),
        attack((1, 0), (0, 1)),
        attack((0, 0), (1, 0)),
        attack((0, 0), (1, 0)),
    ]);
    assert_eq!(game.select_hexagon(Axial::new(0, 0)), Outcome::Selected);
    let held = game.tessellation();
    assert_eq!(dangers(&game), vec![ATTACKING, THREATENED, THREATENED, SAFE]);
    assert_eq!(game.select_hexagon(Axial::new(1, 0)), Outcome::Attack(3));
    assert_eq!(game.tessellation(), held);
    assert_eq!(game.select_hexagon(Axial::new(0, 1)), Outcome::Attack(1));
    assert_eq!(game.tessellation(), held);
}

#[test]
fn adopting_a_turn_clears_the_selection() {
    let mut game = game_2x2(vec![attack((0, 0), (1, 0))]);
    assert_eq!(game.select_hexagon(Axial::new(0, 0)), Outcome::Selected);
    game.adopt_turn(turn_2x2(vec![attack((1, 0), (0, 0))]));
    assert_eq!(dangers(&game), vec![SAFE, SAFE, SAFE, SAFE]);
    assert_eq!(game.select_hexagon(Axial::new(1, 0)), Outcome::Selected);
    assert_eq!(dangers(&game), vec![THREATENED, ATTACKING, SAFE, SAFE]);
}

#[test]
fn selection_is_taken_from_the_pixel_under_the_tap() {
    let mut game = game_2x2(vec![attack((1, 1), (0, 1)), attack((1, 1), (1, 0))]);
    assert_eq!(game.select_hex_with_pixel(Point::new(50, 33)), Outcome::Selected);
    assert_eq!(dangers(&game), vec![SAFE, THREATENED, THREATENED, ATTACKING]);
    assert_eq!(game.select_hex_with_pixel(Point::new(19, 28)), Outcome::Attack(0));
    assert_eq!(game.select_hex_with_pixel(Point::new(54, 29)), Outcome::Deselected);
    assert_eq!(dangers(&game), vec![SAFE, SAFE, SAFE, SAFE]);
}

#[test]
fn a_cell_that_attacks_itself_is_marked_threatened_and_stands_down_when_tapped() {
    let mut game = game_2x2(vec![attack((0, 0), (0, 0))]);
    assert_eq!(game.select_hexagon(Axial::new(0, 0)), Outcome::Selected);
    assert_eq!(dangers(&game), vec![THREATENED, SAFE, SAFE, SAFE]);
    assert_eq!(game.select_hexagon(Axial::new(0, 0)), Outcome::Deselected);
    assert_eq!(dangers(&game), vec![SAFE, SAFE, SAFE, SAFE]);
}

#[test]
fn attacks_from_off_the_board_touch_nothing() {
    let mut game = game_2x2(vec![attack((7, 7), (1, 0)), attack((7, 7), (6, 6)), attack((0, 0), (1, 1))]);
    assert_eq!(game.select_hexagon(Axial::new(7, 7)), Outcome::OutOfGrid);
    assert_eq!(game.select_hexagon(Axial::new(0, 0)), Outcome::Selected);
    assert_eq!(dangers(&game), vec![ATTACKING, SAFE, SAFE, THREATENED]);
    assert_eq!(game.select_hexagon(Axial::new(1, 0)), Outcome::Invalid);
    assert_eq!(game.select_hexagon(Axial::new(1, 1)), Outcome::Attack(2));
}

#[test]
fn the_best_choice_has_the_highest_score() {
    assert_eq!(handle_ai_turn(&[scored(1), scored(5), scored(3)]), 1);
    assert_eq!(handle_ai_turn(&[scored(9), scored(5), scored(3)]), 0);
    assert_eq!(handle_ai_turn(&[scored(1), scored(5), scored(30)]), 2);
    assert_eq!(handle_ai_turn(&[scored(4)]), 0);
}

#[test]
fn of_equal_scores_the_first_is_the_best_choice() {
    assert_eq!(handle_ai_turn(&[scored(1), scored(5), scored(5), scored(2), scored(5)]), 1);
    assert_eq!(handle_ai_turn(&[scored(0), scored(0), scored(0)]), 0);
    assert_eq!(handle_ai_turn(&[scored(-2), scored(7), scored(7)]), 1);
}

#[test]
fn the_best_choice_among_scores_below_zero() {
    assert_eq!(handle_ai_turn(&[scored(-5), scored(-1), scored(-3)]), 1);
    assert_eq!(handle_ai_turn(&[scored(i64::MIN), scored(i64::MIN + 1)]), 1);
    assert_eq!(handle_ai_turn(&[scored(i64::MIN), scored(i64::MAX), scored(i64::MAX)]), 1);
}

#[test]
fn the_best_choice_of_none_is_the_first_place() {
    assert_eq!(handle_ai_turn(&[]), 0);
}

fn game_of(current_player: usize, automated: &[usize], progression: Progression) -> Game {
    let mut ai_players = HashSet::new();
    let mut i = 0;
    while i < automated.len() {
        ai_players.insert(automated[i]);
        i += 1;
    }
    let turn = Turn::new(
        Board::new(tiles_2x2(), current_player, 1, 4),
        vec![Choice::new(Action::Other, None)],
        progression,
    )
    .unwrap();
    Game::new(turn, ai_players, 7, 3, generate_template(2, 2, Point::new(0, 0), 20))
}

#[test]
fn an_automated_player_to_move_asks_for_a_search() {
    let game = game_of(2, &[2, 4], Progression::PlayOn);
    assert!(game.current_player_ai());
    assert_eq!(game.advance(), Some(7));
}

#[test]
fn a_human_player_to_move_asks_for_nothing() {
    let game = game_of(1, &[2, 4], Progression::PlayOn);
    assert!(!game.current_player_ai());
    assert_eq!(game.advance(), None);
    let nobody = game_of(1, &[], Progression::PlayOn);
    assert_eq!(nobody.advance(), None);
}

#[test]
fn a_game_that_is_over_asks_for_nothing() {
    let won = game_of(2, &[2, 4], Progression::GameOverWinner(2));
    assert!(won.current_player_ai());
    assert_eq!(won.advance(), None);
    let stuck = game_of(4, &[2, 4], Progression::GameOverStalemate);
    assert_eq!(stuck.advance(), None);
}

#[test]
fn the_player_to_move() {
    let game = game_of(2, &[], Progression::PlayOn);
    assert_eq!(game.current_player_id(), 2);
    assert_eq!(game.move_limit(), 3);
    assert_eq!(game.current_player_moves_made(), 1);
    assert_eq!(game.current_player_moves_left(), 2);
    assert_eq!(game.current_player_dice_captured(), 4);
    let many = game_of(258, &[], Progression::PlayOn);
    assert_eq!(many.current_player_id(), 2);
}

#[test]
fn an_automated_turn_step_by_step() {
    let mut game = game_of(2, &[2], Progression::PlayOn);
    let horizon = game.advance().unwrap();
    assert_eq!(horizon, 7);
    let scored_choices = vec![
        Choice::new(Action::Other, Some(3)),
        Choice::new(Action::Attack { from: Axial::new(1, 0), to: Axial::new(0, 0) }, Some(8)),
        Choice::new(Action::Attack { from: Axial::new(0, 1), to: Axial::new(0, 0) }, Some(8)),
    ];
    assert_eq!(handle_ai_turn(scored_choices.as_slice()), 1);
    let next = Turn::new(
        Board::new(
            vec![
                Tile::new(Axial::new(0, 0), 2, 1),
                Tile::new(Axial::new(1, 0), 2, 1),
                Tile::new(Axial::new(0, 1), 2, 3),
                Tile::new(Axial::new(1, 1), 1, 1),
            ],
            1,
            0,
            0,
        ),
        vec![Choice::new(Action::Other, None)],
        Progression::PlayOn,
    )
    .unwrap();
    game.adopt_turn(next);
    assert_eq!(game.tessellation().hex(0).player_number(), 2);
    assert_eq!(game.tessellation().hex(0).dice(), 1);
    assert_eq!(game.current_player_id(), 1);
    assert_eq!(game.current_player_moves_left(), 3);
    assert_eq!(game.advance(), None);
}

#[test]
fn a_game_of_cells_without_a_radius_is_played_by_coordinate() {
    let template = generate_template(2, 2, Point::new(5, 5), 0);
    let mut game = Game::new(turn_2x2(vec![attack((0, 0), (1, 0))]), HashSet::new(), 1, 1, template);
    assert_eq!(game.tessellation().hex(3).center(), Point::new(5, 5));
    assert_eq!(game.select_hexagon(Axial::new(0, 0)), Outcome::Selected);
    assert_eq!(dangers(&game), vec![ATTACKING, THREATENED, SAFE, SAFE]);
    assert_eq!(game.select_hexagon(Axial::new(1, 0)), Outcome::Attack(0));
}

#[test]
fn a_player_at_the_move_limit_has_no_move_left() {
    let turn = Turn::new(Board::new(tiles_2x2(), 1, 3, 0), Vec::new(), Progression::PlayOn).unwrap();
    let game = Game::new(turn, HashSet::new(), 1, 3, generate_template(2, 2, Point::new(0, 0), 20));
    assert_eq!(game.current_player_moves_made(), 3);
    assert_eq!(game.current_player_moves_left(), 0);
}

#[test]
fn advancement_holds_its_flag() {
    assert!(Advancement::new(true).ai_turn());
    assert!(!Advancement::new(false).ai_turn());
}

#[test]
fn selected_knows_what_it_threatens() {
    let near = Threatened::new(1, Axial::new(1, 0));
    let far = Threatened::new(2, Axial::new(0, 1));
    let selected = Selected::new(0, Axial::new(0, 0), &[near]);
    assert!(selected.threatens(near));
    assert!(!selected.threatens(far));
    assert!(!selected.threatens(Threatened::new(1, Axial::new(0, 1))));
    assert!(!Selected::new(0, Axial::new(0, 0), &[]).threatens(near));
}

#[test]
fn selected_holds_what_it_was_given() {
    let near = Threatened::new(1, Axial::new(1, 0));
    let far = Threatened::new(2, Axial::new(0, 1));
    let selected = Selected::new(3, Axial::new(1, 1), &[near, far]);
    assert_eq!(selected.index(), 3);
    assert_eq!(selected.coordinate(), Axial::new(1, 1));
    assert_eq!(selected.threatened(), &[near, far]);
    let copy = selected.clone();
    assert_eq!(copy.index(), 3);
    assert_eq!(copy.threatened(), selected.threatened());
}
