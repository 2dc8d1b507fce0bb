//! Setting a game up: the grid to draw on, who sits at the table, and how many moves
//! a turn allows. The board itself is the engine's to make.
use vstd::prelude::*;
use std::collections::HashSet;
use crate::board::Turn;
use crate::grid::generate_template;
use crate::layout::grid_cells;
use crate::layout::grid_fits;
use crate::grid::Template;
use crate::grid::TemplateView;
use crate::selection::painted;
use crate::play::Game;
use crate::play::GameView;
use crate::primitive::Point;

verus! {

broadcast use vstd::std_specs::hash::group_hash_axioms;

/// Who sits at one of the four seats of the table.
#[derive(Debug, Copy, Clone, PartialEq, Eq, Structural)]
pub enum Seat {
    Absent,
    Human,
    Automated,
}

/// The seat that a code stands for: 1 for a human player, 2 for an automated one,
/// anything else for an empty seat.
pub open spec fn seat_of(code: u8) -> Seat {
    if code == 1 {
        Seat::Human
    } else if code == 2 {
        Seat::Automated
    } else {
        Seat::Absent
    }
}

/// The numbers of the automated players: the seats are numbered from 1, and a seat
/// with the code 2 is an automated player's.
pub open spec fn automated_seats(codes: Seq<u8>) -> Set<usize> {
    Set::new(|number: usize| 1 <= number <= codes.len() && codes[number - 1] == 2)
}

/// The moves a turn allows: the limit asked for, or 2 where none was asked for.
pub open spec fn move_limit_or_default(move_limit: u8) -> u8 {
    if move_limit == 0 {
        2
    } else {
        move_limit
    }
}

impl Seat {
    pub fn from_code(code: u8) -> (seat: Self)
        ensures
            seat == seat_of(code),
    {
        if code == 1 {
            Seat::Human
        } else if code == 2 {
            Seat::Automated
        } else {
            Seat::Absent
        }
    }
}

/// What a setup holds.
pub ghost struct SetupView {
    pub template: TemplateView,
    pub seats: Seq<Seat>,
    pub ai_players: Set<usize>,
    pub move_limit: u8,
}

/// All that is settled before the first turn: the template of the grid, the seats
/// in their order, the numbers of the automated players and the move limit.
pub struct Setup {
    template: Template,
    seats: Vec<Seat>,
    ai_players: HashSet<usize>,
    move_limit: u8,
}

impl View for Setup {
    type V = SetupView;

    closed spec fn view(&self) -> SetupView {
        SetupView {
            template: self.template@,
            seats: self.seats@,
            ai_players: self.ai_players@,
            move_limit: self.move_limit,
        }
    }
}

impl Setup {
    /// The template of the grid.
    pub fn template(&self) -> (template: &Template)
        ensures
            template@ == self@.template,
    {
        &self.template
    }

    /// The seats in their order; none where the board brings its own players.
    pub fn seats(&self) -> (seats: &[Seat])
        ensures
            seats@ == self@.seats,
    {
        self.seats.as_slice()
    }

    /// Whether the player with the given number is automated.
    pub fn is_automated(&self, number: usize) -> (automated: bool)
        ensures
            automated == self@.ai_players.contains(number),
    {
        self.ai_players.contains(&number)
    }

    /// The moves a player may make in a turn; at least one.
    pub fn move_limit(&self) -> (move_limit: u8)
        ensures
            move_limit == self@.move_limit,
    {
        self.move_limit
    }

    /// The game at its first turn, which the engine's session has reported for the
    /// board it made for this setup. The automated players are searched for to the
    /// depth `ai_compute_horizon`.
    pub fn start(self, turn: Turn, ai_compute_horizon: usize) -> (game: Game)
        requires
            self@.template.cells.len() == turn@.board.tiles.len(),
        ensures
            game@.wf(),
            game@ == (GameView {
                automated: self@.ai_players,
                horizon: ai_compute_horizon,
                move_limit: self@.move_limit,
                template: self@.template,
                tessellation: painted(self@.template, turn@.board.tiles, None),
                turn: turn@,
                selected: None,
            }),
    {
        Game::new(turn, self.ai_players, ai_compute_horizon, self.move_limit, self.template)
    }
}

/// The setup of the game on the engine's ready-made board of three by three tiles:
/// a grid of three columns and three rows, three moves a turn, and the players the
/// board brings, none of them automated.
pub fn game_3x3_init(board_top_left: Point, hex_radius: u32) -> (setup: Setup)
    requires
        grid_fits(3, 3, board_top_left, hex_radius as int),
    ensures
        setup@.template.columns == 3,
        setup@.template.rows == 3,
        setup@.template.radius == hex_radius,
        setup@.template.cells == grid_cells(3, 3, board_top_left, hex_radius as int),
        setup@.seats == Seq::<Seat>::empty(),
        setup@.ai_players == Set::<usize>::empty(),
        setup@.move_limit == 3,
{
    let template = generate_template(3, 3, board_top_left, hex_radius);
    Setup { template, seats: Vec::new(), ai_players: HashSet::new(), move_limit: 3 }
}

/// The setup of a new game on a square board the engine is to make at random: a
/// grid of `board_size` columns and rows, the four seats as their codes say, the
/// automated players among them, and the move limit, which is 2 where 0 is given.
pub fn start_new_game(
    board_size: u32,
    board_top_left: Point,
    hex_radius: u32,
    move_limit: u8,
    player1_code: u8,
    player2_code: u8,
    player3_code: u8,
    player4_code: u8,
) -> (setup: Setup)
    requires
        board_size >= 1,
        board_size * board_size <= usize::MAX,
        grid_fits(board_size as int, board_size as int, board_top_left, hex_radius as int),
    ensures
        setup@.template.columns == board_size,
        setup@.template.rows == board_size,
        setup@.template.radius == hex_radius,
        setup@.template.cells == grid_cells(
            board_size as int,
            board_size as int,
            board_top_left,
            hex_radius as int,
        ),
        setup@.seats == seq![
            seat_of(player1_code),
            seat_of(player2_code),
            seat_of(player3_code),
            seat_of(player4_code),
        ],
        setup@.ai_players == automated_seats(
            seq![player1_code, player2_code, player3_code, player4_code],
        ),
        setup@.move_limit == move_limit_or_default(move_limit),
{
    let template = generate_template(board_size, board_size, board_top_left, hex_radius);
    let player_codes = [player1_code, player2_code, player3_code, player4_code];
    let ghost codes = seq![player1_code, player2_code, player3_code, player4_code];
    assert(player_codes@ =~= codes);
    let mut seats: Vec<Seat> = Vec::new();
    let mut ai_players: HashSet<usize> = HashSet::new();
    let mut num: usize = 0;
    while num < 4
        invariant
            num <= 4,
            player_codes@ == codes,
            codes.len() == 4,
            seats@.len() == num,
            forall|i: int| 0 <= i < num ==> seats@[i] == seat_of(codes[i]),
            ai_players@ == automated_seats(codes.take(num as int)),
        decreases 4 - num,
    {
        let code = player_codes[num];
        seats.push(Seat::from_code(code));
        if code == 2 {
            ai_players.insert(num + 1);
        }
        assert(ai_players@ =~= automated_seats(codes.take(num + 1)));
        num += 1;
    }
    assert(codes.take(4) =~= codes);
    assert(seats@ =~= seq![
        seat_of(player1_code),
        seat_of(player2_code),
        seat_of(player3_code),
        seat_of(player4_code),
    ]);
    let move_limit: u8 = if move_limit == 0 {
        2
    } else {
        move_limit
    };
    Setup { template, seats, ai_players, move_limit }
}

} // verus!
