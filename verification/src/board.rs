//! The state of play as the rules engine reports it: the tiles of the board in the
//! engine's order, the legal actions of the player to move, and how far the game has
//! come. The values here are plain copies; the engine keeps its own.
use vstd::prelude::*;
use vstd::slice::slice_to_vec;
use crate::primitive::Axial;

verus! {

/// One tile of the board: where it lies, whose it is and how many dice it holds.
#[derive(Debug, Copy, Clone, PartialEq, Eq, Structural)]
pub struct Tile {
    pub coordinate: Axial,
    pub owner: usize,
    pub dice: u8,
}

impl Tile {
    pub fn new(coordinate: Axial, owner: usize, dice: u8) -> (tile: Self)
        ensures
            tile == (Tile { coordinate, owner, dice }),
    {
        Tile { coordinate, owner, dice }
    }
}

/// `index` is the place of the first tile that lies at `coordinate`.
pub open spec fn is_index_of(tiles: Seq<Tile>, coordinate: Axial, index: int) -> bool {
    &&& 0 <= index < tiles.len()
    &&& tiles[index].coordinate == coordinate
    &&& forall|j: int| 0 <= j < index ==> (#[trigger] tiles[j]).coordinate != coordinate
}

/// Whether some tile lies at `coordinate`.
pub open spec fn on_board(tiles: Seq<Tile>, coordinate: Axial) -> bool {
    exists|j: int| 0 <= j < tiles.len() && (#[trigger] tiles[j]).coordinate == coordinate
}

/// The coordinate that was looked up and is no tile's.
#[derive(Debug, Copy, Clone, PartialEq, Eq, Structural)]
pub struct OutOfGrid {
    pub coordinate: Axial,
}

/// What a board holds.
pub ghost struct BoardView {
    pub tiles: Seq<Tile>,
    pub current_player: usize,
    pub moved: u8,
    pub captured_dice: u8,
}

/// The board at one moment of the game.
#[derive(Debug, PartialEq, Eq)]
pub struct Board {
    tiles: Vec<Tile>,
    current_player: usize,
    moved: u8,
    captured_dice: u8,
}

impl View for Board {
    type V = BoardView;

    closed spec fn view(&self) -> BoardView {
        BoardView {
            tiles: self.tiles@,
            current_player: self.current_player,
            moved: self.moved,
            captured_dice: self.captured_dice,
        }
    }
}

impl Clone for Board {
    fn clone(&self) -> (copy: Self)
        ensures
            copy@ == self@,
    {
        Board {
            tiles: slice_to_vec(self.tiles.as_slice()),
            current_player: self.current_player,
            moved: self.moved,
            captured_dice: self.captured_dice,
        }
    }
}

impl Board {
    /// A board of the given tiles, in the engine's order, with the number of the
    /// player to move, the moves that player has made this turn and the dice that
    /// player has captured.
    pub fn new(tiles: Vec<Tile>, current_player: usize, moved: u8, captured_dice: u8) -> (board:
        Self)
        ensures
            board@ == (BoardView { tiles: tiles@, current_player, moved, captured_dice }),
    {
        Board { tiles, current_player, moved, captured_dice }
    }

    pub fn len(&self) -> (len: usize)
        ensures
            len == self@.tiles.len(),
    {
        self.tiles.len()
    }

    /// The tiles in the engine's order.
    pub fn tiles(&self) -> (tiles: &[Tile])
        ensures
            tiles@ == self@.tiles,
    {
        self.tiles.as_slice()
    }

    /// The tile at `index`, if the board has that many.
    pub fn tile(&self, index: usize) -> (tile: Option<Tile>)
        ensures
            tile == if index < self@.tiles.len() {
                Some(self@.tiles[index as int])
            } else {
                None
            },
    {
        if index < self.tiles.len() {
            Some(self.tiles[index])
        } else {
            None
        }
    }

    /// The index of the tile at `coordinate`, the first if several lie there; the
    /// coordinate comes back as the error if none does.
    pub fn fetch_index(&self, coordinate: Axial) -> (found: Result<usize, OutOfGrid>)
        ensures
            match found {
                Ok(index) => is_index_of(self@.tiles, coordinate, index as int),
                Err(e) => e.coordinate == coordinate && !on_board(self@.tiles, coordinate),
            },
    {
        let mut i: usize = 0;
        while i < self.tiles.len()
            invariant
                i <= self.tiles.len(),
                forall|j: int| 0 <= j < i ==> (#[trigger] self.tiles@[j]).coordinate != coordinate,
            decreases self.tiles.len() - i,
        {
            if self.tiles[i].coordinate == coordinate {
                return Ok(i);
            }
            i += 1;
        }
        Err(OutOfGrid { coordinate })
    }

    pub fn current_player(&self) -> (number: usize)
        ensures
            number == self@.current_player,
    {
        self.current_player
    }

    pub fn moved(&self) -> (moved: u8)
        ensures
            moved == self@.moved,
    {
        self.moved
    }

    pub fn captured_dice(&self) -> (dice: u8)
        ensures
            dice == self@.captured_dice,
    {
        self.captured_dice
    }
}

/// A legal action. Of an attack the selection reads the tile it starts from and the
/// tile it goes to; every other action is of no concern here.
#[derive(Debug, Copy, Clone, PartialEq, Eq, Structural)]
pub enum Action {
    Attack { from: Axial, to: Axial },
    Other,
}

impl Action {
    /// Whether the action is the attack from `from` on `to`.
    pub open spec fn is_attack(self, from: Axial, to: Axial) -> bool {
        self == (Action::Attack { from, to })
    }

    /// Whether the action is an attack that starts from `from`.
    pub open spec fn attacks_from(self, from: Axial) -> bool {
        self matches Action::Attack { from: source, .. } && source == from
    }

    /// Where the attack goes to; meaningful of attacks only.
    pub open spec fn target(self) -> Axial {
        match self {
            Action::Attack { to, .. } => to,
            Action::Other => Axial { column: 0, row: 0 },
        }
    }

    /// Whether the action stays on the board: an attack that starts from a tile goes
    /// to a tile.
    pub open spec fn within(self, tiles: Seq<Tile>) -> bool {
        match self {
            Action::Attack { from, to } => on_board(tiles, from) ==> on_board(tiles, to),
            Action::Other => true,
        }
    }
}

/// One entry of the list of legal actions, with the score the engine's search gave
/// it, if it was searched.
#[derive(Debug, Copy, Clone, PartialEq, Eq, Structural)]
pub struct Choice {
    pub action: Action,
    pub score: Option<i64>,
}

impl Choice {
    pub fn new(action: Action, score: Option<i64>) -> (choice: Self)
        ensures
            choice == (Choice { action, score }),
    {
        Choice { action, score }
    }

    pub fn action(&self) -> (action: Action)
        ensures
            action == self.action,
    {
        self.action
    }

    pub fn score(&self) -> (score: Option<i64>)
        ensures
            score == self.score,
    {
        self.score
    }
}

/// How far the game has come.
#[derive(Debug, Copy, Clone, PartialEq, Eq, Structural)]
pub enum Progression {
    PlayOn,
    GameOverWinner(usize),
    GameOverStalemate,
}

/// What a turn holds.
pub ghost struct TurnView {
    pub board: BoardView,
    pub choices: Seq<Choice>,
    pub progression: Progression,
}

impl TurnView {
    /// Every attack among the legal actions that starts from a tile of the board
    /// goes to a tile of the board, and the tiles can be counted in a `usize`.
    pub open spec fn wf(self) -> bool {
        &&& self.board.tiles.len() <= usize::MAX
        &&& forall|i: int|
            0 <= i < self.choices.len() ==> (#[trigger] self.choices[i]).action.within(
                self.board.tiles,
            )
    }
}

/// The place, in the list of legal actions, of the first attack that starts from a
/// tile of the board and goes to a coordinate where the board has no tile.
#[derive(Debug, Copy, Clone, PartialEq, Eq, Structural)]
pub struct OffBoard {
    pub choice: usize,
}

/// The state of play at the start of a move: the board, the legal actions of the
/// player to move, in the engine's order, and how far the game has come. An attack
/// among the actions that starts from a tile of the board goes to a tile of it.
#[derive(Debug, PartialEq, Eq)]
pub struct Turn {
    board: Board,
    choices: Vec<Choice>,
    progression: Progression,
}

impl View for Turn {
    type V = TurnView;

    closed spec fn view(&self) -> TurnView {
        TurnView { board: self.board@, choices: self.choices@, progression: self.progression }
    }
}

impl Clone for Turn {
    fn clone(&self) -> (copy: Self)
        ensures
            copy@ == self@,
    {
        proof {
            use_type_invariant(&*self);
        }
        Turn {
            board: self.board.clone(),
            choices: slice_to_vec(self.choices.as_slice()),
            progression: self.progression,
        }
    }
}

impl Turn {
    #[verifier::type_invariant]
    pub open spec fn valid(self) -> bool {
        self@.wf()
    }

    /// The turn of the given board, actions and progress, unless an attack among
    /// the actions starts from a tile of the board and goes to a coordinate where the
    /// board has no tile: then the place of the first such action comes back.
    pub fn new(board: Board, choices: Vec<Choice>, progression: Progression) -> (turn: Result<
        Turn,
        OffBoard,
    >)
        ensures
            match turn {
                Ok(t) => {
                    &&& t@ == (TurnView { board: board@, choices: choices@, progression })
                    &&& t@.wf()
                },
                Err(e) => {
                    &&& e.choice < choices@.len()
                    &&& !choices@[e.choice as int].action.within(board@.tiles)
                    &&& forall|j: int|
                        0 <= j < e.choice ==> (#[trigger] choices@[j]).action.within(board@.tiles)
                },
            },
    {
        let mut i: usize = 0;
        while i < choices.len()
            invariant
                i <= choices@.len(),
                forall|j: int| 0 <= j < i ==> (#[trigger] choices@[j]).action.within(board@.tiles),
            decreases choices@.len() - i,
        {
            match choices[i].action {
                Action::Attack { from, to } => {
                    if board.fetch_index(from).is_ok() && board.fetch_index(to).is_err() {
                        return Err(OffBoard { choice: i });
                    }
                },
                Action::Other => {},
            }
            i += 1;
        }
        assert(board@.tiles.len() == board.tiles.len());
        Ok(Turn { board, choices, progression })
    }

    pub fn board(&self) -> (board: &Board)
        ensures
            board@ == self@.board,
    {
        &self.board
    }

    /// The legal actions, in the engine's order.
    pub fn choices(&self) -> (choices: &[Choice])
        ensures
            choices@ == self@.choices,
            self@.wf(),
    {
        proof {
            use_type_invariant(&*self);
        }
        self.choices.as_slice()
    }

    /// How far the game has come.
    pub fn game(&self) -> (progression: Progression)
        ensures
            progression == self@.progression,
    {
        self.progression
    }
}

} // verus!
