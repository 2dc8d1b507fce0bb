//! The game as the player sees and touches it: which cell is selected, which cells
//! it threatens, and what a tap on the board leads to.
//!
//! The rules engine is not called from here. A tap that confirms an attack, and a
//! turn of an automated player, come back as the request to advance the engine's
//! session; the turn the engine answers with is handed in through `adopt_turn`.
use vstd::prelude::*;
use std::collections::HashSet;
use crate::board::is_index_of;
use crate::board::on_board;
use crate::board::Action;
use crate::board::Choice;
use crate::board::Progression;
use crate::board::Turn;
use crate::board::TurnView;
use crate::grid::generate_tessellation;
use crate::grid::Template;
use crate::grid::TemplateView;
use crate::grid::Tessellation;
use crate::grid::TessellationView;
use crate::hex::Danger;
use crate::selection::clearing;
use crate::selection::first_attack;
use crate::selection::index_of;
use crate::selection::is_first_attack;
use crate::selection::lemma_clear_attacker;
use crate::selection::lemma_clear_threat;
use crate::selection::lemma_cleared;
use crate::selection::lemma_first_attack;
use crate::selection::lemma_index_of;
use crate::selection::lemma_paint_attacker;
use crate::selection::lemma_paint_threat;
use crate::selection::lemma_threats;
use crate::selection::lemma_threats_step;
use crate::selection::painted;
use crate::selection::threats;
use crate::selection::Selected;
use crate::selection::SelectedView;
use crate::selection::Threatened;
use crate::primitive::hex_column;
use crate::primitive::hex_row;
use crate::primitive::Axial;
use crate::primitive::Point;

verus! {

broadcast use vstd::std_specs::hash::group_hash_axioms;

/// Whether a step forward was the work of an automated player.
#[derive(Debug, Copy, Clone, PartialEq, Eq, Structural)]
pub struct Advancement {
    ai_turn: bool,
}

impl Advancement {
    pub fn new(ai_turn: bool) -> (advancement: Self)
        ensures
            advancement.ai_turn() == ai_turn,
    {
        Advancement { ai_turn }
    }

    pub closed spec fn spec_ai_turn(&self) -> bool {
        self.ai_turn
    }

    #[verifier::when_used_as_spec(spec_ai_turn)]
    pub fn ai_turn(&self) -> (ai_turn: bool)
        ensures
            ai_turn == self.ai_turn(),
    {
        self.ai_turn
    }
}

/// What a tap on the board led to.
#[derive(Debug, Copy, Clone, PartialEq, Eq, Structural)]
pub enum Outcome {
    /// The coordinate is no tile's. Nothing has changed.
    OutOfGrid,
    /// Nothing was selected: the tapped cell is now the attacker.
    Selected,
    /// The attacker was tapped again and stands down.
    Deselected,
    /// A threatened cell was tapped. The session is to be advanced with the legal
    /// action at this place of the list, and the turn that results is to be adopted;
    /// until then nothing has changed.
    Attack(usize),
    /// The tapped cell is neither the attacker nor threatened. Nothing has changed.
    Invalid,
}

/// What a game holds.
pub ghost struct GameView {
    pub automated: Set<usize>,
    pub horizon: usize,
    pub move_limit: u8,
    pub template: TemplateView,
    pub tessellation: TessellationView,
    pub turn: TurnView,
    pub selected: Option<SelectedView>,
}

impl GameView {
    /// The selection that a tap on the tile at `coordinate` makes.
    pub open spec fn selection_at(self, coordinate: Axial) -> SelectedView {
        SelectedView {
            index: index_of(self.turn.board.tiles, coordinate) as usize,
            coordinate,
            threatened: threats(self.turn.choices, self.turn.board.tiles, coordinate),
        }
    }

    /// The same game under another selection, the marks on the cells following it.
    pub open spec fn with_selection(self, selected: Option<SelectedView>) -> GameView {
        GameView {
            selected,
            tessellation: painted(self.template, self.turn.board.tiles, selected),
            ..self
        }
    }

    /// The game holds together: template, board and tessellation have the same
    /// number of cells; the attacks among the legal actions stay on the board; the
    /// marks on the cells are those of the selection; a selection is that of a tile
    /// of the board, taken from the legal actions of the turn.
    pub open spec fn wf(self) -> bool {
        &&& self.turn.wf()
        &&& self.template.cells.len() == self.turn.board.tiles.len()
        &&& self.tessellation == painted(self.template, self.turn.board.tiles, self.selected)
        &&& self.selected matches Some(s) ==> {
            &&& is_index_of(self.turn.board.tiles, s.coordinate, s.index as int)
            &&& s == self.selection_at(s.coordinate)
        }
    }

    /// The game after a tap on `coordinate`.
    ///
    /// With nothing selected, the tapped tile becomes the attacker. With an attacker
    /// selected, a tap on it takes the selection away, and a tap anywhere else leaves
    /// the game as it is: a tap on a threatened cell asks for the session to be
    /// advanced, and the game changes when the new turn is adopted. A tap off the
    /// board changes nothing.
    pub open spec fn tapped(self, coordinate: Axial) -> GameView {
        if !on_board(self.turn.board.tiles, coordinate) {
            self
        } else {
            match self.selected {
                None => self.with_selection(Some(self.selection_at(coordinate))),
                Some(s) => if s.index == index_of(self.turn.board.tiles, coordinate) {
                    self.with_selection(None)
                } else {
                    self
                },
            }
        }
    }

    /// What a tap on `coordinate` leads to.
    pub open spec fn outcome(self, coordinate: Axial) -> Outcome {
        let tiles = self.turn.board.tiles;
        if !on_board(tiles, coordinate) {
            Outcome::OutOfGrid
        } else {
            match self.selected {
                None => Outcome::Selected,
                Some(s) => if s.index == index_of(tiles, coordinate) {
                    Outcome::Deselected
                } else if s.threatened.contains(
                    Threatened { index: index_of(tiles, coordinate) as usize, coordinate },
                ) {
                    Outcome::Attack(first_attack(self.turn.choices, s.coordinate, coordinate) as usize)
                } else {
                    Outcome::Invalid
                },
            }
        }
    }

    /// The game after the session has advanced to `turn`: the new turn, nothing
    /// selected, and the tessellation of the template and the new board.
    pub open spec fn adopted(self, turn: TurnView) -> GameView {
        GameView {
            turn,
            selected: None,
            tessellation: painted(self.template, turn.board.tiles, None),
            ..self
        }
    }

    /// The cell under a pixel that is measured from the centre of the first cell.
    pub open spec fn hexagon_under(self, pixel: Point) -> Axial {
        Axial {
            column: hex_column(pixel.x as int, pixel.y as int, self.template.radius as int) as i32,
            row: hex_row(pixel.y as int, self.template.radius as int) as i32,
        }
    }

    /// Whether the player to move is automated.
    pub open spec fn current_player_ai(self) -> bool {
        self.automated.contains(self.turn.board.current_player)
    }
}

/// The game: the template of the grid, the current turn as the engine reported it,
/// the tessellation to draw, the selection, and which players are automated.
pub struct Game {
    ai_players: HashSet<usize>,
    ai_compute_horizon: usize,
    move_limit: u8,
    template: Template,
    tessellation: Tessellation,
    turn: Turn,
    selected: Option<Selected>,
}

impl View for Game {
    type V = GameView;

    closed spec fn view(&self) -> GameView {
        GameView {
            automated: self.ai_players@,
            horizon: self.ai_compute_horizon,
            move_limit: self.move_limit,
            template: self.template@,
            tessellation: self.tessellation@,
            turn: self.turn@,
            selected: match self.selected {
                Some(s) => Some(s@),
                None => None,
            },
        }
    }
}

impl Game {
    /// The game at the given turn, with nothing selected and every cell safe.
    ///
    /// `ai_players` holds the numbers of the automated players, `ai_compute_horizon`
    /// the depth to which the engine is to search for them, `move_limit` the moves a
    /// player may make in a turn.
    pub fn new(
        turn: Turn,
        ai_players: HashSet<usize>,
        ai_compute_horizon: usize,
        move_limit: u8,
        template: Template,
    ) -> (game: Self)
        requires
            template@.cells.len() == turn@.board.tiles.len(),
        ensures
            game@.wf(),
            game@ == (GameView {
                automated: ai_players@,
                horizon: ai_compute_horizon,
                move_limit,
                template: template@,
                tessellation: painted(template@, turn@.board.tiles, None),
                turn: turn@,
                selected: None,
            }),
    {
        proof {
            use_type_invariant(&turn);
        }
        let tessellation = generate_tessellation(&template, turn.board());
        assert(tessellation@.cells =~= painted(template@, turn@.board.tiles, None).cells);
        Game {
            ai_players,
            ai_compute_horizon,
            move_limit,
            template,
            tessellation,
            turn,
            selected: None,
        }
    }

    /// The tessellation to draw.
    pub fn tessellation(&self) -> (tessellation: Tessellation)
        ensures
            tessellation@ == self@.tessellation,
    {
        self.tessellation.clone()
    }

    /// Whether the player to move is automated.
    pub fn current_player_ai(&self) -> (automated: bool)
        ensures
            automated == self@.current_player_ai(),
    {
        let current = self.turn.board().current_player();
        self.ai_players.contains(&current)
    }

    /// The number of the player to move, as far as eight bits hold it.
    pub fn current_player_id(&self) -> (id: u8)
        ensures
            id == self@.turn.board.current_player % 256,
    {
        (self.turn.board().current_player() % 256) as u8
    }

    /// The moves a player may make in a turn.
    pub fn move_limit(&self) -> (limit: u8)
        ensures
            limit == self@.move_limit,
    {
        self.move_limit
    }

    /// The moves the player to move has made in this turn.
    pub fn current_player_moves_made(&self) -> (moved: u8)
        ensures
            moved == self@.turn.board.moved,
    {
        self.turn.board().moved()
    }

    /// The moves the player to move may still make in this turn, who has made no
    /// more than the limit allows.
    pub fn current_player_moves_left(&self) -> (moves: u8)
        requires
            self@.turn.board.moved <= self@.move_limit,
        ensures
            moves == self@.move_limit - self@.turn.board.moved,
    {
        self.move_limit - self.turn.board().moved()
    }

    /// The dice the player to move has captured.
    pub fn current_player_dice_captured(&self) -> (dice: u8)
        ensures
            dice == self@.turn.board.captured_dice,
    {
        self.turn.board().captured_dice()
    }
}

impl Game {
    /// Runs one tap on the board at the pixel `pixel`, which is measured from the
    /// centre of the first cell. The cells need a radius for a pixel to lie in one.
    pub fn select_hex_with_pixel(&mut self, pixel: Point) -> (outcome: Outcome)
        requires
            old(self)@.wf(),
            old(self)@.template.radius > 0,
        ensures
            final(self)@.wf(),
            final(self)@ == old(self)@.tapped(old(self)@.hexagon_under(pixel)),
            outcome == old(self)@.outcome(old(self)@.hexagon_under(pixel)),
    {
        let coordinate = pixel.hexagon_axial(self.template.radius());
        self.select_hexagon(coordinate)
    }

    /// Runs one tap on the cell at `coordinate`.
    pub fn select_hexagon(&mut self, coordinate: Axial) -> (outcome: Outcome)
        requires
            old(self)@.wf(),
        ensures
            final(self)@.wf(),
            final(self)@ == old(self)@.tapped(coordinate),
            outcome == old(self)@.outcome(coordinate),
    {
        let index = match self.turn.board().fetch_index(coordinate) {
            Ok(index) => index,
            Err(_) => {
                return Outcome::OutOfGrid;
            },
        };
        proof {
            lemma_index_of(self@.turn.board.tiles, coordinate);
        }
        let mut selection: Option<Selected> = None;
        std::mem::swap(&mut selection, &mut self.selected);
        match selection {
            Some(selection) => self.second_select_hexagon(selection, coordinate, index),
            None => {
                self.first_select_hexagon(coordinate, index);
                Outcome::Selected
            },
        }
    }

    /// Makes the tile at `coordinate`, which is the one at `index`, the attacker, and
    /// marks it and the cells it threatens.
    fn first_select_hexagon(&mut self, coordinate: Axial, index: usize)
        requires
            old(self)@.wf(),
            old(self)@.selected is None,
            is_index_of(old(self)@.turn.board.tiles, coordinate, index as int),
        ensures
            final(self)@.wf(),
            final(self)@ == old(self)@.with_selection(Some(old(self)@.selection_at(coordinate))),
    {
        let ghost before = self@;
        let ghost tiles = before.turn.board.tiles;
        proof {
            lemma_paint_attacker(before.template, tiles, index, coordinate);
        }
        self.tessellation.set_attacking(index);
        let choices = self.turn.choices();
        let mut threatened: Vec<Threatened> = Vec::new();
        let mut i: usize = 0;
        assert(choices@.take(0) =~= Seq::<Choice>::empty());
        while i < choices.len()
            invariant
                i <= choices@.len(),
                before.wf(),
                tiles == before.turn.board.tiles,
                choices@ == before.turn.choices,
                is_index_of(tiles, coordinate, index as int),
                self.turn@ == before.turn,
                self.template@ == before.template,
                self@ == (GameView { tessellation: self.tessellation@, ..before }),
                threatened@ == threats(choices@.take(i as int), tiles, coordinate),
                self.tessellation@ == painted(
                    before.template,
                    tiles,
                    Some(SelectedView { index, coordinate, threatened: threatened@ }),
                ),
            decreases choices@.len() - i,
        {
            proof {
                lemma_threats_step(choices@, tiles, coordinate, i as int);
            }
            match choices[i].action {
                Action::Attack { from, to } => {
                    if from == coordinate {
                        assert(choices@[i as int].action.within(tiles));
                        match self.turn.board().fetch_index(to) {
                            Ok(place) => {
                                proof {
                                    lemma_index_of(tiles, to);
                                    lemma_paint_threat(
                                        before.template,
                                        tiles,
                                        SelectedView {
                                            index,
                                            coordinate,
                                            threatened: threatened@,
                                        },
                                        Threatened { index: place, coordinate: to },
                                    );
                                }
                                self.tessellation.set_threatened(place);
                                threatened.push(Threatened::new(place, to));
                            },
                            Err(_) => {},
                        }
                    }
                },
                Action::Other => {},
            }
            i += 1;
        }
        assert(choices@.take(i as int) =~= choices@);
        self.selected = Some(Selected::new(index, coordinate, threatened.as_slice()));
    }

    /// Runs a tap on the tile at `coordinate`, which is the one at `index`, while
    /// `selection` is the attacker: the attacker stands down, or an attack is
    /// confirmed, or the tap is of no use.
    fn second_select_hexagon(&mut self, selection: Selected, coordinate: Axial, index: usize) -> (outcome:
        Outcome)
        requires
            old(self)@.selected is None,
            (GameView { selected: Some(selection@), ..old(self)@ }).wf(),
            is_index_of(old(self)@.turn.board.tiles, coordinate, index as int),
        ensures
            final(self)@.wf(),
            final(self)@ == (GameView { selected: Some(selection@), ..old(self)@ }).tapped(
                coordinate,
            ),
            outcome == (GameView { selected: Some(selection@), ..old(self)@ }).outcome(coordinate),
    {
        let ghost held = GameView { selected: Some(selection@), ..self@ };
        proof {
            lemma_index_of(held.turn.board.tiles, coordinate);
        }
        if selection.index() == index {
            self.deselect_hexagon(selection);
            return Outcome::Deselected;
        }
        let check = Threatened::new(index, coordinate);
        if selection.threatens(check) {
            let choice = self.attack_hexagon(check, &selection);
            proof {
                lemma_first_attack(held.turn.choices, selection@.coordinate, coordinate, choice as int);
            }
            self.selected = Some(selection);
            return Outcome::Attack(choice);
        }
        self.selected = Some(selection);
        Outcome::Invalid
    }

    /// The place, in the list of legal actions, of the first attack of the attacker
    /// on the threatened cell.
    fn attack_hexagon(&self, attacked: Threatened, attacker: &Selected) -> (choice: usize)
        requires
            self@.turn.wf(),
            on_board(self@.turn.board.tiles, attacker@.coordinate),
            attacker@.threatened == threats(
                self@.turn.choices,
                self@.turn.board.tiles,
                attacker@.coordinate,
            ),
            attacker@.threatened.contains(attacked),
        ensures
            is_first_attack(self@.turn.choices, attacker@.coordinate, attacked.coordinate, choice as int),
    {
        let choices = self.turn.choices();
        proof {
            lemma_threats(choices@, self@.turn.board.tiles, attacker@.coordinate);
            let k = choose|k: int|
                0 <= k < attacker@.threatened.len() && attacker@.threatened[k] == attacked;
            assert(threats(choices@, self@.turn.board.tiles, attacker@.coordinate)[k] == attacked);
        }
        let mut i: usize = 0;
        while i < choices.len()
            invariant
                i <= choices@.len(),
                choices@ == self@.turn.choices,
                forall|j: int|
                    0 <= j < i ==> !(#[trigger] choices@[j]).action.is_attack(
                        attacker@.coordinate,
                        attacked.coordinate,
                    ),
                exists|j: int|
                    0 <= j < choices@.len() && (#[trigger] choices@[j]).action.is_attack(
                        attacker@.coordinate,
                        attacked.coordinate,
                    ),
            decreases choices@.len() - i,
        {
            match choices[i].action {
                Action::Attack { from, to } => {
                    if from == attacker.coordinate() && to == attacked.coordinate {
                        return i;
                    }
                },
                Action::Other => {},
            }
            i += 1;
        }
        i
    }

    /// Takes the selection away: the attacker and the cells it threatened are safe
    /// again.
    fn deselect_hexagon(&mut self, selection: Selected)
        requires
            old(self)@.selected is None,
            (GameView { selected: Some(selection@), ..old(self)@ }).wf(),
        ensures
            final(self)@.wf(),
            final(self)@ == old(self)@.with_selection(None),
    {
        let ghost before = self@;
        let ghost tiles = before.turn.board.tiles;
        let ghost held = selection@;
        proof {
            lemma_threats(before.turn.choices, tiles, held.coordinate);
            lemma_clear_attacker(before.template, tiles, held);
        }
        self.tessellation.set_safe(selection.index());
        let threatened = selection.threatened();
        let mut i: usize = 0;
        while i < threatened.len()
            invariant
                i <= threatened@.len(),
                threatened@ == held.threatened,
                held == selection@,
                tiles.len() == before.template.cells.len(),
                forall|k: int|
                    0 <= k < held.threatened.len() ==> (#[trigger] held.threatened[k]).index
                        < tiles.len(),
                self@ == (GameView { tessellation: self.tessellation@, ..before }),
                self.tessellation@ == clearing(before.template, tiles, held, i as int),
            decreases threatened@.len() - i,
        {
            proof {
                lemma_clear_threat(before.template, tiles, held, i as int);
            }
            self.tessellation.set_safe(threatened[i].index);
            i += 1;
        }
        proof {
            lemma_cleared(before.template, tiles, held);
        }
    }

    /// Takes up the turn that the session has advanced to: the old turn, the
    /// selection and the old tessellation go, and the tessellation is made anew from
    /// the template and the new board.
    pub fn adopt_turn(&mut self, turn: Turn)
        requires
            old(self)@.wf(),
            turn@.board.tiles.len() == old(self)@.template.cells.len(),
        ensures
            final(self)@.wf(),
            final(self)@ == old(self)@.adopted(turn@),
    {
        proof {
            use_type_invariant(&turn);
        }
        let tessellation = generate_tessellation(&self.template, turn.board());
        assert(tessellation@.cells =~= painted(self.template@, turn@.board.tiles, None).cells);
        self.turn = turn;
        self.tessellation = tessellation;
        self.selected = None;
    }

    /// Whether the game is to go on without a player's input. If the game is still
    /// on and the player to move is automated, the depth comes back to which the
    /// engine is to search and score the legal actions; the best of them, by
    /// `handle_ai_turn`, is the one to advance the session with. Otherwise nothing
    /// comes back, and nothing is to be done.
    pub fn advance(&self) -> (horizon: Option<usize>)
        ensures
            horizon == if self@.turn.progression == Progression::PlayOn
                && self@.current_player_ai() {
                Some(self@.horizon)
            } else {
                None
            },
    {
        match self.turn.game() {
            Progression::PlayOn => {},
            Progression::GameOverWinner(_) => {
                return None;
            },
            Progression::GameOverStalemate => {
                return None;
            },
        }
        if self.current_player_ai() {
            Some(self.ai_compute_horizon)
        } else {
            None
        }
    }
}

/// `best` is the place of the highest score, and the first place that has it.
pub open spec fn is_best(choices: Seq<Choice>, best: int) -> bool {
    &&& 0 <= best < choices.len()
    &&& forall|j: int|
        0 <= j < choices.len() ==> (#[trigger] choices[j]).score->0 <= choices[best].score->0
    &&& forall|j: int| 0 <= j < best ==> (#[trigger] choices[j]).score->0 < choices[best].score->0
}

/// The place of the choice that an automated player makes: that of the highest
/// score, and of several with the highest score the first in the list. A choice takes
/// the lead only with a score strictly above the one that leads. Of an empty list the
/// place is 0.
pub fn handle_ai_turn(choices: &[Choice]) -> (best: usize)
    requires
        forall|i: int| 0 <= i < choices@.len() ==> (#[trigger] choices@[i]).score is Some,
    ensures
        choices@.len() == 0 ==> best == 0,
        choices@.len() > 0 ==> is_best(choices@, best as int),
{
    if choices.len() == 0 {
        return 0;
    }
    let mut index: usize = 0;
    let mut best: i64 = match choices[0].score {
        Some(score) => score,
        None => 0,
    };
    let mut count: usize = 1;
    while count < choices.len()
        invariant
            1 <= count <= choices@.len(),
            index < count,
            forall|i: int| 0 <= i < choices@.len() ==> (#[trigger] choices@[i]).score is Some,
            best == choices@[index as int].score->0,
            forall|j: int| 0 <= j < count ==> (#[trigger] choices@[j]).score->0 <= best,
            forall|j: int| 0 <= j < index ==> (#[trigger] choices@[j]).score->0 < best,
        decreases choices@.len() - count,
    {
        match choices[count].score {
            Some(score) => {
                if score > best {
                    index = count;
                    best = score;
                }
            },
            None => {},
        }
        count += 1;
    }
    index
}

/// Selecting an attacker and tapping it again leaves the game as it was.
///
/// With nothing selected, a tap on a tile selects it; a second tap on the same
/// tile takes the selection away again, and the game is then what it was before the
/// first tap: nothing selected, and every cell that the selection had marked as
/// attacking or threatened safe again, no other cell changed.
pub proof fn lemma_select_then_deselect(game: GameView, coordinate: Axial)
    requires
        game.wf(),
        game.selected is None,
        on_board(game.turn.board.tiles, coordinate),
    ensures
        game.outcome(coordinate) == Outcome::Selected,
        game.tapped(coordinate).wf(),
        game.tapped(coordinate).selected == Some(game.selection_at(coordinate)),
        game.tapped(coordinate).outcome(coordinate) == Outcome::Deselected,
        game.tapped(coordinate).tapped(coordinate) == game,
        forall|i: int|
            0 <= i < game.tessellation.cells.len() ==> (#[trigger] game.tapped(coordinate).tapped(
                coordinate,
            ).tessellation.cells[i]) == game.tapped(coordinate).tessellation.cells[i].with_danger(
                Danger::Safe,
            ),
{
    lemma_index_of(game.turn.board.tiles, coordinate);
}

/// A tap that is of no use changes nothing.
///
/// With an attacker selected, a tap on a tile that is neither the attacker nor the
/// goal of any of its attacks leaves the whole game as it is: the attacker, the cells
/// it threatens and the mark on every cell.
pub proof fn lemma_useless_tap(game: GameView, attacker: Axial, tapped: Axial)
    requires
        game.wf(),
        game.selected is None,
        on_board(game.turn.board.tiles, attacker),
        on_board(game.turn.board.tiles, tapped),
        tapped != attacker,
        forall|i: int|
            0 <= i < game.turn.choices.len() ==> !(#[trigger] game.turn.choices[i]).action.is_attack(
                attacker,
                tapped,
            ),
    ensures
        game.tapped(attacker).outcome(tapped) == Outcome::Invalid,
        game.tapped(attacker).tapped(tapped) == game.tapped(attacker),
{
    let tiles = game.turn.board.tiles;
    lemma_index_of(tiles, attacker);
    lemma_index_of(tiles, tapped);
    lemma_threats(game.turn.choices, tiles, attacker);
    let selection = game.selection_at(attacker);
    let cell = Threatened { index: index_of(tiles, tapped) as usize, coordinate: tapped };
    if selection.threatened.contains(cell) {
        let k = choose|k: int| 0 <= k < selection.threatened.len() && selection.threatened[k] == cell;
        assert(threats(game.turn.choices, tiles, attacker)[k].coordinate == tapped);
    }
}

/// A tap on a threatened cell asks for one attack, and the turn that follows it
/// starts afresh.
///
/// With an attacker selected, a tap on another tile that one of its attacks goes to
/// comes back as the request to advance the session with that attack, the first in
/// the list from the attacker on the tapped tile, and changes nothing. When the turn
/// that the session then arrives at is adopted, nothing is selected and the
/// tessellation is that of the template and the new board, every cell safe.
pub proof fn lemma_attack_tap(
    game: GameView,
    attacker: Axial,
    tapped: Axial,
    place: int,
    next: TurnView,
)
    requires
        game.wf(),
        game.selected is None,
        on_board(game.turn.board.tiles, attacker),
        tapped != attacker,
        0 <= place < game.turn.choices.len(),
        game.turn.choices[place].action.is_attack(attacker, tapped),
        next.wf(),
        next.board.tiles.len() == game.template.cells.len(),
    ensures
        is_first_attack(
            game.turn.choices,
            attacker,
            tapped,
            first_attack(game.turn.choices, attacker, tapped),
        ),
        game.tapped(attacker).outcome(tapped) == Outcome::Attack(
            first_attack(game.turn.choices, attacker, tapped) as usize,
        ),
        game.tapped(attacker).tapped(tapped) == game.tapped(attacker),
        game.tapped(attacker).adopted(next).wf(),
        game.tapped(attacker).adopted(next).selected is None,
        game.tapped(attacker).adopted(next).turn == next,
        game.tapped(attacker).adopted(next).tessellation == painted(
            game.template,
            next.board.tiles,
            None,
        ),
{
    let tiles = game.turn.board.tiles;
    assert(game.turn.choices[place].action.within(tiles));
    lemma_index_of(tiles, attacker);
    lemma_index_of(tiles, tapped);
    lemma_threats(game.turn.choices, tiles, attacker);
    lemma_first_attack(game.turn.choices, attacker, tapped, place);
    assert(game.turn.choices[place].action.attacks_from(attacker));
}

} // verus!
