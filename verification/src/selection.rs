//! The selection: the attacker, the cells it threatens, and the marks that both put
//! on the cells of the tessellation.
use vstd::prelude::*;
use crate::board::is_index_of;
use crate::board::on_board;
use crate::board::Choice;
use crate::board::Tile;
use crate::grid::drawn;
use crate::grid::TemplateView;
use crate::grid::TessellationView;
use crate::hex::Danger;
use crate::primitive::Axial;

verus! {

/// A cell under threat: its place on the board and its coordinate.
#[derive(Debug, Copy, Clone, PartialEq, Eq, Structural)]
pub struct Threatened {
    pub index: usize,
    pub coordinate: Axial,
}

impl Threatened {
    pub fn new(index: usize, coordinate: Axial) -> (threatened: Self)
        ensures
            threatened == (Threatened { index, coordinate }),
    {
        Threatened { index, coordinate }
    }
}

/// What a selection holds.
pub ghost struct SelectedView {
    pub index: usize,
    pub coordinate: Axial,
    pub threatened: Seq<Threatened>,
}

/// The selected attacker: its place on the board, its coordinate, and the cells it
/// threatens, as they stood when it was selected.
#[derive(Debug)]
pub struct Selected {
    index: usize,
    coordinate: Axial,
    threatened: Vec<Threatened>,
}

impl View for Selected {
    type V = SelectedView;

    closed spec fn view(&self) -> SelectedView {
        SelectedView { index: self.index, coordinate: self.coordinate, threatened: self.threatened@ }
    }
}

impl Clone for Selected {
    fn clone(&self) -> (copy: Self)
        ensures
            copy@ == self@,
    {
        Selected {
            index: self.index,
            coordinate: self.coordinate,
            threatened: vstd::slice::slice_to_vec(self.threatened.as_slice()),
        }
    }
}

impl Selected {
    pub fn new(index: usize, coordinate: Axial, threatened: &[Threatened]) -> (selected: Self)
        ensures
            selected@ == (SelectedView { index, coordinate, threatened: threatened@ }),
    {
        Selected { index, coordinate, threatened: vstd::slice::slice_to_vec(threatened) }
    }

    /// The attacker's place on the board.
    pub fn index(&self) -> (index: usize)
        ensures
            index == self@.index,
    {
        self.index
    }

    /// The attacker's coordinate.
    pub fn coordinate(&self) -> (coordinate: Axial)
        ensures
            coordinate == self@.coordinate,
    {
        self.coordinate
    }

    /// The cells the attacker threatens.
    pub fn threatened(&self) -> (threatened: &[Threatened])
        ensures
            threatened@ == self@.threatened,
    {
        self.threatened.as_slice()
    }

    /// Whether the cell is among those the attacker threatens.
    pub fn threatens(&self, cell: Threatened) -> (found: bool)
        ensures
            found == self@.threatened.contains(cell),
    {
        let mut i: usize = 0;
        while i < self.threatened.len()
            invariant
                i <= self.threatened@.len(),
                forall|j: int| 0 <= j < i ==> self.threatened@[j] != cell,
            decreases self.threatened@.len() - i,
        {
            if self.threatened[i] == cell {
                return true;
            }
            i += 1;
        }
        false
    }
}

/// The place of the tile at `coordinate`, where the board has one.
pub open spec fn index_of(tiles: Seq<Tile>, coordinate: Axial) -> int {
    choose|i: int| is_index_of(tiles, coordinate, i)
}

/// The cells that the tile at `from` threatens: for every attack among `choices`
/// that starts from `from`, in the order of the list, the cell it goes to.
pub open spec fn threats(choices: Seq<Choice>, tiles: Seq<Tile>, from: Axial) -> Seq<Threatened>
    decreases choices.len(),
{
    if choices.len() == 0 {
        Seq::empty()
    } else {
        let earlier = threats(choices.drop_last(), tiles, from);
        let action = choices.last().action;
        if action.attacks_from(from) {
            earlier.push(
                Threatened { index: index_of(tiles, action.target()) as usize, coordinate: action.target() },
            )
        } else {
            earlier
        }
    }
}

/// `place` is where the first attack from `from` on `to` stands in `choices`.
pub open spec fn is_first_attack(choices: Seq<Choice>, from: Axial, to: Axial, place: int) -> bool {
    &&& 0 <= place < choices.len()
    &&& choices[place].action.is_attack(from, to)
    &&& forall|j: int| 0 <= j < place ==> !(#[trigger] choices[j]).action.is_attack(from, to)
}

/// Where the first attack from `from` on `to` stands in `choices`, if there is one.
pub open spec fn first_attack(choices: Seq<Choice>, from: Axial, to: Axial) -> int {
    choose|place: int| is_first_attack(choices, from, to, place)
}

/// The mark on the cell at `place` under a selection: threatened if the attacker
/// threatens it, attacking if it is the attacker, safe otherwise and whenever nothing
/// is selected.
pub open spec fn danger_under(selected: Option<SelectedView>, place: int) -> Danger {
    match selected {
        None => Danger::Safe,
        Some(s) => if exists|k: int|
            0 <= k < s.threatened.len() && (#[trigger] s.threatened[k]).index == place {
            Danger::Threatened
        } else if s.index == place {
            Danger::Attacking
        } else {
            Danger::Safe
        },
    }
}

/// The tessellation of a template and the tiles of a board under a selection.
pub open spec fn painted(
    template: TemplateView,
    tiles: Seq<Tile>,
    selected: Option<SelectedView>,
) -> TessellationView {
    TessellationView {
        rows: template.rows,
        columns: template.columns,
        radius: template.radius,
        cells: Seq::new(
            template.cells.len(),
            |i: int| drawn(template.cells[i], tiles[i]).with_danger(danger_under(selected, i)),
        ),
    }
}

/// A coordinate that some tile has, has a first tile, and `index_of` names it.
pub proof fn lemma_index_of(tiles: Seq<Tile>, coordinate: Axial)
    requires
        on_board(tiles, coordinate),
    ensures
        is_index_of(tiles, coordinate, index_of(tiles, coordinate)),
{
    let j = choose|j: int| 0 <= j < tiles.len() && (#[trigger] tiles[j]).coordinate == coordinate;
    let i = lemma_first_tile(tiles, coordinate, j);
}

proof fn lemma_first_tile(tiles: Seq<Tile>, coordinate: Axial, j: int) -> (i: int)
    requires
        0 <= j < tiles.len(),
        tiles[j].coordinate == coordinate,
    ensures
        is_index_of(tiles, coordinate, i),
    decreases j,
{
    if exists|k: int| 0 <= k < j && (#[trigger] tiles[k]).coordinate == coordinate {
        let k = choose|k: int| 0 <= k < j && (#[trigger] tiles[k]).coordinate == coordinate;
        lemma_first_tile(tiles, coordinate, k)
    } else {
        j
    }
}

/// An attack that stands in the list has a first place there, and `first_attack`
/// names it.
pub proof fn lemma_first_attack(choices: Seq<Choice>, from: Axial, to: Axial, j: int)
    requires
        0 <= j < choices.len(),
        choices[j].action.is_attack(from, to),
    ensures
        is_first_attack(choices, from, to, first_attack(choices, from, to)),
    decreases j,
{
    if exists|k: int| 0 <= k < j && (#[trigger] choices[k]).action.is_attack(from, to) {
        let k = choose|k: int| 0 <= k < j && (#[trigger] choices[k]).action.is_attack(from, to);
        lemma_first_attack(choices, from, to, k);
    } else {
        assert(is_first_attack(choices, from, to, j));
    }
}

/// The threatened cells of a list one action longer.
pub(crate) proof fn lemma_threats_step(choices: Seq<Choice>, tiles: Seq<Tile>, from: Axial, i: int)
    requires
        0 <= i < choices.len(),
    ensures
        threats(choices.take(i + 1), tiles, from) == if choices[i].action.attacks_from(from) {
            threats(choices.take(i), tiles, from).push(
                Threatened {
                    index: index_of(tiles, choices[i].action.target()) as usize,
                    coordinate: choices[i].action.target(),
                },
            )
        } else {
            threats(choices.take(i), tiles, from)
        },
{
    assert(choices.take(i + 1).drop_last() =~= choices.take(i));
}

/// The threatened cells are the cells that attacks from `from` go to, neither more
/// nor fewer, each with its place on the board.
pub proof fn lemma_threats(choices: Seq<Choice>, tiles: Seq<Tile>, from: Axial)
    requires
        tiles.len() <= usize::MAX,
        on_board(tiles, from),
        forall|i: int| 0 <= i < choices.len() ==> (#[trigger] choices[i]).action.within(tiles),
    ensures
        forall|k: int|
            0 <= k < threats(choices, tiles, from).len() ==> {
                let t = #[trigger] threats(choices, tiles, from)[k];
                &&& is_index_of(tiles, t.coordinate, t.index as int)
                &&& exists|i: int|
                    0 <= i < choices.len() && (#[trigger] choices[i]).action.is_attack(from, t.coordinate)
            },
        forall|i: int|
            0 <= i < choices.len() && (#[trigger] choices[i]).action.attacks_from(from)
                ==> threats(choices, tiles, from).contains(
                Threatened {
                    index: index_of(tiles, choices[i].action.target()) as usize,
                    coordinate: choices[i].action.target(),
                },
            ),
    decreases choices.len(),
{
    if choices.len() > 0 {
        let shorter = choices.drop_last();
        let last = choices.len() - 1;
        lemma_threats(shorter, tiles, from);
        let earlier = threats(shorter, tiles, from);
        let all = threats(choices, tiles, from);
        let action = choices.last().action;
        assert(choices[last].action.within(tiles));
        if action.attacks_from(from) {
            lemma_index_of(tiles, action.target());
        }
        assert forall|k: int| 0 <= k < all.len() implies {
            let t = #[trigger] all[k];
            &&& is_index_of(tiles, t.coordinate, t.index as int)
            &&& exists|i: int|
                0 <= i < choices.len() && (#[trigger] choices[i]).action.is_attack(from, t.coordinate)
        } by {
            let t = all[k];
            if k < earlier.len() {
                assert(t == earlier[k]);
                let i = choose|i: int|
                    0 <= i < shorter.len() && (#[trigger] shorter[i]).action.is_attack(from, t.coordinate);
                assert(choices[i].action.is_attack(from, t.coordinate));
            } else {
                assert(choices[last].action.is_attack(from, t.coordinate));
            }
        }
        assert forall|i: int|
            0 <= i < choices.len() && (#[trigger] choices[i]).action.attacks_from(
                from,
            ) implies all.contains(
            Threatened {
                index: index_of(tiles, choices[i].action.target()) as usize,
                coordinate: choices[i].action.target(),
            },
        ) by {
            let to = choices[i].action.target();
            let t = Threatened { index: index_of(tiles, to) as usize, coordinate: to };
            if i < last {
                assert(shorter[i].action.attacks_from(from));
                assert(earlier.contains(t));
                let k = choose|k: int| 0 <= k < earlier.len() && earlier[k] == t;
                assert(all[k] == t);
            } else {
                assert(all[all.len() - 1] == t);
            }
        }
    }
}

/// Marking the attacker on an unmarked tessellation gives that of the attacker
/// selected with nothing threatened yet.
pub(crate) proof fn lemma_paint_attacker(template: TemplateView, tiles: Seq<Tile>, index: usize, coordinate: Axial)
    requires
        index < template.cells.len(),
    ensures
        painted(template, tiles, None).marked(index as int, Danger::Attacking) == painted(
            template,
            tiles,
            Some(SelectedView { index, coordinate, threatened: Seq::empty() }),
        ),
{
    let marked = painted(template, tiles, None).marked(index as int, Danger::Attacking);
    let goal = painted(
        template,
        tiles,
        Some(SelectedView { index, coordinate, threatened: Seq::empty() }),
    );
    vstd::arithmetic::div_mod::lemma_small_mod(index as nat, template.cells.len());
    assert(marked.cells =~= goal.cells);
}

/// Marking one more threatened cell gives the tessellation of the selection with
/// that cell added.
pub(crate) proof fn lemma_paint_threat(
    template: TemplateView,
    tiles: Seq<Tile>,
    selected: SelectedView,
    t: Threatened,
)
    requires
        t.index < template.cells.len(),
    ensures
        painted(template, tiles, Some(selected)).marked(t.index as int, Danger::Threatened)
            == painted(
            template,
            tiles,
            Some(SelectedView { threatened: selected.threatened.push(t), ..selected }),
        ),
{
    let more = SelectedView { threatened: selected.threatened.push(t), ..selected };
    let marked = painted(template, tiles, Some(selected)).marked(
        t.index as int,
        Danger::Threatened,
    );
    let goal = painted(template, tiles, Some(more));
    vstd::arithmetic::div_mod::lemma_small_mod(t.index as nat, template.cells.len());
    assert forall|j: int| 0 <= j < template.cells.len() implies marked.cells[j]
        == goal.cells[j] by {
        if j == t.index {
            assert(more.threatened[selected.threatened.len() as int].index == j);
        } else {
            if exists|k: int|
                0 <= k < selected.threatened.len() && (#[trigger] selected.threatened[k]).index
                    == j {
                let k = choose|k: int|
                    0 <= k < selected.threatened.len() && (#[trigger] selected.threatened[k]).index
                        == j;
                assert(more.threatened[k].index == j);
            }
            if exists|k: int|
                0 <= k < more.threatened.len() && (#[trigger] more.threatened[k]).index == j {
                let k = choose|k: int|
                    0 <= k < more.threatened.len() && (#[trigger] more.threatened[k]).index == j;
                assert(selected.threatened[k].index == j);
            }
        }
    }
    assert(marked.cells =~= goal.cells);
}

/// The mark on a cell while a selection is being taken away: the attacker and the
/// first `cleared` of its threatened cells are safe again, the rest is as it was.
pub(crate) open spec fn danger_while_clearing(selected: SelectedView, cleared: int, place: int) -> Danger {
    if place == selected.index || exists|m: int|
        0 <= m < cleared && (#[trigger] selected.threatened[m]).index == place {
        Danger::Safe
    } else {
        danger_under(Some(selected), place)
    }
}

/// The tessellation while a selection is being taken away.
pub(crate) open spec fn clearing(
    template: TemplateView,
    tiles: Seq<Tile>,
    selected: SelectedView,
    cleared: int,
) -> TessellationView {
    TessellationView {
        rows: template.rows,
        columns: template.columns,
        radius: template.radius,
        cells: Seq::new(
            template.cells.len(),
            |i: int|
                drawn(template.cells[i], tiles[i]).with_danger(
                    danger_while_clearing(selected, cleared, i),
                ),
        ),
    }
}

pub(crate) proof fn lemma_clear_attacker(template: TemplateView, tiles: Seq<Tile>, selected: SelectedView)
    requires
        selected.index < template.cells.len(),
    ensures
        painted(template, tiles, Some(selected)).marked(selected.index as int, Danger::Safe)
            == clearing(template, tiles, selected, 0),
{
    let marked = painted(template, tiles, Some(selected)).marked(
        selected.index as int,
        Danger::Safe,
    );
    vstd::arithmetic::div_mod::lemma_small_mod(selected.index as nat, template.cells.len());
    assert(marked.cells =~= clearing(template, tiles, selected, 0).cells);
}

pub(crate) proof fn lemma_clear_threat(
    template: TemplateView,
    tiles: Seq<Tile>,
    selected: SelectedView,
    cleared: int,
)
    requires
        0 <= cleared < selected.threatened.len(),
        selected.threatened[cleared].index < template.cells.len(),
    ensures
        clearing(template, tiles, selected, cleared).marked(
            selected.threatened[cleared].index as int,
            Danger::Safe,
        ) == clearing(template, tiles, selected, cleared + 1),
{
    let place = selected.threatened[cleared].index as int;
    let marked = clearing(template, tiles, selected, cleared).marked(place, Danger::Safe);
    let goal = clearing(template, tiles, selected, cleared + 1);
    vstd::arithmetic::div_mod::lemma_small_mod(place as nat, template.cells.len());
    assert forall|j: int| 0 <= j < template.cells.len() implies marked.cells[j]
        == goal.cells[j] by {
        if j != place && j != selected.index {
            if exists|m: int|
                0 <= m < cleared + 1 && (#[trigger] selected.threatened[m]).index == j {
                let m = choose|m: int|
                    0 <= m < cleared + 1 && (#[trigger] selected.threatened[m]).index == j;
                assert(m < cleared);
            }
        }
    }
    assert(marked.cells =~= goal.cells);
}

pub(crate) proof fn lemma_cleared(template: TemplateView, tiles: Seq<Tile>, selected: SelectedView)
    ensures
        clearing(template, tiles, selected, selected.threatened.len() as int) == painted(
            template,
            tiles,
            None,
        ),
{
    assert(clearing(template, tiles, selected, selected.threatened.len() as int).cells
        =~= painted(template, tiles, None).cells);
}

} // verus!
