//! The nine-cell board and the validated index that addresses its cells.

use crate::error::Error;
use crate::mark::Mark;
use vstd::prelude::*;
use vstd::string::*;

verus! {

/// The number of cells on a board.
pub const CELLS: usize = 9;

/// A validated cell index, row by row from the top left: always below nine.
#[derive(Debug, Clone, Copy, PartialEq, Eq, Structural)]
pub struct Space(u8);

impl Space {
    /// Every `Space` addresses a cell of the board.
    #[verifier::type_invariant]
    pub closed spec fn wf(self) -> bool {
        self.0 < CELLS
    }

    /// The cell that the space addresses.
    pub closed spec fn index(self) -> int {
        self.0 as int
    }

    /// Validates a raw cell index: accepted exactly when it is at most eight.
    pub fn try_from(value: u8) -> (res: Result<Space, Error>)
        ensures
            value > 8 <==> res == Err::<Space, Error>(Error::InvalidSpace),
            value <= 8 <==> res is Ok,
            res matches Ok(space) ==> space.wf() && space.index() == value,
    {
        if value > 8 {
            Err(Error::InvalidSpace)
        } else {
            Ok(Space(value))
        }
    }

    /// A valid space addresses one of the nine cells.
    pub proof fn lemma_index_in_range(self)
        requires
            self.wf(),
        ensures
            0 <= self.index() < CELLS,
    {
    }

    /// The raw cell index.
    pub fn value(&self) -> (value: u8)
        ensures
            self.wf(),
            value == self.index(),
            value <= 8,
    {
        proof {
            use_type_invariant(self);
        }
        self.0
    }
}

impl Default for Space {
    /// The top-left cell.
    fn default() -> (space: Space)
        ensures
            space.wf(),
            space.index() == 0,
    {
        Space(0)
    }
}

/// Nine cells, each holding exactly one mark.
#[derive(Debug, Clone, Copy, PartialEq, Eq)]
pub struct Board {
    spaces: [Mark; 9],
}

impl View for Board {
    type V = Seq<Mark>;

    /// The marks in cell order; always nine of them.
    closed spec fn view(&self) -> Seq<Mark> {
        self.spaces@
    }
}

/// The board on which nothing has been played.
pub open spec fn blank_cells() -> Seq<Mark> {
    Seq::new(CELLS as nat, |i: int| Mark::Blank)
}

/// Draws 0, 1 or 2 from the thread-local generator, by `rand::thread_rng`
/// and `rand::Rng::gen_range` on the inclusive range from 0 to 2. Claimed:
/// the draw lies in that range; which number comes is left open.
#[verifier::external_body]
fn draw_of_three() -> (draw: u8)
    ensures
        draw <= 2,
{
    rand::Rng::gen_range(&mut rand::thread_rng(), 0u8..=2u8)
}

impl Board {
    /// A board of nine blank cells.
    pub fn new() -> (board: Board)
        ensures
            board@ == blank_cells(),
    {
        let board = Board { spaces: [Mark::Blank; 9] };
        assert(board@ =~= blank_cells());
        board
    }

    /// A board whose nine cells are drawn at random, each on its own: any board may come.
    pub fn random() -> (board: Board) {
        let mut draws = [0u8; 9];
        let mut i: usize = 0;
        while i < 9
            invariant
                i <= 9,
            decreases 9 - i,
        {
            draws[i] = draw_of_three();
            i += 1;
        }
        Board::from_draws(&draws)
    }

    /// The board that nine draws stand for: cell by cell, the mark of the draw at that place.
    pub fn from_draws(draws: &[u8; 9]) -> (board: Board)
        ensures
            forall|i: int| 0 <= i < 9 ==> #[trigger] board@[i] == Mark::sampled(draws@[i]),
    {
        let mut spaces = [Mark::Blank; 9];
        let mut i: usize = 0;
        while i < 9
            invariant
                i <= 9,
                forall|k: int| 0 <= k < i ==> #[trigger] spaces@[k] == Mark::sampled(draws@[k]),
            decreases 9 - i,
        {
            spaces[i] = Mark::sample(draws[i]);
            i += 1;
        }
        Board { spaces }
    }

    /// Every board has nine cells.
    pub proof fn lemma_len(self)
        ensures
            self@.len() == CELLS,
    {
    }

    /// Puts `mark` into the cell at `space`, whatever the cell held before.
    pub fn mark(&mut self, space: Space, mark: Mark) -> (res: Result<(), Error>)
        ensures
            res is Ok,
            final(self)@ == old(self)@.update(space.index(), mark),
    {
        let i = space.value();
        self.spaces[i as usize] = mark;
        Ok(())
    }

    /// The mark in the cell at `space`.
    pub fn get(&self, space: Space) -> (res: Result<Mark, Error>)
        ensures
            res == Ok::<Mark, Error>(self@[space.index()]),
    {
        let i = space.value();
        Ok(self.spaces[i as usize])
    }
}

/// The line drawn between two rows of the grid.
pub open spec fn separator_text() -> Seq<char> {
    "---+---+---\n"@
}

/// Row `row` of the grid: its three cells between spaces, parted by bars, then a line break.
pub open spec fn row_text(cells: Seq<Mark>, row: int) -> Seq<char> {
    seq![
        ' ',
        cells[3 * row].glyph(),
        ' ',
        '|',
        ' ',
        cells[3 * row + 1].glyph(),
        ' ',
        '|',
        ' ',
        cells[3 * row + 2].glyph(),
        ' ',
        '\n',
    ]
}

/// The first `rows` rows of the grid, with a separator line before every row but the first.
pub open spec fn rows_text(cells: Seq<Mark>, rows: nat) -> Seq<char>
    decreases rows,
{
    if rows == 0 {
        Seq::empty()
    } else if rows == 1 {
        row_text(cells, 0)
    } else {
        rows_text(cells, (rows - 1) as nat) + separator_text() + row_text(cells, rows - 1)
    }
}

/// The whole grid: three rows with a separator line between them.
pub open spec fn grid_text(cells: Seq<Mark>) -> Seq<char> {
    rows_text(cells, 3)
}

/// What a cell shows to a client: a player's label, or nothing for a blank cell.
pub open spec fn cell_label(mark: Mark) -> Option<Seq<char>> {
    match mark {
        Mark::X => Some("X"@),
        Mark::O => Some("O"@),
        Mark::Blank => None,
    }
}

/// The text of an optional label.
pub open spec fn label_view(label: Option<String>) -> Option<Seq<char>> {
    match label {
        Some(text) => Some(text@),
        None => None,
    }
}

/// The label of one cell.
fn display_cell(mark: Mark) -> (label: Option<String>)
    ensures
        label_view(label) == cell_label(mark),
{
    match mark {
        Mark::X => Some(String::from_str("X")),
        Mark::O => Some(String::from_str("O")),
        Mark::Blank => None,
    }
}

/// The one-character text of a mark.
fn glyph_str(mark: Mark) -> (text: &'static str)
    ensures
        text@ == seq![mark.glyph()],
{
    proof {
        reveal_strlit("X");
        reveal_strlit("O");
        reveal_strlit(" ");
    }
    let text = match mark {
        Mark::X => "X",
        Mark::O => "O",
        Mark::Blank => " ",
    };
    assert(text@ =~= seq![mark.glyph()]);
    text
}

impl Board {
    /// The nine cells as a client sees them, in cell order: a label for a
    /// played cell, nothing for a blank one.
    pub fn to_display_array(&self) -> (cells: [Option<String>; 9])
        ensures
            forall|i: int| 0 <= i < 9 ==> label_view(#[trigger] cells@[i]) == cell_label(self@[i]),
    {
        [
            display_cell(self.spaces[0]),
            display_cell(self.spaces[1]),
            display_cell(self.spaces[2]),
            display_cell(self.spaces[3]),
            display_cell(self.spaces[4]),
            display_cell(self.spaces[5]),
            display_cell(self.spaces[6]),
            display_cell(self.spaces[7]),
            display_cell(self.spaces[8]),
        ]
    }

    /// The board as a three-by-three text grid.
    pub fn to_string(&self) -> (text: String)
        ensures
            text@ == grid_text(self@),
    {
        let mut text = String::new();
        let mut row: usize = 0;
        while row < 3
            invariant
                row <= 3,
                text@ == rows_text(self@, row as nat),
            decreases 3 - row,
        {
            let ghost before = text@;
            if row > 0 {
                text.append("---+---+---\n");
            }
            text.append(" ");
            text.append(glyph_str(self.spaces[3 * row]));
            text.append(" | ");
            text.append(glyph_str(self.spaces[3 * row + 1]));
            text.append(" | ");
            text.append(glyph_str(self.spaces[3 * row + 2]));
            text.append(" \n");
            proof {
                reveal_strlit(" ");
                reveal_strlit(" | ");
                reveal_strlit(" \n");
                let sep = if row > 0 { separator_text() } else { Seq::<char>::empty() };
                assert(text@ =~= before + sep + row_text(self@, row as int));
                assert(before + sep + row_text(self@, row as int) =~= rows_text(
                    self@,
                    (row + 1) as nat,
                ));
            }
            row += 1;
        }
        text
    }
}

} // verus!
