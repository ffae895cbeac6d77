//! Boards and statuses as text.

use crate::simulation::grid::{code_at, next_to_center, Grid};
use crate::simulation::{Cell, PetriDish, Status};
use vstd::prelude::*;

verus! {

/// The character that stands for a cell: `O` if it lives, `X` if it is
/// blocked, and a dot otherwise.
pub open spec fn symbol(code: u8) -> char {
    if code == Cell::LIVING {
        'O'
    } else if code == Cell::BLOCKED {
        'X'
    } else {
        '.'
    }
}

/// The five characters that show the cell at `(x, y)`: the Dandelifeon as
/// a star between angle brackets, a cell next to it in braces, and any other
/// cell between blanks.
pub open spec fn cell_text(grid: Grid, x: int, y: int) -> Seq<char> {
    if x == 12 && y == 12 {
        seq!['<', '<', '*', '>', '>']
    } else if next_to_center(x, y) {
        seq![' ', '{', symbol(code_at(grid, x, y)), '}', ' ']
    } else {
        seq![' ', ' ', symbol(code_at(grid, x, y)), ' ', ' ']
    }
}

/// The text of the first `columns` cells of row `y`.
pub open spec fn row_text(grid: Grid, y: int, columns: nat) -> Seq<char>
    decreases columns,
{
    if columns == 0 {
        Seq::empty()
    } else {
        row_text(grid, y, (columns - 1) as nat) + cell_text(grid, columns - 1, y)
    }
}

/// The text of the topmost `rows` rows of the board, each row on a line of
/// its own, the top row first.
pub open spec fn board_text(grid: Grid, rows: nat) -> Seq<char>
    decreases rows,
{
    if rows == 0 {
        Seq::empty()
    } else {
        board_text(grid, (rows - 1) as nat) + row_text(grid, 25 - rows, 25) + seq!['\n']
    }
}

impl PetriDish {
    /// Draws the board as text, the top row first: 25 lines of 25 cells,
    /// five characters to a cell.
    pub fn render(&self) -> (text: String)
        requires
            forall|x: int, y: int|
                0 <= x < 25 && 0 <= y < 25 && !(x == 12 && y == 12) ==> #[trigger] self.cell(x, y)
                    != Cell::DANDELIFEON,
        ensures
            text@ == board_text(self@, 25),
    {
        let mut text: String = String::new();
        let mut rows: u8 = 0;
        while rows < 25
            invariant
                rows <= 25,
                text@ == board_text(self@, rows as nat),
                forall|x: int, y: int|
                    0 <= x < 25 && 0 <= y < 25 && !(x == 12 && y == 12) ==> #[trigger] self.cell(
                        x,
                        y,
                    ) != Cell::DANDELIFEON,
            decreases 25 - rows,
        {
            let y: u8 = 24 - rows;
            let ghost above = text@;
            let mut x: u8 = 0;
            while x < 25
                invariant
                    x <= 25,
                    y < 25,
                    text@ == above + row_text(self@, y as int, x as nat),
                    forall|x: int, y: int|
                        0 <= x < 25 && 0 <= y < 25 && !(x == 12 && y == 12)
                            ==> #[trigger] self.cell(x, y) != Cell::DANDELIFEON,
                decreases 25 - x,
            {
                let ghost before = text@;
                let code: u8 = self.read(x, y);
                proof {
                    reveal_strlit("<<*>>");
                    reveal_strlit(" {O} ");
                    reveal_strlit(" {X} ");
                    reveal_strlit(" {.} ");
                    reveal_strlit("  O  ");
                    reveal_strlit("  X  ");
                    reveal_strlit("  .  ");
                    assert(self.cell(x as int, y as int) == code);
                }
                if x == 12 && y == 12 {
                    text.append("<<*>>");
                } else if 11 <= x && x < 14 && 11 <= y && y < 14 {
                    if code == Cell::LIVING {
                        text.append(" {O} ");
                    } else if code == Cell::BLOCKED {
                        text.append(" {X} ");
                    } else {
                        text.append(" {.} ");
                    }
                } else {
                    if code == Cell::LIVING {
                        text.append("  O  ");
                    } else if code == Cell::BLOCKED {
                        text.append("  X  ");
                    } else {
                        text.append("  .  ");
                    }
                }
                proof {
                    assert(text@ =~= before + cell_text(self@, x as int, y as int));
                    assert(text@ =~= above + (row_text(self@, y as int, x as nat) + cell_text(
                        self@,
                        x as int,
                        y as int,
                    )));
                }
                x += 1;
            }
            proof {
                reveal_strlit("\n");
            }
            let ghost row = text@;
            text.append("\n");
            proof {
                assert(text@ =~= row + seq!['\n']);
                assert(text@ =~= board_text(self@, rows as nat) + row_text(self@, y as int, 25)
                    + seq!['\n']);
            }
            rows += 1;
        }
        text
    }
}

impl Status {
    /// The name of the status.
    pub open spec fn name(self) -> Seq<char> {
        match self {
            Status::Continue => "Continue"@,
            Status::NormalEnd => "NormalEnd"@,
            Status::AbruptEnd => "AbruptEnd"@,
        }
    }

    /// The name of the status, as text.
    pub fn render(&self) -> (text: String)
        ensures
            text@ == self.name(),
    {
        match self {
            Status::Continue => String::from_str("Continue"),
            Status::NormalEnd => String::from_str("NormalEnd"),
            Status::AbruptEnd => String::from_str("AbruptEnd"),
        }
    }
}

} // verus!
