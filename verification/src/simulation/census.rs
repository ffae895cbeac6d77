//! Counting over the whole board: how many cells are of one kind, and in
//! how many cells two boards differ.

use crate::simulation::grid::{code_at, indicator, Grid};
use crate::simulation::{Cell, PetriDish};
use vstd::prelude::*;

verus! {

/// How many of the lowest `rows` cells of column `x` hold the code `wanted`.
pub open spec fn column_tally(grid: Grid, x: int, wanted: u8, rows: nat) -> nat
    decreases rows,
{
    if rows == 0 {
        0
    } else {
        column_tally(grid, x, wanted, (rows - 1) as nat) + indicator(
            code_at(grid, x, rows - 1),
            wanted,
        )
    }
}

/// How many cells of the first `columns` columns hold the code `wanted`.
pub open spec fn census(grid: Grid, wanted: u8, columns: nat) -> nat
    decreases columns,
{
    if columns == 0 {
        0
    } else {
        census(grid, wanted, (columns - 1) as nat) + column_tally(grid, columns - 1, wanted, 25)
    }
}

/// A column holds no more cells of one kind than it has rows.
pub proof fn lemma_column_tally_bound(grid: Grid, x: int, wanted: u8, rows: nat)
    ensures
        column_tally(grid, x, wanted, rows) <= rows,
    decreases rows,
{
    if rows > 0 {
        lemma_column_tally_bound(grid, x, wanted, (rows - 1) as nat);
    }
}

/// The first `columns` columns hold no more cells of one kind than they
/// have cells.
pub proof fn lemma_census_bound(grid: Grid, wanted: u8, columns: nat)
    ensures
        census(grid, wanted, columns) <= 25 * columns,
    decreases columns,
{
    if columns > 0 {
        lemma_census_bound(grid, wanted, (columns - 1) as nat);
        lemma_column_tally_bound(grid, columns - 1, wanted, 25);
    }
}

/// 1 if the two codes differ, else 0.
pub open spec fn unlike(a: u8, b: u8) -> nat {
    if a != b {
        1
    } else {
        0
    }
}

/// In how many of the lowest `rows` cells of column `x` the two grids
/// differ.
pub open spec fn column_differences(a: Grid, b: Grid, x: int, rows: nat) -> nat
    decreases rows,
{
    if rows == 0 {
        0
    } else {
        column_differences(a, b, x, (rows - 1) as nat) + unlike(
            code_at(a, x, rows - 1),
            code_at(b, x, rows - 1),
        )
    }
}

/// In how many cells of the first `columns` columns the two grids differ.
pub open spec fn differences(a: Grid, b: Grid, columns: nat) -> nat
    decreases columns,
{
    if columns == 0 {
        0
    } else {
        differences(a, b, (columns - 1) as nat) + column_differences(a, b, columns - 1, 25)
    }
}

/// A grid differs from itself nowhere.
pub proof fn lemma_no_differences(a: Grid, columns: nat)
    ensures
        differences(a, a, columns) == 0,
    decreases columns,
{
    if columns > 0 {
        lemma_no_differences(a, (columns - 1) as nat);
        lemma_no_column_differences(a, columns - 1, 25);
    }
}

/// A column differs from itself nowhere.
proof fn lemma_no_column_differences(a: Grid, x: int, rows: nat)
    ensures
        column_differences(a, a, x, rows) == 0,
    decreases rows,
{
    if rows > 0 {
        lemma_no_column_differences(a, x, (rows - 1) as nat);
    }
}

/// A column of a grid in which one cell was written differs from the same
/// column of any grid in one cell more at most than it did before, and no
/// more than before if the cell is not among the cells of the column that
/// are counted.
proof fn lemma_written_column(
    a: Grid,
    b: Grid,
    c: Grid,
    x: int,
    y: int,
    i: int,
    rows: nat,
)
    requires
        forall|p: int, q: int| !(p == x && q == y) ==> code_at(c, p, q) == code_at(b, p, q),
    ensures
        column_differences(a, c, i, rows) <= column_differences(a, b, i, rows) + if i == x && y
            < rows {
            1nat
        } else {
            0nat
        },
    decreases rows,
{
    if rows > 0 {
        lemma_written_column(a, b, c, x, y, i, (rows - 1) as nat);
    }
}

/// A grid in which one cell was written differs from any grid in one cell
/// more at most than it did before.
pub proof fn lemma_written_differences(
    a: Grid,
    b: Grid,
    c: Grid,
    x: int,
    y: int,
    columns: nat,
)
    requires
        forall|p: int, q: int| !(p == x && q == y) ==> code_at(c, p, q) == code_at(b, p, q),
    ensures
        differences(a, c, columns) <= differences(a, b, columns) + if x < columns {
            1nat
        } else {
            0nat
        },
    decreases columns,
{
    if columns > 0 {
        lemma_written_differences(a, b, c, x, y, (columns - 1) as nat);
        lemma_written_column(a, b, c, x, y, columns - 1, 25);
    }
}

impl PetriDish {
    /// Counts the living and the blocked cells of the board, in this order.
    /// Before a game has begun this is what the board cost to set up.
    pub fn count_living_and_blocked(self) -> (counts: (u16, u16))
        ensures
            counts.0 == census(self@, Cell::LIVING, 25),
            counts.1 == census(self@, Cell::BLOCKED, 25),
    {
        let mut count_cells: u16 = 0;
        let mut count_blocked: u16 = 0;
        let mut x: u8 = 0;
        while x < 25
            invariant
                x <= 25,
                count_cells == census(self@, Cell::LIVING, x as nat),
                count_blocked == census(self@, Cell::BLOCKED, x as nat),
                count_cells <= 25 * x,
                count_blocked <= 25 * x,
            decreases 25 - x,
        {
            let ghost cells_before = count_cells;
            let ghost blocked_before = count_blocked;
            let mut y: u8 = 0;
            while y < 25
                invariant
                    x < 25,
                    y <= 25,
                    count_cells == cells_before + column_tally(
                        self@,
                        x as int,
                        Cell::LIVING,
                        y as nat,
                    ),
                    count_blocked == blocked_before + column_tally(
                        self@,
                        x as int,
                        Cell::BLOCKED,
                        y as nat,
                    ),
                    cells_before <= 25 * x,
                    blocked_before <= 25 * x,
                decreases 25 - y,
            {
                proof {
                    lemma_column_tally_bound(self@, x as int, Cell::LIVING, y as nat);
                    lemma_column_tally_bound(self@, x as int, Cell::BLOCKED, y as nat);
                }
                let code: u8 = self.read(x, y);
                if code == Cell::LIVING {
                    count_cells += 1;
                } else if code == Cell::BLOCKED {
                    count_blocked += 1;
                }
                y += 1;
            }
            proof {
                lemma_column_tally_bound(self@, x as int, Cell::LIVING, 25);
                lemma_column_tally_bound(self@, x as int, Cell::BLOCKED, 25);
            }
            x += 1;
        }
        (count_cells, count_blocked)
    }
}

} // verus!
