//! The board as a grid of codes: what a position holds and what stands
//! around it.

use crate::simulation::packing::{row_codes, spare_bits};
use crate::simulation::Cell;
use vstd::prelude::*;

verus! {

/// A board as 25 rows of 25 two-bit codes: `grid[y][x]` is the code of the
/// cell at `(x, y)`.
pub type Grid = Seq<Seq<u8>>;

/// The code at `(x, y)` of a grid of rows of codes; a position outside the
/// 25 by 25 board reads as dead.
pub open spec fn code_at(grid: Grid, x: int, y: int) -> u8 {
    if 0 <= x < 25 && 0 <= y < 25 {
        grid[y][x]
    } else {
        Cell::DEAD
    }
}

/// The grid of codes that 25 row words hold.
pub open spec fn grid_of(rows: Seq<u64>) -> Grid {
    Seq::new(25, |y: int| row_codes(rows[y]))
}

/// The spare bits of each of 25 row words.
pub open spec fn spare_of(rows: Seq<u64>) -> Seq<u64> {
    Seq::new(25, |y: int| spare_bits(rows[y]))
}

/// The board on which nothing has been placed: every cell dead but the
/// Dandelifeon at the centre.
pub open spec fn empty_grid() -> Grid {
    Seq::new(
        25,
        |y: int|
            Seq::new(
                25,
                |x: int|
                    if x == 12 && y == 12 {
                        Cell::DANDELIFEON
                    } else {
                        Cell::DEAD
                    },
            ),
    )
}

/// The cell at `(x, y)` is one of the eight cells next to the Dandelifeon.
pub open spec fn next_to_center(x: int, y: int) -> bool {
    11 <= x < 14 && 11 <= y < 14 && !(x == 12 && y == 12)
}

/// 1 if `code` is the code `wanted`, else 0.
pub open spec fn indicator(code: u8, wanted: u8) -> nat {
    if code == wanted {
        1
    } else {
        0
    }
}

/// How many of `codes` are the code `wanted`.
pub open spec fn tally(codes: Seq<u8>, wanted: u8) -> nat
    decreases codes.len(),
{
    if codes.len() == 0 {
        0
    } else {
        tally(codes.drop_last(), wanted) + indicator(codes.last(), wanted)
    }
}

/// The codes of the eight neighbours of `(x, y)`, in the order in which the
/// game looks at them.
pub open spec fn neighbor_codes(grid: Grid, x: int, y: int) -> Seq<u8> {
    seq![
        code_at(grid, x + 1, y),
        code_at(grid, x - 1, y),
        code_at(grid, x, y - 1),
        code_at(grid, x + 1, y - 1),
        code_at(grid, x - 1, y - 1),
        code_at(grid, x, y + 1),
        code_at(grid, x + 1, y + 1),
        code_at(grid, x - 1, y + 1),
    ]
}

/// How many of the eight neighbours of `(x, y)` hold the code `wanted`.
pub open spec fn around(grid: Grid, x: int, y: int, wanted: u8) -> nat {
    indicator(code_at(grid, x + 1, y), wanted) + indicator(code_at(grid, x - 1, y), wanted)
        + indicator(code_at(grid, x, y - 1), wanted) + indicator(
        code_at(grid, x + 1, y - 1),
        wanted,
    ) + indicator(code_at(grid, x - 1, y - 1), wanted) + indicator(
        code_at(grid, x, y + 1),
        wanted,
    ) + indicator(code_at(grid, x + 1, y + 1), wanted) + indicator(
        code_at(grid, x - 1, y + 1),
        wanted,
    )
}

/// How many of the eight neighbours of `(x, y)` live.
pub open spec fn living_around(grid: Grid, x: int, y: int) -> nat {
    around(grid, x, y, Cell::LIVING)
}

/// A living cell stands next to the Dandelifeon.
pub open spec fn hazard_living(grid: Grid) -> bool {
    living_around(grid, 12, 12) > 0
}

/// The first `n` codes hold no more of one kind than the whole sequence.
pub proof fn lemma_tally_grows(codes: Seq<u8>, wanted: u8, n: int)
    requires
        0 <= n <= codes.len(),
    ensures
        tally(codes.take(n), wanted) <= tally(codes, wanted),
    decreases codes.len() - n,
{
    if n < codes.len() {
        assert(codes.take(n + 1).drop_last() =~= codes.take(n));
        lemma_tally_grows(codes, wanted, n + 1);
    } else {
        assert(codes.take(n) =~= codes);
    }
}

/// A sequence of eight codes tallies to the sum of its eight indicators.
pub proof fn lemma_tally_of_eight(codes: Seq<u8>, wanted: u8)
    requires
        codes.len() == 8,
    ensures
        tally(codes, wanted) == indicator(codes[0], wanted) + indicator(codes[1], wanted)
            + indicator(codes[2], wanted) + indicator(codes[3], wanted) + indicator(
            codes[4],
            wanted,
        ) + indicator(codes[5], wanted) + indicator(codes[6], wanted) + indicator(
            codes[7],
            wanted,
        ),
{
    let c7 = codes.drop_last();
    let c6 = c7.drop_last();
    let c5 = c6.drop_last();
    let c4 = c5.drop_last();
    let c3 = c4.drop_last();
    let c2 = c3.drop_last();
    let c1 = c2.drop_last();
    let c0 = c1.drop_last();
    assert(tally(c0, wanted) == 0);
    assert(tally(c1, wanted) == indicator(codes[0], wanted));
    assert(tally(c2, wanted) == tally(c1, wanted) + indicator(codes[1], wanted));
    assert(tally(c3, wanted) == tally(c2, wanted) + indicator(codes[2], wanted));
    assert(tally(c4, wanted) == tally(c3, wanted) + indicator(codes[3], wanted));
    assert(tally(c5, wanted) == tally(c4, wanted) + indicator(codes[4], wanted));
    assert(tally(c6, wanted) == tally(c5, wanted) + indicator(codes[5], wanted));
    assert(tally(c7, wanted) == tally(c6, wanted) + indicator(codes[6], wanted));
}

/// Writing a cell changes the number of neighbours of one kind that the
/// Dandelifeon has by what the cell was and what it becomes, if the cell is
/// next to the Dandelifeon, and not at all if it is not.
pub proof fn lemma_write_around_center(
    before: Grid,
    after: Grid,
    x: int,
    y: int,
    code: u8,
    wanted: u8,
)
    requires
        0 <= x < 25,
        0 <= y < 25,
        before.len() == 25,
        before[y].len() == 25,
        after == before.update(y, before[y].update(x, code)),
    ensures
        next_to_center(x, y) ==> around(after, 12, 12, wanted) + indicator(
            code_at(before, x, y),
            wanted,
        ) == around(before, 12, 12, wanted) + indicator(code, wanted),
        !next_to_center(x, y) ==> around(after, 12, 12, wanted) == around(before, 12, 12, wanted),
{
    assert forall|i: int, j: int| !(i == x && j == y) implies code_at(after, i, j) == code_at(
        before,
        i,
        j,
    ) by {}
    assert(code_at(after, x, y) == code);
}

} // verus!
