//! The modified Game of Life played around the Dandelifeon, on a bit-packed
//! board of 25 by 25 cells.

pub mod census;
pub mod drawing;
pub mod game;
pub mod grid;
pub mod packing;
pub mod sampling;
pub mod setups;
pub mod step;

use crate::simulation::grid::{code_at, empty_grid, grid_of, spare_of, Grid};
use crate::simulation::packing::{
    joined_code, lemma_cleared_row, lemma_code_bound, lemma_joined_code, lemma_joined_row,
    lemma_same_row, lemma_zero_row, row_codes, spare_bits,
};
use vstd::prelude::*;

verus! {

/// The state of a single cell. Each cell has eight neighbours, the cells that
/// surround it; a position outside the board counts as a dead neighbour.
#[derive(Debug, Clone, Copy, PartialEq, Eq, PartialOrd, Ord, Hash)]
pub enum Cell {
    /// A dead cell. It comes alive when exactly three neighbours live.
    Dead,
    /// A living cell. It stays alive while two or three neighbours live.
    Living,
    /// A cell that was blocked off. It never changes and never counts as
    /// a living neighbour.
    Blocked,
    /// The Dandelifeon itself, the single core cell at the centre of the board.
    Dandelifeon,
}

impl Cell {
    /// The two-bit code of [`Cell::Dead`].
    pub const DEAD: u8 = 0;

    /// The two-bit code of [`Cell::Living`].
    pub const LIVING: u8 = 1;

    /// The two-bit code of [`Cell::Blocked`].
    pub const BLOCKED: u8 = 2;

    /// The two-bit code of [`Cell::Dandelifeon`].
    pub const DANDELIFEON: u8 = 3;

    /// The two-bit code under which a board stores this state.
    pub open spec fn spec_code(self) -> u8 {
        match self {
            Cell::Dead => Cell::DEAD,
            Cell::Living => Cell::LIVING,
            Cell::Blocked => Cell::BLOCKED,
            Cell::Dandelifeon => Cell::DANDELIFEON,
        }
    }

    /// The two-bit code under which a board stores this state.
    #[verifier::when_used_as_spec(spec_code)]
    pub fn code(self) -> (code: u8)
        ensures
            code == self.spec_code(),
            code <= 3,
    {
        match self {
            Cell::Dead => Cell::DEAD,
            Cell::Living => Cell::LIVING,
            Cell::Blocked => Cell::BLOCKED,
            Cell::Dandelifeon => Cell::DANDELIFEON,
        }
    }
}

/// How a step of the game ended.
#[derive(Debug, Clone, Copy, PartialEq, Eq, PartialOrd, Ord, Hash)]
pub enum Status {
    /// No living cell has entered the zone around the Dandelifeon: the game
    /// goes on.
    Continue,
    /// A living cell has just entered the zone around the Dandelifeon: the
    /// game ends and mana is awarded.
    NormalEnd,
    /// A living cell stood in the zone around the Dandelifeon when the step
    /// began: the game ends and no mana is awarded.
    AbruptEnd,
}

/// The coordinate that an optional coordinate stands for: `None`, which is
/// what a step below 0 gives, stands for -1.
pub open spec fn maybe(coordinate: Option<u8>) -> int {
    match coordinate {
        Some(value) => value as int,
        None => -1,
    }
}

/// A compact Dandelifeon board: one `u64` per row, two bits per cell, so that
/// only the low 50 bits of each word are in use.
#[derive(Debug, Clone, Copy, PartialEq, Eq, PartialOrd, Ord, Hash)]
pub struct PetriDish([u64; 25]);

impl View for PetriDish {
    type V = Grid;

    /// The board as 25 rows of 25 codes: `self@[y][x]` is the cell at
    /// `(x, y)`.
    open spec fn view(&self) -> Grid {
        grid_of(self.rows())
    }
}

impl PetriDish {
    /// The 25 row words.
    pub closed spec fn rows(self) -> Seq<u64> {
        self.0@
    }

    /// The spare bits of the 25 row words, which hold no cell.
    pub open spec fn spare(self) -> Seq<u64> {
        spare_of(self.rows())
    }

    /// No spare bit is set.
    pub open spec fn tidy(self) -> bool {
        forall|y: int| 0 <= y < 25 ==> #[trigger] self.spare()[y] == 0
    }

    /// The code of the cell at `(x, y)`; a position outside the board reads
    /// as dead.
    pub open spec fn cell(self, x: int, y: int) -> u8 {
        code_at(self@, x, y)
    }

    /// The board is like `before` but for the cell at `(x, y)`, which holds
    /// `code`.
    pub open spec fn is_write_of(self, before: PetriDish, x: int, y: int, code: u8) -> bool {
        &&& self@ == before@.update(y, before@[y].update(x, code))
        &&& self.spare() == before.spare()
    }

    /// The board holds what a game can be played on: no spare bit is set,
    /// the Dandelifeon stands at the centre, and nowhere else.
    pub open spec fn valid(self) -> bool {
        &&& self.tidy()
        &&& forall|x: int, y: int|
            0 <= x < 25 && 0 <= y < 25 ==> (#[trigger] self.cell(x, y) == Cell::DANDELIFEON <==> x
                == 12 && y == 12)
    }

    /// The empty board: every cell dead but the Dandelifeon at the centre.
    pub fn new() -> (dish: Self)
        ensures
            dish@ == empty_grid(),
            dish.cell(12, 12) == Cell::DANDELIFEON,
            dish.valid(),
    {
        let mut new: Self = Self::new_with([0;25]);
        proof {
            lemma_zero_row();
        }
        new.set_dandelifeon();
        proof {
            assert(new@ =~~= empty_grid());
        }
        new
    }

    /// A board with the given row words. Nothing about them is checked.
    pub fn new_with(state: [u64; 25]) -> (dish: Self)
        ensures
            dish.rows() == state@,
    {
        PetriDish(state)
    }

    /// Reads the code of the cell at `(x, y)`, dead if it lies outside the
    /// board.
    pub fn read(&self, x: u8, y: u8) -> (code: u8)
        ensures
            code == self.cell(x as int, y as int),
            code <= 3,
    {
        broadcast use lemma_code_bound;

        if x < 25 && y < 25 {
            let row: u64 = self.0[y as usize];
            ((row >> (2 * x)) & 0b11) as u8
        } else {
            0
        }
    }

    /// Reads the code of the cell at `(x, y)`, where `x` is `None` after a
    /// step to the left of column 0. Dead if the cell lies outside the board.
    pub fn read_maybe_x(&self, x: Option<u8>, y: u8) -> (code: u8)
        ensures
            code == self.cell(maybe(x), y as int),
            code <= 3,
    {
        match x {
            Some(x) => self.read(x, y),
            None => 0,
        }
    }

    /// Reads the code of the cell at `(x, y)`, where `y` is `None` after a
    /// step below row 0. Dead if the cell lies outside the board.
    pub fn read_maybe_y(&self, x: u8, y: Option<u8>) -> (code: u8)
        ensures
            code == self.cell(x as int, maybe(y)),
            code <= 3,
    {
        match y {
            Some(y) => self.read(x, y),
            None => 0,
        }
    }

    /// Reads the code of the cell at `(x, y)`, where either coordinate is
    /// `None` after a step off the low end of its axis. Dead if the cell
    /// lies outside the board.
    pub fn read_maybe_x_y(&self, x: Option<u8>, y: Option<u8>) -> (code: u8)
        ensures
            code == self.cell(maybe(x), maybe(y)),
            code <= 3,
    {
        match (x, y) {
            (Some(x), Some(y)) => self.read(x, y),
            _ => 0,
        }
    }

    /// Or-s `value` into the cell at `(x, y)`. On a dead cell this writes
    /// `value`; the Dandelifeon stays what it is.
    pub fn write_assume_clean_slate(&mut self, x: u8, y: u8, value: u8)
        requires
            x < 25,
            y < 25,
            value <= 3,
        ensures
            final(self).is_write_of(
                *old(self),
                x as int,
                y as int,
                joined_code(old(self).cell(x as int, y as int), value),
            ),
    {
        let whole: u64 = self.0[y as usize];
        self.0[y as usize] = whole | ((value as u64) << (x * 2));
        proof {
            lemma_joined_row(whole, x as int, value);
            assert(self.rows() == old(self).rows().update(y as int, self.rows()[y as int]));
            assert(self@ =~= old(self)@.update(
                y as int,
                old(self)@[y as int].update(
                    x as int,
                    joined_code(old(self).cell(x as int, y as int), value),
                ),
            ));
            assert(self.spare() =~= old(self).spare());
        }
    }

    /// Makes the cell at `(x, y)` dead.
    pub fn set_dead(&mut self, x: u8, y: u8)
        requires
            x < 25,
            y < 25,
        ensures
            final(self).is_write_of(*old(self), x as int, y as int, Cell::DEAD),
    {
        let whole: u64 = self.0[y as usize];
        let read: u8 = self.read(x, y);
        self.0[y as usize] = whole ^ ((read as u64) << (2 * x));
        proof {
            lemma_cleared_row(whole, x as int);
            assert(self.rows() == old(self).rows().update(y as int, self.rows()[y as int]));
            assert(self@ =~= old(self)@.update(
                y as int,
                old(self)@[y as int].update(x as int, Cell::DEAD),
            ));
            assert(self.spare() =~= old(self).spare());
        }
    }

    /// Writes `value` to the cell at `(x, y)`, whatever it held.
    pub fn write(&mut self, x: u8, y: u8, value: u8)
        requires
            x < 25,
            y < 25,
            value <= 3,
        ensures
            final(self).is_write_of(*old(self), x as int, y as int, value),
    {
        self.set_dead(x, y);
        let ghost cleared = *self;
        self.write_assume_clean_slate(x, y, value);
        proof {
            lemma_joined_code(Cell::DEAD, value);
            assert(cleared.cell(x as int, y as int) == Cell::DEAD);
            assert(self@ =~~= old(self)@.update(
                y as int,
                old(self)@[y as int].update(x as int, value),
            ));
        }
    }

    /// Places the Dandelifeon at the centre of the board.
    pub fn set_dandelifeon(&mut self)
        ensures
            final(self).is_write_of(*old(self), 12, 12, Cell::DANDELIFEON),
    {
        proof {
            broadcast use lemma_code_bound;

            lemma_joined_code(self.cell(12, 12), Cell::DANDELIFEON);
        }
        self.write_assume_clean_slate(12, 12, Cell::DANDELIFEON);
    }

    /// Makes the cell at `(x, y)` a living cell.
    pub fn set_living(&mut self, x: u8, y: u8)
        requires
            x < 25,
            y < 25,
        ensures
            final(self).is_write_of(*old(self), x as int, y as int, Cell::LIVING),
    {
        self.write(x, y, Cell::LIVING);
    }

    /// Blocks the cell at `(x, y)`.
    pub fn set_blocked(&mut self, x: u8, y: u8)
        requires
            x < 25,
            y < 25,
        ensures
            final(self).is_write_of(*old(self), x as int, y as int, Cell::BLOCKED),
    {
        self.write(x, y, Cell::BLOCKED);
    }
}

impl Default for PetriDish {
    /// The empty board.
    fn default() -> (dish: Self)
        ensures
            dish@ == empty_grid(),
            dish.valid(),
    {
        Self::new()
    }
}

/// Two boards that hold the same cells and the same spare bits are the same
/// board.
pub proof fn lemma_same_board(a: PetriDish, b: PetriDish)
    requires
        a@ == b@,
        a.spare() == b.spare(),
    ensures
        a == b,
{
    assert forall|y: int| 0 <= y < 25 implies a.rows()[y] == b.rows()[y] by {
        assert(a@[y] == row_codes(a.rows()[y]));
        assert(b@[y] == row_codes(b.rows()[y]));
        assert(a.spare()[y] == spare_bits(a.rows()[y]));
        assert(b.spare()[y] == spare_bits(b.rows()[y]));
        lemma_same_row(a.rows()[y], b.rows()[y]);
    }
    assert(a.0 =~= b.0);
}

/// A cell that was written reads as what was written, and every other cell
/// reads as before.
pub proof fn law_write_then_read(before: PetriDish, after: PetriDish, x: int, y: int, code: u8)
    requires
        0 <= x < 25,
        0 <= y < 25,
        after.is_write_of(before, x, y, code),
    ensures
        after.cell(x, y) == code,
        forall|i: int, j: int| !(i == x && j == y) ==> after.cell(i, j) == before.cell(i, j),
{
}

/// A position outside the board reads as dead, whatever the board holds.
pub proof fn law_outside_reads_dead(dish: PetriDish, x: int, y: int)
    requires
        !(0 <= x < 25 && 0 <= y < 25),
    ensures
        dish.cell(x, y) == Cell::DEAD,
{
}

/// Writing a dead, living or blocked cell anywhere but at the centre of a
/// valid board leaves a valid board.
pub proof fn law_write_keeps_valid(board: PetriDish, written: PetriDish, x: int, y: int, code: u8)
    requires
        board.valid(),
        0 <= x < 25,
        0 <= y < 25,
        !(x == 12 && y == 12),
        code <= 2,
        written.is_write_of(board, x, y, code),
    ensures
        written.valid(),
{
    assert(written.tidy()) by {
        assert forall|r: int| 0 <= r < 25 implies #[trigger] written.spare()[r] == 0 by {
            assert(board.spare()[r] == 0);
        }
    }
    assert forall|i: int, j: int| 0 <= i < 25 && 0 <= j < 25 implies (#[trigger] written.cell(i, j)
        == Cell::DANDELIFEON <==> i == 12 && j == 12) by {
        assert(board.cell(i, j) == Cell::DANDELIFEON <==> i == 12 && j == 12);
    }
}

} // verus!
