//! One step of the game: the rule for a single cell, and the step of the
//! whole board.

use crate::simulation::grid::{
    code_at, empty_grid, hazard_living, lemma_tally_of_eight, living_around, neighbor_codes, tally,
    Grid,
};
use crate::simulation::packing::lemma_joined_code;
use crate::simulation::{lemma_same_board, Cell, PetriDish, Status};
use vstd::prelude::*;

verus! {

/// The rule of the game: what a cell that holds `center` becomes when
/// `living` of its neighbours live. A living cell survives with two or three
/// living neighbours, a dead cell comes alive with exactly three, and a
/// blocked cell and the Dandelifeon stay what they are.
pub open spec fn next_code(center: u8, living: nat) -> u8 {
    if center == Cell::DANDELIFEON {
        Cell::DANDELIFEON
    } else if center == Cell::BLOCKED {
        Cell::BLOCKED
    } else if center == Cell::LIVING && (living == 2 || living == 3) {
        Cell::LIVING
    } else if center == Cell::DEAD && living == 3 {
        Cell::LIVING
    } else {
        Cell::DEAD
    }
}

/// What the rule makes of the cell at `(x, y)`.
pub open spec fn fate(grid: Grid, x: int, y: int) -> u8 {
    next_code(code_at(grid, x, y), living_around(grid, x, y))
}

/// The rule brings a cell of the block of three by three cells around the
/// Dandelifeon to life, or keeps it alive.
pub open spec fn enters_hazard(grid: Grid) -> bool {
    exists|x: int, y: int|
        11 <= x < 14 && 11 <= y < 14 && #[trigger] fate(grid, x, y) == Cell::LIVING
}

/// The grid after one step: the rule applied to every cell at once, with
/// the Dandelifeon at the centre.
pub open spec fn step_of(grid: Grid) -> Grid {
    Seq::new(
        25,
        |y: int|
            Seq::new(
                25,
                |x: int|
                    if x == 12 && y == 12 {
                        Cell::DANDELIFEON
                    } else {
                        fate(grid, x, y)
                    },
            ),
    )
}

/// The rule brings a cell of the block around the Dandelifeon to life that
/// the scan reaches before `(x, y)`, row by row from the bottom.
pub open spec fn enters_hazard_before(grid: Grid, x: int, y: int) -> bool {
    exists|i: int, j: int|
        11 <= i < 14 && 11 <= j < 14 && (j < y || (j == y && i < x)) && #[trigger] fate(grid, i, j)
            == Cell::LIVING
}

/// Where no living cell stands next to the Dandelifeon, a step brings life
/// into the block around it exactly if a living cell stands next to the
/// Dandelifeon afterwards.
pub proof fn lemma_enters_hazard(grid: Grid)
    requires
        !hazard_living(grid),
    ensures
        enters_hazard(grid) <==> hazard_living(step_of(grid)),
{
    let next = step_of(grid);
    assert(fate(grid, 12, 12) != Cell::LIVING);
    if enters_hazard(grid) {
        let (x, y) = choose|x: int, y: int|
            11 <= x < 14 && 11 <= y < 14 && #[trigger] fate(grid, x, y) == Cell::LIVING;
        assert(code_at(next, x, y) == Cell::LIVING);
    }
    if hazard_living(next) {
        assert(fate(grid, 11, 11) == code_at(next, 11, 11));
        assert(fate(grid, 12, 11) == code_at(next, 12, 11));
        assert(fate(grid, 13, 11) == code_at(next, 13, 11));
        assert(fate(grid, 11, 12) == code_at(next, 11, 12));
        assert(fate(grid, 13, 12) == code_at(next, 13, 12));
        assert(fate(grid, 11, 13) == code_at(next, 11, 13));
        assert(fate(grid, 12, 13) == code_at(next, 12, 13));
        assert(fate(grid, 13, 13) == code_at(next, 13, 13));
    }
}

impl PetriDish {
    /// The board is what one step makes of `self`, and `status` is how that
    /// step ended. Where a living cell stands next to the Dandelifeon the
    /// step ends abruptly and changes nothing. Otherwise every cell follows
    /// the rule at once, and the step ends normally if that brings a cell
    /// around the Dandelifeon to life.
    pub open spec fn steps_to(self, next: PetriDish, status: Status) -> bool {
        if hazard_living(self@) {
            next == self && status == Status::AbruptEnd
        } else {
            &&& next@ == step_of(self@)
            &&& next.tidy()
            &&& status == if enters_hazard(self@) {
                Status::NormalEnd
            } else {
                Status::Continue
            }
        }
    }

    /// Reads the codes of the eight neighbours of the cell at `(x, y)`.
    pub(crate) fn neighbors(&self, x: u8, y: u8) -> (codes: [u8; 8])
        requires
            x < 25,
            y < 25,
        ensures
            codes@ == neighbor_codes(self@, x as int, y as int),
    {
        let x_sub_one: Option<u8> = x.checked_sub(1);
        let x_add_one: u8 = x + 1;
        let y_sub_one: Option<u8> = y.checked_sub(1);
        let y_add_one: u8 = y + 1;

        let codes: [u8; 8] = [
            self.read(x_add_one, y),
            self.read_maybe_x(x_sub_one, y),
            self.read_maybe_y(x, y_sub_one),
            self.read_maybe_y(x_add_one, y_sub_one),
            self.read_maybe_x_y(x_sub_one, y_sub_one),
            self.read(x, y_add_one),
            self.read(x_add_one, y_add_one),
            self.read_maybe_x(x_sub_one, y_add_one),
        ];
        proof {
            assert(codes@ =~= neighbor_codes(self@, x as int, y as int));
        }
        codes
    }

    /// Whether any of eight codes is a living cell.
    fn any_living(codes: &[u8; 8]) -> (found: bool)
        ensures
            found == (tally(codes@, Cell::LIVING) > 0),
    {
        let mut found: bool = false;
        let mut index: usize = 0;
        while index < 8
            invariant
                index <= 8,
                found == (tally(codes@.take(index as int), Cell::LIVING) > 0),
            decreases 8 - index,
        {
            proof {
                assert(codes@.take(index + 1).drop_last() =~= codes@.take(index as int));
            }
            if codes[index] == Cell::LIVING {
                found = true;
            }
            index += 1;
        }
        proof {
            assert(codes@.take(8) =~= codes@);
        }
        found
    }

    /// Applies the rule of the game to one cell: what a cell that holds
    /// `center` becomes among the given eight neighbours.
    pub fn reduce_local_asm(center: u8, neighbors: [u8; 8]) -> (next: u8)
        ensures
            next == next_code(center, tally(neighbors@, Cell::LIVING)),
            next <= 3,
    {
        let mut count_neighbors: u8 = 0;
        let mut index: usize = 0;
        while index < 8
            invariant
                index <= 8,
                count_neighbors == tally(neighbors@.take(index as int), Cell::LIVING),
                count_neighbors <= index,
            decreases 8 - index,
        {
            proof {
                assert(neighbors@.take(index + 1).drop_last() =~= neighbors@.take(index as int));
            }
            if neighbors[index] == Cell::LIVING {
                count_neighbors += 1;
            }
            index += 1;
        }
        proof {
            assert(neighbors@.take(8) =~= neighbors@);
        }

        let center_alive: bool = center == Cell::LIVING;
        let center_dead: bool = center == Cell::DEAD;
        let dandelifeon: bool = center == Cell::DANDELIFEON;
        let blocked: bool = center == Cell::BLOCKED;
        let three_living_neighbors: bool = count_neighbors == 3;
        let two_living_neighbors: bool = count_neighbors == 2;
        let next_alive: bool = (center_alive && (three_living_neighbors || two_living_neighbors))
            || (center_dead && three_living_neighbors);

        let blocked_or_dandelifeon: bool = dandelifeon || blocked;
        let alive_or_dandelifeon: bool = next_alive || dandelifeon;

        let high: u8 = if blocked_or_dandelifeon {
            1
        } else {
            0
        };
        let low: u8 = if alive_or_dandelifeon {
            1
        } else {
            0
        };
        assert((high << 1) | low == 2 * high + low) by (bit_vector)
            requires
                high <= 1,
                low <= 1,
        ;
        (high << 1) | low
    }

    /// Plays a single step of the game on the whole board.
    pub fn reduce_cells(self) -> (outcome: (Self, Status))
        ensures
            self.steps_to(outcome.0, outcome.1),
    {
        let dandelifeon_neighbors: [u8; 8] = self.neighbors(12, 12);
        proof {
            lemma_tally_of_eight(dandelifeon_neighbors@, Cell::LIVING);
        }
        if Self::any_living(&dandelifeon_neighbors) {
            return (self, Status::AbruptEnd);
        }
        let mut game_over: Status = Status::Continue;
        let mut next_state: Self = Self::new();

        let mut y: u8 = 0;
        while y < 25
            invariant
                y <= 25,
                next_state.tidy(),
                forall|i: int, j: int|
                    0 <= i < 25 && 0 <= j < y ==> #[trigger] next_state@[j][i] == step_of(
                        self@,
                    )[j][i],
                forall|i: int, j: int|
                    0 <= i < 25 && y <= j < 25 ==> #[trigger] next_state@[j][i]
                        == empty_grid()[j][i],
                game_over == if enters_hazard_before(self@, 0, y as int) {
                    Status::NormalEnd
                } else {
                    Status::Continue
                },
            decreases 25 - y,
        {
            let mut x: u8 = 0;
            while x < 25
                invariant
                    x <= 25,
                    y < 25,
                    next_state.tidy(),
                    forall|i: int, j: int|
                        0 <= i < 25 && 0 <= j < y ==> #[trigger] next_state@[j][i] == step_of(
                            self@,
                        )[j][i],
                    forall|i: int|
                        0 <= i < x ==> #[trigger] next_state@[y as int][i] == step_of(
                            self@,
                        )[y as int][i],
                    forall|i: int|
                        x <= i < 25 ==> #[trigger] next_state@[y as int][i]
                            == empty_grid()[y as int][i],
                    forall|i: int, j: int|
                        0 <= i < 25 && y < j < 25 ==> #[trigger] next_state@[j][i]
                            == empty_grid()[j][i],
                    game_over == if enters_hazard_before(self@, x as int, y as int) {
                        Status::NormalEnd
                    } else {
                        Status::Continue
                    },
                decreases 25 - x,
            {
                let center: u8 = self.read(x, y);
                let neighbors: [u8; 8] = self.neighbors(x, y);
                let new_cell: u8 = Self::reduce_local_asm(center, neighbors);
                proof {
                    lemma_tally_of_eight(neighbors@, Cell::LIVING);
                    assert(new_cell == fate(self@, x as int, y as int));
                }
                if new_cell == Cell::LIVING && 11 <= x && x < 14 && 11 <= y && y < 14 {
                    game_over = Status::NormalEnd;
                }
                proof {
                    lemma_joined_code(next_state.cell(x as int, y as int), new_cell);
                }
                next_state.write_assume_clean_slate(x, y, new_cell);
                x += 1;
            }
            y += 1;
        }
        proof {
            assert(next_state@ =~~= step_of(self@));
        }
        (next_state, game_over)
    }
}

/// No step moves the Dandelifeon from the centre of the board.
pub proof fn law_center_stays(before: PetriDish, next: PetriDish, status: Status)
    requires
        before.steps_to(next, status),
        before.cell(12, 12) == Cell::DANDELIFEON,
    ensures
        next.cell(12, 12) == Cell::DANDELIFEON,
{
}

/// A step is a function of the board: the same board steps to the same
/// board with the same status.
pub proof fn law_step_is_a_function(
    board: PetriDish,
    first: PetriDish,
    first_status: Status,
    second: PetriDish,
    second_status: Status,
)
    requires
        board.steps_to(first, first_status),
        board.steps_to(second, second_status),
    ensures
        first == second,
        first_status == second_status,
{
    if !hazard_living(board@) {
        assert(first.spare() =~= second.spare());
        lemma_same_board(first, second);
    }
}

/// Where a living cell stands next to the Dandelifeon, a step leaves the
/// board as it is and ends abruptly.
pub proof fn law_living_hazard_ends_abruptly(board: PetriDish, next: PetriDish, status: Status)
    requires
        board.steps_to(next, status),
        hazard_living(board@),
    ensures
        next == board,
        status == Status::AbruptEnd,
{
}

/// A step on a valid board leaves a valid board.
pub proof fn law_step_keeps_valid(board: PetriDish, next: PetriDish, status: Status)
    requires
        board.valid(),
        board.steps_to(next, status),
    ensures
        next.valid(),
{
    if !hazard_living(board@) {
        assert forall|i: int, j: int| 0 <= i < 25 && 0 <= j < 25 implies (#[trigger] next.cell(i, j)
            == Cell::DANDELIFEON <==> i == 12 && j == 12) by {
            assert(board.cell(i, j) == Cell::DANDELIFEON <==> i == 12 && j == 12);
        }
    }
}

} // verus!
