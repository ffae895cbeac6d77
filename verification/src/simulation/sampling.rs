//! Random boards to start the search from.

use crate::random::{random_range, random_ratio};
use crate::simulation::grid::{
    around, code_at, empty_grid, hazard_living, lemma_write_around_center,
};
use crate::simulation::{Cell, PetriDish};
use rand::rngs::SmallRng;
use vstd::prelude::*;

verus! {

/// What the sampler makes of a cell next to the Dandelifeon when
/// `core_blockers` of those cells are blocked already and the coin came up
/// `coin`.
pub open spec fn hazard_sample(core_blockers: u8, coin: bool) -> u8 {
    if core_blockers < 2 && coin {
        Cell::BLOCKED
    } else {
        Cell::DEAD
    }
}

impl PetriDish {
    /// What the sampler makes of a cell next to the Dandelifeon: it blocks
    /// the cell if the coin came up and fewer than two of those cells are
    /// blocked so far, and leaves it dead otherwise.
    pub fn hazard_cell(core_blockers: u8, coin: bool) -> (code: u8)
        ensures
            code == hazard_sample(core_blockers, coin),
    {
        if core_blockers < 2 && coin {
            Cell::BLOCKED
        } else {
            Cell::DEAD
        }
    }

    /// Draws a random board to start a game from. Each cell next to the
    /// Dandelifeon is blocked with a chance of one in eight, but no more
    /// than two of them, and is dead otherwise; every other cell is dead,
    /// living or blocked with equal chances.
    pub fn sample(rng: &mut SmallRng) -> (dish: Self)
        ensures
            dish.valid(),
            around(dish@, 12, 12, Cell::BLOCKED) <= 2,
            !hazard_living(dish@),
    {
        let mut temp: PetriDish = PetriDish::new();
        let mut core_blockers: u8 = 0;
        let mut x: u8 = 0;
        while x < 25
            invariant
                x <= 25,
                temp.tidy(),
                core_blockers <= 2,
                core_blockers == around(temp@, 12, 12, Cell::BLOCKED),
                !hazard_living(temp@),
                forall|i: int, j: int|
                    0 <= i < x && 0 <= j < 25 && !(i == 12 && j == 12) ==> #[trigger] temp@[j][i]
                        <= 2,
                forall|i: int, j: int|
                    x <= i < 25 && 0 <= j < 25 ==> #[trigger] temp@[j][i] == empty_grid()[j][i],
                temp@[12][12] == Cell::DANDELIFEON,
            decreases 25 - x,
        {
            let mut y: u8 = 0;
            while y < 25
                invariant
                    x < 25,
                    y <= 25,
                    temp.tidy(),
                    core_blockers <= 2,
                    core_blockers == around(temp@, 12, 12, Cell::BLOCKED),
                    !hazard_living(temp@),
                    forall|i: int, j: int|
                        0 <= i < x && 0 <= j < 25 && !(i == 12 && j == 12)
                            ==> #[trigger] temp@[j][i] <= 2,
                    forall|j: int|
                        0 <= j < y && !(x == 12 && j == 12) ==> #[trigger] temp@[j][x as int] <= 2,
                    forall|j: int|
                        y <= j < 25 ==> #[trigger] temp@[j][x as int] == empty_grid()[j][x as int],
                    forall|i: int, j: int|
                        x < i < 25 && 0 <= j < 25 ==> #[trigger] temp@[j][i] == empty_grid()[j][i],
                    temp@[12][12] == Cell::DANDELIFEON,
                decreases 25 - y,
            {
                if x != 12 || y != 12 {
                    let ghost before = temp@;
                    let code: u8 = if 11 <= x && x < 14 && 11 <= y && y < 14 {
                        let coin: bool = random_ratio(rng, 1, 8);
                        let code: u8 = Self::hazard_cell(core_blockers, coin);
                        if code == Cell::BLOCKED {
                            core_blockers += 1;
                        }
                        code
                    } else {
                        random_range(rng, 0, 3) as u8
                    };
                    temp.write(x, y, code);
                    proof {
                        let (i, j) = (x as int, y as int);
                        assert(code_at(before, i, j) == Cell::DEAD);
                        lemma_write_around_center(before, temp@, i, j, code, Cell::LIVING);
                        lemma_write_around_center(before, temp@, i, j, code, Cell::BLOCKED);
                    }
                }
                y += 1;
            }
            x += 1;
        }
        temp
    }
}

} // verus!
