//! Boards and coordinates that are known beforehand: a setup for a game of
//! 100 rounds, and the list of all cells but the centre.

use crate::simulation::grid::Grid;
use crate::simulation::{Cell, PetriDish};
use vstd::prelude::*;

verus! {

/// The code that the setup for a game of 100 rounds holds at `(x, y)`:
/// seven blocked and six living cells above the Dandelifeon.
pub open spec fn reference_code(x: int, y: int) -> u8 {
    if (x == 7 && y == 14) || (x == 12 && y == 14) || (x == 17 && y == 14) || (x == 9 && y == 19)
        || (x == 15 && y == 19) || (x == 17 && y == 20) || (x == 17 && y == 23) {
        Cell::BLOCKED
    } else if (x == 15 && y == 20) || (x == 12 && y == 21) || (x == 15 && y == 21) || (x == 11 && y
        == 22) || (x == 12 && y == 22) || (x == 13 && y == 22) {
        Cell::LIVING
    } else if x == 12 && y == 12 {
        Cell::DANDELIFEON
    } else {
        Cell::DEAD
    }
}

/// The setup for a game of 100 rounds, as a grid.
pub open spec fn reference_grid() -> Grid {
    Seq::new(25, |y: int| Seq::new(25, |x: int| reference_code(x, y)))
}

/// The coordinates that stand at `index` in the list of all cells but the
/// centre, column by column and bottom to top within a column.
pub open spec fn noncenter(index: int) -> (int, int) {
    let place = if index < 312 {
        index
    } else {
        index + 1
    };
    (place / 25, place % 25)
}

impl PetriDish {
    /// The setup that Cobra1117 found in 2016 with a genetic algorithm, for
    /// a game that ends in its 100th round with six cells of full age:
    /// seven blocked and six living cells above the Dandelifeon.
    pub fn optimal_100_round() -> (dish: Self)
        ensures
            dish@ == reference_grid(),
            dish.valid(),
    {
        let mut current_record: Self = Self::new();

        current_record.set_blocked(7, 14);
        current_record.set_blocked(12, 14);
        current_record.set_blocked(17, 14);
        current_record.set_blocked(9, 19);
        current_record.set_blocked(15, 19);
        current_record.set_blocked(17, 20);
        current_record.set_blocked(17, 23);

        current_record.set_living(15, 20);
        current_record.set_living(12, 21);
        current_record.set_living(15, 21);
        current_record.set_living(11, 22);
        current_record.set_living(12, 22);
        current_record.set_living(13, 22);

        proof {
            assert(current_record@ =~~= reference_grid());
        }
        current_record
    }

    /// The coordinates that stand at `index` in the list of all 624 cells
    /// but the centre.
    pub fn noncenter_coords(index: u16) -> (coords: (u8, u8))
        requires
            index < 624,
        ensures
            (coords.0 as int, coords.1 as int) == noncenter(index as int),
            coords.0 < 25,
            coords.1 < 25,
            !(coords.0 == 12 && coords.1 == 12),
    {
        let place: u16 = if index < 312 {
            index
        } else {
            index + 1
        };
        ((place / 25) as u8, (place % 25) as u8)
    }
}

} // verus!
