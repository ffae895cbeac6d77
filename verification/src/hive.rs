//! The Dandelifeon as a problem for the bees algorithm: a flower is a board,
//! and its nectar is the mana that a game on it yields and what the board
//! costs to set up.

use crate::bees::radius::shrunk_times;
use crate::bees::{radius_floor, well_ordered, Colony, Scout};
use crate::random::random_range;
use crate::simulation::census::{
    census, differences, lemma_census_bound, lemma_no_differences, lemma_written_differences,
};
use crate::simulation::game::game_from;
use crate::simulation::grid::{around, hazard_living, lemma_write_around_center, Grid};
use crate::simulation::{law_write_keeps_valid, Cell, PetriDish};
use rand::rngs::SmallRng;
use vstd::prelude::*;

verus! {

/// What a board is worth: the mana that a game on it yields, and the number
/// of living and blocked cells that it takes to set the board up.
#[derive(Debug, Clone, Copy, PartialEq, Eq, Hash)]
pub struct Nectar {
    /// The mana that a game on the board yields.
    pub mana: u16,
    /// The number of living and blocked cells on the board.
    pub cost: u16,
}

/// The mana and the cost of a game on `grid`, as nectar.
pub open spec fn nectar_of(grid: Grid) -> Nectar {
    Nectar {
        mana: game_from(grid, 0).1 as u16,
        cost: (census(grid, Cell::LIVING, 25) + census(grid, Cell::BLOCKED, 25)) as u16,
    }
}

/// A colony of 20 scouts that searches for boards. It stops after a given
/// number of cycles.
#[derive(Debug, Clone, Copy, PartialEq, Eq, Hash)]
pub struct Hive {
    /// The number of cycles that the search may still take.
    cycles_left: usize,
}

impl Hive {
    /// The number of cycles that the search may still take.
    pub closed spec fn spec_cycles_left(&self) -> usize {
        self.cycles_left
    }

    /// A colony that searches for 1000 cycles.
    pub fn new() -> (hive: Self)
        ensures
            hive.spec_cycles_left() == 1000,
    {
        Hive { cycles_left: 1000 }
    }

    /// A colony that searches for the given number of cycles.
    pub fn with_cycles(cycles: usize) -> (hive: Self)
        ensures
            hive.spec_cycles_left() == cycles,
    {
        Hive { cycles_left: cycles }
    }

    /// The number of cycles that the search may still take.
    #[verifier::when_used_as_spec(spec_cycles_left)]
    pub fn cycles_left(&self) -> (cycles: usize)
        ensures
            cycles == self.spec_cycles_left(),
    {
        self.cycles_left
    }
}

impl Colony<20> for Hive {
    type Flower = PetriDish;

    type Nectar = Nectar;

    type Source = SmallRng;

    const ELITE_SITES: usize = 2;

    const BEST_SITES: usize = 6;

    const ELITE_RECRUITS: usize = 8;

    const BEST_RECRUITS: usize = 4;

    const FLOWER_PATCH_SIZE: usize = 624;

    const STAGNATION_LIMIT: usize = 10;

    /// A nectar ranks by its mana, most first, and within one mana by its
    /// cost, lowest first.
    open spec fn rank(nectar: Nectar) -> int {
        nectar.cost - 0x1_0000 * nectar.mana
    }

    open spec fn nectar(flower: PetriDish) -> Nectar {
        nectar_of(flower@)
    }

    /// The number of cells in which two boards differ.
    open spec fn distance(a: PetriDish, b: PetriDish) -> nat {
        differences(a@, b@, 25)
    }

    open spec fn patience(&self) -> nat {
        self.spec_cycles_left() as nat
    }

    /// More mana is better; of two boards with the same mana the cheaper
    /// is better.
    fn better(a: &Nectar, b: &Nectar) -> (yes: bool)
        ensures
            yes == (a.mana > b.mana || (a.mana == b.mana && a.cost < b.cost)),
    {
        a.mana > b.mana || (a.mana == b.mana && a.cost < b.cost)
    }

    /// Plays a game on a copy of the board and counts what the board costs.
    fn evaluate(solution: &PetriDish) -> (nectar: Nectar) {
        let (living, blocked) = solution.count_living_and_blocked();
        proof {
            lemma_census_bound(solution@, Cell::LIVING, 25);
            lemma_census_bound(solution@, Cell::BLOCKED, 25);
        }
        let mut dish: PetriDish = *solution;
        let mana: u16 = dish.play();
        Nectar { mana, cost: living + blocked }
    }

    /// Draws a random board.
    fn scout(rng: &mut SmallRng) -> (flower: PetriDish)
        ensures
            flower.valid(),
            around(flower@, 12, 12, Cell::BLOCKED) <= 2,
            !hazard_living(flower@),
    {
        PetriDish::sample(rng)
    }

    /// Rewrites as many cells of the board as the radius says, each chosen
    /// at random among all cells but the centre: a cell next to the
    /// Dandelifeon dies, and any other cell is dead, living or blocked with
    /// equal chances.
    fn explore(
        origin: &PetriDish,
        _current_best: &Scout<20, Hive>,
        radius: usize,
        rng: &mut SmallRng,
    ) -> (flower: PetriDish)
        ensures
            origin.valid() ==> flower.valid(),
            !hazard_living(origin@) ==> !hazard_living(flower@),
            around(flower@, 12, 12, Cell::BLOCKED) <= around(origin@, 12, 12, Cell::BLOCKED),
    {
        let mut flower: PetriDish = *origin;
        let mut rewritten: usize = 0;
        proof {
            lemma_no_differences(origin@, 25);
        }
        while rewritten < radius
            invariant
                rewritten <= radius,
                differences(origin@, flower@, 25) <= rewritten,
                origin.valid() ==> flower.valid(),
                !hazard_living(origin@) ==> !hazard_living(flower@),
                around(flower@, 12, 12, Cell::BLOCKED) <= around(origin@, 12, 12, Cell::BLOCKED),
            decreases radius - rewritten,
        {
            let index: u16 = random_range(rng, 0, 624) as u16;
            let (x, y) = PetriDish::noncenter_coords(index);
            let code: u8 = if 11 <= x && x < 14 && 11 <= y && y < 14 {
                Cell::DEAD
            } else {
                random_range(rng, 0, 3) as u8
            };
            let ghost before = flower;
            flower.write(x, y, code);
            proof {
                lemma_written_differences(origin@, before@, flower@, x as int, y as int, 25);
                if before.valid() {
                    law_write_keeps_valid(before, flower, x as int, y as int, code);
                }
                lemma_write_around_center(
                    before@,
                    flower@,
                    x as int,
                    y as int,
                    code,
                    Cell::LIVING,
                );
                lemma_write_around_center(
                    before@,
                    flower@,
                    x as int,
                    y as int,
                    code,
                    Cell::BLOCKED,
                );
            }
            rewritten += 1;
        }
        flower
    }

    /// Stops once no cycle is left, and counts a cycle otherwise.
    fn stopping_condition(&mut self) -> (stop: bool)
        ensures
            stop == (old(self).spec_cycles_left() == 0),
            final(self).spec_cycles_left() == if stop {
                0
            } else {
                old(self).spec_cycles_left() - 1
            },
    {
        if self.cycles_left == 0 {
            true
        } else {
            self.cycles_left = self.cycles_left - 1;
            false
        }
    }
}

/// The hive keeps the numbers of its sites and recruits in the order that
/// the algorithm needs, and the radius of its patches never falls below 72.
pub proof fn law_hive_is_well_ordered()
    ensures
        Hive::ELITE_SITES == 2,
        Hive::BEST_SITES == 6,
        Hive::ELITE_RECRUITS == 8,
        Hive::BEST_RECRUITS == 4,
        Hive::FLOWER_PATCH_SIZE == 624,
        Hive::STAGNATION_LIMIT == 10,
        well_ordered::<20, Hive>(),
        radius_floor::<20, Hive>() == 72,
{
    assert(shrunk_times(624, 0) == 624);
    assert(shrunk_times(624, 1) == 500);
    assert(shrunk_times(624, 2) == 400);
    assert(shrunk_times(624, 3) == 320);
    assert(shrunk_times(624, 4) == 256);
    assert(shrunk_times(624, 5) == 206);
    assert(shrunk_times(624, 6) == 166);
    assert(shrunk_times(624, 7) == 134);
    assert(shrunk_times(624, 8) == 108);
    assert(shrunk_times(624, 9) == 88);
    assert(shrunk_times(624, 10) == 72);
}

} // verus!
