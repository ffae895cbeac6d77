//! A whole game: steps until the game ends, and the mana that it yields.

use crate::simulation::grid::{
    hazard_living, lemma_tally_grows, lemma_tally_of_eight, living_around, tally, Grid,
};
use crate::simulation::step::{enters_hazard, lemma_enters_hazard, step_of};
use crate::simulation::{Cell, PetriDish, Status};
use vstd::prelude::*;

verus! {

/// The age of the living cells after `iterations` steps of a game: one per
/// step, up to 100.
pub open spec fn age_after(iterations: nat) -> nat {
    if iterations < 100 {
        iterations
    } else {
        100
    }
}

/// The mana that a game yields when it ends on `grid` with cells of the
/// given age: 60 times the age for each living cell next to the Dandelifeon.
pub open spec fn mana_of(grid: Grid, age: nat) -> nat {
    60 * age * living_around(grid, 12, 12)
}

/// The board on which a game ends that has played `elapsed` steps and goes
/// on from `grid`, and the mana that it yields. A step that ends abruptly
/// yields nothing; a step that ends normally yields the mana of the board
/// that it leaves; and a game that is still going on after 102 steps is
/// cut off and yields nothing.
pub open spec fn game_from(grid: Grid, elapsed: nat) -> (Grid, nat)
    decreases 102 - elapsed,
{
    if hazard_living(grid) {
        (grid, 0)
    } else if enters_hazard(grid) {
        (step_of(grid), mana_of(step_of(grid), age_after(elapsed + 1)))
    } else if elapsed >= 101 {
        (step_of(grid), 0)
    } else {
        game_from(step_of(grid), elapsed + 1)
    }
}

/// Cells of an age of 100 at most yield no more than 48000 mana.
pub proof fn lemma_mana_bound(grid: Grid, age: nat)
    requires
        age <= 100,
    ensures
        mana_of(grid, age) <= 48000,
{
    let living = living_around(grid, 12, 12);
    assert(60 * age * living <= 48000) by (nonlinear_arith)
        requires
            age <= 100,
            living <= 8,
    ;
}

/// A game yields no more than 48000 mana. Where it yields any, it has ended
/// on a board with a living cell next to the Dandelifeon, and the mana is
/// that of this board with cells of an age between 1 and 100.
pub proof fn law_game_yields_the_mana_of_its_last_board(grid: Grid, elapsed: nat)
    ensures
        game_from(grid, elapsed).1 <= 48000,
        game_from(grid, elapsed).1 > 0 ==> {
            &&& hazard_living(game_from(grid, elapsed).0)
            &&& exists|age: nat|
                1 <= age <= 100 && game_from(grid, elapsed).1 == #[trigger] mana_of(
                    game_from(grid, elapsed).0,
                    age,
                )
        },
    decreases 102 - elapsed,
{
    if hazard_living(grid) {
    } else if enters_hazard(grid) {
        let age = age_after(elapsed + 1);
        lemma_enters_hazard(grid);
        lemma_mana_bound(step_of(grid), age);
        assert(game_from(grid, elapsed).1 == mana_of(step_of(grid), age));
    } else if elapsed >= 101 {
    } else {
        law_game_yields_the_mana_of_its_last_board(step_of(grid), elapsed + 1);
    }
}

impl PetriDish {
    /// Plays the game until it ends, for 102 steps at most, and leaves the
    /// board on which it ended. Returns the mana that the game yields: none
    /// if it ended abruptly or was still going on after the last step.
    pub fn play(&mut self) -> (score: u16)
        ensures
            score == game_from(old(self)@, 0).1,
            final(self)@ == game_from(old(self)@, 0).0,
            hazard_living(old(self)@) ==> *final(self) == *old(self),
            !hazard_living(old(self)@) ==> final(self).tidy(),
    {
        let mut iters: u8 = 0;
        let mut score: u16 = 0;
        loop
            invariant_except_break
                iters <= 101,
                game_from(old(self)@, 0) == game_from(self@, iters as nat),
                iters == 0 ==> *self == *old(self),
                iters > 0 ==> !hazard_living(self@) && self.tidy(),
                iters > 0 ==> !hazard_living(old(self)@),
            ensures
                score == game_from(old(self)@, 0).1,
                self@ == game_from(old(self)@, 0).0,
                hazard_living(old(self)@) ==> *self == *old(self),
                !hazard_living(old(self)@) ==> self.tidy(),
            decreases 102 - iters,
        {
            let ghost before = self@;
            let (next, end) = self.reduce_cells();
            proof {
                if !hazard_living(before) {
                    lemma_enters_hazard(before);
                }
            }
            *self = next;
            iters += 1;
            match end {
                Status::NormalEnd => {
                    let age: u8 = if iters < 100 {
                        iters
                    } else {
                        100
                    };
                    proof {
                        lemma_mana_bound(self@, age as nat);
                    }
                    score = self.score(age);
                    break ;
                },
                Status::AbruptEnd => {
                    let age: u8 = if iters - 1 < 100 {
                        iters - 1
                    } else {
                        100
                    };
                    proof {
                        assert(hazard_living(before));
                        assert(age == 0);
                        lemma_mana_bound(self@, age as nat);
                        assert(mana_of(self@, 0) == 0) by (nonlinear_arith);
                    }
                    score = self.score(age);
                    break ;
                },
                Status::Continue => {},
            }
            if iters > 101 {
                score = 0;
                break ;
            }
        }
        score
    }

    /// The mana that the game yields when it ends on this board with cells
    /// of the given age.
    pub fn score(self, age: u8) -> (mana: u16)
        requires
            mana_of(self@, age as nat) <= u16::MAX,
        ensures
            mana == mana_of(self@, age as nat),
    {
        let dandelifeon_neighbors: [u8; 8] = self.neighbors(12, 12);
        proof {
            lemma_tally_of_eight(dandelifeon_neighbors@, Cell::LIVING);
        }
        let ghost living = living_around(self@, 12, 12);
        let mut mana: u16 = 0;
        let mut index: usize = 0;
        while index < 8
            invariant
                index <= 8,
                living == tally(dandelifeon_neighbors@, Cell::LIVING),
                60 * (age as nat) * living <= u16::MAX,
                tally(dandelifeon_neighbors@.take(index as int), Cell::LIVING) <= living,
                mana == 60 * (age as nat) * tally(
                    dandelifeon_neighbors@.take(index as int),
                    Cell::LIVING,
                ),
            decreases 8 - index,
        {
            let ghost seen = tally(dandelifeon_neighbors@.take(index as int), Cell::LIVING);
            proof {
                assert(dandelifeon_neighbors@.take(index + 1).drop_last()
                    =~= dandelifeon_neighbors@.take(index as int));
                lemma_tally_grows(dandelifeon_neighbors@, Cell::LIVING, index + 1);
            }
            if dandelifeon_neighbors[index] == Cell::LIVING {
                assert(60 * (age as nat) * (seen + 1) == 60 * (age as nat) * seen + 60 * age
                    && 60 * (age as nat) * (seen + 1) <= 60 * (age as nat) * living)
                    by (nonlinear_arith)
                    requires
                        seen + 1 <= living,
                ;
                mana = mana + (age as u16) * 60;
            }
            index += 1;
        }
        proof {
            assert(dandelifeon_neighbors@.take(8) =~= dandelifeon_neighbors@);
        }
        mana
    }
}

} // verus!
