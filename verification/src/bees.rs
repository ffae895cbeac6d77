//! The bees algorithm: scouts find flowers, the best flower patches recruit
//! foragers that search their neighbourhood, stagnant patches shrink and
//! are abandoned in the end, and the rest of the colony keeps scouting.

pub mod radius;
pub mod sorting;

use crate::bees::radius::{lemma_shrunk, lemma_shrunk_times_falls, shrunk, shrunk_times};
use crate::bees::sorting::{lemma_sorted, lemma_sorted_keeps, sort_by_fitness, sorts_to};
use core::fmt::Debug;
use vstd::prelude::*;

verus! {

/// A problem that the bees algorithm can search. The colony says what a
/// flower is worth, how to find flowers, and when to stop; the algorithm does
/// the rest. The number of scouts, `N_SCOUTS`, is the size of the population.
pub trait Colony<const N_SCOUTS: usize>: Debug + Copy {
    /// A candidate solution of the problem.
    type Flower: Debug + Copy;

    /// What a flower is worth. Lower is better.
    type Nectar: Debug + Copy;

    /// The source of randomness that scouting and exploring draw from.
    type Source;

    /// The number of elite sites. It must be smaller than
    /// [`Colony::BEST_SITES`].
    const ELITE_SITES: usize;

    /// The number of best sites, elite sites included. It must not exceed
    /// the number of scouts.
    const BEST_SITES: usize;

    /// The number of foragers recruited for each elite site. It must not be
    /// smaller than [`Colony::BEST_RECRUITS`].
    const ELITE_RECRUITS: usize;

    /// The number of foragers recruited for each best site that is not
    /// elite.
    const BEST_RECRUITS: usize;

    /// The radius of the neighbourhood of a new flower patch.
    const FLOWER_PATCH_SIZE: usize;

    /// The number of cycles without improvement after which a flower patch
    /// is abandoned: it is abandoned in the cycle in which its count of such
    /// cycles reaches this number.
    const STAGNATION_LIMIT: usize;

    /// The place of a nectar in the order of all nectars. Lower is better.
    /// The default is one unknown number, the same for every nectar, under
    /// which no nectar is better than another: a colony that is to be
    /// verified gives its own.
    open spec fn rank(nectar: Self::Nectar) -> int {
        arbitrary()
    }

    /// What a flower is worth. The default is one unknown nectar, the same
    /// for every flower: a colony that is to be verified gives its own.
    open spec fn nectar(flower: Self::Flower) -> Self::Nectar {
        arbitrary()
    }

    /// How far two flowers lie apart. The default is one unknown distance,
    /// the same for every two flowers: a colony that is to be verified gives
    /// its own.
    open spec fn distance(a: Self::Flower, b: Self::Flower) -> nat {
        arbitrary()
    }

    /// A bound on the number of times that the colony will still answer
    /// that the search goes on. The default is one unknown number, the same
    /// in every state, under which the colony can only answer to stop: a
    /// colony that is to be verified gives its own.
    open spec fn patience(&self) -> nat {
        arbitrary()
    }

    /// Whether `a` is strictly better than `b`.
    fn better(a: &Self::Nectar, b: &Self::Nectar) -> (yes: bool)
        ensures
            yes == (Self::rank(*a) < Self::rank(*b)),
    ;

    /// Evaluates a flower.
    fn evaluate(solution: &Self::Flower) -> (nectar: Self::Nectar)
        ensures
            nectar == Self::nectar(*solution),
    ;

    /// Finds a flower anywhere, at random.
    fn scout(rng: &mut Self::Source) -> Self::Flower;

    /// Finds a flower near `origin`, at random: no further from it than
    /// `radius`. The best flower found so far is there to be considered.
    fn explore(
        origin: &Self::Flower,
        current_best: &Scout<N_SCOUTS, Self>,
        radius: usize,
        rng: &mut Self::Source,
    ) -> (flower: Self::Flower)
        requires
            shrunk_times(Self::FLOWER_PATCH_SIZE as nat, Self::STAGNATION_LIMIT as nat) <= radius
                <= Self::FLOWER_PATCH_SIZE,
        ensures
            Self::distance(*origin, flower) <= radius,
    ;

    /// Says whether it is time to stop searching. An answer that the search
    /// goes on uses up some of the colony's patience.
    fn stopping_condition(&mut self) -> (stop: bool)
        ensures
            !stop ==> final(self).patience() < old(self).patience(),
    ;
}

/// The numbers of sites and of recruits stand in the order that the
/// algorithm needs: fewer elite sites than best sites, no more best sites
/// than scouts, and no fewer recruits for an elite site than for a best one.
pub open spec fn well_ordered<const NS: usize, H: Colony<NS>>() -> bool {
    &&& H::ELITE_SITES < H::BEST_SITES
    &&& H::BEST_SITES <= NS
    &&& H::ELITE_RECRUITS >= H::BEST_RECRUITS
}

/// The smallest radius that the neighbourhood of a flower patch of the
/// colony can have: that of a new patch, shrunk as often as a patch may
/// stagnate before it is abandoned.
pub open spec fn radius_floor<const NS: usize, H: Colony<NS>>() -> nat {
    shrunk_times(H::FLOWER_PATCH_SIZE as nat, H::STAGNATION_LIMIT as nat)
}

/// A bee that has found a flower, with what the flower is worth. The flower
/// is evaluated once, when the scout is made.
#[derive(Debug, Clone, Copy, PartialEq, Eq, Hash)]
pub struct Scout<const NS: usize, Hive: Colony<NS>> {
    fitness: Hive::Nectar,
    solution: Hive::Flower,
}

impl<const NS: usize, Hive: Colony<NS>> Scout<NS, Hive> {
    /// The nectar that the scout recorded.
    pub closed spec fn spec_fitness(&self) -> Hive::Nectar {
        self.fitness
    }

    /// The flower that the scout holds.
    pub closed spec fn spec_solution(&self) -> Hive::Flower {
        self.solution
    }

    /// The place of the scout's nectar in the order of all nectars.
    pub open spec fn rank(&self) -> int {
        Hive::rank(self.spec_fitness())
    }

    /// The recorded nectar is what the flower is worth.
    pub open spec fn evaluated(&self) -> bool {
        self.spec_fitness() == Hive::nectar(self.spec_solution())
    }

    /// Makes a scout for the given flower and evaluates the flower.
    pub fn with_solution(solution: Hive::Flower) -> (scout: Self)
        ensures
            scout.spec_solution() == solution,
            scout.evaluated(),
    {
        Self { fitness: Hive::evaluate(&solution), solution }
    }

    /// The nectar that the scout recorded.
    #[verifier::when_used_as_spec(spec_fitness)]
    pub fn fitness(&self) -> (nectar: Hive::Nectar)
        ensures
            nectar == self.spec_fitness(),
    {
        self.fitness
    }

    /// The flower that the scout holds.
    #[verifier::when_used_as_spec(spec_solution)]
    pub fn solution(&self) -> (flower: Hive::Flower)
        ensures
            flower == self.spec_solution(),
    {
        self.solution
    }
}

/// A neighbourhood in which foragers search: the best flower found in it so
/// far, and how the search in it is going.
#[derive(Debug, Clone, Copy)]
pub struct FlowerPatch<const NS: usize, Hive: Colony<NS>> {
    /// The scout with the best flower found in this patch so far.
    pub scout: Scout<NS, Hive>,
    /// The number of foragers recruited to this patch.
    pub foragers: usize,
    /// The radius of the patch: how far a flower in it may lie from the
    /// scout's flower.
    pub neighbourhood: usize,
    /// Whether the patch has found no better flower in the current cycle.
    pub stagnation: bool,
    /// The number of cycles in which the patch has found no better flower.
    pub stagnation_counter: usize,
}

impl<const NS: usize, Hive: Colony<NS>> FlowerPatch<NS, Hive> {
    /// The patch is as a colony keeps it between cycles: its scout's flower
    /// is evaluated, it has stagnated for fewer cycles than the limit, if it
    /// has stagnated at all, and its radius is that of a new patch, shrunk
    /// once for each cycle in which it stagnated.
    pub open spec fn wf(&self) -> bool {
        &&& self.scout.evaluated()
        &&& (self.stagnation_counter < Hive::STAGNATION_LIMIT || self.stagnation_counter == 0)
        &&& self.neighbourhood == shrunk_times(
            Hive::FLOWER_PATCH_SIZE as nat,
            self.stagnation_counter as nat,
        )
    }

    /// The patch is new: it has no foragers, the full radius, and has not
    /// stagnated yet.
    pub open spec fn fresh(&self) -> bool {
        &&& self.scout.evaluated()
        &&& self.foragers == 0
        &&& self.neighbourhood == Hive::FLOWER_PATCH_SIZE
        &&& self.stagnation
        &&& self.stagnation_counter == 0
    }

    /// `after` is what one cycle makes of this patch as a best site. A patch
    /// that finds a better flower takes it and is otherwise unchanged. A
    /// patch that finds none shrinks and counts the cycle, unless its count
    /// reaches the limit with this cycle: then it is abandoned for a new
    /// patch.
    pub open spec fn tends_to(&self, after: Self) -> bool {
        ||| {
            &&& after.scout.rank() < self.scout.rank()
            &&& after.scout.evaluated()
            &&& after == (FlowerPatch { scout: after.scout, stagnation: false, ..*self })
        }
        ||| {
            &&& self.stagnation_counter + 1 < Hive::STAGNATION_LIMIT
            &&& after == (FlowerPatch {
                stagnation: true,
                neighbourhood: shrunk(self.neighbourhood as nat) as usize,
                stagnation_counter: (self.stagnation_counter + 1) as usize,
                ..*self
            })
        }
        ||| {
            &&& self.stagnation_counter + 1 >= Hive::STAGNATION_LIMIT
            &&& after.fresh()
        }
    }

    /// A new patch around a flower found at random.
    pub fn new(rng: &mut Hive::Source) -> (patch: Self)
        ensures
            patch.fresh(),
    {
        Self::with_solution(Hive::scout(rng))
    }

    /// A new patch around the given flower.
    pub fn with_solution(solution: Hive::Flower) -> (patch: Self)
        ensures
            patch.fresh(),
            patch.scout.spec_solution() == solution,
    {
        Self {
            scout: Scout::with_solution(solution),
            foragers: 0,
            neighbourhood: Hive::FLOWER_PATCH_SIZE,
            stagnation: true,
            stagnation_counter: 0,
        }
    }

    /// Makes `new_scout` the scout of the patch, which has then found a
    /// better flower in this cycle.
    pub fn promote(&mut self, new_scout: Scout<NS, Hive>)
        ensures
            *final(self) == (FlowerPatch { scout: new_scout, stagnation: false, ..*old(self) }),
    {
        self.scout = new_scout;
        self.stagnation = false;
    }

    /// Takes a flower that a forager has found: the forager's scout becomes
    /// the scout of the patch if its flower is strictly better.
    pub fn consider(&mut self, new_scout: Scout<NS, Hive>)
        ensures
            *final(self) == if new_scout.rank() < old(self).scout.rank() {
                FlowerPatch { scout: new_scout, stagnation: false, ..*old(self) }
            } else {
                *old(self)
            },
    {
        if Hive::better(&new_scout.fitness, &self.scout.fitness) {
            self.promote(new_scout);
        }
    }

    /// Shrinks the radius of the patch if it has found no better flower in
    /// this cycle.
    pub fn shrinking(&mut self)
        ensures
            *final(self) == if old(self).stagnation {
                FlowerPatch {
                    neighbourhood: shrunk(old(self).neighbourhood as nat) as usize,
                    ..*old(self)
                }
            } else {
                *old(self)
            },
    {
        if self.stagnation {
            self.neighbourhood = self.neighbourhood - (self.neighbourhood / 10) * 2;
        }
    }

    /// Lets the foragers of the patch search its neighbourhood: each finds
    /// a flower near the scout's, and the patch takes the flower if it is
    /// strictly better than the one it has. A patch without foragers finds
    /// nothing and ends stagnating.
    pub fn local_search(&mut self, current_best: &Scout<NS, Hive>, rng: &mut Hive::Source)
        requires
            old(self).wf(),
        ensures
            final(self).wf(),
            old(self).foragers == 0 ==> *final(self) == (FlowerPatch {
                stagnation: true,
                ..*old(self)
            }),
            final(self).foragers == old(self).foragers,
            final(self).neighbourhood == old(self).neighbourhood,
            final(self).stagnation_counter == old(self).stagnation_counter,
            final(self).stagnation <==> final(self).scout == old(self).scout,
            !final(self).stagnation <==> final(self).scout.rank() < old(self).scout.rank(),
    {
        self.stagnation = true;
        proof {
            law_radius_stays_above_the_floor(*self);
        }
        let mut forager: usize = 0;
        while forager < self.foragers
            invariant
                forager <= self.foragers,
                forager == 0 ==> *self == (FlowerPatch { stagnation: true, ..*old(self) }),
                self.wf(),
                self.foragers == old(self).foragers,
                self.neighbourhood == old(self).neighbourhood,
                self.stagnation_counter == old(self).stagnation_counter,
                self.stagnation <==> self.scout == old(self).scout,
                !self.stagnation <==> self.scout.rank() < old(self).scout.rank(),
                radius_floor::<NS, Hive>() <= self.neighbourhood <= Hive::FLOWER_PATCH_SIZE,
            decreases self.foragers - forager,
        {
            let new_solution = Hive::explore(
                &self.scout.solution,
                current_best,
                self.neighbourhood,
                rng,
            );
            let new_scout: Scout<NS, Hive> = Scout::with_solution(new_solution);
            self.consider(new_scout);
            forager += 1;
        }
    }

    /// Counts a cycle without improvement, and abandons the patch in the
    /// cycle in which that count reaches the limit of the colony: its flower
    /// is kept as the best found so far if it is strictly better, and the
    /// patch starts anew around a flower found at random.
    pub fn abandonment(&mut self, current_best: &mut Scout<NS, Hive>, rng: &mut Hive::Source)
        ensures
            !old(self).stagnation ==> *final(self) == *old(self) && *final(current_best) == *old(
                current_best,
            ),
            old(self).stagnation && old(self).stagnation_counter + 1 < Hive::STAGNATION_LIMIT ==> {
                &&& *final(self) == (FlowerPatch {
                    stagnation_counter: (old(self).stagnation_counter + 1) as usize,
                    ..*old(self)
                })
                &&& *final(current_best) == *old(current_best)
            },
            old(self).stagnation && old(self).stagnation_counter + 1 >= Hive::STAGNATION_LIMIT ==> {
                &&& final(self).fresh()
                &&& *final(current_best) == if old(self).scout.rank() < old(current_best).rank() {
                    old(self).scout
                } else {
                    *old(current_best)
                }
            },
    {
        if self.stagnation {
            if Hive::STAGNATION_LIMIT > 0 && self.stagnation_counter < Hive::STAGNATION_LIMIT - 1 {
                self.stagnation_counter = self.stagnation_counter + 1;
            } else {
                if Hive::better(&self.scout.fitness, &current_best.fitness) {
                    *current_best = self.scout;
                }
                *self = Self::new(rng);
            }
        }
    }
}

/// The radius of a patch that a colony keeps never falls below the smallest
/// radius of the colony, and never exceeds the radius of a new patch.
pub proof fn law_radius_stays_above_the_floor<const NS: usize, H: Colony<NS>>(
    patch: FlowerPatch<NS, H>,
)
    requires
        patch.wf(),
    ensures
        radius_floor::<NS, H>() <= patch.neighbourhood <= H::FLOWER_PATCH_SIZE,
{
    lemma_shrunk_times_falls(
        H::FLOWER_PATCH_SIZE as nat,
        patch.stagnation_counter as nat,
        H::STAGNATION_LIMIT as nat,
    );
    lemma_shrunk_times_falls(H::FLOWER_PATCH_SIZE as nat, 0, patch.stagnation_counter as nat);
}

/// The number of foragers that the patch at `place` of the sorted
/// population recruits: elite sites recruit the most, the other best sites
/// fewer, and the rest none.
pub open spec fn recruits<const NS: usize, H: Colony<NS>>(place: int) -> usize {
    if place < H::ELITE_SITES {
        H::ELITE_RECRUITS
    } else if place < H::BEST_SITES {
        H::BEST_RECRUITS
    } else {
        0
    }
}

/// Recruits foragers for the patches by their places, which are their ranks
/// once the patches are sorted: each elite site gets
/// [`Colony::ELITE_RECRUITS`] foragers, each other best site
/// [`Colony::BEST_RECRUITS`], and every other patch none.
pub fn waggle_dance<const NS: usize, H: Colony<NS>>(
    flower_patches: &mut Vec<FlowerPatch<NS, H>>,
)
    requires
        well_ordered::<NS, H>(),
        old(flower_patches).len() == NS,
    ensures
        final(flower_patches).len() == NS,
        forall|k: int|
            0 <= k < NS ==> #[trigger] final(flower_patches)[k] == (FlowerPatch {
                foragers: recruits::<NS, H>(k),
                ..old(flower_patches)[k]
            }),
{
    let mut index: usize = 0;
    while index < H::ELITE_SITES
        invariant
            well_ordered::<NS, H>(),
            index <= H::ELITE_SITES,
            flower_patches.len() == NS,
            forall|k: int|
                0 <= k < index ==> #[trigger] flower_patches[k] == (FlowerPatch {
                    foragers: recruits::<NS, H>(k),
                    ..old(flower_patches)[k]
                }),
            forall|k: int|
                index <= k < NS ==> #[trigger] flower_patches[k] == old(flower_patches)[k],
        decreases H::ELITE_SITES - index,
    {
        flower_patches[index].foragers = H::ELITE_RECRUITS;
        index += 1;
    }
    while index < H::BEST_SITES
        invariant
            well_ordered::<NS, H>(),
            H::ELITE_SITES <= index <= H::BEST_SITES,
            flower_patches.len() == NS,
            forall|k: int|
                0 <= k < index ==> #[trigger] flower_patches[k] == (FlowerPatch {
                    foragers: recruits::<NS, H>(k),
                    ..old(flower_patches)[k]
                }),
            forall|k: int|
                index <= k < NS ==> #[trigger] flower_patches[k] == old(flower_patches)[k],
        decreases H::BEST_SITES - index,
    {
        flower_patches[index].foragers = H::BEST_RECRUITS;
        index += 1;
    }
    while index < NS
        invariant
            well_ordered::<NS, H>(),
            H::BEST_SITES <= index <= NS,
            flower_patches.len() == NS,
            forall|k: int|
                0 <= k < index ==> #[trigger] flower_patches[k] == (FlowerPatch {
                    foragers: recruits::<NS, H>(k),
                    ..old(flower_patches)[k]
                }),
            forall|k: int|
                index <= k < NS ==> #[trigger] flower_patches[k] == old(flower_patches)[k],
        decreases NS - index,
    {
        flower_patches[index].foragers = 0;
        index += 1;
    }
}

/// Sorts the patches, best first, and records the scout of the first as the
/// best found so far if it is strictly better. Says whether it was.
pub fn survey<const NS: usize, H: Colony<NS>>(
    flower_patches: &mut Vec<FlowerPatch<NS, H>>,
    current_best: &mut Scout<NS, H>,
) -> (improved: bool)
    requires
        old(flower_patches).len() > 0,
    ensures
        sorts_to(old(flower_patches)@, final(flower_patches)@),
        improved == (final(flower_patches)[0].scout.rank() < old(current_best).rank()),
        *final(current_best) == if improved {
            final(flower_patches)[0].scout
        } else {
            *old(current_best)
        },
{
    sort_by_fitness(flower_patches);
    proof {
        lemma_sorted(old(flower_patches)@, flower_patches@);
    }
    if H::better(&flower_patches[0].scout.fitness, &current_best.fitness) {
        *current_best = flower_patches[0].scout;
        true
    } else {
        false
    }
}

/// What one cycle makes of the sorted patches, after the best found so far
/// has been recorded: the best sites recruit foragers, search their
/// neighbourhoods, shrink where they found nothing better and are abandoned
/// where they have stagnated for too long; and every other patch starts
/// anew around a flower found at random.
pub fn forage<const NS: usize, H: Colony<NS>>(
    flower_patches: &mut Vec<FlowerPatch<NS, H>>,
    current_best: &mut Scout<NS, H>,
    rng: &mut H::Source,
)
    requires
        well_ordered::<NS, H>(),
        old(flower_patches).len() == NS,
        forall|k: int| 0 <= k < NS ==> (#[trigger] old(flower_patches)[k]).wf(),
    ensures
        final(flower_patches).len() == NS,
        forall|k: int| 0 <= k < NS ==> (#[trigger] final(flower_patches)[k]).wf(),
        forall|k: int|
            0 <= k < H::BEST_SITES ==> (FlowerPatch {
                foragers: recruits::<NS, H>(k),
                ..old(flower_patches)[k]
            }).tends_to(#[trigger] final(flower_patches)[k]),
        forall|k: int| H::BEST_SITES <= k < NS ==> (#[trigger] final(flower_patches)[k]).fresh(),
        *final(current_best) == *old(current_best) || (final(current_best).rank() < old(
            current_best,
        ).rank() && exists|k: int|
            0 <= k < H::BEST_SITES && *final(current_best) == (#[trigger] old(
                flower_patches,
            )[k]).scout),
{
    waggle_dance(flower_patches);
    let ghost recruited = flower_patches@;

    let mut i: usize = 0;
    while i < H::BEST_SITES
        invariant
            well_ordered::<NS, H>(),
            i <= H::BEST_SITES,
            flower_patches.len() == NS,
            recruited.len() == NS,
            old(flower_patches).len() == NS,
            forall|k: int| 0 <= k < NS ==> recruited[k].scout == (#[trigger] old(
                flower_patches,
            )[k]).scout,
            forall|k: int| 0 <= k < NS ==> (#[trigger] flower_patches[k]).wf(),
            forall|k: int| 0 <= k < i ==> recruited[k].tends_to(#[trigger] flower_patches[k]),
            forall|k: int| i <= k < NS ==> #[trigger] flower_patches[k] == recruited[k],
            *current_best == *old(current_best) || (current_best.rank() < old(
                current_best,
            ).rank() && exists|k: int|
                0 <= k < H::BEST_SITES && *current_best == (#[trigger] old(
                    flower_patches,
                )[k]).scout),
        decreases H::BEST_SITES - i,
    {
        flower_patches[i].local_search(current_best, rng);
        let ghost searched = flower_patches[i as int];
        flower_patches[i].shrinking();
        flower_patches[i].abandonment(current_best, rng);
        proof {
            lemma_shrunk(searched.neighbourhood as nat);
            assert(old(flower_patches)[i as int].scout == recruited[i as int].scout);
        }
        i += 1;
    }
    while i < NS
        invariant
            well_ordered::<NS, H>(),
            H::BEST_SITES <= i <= NS,
            flower_patches.len() == NS,
            recruited.len() == NS,
            forall|k: int| 0 <= k < NS ==> (#[trigger] flower_patches[k]).wf(),
            forall|k: int|
                0 <= k < H::BEST_SITES ==> recruited[k].tends_to(#[trigger] flower_patches[k]),
            forall|k: int| H::BEST_SITES <= k < i ==> (#[trigger] flower_patches[k]).fresh(),
        decreases NS - i,
    {
        flower_patches[i] = FlowerPatch::new(rng);
        i += 1;
    }
    proof {
        assert forall|k: int| 0 <= k < H::BEST_SITES implies (FlowerPatch {
            foragers: recruits::<NS, H>(k),
            ..old(flower_patches)[k]
        }).tends_to(#[trigger] flower_patches[k]) by {
            assert(recruited[k] == (FlowerPatch {
                foragers: recruits::<NS, H>(k),
                ..old(flower_patches)[k]
            }));
        }
    }
}

/// One cycle of the search: the patches are sorted and the best found so
/// far is recorded, and then the patches forage. Says whether a new best
/// was recorded.
pub fn cycle<const NS: usize, H: Colony<NS>>(
    flower_patches: &mut Vec<FlowerPatch<NS, H>>,
    current_best: &mut Scout<NS, H>,
    rng: &mut H::Source,
) -> (improved: bool)
    requires
        well_ordered::<NS, H>(),
        old(flower_patches).len() == NS,
        forall|k: int| 0 <= k < NS ==> (#[trigger] old(flower_patches)[k]).wf(),
    ensures
        final(flower_patches).len() == NS,
        forall|k: int| 0 <= k < NS ==> (#[trigger] final(flower_patches)[k]).wf(),
        exists|sorted: Seq<FlowerPatch<NS, H>>|
            {
                &&& #[trigger] sorts_to(old(flower_patches)@, sorted)
                &&& forall|k: int|
                    0 <= k < H::BEST_SITES ==> (FlowerPatch {
                        foragers: recruits::<NS, H>(k),
                        ..sorted[k]
                    }).tends_to(#[trigger] final(flower_patches)[k])
                &&& improved == (sorted[0].scout.rank() < old(current_best).rank())
                &&& *final(current_best) == if improved {
                    sorted[0].scout
                } else {
                    *old(current_best)
                }
            },
        forall|k: int| H::BEST_SITES <= k < NS ==> (#[trigger] final(flower_patches)[k]).fresh(),
        final(current_best).rank() <= old(current_best).rank(),
        forall|k: int|
            0 <= k < NS ==> final(current_best).rank() <= (#[trigger] old(
                flower_patches,
            )[k]).scout.rank(),
        old(current_best).evaluated() ==> final(current_best).evaluated(),
{
    let improved = survey(flower_patches, current_best);
    let ghost sorted = flower_patches@;
    let ghost surveyed = *current_best;
    proof {
        lemma_sorted(old(flower_patches)@, sorted);
        lemma_sorted_keeps(old(flower_patches)@, sorted);
    }
    forage(flower_patches, current_best, rng);
    proof {
        assert(sorts_to(old(flower_patches)@, sorted));
        if *current_best != surveyed {
            let k = choose|k: int|
                0 <= k < H::BEST_SITES && *current_best == (#[trigger] sorted[k]).scout;
            let found = choose|i: int|
                0 <= i < old(flower_patches)@.len() && old(flower_patches)@[i] == sorted[k];
            assert(sorted[0].scout.rank() <= old(flower_patches)[found].scout.rank());
        }
    }
    improved
}

/// The smallest radius that the neighbourhood of a flower patch of the
/// colony can have, computed by shrinking the radius of a new patch as often
/// as a patch may stagnate.
pub fn minimum_radius<const NS: usize, H: Colony<NS>>() -> (floor: usize)
    ensures
        floor == radius_floor::<NS, H>(),
{
    let mut size: usize = H::FLOWER_PATCH_SIZE;
    let mut i: usize = 0;
    while i < H::STAGNATION_LIMIT
        invariant
            i <= H::STAGNATION_LIMIT,
            size == shrunk_times(H::FLOWER_PATCH_SIZE as nat, i as nat),
        decreases H::STAGNATION_LIMIT - i,
    {
        size = size - (size / 10) * 2;
        i += 1;
    }
    size
}

/// Searches from the given patches until the colony says to stop: the
/// patches are sorted, the scout of the first is taken for the best found
/// so far, and the search goes through its cycles. After the last of them
/// the patches are sorted once more and a better first scout is recorded.
/// Each scout that is recorded as the new best is handed to `report`.
/// Returns the scout with the best flower found: no patch held a better
/// flower when the search began, and none holds one when it ends.
pub fn search<const NS: usize, H: Colony<NS>, F: Fn(Scout<NS, H>)>(
    hive: &mut H,
    flower_patches: &mut Vec<FlowerPatch<NS, H>>,
    rng: &mut H::Source,
    report: F,
) -> (best: Scout<NS, H>)
    requires
        well_ordered::<NS, H>(),
        old(flower_patches).len() == NS,
        forall|k: int| 0 <= k < NS ==> (#[trigger] old(flower_patches)[k]).wf(),
        forall|scout: Scout<NS, H>| call_requires(report, (scout,)),
    ensures
        best.evaluated(),
        final(flower_patches).len() == NS,
        forall|k: int| 0 <= k < NS ==> (#[trigger] final(flower_patches)[k]).wf(),
        forall|k: int|
            0 <= k < NS ==> best.rank() <= (#[trigger] old(flower_patches)[k]).scout.rank(),
        forall|k: int|
            0 <= k < NS ==> best.rank() <= (#[trigger] final(flower_patches)[k]).scout.rank(),
{
    sort_by_fitness(flower_patches);
    proof {
        lemma_sorted(old(flower_patches)@, flower_patches@);
        lemma_sorted_keeps(old(flower_patches)@, flower_patches@);
    }
    let mut current_best: Scout<NS, H> = flower_patches[0].scout;

    loop
        invariant
            well_ordered::<NS, H>(),
            forall|scout: Scout<NS, H>| call_requires(report, (scout,)),
            flower_patches.len() == NS,
            old(flower_patches).len() == NS,
            forall|k: int| 0 <= k < NS ==> (#[trigger] flower_patches[k]).wf(),
            forall|k: int|
                0 <= k < NS ==> current_best.rank() <= (#[trigger] old(
                    flower_patches,
                )[k]).scout.rank(),
            current_best.evaluated(),
        decreases hive.patience(),
    {
        if hive.stopping_condition() {
            break ;
        }
        if cycle(flower_patches, &mut current_best, rng) {
            report(current_best);
        }
    }
    let ghost searched = flower_patches@;
    if survey(flower_patches, &mut current_best) {
        report(current_best);
    }
    proof {
        lemma_sorted(searched, flower_patches@);
        lemma_sorted_keeps(searched, flower_patches@);
        assert forall|k: int| 0 <= k < NS implies current_best.rank() <= (
        #[trigger] flower_patches[k]).scout.rank() by {
            let found = choose|i: int| 0 <= i < searched.len() && searched[i] == flower_patches@[k];
            assert(flower_patches[0].scout.rank() <= searched[found].scout.rank());
        }
    }
    current_best
}

/// The bees algorithm in full. As many patches as the colony has scouts
/// start around flowers found at random, and the search goes from them
/// through its cycles until the colony says to stop. Each scout that is
/// recorded as the new best is handed to `report`. Returns the scout with
/// the best flower found.
pub fn bees<const NS: usize, H: Colony<NS>, F: Fn(Scout<NS, H>)>(
    hive: &mut H,
    rng: &mut H::Source,
    report: F,
) -> (best: Scout<NS, H>)
    requires
        well_ordered::<NS, H>(),
        forall|scout: Scout<NS, H>| call_requires(report, (scout,)),
    ensures
        best.evaluated(),
{
    let mut flower_patches: Vec<FlowerPatch<NS, H>> = Vec::new();
    while flower_patches.len() < NS
        invariant
            flower_patches.len() <= NS,
            forall|k: int| 0 <= k < flower_patches.len() ==> (#[trigger] flower_patches[k]).wf(),
        decreases NS - flower_patches.len(),
    {
        flower_patches.push(FlowerPatch::new(rng));
    }
    search(hive, &mut flower_patches, rng, report)
}

} // verus!
