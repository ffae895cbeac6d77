use dandelifeon::bees::sorting::sort_by_fitness;
use dandelifeon::bees::{
    bees, cycle, forage, minimum_radius, search, survey, waggle_dance, Colony, FlowerPatch,
    Scout,
};
use std::cell::RefCell;
use std::collections::VecDeque;

/// A toy problem with a script: a flower is a number, and the nearer to
/// zero the better. Scouting reads the next number of the script, and
/// exploring moves by the next number, as far as the radius allows.
#[derive(Debug, Clone, Copy, PartialEq, Eq, Hash)]
struct Slope {
    cycles_left: usize,
}

impl Colony<6> for Slope {
    type Flower = i64;
    type Nectar = u64;
    type Source = VecDeque<i64>;

    const ELITE_SITES: usize = 1;
    const BEST_SITES: usize = 3;
    const ELITE_RECRUITS: usize = 4;
    const BEST_RECRUITS: usize = 2;
    const FLOWER_PATCH_SIZE: usize = 100;
    const STAGNATION_LIMIT: usize = 3;

    fn better(a: &u64, b: &u64) -> bool {
        a < b
    }

    fn evaluate(solution: &i64) -> u64 {
        solution.unsigned_abs()
    }

    fn scout(rng: &mut VecDeque<i64>) -> i64 {
        rng.pop_front().unwrap()
    }

    fn explore(
        origin: &i64,
        _current_best: &Scout<6, Slope>,
        radius: usize,
        rng: &mut VecDeque<i64>,
    ) -> i64 {
        let reach = radius as i64;
        origin + rng.pop_front().unwrap().clamp(-reach, reach)
    }

    fn stopping_condition(&mut self) -> bool {
        if self.cycles_left == 0 {
            true
        } else {
            self.cycles_left -= 1;
            false
        }
    }
}

/// A toy problem like the slope, but with two scouts and no patience with
/// a patch: a patch is abandoned in its first cycle without improvement.
#[derive(Debug, Clone, Copy, PartialEq, Eq, Hash)]
struct Hasty {
    cycles_left: usize,
}

impl Colony<2> for Hasty {
    type Flower = i64;
    type Nectar = u64;
    type Source = VecDeque<i64>;

    const ELITE_SITES: usize = 0;
    const BEST_SITES: usize = 1;
    const ELITE_RECRUITS: usize = 1;
    const BEST_RECRUITS: usize = 1;
    const FLOWER_PATCH_SIZE: usize = 30;
    const STAGNATION_LIMIT: usize = 1;

    fn better(a: &u64, b: &u64) -> bool {
        a < b
    }

    fn evaluate(solution: &i64) -> u64 {
        solution.unsigned_abs()
    }

    fn scout(rng: &mut VecDeque<i64>) -> i64 {
        rng.pop_front().unwrap()
    }

    fn explore(
        origin: &i64,
        _current_best: &Scout<2, Hasty>,
        radius: usize,
        rng: &mut VecDeque<i64>,
    ) -> i64 {
        assert_eq!(radius, 30);
        origin + rng.pop_front().unwrap().clamp(-30, 30)
    }

    fn stopping_condition(&mut self) -> bool {
        if self.cycles_left == 0 {
            true
        } else {
            self.cycles_left -= 1;
            false
        }
    }
}

/// A source of numbers that remembers the best flower that it has handed
/// out.
#[derive(Debug)]
struct Dice {
    state: u32,
    best_seen: u32,
    handed_out: usize,
}

impl Dice {
    fn seeded(seed: u32) -> Dice {
        Dice { state: seed, best_seen: u32::MAX, handed_out: 0 }
    }

    fn roll(&mut self) -> u32 {
        self.state = self.state.wrapping_mul(1_664_525).wrapping_add(1_013_904_223);
        self.state >> 16
    }

    fn hand_out(&mut self, flower: u32) -> u32 {
        self.best_seen = self.best_seen.min(flower.abs_diff(500));
        self.handed_out += 1;
        flower
    }
}

/// A toy problem with dice: a flower is a number below 1000, and the nearer
/// to 500 the better.
#[derive(Debug, Clone, Copy, PartialEq, Eq, Hash)]
struct Meadow {
    cycles_left: usize,
}

impl Colony<8> for Meadow {
    type Flower = u32;
    type Nectar = u32;
    type Source = Dice;

    const ELITE_SITES: usize = 2;
    const BEST_SITES: usize = 5;
    const ELITE_RECRUITS: usize = 3;
    const BEST_RECRUITS: usize = 1;
    const FLOWER_PATCH_SIZE: usize = 60;
    const STAGNATION_LIMIT: usize = 4;

    fn better(a: &u32, b: &u32) -> bool {
        a < b
    }

    fn evaluate(solution: &u32) -> u32 {
        solution.abs_diff(500)
    }

    fn scout(rng: &mut Dice) -> u32 {
        let flower = rng.roll() % 1000;
        rng.hand_out(flower)
    }

    fn explore(
        origin: &u32,
        _current_best: &Scout<8, Meadow>,
        radius: usize,
        rng: &mut Dice,
    ) -> u32 {
        assert!(radius >= 26 && radius <= 60);
        let step = rng.roll() % (radius as u32 + 1);
        let flower = if rng.roll() % 2 == 0 {
            origin.saturating_sub(step)
        } else {
            (origin + step).min(999)
        };
        rng.hand_out(flower)
    }

    fn stopping_condition(&mut self) -> bool {
        if self.cycles_left == 0 {
            true
        } else {
            self.cycles_left -= 1;
            false
        }
    }
}

fn script(numbers: &[i64]) -> VecDeque<i64> {
    numbers.iter().copied().collect()
}

fn slope_patches(flowers: &[i64]) -> Vec<FlowerPatch<6, Slope>> {
    flowers.iter().map(|&flower| FlowerPatch::with_solution(flower)).collect()
}

fn flowers(patches: &[FlowerPatch<6, Slope>]) -> Vec<i64> {
    patches.iter().map(|patch| patch.scout.solution()).collect()
}

fn shrunk(radius: usize) -> usize {
    radius - 2 * (radius / 10)
}

#[test]
fn scout_evaluates_its_flower_when_it_is_made() {
    let scout: Scout<6, Slope> = Scout::with_solution(-17);
    assert_eq!(scout.solution(), -17);
    assert_eq!(scout.fitness(), 17);
    let copy = scout;
    assert_eq!(copy, scout);
    assert_ne!(scout, Scout::with_solution(17));
}

#[test]
fn new_patch_has_the_full_radius_and_no_foragers() {
    let patch: FlowerPatch<6, Slope> = FlowerPatch::with_solution(30);
    assert_eq!(patch.scout, Scout::with_solution(30));
    assert_eq!(patch.foragers, 0);
    assert_eq!(patch.neighbourhood, 100);
    assert!(patch.stagnation);
    assert_eq!(patch.stagnation_counter, 0);
    let mut rng = script(&[-8, 4]);
    let scouted: FlowerPatch<6, Slope> = FlowerPatch::new(&mut rng);
    assert_eq!(scouted.scout, Scout::with_solution(-8));
    assert_eq!(scouted.neighbourhood, 100);
    assert_eq!(rng, script(&[4]));
}

#[test]
fn promote_takes_the_scout_and_ends_the_stagnation() {
    let mut patch: FlowerPatch<6, Slope> = FlowerPatch::with_solution(30);
    patch.foragers = 3;
    patch.neighbourhood = 64;
    patch.stagnation_counter = 2;
    patch.promote(Scout::with_solution(90));
    assert_eq!(patch.scout.solution(), 90);
    assert!(!patch.stagnation);
    assert_eq!((patch.foragers, patch.neighbourhood, patch.stagnation_counter), (3, 64, 2));
}

#[test]
fn consider_takes_only_a_strictly_better_flower() {
    let mut patch: FlowerPatch<6, Slope> = FlowerPatch::with_solution(30);
    patch.consider(Scout::with_solution(31));
    assert_eq!(patch.scout.solution(), 30);
    assert!(patch.stagnation);
    patch.consider(Scout::with_solution(-30));
    assert_eq!(patch.scout.solution(), 30);
    assert!(patch.stagnation);
    patch.consider(Scout::with_solution(-29));
    assert_eq!(patch.scout.solution(), -29);
    assert!(!patch.stagnation);
}

#[test]
fn shrinking_takes_a_fifth_in_whole_tenths() {
    let mut patch: FlowerPatch<6, Slope> = FlowerPatch::with_solution(30);
    let expected = [80, 64, 52, 42, 34, 28, 24, 20, 16, 14, 12, 10, 8, 8, 8];
    for radius in expected {
        patch.shrinking();
        assert_eq!(patch.neighbourhood, radius);
    }
    patch.neighbourhood = 624;
    let expected = [500, 400, 320, 256, 206, 166, 134, 108, 88, 72];
    for radius in expected {
        patch.shrinking();
        assert_eq!(patch.neighbourhood, radius);
    }
    assert_eq!(patch.scout.solution(), 30);
    assert_eq!((patch.foragers, patch.stagnation, patch.stagnation_counter), (0, true, 0));
}

#[test]
fn shrinking_leaves_a_small_radius_as_it_is() {
    for radius in 0..10 {
        let mut patch: FlowerPatch<6, Slope> = FlowerPatch::with_solution(30);
        patch.neighbourhood = radius;
        patch.shrinking();
        assert_eq!(patch.neighbourhood, radius);
    }
}

#[test]
fn shrinking_handles_the_largest_radius() {
    let mut patch: FlowerPatch<6, Slope> = FlowerPatch::with_solution(30);
    patch.neighbourhood = usize::MAX;
    patch.shrinking();
    assert_eq!(patch.neighbourhood, usize::MAX - 2 * (usize::MAX / 10));
}

#[test]
fn shrinking_leaves_a_patch_that_has_improved() {
    let mut patch: FlowerPatch<6, Slope> = FlowerPatch::with_solution(30);
    patch.stagnation = false;
    patch.shrinking();
    assert_eq!(patch.neighbourhood, 100);
}

#[test]
fn radius_settles_on_eight_or_nine() {
    for initial in 10..400 {
        let mut patch: FlowerPatch<6, Slope> = FlowerPatch::with_solution(30);
        patch.neighbourhood = initial;
        let mut last = initial;
        for _ in 0..(initial / 2) {
            patch.shrinking();
            assert!(patch.neighbourhood <= last);
            assert!(patch.neighbourhood >= 8);
            last = patch.neighbourhood;
        }
        assert!(last == 8 || last == 9);
        patch.shrinking();
        assert_eq!(patch.neighbourhood, last);
    }
}

#[test]
fn minimum_radius_is_the_radius_shrunk_to_the_limit() {
    assert_eq!(minimum_radius::<6, Slope>(), 52);
    assert_eq!(minimum_radius::<8, Meadow>(), 26);
    let mut patch: FlowerPatch<6, Slope> = FlowerPatch::with_solution(30);
    for _ in 0..Slope::STAGNATION_LIMIT {
        patch.shrinking();
    }
    assert_eq!(patch.neighbourhood, minimum_radius::<6, Slope>());
    let mut radius = Meadow::FLOWER_PATCH_SIZE;
    for _ in 0..Meadow::STAGNATION_LIMIT {
        radius = shrunk(radius);
    }
    assert_eq!(radius, minimum_radius::<8, Meadow>());
}

#[test]
fn local_search_takes_each_better_flower_in_turn() {
    let mut patch: FlowerPatch<6, Slope> = FlowerPatch::with_solution(50);
    patch.foragers = 3;
    patch.stagnation = false;
    let best = Scout::with_solution(50);
    let mut rng = script(&[-5, 20, -1, 99]);
    patch.local_search(&best, &mut rng);
    assert_eq!(patch.scout, Scout::with_solution(44));
    assert!(!patch.stagnation);
    assert_eq!((patch.foragers, patch.neighbourhood, patch.stagnation_counter), (3, 100, 0));
    assert_eq!(rng, script(&[99]));
}

#[test]
fn local_search_that_finds_nothing_better_stagnates() {
    let mut patch: FlowerPatch<6, Slope> = FlowerPatch::with_solution(50);
    patch.foragers = 2;
    patch.stagnation = false;
    let best = Scout::with_solution(50);
    let mut rng = script(&[1, 0]);
    patch.local_search(&best, &mut rng);
    assert_eq!(patch.scout, Scout::with_solution(50));
    assert!(patch.stagnation);
    assert!(rng.is_empty());
}

#[test]
fn local_search_without_foragers_stagnates() {
    for flag in [false, true] {
        let mut patch: FlowerPatch<6, Slope> = FlowerPatch::with_solution(50);
        patch.stagnation = flag;
        patch.neighbourhood = 80;
        patch.stagnation_counter = 1;
        let best = Scout::with_solution(50);
        let mut rng = script(&[-40]);
        patch.local_search(&best, &mut rng);
        assert_eq!(patch.scout, Scout::with_solution(50));
        assert!(patch.stagnation);
        assert_eq!((patch.foragers, patch.neighbourhood, patch.stagnation_counter), (0, 80, 1));
        assert_eq!(rng, script(&[-40]));
    }
}

#[test]
fn local_search_explores_within_the_radius() {
    let mut patch: FlowerPatch<6, Slope> = FlowerPatch::with_solution(500);
    patch.foragers = 2;
    patch.neighbourhood = 64;
    patch.stagnation_counter = 2;
    let best = Scout::with_solution(50);
    let mut rng = script(&[-1000, -1000]);
    patch.local_search(&best, &mut rng);
    assert_eq!(patch.scout.solution(), 372);
}

#[test]
fn abandonment_leaves_a_patch_that_has_improved() {
    let mut patch: FlowerPatch<6, Slope> = FlowerPatch::with_solution(50);
    patch.stagnation = false;
    patch.stagnation_counter = 2;
    let mut best = Scout::with_solution(60);
    let mut rng = script(&[1]);
    patch.abandonment(&mut best, &mut rng);
    assert_eq!(patch.scout.solution(), 50);
    assert_eq!(patch.stagnation_counter, 2);
    assert_eq!(best.solution(), 60);
    assert_eq!(rng.len(), 1);
}

#[test]
fn abandonment_counts_the_cycles_below_the_limit() {
    let mut patch: FlowerPatch<6, Slope> = FlowerPatch::with_solution(50);
    patch.foragers = 2;
    patch.neighbourhood = 80;
    let mut best = Scout::with_solution(60);
    let mut rng = script(&[1]);
    for counter in 1..=2 {
        patch.abandonment(&mut best, &mut rng);
        assert_eq!(patch.stagnation_counter, counter);
        assert_eq!(patch.scout.solution(), 50);
        assert_eq!((patch.foragers, patch.neighbourhood, patch.stagnation), (2, 80, true));
        assert_eq!(best.solution(), 60);
        assert_eq!(rng.len(), 1);
    }
}

#[test]
fn abandonment_replaces_the_patch_in_the_cycle_that_reaches_the_limit() {
    let mut patch: FlowerPatch<6, Slope> = FlowerPatch::with_solution(50);
    let mut best = Scout::with_solution(60);
    let mut rng = script(&[7, 8]);
    patch.abandonment(&mut best, &mut rng);
    patch.abandonment(&mut best, &mut rng);
    assert_eq!((patch.scout.solution(), patch.stagnation_counter), (50, 2));
    assert_eq!(best.solution(), 60);
    patch.abandonment(&mut best, &mut rng);
    assert_eq!(patch.scout, Scout::with_solution(7));
    assert_eq!(patch.stagnation_counter, 0);
    assert_eq!(best, Scout::with_solution(50));
    assert_eq!(rng, script(&[8]));
}

#[test]
fn abandonment_with_a_limit_of_one_replaces_on_the_first_stagnation() {
    let mut patch: FlowerPatch<2, Hasty> = FlowerPatch::with_solution(50);
    let mut best = Scout::with_solution(60);
    let mut rng = script(&[7, 8]);
    patch.abandonment(&mut best, &mut rng);
    assert_eq!(patch.scout, Scout::with_solution(7));
    assert_eq!((patch.neighbourhood, patch.stagnation_counter), (30, 0));
    assert_eq!(best, Scout::with_solution(50));
    patch.stagnation = false;
    patch.abandonment(&mut best, &mut rng);
    assert_eq!(patch.scout, Scout::with_solution(7));
    assert_eq!(rng, script(&[8]));
}

#[test]
fn abandonment_at_the_limit_keeps_a_better_flower_and_starts_anew() {
    let mut patch: FlowerPatch<6, Slope> = FlowerPatch::with_solution(50);
    patch.foragers = 2;
    patch.neighbourhood = 52;
    patch.stagnation_counter = 2;
    let mut best = Scout::with_solution(60);
    let mut rng = script(&[-77, 5]);
    patch.abandonment(&mut best, &mut rng);
    assert_eq!(best, Scout::with_solution(50));
    assert_eq!(patch.scout, Scout::with_solution(-77));
    assert_eq!(patch.foragers, 0);
    assert_eq!(patch.neighbourhood, 100);
    assert!(patch.stagnation);
    assert_eq!(patch.stagnation_counter, 0);
    assert_eq!(rng, script(&[5]));
}

#[test]
fn abandonment_at_the_limit_keeps_the_best_on_a_tie() {
    let mut patch: FlowerPatch<6, Slope> = FlowerPatch::with_solution(50);
    patch.stagnation_counter = 2;
    let mut best = Scout::with_solution(-50);
    let mut rng = script(&[9]);
    patch.abandonment(&mut best, &mut rng);
    assert_eq!(best.solution(), -50);
    assert_eq!(patch.scout.solution(), 9);
    let mut worse: FlowerPatch<6, Slope> = FlowerPatch::with_solution(70);
    worse.stagnation_counter = 2;
    let mut rng = script(&[9]);
    worse.abandonment(&mut best, &mut rng);
    assert_eq!(best.solution(), -50);
}

#[test]
fn sort_puts_the_best_first_and_keeps_ties_in_order() {
    let mut patches = slope_patches(&[30, -5, 5, -30, 12, 0, 5]);
    sort_by_fitness(&mut patches);
    assert_eq!(flowers(&patches), [0, -5, 5, 5, 12, 30, -30]);
    let mut sorted = slope_patches(&[1, -1, 2, -2]);
    sort_by_fitness(&mut sorted);
    assert_eq!(flowers(&sorted), [1, -1, 2, -2]);
    let mut reversed = slope_patches(&[4, 3, 2, 1]);
    sort_by_fitness(&mut reversed);
    assert_eq!(flowers(&reversed), [1, 2, 3, 4]);
    let mut none = slope_patches(&[]);
    sort_by_fitness(&mut none);
    assert!(none.is_empty());
    let mut one = slope_patches(&[9]);
    sort_by_fitness(&mut one);
    assert_eq!(flowers(&one), [9]);
}

#[test]
fn sort_moves_the_whole_patch() {
    let mut patches = slope_patches(&[30, 20, 10]);
    patches[0].neighbourhood = 64;
    patches[0].stagnation_counter = 2;
    patches[2].foragers = 4;
    patches[2].stagnation = false;
    sort_by_fitness(&mut patches);
    assert_eq!(flowers(&patches), [10, 20, 30]);
    assert_eq!((patches[0].foragers, patches[0].stagnation), (4, false));
    assert_eq!((patches[2].neighbourhood, patches[2].stagnation_counter), (64, 2));
    assert_eq!((patches[1].foragers, patches[1].neighbourhood), (0, 100));
}

#[test]
fn sort_agrees_with_the_stable_sort_of_the_standard_library() {
    let mut rng = Dice::seeded(5);
    for length in 0..40 {
        let numbers: Vec<i64> = (0..length).map(|_| (rng.roll() % 21) as i64 - 10).collect();
        let mut patches = slope_patches(&numbers);
        sort_by_fitness(&mut patches);
        let mut expected = numbers.clone();
        expected.sort_by_key(|flower| flower.unsigned_abs());
        assert_eq!(flowers(&patches), expected);
    }
}

#[test]
fn waggle_dance_recruits_by_rank() {
    let mut patches = slope_patches(&[1, 2, 3, 4, 5, 6]);
    for patch in patches.iter_mut() {
        patch.foragers = 9;
    }
    patches[4].neighbourhood = 80;
    waggle_dance(&mut patches);
    let recruited: Vec<usize> = patches.iter().map(|patch| patch.foragers).collect();
    assert_eq!(recruited, [4, 2, 2, 0, 0, 0]);
    assert_eq!(flowers(&patches), [1, 2, 3, 4, 5, 6]);
    assert_eq!(patches[4].neighbourhood, 80);
}

#[test]
fn survey_sorts_and_records_a_strictly_better_flower() {
    let mut patches = slope_patches(&[30, -5, 5, -30, 12, 40]);
    let mut best = Scout::with_solution(10);
    assert!(survey(&mut patches, &mut best));
    assert_eq!(best, Scout::with_solution(-5));
    assert_eq!(flowers(&patches), [-5, 5, 12, 30, -30, 40]);
    assert!(!survey(&mut patches, &mut best));
    assert_eq!(best, Scout::with_solution(-5));
    let mut tied = Scout::with_solution(5);
    assert!(!survey(&mut patches, &mut tied));
    assert_eq!(tied, Scout::with_solution(5));
    let mut ahead = Scout::with_solution(1);
    assert!(!survey(&mut patches, &mut ahead));
    assert_eq!(ahead.solution(), 1);
}

#[test]
fn cycle_searches_the_best_sites_and_replaces_the_rest() {
    let mut patches = slope_patches(&[60, 30, 50, 10, 40, 20]);
    let mut best = Scout::with_solution(70);
    let mut rng = script(&[-2, 3, -3, 0, 1, 1, -4, 6, 71, 72, 73]);
    assert!(cycle(&mut patches, &mut best, &mut rng));
    assert_eq!(best, Scout::with_solution(10));
    assert_eq!(flowers(&patches), [5, 20, 26, 71, 72, 73]);
    let state: Vec<(usize, usize, bool, usize)> = patches
        .iter()
        .map(|patch| {
            (patch.foragers, patch.neighbourhood, patch.stagnation, patch.stagnation_counter)
        })
        .collect();
    assert_eq!(
        state,
        [
            (4, 100, false, 0),
            (2, 80, true, 1),
            (2, 100, false, 0),
            (0, 100, true, 0),
            (0, 100, true, 0),
            (0, 100, true, 0),
        ]
    );
    assert!(rng.is_empty());
}

#[test]
fn cycle_abandons_a_patch_that_stagnates_to_the_limit() {
    let mut patches = slope_patches(&[10, 20, 30, 40, 50, 60]);
    patches[1].stagnation_counter = 2;
    patches[1].neighbourhood = 64;
    let mut best = Scout::with_solution(10);
    let mut rng = script(&[1, 1, 1, 1, 2, 2, 500, 3, 3, 64, 65, 66]);
    assert!(!cycle(&mut patches, &mut best, &mut rng));
    assert_eq!(best, Scout::with_solution(10));
    assert_eq!(flowers(&patches), [10, 500, 30, 64, 65, 66]);
    assert_eq!(patches[0].neighbourhood, 80);
    assert_eq!(patches[0].stagnation_counter, 1);
    assert_eq!(patches[1].neighbourhood, 100);
    assert_eq!(patches[1].stagnation_counter, 0);
    assert_eq!(patches[1].foragers, 0);
    assert_eq!(patches[2].neighbourhood, 80);
    assert!(rng.is_empty());
}

#[test]
fn best_never_gets_worse_from_cycle_to_cycle() {
    for seed in 0..20 {
        let mut rng = Dice::seeded(seed);
        let mut patches: Vec<FlowerPatch<8, Meadow>> = Vec::new();
        for _ in 0..8 {
            patches.push(FlowerPatch::new(&mut rng));
        }
        let mut best = patches[0].scout;
        let mut last = best.fitness();
        for _ in 0..60 {
            let least = patches.iter().map(|patch| patch.scout.fitness()).min().unwrap();
            let improved = cycle(&mut patches, &mut best, &mut rng);
            assert_eq!(improved, least < last);
            assert_eq!(best.fitness(), least.min(last));
            assert_eq!(best.fitness(), best.solution().abs_diff(500));
            assert_eq!(patches.len(), 8);
            for patch in &patches[5..] {
                assert_eq!((patch.foragers, patch.neighbourhood), (0, 60));
                assert_eq!((patch.stagnation, patch.stagnation_counter), (true, 0));
            }
            for patch in &patches {
                assert!(patch.stagnation_counter < 4);
                let mut radius = 60;
                for _ in 0..patch.stagnation_counter {
                    radius = shrunk(radius);
                }
                assert_eq!(patch.neighbourhood, radius);
            }
            last = best.fitness();
        }
    }
}

#[test]
fn bees_searches_until_the_colony_stops() {
    let mut meadow = Meadow { cycles_left: 25 };
    let mut rng = Dice::seeded(3);
    let best = bees(&mut meadow, &mut rng, |_| {});
    assert_eq!(meadow.cycles_left, 0);
    assert_eq!(best.fitness(), best.solution().abs_diff(500));
    assert!(rng.handed_out >= 8 + 25 * 3);
}

#[test]
fn bees_returns_the_best_flower_that_was_found() {
    for seed in 0..30 {
        for cycles in [0, 1, 2, 7, 40] {
            let mut meadow = Meadow { cycles_left: cycles };
            let mut rng = Dice::seeded(seed);
            let best = bees(&mut meadow, &mut rng, |_| {});
            assert_eq!(best.fitness(), rng.best_seen);
        }
    }
}

#[test]
fn bees_without_a_cycle_returns_the_best_of_the_scouts() {
    let mut slope = Slope { cycles_left: 0 };
    let mut rng = script(&[60, -30, 50, 30, 40, 70, 1]);
    let best = bees(&mut slope, &mut rng, |_| {});
    assert_eq!(best, Scout::with_solution(-30));
    assert_eq!(rng, script(&[1]));
}

#[test]
fn forage_tends_the_patches_as_they_stand() {
    let mut patches = slope_patches(&[60, 30, 50, 10, 40, 20]);
    let mut best = Scout::with_solution(70);
    let mut rng = script(&[-2, 3, -3, 0, 1, 1, -4, 6, 71, 72, 73]);
    forage(&mut patches, &mut best, &mut rng);
    assert_eq!(best, Scout::with_solution(70));
    assert_eq!(flowers(&patches), [55, 30, 46, 71, 72, 73]);
    let recruited: Vec<usize> = patches.iter().map(|patch| patch.foragers).collect();
    assert_eq!(recruited, [4, 2, 2, 0, 0, 0]);
    let radii: Vec<usize> = patches.iter().map(|patch| patch.neighbourhood).collect();
    assert_eq!(radii, [100, 80, 100, 100, 100, 100]);
    let counters: Vec<usize> = patches.iter().map(|patch| patch.stagnation_counter).collect();
    assert_eq!(counters, [0, 1, 0, 0, 0, 0]);
}

#[test]
fn forage_keeps_the_flower_of_an_abandoned_patch_if_it_is_the_best() {
    let mut patches = slope_patches(&[10, 20, 30, 40, 50, 60]);
    patches[0].stagnation_counter = 2;
    patches[0].neighbourhood = 64;
    let mut best = Scout::with_solution(15);
    let mut rng = script(&[1, 1, 1, 1, 99, 2, 2, 3, 3, 64, 65, 66]);
    forage(&mut patches, &mut best, &mut rng);
    assert_eq!(best, Scout::with_solution(10));
    assert_eq!(flowers(&patches), [99, 20, 30, 64, 65, 66]);
    assert_eq!(patches[0].neighbourhood, 100);
    assert_eq!(patches[0].stagnation_counter, 0);
}

#[test]
fn bees_reports_each_new_best() {
    for seed in 0..30 {
        let mut meadow = Meadow { cycles_left: 30 };
        let mut rng = Dice::seeded(seed);
        let reported: RefCell<Vec<Scout<8, Meadow>>> = RefCell::new(Vec::new());
        let best = bees(&mut meadow, &mut rng, |scout| reported.borrow_mut().push(scout));
        let reported = reported.into_inner();
        for pair in reported.windows(2) {
            assert!(pair[1].fitness() < pair[0].fitness());
        }
        if let Some(last) = reported.last() {
            assert_eq!(*last, best);
        }
        for scout in &reported {
            assert_eq!(scout.fitness(), scout.solution().abs_diff(500));
        }
    }
}

#[test]
fn bees_reports_nothing_when_the_first_scouts_stay_the_best() {
    let mut slope = Slope { cycles_left: 1 };
    let numbers = [0, 30, 50, 30, 40, 70, 1, 1, 1, 1, 2, 2, 3, 3, 64, 65, 66, 1];
    let mut rng = script(&numbers);
    let reported: RefCell<Vec<Scout<6, Slope>>> = RefCell::new(Vec::new());
    let best = bees(&mut slope, &mut rng, |scout| reported.borrow_mut().push(scout));
    assert_eq!(best, Scout::with_solution(0));
    assert!(reported.into_inner().is_empty());
    assert_eq!(rng, script(&[1]));
}

#[test]
fn bees_reports_a_flower_that_a_cycle_finds() {
    let mut slope = Slope { cycles_left: 2 };
    let numbers = [
        10, 30, 50, 30, 40, 70, // six scouts
        -1, -1, -1, -1, 2, 2, 3, 3, 64, 65, 66, // first cycle
        1, 1, 1, 1, 2, 2, 3, 3, 74, 75, 76, // second cycle
        1,
    ];
    let mut rng = script(&numbers);
    let reported: RefCell<Vec<i64>> = RefCell::new(Vec::new());
    let best = bees(&mut slope, &mut rng, |scout: Scout<6, Slope>| {
        reported.borrow_mut().push(scout.solution())
    });
    assert_eq!(best, Scout::with_solution(6));
    assert_eq!(reported.into_inner(), [6]);
    assert_eq!(rng, script(&[1]));
}

#[test]
fn hasty_colony_explores_at_the_full_radius_only() {
    assert_eq!(minimum_radius::<2, Hasty>(), 24);
    let mut hasty = Hasty { cycles_left: 3 };
    let numbers = [
        40, 50, // two scouts
        5, 61, 62, // first cycle: nothing better, abandoned, the other replaced
        -1, 63, // second cycle: a better flower, the other replaced
        9, 64, 65, // third cycle: nothing better, abandoned, the other replaced
        1,
    ];
    let mut rng = script(&numbers);
    let best = bees(&mut hasty, &mut rng, |_| {});
    assert_eq!(best, Scout::with_solution(40));
    assert_eq!(rng, script(&[1]));
}

#[test]
fn search_returns_a_scout_no_worse_than_any_patch_before_or_after() {
    for seed in 0..30 {
        for cycles in [0, 1, 5, 30] {
            let mut rng = Dice::seeded(seed);
            let mut patches: Vec<FlowerPatch<8, Meadow>> = Vec::new();
            for _ in 0..8 {
                patches.push(FlowerPatch::new(&mut rng));
            }
            let before: Vec<u32> = patches.iter().map(|patch| patch.scout.fitness()).collect();
            let mut meadow = Meadow { cycles_left: cycles };
            let best = search(&mut meadow, &mut patches, &mut rng, |_| {});
            assert_eq!(meadow.cycles_left, 0);
            assert_eq!(patches.len(), 8);
            assert_eq!(best.fitness(), best.solution().abs_diff(500));
            assert!(before.iter().all(|&fitness| best.fitness() <= fitness));
            assert!(patches.iter().all(|patch| best.fitness() <= patch.scout.fitness()));
            assert_eq!(best.fitness(), rng.best_seen);
            for pair in patches.windows(2) {
                assert!(pair[0].scout.fitness() <= pair[1].scout.fitness());
            }
        }
    }
}

#[test]
fn search_without_a_cycle_sorts_the_patches_and_returns_the_first() {
    let mut patches = slope_patches(&[60, -30, 50, 30, 40, 70]);
    patches[1].neighbourhood = 80;
    patches[1].stagnation_counter = 1;
    let mut slope = Slope { cycles_left: 0 };
    let mut rng = script(&[1]);
    let best = search(&mut slope, &mut patches, &mut rng, |_| {});
    assert_eq!(best, Scout::with_solution(-30));
    assert_eq!(flowers(&patches), [-30, 30, 40, 50, 60, 70]);
    assert_eq!((patches[0].neighbourhood, patches[0].stagnation_counter), (80, 1));
    assert_eq!(rng, script(&[1]));
}
