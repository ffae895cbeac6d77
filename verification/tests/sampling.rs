use dandelifeon::simulation::{Cell, PetriDish};
use rand::rngs::SmallRng;
use rand::{Rng, SeedableRng};

const HAZARD: [(u8, u8); 8] =
    [(11, 11), (12, 11), (13, 11), (11, 12), (13, 12), (11, 13), (12, 13), (13, 13)];

fn blocked_in_hazard(dish: &PetriDish) -> usize {
    HAZARD.iter().filter(|&&(x, y)| dish.read(x, y) == Cell::BLOCKED).count()
}

#[test]
fn hazard_cell_is_blocked_only_under_the_cap_and_on_heads() {
    assert_eq!(PetriDish::hazard_cell(0, true), Cell::BLOCKED);
    assert_eq!(PetriDish::hazard_cell(1, true), Cell::BLOCKED);
    assert_eq!(PetriDish::hazard_cell(2, true), Cell::DEAD);
    assert_eq!(PetriDish::hazard_cell(3, true), Cell::DEAD);
    assert_eq!(PetriDish::hazard_cell(255, true), Cell::DEAD);
    assert_eq!(PetriDish::hazard_cell(0, false), Cell::DEAD);
    assert_eq!(PetriDish::hazard_cell(1, false), Cell::DEAD);
    assert_eq!(PetriDish::hazard_cell(2, false), Cell::DEAD);
}

#[test]
fn sampled_board_keeps_the_dandelifeon_and_holds_no_other() {
    for seed in 0..40 {
        let mut rng = SmallRng::seed_from_u64(seed);
        let dish = PetriDish::sample(&mut rng);
        for x in 0..25_u8 {
            for y in 0..25_u8 {
                if (x, y) == (12, 12) {
                    assert_eq!(dish.read(x, y), Cell::DANDELIFEON);
                } else {
                    assert!(dish.read(x, y) <= Cell::BLOCKED);
                }
            }
        }
    }
}

#[test]
fn sampled_board_blocks_no_more_than_two_cells_next_to_the_dandelifeon() {
    let mut most = 0;
    let mut least = 8;
    for seed in 0..300 {
        let mut rng = SmallRng::seed_from_u64(seed);
        let dish = PetriDish::sample(&mut rng);
        let blocked = blocked_in_hazard(&dish);
        assert!(blocked <= 2);
        for (x, y) in HAZARD {
            assert!(dish.read(x, y) != Cell::LIVING);
        }
        most = most.max(blocked);
        least = least.min(blocked);
    }
    assert_eq!(most, 2);
    assert_eq!(least, 0);
}

#[test]
fn sampled_board_holds_all_three_states() {
    let mut rng = SmallRng::seed_from_u64(42);
    let dish = PetriDish::sample(&mut rng);
    let (living, blocked) = dish.count_living_and_blocked();
    assert!(living > 150 && living < 260);
    assert!(blocked > 150 && blocked < 260);
    assert!(living + blocked < 500);
}

#[test]
fn sampling_depends_on_the_seed_alone() {
    let mut first = SmallRng::seed_from_u64(7);
    let mut second = SmallRng::seed_from_u64(7);
    let mut other = SmallRng::seed_from_u64(8);
    let a = PetriDish::sample(&mut first);
    let b = PetriDish::sample(&mut second);
    let c = PetriDish::sample(&mut other);
    assert_eq!(a, b);
    assert_ne!(a, c);
    assert_ne!(PetriDish::sample(&mut first), a);
}

#[test]
fn sampling_draws_column_by_column_one_draw_per_cell() {
    for seed in [0, 1, 42, 2016] {
        let mut rng = SmallRng::seed_from_u64(seed);
        let mut expected = PetriDish::new();
        let mut core_blockers = 0;
        for x in 0..25_u8 {
            for y in 0..25_u8 {
                if (x, y) == (12, 12) {
                    continue;
                }
                if HAZARD.contains(&(x, y)) {
                    let heads = rng.random_bool(1.0_f64 / 8.0_f64);
                    if core_blockers < 2 && heads {
                        core_blockers += 1;
                        expected.set_blocked(x, y);
                    }
                } else {
                    expected.write(x, y, rng.random_range(0_u8..3_u8));
                }
            }
        }
        let mut same = SmallRng::seed_from_u64(seed);
        assert_eq!(PetriDish::sample(&mut same), expected);
        assert_eq!(same.random::<u64>(), rng.random::<u64>());
    }
}
