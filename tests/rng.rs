use heart_man::rng::{get_seeds, next_seed, seed_to_rng, Rng, INIT_SEED};

#[test]
fn init_seed_is_one_step_past_8988() {
    assert_eq!(next_seed(0x8988), INIT_SEED);
}

#[test]
fn emitted_bytes_are_fixed_for_a_seed() {
    let mut a = Rng::new(None);
    let mut b = Rng::new(Some(INIT_SEED));
    let xs: Vec<u8> = (0..8).map(|_| a.next()).collect();
    let ys: Vec<u8> = (0..8).map(|_| b.next()).collect();
    assert_eq!(xs, ys);
    let mut s = INIT_SEED;
    for x in xs {
        s = next_seed(s);
        assert_eq!(x, seed_to_rng(s));
    }
}

#[test]
fn seeds_follow_the_recurrence() {
    let seeds = get_seeds(5);
    assert_eq!(seeds[0], INIT_SEED);
    for i in 1..5 {
        assert_eq!(seeds[i], next_seed(seeds[i - 1]));
    }
}

#[test]
fn first_bytes_from_the_default_seed() {
    let mut r = Rng::new(None);
    let xs: Vec<u8> = (0..8).map(|_| r.next()).collect();
    assert_eq!(xs, vec![34, 17, 8, 4, 2, 1, 128, 64]);
}

#[test]
fn next_seed_shifts_in_the_tap_bit() {
    // bit 9 xor bit 1 of 0x0202 is 0; of 0x0002 is 1
    assert_eq!(next_seed(0x0202), 0x0101);
    assert_eq!(next_seed(0x0002), 0x8001);
    assert_eq!(next_seed(0), 0);
}

#[test]
fn seed_to_rng_is_the_top_byte() {
    assert_eq!(seed_to_rng(0xabcd), 0xab);
    assert_eq!(seed_to_rng(0x00ff), 0);
}

#[test]
fn get_keeps_the_state_and_cycle_advances_it() {
    let mut r = Rng::new(Some(0x1234));
    assert_eq!(r.get(), 0x12);
    assert_eq!(r.get(), 0x12);
    r.cycle();
    assert_eq!(r.0, next_seed(0x1234));
}

#[test]
fn states_past_the_first_step_have_distinct_successors() {
    // each successor state is reached from exactly one successor state
    let mut seen = vec![false; 1 << 16];
    let mut count = 0;
    for s in 0..=u16::MAX {
        let t = next_seed(s);
        if !seen[t as usize] {
            seen[t as usize] = true;
            count += 1;
        }
    }
    assert_eq!(count, 1 << 15);
    let mut hit = vec![0u8; 1 << 16];
    for s in 0..=u16::MAX {
        if seen[s as usize] {
            hit[next_seed(s) as usize] += 1;
        }
    }
    assert!(hit.iter().all(|&h| h <= 1));
}
