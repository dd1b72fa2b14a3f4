use sparse_draw::{Counter, Error};

// The original test: mint every token of a small supply, printing each one.
#[test]
fn mint_all_token() {
    let int_for_test: u64 = 10;

    let mut contract = Counter::new(int_for_test);
    let mut n = 1;

    for _ in 0..int_for_test {
        println!(
            "Value after random: {}",
            contract.get_random_token(&[0, 23, 2, 4, 8]).unwrap()
        );
        n = n + 1;
    }

    assert_eq!(1, 1);
}

// Drawing the full supply yields every identifier in [0, capacity) once.
#[test]
fn full_run_is_a_permutation() {
    let capacity: u64 = 25;
    let mut counter = Counter::new(capacity);
    let raws: [u64; 25] = [
        7, 0, 13, 99, 2, 41, 8, 8, 3, 1000, 5, 0, 21, 17, 64, 2, 9, 33, 4, 11, 1, 0, 6, 2, 0,
    ];
    let mut seen = vec![false; capacity as usize];
    for i in 0..capacity as usize {
        let id = counter.draw_with(raws[i]).unwrap();
        assert!(id < capacity);
        assert!(!seen[id as usize], "identifier {} drawn twice", id);
        seen[id as usize] = true;
    }
    assert!(seen.iter().all(|&b| b));
}

// After the supply is gone, the next draw fails and changes nothing.
#[test]
fn exhausted_draw_fails_and_leaves_state_alone() {
    let capacity: u64 = 4;
    let mut counter = Counter::new(capacity);
    for raw in 0..capacity {
        counter.draw_with(raw).unwrap();
    }
    assert_eq!(counter.token_count(), capacity);
    assert_eq!(counter.draw_with(12345), Err(Error::Exhausted));
    assert_eq!(counter.token_count(), capacity);
    assert_eq!(counter.max_supply_token(), capacity);
    assert_eq!(counter.draw_with(0), Err(Error::Exhausted));
}

// A zero-capacity allocator fails on its very first draw.
#[test]
fn zero_capacity_fails_immediately() {
    let mut counter = Counter::new(0);
    assert_eq!(counter.draw_with(7), Err(Error::Exhausted));
    let mut seeded = Counter::new(0);
    assert_eq!(seeded.get_random_token(&[1, 2, 3]), Err(Error::Exhausted));
}

// Construction succeeds once; with existing state it reports the guard error.
#[test]
fn init_twice_fails_the_second_time() {
    let first = Counter::init(false, 5);
    assert!(first.is_ok());
    assert_eq!(first.unwrap().max_supply_token(), 5);
    let second = Counter::init(true, 5);
    assert!(matches!(second, Err(Error::AlreadyInitialized)));
}

// Two independent runs over the same random values draw the same sequence.
#[test]
fn equal_random_values_give_equal_sequences() {
    let capacity: u64 = 12;
    let raws: [u64; 12] = [3, 3, 9, 0, 88, 12, 7, 5, 5, 1, 2, 6];
    let mut a = Counter::new(capacity);
    let mut b = Counter::new(capacity);
    for i in 0..capacity as usize {
        assert_eq!(a.draw_with(raws[i]), b.draw_with(raws[i]));
    }
    assert_eq!(a.draw_with(0), b.draw_with(0));
}

// Two independent runs over the same entropy seeds draw the same sequence.
#[test]
fn equal_seeds_give_equal_sequences() {
    let capacity: u64 = 8;
    let seeds: [&[u8]; 8] = [
        &[0],
        &[1, 1],
        &[2],
        &[3, 0, 0],
        &[4],
        &[5],
        &[0],
        &[200, 100],
    ];
    let mut a = Counter::new(capacity);
    let mut b = Counter::new(capacity);
    for seed in seeds {
        assert_eq!(a.get_random_token(seed), b.get_random_token(seed));
    }
}

// The concrete walk-through: capacity 3, window-relative picks 2, 0, 0.
#[test]
fn three_token_scenario() {
    let mut counter = Counter::new(3);
    // window 3: raw 2 reduces to slot 2, which is its own identity.
    assert_eq!(counter.draw_with(2), Ok(2));
    // window 2: raw 0 picks slot 0; slot 1's identity moves into slot 0.
    assert_eq!(counter.draw_with(0), Ok(0));
    // window 1: slot 0 now carries identity 1.
    assert_eq!(counter.draw_with(0), Ok(1));
    assert_eq!(counter.draw_with(0), Err(Error::Exhausted));
}

// The seeded generator really feeds the seed into the draw: over a huge
// capacity the first identifier is the raw 64-bit value reduced only
// slightly, so distinct seeds must land on distinct identifiers.
#[test]
fn seed_bytes_drive_the_draw() {
    let capacity = u64::MAX;
    let mut a = Counter::new(capacity);
    let mut b = Counter::new(capacity);
    let from_a = a.get_random_token(&[1]).unwrap();
    let from_b = b.get_random_token(&[2]).unwrap();
    assert_ne!(from_a, from_b);

    // And the same seed on a fresh state lands on the same identifier.
    let mut c = Counter::new(capacity);
    assert_eq!(c.get_random_token(&[1]), Ok(from_a));
}
