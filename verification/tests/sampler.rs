use pathtracer::random::{create_rand_generator, rand_u32_r, RandGenerator};

#[test]
fn rand_u32_r_stays_in_range() {
    let mut rng: RandGenerator = create_rand_generator();
    for _ in 0..10_000 {
        let r = rand_u32_r(10, 20, &mut rng);
        assert!(10 <= r && r < 20);
    }
}

#[test]
fn rand_u32_r_single_value_range() {
    let mut rng = create_rand_generator();
    for _ in 0..100 {
        assert_eq!(rand_u32_r(41, 42, &mut rng), 41);
        assert_eq!(rand_u32_r(u32::MAX - 1, u32::MAX, &mut rng), u32::MAX - 1);
    }
}

#[test]
fn rand_u32_r_reaches_the_whole_range() {
    let mut rng = create_rand_generator();
    let mut seen = [false; 8];
    for _ in 0..10_000 {
        seen[(rand_u32_r(100, 108, &mut rng) - 100) as usize] = true;
    }
    assert!(seen.iter().all(|s| *s));
}

#[test]
fn generators_are_independent() {
    let mut a = create_rand_generator();
    let mut b = create_rand_generator();
    let from_a: Vec<u32> = (0..16).map(|_| rand_u32_r(0, u32::MAX, &mut a)).collect();
    let from_b: Vec<u32> = (0..16).map(|_| rand_u32_r(0, u32::MAX, &mut b)).collect();
    assert_ne!(from_a, from_b);
}
