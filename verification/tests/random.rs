use raytracer::fixed::Fixed;
use raytracer::rand_with_range;
use raytracer::random::RandomSource;
use raytracer::random_double;

#[test]
fn draws_stay_in_their_range() {
    let mut rng = RandomSource::from_seed(1);
    for _ in 0..1000 {
        let n = rng.range(-3, 4);
        assert!((-3..4).contains(&n));
        let d = random_double(&mut rng);
        assert!(d.raw() >= 0 && d.raw() < 1_000_000);
        let r = rand_with_range(&mut rng, Fixed::from_raw(-500), Fixed::from_raw(250));
        assert!(r.raw() >= -500 && r.raw() < 250);
    }
}

#[test]
fn draws_cover_their_range() {
    let mut rng = RandomSource::from_seed(2);
    let mut seen = [false; 3];
    for _ in 0..200 {
        seen[rng.range(0, 3) as usize] = true;
    }
    assert_eq!(seen, [true, true, true]);
}

#[test]
fn a_seed_fixes_the_draws() {
    let mut a = RandomSource::from_seed(42);
    let mut b = RandomSource::from_seed(42);
    let mut c = RandomSource::from_seed(43);
    let xs: Vec<i64> = (0..20).map(|_| a.range(0, 1_000_000)).collect();
    let ys: Vec<i64> = (0..20).map(|_| b.range(0, 1_000_000)).collect();
    let zs: Vec<i64> = (0..20).map(|_| c.range(0, 1_000_000)).collect();
    assert_eq!(xs, ys);
    assert_ne!(xs, zs);
}

#[test]
fn shuffling_keeps_the_bytes_and_moves_them() {
    let mut rng = RandomSource::from_seed(3);
    let identity: Vec<u8> = (0..=255).collect();
    let mut values = identity.clone();
    rng.shuffle(&mut values);
    assert_eq!(values.len(), 256);
    assert_ne!(values, identity);
    let mut sorted = values.clone();
    sorted.sort();
    assert_eq!(sorted, identity);
}
