use casper_era::{normalize_weights, Motes, PublicKey, HALF_MAX_WEIGHT};

fn key(b: u8) -> PublicKey {
    PublicKey([b; 32])
}

fn big(high: u64, low: u64) -> Motes {
    Motes { limbs: [low, high, 0, 0, 0, 0, 0, 0] }
}

#[test]
fn small_stakes_keep_their_values() {
    let stakes = vec![(key(1), Motes::from_u64(100)), (key(2), Motes::from_u64(300))];
    let v = normalize_weights(&stakes);
    assert_eq!(v.weights, vec![(key(1), 100), (key(2), 300)]);
    assert_eq!(v.total_weight, 400);
}

#[test]
fn zero_stake_keeps_its_place() {
    let stakes = vec![
        (key(1), Motes::from_u64(0)),
        (key(2), Motes::from_u64(7)),
        (key(3), Motes::from_u64(0)),
    ];
    let v = normalize_weights(&stakes);
    assert_eq!(v.weights, vec![(key(1), 0), (key(2), 7), (key(3), 0)]);
    assert_eq!(v.total_weight, 7);
    assert_eq!(v.weight_at(1), 7);
}

#[test]
fn empty_stake_list_has_no_weight() {
    let v = normalize_weights(&Vec::new());
    assert!(v.weights.is_empty());
    assert_eq!(v.total_weight, 0);
}

#[test]
fn stakes_summing_to_the_bound_are_exact() {
    let stakes = vec![(key(1), Motes::from_u64(u64::MAX - 5)), (key(2), Motes::from_u64(5))];
    let v = normalize_weights(&stakes);
    assert_eq!(v.weights, vec![(key(1), u64::MAX - 5), (key(2), 5)]);
    assert_eq!(v.total_weight, u64::MAX);
}

#[test]
fn large_stakes_are_scaled() {
    // Stakes of 2^64 and 3 * 2^64: the sum 2^66 exceeds u64::MAX, the
    // divisor is 2^66 / (2^63 - 1) = 8.
    let stakes = vec![(key(1), big(1, 0)), (key(2), big(3, 0))];
    let v = normalize_weights(&stakes);
    assert_eq!(v.weights, vec![(key(1), 1u64 << 61), (key(2), 3u64 << 61)]);
    assert_eq!(v.total_weight, 1u64 << 63);
}

#[test]
fn scaled_weights_keep_the_order_of_stakes() {
    let stakes = vec![
        (key(1), big(5, 17)),
        (key(2), big(5, 16)),
        (key(3), big(0, 12345)),
        (key(4), big(100, 0)),
    ];
    let v = normalize_weights(&stakes);
    let w: Vec<u64> = v.weights.iter().map(|p| p.1).collect();
    assert!(w[0] >= w[1]);
    assert!(w[1] >= w[2]);
    assert!(w[3] >= w[0]);
    // The sum is 220 * (2^63 - 1) + 12598, so the divisor is 220.
    assert_eq!(w[2], 12345 / 220);
    assert_eq!(w[3], ((100u128 << 64) / 220) as u64);
    let total: u128 = w.iter().map(|x| *x as u128).sum();
    assert_eq!(total, v.total_weight as u128);
    assert!(v.total_weight <= 2 * HALF_MAX_WEIGHT);
}

#[test]
fn motes_addition_checks_overflow() {
    let a = Motes::from_u64(u64::MAX);
    let s = a.checked_add(&Motes::from_u64(1)).unwrap();
    assert_eq!(s, big(1, 0));
    let top = Motes { limbs: [u64::MAX; 8] };
    assert_eq!(top.checked_add(&Motes::from_u64(1)), None);
    assert_eq!(Motes::from_u64(42), Motes { limbs: [42, 0, 0, 0, 0, 0, 0, 0] });
}
