use fjord_monitor::rng::Rng;
use fjord_monitor::wildlife::{
    floe_seed, halibut_layout_seed, halibut_speckle_seed, heads_right, jacket_slot,
    penguin_count, MAX_HALIBUT, MAX_PENGUINS,
};

#[test]
fn xorshift_first_draws_from_seed_one() {
    let mut rng = Rng::new(1);
    assert_eq!(rng.next_u64(), 1082269761);
    assert_eq!(rng.next_u64(), 1152992998833853505);
}

#[test]
fn even_seed_is_forced_odd() {
    let mut a = Rng::new(2);
    let mut b = Rng::new(3);
    for _ in 0..10 {
        assert_eq!(a.next_u64(), b.next_u64());
    }
}

#[test]
fn zero_seed_does_not_stick_at_zero() {
    let mut rng = Rng::new(0);
    for _ in 0..1000 {
        assert_ne!(rng.next_u64(), 0);
    }
}

#[test]
fn same_seed_gives_same_scenery() {
    let mut a = Rng::new(0x51A7_C0DE);
    let mut b = Rng::new(0x51A7_C0DE);
    for _ in 0..70 {
        assert_eq!(a.next_unit_bits(), b.next_unit_bits());
    }
}

#[test]
fn unit_bits_are_the_top_of_the_draw() {
    let mut a = Rng::new(0x5EED_1A17);
    let mut b = Rng::new(0x5EED_1A17);
    for _ in 0..100 {
        let bits = a.next_unit_bits();
        let draw = b.next_u64();
        assert_eq!(bits as u64, draw >> 40);
        assert!(bits < 1 << 24);
    }
}

#[test]
fn unit_bits_of_a_small_state_are_zero() {
    // 3 steps to 3246809283, whose top 24 bits are all clear.
    let mut rng = Rng::new(3);
    assert_eq!(rng.next_unit_bits(), 0);
}

#[test]
fn penguins_capped_at_four() {
    assert_eq!(penguin_count(0), 0);
    assert_eq!(penguin_count(3), 3);
    assert_eq!(penguin_count(4), 4);
    assert_eq!(penguin_count(5), MAX_PENGUINS);
    assert_eq!(penguin_count(255), 4);
}

#[test]
fn neighbours_face_opposite_ways() {
    for i in 0..MAX_HALIBUT {
        assert_ne!(heads_right(i), heads_right(i + 1));
    }
    assert!(heads_right(0));
    assert!(!heads_right(1));
}

#[test]
fn jackets_cycle_through_three_colours() {
    let slots: Vec<usize> = (0..MAX_PENGUINS).map(jacket_slot).collect();
    assert_eq!(slots, vec![0, 1, 2, 0]);
    for i in 0..10 {
        assert_ne!(jacket_slot(i), jacket_slot(i + 1));
    }
}

#[test]
fn animal_seeds() {
    assert_eq!(halibut_layout_seed(0), 0x1000);
    assert_eq!(halibut_layout_seed(5), 0x1000 + 5 * 7919);
    assert_eq!(halibut_speckle_seed(0), 0xBEEF);
    assert_eq!(halibut_speckle_seed(3), 0xBEEF + 3 * 104_729);
    assert_eq!(floe_seed(0), 0x2000);
    assert_eq!(floe_seed(3), 0x2000 + 3 * 6151);
    let mut seen: Vec<u64> = (0..MAX_HALIBUT).map(halibut_speckle_seed).collect();
    seen.sort();
    seen.dedup();
    assert_eq!(seen.len(), MAX_HALIBUT);
}
