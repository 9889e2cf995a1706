use ansinator::wide::{Huge, Wide, LIMB};

#[test]
fn the_product_of_small_numbers_has_no_upper_half() {
    let p = Wide::product(6, 7);
    assert_eq!((p.hi, p.lo), (0, 42));
    let p = Wide::product(0, u128::MAX);
    assert_eq!((p.hi, p.lo), (0, 0));
    let p = Wide::product(u128::MAX, 1);
    assert_eq!((p.hi, p.lo), (0, u128::MAX));
}

#[test]
fn the_product_of_large_numbers_is_whole() {
    let p = Wide::product(LIMB, LIMB);
    assert_eq!((p.hi, p.lo), (1, 0));
    // (2^128 - 1)^2 = (2^128 - 2) * 2^128 + 1
    let p = Wide::product(u128::MAX, u128::MAX);
    assert_eq!((p.hi, p.lo), (u128::MAX - 1, 1));
    // (2^64 + 1) (2^64 + 3) = 2^128 + 4 * 2^64 + 3
    let p = Wide::product(LIMB + 1, LIMB + 3);
    assert_eq!((p.hi, p.lo), (1, 4 * LIMB + 3));
    // (2^127) * 6 = 3 * 2^128
    let p = Wide::product(1 << 127, 6);
    assert_eq!((p.hi, p.lo), (3, 0));
}

#[test]
fn numbers_are_ordered_by_their_upper_half_first() {
    let small = Wide { hi: 1, lo: u128::MAX };
    let large = Wide { hi: 2, lo: 0 };
    assert!(small.at_most(&large));
    assert!(!large.at_most(&small));
    assert!(small.at_most(&small));
    assert!(Wide::zero().at_most(&small));
    assert!(Wide { hi: 2, lo: 0 }.at_most(&Wide { hi: 2, lo: 1 }));
    assert!(!Wide { hi: 2, lo: 2 }.at_most(&Wide { hi: 2, lo: 1 }));
}

#[test]
fn the_distance_borrows_from_the_upper_half() {
    let a = Wide { hi: 2, lo: 0 };
    let b = Wide { hi: 1, lo: u128::MAX };
    let d = a.distance(&b);
    assert_eq!((d.hi, d.lo), (0, 1));
    let d = b.distance(&a);
    assert_eq!((d.hi, d.lo), (0, 1));
    let d = Wide { hi: 5, lo: 3 }.distance(&Wide { hi: 2, lo: 10 });
    assert_eq!((d.hi, d.lo), (2, u128::MAX - 6));
    let d = Wide { hi: 5, lo: 10 }.distance(&Wide { hi: 2, lo: 3 });
    assert_eq!((d.hi, d.lo), (3, 7));
    let d = a.distance(&a);
    assert_eq!((d.hi, d.lo), (0, 0));
}

#[test]
fn a_square_times_a_number_fills_five_limbs() {
    let small = Wide { hi: 0, lo: 3 }.squared_times(5);
    assert_eq!(small.limbs, [45, 0, 0, 0, 0]);
    let power = Wide { hi: 1, lo: 0 }.squared_times(1);
    assert_eq!(power.limbs, [0, 0, 1, 0, 0]);
    // (5 * 2^128 + 7)^2 * 3 = 75 * 2^256 + 210 * 2^128 + 147
    let mixed = Wide { hi: 5, lo: 7 }.squared_times(3);
    assert_eq!(mixed.limbs, [147, 210, 75, 0, 0]);
    // (2^256 - 1)^2 * (2^128 - 1)
    //   = 2^640 - 2^512 - 2^385 + 2^257 + 2^128 - 1
    let most = Wide { hi: u128::MAX, lo: u128::MAX }.squared_times(u128::MAX);
    assert_eq!(most.limbs, [u128::MAX, 0, 2, u128::MAX - 1, u128::MAX - 1]);
    let nothing = Wide { hi: u128::MAX, lo: u128::MAX }.squared_times(0);
    assert_eq!(nothing.limbs, [0; 5]);
}

#[test]
fn huge_numbers_are_ordered_by_their_upper_limbs_first() {
    use_order([0, 0, 0, 0, 1], [u128::MAX, u128::MAX, u128::MAX, u128::MAX, 0]);
    use_order([0, 0, 0, 1, 7], [u128::MAX, u128::MAX, u128::MAX, 0, 7]);
    use_order([0, 0, 1, 7, 7], [u128::MAX, u128::MAX, 0, 7, 7]);
    use_order([0, 1, 7, 7, 7], [u128::MAX, 0, 7, 7, 7]);
    use_order([1, 7, 7, 7, 7], [0, 7, 7, 7, 7]);
    let same = Huge { limbs: [1, 2, 3, 4, 5] };
    assert!(same.at_most(&same));
}

fn use_order(large: [u128; 5], small: [u128; 5]) {
    let large = Huge { limbs: large };
    let small = Huge { limbs: small };
    assert!(small.at_most(&large));
    assert!(!large.at_most(&small));
}
