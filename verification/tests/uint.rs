use abab::uint::U256;

#[test]
fn u256_from_u64_and_zero() {
    assert_eq!(U256::from_u64(7), U256 { limbs: [7, 0, 0, 0] });
    assert_eq!(U256::zero(), U256 { limbs: [0, 0, 0, 0] });
    assert!(U256::zero().is_zero());
    assert!(!U256::from_u64(1).is_zero());
    assert!(!U256 { limbs: [0, 0, 0, 1] }.is_zero());
}

#[test]
fn u256_orders_by_the_highest_limb_first() {
    let small = U256 { limbs: [u64::MAX, 0, 0, 0] };
    let large = U256 { limbs: [0, 1, 0, 0] };
    assert!(small.lt(&large));
    assert!(!large.lt(&small));
    assert!(!small.lt(&small));
    assert!(small.le(&small));
    assert!(small.le(&large));
    assert!(!large.le(&small));
    assert!(U256 { limbs: [9, 9, 9, 0] }.lt(&U256 { limbs: [0, 0, 0, 1] }));
}

#[test]
fn u256_checked_add_carries_and_overflows() {
    let one = U256::from_u64(1);
    assert_eq!(U256::from_u64(2).checked_add(&U256::from_u64(3)), Some(U256::from_u64(5)));
    assert_eq!(
        U256 { limbs: [u64::MAX, 0, 0, 0] }.checked_add(&one),
        Some(U256 { limbs: [0, 1, 0, 0] })
    );
    assert_eq!(U256 { limbs: [u64::MAX; 4] }.checked_add(&one), None);
    assert_eq!(
        U256 { limbs: [u64::MAX; 4] }.checked_add(&U256::zero()),
        Some(U256 { limbs: [u64::MAX; 4] })
    );
}

#[test]
fn u256_checked_sub_borrows_and_underflows() {
    let one = U256::from_u64(1);
    assert_eq!(U256::from_u64(5).checked_sub(&U256::from_u64(3)), Some(U256::from_u64(2)));
    assert_eq!(
        U256 { limbs: [0, 1, 0, 0] }.checked_sub(&one),
        Some(U256 { limbs: [u64::MAX, 0, 0, 0] })
    );
    assert_eq!(U256::zero().checked_sub(&one), None);
    assert_eq!(one.checked_sub(&one), Some(U256::zero()));
}

#[test]
fn u256_checked_div_rounds_down_and_refuses_zero() {
    assert_eq!(U256::from_u64(7).checked_div(&U256::from_u64(2)), Some(U256::from_u64(3)));
    assert_eq!(
        U256::from_u64(1_000_000).checked_div(&U256::from_u64(1024)),
        Some(U256::from_u64(976))
    );
    assert_eq!(U256::from_u64(7).checked_div(&U256::zero()), None);
    assert_eq!(
        U256 { limbs: [0, 2, 0, 0] }.checked_div(&U256::from_u64(2)),
        Some(U256 { limbs: [0, 1, 0, 0] })
    );
}
