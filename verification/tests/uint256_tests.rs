use token_ledger::uint256::Uint256;

#[test]
fn test_checked_add_plain() {
    let a = Uint256::from_u128(40);
    let b = Uint256::from_u128(2);
    assert_eq!(a.checked_add(b), Some(Uint256 { lo: 42, hi: 0 }));
}

#[test]
fn test_checked_add_carries_into_high_limb() {
    let a = Uint256 { lo: u128::MAX, hi: 0 };
    let b = Uint256::from_u128(1);
    assert_eq!(a.checked_add(b), Some(Uint256 { lo: 0, hi: 1 }));
    let c = Uint256 { lo: u128::MAX, hi: 3 };
    let d = Uint256 { lo: 2, hi: 5 };
    assert_eq!(c.checked_add(d), Some(Uint256 { lo: 1, hi: 9 }));
}

#[test]
fn test_checked_add_overflow_is_none() {
    let max = Uint256 { lo: u128::MAX, hi: u128::MAX };
    assert_eq!(max.checked_add(Uint256::from_u128(1)), None);
    assert_eq!(max.checked_add(max), None);
    assert_eq!(max.checked_add(Uint256::zero()), Some(max));
}

#[test]
fn test_checked_sub_plain_and_borrow() {
    let a = Uint256 { lo: 0, hi: 1 };
    let b = Uint256::from_u128(1);
    assert_eq!(a.checked_sub(b), Some(Uint256 { lo: u128::MAX, hi: 0 }));
    let c = Uint256 { lo: 5, hi: 7 };
    let d = Uint256 { lo: 3, hi: 7 };
    assert_eq!(c.checked_sub(d), Some(Uint256 { lo: 2, hi: 0 }));
}

#[test]
fn test_checked_sub_underflow_is_none() {
    let a = Uint256::from_u128(1);
    let b = Uint256::from_u128(2);
    assert_eq!(a.checked_sub(b), None);
    let c = Uint256 { lo: 0, hi: 1 };
    let d = Uint256 { lo: 1, hi: 1 };
    assert_eq!(c.checked_sub(d), None);
}

#[test]
fn test_comparisons() {
    let small = Uint256 { lo: u128::MAX, hi: 0 };
    let big = Uint256 { lo: 0, hi: 1 };
    assert!(big.ge(small));
    assert!(!small.ge(big));
    assert!(small.lt(big));
    assert!(big.ge(big));
    assert!(Uint256::zero().is_zero());
    assert!(!small.is_zero());
}
