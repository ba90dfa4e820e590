use staking_pool::muldiv::muldiv128;

#[test]
fn muldiv_zero_divisor_gives_zero() {
    assert_eq!(muldiv128(5, 7, 0), 0);
    assert_eq!(muldiv128(u128::MAX, u128::MAX, 0), 0);
}

#[test]
fn muldiv_small_values_round_down() {
    assert_eq!(muldiv128(7, 5, 3), 11);
    assert_eq!(muldiv128(1_000_000, 10, 10_000), 1_000);
    assert_eq!(muldiv128(9_999, 10, 10_000), 9);
}

#[test]
fn muldiv_exact_when_product_overflows_but_remainders_are_small() {
    // a * b overflows, but b % c == 0 so the split is exact.
    let e: u128 = 1_000_000_000_000_000_000_000_000;
    assert_eq!(muldiv128(999 * e, 999 * e, 999 * e), 999 * e);
    assert_eq!(muldiv128(100 * e, 999 * e, 999 * e), 100 * e);
    assert_eq!(muldiv128(1u128 << 127, 3, 2), 255211775190703847597530955573826158592);
}

#[test]
fn muldiv_saturates_at_max() {
    assert_eq!(muldiv128(u128::MAX, u128::MAX, 1), u128::MAX);
    assert_eq!(muldiv128(u128::MAX, u128::MAX, u128::MAX), u128::MAX);
    assert_eq!(muldiv128(u128::MAX, 2, 3), 226854911280625642308916404954512140970);
}

#[test]
fn muldiv_exact_when_remainders_are_large() {
    // Neither a * b nor (a % c) * (b % c) fits in 128 bits; the quotient
    // is still exact.
    let a: u128 = 1_000_000_000_000_000_000_000_000_000_000;
    let b: u128 = 1_100_000_000_000_000_000_000_000_000_000_000;
    let c: u128 = 1_000_000_000_000_000_000_000_000_000_000_000;
    assert_eq!(muldiv128(a, b, c), 1_100_000_000_000_000_000_000_000_000_000);
    let e: u128 = 1_000_000_000_000_000_000_000_000;
    assert_eq!(muldiv128(e, e, 2 * e), 500_000_000_000_000_000_000_000);
    assert_eq!(muldiv128(e, 999 * e, 300_000_000 * e), 3_330_000_000_000_000_000);
}

#[test]
fn muldiv_exact_near_the_top_of_the_range() {
    // a * b / c is exactly u128::MAX - 1 here, with an overflowing product.
    let m = u128::MAX;
    assert_eq!(muldiv128(m, m - 1, m), m - 1);
    assert_eq!(muldiv128(m - 1, m, m), m - 1);
    // One more than u128::MAX saturates.
    assert_eq!(muldiv128(1u128 << 127, 4, 2), u128::MAX);
    assert_eq!(muldiv128((1u128 << 127) + 1, (1u128 << 127) + 1, 1u128 << 127), (1u128 << 127) + 2);
}

#[test]
fn muldiv_fraction_of_one_stays_below_amount() {
    let e: u128 = 1_000_000_000_000_000_000_000_000;
    let amount = 123_456 * e + 789;
    assert!(muldiv128(amount, 10, 10_000) <= amount);
    assert!(muldiv128(amount, 10_000, 10_000) <= amount);
    assert_eq!(muldiv128(amount, 10_000, 10_000), amount);
}
