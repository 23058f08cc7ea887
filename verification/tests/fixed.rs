use lightning_core::fixed::{
    fx_div, fx_mul, mul_div, percent, FLK_UNIT, PRECISION_GAP, STABLE_UNIT,
};

#[test]
fn mul_div_rounds_towards_zero() {
    assert_eq!(mul_div(7, 3, 2), Some(10));
    assert_eq!(mul_div(1, 1, 3), Some(0));
    assert_eq!(mul_div(0, 12345, 7), Some(0));
    assert_eq!(mul_div(12345, 0, 7), Some(0));
    assert_eq!(mul_div(10, 10, 1), Some(100));
}

#[test]
fn mul_div_refuses_division_by_zero() {
    assert_eq!(mul_div(1, 1, 0), None);
    assert_eq!(mul_div(0, 0, 0), None);
}

#[test]
fn mul_div_goes_through_products_beyond_128_bits() {
    let big = u128::MAX;
    assert_eq!(mul_div(big, big, big), Some(big));
    assert_eq!(mul_div(big, 2, 2), Some(big));
    assert_eq!(mul_div(big, 1_000_000, 1_000_001), Some(340282026638911824551550055881712329742));
    assert_eq!(mul_div(1 << 100, 1 << 100, 1 << 90), Some(1 << 110));
    // 10^24 * 8 * 10^17 / 10^18
    assert_eq!(
        mul_div(1_000_000 * FLK_UNIT, 800_000_000_000_000_000, FLK_UNIT),
        Some(800_000 * FLK_UNIT)
    );
}

#[test]
fn mul_div_reports_results_that_do_not_fit() {
    assert_eq!(mul_div(u128::MAX, 2, 1), None);
    assert_eq!(mul_div(u128::MAX, u128::MAX, 1), None);
    assert_eq!(mul_div(u128::MAX, u128::MAX, u128::MAX - 1), None);
    assert_eq!(mul_div(1 << 100, 1 << 100, 1 << 71), None);
    assert_eq!(mul_div(1 << 100, 1 << 100, 1 << 72), None);
    assert_eq!(mul_div(1 << 100, 1 << 100, 1 << 73), Some(1 << 127));
}

#[test]
fn fixed_point_products_and_quotients() {
    // 0.8 * 2000 with six places
    assert_eq!(fx_mul(2000 * STABLE_UNIT, 800_000, STABLE_UNIT), Some(1600 * STABLE_UNIT));
    // 2000 / 3000 with eighteen places
    assert_eq!(
        fx_div(2000 * FLK_UNIT, 3000 * FLK_UNIT, FLK_UNIT),
        Some(666_666_666_666_666_666)
    );
    // 1280 / 3000 with eighteen places, cut down to six
    let part = fx_div(1280 * FLK_UNIT, 3000 * FLK_UNIT, FLK_UNIT).unwrap();
    assert_eq!(part, 426_666_666_666_666_666);
    assert_eq!(part / PRECISION_GAP, 426_666);
    assert_eq!(fx_div(1, 0, FLK_UNIT), None);
}

#[test]
fn percent_makes_hundredths() {
    assert_eq!(percent(80, FLK_UNIT), Some(800_000_000_000_000_000));
    assert_eq!(percent(10, FLK_UNIT), Some(100_000_000_000_000_000));
    assert_eq!(percent(0, FLK_UNIT), Some(0));
    assert_eq!(percent(100, STABLE_UNIT), Some(STABLE_UNIT));
    assert_eq!(percent(1, 10), Some(0));
}
