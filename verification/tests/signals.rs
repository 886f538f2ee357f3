use stock_tracker::rounding::{magnitude, nearest_quotient, rounded_quotient};
use stock_tracker::signal::{MaxPrice, MinPrice, PriceDifference, WindowedSMA};

#[test]
fn min_and_max_of_empty_series_are_absent() {
    assert_eq!(MinPrice {}.calculate(&[]), None);
    assert_eq!(MaxPrice {}.calculate(&[]), None);
}

#[test]
fn min_and_max_of_single_value() {
    assert_eq!(MinPrice {}.calculate(&[42]), Some(42));
    assert_eq!(MaxPrice {}.calculate(&[42]), Some(42));
}

#[test]
fn min_and_max_bound_every_value() {
    let series: [i64; 7] = [250, -3, 900, 17, 900, -3, 0];
    let lowest = MinPrice {}.calculate(&series).unwrap();
    let highest = MaxPrice {}.calculate(&series).unwrap();
    assert_eq!(lowest, -3);
    assert_eq!(highest, 900);
    for value in series.iter() {
        assert!(lowest <= *value && *value <= highest);
    }
}

#[test]
fn min_and_max_at_the_limits() {
    let series: [i64; 3] = [i64::MAX, 0, i64::MIN];
    assert_eq!(MinPrice {}.calculate(&series), Some(i64::MIN));
    assert_eq!(MaxPrice {}.calculate(&series), Some(i64::MAX));
}

#[test]
fn price_difference_of_empty_series_is_absent() {
    assert_eq!(PriceDifference {}.calculate(&[]), None);
}

#[test]
fn price_difference_of_single_value_is_zero() {
    assert_eq!(PriceDifference {}.calculate(&[12345]), Some((0, 0)));
    assert_eq!(PriceDifference {}.calculate(&[0]), Some((0, 0)));
    assert_eq!(PriceDifference {}.calculate(&[-7]), Some((0, 0)));
}

#[test]
fn price_difference_of_two_values() {
    // from 100.00 to 110.00: 10.00 up, 10 percent
    assert_eq!(PriceDifference {}.calculate(&[10000, 11000]), Some((1000, 1000)));
    // from 100.00 to 90.00: 10.00 down, 10 percent
    assert_eq!(PriceDifference {}.calculate(&[10000, 9000]), Some((-1000, -1000)));
}

#[test]
fn price_difference_looks_at_first_and_last_only() {
    assert_eq!(PriceDifference {}.calculate(&[200, 1, 999999, 250]), Some((50, 2500)));
}

#[test]
fn price_difference_rounds_to_nearest_basis_point() {
    // a third: 3333.33.. basis points
    assert_eq!(PriceDifference {}.calculate(&[3, 4]), Some((1, 3333)));
    // two thirds: 6666.66.. basis points
    assert_eq!(PriceDifference {}.calculate(&[3, 5]), Some((2, 6667)));
    // a half of a basis point goes away from zero
    assert_eq!(PriceDifference {}.calculate(&[20000, 20001]), Some((1, 1)));
    assert_eq!(PriceDifference {}.calculate(&[20000, 19999]), Some((-1, -1)));
    assert_eq!(PriceDifference {}.calculate(&[20002, 20003]), Some((1, 0)));
}

#[test]
fn price_difference_from_zero_has_no_share() {
    assert_eq!(PriceDifference {}.calculate(&[0, 500]), Some((500, 0)));
}

#[test]
fn price_difference_from_negative_price() {
    assert_eq!(PriceDifference {}.calculate(&[-100, -110]), Some((-10, 1000)));
    assert_eq!(PriceDifference {}.calculate(&[-100, 100]), Some((200, -20000)));
}

#[test]
fn price_difference_at_the_limits() {
    let span: i128 = (1i128 << 64) - 1;
    assert_eq!(PriceDifference {}.calculate(&[i64::MIN, i64::MAX]), Some((span, -20000)));
    assert_eq!(PriceDifference {}.calculate(&[1, i64::MAX]), Some((
        i64::MAX as i128 - 1,
        (i64::MAX as i128 - 1) * 10000
    )));
}

#[test]
fn moving_average_of_short_series_is_empty() {
    let sma = WindowedSMA { window_size: 30 };
    assert_eq!(sma.calculate(&[]), Vec::<i64>::new());
    assert_eq!(sma.calculate(&[5]), Vec::<i64>::new());
    let almost: Vec<i64> = (1..=29).collect();
    assert_eq!(sma.calculate(&almost), Vec::<i64>::new());
}

#[test]
fn moving_average_has_one_mean_for_each_window() {
    let sma = WindowedSMA { window_size: 3 };
    assert_eq!(sma.calculate(&[1, 2, 3, 4, 5]), vec![2, 3, 4]);
    assert_eq!(sma.calculate(&[10, 20, 60]), vec![30]);
    for n in 3usize..40 {
        let series: Vec<i64> = (0..n as i64).collect();
        assert_eq!(sma.calculate(&series).len(), n - 3 + 1);
    }
}

#[test]
fn moving_average_over_thirty_values() {
    let sma = WindowedSMA { window_size: 30 };
    let series: Vec<i64> = (1..=30).map(|x| x * 100).collect();
    // the mean of 100, 200, .., 3000
    assert_eq!(sma.calculate(&series), vec![1550]);
    let longer: Vec<i64> = (1..=32).map(|x| x * 100).collect();
    assert_eq!(sma.calculate(&longer), vec![1550, 1650, 1750]);
}

#[test]
fn moving_average_over_no_prices_is_empty() {
    let sma = WindowedSMA { window_size: 0 };
    assert_eq!(sma.calculate(&[]), Vec::<i64>::new());
    assert_eq!(sma.calculate(&[1, 2, 3]), Vec::<i64>::new());
}

#[test]
fn moving_average_window_of_one_is_the_series() {
    let sma = WindowedSMA { window_size: 1 };
    assert_eq!(sma.calculate(&[7, -8, 9]), vec![7, -8, 9]);
}

#[test]
fn moving_average_rounds_to_nearest() {
    let sma = WindowedSMA { window_size: 2 };
    assert_eq!(sma.calculate(&[1, 2]), vec![2]);
    assert_eq!(sma.calculate(&[-1, -2]), vec![-2]);
    let thirds = WindowedSMA { window_size: 3 };
    assert_eq!(thirds.calculate(&[1, 1, 2]), vec![1]);
    assert_eq!(thirds.calculate(&[1, 2, 2]), vec![2]);
    assert_eq!(thirds.calculate(&[-1, -1, -2]), vec![-1]);
}

#[test]
fn moving_average_matches_each_window_mean() {
    let series: Vec<i64> = vec![13, 8, 21, 5, 34, 3, 55, 2, 89, 1];
    let window = 4usize;
    let averages = WindowedSMA { window_size: window }.calculate(&series);
    assert_eq!(averages.len(), series.len() - window + 1);
    for (i, mean) in averages.iter().enumerate() {
        let total: i64 = series[i..i + window].iter().sum();
        // twice the distance from the exact mean is at most one
        assert!((2 * (mean * window as i64 - total)).abs() <= window as i64);
    }
    assert_eq!(averages, vec![12, 17, 16, 24, 24, 37, 37]);
}

#[test]
fn moving_average_at_the_limits() {
    let sma = WindowedSMA { window_size: 2 };
    assert_eq!(sma.calculate(&[i64::MAX, i64::MAX, i64::MIN, i64::MIN]), vec![
        i64::MAX,
        -1,
        i64::MIN
    ]);
}

#[test]
fn magnitude_of_any_number() {
    assert_eq!(magnitude(0), 0);
    assert_eq!(magnitude(-5), 5);
    assert_eq!(magnitude(5), 5);
    assert_eq!(magnitude(i128::MIN), 1u128 << 127);
    assert_eq!(magnitude(i128::MAX), (1u128 << 127) - 1);
}

#[test]
fn nearest_quotient_rounds_half_up() {
    assert_eq!(nearest_quotient(0, 7), 0);
    assert_eq!(nearest_quotient(3, 7), 0);
    assert_eq!(nearest_quotient(4, 7), 1);
    assert_eq!(nearest_quotient(5, 2), 3);
    assert_eq!(nearest_quotient(7, 3), 2);
    assert_eq!(nearest_quotient(u128::MAX, 1), u128::MAX);
    assert_eq!(nearest_quotient(u128::MAX, 2), 1u128 << 127);
    assert_eq!(nearest_quotient(u128::MAX, u128::MAX), 1);
}

#[test]
fn rounded_quotient_rounds_half_away_from_zero() {
    assert_eq!(rounded_quotient(5, 2), 3);
    assert_eq!(rounded_quotient(-5, 2), -3);
    assert_eq!(rounded_quotient(5, -2), -3);
    assert_eq!(rounded_quotient(-5, -2), 3);
    assert_eq!(rounded_quotient(7, 3), 2);
    assert_eq!(rounded_quotient(-7, 3), -2);
    assert_eq!(rounded_quotient(0, -9), 0);
    assert_eq!(rounded_quotient(i128::MAX, 1), i128::MAX);
    assert_eq!(rounded_quotient(i128::MIN, 2), -(1i128 << 126));
}
