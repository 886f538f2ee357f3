use stock_tracker::downloader::{Download, Fetched, StockDataDownloader};
use stock_tracker::messages::{PerformanceIndicators, PricePoint, QuoteRequest, Quotes};
use stock_tracker::processor::{StockDataProcessor, WINDOW_SIZE};
use stock_tracker::time_order::sort_by_time;

fn point(timestamp: i64, close: i64) -> PricePoint {
    PricePoint { timestamp, close }
}

fn series(symbol: &str, quotes: Vec<PricePoint>) -> Quotes {
    Quotes { symbol: symbol.to_string(), quotes }
}

fn request(symbol: &str) -> QuoteRequest {
    QuoteRequest { symbol: symbol.to_string(), from: 0, to: 1000 }
}

#[test]
fn sort_puts_points_in_time_order() {
    let mut points = vec![point(5, 1), point(3, 2), point(9, 3), point(1, 4)];
    sort_by_time(&mut points);
    assert_eq!(points, vec![point(1, 4), point(3, 2), point(5, 1), point(9, 3)]);
}

#[test]
fn sort_keeps_the_order_of_equal_timestamps() {
    let mut points = vec![point(2, 10), point(1, 20), point(2, 30), point(1, 40), point(2, 50)];
    sort_by_time(&mut points);
    assert_eq!(points, vec![
        point(1, 20),
        point(1, 40),
        point(2, 10),
        point(2, 30),
        point(2, 50)
    ]);
}

#[test]
fn sort_of_nothing_and_of_one() {
    let mut none: Vec<PricePoint> = vec![];
    sort_by_time(&mut none);
    assert_eq!(none, vec![]);
    let mut one = vec![point(-4, 7)];
    sort_by_time(&mut one);
    assert_eq!(one, vec![point(-4, 7)]);
}

#[test]
fn sort_of_negative_and_extreme_timestamps() {
    let mut points = vec![point(i64::MAX, 1), point(0, 2), point(i64::MIN, 3), point(-1, 4)];
    sort_by_time(&mut points);
    assert_eq!(points, vec![point(i64::MIN, 3), point(-1, 4), point(0, 2), point(i64::MAX, 1)]);
}

#[test]
fn three_points_in_any_order_give_one_snapshot() {
    let expected = PerformanceIndicators {
        symbol: "ACME".to_string(),
        timestamp: 3,
        price: 9000,
        pct_change: -1000,
        period_min: 9000,
        period_max: 11000,
        last_sma: 0,
    };
    let a = point(1, 10000);
    let b = point(2, 11000);
    let c = point(3, 9000);
    let orders = vec![
        vec![a, b, c],
        vec![a, c, b],
        vec![b, a, c],
        vec![b, c, a],
        vec![c, a, b],
        vec![c, b, a],
    ];
    for order in orders {
        let snapshot = StockDataProcessor.handle(series("ACME", order));
        assert_eq!(snapshot, Some(expected.clone()));
    }
}

#[test]
fn empty_series_gives_no_snapshot() {
    assert_eq!(StockDataProcessor.handle(series("ACME", vec![])), None);
}

#[test]
fn single_point_gives_unchanged_snapshot() {
    let snapshot = StockDataProcessor.handle(series("ONE", vec![point(77, 1234)]));
    assert_eq!(snapshot, Some(PerformanceIndicators {
        symbol: "ONE".to_string(),
        timestamp: 77,
        price: 1234,
        pct_change: 0,
        period_min: 1234,
        period_max: 1234,
        last_sma: 0,
    }));
}

#[test]
fn sorted_and_reversed_series_give_the_same_snapshot() {
    let sorted: Vec<PricePoint> = (0..45).map(|i| point(1000 + i, 500 + (i * 37) % 91)).collect();
    let mut reversed = sorted.clone();
    reversed.reverse();
    let from_sorted = StockDataProcessor.handle(series("S", sorted));
    let from_reversed = StockDataProcessor.handle(series("S", reversed));
    assert!(from_sorted.is_some());
    assert_eq!(from_sorted, from_reversed);
}

#[test]
fn moving_average_of_snapshot_covers_the_latest_window() {
    assert_eq!(WINDOW_SIZE, 30);
    // 31 points, given from the latest to the earliest; closes 100, 200, .., 3100 by time
    let points: Vec<PricePoint> = (1..=31).rev().map(|i| point(i, i * 100)).collect();
    let snapshot = StockDataProcessor.handle(series("AVG", points)).unwrap();
    assert_eq!(snapshot.timestamp, 31);
    assert_eq!(snapshot.price, 3100);
    // from 100 to 3100
    assert_eq!(snapshot.pct_change, 300000);
    assert_eq!(snapshot.period_min, 100);
    assert_eq!(snapshot.period_max, 3100);
    // the mean of 200, 300, .., 3100
    assert_eq!(snapshot.last_sma, 1650);
}

#[test]
fn moving_average_of_snapshot_with_exactly_one_window() {
    let points: Vec<PricePoint> = (1..=30).map(|i| point(i, i * 100)).collect();
    let snapshot = StockDataProcessor.handle(series("AVG", points)).unwrap();
    assert_eq!(snapshot.last_sma, 1550);
    let fewer: Vec<PricePoint> = (1..=29).map(|i| point(i, i * 100)).collect();
    let snapshot = StockDataProcessor.handle(series("AVG", fewer)).unwrap();
    assert_eq!(snapshot.last_sma, 0);
}

#[test]
fn snapshot_price_lies_between_min_and_max() {
    let points = vec![point(4, 70), point(2, 10), point(3, 90), point(1, 50)];
    let snapshot = StockDataProcessor.handle(series("B", points)).unwrap();
    assert!(snapshot.period_min <= snapshot.price && snapshot.price <= snapshot.period_max);
    assert_eq!((snapshot.period_min, snapshot.price, snapshot.period_max), (10, 70, 90));
    assert_eq!(snapshot.pct_change, 4000);
}

#[test]
fn fetched_points_are_published_under_the_symbol() {
    let points = vec![point(2, 5), point(1, 6)];
    let download = StockDataDownloader.handle(request("ACME"), Fetched::Points(points.clone()));
    assert_eq!(download, Download { data: series("ACME", points), diagnostic: None });
}

#[test]
fn fetch_without_points_publishes_an_empty_series() {
    let download = StockDataDownloader.handle(request("ACME"), Fetched::Points(vec![]));
    assert_eq!(download, Download { data: series("ACME", vec![]), diagnostic: None });
    let download = StockDataDownloader.handle(request("ACME"), Fetched::Unreadable);
    assert_eq!(download, Download { data: series("ACME", vec![]), diagnostic: None });
}

#[test]
fn failed_fetch_publishes_an_empty_series_and_reports() {
    let download =
        StockDataDownloader.handle(request("X"), Fetched::Failed("connection refused".to_string()));
    assert_eq!(download, Download {
        data: series("X", vec![]),
        diagnostic: Some("Ignoring API error for symbol 'X': connection refused".to_string()),
    });
}

#[test]
fn failed_fetch_leaves_other_symbols_alone() {
    let outcomes = vec![
        ("A", Fetched::Points(vec![point(1, 100), point(2, 150)])),
        ("X", Fetched::Failed("timeout".to_string())),
        ("B", Fetched::Points(vec![point(1, 400), point(2, 300)])),
    ];
    let mut snapshots: Vec<PerformanceIndicators> = Vec::new();
    for (symbol, fetched) in outcomes {
        let download = StockDataDownloader.handle(request(symbol), fetched);
        if let Some(snapshot) = StockDataProcessor.handle(download.data) {
            snapshots.push(snapshot);
        }
    }
    let symbols: Vec<&str> = snapshots.iter().map(|s| s.symbol.as_str()).collect();
    assert_eq!(symbols, vec!["A", "B"]);
    assert_eq!(snapshots[0].pct_change, 5000);
    assert_eq!(snapshots[1].pct_change, -2500);
}
