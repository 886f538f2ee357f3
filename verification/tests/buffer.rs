use stock_tracker::buffer_sink::{BufferSink, BUFFER_SIZE};
use stock_tracker::messages::{BufferDataRequest, PerformanceIndicators};

fn snapshot(symbol: &str, timestamp: i64) -> PerformanceIndicators {
    PerformanceIndicators {
        symbol: symbol.to_string(),
        timestamp,
        price: 100 + timestamp,
        pct_change: 5,
        period_min: 1,
        period_max: 1000,
        last_sma: 0,
    }
}

#[test]
fn new_buffer_is_empty() {
    let sink = BufferSink::new(3);
    assert_eq!(sink.capacity, 3);
    assert_eq!(sink.handle_request(BufferDataRequest { n: 10 }), vec![]);
    let by_default = BufferSink::default();
    assert_eq!(by_default.capacity, BUFFER_SIZE);
    assert_eq!(BUFFER_SIZE, 2000);
    assert_eq!(by_default.handle_request(BufferDataRequest { n: 10 }), vec![]);
}

#[test]
fn oldest_snapshot_is_evicted() {
    let mut sink = BufferSink::new(3);
    sink.handle(snapshot("A", 1));
    sink.handle(snapshot("B", 2));
    sink.handle(snapshot("C", 3));
    sink.handle(snapshot("D", 4));
    assert_eq!(sink.handle_request(BufferDataRequest { n: 10 }), vec![
        snapshot("D", 4),
        snapshot("C", 3),
        snapshot("B", 2)
    ]);
}

#[test]
fn query_returns_at_most_what_is_asked_for() {
    let mut sink = BufferSink::new(5);
    for i in 0..4 {
        sink.handle(snapshot("S", i));
    }
    assert_eq!(sink.handle_request(BufferDataRequest { n: 0 }), vec![]);
    assert_eq!(sink.handle_request(BufferDataRequest { n: 1 }), vec![snapshot("S", 3)]);
    assert_eq!(sink.handle_request(BufferDataRequest { n: 2 }), vec![
        snapshot("S", 3),
        snapshot("S", 2)
    ]);
    assert_eq!(sink.handle_request(BufferDataRequest { n: 4 }).len(), 4);
    assert_eq!(sink.handle_request(BufferDataRequest { n: usize::MAX }).len(), 4);
}

#[test]
fn length_is_the_smaller_of_insertions_and_capacity() {
    for capacity in 0usize..6 {
        let mut sink = BufferSink::new(capacity);
        for n in 1usize..10 {
            sink.handle(snapshot("S", n as i64));
            let held = sink.handle_request(BufferDataRequest { n: 100 });
            assert_eq!(held.len(), n.min(capacity));
            // the latest first
            for (k, item) in held.iter().enumerate() {
                assert_eq!(item.timestamp, (n - k) as i64);
            }
        }
    }
}

#[test]
fn query_sees_an_insertion_that_has_completed() {
    let mut sink = BufferSink::new(2);
    sink.handle(snapshot("A", 1));
    let before = sink.handle_request(BufferDataRequest { n: 2 });
    sink.handle(snapshot("B", 2));
    let after = sink.handle_request(BufferDataRequest { n: 2 });
    // the earlier answer is a copy of its own
    assert_eq!(before, vec![snapshot("A", 1)]);
    assert_eq!(after, vec![snapshot("B", 2), snapshot("A", 1)]);
}

#[test]
fn buffer_without_places_holds_nothing() {
    let mut sink = BufferSink::new(0);
    sink.handle(snapshot("A", 1));
    assert_eq!(sink.handle_request(BufferDataRequest { n: 1 }), vec![]);
}
