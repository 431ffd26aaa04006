use std::collections::VecDeque;
use telemetry_simulator::window::{keep_window, ONE_MINUTE_NANOS};

const SECOND: u64 = 1_000_000_000;

fn values(w: &VecDeque<(u64, i32)>) -> Vec<i32> {
    w.iter().map(|&(_, v)| v).collect()
}

#[test]
fn one_minute_is_sixty_seconds() {
    assert_eq!(ONE_MINUTE_NANOS, 60 * SECOND);
}

#[test]
fn first_reading_is_kept() {
    let mut w: VecDeque<(u64, i32)> = VecDeque::new();
    keep_window(&mut w, 5 * SECOND, 7);
    assert_eq!(w, VecDeque::from(vec![(5 * SECOND, 7)]));
}

#[test]
fn readings_older_than_a_minute_are_dropped() {
    let mut w: VecDeque<(u64, i32)> = VecDeque::new();
    keep_window(&mut w, 0, 1);
    keep_window(&mut w, 30 * SECOND, 2);
    keep_window(&mut w, 60 * SECOND, 3);
    // exactly one minute old: still in the window
    assert_eq!(values(&w), vec![1, 2, 3]);
    keep_window(&mut w, 60 * SECOND + 1, 4);
    assert_eq!(values(&w), vec![2, 3, 4]);
    keep_window(&mut w, 200 * SECOND, 5);
    assert_eq!(values(&w), vec![5]);
}

#[test]
fn dropping_stops_at_first_fresh_reading() {
    // out of order: a fresh reading in front shields a stale one behind it
    let mut w: VecDeque<(u64, i32)> = VecDeque::from(vec![(100 * SECOND, 1), (10 * SECOND, 2)]);
    keep_window(&mut w, 120 * SECOND, 3);
    assert_eq!(values(&w), vec![1, 2, 3]);
}

#[test]
fn later_timestamp_counts_as_no_time_passed() {
    let mut w: VecDeque<(u64, i32)> = VecDeque::from(vec![(500 * SECOND, 1)]);
    keep_window(&mut w, 10 * SECOND, 2);
    assert_eq!(values(&w), vec![1, 2]);
}

#[test]
fn ordered_window_keeps_exactly_fresh_readings() {
    let mut w: VecDeque<(u64, i32)> = VecDeque::new();
    let mut now = 0u64;
    for i in 0..200 {
        now += 7 * SECOND / 3;
        keep_window(&mut w, now, i);
        assert_eq!(*w.back().unwrap(), (now, i));
        for &(t, _) in w.iter() {
            assert!(now - t <= ONE_MINUTE_NANOS);
        }
        assert!(w.iter().zip(w.iter().skip(1)).all(|(a, b)| a.0 <= b.0));
    }
    // readings every 7/3 s: 26 of them span at most one minute
    assert_eq!(w.len(), 26);
}
