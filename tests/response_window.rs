use loadtest::{LastResponses, ResponseTimestamp, TimeSpan};
use std::time::{Duration, Instant};

#[test]
fn ordering_is_correct() {
    let earliest = ResponseTimestamp::from(Instant::now() - std::time::Duration::from_secs(2));
    let now = ResponseTimestamp::now();
    let later = ResponseTimestamp::from(Instant::now() + std::time::Duration::from_secs(2));

    assert!(earliest > now);
    assert!(earliest > later);
    assert!(earliest == earliest);
    assert!(now > later);
    assert!(now < earliest);
    assert!(now == now);
    assert!(later < now);
    assert!(later < earliest);
    assert!(later == later);
}

#[test]
fn earliest_time_stamp_is_on_top() {
    let earliest = ResponseTimestamp::from(Instant::now() - std::time::Duration::from_secs(2));
    let now = ResponseTimestamp::now();
    let later = ResponseTimestamp::from(Instant::now() + std::time::Duration::from_secs(2));

    let mut last_reponse_times = LastResponses::new(TimeSpan::from_secs(100));

    last_reponse_times.push(now.clone());
    assert_eq!(last_reponse_times.peek(), Some(&now));

    last_reponse_times.push(later);
    assert_eq!(last_reponse_times.peek(), Some(&now));

    last_reponse_times.push(earliest.clone());
    assert_eq!(last_reponse_times.peek(), Some(&earliest));
}

#[test]
fn peak_does_not_give_outdated_response_time() {
    let earliest = ResponseTimestamp::from(Instant::now() - std::time::Duration::from_secs(2));
    let mut last_reponse_times =
        LastResponses::with_timestamps(TimeSpan::from_secs(1), vec![earliest]);
    assert_eq!(last_reponse_times.peek(), None);
}

#[test]
fn peak_gives_response_time_within_max_duration() {
    let earliest = ResponseTimestamp::from(Instant::now() - std::time::Duration::from_secs(1));
    let mut last_reponse_times =
        LastResponses::with_timestamps(TimeSpan::from_secs(2), vec![earliest.clone()]);
    assert_eq!(last_reponse_times.peek(), Some(&earliest));
}

#[test]
fn outdated_timestamp_is_not_inserted() {
    let earliest = ResponseTimestamp::from(Instant::now() - std::time::Duration::from_secs(2));
    let mut last_reponse_times = LastResponses::new(TimeSpan::from_secs(1));
    last_reponse_times.push(earliest);
    assert!(last_reponse_times.is_empty());
}

#[test]
fn timestamp_within_range_is_inserted() {
    let earliest = ResponseTimestamp::from(Instant::now() - std::time::Duration::from_secs(1));
    let mut last_reponse_times = LastResponses::new(TimeSpan::from_secs(2));
    last_reponse_times.push(earliest);
    assert!(last_reponse_times.len() == 1);
}

#[test]
fn response_time_heap_is_cleaned_of_outdated_responses() {
    let earliest = ResponseTimestamp::from(Instant::now() - std::time::Duration::from_secs(10));
    let still_to_early =
        ResponseTimestamp::from(Instant::now() - std::time::Duration::from_secs(5));
    let late_enough = ResponseTimestamp::from(Instant::now() - std::time::Duration::from_secs(3));
    let now = ResponseTimestamp::from(Instant::now());

    let mut last_reponse_times = LastResponses::with_timestamps(
        TimeSpan::from_secs(4),
        vec![earliest, still_to_early, late_enough.clone(), now.clone()],
    );
    last_reponse_times.removed_outdated_responses();

    assert_eq!(last_reponse_times.pop_oldest(), Some(late_enough));
    assert_eq!(last_reponse_times.pop_oldest(), Some(now));
    assert_eq!(last_reponse_times.pop_oldest(), None);
}

#[test]
fn three_request_in_last_two_seconds() {
    let mut last_reponse_times = LastResponses::new(TimeSpan::from_secs(2));

    last_reponse_times.push(ResponseTimestamp::now());
    last_reponse_times.push(ResponseTimestamp::from(
        Instant::now() - std::time::Duration::from_secs(1),
    ));
    last_reponse_times.push(ResponseTimestamp::from(
        Instant::now() - std::time::Duration::from_millis(1500),
    ));
    let window_secs = last_reponse_times.max_duration().as_nanos() as f64 / 1e9;
    let rate = last_reponse_times.requests_in_window() as f64 / window_secs;
    assert_eq!(rate, 1.5)
}

#[test]
fn no_request_in_last_period() {
    let mut last_reponse_times = LastResponses::new(TimeSpan::from_secs(2));
    let window_secs = last_reponse_times.max_duration().as_nanos() as f64 / 1e9;
    let rate = last_reponse_times.requests_in_window() as f64 / window_secs;
    assert_eq!(rate, 0.0)
}

#[test]
fn rate_at_fixed_positions_counts_three_live_entries() {
    let mut tracker = LastResponses::new(TimeSpan::from_secs(2));
    let t = ResponseTimestamp::now();
    tracker.push_at(t, 0, 0);
    tracker.push_at(t, -1_000_000_000, 0);
    tracker.push_at(t, -1_500_000_000, 0);
    assert_eq!(tracker.count_at(0), 3);
    assert_eq!(tracker.count_at(0) as f64 / 2.0, 1.5);
}

#[test]
fn count_never_includes_entries_at_or_past_the_window() {
    let mut tracker = LastResponses::new(TimeSpan::from_nanos(100));
    let t = ResponseTimestamp::now();
    tracker.push_at(t, 0, 0);
    tracker.push_at(t, 50, 50);
    tracker.push_at(t, 99, 99);
    assert_eq!(tracker.len(), 3);
    // At 100 the entry at 0 is exactly one window old: expired.
    assert_eq!(tracker.count_at(100), 2);
    // At 149 the entry at 50 is 99 old: still live.
    assert_eq!(tracker.count_at(149), 2);
    assert_eq!(tracker.count_at(150), 1);
    assert_eq!(tracker.count_at(1_000), 0);
    assert!(tracker.is_empty());
}

#[test]
fn stale_push_leaves_the_size_unchanged() {
    let mut tracker = LastResponses::new(TimeSpan::from_nanos(10));
    let t = ResponseTimestamp::now();
    tracker.push_at(t, 5, 5);
    tracker.push_at(t, 6, 6);
    assert_eq!(tracker.len(), 2);
    tracker.push_at(t, -100, 7);
    assert_eq!(tracker.len(), 2);
    // Age equal to the window counts as expired.
    tracker.push_at(t, -3, 7);
    assert_eq!(tracker.len(), 2);
}

#[test]
fn entries_come_out_oldest_first_whatever_the_push_order() {
    let mut tracker = LastResponses::new(TimeSpan::from_secs(100));
    let a = ResponseTimestamp::from(Instant::now() - Duration::from_secs(3));
    let b = ResponseTimestamp::from(Instant::now() - Duration::from_secs(2));
    let c = ResponseTimestamp::from(Instant::now() - Duration::from_secs(1));
    tracker.push_at(b, -2, 0);
    tracker.push_at(c, -1, 0);
    tracker.push_at(a, -3, 0);
    assert_eq!(tracker.peek_at(0), Some(&a));
    assert_eq!(tracker.pop_oldest(), Some(a));
    assert_eq!(tracker.pop_oldest(), Some(b));
    assert_eq!(tracker.pop_oldest(), Some(c));
    assert_eq!(tracker.pop_oldest(), None);
}

#[test]
fn extreme_positions_do_not_overflow() {
    let mut tracker = LastResponses::new(TimeSpan::from_nanos(u64::MAX));
    let t = ResponseTimestamp::now();
    tracker.push_at(t, i128::MIN, i128::MAX);
    assert_eq!(tracker.len(), 0);
    tracker.push_at(t, i128::MAX, i128::MIN);
    assert_eq!(tracker.count_at(i128::MIN), 1);
}

#[test]
fn elapsed_of_a_past_timestamp_is_at_least_its_age() {
    let past = ResponseTimestamp::from(Instant::now() - Duration::from_secs(2));
    assert!(past.elapsed().as_nanos() >= 2_000_000_000);
    let future = ResponseTimestamp::from(Instant::now() + Duration::from_secs(60));
    assert_eq!(future.elapsed().as_nanos(), 0);
}
