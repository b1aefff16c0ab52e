use aimc::fps_counter::{Clear, FpsCounter, Snapshot};
use aimc::hal::messaging::{Ack, Handler};
use aimc::time::Duration;

#[test]
fn track_time_of_last_tick() {
    let mut fps = FpsCounter::default();
    let tick_started = Duration::new(0, 0);
    let now = Duration::new(1, 23);

    fps.record(tick_started, now);

    let should_be = Snapshot { start: tick_started, end: now };
    assert_eq!(fps.snapshot(0), Some(should_be));
}

#[test]
fn record_snapshot() {
    let should_be = Snapshot { start: Duration::from_millis(50), end: Duration::from_millis(100) };
    let mut fps = FpsCounter::default();

    fps.record(should_be.start, should_be.end);

    assert_eq!(fps.len(), 1);
    assert_eq!(fps.snapshot(0), Some(should_be));
}

#[test]
fn first_reading_has_no_frequency() {
    let mut fps = FpsCounter::default();
    let tick_duration = Duration::from_millis(20);

    fps.record(Duration::new(0, 0), tick_duration);

    assert_eq!(fps.len(), 1);
    assert_eq!(fps.tick_span(), None);
    assert_eq!(fps.average_tick_duration(), Some(tick_duration));
}

#[test]
fn calculate_last_tick_duration() {
    let mut fps = FpsCounter::default();
    let tick_duration = Duration::from_millis(25);
    let tick_started = Duration::new(1, 0);

    fps.record(tick_started, tick_started.add(tick_duration));

    assert_eq!(fps.len(), 1);
    assert_eq!(fps.average_tick_duration(), Some(tick_duration));
}

#[test]
fn calculate_fps_by_averaging_ticks() {
    let mut fps = FpsCounter::default();

    // It'll think the first tick happened after 20ms (50Hz)
    fps.record(Duration::new(0, 0), Duration::from_millis(20));
    // then the second tick happens 50ms later (20Hz)
    fps.record(Duration::from_millis(20), Duration::from_millis(70));

    // The ticks started 20ms apart => 50Hz. The library gives the interval
    // count and the span they cover; the frequency is their float quotient.
    assert_eq!(fps.tick_span(), Some((1, Duration::from_millis(20))));
    let (intervals, span) = fps.tick_span().unwrap();
    let secs = span.as_secs() as f32 + span.subsec_nanos() as f32 / 1e9;
    assert_eq!(intervals as f32 / secs, 50.0);
    assert_eq!(fps.average_tick_duration(), Some(Duration::from_millis((50 + 20) / 2)));
}

#[test]
fn most_recent_tick_is_at_the_front() {
    let mut fps = FpsCounter::new();
    fps.record(Duration::from_millis(1), Duration::from_millis(2));
    fps.record(Duration::from_millis(3), Duration::from_millis(5));

    assert_eq!(fps.snapshot(0).unwrap().start, Duration::from_millis(3));
    assert_eq!(fps.snapshot(1).unwrap().start, Duration::from_millis(1));
    assert_eq!(fps.snapshot(2), None);
}

#[test]
fn the_window_forgets_the_oldest_tick_when_full() {
    let mut fps = FpsCounter::new();
    for i in 0..(FpsCounter::SNAPSHOTS as u64 + 10) {
        fps.record(Duration::from_millis(i), Duration::from_millis(i + 1));
    }

    assert_eq!(fps.len(), FpsCounter::SNAPSHOTS);
    assert_eq!(fps.snapshot(0).unwrap().start, Duration::from_millis(265));
    assert_eq!(fps.snapshot(255).unwrap().start, Duration::from_millis(10));
    let (intervals, span) = fps.tick_span().unwrap();
    assert_eq!(intervals, 255);
    assert_eq!(span, Duration::from_millis(255));
    assert_eq!(fps.average_tick_duration(), Some(Duration::from_millis(1)));
}

#[test]
fn average_is_rounded_down() {
    let mut fps = FpsCounter::new();
    fps.record(Duration::new(0, 0), Duration::new(0, 1));
    fps.record(Duration::new(0, 0), Duration::new(0, 2));
    fps.record(Duration::new(0, 0), Duration::new(0, 2));
    assert_eq!(fps.total_tick_duration(), Some(Duration::new(0, 5)));
    assert_eq!(fps.average_tick_duration(), Some(Duration::new(0, 1)));
}

#[test]
fn total_is_none_for_a_tick_that_ends_before_it_starts() {
    let mut fps = FpsCounter::new();
    fps.record(Duration::from_millis(10), Duration::from_millis(5));
    assert_eq!(fps.total_tick_duration(), None);
}

#[test]
fn total_is_none_when_the_sum_overflows() {
    let mut fps = FpsCounter::new();
    fps.record(Duration::new(0, 0), Duration::new(u64::MAX, 0));
    fps.record(Duration::new(0, 0), Duration::new(1, 0));
    assert_eq!(fps.total_tick_duration(), None);
}

#[test]
fn empty_counter_has_no_average() {
    let fps = FpsCounter::new();
    assert_eq!(fps.average_tick_duration(), None);
    assert_eq!(fps.total_tick_duration(), Some(Duration::zero()));
    assert_eq!(fps.tick_span(), None);
}

#[test]
fn clear_forgets_every_tick() {
    let mut fps = FpsCounter::new();
    fps.record(Duration::from_millis(1), Duration::from_millis(2));
    fps.record(Duration::from_millis(3), Duration::from_millis(4));

    let ack = fps.handle(Clear {});

    assert_eq!(ack, Ack::new());
    assert_eq!(fps.len(), 0);
    assert_eq!(fps.average_tick_duration(), None);
}

#[test]
fn elapsed_is_end_minus_start() {
    let s = Snapshot { start: Duration::from_millis(50), end: Duration::from_millis(100) };
    assert_eq!(s.elapsed(), Duration::from_millis(50));
}
