use ray_marcher::frame_timer::{FrameStats, FrameTimer, DURATION_MAX_NANOS};

const MS: u128 = 1_000_000;

#[test]
fn window_keeps_newest_frames() {
    let mut timer = FrameTimer::new(3);
    let s = timer.record_frame(10 * MS).unwrap();
    assert_eq!(s.samples(), 1);
    assert_eq!(s.total_nanos(), 10 * MS);
    timer.record_frame(20 * MS).unwrap();
    timer.record_frame(30 * MS).unwrap();
    let s = timer.record_frame(40 * MS).unwrap();
    assert_eq!(s.samples(), 3);
    assert_eq!(s.total_nanos(), 90 * MS);
    assert_eq!(s.min_nanos(), 20 * MS);
    assert_eq!(s.max_nanos(), 40 * MS);
}

#[test]
fn zero_buffer_size_keeps_one_frame() {
    let mut timer = FrameTimer::new(0);
    timer.record_frame(5 * MS).unwrap();
    let s = timer.record_frame(7 * MS).unwrap();
    assert_eq!(s.samples(), 1);
    assert_eq!(s.total_nanos(), 7 * MS);
    assert_eq!(s.min_nanos(), 7 * MS);
    assert_eq!(s.max_nanos(), 7 * MS);
}

#[test]
fn report_line() {
    let mut timer = FrameTimer::new(30);
    timer.record_frame(10 * MS).unwrap();
    timer.record_frame(20 * MS + 999_999).unwrap();
    let s = timer.record_frame(40 * MS).unwrap();
    assert_eq!(s.to_string(), "Frame time: 23ms (min: 10ms, max: 40ms)");
}

#[test]
fn report_of_single_frame() {
    let s = FrameStats::from_frame(1_500_000);
    assert_eq!(s.samples(), 1);
    assert_eq!(s.to_string(), "Frame time: 1ms (min: 1ms, max: 1ms)");
    let s = FrameStats::from_frame(0);
    assert_eq!(s.to_string(), "Frame time: 0ms (min: 0ms, max: 0ms)");
}

#[test]
fn total_beyond_a_duration_gives_no_stats() {
    let mut timer = FrameTimer::new(2);
    assert!(timer.record_frame(DURATION_MAX_NANOS).is_some());
    assert!(timer.record_frame(1).is_none());
    // The oversized frame leaves the window once the capacity is reached.
    let s = timer.record_frame(3).unwrap();
    assert_eq!(s.samples(), 2);
    assert_eq!(s.total_nanos(), 4);
}

#[test]
fn mark_frame_measures_the_clock() {
    let mut timer = FrameTimer::new(4);
    let s = timer.mark_frame().unwrap();
    assert_eq!(s.samples(), 1);
    let s = timer.mark_frame().unwrap();
    assert_eq!(s.samples(), 2);
    assert!(s.min_nanos() <= s.max_nanos());
    assert!(s.min_nanos() * 2 <= s.total_nanos());
    assert!(s.total_nanos() <= s.max_nanos() * 2);
}

#[test]
fn average_lies_between_min_and_max() {
    let mut timer = FrameTimer::new(5);
    let mut last = None;
    for t in [3u128, 9, 1, 7, 7, 2] {
        last = timer.record_frame(t);
    }
    let s = last.unwrap();
    let n = s.samples() as u128;
    assert_eq!(n, 5);
    assert_eq!(s.total_nanos(), 26);
    assert!(n * s.min_nanos() <= s.total_nanos());
    assert!(s.total_nanos() <= n * s.max_nanos());
}

#[test]
fn window_length_after_many_frames() {
    for capacity in [0usize, 1, 3] {
        let mut timer = FrameTimer::new(capacity);
        for k in 1..=6usize {
            let s = timer.record_frame(k as u128).unwrap();
            assert_eq!(s.samples(), k.min(capacity.max(1)));
            assert_eq!(s.max_nanos(), k as u128);
        }
    }
}

#[test]
fn mark_frame_measures_time_since_previous_mark() {
    let mut timer = FrameTimer::new(4);
    timer.mark_frame().unwrap();
    let start = std::time::Instant::now();
    while start.elapsed() < std::time::Duration::from_millis(3) {}
    let s = timer.mark_frame().unwrap();
    assert!(s.max_nanos() >= 3 * MS);
    assert!(s.max_nanos() < 10_000 * MS);
}
