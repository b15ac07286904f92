use request_executor::timing::{estimate_connect, TimingBreakdown};

#[test]
fn twenty_ms_window_splits_eight_and_twelve() {
    let timing = TimingBreakdown::measured(20, 0, 20);
    assert_eq!(timing.connect, 8);
    assert_eq!(timing.ttfb, 12);
}

#[test]
fn five_ms_window_has_no_connect_share() {
    let timing = TimingBreakdown::measured(5, 0, 5);
    assert_eq!(timing.connect, 0);
    assert_eq!(timing.ttfb, 5);
}

#[test]
fn ten_ms_window_is_still_instant() {
    let timing = TimingBreakdown::measured(10, 2, 12);
    assert_eq!(timing, TimingBreakdown { connect: 0, ttfb: 10, download: 2, total: 12 });
}

#[test]
fn eleven_ms_window_rounds_connect_down() {
    let timing = TimingBreakdown::measured(11, 0, 11);
    assert_eq!(timing.connect, 4);
    assert_eq!(timing.ttfb, 7);
}

#[test]
fn shares_add_up_to_the_window() {
    let windows: Vec<u128> = vec![0, 1, 9, 10, 11, 12, 99, 100, 101, 250, 1234, 29_999, 60_000];
    for window in windows {
        let timing = TimingBreakdown::measured(window, 3, window + 3);
        assert_eq!(timing.connect + timing.ttfb, window);
        assert_eq!(timing.download, 3);
        assert_eq!(timing.total, window + 3);
        assert!(timing.total >= timing.ttfb + timing.download);
    }
}

#[test]
fn estimate_is_forty_percent_rounded_down() {
    assert_eq!(estimate_connect(0), 0);
    assert_eq!(estimate_connect(10), 0);
    assert_eq!(estimate_connect(11), 4);
    assert_eq!(estimate_connect(13), 5);
    assert_eq!(estimate_connect(100), 40);
    assert_eq!(estimate_connect(199), 79);
    assert_eq!(estimate_connect(1000), 400);
}

#[test]
fn estimate_does_not_overflow_on_the_largest_window() {
    let window = u128::MAX;
    let expected = window / 100 * 40 + (window % 100) * 40 / 100;
    assert_eq!(estimate_connect(window), expected);
    let timing = TimingBreakdown::measured(window, 0, window);
    assert_eq!(timing.connect + timing.ttfb, window);
}

#[test]
fn failed_timing_keeps_only_the_total() {
    let timing = TimingBreakdown::failed(30_000);
    assert_eq!(timing, TimingBreakdown { connect: 0, ttfb: 0, download: 0, total: 30_000 });
}

#[test]
fn default_timing_is_all_zero() {
    let timing = TimingBreakdown::default();
    assert_eq!(timing, TimingBreakdown { connect: 0, ttfb: 0, download: 0, total: 0 });
}
