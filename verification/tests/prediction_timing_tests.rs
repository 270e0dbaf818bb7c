use ddnet_client::prediction_timing::PredictionTiming;
use ddnet_client::prediction_timing2::PredictionTiming as PredictionTiming2;

const MS: u128 = 1_000_000;

#[test]
fn first_ping_is_max_min_and_average() {
    let t = PredictionTiming::new(30 * MS, 5);
    assert_eq!(t.max(), 30 * MS);
    assert_eq!(t.min(), 30 * MS);
    assert_eq!(t.average(), 30 * MS);
}

#[test]
fn pings_of_one_second_are_combined() {
    let mut t = PredictionTiming::new(30 * MS, 5);
    t.add(50 * MS, 5);
    t.add(10 * MS, 5);
    assert_eq!(t.max(), 50 * MS);
    assert_eq!(t.min(), 10 * MS);
    assert_eq!(t.average(), 30 * MS);
}

#[test]
fn average_is_the_mean_of_the_seconds() {
    let mut t = PredictionTiming::new(20 * MS, 1);
    t.add(40 * MS, 2);
    assert_eq!(t.average(), 30 * MS);
    assert_eq!(t.max(), 40 * MS);
    assert_eq!(t.min(), 20 * MS);
}

#[test]
fn old_seconds_are_forgotten() {
    let mut t = PredictionTiming::new(90 * MS, 1);
    t.add(20 * MS, 11);
    assert_eq!(t.max(), 20 * MS);
    assert_eq!(t.min(), 20 * MS);
    let mut t = PredictionTiming::new(90 * MS, 1);
    t.add(20 * MS, 10);
    assert_eq!(t.max(), 90 * MS);
}

#[test]
fn pings_from_the_past_count_for_the_current_second() {
    let mut t = PredictionTiming::new(10 * MS, 7);
    t.add(70 * MS, 3);
    assert_eq!(t.max(), 70 * MS);
    assert_eq!(t.average(), 40 * MS);
}

#[test]
fn max_frametime_adds_the_margin() {
    let mut t = PredictionTiming::new(10 * MS, 1);
    assert_eq!(t.max_frametime(), MS);
    t.add_frametime(16 * MS, 1);
    t.add_frametime(5 * MS, 1);
    assert_eq!(t.max_frametime(), 17 * MS);
    t.add_frametime(4 * MS, 2);
    assert_eq!(t.max_frametime(), 17 * MS);
    t.add_frametime(3 * MS, 4);
    assert_eq!(t.max_frametime(), 17 * MS);
    t.add_frametime(3 * MS, 11);
    assert_eq!(t.max_frametime(), 5 * MS);
}

#[test]
fn only_pings_of_the_last_ten_seconds_count() {
    let mut t = PredictionTiming::new(500 * MS, 0);
    t.add(10 * MS, 5);
    t.add(20 * MS, 12);
    assert_eq!(t.max(), 20 * MS);
    assert_eq!(t.min(), 10 * MS);
    assert_eq!(t.average(), 15 * MS);
}

#[test]
fn frame_times_of_the_last_ten_seconds_count() {
    let mut t = PredictionTiming::new(10 * MS, 0);
    t.add_frametime(5 * MS, 0);
    t.add_frametime(MS, 3);
    assert_eq!(t.max_frametime(), 6 * MS);
    t.add_frametime(MS, 10);
    assert_eq!(t.max_frametime(), 2 * MS);
}

#[test]
fn jitter_widens_the_window() {
    let mut t = PredictionTiming2::new(10 * MS, 1);
    assert_eq!(t.calc_farsight_of_jitter(), 10);
    assert_eq!(t.calc_snap_farsight_of_jitter(), 1_000 * MS);
    t.add_ping(40 * MS, 1);
    t.add_ping(11 * MS, 2);
    // the finished second spread from 10 ms to 40 ms
    assert_eq!(t.calc_farsight_of_jitter(), 300);
    assert_eq!(t.calc_snap_farsight_of_jitter(), 7_000 * MS);
    assert_eq!(t.ping_max(), 40 * MS);
    assert_eq!(t.ping_min(), 10 * MS);
}

#[test]
fn average_divides_by_all_kept_seconds() {
    let mut t = PredictionTiming2::new(20 * MS, 1);
    t.add_ping(40 * MS, 2);
    assert_eq!(t.ping_average(), 30 * MS);
    assert_eq!(t.max_frametime(), MS);
}
