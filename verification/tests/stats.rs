use netfolder::stats::{RealtimeStats, Unit, SECOND};

#[test]
fn new_stats_hold_the_initial_sample() {
    let mut stats = RealtimeStats::new();
    assert_eq!(stats.get_bytes(), 0);
    assert_eq!(stats.get_size(), 0);
    assert_eq!(stats.get_measures(), vec![(0, 0)]);
    assert_eq!(SECOND, 1_000_000_000);
    assert_eq!(stats._get_speed(), (0, SECOND));
    assert_eq!(stats.get_measures(), vec![(0, 0)]);
}

#[test]
fn size_is_set_once() {
    let mut stats = RealtimeStats::new();
    stats.set_size(4832);
    assert_eq!(stats.get_size(), 4832);
    stats.set_size(99);
    assert_eq!(stats.get_size(), 4832);
    let mut stats = RealtimeStats::new();
    stats.set_size(0);
    stats.set_size(7);
    assert_eq!(stats.get_size(), 7);
}

#[test]
fn record_samples_the_bytes_before_the_addition() {
    let mut stats = RealtimeStats::new();
    stats.record(10, 493);
    stats.record(20, 493);
    stats.record(30, 14);
    assert_eq!(stats.get_bytes(), 1000);
    assert_eq!(stats.get_measures(), vec![(0, 0), (10, 0), (20, 493), (30, 986)]);
}

#[test]
fn record_never_goes_back_in_time() {
    let mut stats = RealtimeStats::new();
    stats.record(50, 1);
    stats.record(40, 1);
    assert_eq!(stats.get_measures(), vec![(0, 0), (50, 0), (50, 1)]);
}

#[test]
fn speed_is_taken_over_the_last_second() {
    let mut stats = RealtimeStats::new();
    stats.record(5, 10);
    stats.record(2_000_000_000, 20);
    stats.record(2_500_000_000, 30);
    assert_eq!(stats._get_speed(), (20, 500_000_000));
    assert_eq!(stats.get_measures(), vec![(2_000_000_000, 10), (2_500_000_000, 30)]);
    assert_eq!(stats.get_bytes(), 60);
    assert_eq!(stats._get_speed(), (20, 500_000_000));
}

#[test]
fn speed_of_a_short_transfer_counts_from_the_start() {
    let mut stats = RealtimeStats::new();
    stats.record(100, 493);
    stats.record(900_000_000, 493);
    assert_eq!(stats._get_speed(), (493, 900_000_000));
    assert_eq!(stats.get_measures().len(), 3);
}

#[test]
fn speed_is_nothing_while_the_newest_sample_is_the_initial_one() {
    let mut stats = RealtimeStats::new();
    stats.record(0, 100);
    assert_eq!(stats.get_measures(), vec![(0, 0), (0, 0)]);
    assert_eq!(stats._get_speed(), (0, SECOND));
}

#[test]
fn add_bytes_counts_and_samples() {
    let mut stats = RealtimeStats::new();
    stats.add_bytes(493);
    stats.add_bytes(7);
    assert_eq!(stats.get_bytes(), 500);
    let measures = stats.get_measures();
    assert_eq!(measures.len(), 3);
    assert_eq!(measures[1].1, 0);
    assert_eq!(measures[2].1, 493);
    assert!(measures[1].0 <= measures[2].0);
    let (bytes, nanos) = stats._get_speed();
    assert_eq!(bytes, 493);
    assert!(nanos <= measures[2].0);
}

#[test]
fn rate_is_shown_in_the_largest_unit_it_exceeds() {
    let cases = [
        (0usize, Unit::Bits, 1usize, "b"),
        (1000, Unit::Bits, 1, "b"),
        (1001, Unit::Kilobits, 1000, "Kb"),
        (1000000, Unit::Kilobits, 1000, "Kb"),
        (1000001, Unit::Megabits, 1000000, "Mb"),
        (1000000000, Unit::Megabits, 1000000, "Mb"),
        (1000000001, Unit::Gigabits, 1000000000, "Gb"),
        (usize::MAX, Unit::Gigabits, 1000000000, "Gb"),
    ];
    for (bits, unit, scale, name) in cases.iter() {
        assert_eq!(Unit::of(*bits), *unit);
        assert_eq!(unit.scale(), *scale);
        assert_eq!(unit.name(), *name);
    }
}
