use voice_recorder::clock::{nanos_from, Clock};

#[test]
fn measured_nanoseconds_are_held_at_the_largest_reading() {
    assert_eq!(nanos_from(0), 0);
    assert_eq!(nanos_from(1_000_000_000), 1_000_000_000);
    assert_eq!(nanos_from(u128::from(u64::MAX) - 1), u64::MAX - 1);
    assert_eq!(nanos_from(u128::from(u64::MAX)), u64::MAX);
    assert_eq!(nanos_from(u128::from(u64::MAX) + 1), u64::MAX);
    assert_eq!(nanos_from(u128::MAX), u64::MAX);
}

#[test]
fn clock_starts_near_zero_and_never_runs_backwards() {
    let clock = Clock::start();
    let first = clock.now();
    let second = clock.now();
    assert!(first <= second);
    assert!(first < 60_000_000_000);
}

#[test]
fn copies_of_a_clock_count_from_the_same_moment() {
    let clock = Clock::start();
    let copy = clock;
    let early = clock.now();
    let late = copy.now();
    assert!(early <= late);
}
