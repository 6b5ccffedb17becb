use midi_looper::clock::Clock;

fn advance(clock: &mut Clock, ticks: u32) {
    for _ in 0..ticks {
        clock.increment();
    }
}

#[test]
fn new_clock_starts_at_zero() {
    let clock = Clock::new(1500);
    assert_eq!(clock.get_current_count_ms(), 0);
}

#[test]
fn increment_moves_one_millisecond() {
    let mut clock = Clock::new(1500);
    clock.increment();
    assert_eq!(clock.get_current_count_ms(), 1);
    clock.increment();
    assert_eq!(clock.get_current_count_ms(), 2);
}

#[test]
fn reading_the_clock_does_not_move_it() {
    let mut clock = Clock::new(10);
    advance(&mut clock, 4);
    assert_eq!(clock.get_current_count_ms(), 4);
    assert_eq!(clock.get_current_count_ms(), 4);
}

#[test]
fn position_reaches_the_loop_length() {
    let mut clock = Clock::new(5);
    for expected in 1..=5u32 {
        clock.increment();
        assert_eq!(clock.get_current_count_ms(), expected);
    }
}

#[test]
fn clock_wraps_to_zero_after_the_loop_length() {
    let mut clock = Clock::new(5);
    advance(&mut clock, 5);
    assert_eq!(clock.get_current_count_ms(), 5);
    clock.increment();
    assert_eq!(clock.get_current_count_ms(), 0);
}

#[test]
fn wraparound_takes_loop_length_plus_one_ticks() {
    for loop_length in [0u32, 1, 2, 3, 7, 64, 1000, 1500] {
        let mut clock = Clock::new(loop_length);
        for tick in 1..=loop_length {
            clock.increment();
            assert_eq!(clock.get_current_count_ms(), tick);
        }
        clock.increment();
        assert_eq!(clock.get_current_count_ms(), 0);
    }
}

#[test]
fn position_is_ticks_modulo_cycle_length() {
    let mut clock = Clock::new(9);
    for ticks in 1..=100u32 {
        clock.increment();
        assert_eq!(clock.get_current_count_ms(), ticks % 10);
    }
}

#[test]
fn a_full_cycle_returns_to_the_same_position() {
    let mut clock = Clock::new(1000);
    advance(&mut clock, 250);
    assert_eq!(clock.get_current_count_ms(), 250);
    advance(&mut clock, 1001);
    assert_eq!(clock.get_current_count_ms(), 250);
    advance(&mut clock, 1001);
    assert_eq!(clock.get_current_count_ms(), 250);
}

#[test]
fn zero_length_clock_stays_at_zero() {
    let mut clock = Clock::new(0);
    for _ in 0..5 {
        clock.increment();
        assert_eq!(clock.get_current_count_ms(), 0);
    }
}

#[test]
fn longest_clock_counts_without_overflow() {
    let mut clock = Clock::new(u32::MAX);
    advance(&mut clock, 3);
    assert_eq!(clock.get_current_count_ms(), 3);
}
