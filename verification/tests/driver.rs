use midi_looper::clock::Clock;
use midi_looper::driver::{handle_input, tick, InputOutcome, TickOutcome};
use midi_looper::loop_buffer::{CapacityError, LoopBuffer, LOOP_BUFFER_CAPACITY};
use midi_looper::message::MidiMessage;
use midi_looper::relay::{Full, Relay, RELAY_CAPACITY};

const TAKEN: InputOutcome = InputOutcome { echoed: Ok(()), recorded: Ok(()) };

fn idle_ticks(clock: &mut Clock, buffer: &LoopBuffer, relay: &mut Relay, ticks: u32) {
    for _ in 0..ticks {
        assert_eq!(tick(clock, buffer, relay), TickOutcome::Idle);
    }
}

#[test]
fn tick_advances_the_clock() {
    let mut clock = Clock::new(1000);
    let buffer = LoopBuffer::new();
    let mut relay = Relay::new();
    assert_eq!(tick(&mut clock, &buffer, &mut relay), TickOutcome::Idle);
    assert_eq!(clock.get_current_count_ms(), 1);
    assert_eq!(relay.dequeue(), None);
}

#[test]
fn tick_looks_up_the_position_after_the_advance() {
    let mut clock = Clock::new(1000);
    let mut buffer = LoopBuffer::new();
    let mut relay = Relay::new();
    buffer.insert_message(0, MidiMessage::Start).unwrap();
    buffer.insert_message(1, MidiMessage::Stop).unwrap();
    assert_eq!(
        tick(&mut clock, &buffer, &mut relay),
        TickOutcome::Relayed(MidiMessage::Stop)
    );
    assert_eq!(relay.dequeue(), Some(MidiMessage::Stop));
    assert_eq!(relay.dequeue(), None);
}

#[test]
fn input_is_echoed_and_recorded_at_the_clock_position() {
    let mut clock = Clock::new(1000);
    let mut buffer = LoopBuffer::new();
    let mut relay = Relay::new();
    idle_ticks(&mut clock, &buffer, &mut relay, 250);
    let note = MidiMessage::NoteOn(0, 60, 100);
    assert_eq!(handle_input(&clock, &mut buffer, &mut relay, note), TAKEN);
    assert_eq!(clock.get_current_count_ms(), 250);
    assert_eq!(buffer.get_message(250), Some(&note));
    assert_eq!(buffer.get_message(249), None);
    assert_eq!(buffer.get_message(251), None);
    assert_eq!(relay.dequeue(), Some(note));
    assert_eq!(relay.dequeue(), None);
}

#[test]
fn recorded_event_is_played_back_on_the_next_cycle() {
    let mut clock = Clock::new(1000);
    let mut buffer = LoopBuffer::new();
    let mut relay = Relay::new();
    let note = MidiMessage::NoteOn(0, 60, 100);

    idle_ticks(&mut clock, &buffer, &mut relay, 250);
    assert_eq!(handle_input(&clock, &mut buffer, &mut relay, note), TAKEN);
    assert_eq!(relay.dequeue(), Some(note));

    idle_ticks(&mut clock, &buffer, &mut relay, 1000);
    assert_eq!(clock.get_current_count_ms(), 249);
    assert_eq!(tick(&mut clock, &buffer, &mut relay), TickOutcome::Relayed(note));
    assert_eq!(clock.get_current_count_ms(), 250);
    assert_eq!(relay.dequeue(), Some(MidiMessage::NoteOn(0, 60, 100)));
    assert_eq!(relay.dequeue(), None);
    assert_eq!(buffer.get_message(250), Some(&note));
}

#[test]
fn recorded_event_is_played_back_on_every_cycle() {
    let mut clock = Clock::new(9);
    let mut buffer = LoopBuffer::new();
    let mut relay = Relay::new();
    let note = MidiMessage::NoteOff(3, 48, 0);
    idle_ticks(&mut clock, &buffer, &mut relay, 4);
    assert_eq!(handle_input(&clock, &mut buffer, &mut relay, note), TAKEN);
    assert_eq!(relay.dequeue(), Some(note));
    for _ in 0..5 {
        idle_ticks(&mut clock, &buffer, &mut relay, 9);
        assert_eq!(tick(&mut clock, &buffer, &mut relay), TickOutcome::Relayed(note));
        assert_eq!(relay.dequeue(), Some(note));
        assert_eq!(relay.dequeue(), None);
    }
}

#[test]
fn overdub_replaces_the_event_for_later_cycles() {
    let mut clock = Clock::new(1000);
    let mut buffer = LoopBuffer::new();
    let mut relay = Relay::new();
    let first = MidiMessage::NoteOn(0, 60, 100);
    let second = MidiMessage::NoteOn(0, 67, 80);

    idle_ticks(&mut clock, &buffer, &mut relay, 250);
    assert_eq!(handle_input(&clock, &mut buffer, &mut relay, first), TAKEN);
    assert_eq!(relay.dequeue(), Some(first));

    idle_ticks(&mut clock, &buffer, &mut relay, 1000);
    assert_eq!(tick(&mut clock, &buffer, &mut relay), TickOutcome::Relayed(first));
    assert_eq!(handle_input(&clock, &mut buffer, &mut relay, second), TAKEN);
    assert_eq!(relay.dequeue(), Some(first));
    assert_eq!(relay.dequeue(), Some(second));
    assert_eq!(relay.dequeue(), None);

    idle_ticks(&mut clock, &buffer, &mut relay, 1000);
    assert_eq!(tick(&mut clock, &buffer, &mut relay), TickOutcome::Relayed(second));
    assert_eq!(relay.dequeue(), Some(second));
    assert_eq!(relay.dequeue(), None);
    assert_eq!(buffer.get_message(250), Some(&second));
}

#[test]
fn due_event_is_dropped_when_the_relay_is_full() {
    let mut clock = Clock::new(3);
    let mut buffer = LoopBuffer::new();
    let mut relay = Relay::new();
    buffer.insert_message(1, MidiMessage::Start).unwrap();
    for _ in 0..RELAY_CAPACITY {
        relay.enqueue(MidiMessage::TimingClock).unwrap();
    }
    assert_eq!(
        tick(&mut clock, &buffer, &mut relay),
        TickOutcome::Dropped(MidiMessage::Start)
    );
    assert_eq!(clock.get_current_count_ms(), 1);
    assert_eq!(buffer.get_message(1), Some(&MidiMessage::Start));
    for _ in 0..RELAY_CAPACITY {
        assert_eq!(relay.dequeue(), Some(MidiMessage::TimingClock));
    }
    assert_eq!(relay.dequeue(), None);
}

#[test]
fn dropped_event_is_played_back_once_there_is_room() {
    let mut clock = Clock::new(3);
    let mut buffer = LoopBuffer::new();
    let mut relay = Relay::new();
    buffer.insert_message(1, MidiMessage::Start).unwrap();
    for _ in 0..RELAY_CAPACITY {
        relay.enqueue(MidiMessage::TimingClock).unwrap();
    }
    assert_eq!(
        tick(&mut clock, &buffer, &mut relay),
        TickOutcome::Dropped(MidiMessage::Start)
    );
    while relay.dequeue().is_some() {}
    idle_ticks(&mut clock, &buffer, &mut relay, 3);
    assert_eq!(
        tick(&mut clock, &buffer, &mut relay),
        TickOutcome::Relayed(MidiMessage::Start)
    );
}

#[test]
fn input_is_recorded_even_when_the_relay_is_full() {
    let clock = Clock::new(1000);
    let mut buffer = LoopBuffer::new();
    let mut relay = Relay::new();
    for _ in 0..RELAY_CAPACITY {
        relay.enqueue(MidiMessage::TimingClock).unwrap();
    }
    let note = MidiMessage::NoteOn(0, 60, 100);
    assert_eq!(
        handle_input(&clock, &mut buffer, &mut relay, note),
        InputOutcome { echoed: Err(Full), recorded: Ok(()) }
    );
    assert_eq!(buffer.get_message(0), Some(&note));
    for _ in 0..RELAY_CAPACITY {
        assert_eq!(relay.dequeue(), Some(MidiMessage::TimingClock));
    }
    assert_eq!(relay.dequeue(), None);
}

#[test]
fn input_is_echoed_even_when_the_buffer_is_at_capacity() {
    let clock = Clock::new(1000);
    let mut buffer = LoopBuffer::new();
    let mut relay = Relay::new();
    for time_ms in 1..=LOOP_BUFFER_CAPACITY as u32 {
        buffer.insert_message(time_ms, MidiMessage::TimingClock).unwrap();
    }
    let note = MidiMessage::NoteOn(0, 60, 100);
    assert_eq!(
        handle_input(&clock, &mut buffer, &mut relay, note),
        InputOutcome { echoed: Ok(()), recorded: Err(CapacityError) }
    );
    assert_eq!(buffer.get_message(0), None);
    assert_eq!(relay.dequeue(), Some(note));
}

#[test]
fn input_that_finds_both_full_changes_nothing() {
    let clock = Clock::new(1000);
    let mut buffer = LoopBuffer::new();
    let mut relay = Relay::new();
    for time_ms in 1..=LOOP_BUFFER_CAPACITY as u32 {
        buffer.insert_message(time_ms, MidiMessage::TimingClock).unwrap();
    }
    for _ in 0..RELAY_CAPACITY {
        relay.enqueue(MidiMessage::ActiveSensing).unwrap();
    }
    assert_eq!(
        handle_input(&clock, &mut buffer, &mut relay, MidiMessage::Reset),
        InputOutcome { echoed: Err(Full), recorded: Err(CapacityError) }
    );
    assert_eq!(buffer.get_message(0), None);
    for _ in 0..RELAY_CAPACITY {
        assert_eq!(relay.dequeue(), Some(MidiMessage::ActiveSensing));
    }
    assert_eq!(relay.dequeue(), None);
}

#[test]
fn overdub_on_a_buffer_at_capacity_still_replaces() {
    let clock = Clock::new(1000);
    let mut buffer = LoopBuffer::new();
    let mut relay = Relay::new();
    for time_ms in 0..LOOP_BUFFER_CAPACITY as u32 {
        buffer.insert_message(time_ms, MidiMessage::TimingClock).unwrap();
    }
    let note = MidiMessage::NoteOn(0, 60, 100);
    assert_eq!(handle_input(&clock, &mut buffer, &mut relay, note), TAKEN);
    assert_eq!(buffer.get_message(0), Some(&note));
}
