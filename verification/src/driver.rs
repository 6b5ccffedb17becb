//! What happens on a timer tick and on an incoming message.
//!
//! The tick driver advances the clock and relays the event that is due at the
//! new position. The input handler relays an incoming message at once, as a
//! live echo, and records it at the clock's position for the cycles to come.
//! Neither ever waits: an event that finds the relay full, or the loop buffer
//! at capacity, is dropped, and the caller is told.

use crate::clock::{lemma_cycle_returns_to_position, next_position, position_after, Clock};
use crate::loop_buffer::{
    lookup, record, rejects, CapacityError, LoopBuffer, Timeline, LOOP_BUFFER_CAPACITY,
};
use crate::message::{copy_midi_message, MidiMessage};
use crate::relay::{enqueued, is_full, Full, Relay, RELAY_CAPACITY};
use vstd::prelude::*;

verus! {

/// What a timer tick did with the event that was due at the new position.
#[derive(Clone, Copy, Debug, PartialEq, Eq, Structural)]
pub enum TickOutcome {
    /// No event is recorded at the position.
    Idle,
    /// The event recorded at the position went into the relay.
    Relayed(MidiMessage),
    /// The event recorded at the position found the relay full and was
    /// dropped for this cycle.
    Dropped(MidiMessage),
}

/// What became of an incoming message: whether it was relayed as a live
/// echo, and whether it was recorded.
#[derive(Clone, Copy, Debug, PartialEq, Eq)]
pub struct InputOutcome {
    /// `Err` where the relay was full and the echo was dropped.
    pub echoed: Result<(), Full>,
    /// `Err` where the loop buffer turned the event down.
    pub recorded: Result<(), CapacityError>,
}

/// What a tick reports when it has brought the clock to `position`: nothing
/// was due, or the due event was relayed, or it was due and the relay was
/// full.
pub open spec fn playback(
    pending: Seq<MidiMessage>,
    timeline: Timeline,
    position: nat,
) -> TickOutcome {
    match lookup(timeline, position as u32) {
        None => TickOutcome::Idle,
        Some(message) => if is_full(pending) {
            TickOutcome::Dropped(message)
        } else {
            TickOutcome::Relayed(message)
        },
    }
}

/// The pending events after a tick that has brought the clock to
/// `position`: the event due there, if any, stands at the tail, unless the
/// relay was full.
pub open spec fn pending_after_tick(
    pending: Seq<MidiMessage>,
    timeline: Timeline,
    position: nat,
) -> Seq<MidiMessage> {
    match lookup(timeline, position as u32) {
        None => pending,
        Some(message) => enqueued(pending, message),
    }
}

/// An event that was recorded at a position is played back by a tick that
/// brings the clock to that position: a message equal to the recorded one
/// goes to the tail of the relay. This holds where the loop buffer takes the
/// event and the relay has room at the tick.
pub proof fn lemma_recorded_event_is_played_back(
    timeline: Timeline,
    pending: Seq<MidiMessage>,
    position: u32,
    message: MidiMessage,
)
    requires
        !rejects(timeline, position),
        !is_full(pending),
    ensures
        playback(pending, record(timeline, position, message), position as nat)
            == TickOutcome::Relayed(message),
        pending_after_tick(pending, record(timeline, position, message), position as nat)
            == pending.push(message),
{
}

/// Overdub: where a second event is recorded at a position at which a first
/// one was recorded before, a tick that brings the clock to that position
/// plays back the second and not the first.
pub proof fn lemma_overdub_replaces_playback(
    timeline: Timeline,
    pending: Seq<MidiMessage>,
    position: u32,
    first: MidiMessage,
    second: MidiMessage,
)
    requires
        !rejects(timeline, position),
        !is_full(pending),
    ensures
        playback(
            pending,
            record(record(timeline, position, first), position, second),
            position as nat,
        ) == TickOutcome::Relayed(second),
        pending_after_tick(
            pending,
            record(record(timeline, position, first), position, second),
            position as nat,
        ) == pending.push(second),
{
}

/// Record and replay: an event recorded while the clock stands at a position
/// is due again exactly one cycle later. After `loop_length + 1` ticks the
/// clock is back at that position, and the tick that brings it there plays
/// the recorded message back, where the relay has room for it.
pub proof fn lemma_played_back_one_cycle_later(
    timeline: Timeline,
    pending: Seq<MidiMessage>,
    loop_length: u32,
    position: u32,
    message: MidiMessage,
)
    requires
        position <= loop_length,
        !rejects(timeline, position),
        !is_full(pending),
    ensures
        position_after(position as nat, loop_length as nat, loop_length as nat + 1) == position,
        playback(
            pending,
            record(timeline, position, message),
            position_after(position as nat, loop_length as nat, loop_length as nat + 1),
        ) == TickOutcome::Relayed(message),
{
    lemma_cycle_returns_to_position(position as nat, loop_length as nat, 0);
}

/// One timer tick: advances `clock` by a millisecond and, where the loop
/// buffer holds an event at the new position, puts a copy of it into the
/// relay. The loop buffer is only read.
///
/// An event that is due while the relay is full is dropped for this cycle
/// and stays in the loop buffer.
pub fn tick(clock: &mut Clock, loop_buffer: &LoopBuffer, relay: &mut Relay) -> (played: TickOutcome)
    ensures
        final(clock).loop_length() == old(clock).loop_length(),
        final(clock).position() == next_position(old(clock).position(), old(clock).loop_length()),
        played == playback(old(relay)@, loop_buffer@, final(clock).position()),
        final(relay)@ == pending_after_tick(old(relay)@, loop_buffer@, final(clock).position()),
{
    clock.increment();
    let now: u32 = clock.get_current_count_ms();
    match loop_buffer.get_message(now) {
        Some(message) => {
            let copy = copy_midi_message(message);
            match relay.enqueue(copy) {
                Ok(()) => TickOutcome::Relayed(copy),
                Err(_) => TickOutcome::Dropped(copy),
            }
        },
        None => TickOutcome::Idle,
    }
}

/// One incoming message: puts a copy of it into the relay for the live
/// echo, and records it in the loop buffer at the clock's position, in place
/// of an event recorded there earlier. The clock is only read.
///
/// The two steps do not depend on each other: a message that finds the
/// relay full is still recorded, and one that the loop buffer turns down is
/// still echoed. The outcome tells which of the two took place.
pub fn handle_input(
    clock: &Clock,
    loop_buffer: &mut LoopBuffer,
    relay: &mut Relay,
    message: MidiMessage,
) -> (outcome: InputOutcome)
    ensures
        outcome.echoed.is_err() <==> is_full(old(relay)@),
        outcome.recorded.is_err() <==> rejects(old(loop_buffer)@, clock.position() as u32),
        final(relay)@ == enqueued(old(relay)@, message),
        final(loop_buffer)@ == record(old(loop_buffer)@, clock.position() as u32, message),
        final(relay)@.len() <= RELAY_CAPACITY,
        final(loop_buffer)@.dom().finite(),
        final(loop_buffer)@.dom().len() <= LOOP_BUFFER_CAPACITY,
{
    let echoed = relay.enqueue(copy_midi_message(&message));
    let now: u32 = clock.get_current_count_ms();
    let recorded = loop_buffer.insert_message(now, message);
    InputOutcome { echoed, recorded }
}

} // verus!
