//! The bounded store of recorded events, keyed by loop-relative timestamp.
//!
//! The store is a `heapless::FnvIndexMap` of fixed capacity. Its contents are
//! modelled as a [`Timeline`], and everything the buffer promises is stated
//! over that model.

use crate::message::MidiMessage;
use vstd::prelude::*;

verus! {

/// The number of timestamps that a [`LoopBuffer`] can hold events for.
pub const LOOP_BUFFER_CAPACITY: usize = 512;

/// Recorded events, each under its loop-relative timestamp in milliseconds.
pub type Timeline = Map<u32, MidiMessage>;

/// The buffer was full and the timestamp held no event that could be
/// replaced.
#[derive(Clone, Copy, Debug, PartialEq, Eq, Structural)]
pub struct CapacityError;

/// Whether recording at `time_ms` is turned down: the timeline is at capacity
/// and holds nothing at `time_ms` that the new event could replace.
pub open spec fn rejects(timeline: Timeline, time_ms: u32) -> bool {
    !timeline.dom().contains(time_ms) && timeline.dom().len() >= LOOP_BUFFER_CAPACITY
}

/// The timeline after an attempt to record `message` at `time_ms`: the event
/// stands at `time_ms` in place of whatever stood there, or, where recording
/// is turned down, nothing has changed.
pub open spec fn record(timeline: Timeline, time_ms: u32, message: MidiMessage) -> Timeline {
    if rejects(timeline, time_ms) {
        timeline
    } else {
        timeline.insert(time_ms, message)
    }
}

/// The event recorded at `time_ms`, if there is one.
pub open spec fn lookup(timeline: Timeline, time_ms: u32) -> Option<MidiMessage> {
    if timeline.dom().contains(time_ms) {
        Some(timeline[time_ms])
    } else {
        None
    }
}

/// The timeline after attempts to record each of `events` in turn, first to
/// last. Each event is a timestamp and the message that arrived at it.
pub open spec fn record_all(timeline: Timeline, events: Seq<(u32, MidiMessage)>) -> Timeline
    decreases events.len(),
{
    if events.len() == 0 {
        timeline
    } else {
        record(record_all(timeline, events.drop_last()), events.last().0, events.last().1)
    }
}

/// Whether no two of `events` share a timestamp.
pub open spec fn timestamps_distinct(events: Seq<(u32, MidiMessage)>) -> bool {
    forall|i: int, j: int| 0 <= i < j < events.len() ==> events[i].0 != events[j].0
}

/// Last write wins: of two events recorded one after the other at the same
/// timestamp, the second is the one that a lookup finds, and the timeline is
/// what it would be had the first never arrived. This holds wherever the
/// timestamp can be recorded at; a full timeline without an event at that
/// timestamp turns both events down.
pub proof fn lemma_last_write_wins(
    timeline: Timeline,
    time_ms: u32,
    first: MidiMessage,
    second: MidiMessage,
)
    requires
        !rejects(timeline, time_ms),
    ensures
        lookup(record(record(timeline, time_ms, first), time_ms, second), time_ms) == Some(second),
        record(record(timeline, time_ms, first), time_ms, second) == record(
            timeline,
            time_ms,
            second,
        ),
{
    assert(timeline.insert(time_ms, first).insert(time_ms, second) =~= timeline.insert(
        time_ms,
        second,
    ));
}

/// Recording at one timestamp leaves what is stored at every other timestamp
/// as it was.
pub proof fn lemma_record_keeps_other_timestamps(
    timeline: Timeline,
    time_ms: u32,
    message: MidiMessage,
    other_ms: u32,
)
    requires
        other_ms != time_ms,
    ensures
        lookup(record(timeline, time_ms, message), other_ms) == lookup(timeline, other_ms),
{
}

/// A lookup at a timestamp at which nothing was ever recorded finds nothing:
/// events recorded at other timestamps do not change what a lookup at
/// `time_ms` finds, and in a timeline that started out empty it finds
/// nothing.
pub proof fn lemma_unrecorded_timestamp_is_absent(
    timeline: Timeline,
    events: Seq<(u32, MidiMessage)>,
    time_ms: u32,
)
    requires
        forall|i: int| 0 <= i < events.len() ==> events[i].0 != time_ms,
    ensures
        lookup(record_all(timeline, events), time_ms) == lookup(timeline, time_ms),
        lookup(record_all(Timeline::empty(), events), time_ms) is None,
    decreases events.len(),
{
    if events.len() > 0 {
        lemma_unrecorded_timestamp_is_absent(timeline, events.drop_last(), time_ms);
        lemma_unrecorded_timestamp_is_absent(Timeline::empty(), events.drop_last(), time_ms);
    }
}

/// Events at pairwise distinct timestamps, no more of them than the buffer
/// has capacity for, are all recorded when they arrive at an empty timeline:
/// none is turned down, the timeline then holds one entry for each, and a
/// lookup at an event's timestamp finds that event.
pub proof fn lemma_distinct_events_are_all_recorded(events: Seq<(u32, MidiMessage)>)
    requires
        timestamps_distinct(events),
        events.len() <= LOOP_BUFFER_CAPACITY,
    ensures
        record_all(Timeline::empty(), events).dom().finite(),
        record_all(Timeline::empty(), events).dom().len() == events.len(),
        forall|i: int|
            0 <= i < events.len() ==> lookup(
                record_all(Timeline::empty(), events),
                #[trigger] events[i].0,
            ) == Some(events[i].1),
    decreases events.len(),
{
    if events.len() > 0 {
        let earlier = events.drop_last();
        lemma_distinct_events_are_all_recorded(earlier);
        lemma_unrecorded_timestamp_is_absent(Timeline::empty(), earlier, events.last().0);
        assert forall|i: int| 0 <= i < events.len() implies lookup(
            record_all(Timeline::empty(), events),
            #[trigger] events[i].0,
        ) == Some(events[i].1) by {
            if i < events.len() - 1 {
                assert(events[i] == earlier[i]);
            }
        }
    }
}

/// The capacity boundary: when events at pairwise distinct timestamps
/// arrive at an empty timeline, one more of them than the buffer has capacity
/// for, each of the first [`LOOP_BUFFER_CAPACITY`] is recorded, and the one
/// after them is the first to be turned down.
pub proof fn lemma_capacity_boundary(events: Seq<(u32, MidiMessage)>)
    requires
        timestamps_distinct(events),
        events.len() == LOOP_BUFFER_CAPACITY + 1,
    ensures
        forall|k: int|
            0 <= k < LOOP_BUFFER_CAPACITY ==> !rejects(
                record_all(Timeline::empty(), #[trigger] events.take(k)),
                events[k].0,
            ),
        rejects(
            record_all(Timeline::empty(), events.take(LOOP_BUFFER_CAPACITY as int)),
            events[LOOP_BUFFER_CAPACITY as int].0,
        ),
{
    assert forall|k: int| 0 <= k <= LOOP_BUFFER_CAPACITY implies ({
        &&& record_all(Timeline::empty(), #[trigger] events.take(k)).dom().len() == k
        &&& !record_all(Timeline::empty(), events.take(k)).dom().contains(events[k].0)
    }) by {
        lemma_distinct_events_are_all_recorded(events.take(k));
        lemma_unrecorded_timestamp_is_absent(Timeline::empty(), events.take(k), events[k].0);
    }
}

/// `heapless::IndexMap`, the hash map of fixed capacity behind the loop
/// buffer. Nothing is known of a value of it but what the functions below
/// say.
#[verifier::external_type_specification]
#[verifier::external_body]
#[verifier::reject_recursive_types(K)]
#[verifier::reject_recursive_types(V)]
#[verifier::reject_recursive_types(S)]
pub struct ExIndexMap<K, V, S, const N: usize>(heapless::IndexMap<K, V, S, N>);

/// `hash32::BuildHasherDefault`, which makes the hashers of a
/// `heapless::FnvIndexMap`. It only occurs in the map's type.
#[verifier::external_type_specification]
#[verifier::external_body]
#[verifier::reject_recursive_types(H)]
pub struct ExBuildHasherDefault<H>(hash32::BuildHasherDefault<H>);

/// `hash32::FnvHasher`, the hasher of a `heapless::FnvIndexMap`. It only
/// occurs in the map's type.
#[verifier::external_type_specification]
#[verifier::external_body]
pub struct ExFnvHasher(hash32::FnvHasher);

/// The key-value pairs that a `heapless::FnvIndexMap` holds.
pub uninterp spec fn stored_events(
    map: heapless::FnvIndexMap<u32, MidiMessage, LOOP_BUFFER_CAPACITY>,
) -> Timeline;

/// `heapless::IndexMap::new`: the new map holds no pair.
#[verifier::external_body]
fn empty_map() -> (fresh: heapless::FnvIndexMap<u32, MidiMessage, LOOP_BUFFER_CAPACITY>)
    ensures
        stored_events(fresh) == Timeline::empty(),
{
    heapless::FnvIndexMap::new()
}

/// `heapless::IndexMap::insert`, on a map with room for
/// [`LOOP_BUFFER_CAPACITY`] pairs.
///
/// Where the key is present, its value is replaced and the old value comes
/// back in `Ok(Some(_))`, also when the map is full. Where the key is absent
/// and there is room, the pair is added and `Ok(None)` comes back. Where the
/// key is absent and the map holds as many pairs as it has room for, the map
/// stays as it is and the pair comes back in `Err`. The call does not panic.
#[verifier::external_body]
fn map_insert(
    map: &mut heapless::FnvIndexMap<u32, MidiMessage, LOOP_BUFFER_CAPACITY>,
    key: u32,
    value: MidiMessage,
) -> (outcome: Result<Option<MidiMessage>, (u32, MidiMessage)>)
    ensures
        outcome.is_err() <==> rejects(stored_events(*old(map)), key),
        stored_events(*final(map)) == record(stored_events(*old(map)), key, value),
        outcome matches Ok(previous) ==> previous == lookup(stored_events(*old(map)), key),
        outcome matches Err(returned) ==> returned == (key, value),
    no_unwind
{
    map.insert(key, value)
}

/// `heapless::IndexMap::get`: a reference to the value stored under the
/// key, or `None` where the map holds no such key.
#[verifier::external_body]
fn map_get<'a>(
    map: &'a heapless::FnvIndexMap<u32, MidiMessage, LOOP_BUFFER_CAPACITY>,
    key: u32,
) -> (found: Option<&'a MidiMessage>)
    ensures
        found.is_some() <==> stored_events(*map).dom().contains(key),
        found matches Some(message) ==> *message == stored_events(*map)[key],
{
    map.get(&key)
}

/// A bounded mapping from loop-relative timestamp to the event recorded
/// there. At most one event is kept per millisecond, the latest, and never
/// more than [`LOOP_BUFFER_CAPACITY`] events in all.
pub struct LoopBuffer {
    buffer: heapless::FnvIndexMap<u32, MidiMessage, LOOP_BUFFER_CAPACITY>,
}

impl View for LoopBuffer {
    type V = Timeline;

    closed spec fn view(&self) -> Timeline {
        stored_events(self.buffer)
    }
}

impl LoopBuffer {
    #[verifier::type_invariant]
    spec fn within_capacity(self) -> bool {
        &&& stored_events(self.buffer).dom().finite()
        &&& stored_events(self.buffer).dom().len() <= LOOP_BUFFER_CAPACITY
    }

    /// An empty buffer.
    pub fn new() -> (buffer: LoopBuffer)
        ensures
            buffer@ == Timeline::empty(),
    {
        LoopBuffer { buffer: empty_map() }
    }

    /// Stores `message` under `time_ms`, replacing the event that was
    /// stored there, if any. Fails, and leaves the buffer as it was, when the
    /// buffer is at capacity and `time_ms` holds no event yet.
    pub fn insert_message(&mut self, time_ms: u32, message: MidiMessage) -> (outcome: Result<
        (),
        CapacityError,
    >)
        ensures
            outcome.is_err() <==> rejects(old(self)@, time_ms),
            final(self)@ == record(old(self)@, time_ms, message),
            final(self)@.dom().finite(),
            final(self)@.dom().len() <= LOOP_BUFFER_CAPACITY,
    {
        proof {
            use_type_invariant(&*self);
        }
        match map_insert(&mut self.buffer, time_ms, message) {
            Ok(_) => Ok(()),
            Err(_) => Err(CapacityError),
        }
    }

    /// The event stored under `time_ms`, if there is one. The buffer is
    /// left as it is.
    pub fn get_message(&self, time_ms: u32) -> (found: Option<&MidiMessage>)
        ensures
            found.is_some() <==> lookup(self@, time_ms).is_some(),
            found matches Some(message) ==> lookup(self@, time_ms) == Some(*message),
    {
        map_get(&self.buffer, time_ms)
    }
}

} // verus!
