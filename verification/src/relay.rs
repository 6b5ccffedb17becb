//! The bounded first-in, first-out channel between the contexts that capture
//! and schedule events and the context that sends them out.
//!
//! The channel is a `heapless::spsc::Queue`. Its contents are modelled as a
//! sequence, oldest event first, and everything the relay promises is stated
//! over that model.

use crate::message::MidiMessage;
use vstd::prelude::*;

verus! {

/// The number of slots in the queue behind a [`Relay`]. One slot always
/// stays free, so the relay holds one event fewer.
pub const RELAY_SLOTS: usize = 33;

/// The number of events that a [`Relay`] can hold.
pub const RELAY_CAPACITY: usize = RELAY_SLOTS - 1;

/// The relay held as many events as it has room for.
#[derive(Clone, Copy, Debug, PartialEq, Eq, Structural)]
pub struct Full;

/// Whether the pending events fill the relay.
pub open spec fn is_full(pending: Seq<MidiMessage>) -> bool {
    pending.len() >= RELAY_CAPACITY
}

/// The pending events after an attempt to enqueue `message`: it stands at the
/// tail, or, where the relay is full, nothing has changed.
pub open spec fn enqueued(pending: Seq<MidiMessage>, message: MidiMessage) -> Seq<MidiMessage> {
    if is_full(pending) {
        pending
    } else {
        pending.push(message)
    }
}

/// The event at the head of the pending events, if there is one.
pub open spec fn head(pending: Seq<MidiMessage>) -> Option<MidiMessage> {
    if pending.len() == 0 {
        None
    } else {
        Some(pending.first())
    }
}

/// The pending events after an attempt to dequeue: all but the head, in
/// their order.
pub open spec fn dequeued(pending: Seq<MidiMessage>) -> Seq<MidiMessage> {
    if pending.len() == 0 {
        pending
    } else {
        pending.drop_first()
    }
}

/// The pending events after attempts to enqueue each of `messages` in turn,
/// first to last.
pub open spec fn enqueued_all(pending: Seq<MidiMessage>, messages: Seq<MidiMessage>) -> Seq<
    MidiMessage,
>
    decreases messages.len(),
{
    if messages.len() == 0 {
        pending
    } else {
        enqueued(enqueued_all(pending, messages.drop_last()), messages.last())
    }
}

/// The events that `count` attempts to dequeue hand out, in the order in
/// which they come.
pub open spec fn drained(pending: Seq<MidiMessage>, count: nat) -> Seq<MidiMessage>
    decreases count,
{
    if count == 0 {
        Seq::empty()
    } else {
        match head(pending) {
            Some(message) => seq![message] + drained(dequeued(pending), (count - 1) as nat),
            None => drained(dequeued(pending), (count - 1) as nat),
        }
    }
}

/// The pending events that `count` attempts to dequeue leave behind.
pub open spec fn left_after(pending: Seq<MidiMessage>, count: nat) -> Seq<MidiMessage>
    decreases count,
{
    if count == 0 {
        pending
    } else {
        left_after(dequeued(pending), (count - 1) as nat)
    }
}

/// Enqueuing keeps the order of arrival: messages that all find room stand
/// behind what was pending before, in the order in which they came.
pub proof fn lemma_enqueued_in_order(pending: Seq<MidiMessage>, messages: Seq<MidiMessage>)
    requires
        pending.len() + messages.len() <= RELAY_CAPACITY,
    ensures
        enqueued_all(pending, messages) == pending + messages,
    decreases messages.len(),
{
    if messages.len() > 0 {
        lemma_enqueued_in_order(pending, messages.drop_last());
        assert((pending + messages.drop_last()).push(messages.last()) =~= pending + messages);
    } else {
        assert(pending + messages =~= pending);
    }
}

/// Dequeuing hands the pending events out from the head: `count` of them,
/// where that many are pending, come in the order in which they stood, and
/// the others stay behind in theirs.
pub proof fn lemma_drained_in_order(pending: Seq<MidiMessage>, count: nat)
    requires
        count <= pending.len(),
    ensures
        drained(pending, count) == pending.take(count as int),
        left_after(pending, count) == pending.skip(count as int),
    decreases count,
{
    if count > 0 {
        let rest = pending.drop_first();
        lemma_drained_in_order(rest, (count - 1) as nat);
        assert(seq![pending.first()] + rest.take(count - 1) =~= pending.take(count as int));
        assert(rest.skip(count - 1) =~= pending.skip(count as int));
    } else {
        assert(pending.skip(0) =~= pending);
    }
}

/// First in, first out: messages enqueued into an empty relay, no more of
/// them than it has room for, come out exactly as they went in, and the
/// relay is empty again once the last has left.
pub proof fn lemma_first_in_first_out(messages: Seq<MidiMessage>)
    requires
        messages.len() <= RELAY_CAPACITY,
    ensures
        drained(enqueued_all(Seq::empty(), messages), messages.len()) == messages,
        left_after(enqueued_all(Seq::empty(), messages), messages.len()) == Seq::<
            MidiMessage,
        >::empty(),
{
    let pending = enqueued_all(Seq::empty(), messages);
    lemma_enqueued_in_order(Seq::empty(), messages);
    assert(Seq::<MidiMessage>::empty() + messages =~= messages);
    lemma_drained_in_order(pending, messages.len());
    assert(messages.take(messages.len() as int) =~= messages);
    assert(messages.skip(messages.len() as int) =~= Seq::<MidiMessage>::empty());
}

/// Back-pressure: once as many messages as the relay has room for have gone
/// into an empty relay, it is full, and an attempt to enqueue one more
/// leaves the pending messages as they are, each in its place.
pub proof fn lemma_full_relay_keeps_pending(messages: Seq<MidiMessage>, extra: MidiMessage)
    requires
        messages.len() == RELAY_CAPACITY,
    ensures
        enqueued_all(Seq::empty(), messages) == messages,
        is_full(enqueued_all(Seq::empty(), messages)),
        enqueued(enqueued_all(Seq::empty(), messages), extra) == messages,
{
    lemma_enqueued_in_order(Seq::empty(), messages);
    assert(Seq::<MidiMessage>::empty() + messages =~= messages);
}

/// `heapless::spsc::Queue`, the ring buffer behind the relay. Nothing is
/// known of a value of it but what the functions below say.
#[verifier::external_type_specification]
#[verifier::external_body]
#[verifier::reject_recursive_types(T)]
pub struct ExQueue<T, const N: usize>(heapless::spsc::Queue<T, N>);

/// The items that a `heapless::spsc::Queue` holds, from the front, where
/// `dequeue` takes them, to the back, where `enqueue` puts them.
pub uninterp spec fn queued_events(queue: heapless::spsc::Queue<MidiMessage, RELAY_SLOTS>) -> Seq<
    MidiMessage,
>;

/// `heapless::spsc::Queue::new`: the new queue holds no item.
#[verifier::external_body]
fn empty_queue() -> (fresh: heapless::spsc::Queue<MidiMessage, RELAY_SLOTS>)
    ensures
        queued_events(fresh) == Seq::<MidiMessage>::empty(),
{
    heapless::spsc::Queue::new()
}

/// `heapless::spsc::Queue::enqueue`. A queue of [`RELAY_SLOTS`] slots
/// holds up to [`RELAY_CAPACITY`] items, one fewer than it has slots.
///
/// Where the queue holds fewer items than that, the item is added at the
/// back and `Ok(())` comes back. Where it holds that many, the queue stays
/// as it is and the item comes back in `Err`. The call does not panic.
#[verifier::external_body]
fn queue_enqueue(
    queue: &mut heapless::spsc::Queue<MidiMessage, RELAY_SLOTS>,
    item: MidiMessage,
) -> (outcome: Result<(), MidiMessage>)
    ensures
        outcome.is_err() <==> is_full(queued_events(*old(queue))),
        queued_events(*final(queue)) == enqueued(queued_events(*old(queue)), item),
        outcome matches Err(returned) ==> returned == item,
    no_unwind
{
    queue.enqueue(item)
}

/// `heapless::spsc::Queue::dequeue`: the item at the front is taken out and
/// returned, and the others keep their order; where the queue is empty,
/// `None` comes back and the queue stays empty. The call does not panic.
#[verifier::external_body]
fn queue_dequeue(queue: &mut heapless::spsc::Queue<MidiMessage, RELAY_SLOTS>) -> (front: Option<
    MidiMessage,
>)
    ensures
        front == head(queued_events(*old(queue))),
        queued_events(*final(queue)) == dequeued(queued_events(*old(queue))),
    no_unwind
{
    queue.dequeue()
}

/// A bounded queue of events that wait to be sent out. Events leave in the
/// order in which they came, and never more than [`RELAY_CAPACITY`] wait at
/// once.
pub struct Relay {
    queue: heapless::spsc::Queue<MidiMessage, RELAY_SLOTS>,
}

impl View for Relay {
    type V = Seq<MidiMessage>;

    closed spec fn view(&self) -> Seq<MidiMessage> {
        queued_events(self.queue)
    }
}

impl Relay {
    #[verifier::type_invariant]
    spec fn within_capacity(self) -> bool {
        queued_events(self.queue).len() <= RELAY_CAPACITY
    }

    /// An empty relay.
    pub fn new() -> (relay: Relay)
        ensures
            relay@ == Seq::<MidiMessage>::empty(),
    {
        Relay { queue: empty_queue() }
    }

    /// Appends `message` at the tail. Fails at once, and leaves the relay
    /// as it was, when the relay is full.
    pub fn enqueue(&mut self, message: MidiMessage) -> (outcome: Result<(), Full>)
        ensures
            outcome.is_err() <==> is_full(old(self)@),
            final(self)@ == enqueued(old(self)@, message),
            final(self)@.len() <= RELAY_CAPACITY,
    {
        proof {
            use_type_invariant(&*self);
        }
        match queue_enqueue(&mut self.queue, message) {
            Ok(()) => Ok(()),
            Err(_) => Err(Full),
        }
    }

    /// Removes the event at the head and returns it, or returns `None`
    /// when nothing is pending.
    pub fn dequeue(&mut self) -> (front: Option<MidiMessage>)
        ensures
            front == head(old(self)@),
            final(self)@ == dequeued(old(self)@),
            final(self)@.len() <= RELAY_CAPACITY,
    {
        proof {
            use_type_invariant(&*self);
        }
        queue_dequeue(&mut self.queue)
    }
}

} // verus!
