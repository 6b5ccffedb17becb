//! The wrapping millisecond clock that recording and playback share.

use vstd::prelude::*;

verus! {

/// The position that follows `position` on a timeline of the given loop
/// length: one millisecond later, or `0` once that would lie beyond
/// `loop_length`.
pub open spec fn next_position(position: nat, loop_length: nat) -> nat {
    if position + 1 > loop_length {
        0
    } else {
        position + 1
    }
}

/// The position reached from `start` after `ticks` advances.
pub open spec fn position_after(start: nat, loop_length: nat, ticks: nat) -> nat
    decreases ticks,
{
    if ticks == 0 {
        start
    } else {
        next_position(position_after(start, loop_length, (ticks - 1) as nat), loop_length)
    }
}

/// One advance moves a position that lies on the loop to the next number
/// modulo the cycle length, which is `loop_length + 1`.
pub proof fn lemma_next_position_is_modular(position: nat, loop_length: nat)
    requires
        position <= loop_length,
    ensures
        next_position(position, loop_length) == (position + 1) % (loop_length + 1),
{
    let cycle: nat = loop_length + 1;
    if position == loop_length {
        vstd::arithmetic::div_mod::lemma_mod_self_0(cycle as int);
    } else {
        vstd::arithmetic::div_mod::lemma_small_mod(position + 1, cycle);
    }
}

/// A clock that starts on the loop stays on it: after any number of advances
/// the position lies in `0 ..= loop_length`, and it is the start plus the
/// number of advances, modulo the cycle length `loop_length + 1`.
pub proof fn lemma_position_after_is_modular(start: nat, loop_length: nat, ticks: nat)
    requires
        start <= loop_length,
    ensures
        position_after(start, loop_length, ticks) <= loop_length,
        position_after(start, loop_length, ticks) == (start + ticks) % (loop_length + 1),
    decreases ticks,
{
    let cycle: nat = loop_length + 1;
    if ticks == 0 {
        vstd::arithmetic::div_mod::lemma_small_mod(start, cycle);
    } else {
        let earlier: nat = (ticks - 1) as nat;
        let before: nat = position_after(start, loop_length, earlier);
        lemma_position_after_is_modular(start, loop_length, earlier);
        lemma_next_position_is_modular(before, loop_length);
        vstd::arithmetic::div_mod::lemma_add_mod_noop_right(
            1,
            (start + earlier) as int,
            cycle as int,
        );
    }
}

/// Counting up from `0`, the clock shows the number of advances made so far
/// for as long as that number does not exceed the loop length. The position
/// `loop_length` itself is therefore reached, at advance number
/// `loop_length`.
pub proof fn lemma_counts_up_to_loop_length(loop_length: nat, ticks: nat)
    requires
        ticks <= loop_length,
    ensures
        position_after(0, loop_length, ticks) == ticks,
{
    lemma_position_after_is_modular(0, loop_length, ticks);
    vstd::arithmetic::div_mod::lemma_small_mod(ticks, loop_length + 1);
}

/// Wraparound: from position `0`, `loop_length + 1` advances lead back to
/// `0`, and no smaller positive number of advances does.
pub proof fn lemma_wraps_after_one_cycle(loop_length: nat)
    ensures
        position_after(0, loop_length, loop_length + 1) == 0,
        forall|ticks: nat|
            0 < ticks <= loop_length ==> #[trigger] position_after(0, loop_length, ticks) != 0,
{
    lemma_position_after_is_modular(0, loop_length, loop_length + 1);
    vstd::arithmetic::div_mod::lemma_mod_self_0((loop_length + 1) as int);
    assert forall|ticks: nat| 0 < ticks <= loop_length implies #[trigger] position_after(
        0,
        loop_length,
        ticks,
    ) != 0 by {
        lemma_counts_up_to_loop_length(loop_length, ticks);
    }
}

/// The timeline repeats: wherever on the loop a clock stands, one full cycle
/// of `loop_length + 1` advances later it stands at the same position.
pub proof fn lemma_cycle_returns_to_position(start: nat, loop_length: nat, ticks: nat)
    requires
        start <= loop_length,
    ensures
        position_after(start, loop_length, ticks + loop_length + 1) == position_after(
            start,
            loop_length,
            ticks,
        ),
{
    let cycle: nat = loop_length + 1;
    lemma_position_after_is_modular(start, loop_length, ticks);
    lemma_position_after_is_modular(start, loop_length, ticks + loop_length + 1);
    vstd::arithmetic::div_mod::lemma_mod_add_multiples_vanish((start + ticks) as int, cycle as int);
}

/// A millisecond counter that wraps at a fixed loop length.
///
/// The position always lies in `0 ..= loop_length`. The value `loop_length`
/// itself is reached, so one cycle takes `loop_length + 1` ticks.
pub struct Clock {
    loop_length_ms: u32,
    current_count_ms: u32,
}

impl Clock {
    #[verifier::type_invariant]
    spec fn in_range(self) -> bool {
        self.current_count_ms <= self.loop_length_ms
    }

    /// The loop length in milliseconds that the clock was created with.
    pub closed spec fn loop_length(self) -> nat {
        self.loop_length_ms as nat
    }

    /// The current position on the loop, in milliseconds.
    pub closed spec fn position(self) -> nat {
        self.current_count_ms as nat
    }

    /// A clock at position `0` that wraps after `loop_length_ms`.
    pub fn new(loop_length_ms: u32) -> (clock: Clock)
        ensures
            clock.loop_length() == loop_length_ms,
            clock.position() == 0,
    {
        Clock { loop_length_ms, current_count_ms: 0 }
    }

    /// Advances the clock by one millisecond, starting over at `0` after
    /// the position `loop_length`.
    pub fn increment(&mut self)
        ensures
            final(self).loop_length() == old(self).loop_length(),
            final(self).position() == next_position(old(self).position(), old(self).loop_length()),
    {
        proof {
            use_type_invariant(&*self);
        }
        if self.current_count_ms >= self.loop_length_ms {
            self.current_count_ms = 0;
        } else {
            self.current_count_ms = self.current_count_ms + 1;
        }
    }

    /// The current position on the loop, in milliseconds.
    pub fn get_current_count_ms(&self) -> (ms: u32)
        ensures
            ms == self.position(),
            ms <= self.loop_length(),
    {
        proof {
            use_type_invariant(self);
        }
        self.current_count_ms
    }
}

} // verus!
