//! Timing and recording core of a MIDI looper.
//!
//! A looper listens to incoming MIDI events, stamps each with its position
//! in a repeating window of time, stores it, and plays it back at that
//! position on every later pass through the window, while it echoes live
//! input at once.
//!
//! - [`clock::Clock`] counts milliseconds and starts over after the loop
//!   length.
//! - [`loop_buffer::LoopBuffer`] keeps at most one event per millisecond of
//!   the loop, the latest, in a map of fixed capacity.
//! - [`relay::Relay`] is the bounded queue in which events wait to be sent
//!   out, first in, first out.
//! - [`driver::tick`] and [`driver::handle_input`] are what a timer tick and
//!   an incoming message do to the three.
//!
//! Nothing here waits or allocates. Where the relay is full or the loop
//! buffer at capacity, the event at hand is dropped and the caller is told.

pub mod clock;
pub mod driver;
pub mod loop_buffer;
pub mod message;
pub mod relay;
