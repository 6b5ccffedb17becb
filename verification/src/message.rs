//! MIDI messages as the looper stores and forwards them.

use vstd::prelude::*;

verus! {

/// One MIDI message, held by value.
///
/// Channels, note and controller numbers and data bytes are kept as the
/// numbers that travel on the wire. A fourteen-bit value is kept as one
/// number in a `u16`.
#[derive(Clone, Copy, Debug, PartialEq, Eq, Structural)]
pub enum MidiMessage {
    /// Note off: channel, note, velocity.
    NoteOff(u8, u8, u8),
    /// Note on: channel, note, velocity.
    NoteOn(u8, u8, u8),
    /// Polyphonic aftertouch: channel, note, pressure.
    KeyPressure(u8, u8, u8),
    /// Control change: channel, controller, value.
    ControlChange(u8, u8, u8),
    /// Program change: channel, program.
    ProgramChange(u8, u8),
    /// Channel aftertouch: channel, pressure.
    ChannelPressure(u8, u8),
    /// Pitch bend: channel, fourteen-bit value.
    PitchBendChange(u8, u16),
    /// MIDI time code quarter frame.
    QuarterFrame(u8),
    /// Song position pointer, a fourteen-bit value.
    SongPositionPointer(u16),
    /// Song select.
    SongSelect(u8),
    /// Tune request.
    TuneRequest,
    /// Timing clock.
    TimingClock,
    /// Start.
    Start,
    /// Continue.
    Continue,
    /// Stop.
    Stop,
    /// Active sensing.
    ActiveSensing,
    /// Reset.
    Reset,
}

/// A copy of `message`, made variant by variant and field by field.
pub fn copy_midi_message(message: &MidiMessage) -> (copy: MidiMessage)
    ensures
        copy == *message,
{
    match *message {
        MidiMessage::NoteOff(channel, note, value) => MidiMessage::NoteOff(channel, note, value),
        MidiMessage::NoteOn(channel, note, value) => MidiMessage::NoteOn(channel, note, value),
        MidiMessage::KeyPressure(channel, note, value) => {
            MidiMessage::KeyPressure(channel, note, value)
        },
        MidiMessage::ControlChange(channel, control, value) => {
            MidiMessage::ControlChange(channel, control, value)
        },
        MidiMessage::ProgramChange(channel, program) => {
            MidiMessage::ProgramChange(channel, program)
        },
        MidiMessage::ChannelPressure(channel, value) => {
            MidiMessage::ChannelPressure(channel, value)
        },
        MidiMessage::PitchBendChange(channel, value) => {
            MidiMessage::PitchBendChange(channel, value)
        },
        MidiMessage::QuarterFrame(quarter_frame) => MidiMessage::QuarterFrame(quarter_frame),
        MidiMessage::SongPositionPointer(value) => MidiMessage::SongPositionPointer(value),
        MidiMessage::SongSelect(value) => MidiMessage::SongSelect(value),
        MidiMessage::TuneRequest => MidiMessage::TuneRequest,
        MidiMessage::TimingClock => MidiMessage::TimingClock,
        MidiMessage::Start => MidiMessage::Start,
        MidiMessage::Continue => MidiMessage::Continue,
        MidiMessage::Stop => MidiMessage::Stop,
        MidiMessage::ActiveSensing => MidiMessage::ActiveSensing,
        MidiMessage::Reset => MidiMessage::Reset,
    }
}

} // verus!
