//! Conditions on the tracked state that must hold for a macro or event matcher to apply.
use vstd::prelude::*;
use crate::match_checker::NumMatch;

verus! {

/// Precondition to be checked against the tracked MIDI state.
#[derive(Debug, PartialEq)]
pub enum MidiPrecondition {
    /// A note matching the channel and key matchers is currently held.
    NoteOn { channel_match: NumMatch, key_match: NumMatch },
    /// A control matching the channel and control matchers has a value matching the value
    /// matcher.
    Control { channel_match: NumMatch, control_match: NumMatch, value_match: NumMatch },
    /// A channel matching the channel matcher has a program matching the program matcher.
    Program { channel_match: NumMatch, program_match: NumMatch },
    /// A channel matching the channel matcher has a pitch bend value matching the value matcher.
    PitchBend { channel_match: NumMatch, value_match: NumMatch },
}

/// A condition, possibly inverted.
#[derive(Debug, PartialEq)]
pub struct Precondition {
    pub invert: bool,
    pub condition: PreconditionType,
}

/// The kinds of conditions.
#[derive(Debug, PartialEq)]
pub enum PreconditionType {
    Midi(MidiPrecondition),
    /// A condition that always holds.
    Other,
}

} // verus!
