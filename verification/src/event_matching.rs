//! Events coming in, and matchers deciding whether a macro reacts to them.
use vstd::prelude::*;
use crate::match_checker::{NumMatch, NumberMatcher, num_match_accepts, num_match_matches};
use crate::midi::MidiMessage;
use crate::preconditions::Precondition;
use crate::state::State;

verus! {

/// An incoming event.
#[derive(Debug, Clone, Copy, PartialEq, Eq, Structural)]
pub enum Event {
    Midi(MidiMessage),
    Other,
}

/// Matches MIDI messages of one type whose fields are accepted by the field matchers.
#[derive(Debug, PartialEq)]
pub enum MidiEventMatcher {
    NoteOn { channel_match: NumMatch, key_match: NumMatch, velocity_match: NumMatch },
    NoteOff { channel_match: NumMatch, key_match: NumMatch, velocity_match: NumMatch },
    PolyAftertouch { channel_match: NumMatch, key_match: NumMatch, value_match: NumMatch },
    ControlChange { channel_match: NumMatch, control_match: NumMatch, value_match: NumMatch },
    ProgramChange { channel_match: NumMatch, program_match: NumMatch },
    ChannelAftertouch { channel_match: NumMatch, value_match: NumMatch },
    PitchBendChange { channel_match: NumMatch, value_match: NumMatch },
}

impl MidiEventMatcher {
    /// Whether this matcher accepts `msg`: same message type, every field accepted.
    pub open spec fn spec_matches(self, msg: MidiMessage) -> bool {
        match (self, msg) {
            (
                MidiEventMatcher::NoteOn { channel_match, key_match, velocity_match },
                MidiMessage::NoteOn { channel, key, velocity },
            ) => num_match_accepts(channel_match, channel as u32) && num_match_accepts(
                key_match,
                key as u32,
            ) && num_match_accepts(velocity_match, velocity as u32),
            (
                MidiEventMatcher::NoteOff { channel_match, key_match, velocity_match },
                MidiMessage::NoteOff { channel, key, velocity },
            ) => num_match_accepts(channel_match, channel as u32) && num_match_accepts(
                key_match,
                key as u32,
            ) && num_match_accepts(velocity_match, velocity as u32),
            (
                MidiEventMatcher::PolyAftertouch { channel_match, key_match, value_match },
                MidiMessage::PolyAftertouch { channel, key, value },
            ) => num_match_accepts(channel_match, channel as u32) && num_match_accepts(
                key_match,
                key as u32,
            ) && num_match_accepts(value_match, value as u32),
            (
                MidiEventMatcher::ControlChange { channel_match, control_match, value_match },
                MidiMessage::ControlChange { channel, control, value },
            ) => num_match_accepts(channel_match, channel as u32) && num_match_accepts(
                control_match,
                control as u32,
            ) && num_match_accepts(value_match, value as u32),
            (
                MidiEventMatcher::ProgramChange { channel_match, program_match },
                MidiMessage::ProgramChange { channel, program },
            ) => num_match_accepts(channel_match, channel as u32) && num_match_accepts(
                program_match,
                program as u32,
            ),
            (
                MidiEventMatcher::ChannelAftertouch { channel_match, value_match },
                MidiMessage::ChannelAftertouch { channel, value },
            ) => num_match_accepts(channel_match, channel as u32) && num_match_accepts(
                value_match,
                value as u32,
            ),
            (
                MidiEventMatcher::PitchBendChange { channel_match, value_match },
                MidiMessage::PitchBendChange { channel, value },
            ) => num_match_accepts(channel_match, channel as u32) && num_match_accepts(
                value_match,
                value as u32,
            ),
            _ => false,
        }
    }

    /// Checks whether this matcher accepts `msg`.
    pub fn matches(&self, msg: &MidiMessage) -> (r: bool)
        ensures
            r == self.spec_matches(*msg),
    {
        match (self, msg) {
            (
                MidiEventMatcher::NoteOn { channel_match, key_match, velocity_match },
                MidiMessage::NoteOn { channel, key, velocity },
            ) => num_match_matches(channel_match, *channel as u32) && num_match_matches(
                key_match,
                *key as u32,
            ) && num_match_matches(velocity_match, *velocity as u32),
            (
                MidiEventMatcher::NoteOff { channel_match, key_match, velocity_match },
                MidiMessage::NoteOff { channel, key, velocity },
            ) => num_match_matches(channel_match, *channel as u32) && num_match_matches(
                key_match,
                *key as u32,
            ) && num_match_matches(velocity_match, *velocity as u32),
            (
                MidiEventMatcher::PolyAftertouch { channel_match, key_match, value_match },
                MidiMessage::PolyAftertouch { channel, key, value },
            ) => num_match_matches(channel_match, *channel as u32) && num_match_matches(
                key_match,
                *key as u32,
            ) && num_match_matches(value_match, *value as u32),
            (
                MidiEventMatcher::ControlChange { channel_match, control_match, value_match },
                MidiMessage::ControlChange { channel, control, value },
            ) => num_match_matches(channel_match, *channel as u32) && num_match_matches(
                control_match,
                *control as u32,
            ) && num_match_matches(value_match, *value as u32),
            (
                MidiEventMatcher::ProgramChange { channel_match, program_match },
                MidiMessage::ProgramChange { channel, program },
            ) => num_match_matches(channel_match, *channel as u32) && num_match_matches(
                program_match,
                *program as u32,
            ),
            (
                MidiEventMatcher::ChannelAftertouch { channel_match, value_match },
                MidiMessage::ChannelAftertouch { channel, value },
            ) => num_match_matches(channel_match, *channel as u32) && num_match_matches(
                value_match,
                *value as u32,
            ),
            (
                MidiEventMatcher::PitchBendChange { channel_match, value_match },
                MidiMessage::PitchBendChange { channel, value },
            ) => num_match_matches(channel_match, *channel as u32) && num_match_matches(
                value_match,
                *value as u32,
            ),
            _ => false,
        }
    }
}

/// The kinds of event matchers.
#[derive(Debug, PartialEq)]
pub enum MatcherType {
    Midi(MidiEventMatcher),
}

/// An event matcher, with preconditions that must hold for it to match.
#[derive(Debug, PartialEq)]
pub struct EventMatcher {
    pub matcher: MatcherType,
    pub required_preconditions: Option<Vec<Precondition>>,
}

/// Whether every precondition in `conditions` holds in `state`.
pub open spec fn all_preconditions_hold<S: State>(state: S, conditions: Seq<Precondition>) -> bool {
    forall|i: int| 0 <= i < conditions.len() ==> state.spec_matches_precondition(#[trigger] conditions[i])
}

/// Whether the optional preconditions hold in `state`; none given means they hold.
pub open spec fn preconditions_hold<S: State>(state: S, conditions: Option<Vec<Precondition>>) -> bool {
    match conditions {
        Some(list) => all_preconditions_hold(state, list@),
        None => true,
    }
}

/// Checks every precondition in `conditions` against `state`.
pub fn check_preconditions<S: State>(state: &S, conditions: &Vec<Precondition>) -> (r: bool)
    ensures
        r == all_preconditions_hold(*state, conditions@),
{
    let mut i: usize = 0;
    while i < conditions.len()
        invariant
            i <= conditions@.len(),
            forall|j: int| 0 <= j < i ==> state.spec_matches_precondition(#[trigger] conditions@[j]),
        decreases conditions.len() - i,
    {
        if !state.matches_precondition(&conditions[i]) {
            return false;
        }
        i = i + 1;
    }
    true
}

impl EventMatcher {
    /// Creates an event matcher from its parts.
    pub fn new(matcher: MatcherType, required_preconditions: Option<Vec<Precondition>>) -> (r: EventMatcher)
        ensures
            r.matcher == matcher,
            r.required_preconditions == required_preconditions,
    {
        EventMatcher { matcher, required_preconditions }
    }

    /// Whether the event is of the matched kind and accepted, and all required preconditions
    /// hold in `state`.
    pub open spec fn spec_matches<S: State>(self, event: Event, state: S) -> bool {
        (match (self.matcher, event) {
            (MatcherType::Midi(m), Event::Midi(msg)) => m.spec_matches(msg),
            _ => false,
        }) && preconditions_hold(state, self.required_preconditions)
    }

    /// Checks whether this matcher matches `event` given `state`.
    pub fn matches<S: State>(&self, event: &Event, state: &S) -> (r: bool)
        ensures
            r == self.spec_matches(*event, *state),
    {
        let kind_matches = match (&self.matcher, event) {
            (MatcherType::Midi(m), Event::Midi(msg)) => m.matches(msg),
            _ => false,
        };
        if !kind_matches {
            return false;
        }
        match &self.required_preconditions {
            Some(list) => check_preconditions(state, list),
            None => true,
        }
    }
}

/// A NoteOn matcher tests each field of a NoteOn message with its own matcher: a matcher
/// given for one field only accepts exactly the messages whose value in that field it accepts,
/// and a matcher accepts a message exactly when each of its field matchers, taken alone, does.
pub proof fn law_note_on_matcher_tests_each_field(channel: u8, key: u8, velocity: u8, m: NumberMatcher, channel_match: NumMatch, key_match: NumMatch, velocity_match: NumMatch)
    ensures
        (MidiEventMatcher::NoteOn { channel_match: Some(m), key_match: None, velocity_match: None }).spec_matches(MidiMessage::NoteOn { channel, key, velocity }) <==> m.spec_matches(channel as u32),
        (MidiEventMatcher::NoteOn { channel_match: None, key_match: Some(m), velocity_match: None }).spec_matches(MidiMessage::NoteOn { channel, key, velocity }) <==> m.spec_matches(key as u32),
        (MidiEventMatcher::NoteOn { channel_match: None, key_match: None, velocity_match: Some(m) }).spec_matches(MidiMessage::NoteOn { channel, key, velocity }) <==> m.spec_matches(velocity as u32),
        (MidiEventMatcher::NoteOn { channel_match: channel_match, key_match: key_match, velocity_match: velocity_match }).spec_matches(MidiMessage::NoteOn { channel, key, velocity }) <==> (MidiEventMatcher::NoteOn { channel_match: channel_match, key_match: None, velocity_match: None }).spec_matches(MidiMessage::NoteOn { channel, key, velocity }) && (MidiEventMatcher::NoteOn { channel_match: None, key_match: key_match, velocity_match: None }).spec_matches(MidiMessage::NoteOn { channel, key, velocity }) && (MidiEventMatcher::NoteOn { channel_match: None, key_match: None, velocity_match: velocity_match }).spec_matches(MidiMessage::NoteOn { channel, key, velocity }),
{
}

/// A NoteOff matcher tests each field of a NoteOff message with its own matcher: a matcher
/// given for one field only accepts exactly the messages whose value in that field it accepts,
/// and a matcher accepts a message exactly when each of its field matchers, taken alone, does.
pub proof fn law_note_off_matcher_tests_each_field(channel: u8, key: u8, velocity: u8, m: NumberMatcher, channel_match: NumMatch, key_match: NumMatch, velocity_match: NumMatch)
    ensures
        (MidiEventMatcher::NoteOff { channel_match: Some(m), key_match: None, velocity_match: None }).spec_matches(MidiMessage::NoteOff { channel, key, velocity }) <==> m.spec_matches(channel as u32),
        (MidiEventMatcher::NoteOff { channel_match: None, key_match: Some(m), velocity_match: None }).spec_matches(MidiMessage::NoteOff { channel, key, velocity }) <==> m.spec_matches(key as u32),
        (MidiEventMatcher::NoteOff { channel_match: None, key_match: None, velocity_match: Some(m) }).spec_matches(MidiMessage::NoteOff { channel, key, velocity }) <==> m.spec_matches(velocity as u32),
        (MidiEventMatcher::NoteOff { channel_match: channel_match, key_match: key_match, velocity_match: velocity_match }).spec_matches(MidiMessage::NoteOff { channel, key, velocity }) <==> (MidiEventMatcher::NoteOff { channel_match: channel_match, key_match: None, velocity_match: None }).spec_matches(MidiMessage::NoteOff { channel, key, velocity }) && (MidiEventMatcher::NoteOff { channel_match: None, key_match: key_match, velocity_match: None }).spec_matches(MidiMessage::NoteOff { channel, key, velocity }) && (MidiEventMatcher::NoteOff { channel_match: None, key_match: None, velocity_match: velocity_match }).spec_matches(MidiMessage::NoteOff { channel, key, velocity }),
{
}

/// A PolyAftertouch matcher tests each field of a PolyAftertouch message with its own matcher: a matcher
/// given for one field only accepts exactly the messages whose value in that field it accepts,
/// and a matcher accepts a message exactly when each of its field matchers, taken alone, does.
pub proof fn law_poly_aftertouch_matcher_tests_each_field(channel: u8, key: u8, value: u8, m: NumberMatcher, channel_match: NumMatch, key_match: NumMatch, value_match: NumMatch)
    ensures
        (MidiEventMatcher::PolyAftertouch { channel_match: Some(m), key_match: None, value_match: None }).spec_matches(MidiMessage::PolyAftertouch { channel, key, value }) <==> m.spec_matches(channel as u32),
        (MidiEventMatcher::PolyAftertouch { channel_match: None, key_match: Some(m), value_match: None }).spec_matches(MidiMessage::PolyAftertouch { channel, key, value }) <==> m.spec_matches(key as u32),
        (MidiEventMatcher::PolyAftertouch { channel_match: None, key_match: None, value_match: Some(m) }).spec_matches(MidiMessage::PolyAftertouch { channel, key, value }) <==> m.spec_matches(value as u32),
        (MidiEventMatcher::PolyAftertouch { channel_match: channel_match, key_match: key_match, value_match: value_match }).spec_matches(MidiMessage::PolyAftertouch { channel, key, value }) <==> (MidiEventMatcher::PolyAftertouch { channel_match: channel_match, key_match: None, value_match: None }).spec_matches(MidiMessage::PolyAftertouch { channel, key, value }) && (MidiEventMatcher::PolyAftertouch { channel_match: None, key_match: key_match, value_match: None }).spec_matches(MidiMessage::PolyAftertouch { channel, key, value }) && (MidiEventMatcher::PolyAftertouch { channel_match: None, key_match: None, value_match: value_match }).spec_matches(MidiMessage::PolyAftertouch { channel, key, value }),
{
}

/// A ControlChange matcher tests each field of a ControlChange message with its own matcher: a matcher
/// given for one field only accepts exactly the messages whose value in that field it accepts,
/// and a matcher accepts a message exactly when each of its field matchers, taken alone, does.
pub proof fn law_control_change_matcher_tests_each_field(channel: u8, control: u8, value: u8, m: NumberMatcher, channel_match: NumMatch, control_match: NumMatch, value_match: NumMatch)
    ensures
        (MidiEventMatcher::ControlChange { channel_match: Some(m), control_match: None, value_match: None }).spec_matches(MidiMessage::ControlChange { channel, control, value }) <==> m.spec_matches(channel as u32),
        (MidiEventMatcher::ControlChange { channel_match: None, control_match: Some(m), value_match: None }).spec_matches(MidiMessage::ControlChange { channel, control, value }) <==> m.spec_matches(control as u32),
        (MidiEventMatcher::ControlChange { channel_match: None, control_match: None, value_match: Some(m) }).spec_matches(MidiMessage::ControlChange { channel, control, value }) <==> m.spec_matches(value as u32),
        (MidiEventMatcher::ControlChange { channel_match: channel_match, control_match: control_match, value_match: value_match }).spec_matches(MidiMessage::ControlChange { channel, control, value }) <==> (MidiEventMatcher::ControlChange { channel_match: channel_match, control_match: None, value_match: None }).spec_matches(MidiMessage::ControlChange { channel, control, value }) && (MidiEventMatcher::ControlChange { channel_match: None, control_match: control_match, value_match: None }).spec_matches(MidiMessage::ControlChange { channel, control, value }) && (MidiEventMatcher::ControlChange { channel_match: None, control_match: None, value_match: value_match }).spec_matches(MidiMessage::ControlChange { channel, control, value }),
{
}

/// A ProgramChange matcher tests each field of a ProgramChange message with its own matcher: a matcher
/// given for one field only accepts exactly the messages whose value in that field it accepts,
/// and a matcher accepts a message exactly when each of its field matchers, taken alone, does.
pub proof fn law_program_change_matcher_tests_each_field(channel: u8, program: u8, m: NumberMatcher, channel_match: NumMatch, program_match: NumMatch)
    ensures
        (MidiEventMatcher::ProgramChange { channel_match: Some(m), program_match: None }).spec_matches(MidiMessage::ProgramChange { channel, program }) <==> m.spec_matches(channel as u32),
        (MidiEventMatcher::ProgramChange { channel_match: None, program_match: Some(m) }).spec_matches(MidiMessage::ProgramChange { channel, program }) <==> m.spec_matches(program as u32),
        (MidiEventMatcher::ProgramChange { channel_match: channel_match, program_match: program_match }).spec_matches(MidiMessage::ProgramChange { channel, program }) <==> (MidiEventMatcher::ProgramChange { channel_match: channel_match, program_match: None }).spec_matches(MidiMessage::ProgramChange { channel, program }) && (MidiEventMatcher::ProgramChange { channel_match: None, program_match: program_match }).spec_matches(MidiMessage::ProgramChange { channel, program }),
{
}

/// A ChannelAftertouch matcher tests each field of a ChannelAftertouch message with its own matcher: a matcher
/// given for one field only accepts exactly the messages whose value in that field it accepts,
/// and a matcher accepts a message exactly when each of its field matchers, taken alone, does.
pub proof fn law_channel_aftertouch_matcher_tests_each_field(channel: u8, value: u8, m: NumberMatcher, channel_match: NumMatch, value_match: NumMatch)
    ensures
        (MidiEventMatcher::ChannelAftertouch { channel_match: Some(m), value_match: None }).spec_matches(MidiMessage::ChannelAftertouch { channel, value }) <==> m.spec_matches(channel as u32),
        (MidiEventMatcher::ChannelAftertouch { channel_match: None, value_match: Some(m) }).spec_matches(MidiMessage::ChannelAftertouch { channel, value }) <==> m.spec_matches(value as u32),
        (MidiEventMatcher::ChannelAftertouch { channel_match: channel_match, value_match: value_match }).spec_matches(MidiMessage::ChannelAftertouch { channel, value }) <==> (MidiEventMatcher::ChannelAftertouch { channel_match: channel_match, value_match: None }).spec_matches(MidiMessage::ChannelAftertouch { channel, value }) && (MidiEventMatcher::ChannelAftertouch { channel_match: None, value_match: value_match }).spec_matches(MidiMessage::ChannelAftertouch { channel, value }),
{
}

/// A PitchBendChange matcher tests each field of a PitchBendChange message with its own matcher: a matcher
/// given for one field only accepts exactly the messages whose value in that field it accepts,
/// and a matcher accepts a message exactly when each of its field matchers, taken alone, does.
pub proof fn law_pitch_bend_change_matcher_tests_each_field(channel: u8, value: u16, m: NumberMatcher, channel_match: NumMatch, value_match: NumMatch)
    ensures
        (MidiEventMatcher::PitchBendChange { channel_match: Some(m), value_match: None }).spec_matches(MidiMessage::PitchBendChange { channel, value }) <==> m.spec_matches(channel as u32),
        (MidiEventMatcher::PitchBendChange { channel_match: None, value_match: Some(m) }).spec_matches(MidiMessage::PitchBendChange { channel, value }) <==> m.spec_matches(value as u32),
        (MidiEventMatcher::PitchBendChange { channel_match: channel_match, value_match: value_match }).spec_matches(MidiMessage::PitchBendChange { channel, value }) <==> (MidiEventMatcher::PitchBendChange { channel_match: channel_match, value_match: None }).spec_matches(MidiMessage::PitchBendChange { channel, value }) && (MidiEventMatcher::PitchBendChange { channel_match: None, value_match: value_match }).spec_matches(MidiMessage::PitchBendChange { channel, value }),
{
}

} // verus!
