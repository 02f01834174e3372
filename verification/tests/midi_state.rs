#![allow(unused_imports)]
use mmpd::actions::{Action, ControlAction};
use mmpd::config::actions::{
    build_action, build_action_control, build_action_enter_text, build_action_key_sequence,
    build_action_shell, build_action_wait,
};
use mmpd::config::event_matchers::{build_event_matcher, build_midi_event_matcher};
use mmpd::config::macros::{build_macro, build_scope_macros};
use mmpd::config::precondition::{build_midi_precondition, build_precondition};
use mmpd::config::primitive_matchers::{
    build_number_matcher, build_number_matcher_from_musical_note, build_string_matcher,
    build_musical_key_matcher,
};
use mmpd::config::scope::build_scope;
use mmpd::event_matching::{EventMatcher, MatcherType, MidiEventMatcher};
use mmpd::macros::{Macro, MacroBuilder, Scope};
use mmpd::match_checker::{NumberMatcher, StringMatcher};
use mmpd::midi::{parse_keys_from_str, parse_message, MidiMessage};
use mmpd::midi_state::MidiState;
use mmpd::preconditions::{MidiPrecondition, Precondition, PreconditionType};
use mmpd::raw_config::{k, RCHash, RCHashBuilder, RawConfig};

/// A held note, as the tests name it.
struct Note {
    channel: u8,
    key: u8,
}

/// A control on a channel, as the tests name it.
struct Control {
    channel: u8,
    control: u8,
}

#[test]
fn keeps_track_of_notes_held() {
    let note1 = Note { channel: 3, key: 20 };
    let note2 = Note { channel: 7, key: 30 };

    let mut state = MidiState::new();
    assert!(state.no_notes_on());

    // Pressing notes

    let note_on_msg1 = MidiMessage::NoteOn {
        channel: note1.channel,
        key: note1.key,
        velocity: 67
    };

    let note_on_msg2 = MidiMessage::NoteOn {
        channel: note2.channel,
        key: note2.key,
        velocity: 42
    };

    state.process_message(&note_on_msg1);
    assert!(state.is_note_on(note1.channel, note1.key));

    state.process_message(&note_on_msg2);
    assert!(state.is_note_on(note1.channel, note1.key));
    assert!(state.is_note_on(note2.channel, note2.key));

    // Releasing notes

    let note_off_msg1 = MidiMessage::NoteOff {
        channel: note1.channel,
        key: note1.key,
        velocity: 64
    };

    let note_off_msg2 = MidiMessage::NoteOff {
        channel: note2.channel,
        key: note2.key,
        velocity: 120
    };

    state.process_message(&note_off_msg1);
    assert!(!state.is_note_on(note1.channel, note1.key));
    assert!(state.is_note_on(note2.channel, note2.key));

    state.process_message(&note_off_msg2);
    assert!(state.no_notes_on());
}

#[test]
fn keeps_only_one_record_of_a_pressed_note() {
    let note1 = Note { channel: 3, key: 20 };

    let mut state = MidiState::new();

    let note_on_msg1 = MidiMessage::NoteOn {
        channel: note1.channel,
        key: note1.key,
        velocity: 67
    };

    state.process_message(&note_on_msg1);
    state.process_message(&note_on_msg1);

    assert!(state.is_note_on(note1.channel, note1.key));

    let note_off_msg1 = MidiMessage::NoteOff {
        channel: note1.channel,
        key: note1.key,
        velocity: 67
    };

    state.process_message(&note_off_msg1);

    assert!(!state.is_note_on(note1.channel, note1.key));
    assert!(state.no_notes_on());
}

#[test]
fn deals_with_note_off_for_note_that_was_not_held() {
    // We'll press this
    let note1 = Note { channel: 3, key: 20 };

    // We'll never press this, but release it
    let note2 = Note { channel: 7, key: 30 };

    let mut state = MidiState::new();

    let note_on_msg1 = MidiMessage::NoteOn {
        channel: note1.channel,
        key: note1.key,
        velocity: 67
    };

    let note_off_msg2 = MidiMessage::NoteOff {
        channel: note2.channel,
        key: note2.key,
        velocity: 100
    };

    let note_off_msg1 = MidiMessage::NoteOff {
        channel: note1.channel,
        key: note1.key,
        velocity: 99
    };

    state.process_message(&note_on_msg1);

    assert!(state.is_note_on(note1.channel, note1.key));
    assert!(!state.is_note_on(note2.channel, note2.key));

    state.process_message(&note_off_msg2);

    assert!(state.is_note_on(note1.channel, note1.key));
    assert!(!state.is_note_on(note2.channel, note2.key));

    state.process_message(&note_off_msg1);

    assert!(!state.is_note_on(note1.channel, note1.key));
    assert!(!state.is_note_on(note2.channel, note2.key));
    assert!(state.no_notes_on());
}

#[test]
fn keeps_track_of_control_changes() {
    let control1 = Control { channel: 1, control: 3 };

    let mut state = MidiState::new();

    assert!(state.control_value(control1.channel, control1.control).is_none());

    let control_change1 = MidiMessage::ControlChange {
        channel: control1.channel,
        control: control1.control,
        value: 40
    };

    state.process_message(&control_change1);

    assert_eq!(state.control_value(control1.channel, control1.control), Some(40));

    let control_change1 = MidiMessage::ControlChange {
        channel: control1.channel,
        control: control1.control,
        value: 50
    };

    state.process_message(&control_change1);

    assert_eq!(state.control_value(control1.channel, control1.control), Some(50));
}

#[test]
fn keeps_track_of_program_changes() {
    let channel = 4u8;

    let mut state = MidiState::new();

    assert!(state.program(channel).is_none());

    let program_change1 = MidiMessage::ProgramChange {
        channel,
        program: 2
    };

    state.process_message(&program_change1);

    assert_eq!(state.program(channel), Some(2));

    let program_change1 = MidiMessage::ProgramChange {
        channel,
        program: 60
    };

    state.process_message(&program_change1);

    assert_eq!(state.program(channel), Some(60));
}

#[test]
fn keeps_track_of_pitch_bend_changes() {
    let channel = 4u8;

    let mut state = MidiState::new();

    assert!(state.pitch_bend(channel).is_none());

    let pitchbend_change1 = MidiMessage::PitchBendChange {
        channel,
        value: 569
    };

    state.process_message(&pitchbend_change1);

    assert_eq!(state.pitch_bend(channel), Some(569));

    let pitchbend_change1 = MidiMessage::PitchBendChange {
        channel,
        value: 421
    };

    state.process_message(&pitchbend_change1);

    assert_eq!(state.pitch_bend(channel), Some(421));
}



#[test]
fn matches_a_held_note() {
    let condition = MidiPrecondition::NoteOn {
        channel_match: Some(NumberMatcher::Val(1)),
        key_match: Some(NumberMatcher::Val(20))
    };

    let mut state = MidiState::new();

    assert!(!state.matches(&condition));

    state.process_message(&MidiMessage::NoteOn { channel: 1, key: 20, velocity: 100 });

    assert!(state.matches(&condition));
}

#[test]
fn does_not_match_held_note_if_channel_does_not_match() {
    let condition = MidiPrecondition::NoteOn {
        channel_match: Some(NumberMatcher::Val(1)),
        key_match: Some(NumberMatcher::Val(20))
    };

    let mut state = MidiState::new();

    state.process_message(&MidiMessage::NoteOn { channel: 3, key: 20, velocity: 100 });

    assert!(!state.matches(&condition));
}

#[test]
fn does_not_match_held_note_if_key_does_not_match() {
    let condition = MidiPrecondition::NoteOn {
        channel_match: Some(NumberMatcher::Val(1)),
        key_match: Some(NumberMatcher::Val(20))
    };

    let mut state = MidiState::new();
    state.process_message(&MidiMessage::NoteOn { channel: 1, key: 40, velocity: 100 });

    assert!(!state.matches(&condition));
}

#[test]
fn matches_a_control_value() {
    let condition = MidiPrecondition::Control {
        channel_match: Some(NumberMatcher::Val(1)),
        control_match: Some(NumberMatcher::Val(20)),
        value_match: Some(NumberMatcher::Val(40))
    };

    let mut state = MidiState::new();

    assert!(!state.matches(&condition));

    state.process_message(&MidiMessage::ControlChange { channel: 1, control: 20, value: 40 });

    assert!(state.matches(&condition));
}

#[test]
fn does_not_match_a_control_if_channel_does_not_match() {
    let condition = MidiPrecondition::Control {
        channel_match: Some(NumberMatcher::Val(1)),
        control_match: Some(NumberMatcher::Val(20)),
        value_match: Some(NumberMatcher::Val(40))
    };

    let mut state = MidiState::new();

    state.process_message(&MidiMessage::ControlChange { channel: 4, control: 20, value: 40 });

    assert!(!state.matches(&condition));
}

#[test]
fn does_not_match_a_control_if_control_number_does_not_match() {
    let condition = MidiPrecondition::Control {
        channel_match: Some(NumberMatcher::Val(1)),
        control_match: Some(NumberMatcher::Val(20)),
        value_match: Some(NumberMatcher::Val(40))
    };

    let mut state = MidiState::new();

    state.process_message(&MidiMessage::ControlChange { channel: 1, control: 30, value: 40 });

    assert!(!state.matches(&condition));
}

#[test]
fn does_not_match_a_control_if_value_does_not_match() {
    let condition = MidiPrecondition::Control {
        channel_match: Some(NumberMatcher::Val(1)),
        control_match: Some(NumberMatcher::Val(20)),
        value_match: Some(NumberMatcher::Val(40))
    };

    let mut state = MidiState::new();

    state.process_message(&MidiMessage::ControlChange { channel: 1, control: 20, value: 60 });

    assert!(!state.matches(&condition));
}

#[test]
fn matches_a_program() {
    let condition = MidiPrecondition::Program {
        channel_match: Some(NumberMatcher::Val(1)),
        program_match: Some(NumberMatcher::Val(20))
    };

    let mut state = MidiState::new();

    assert!(!state.matches(&condition));

    state.process_message(&MidiMessage::ProgramChange { channel: 1, program: 20 });

    assert!(state.matches(&condition));
}

#[test]
fn does_not_match_program_if_channel_does_not_match() {
    let condition = MidiPrecondition::Program {
        channel_match: Some(NumberMatcher::Val(1)),
        program_match: Some(NumberMatcher::Val(20))
    };

    let mut state = MidiState::new();

    state.process_message(&MidiMessage::ProgramChange { channel: 4, program: 20 });

    assert!(!state.matches(&condition));
}

#[test]
fn does_not_match_program_if_program_does_not_match() {
    let condition = MidiPrecondition::Program {
        channel_match: Some(NumberMatcher::Val(1)),
        program_match: Some(NumberMatcher::Val(20))
    };

    let mut state = MidiState::new();

    state.process_message(&MidiMessage::ProgramChange { channel: 1, program: 40 });

    assert!(!state.matches(&condition));
}

#[test]
fn matches_pitch_bend_value() {
    let condition = MidiPrecondition::PitchBend {
        channel_match: Some(NumberMatcher::Val(1)),
        value_match: Some(NumberMatcher::Val(20))
    };

    let mut state = MidiState::new();

    assert!(!state.matches(&condition));

    state.process_message(&MidiMessage::PitchBendChange { channel: 1, value: 20 });

    assert!(state.matches(&condition));
}

#[test]
fn does_not_match_pitch_bend_value_if_channel_does_not_match() {
    let condition = MidiPrecondition::PitchBend {
        channel_match: Some(NumberMatcher::Val(1)),
        value_match: Some(NumberMatcher::Val(20))
    };

    let mut state = MidiState::new();

    state.process_message(&MidiMessage::PitchBendChange { channel: 4, value: 20 });

    assert!(!state.matches(&condition));
}

#[test]
fn does_not_match_pitch_bend_value_if_value_does_not_match() {
    let condition = MidiPrecondition::PitchBend {
        channel_match: Some(NumberMatcher::Val(1)),
        value_match: Some(NumberMatcher::Val(20))
    };

    let mut state = MidiState::new();

    state.process_message(&MidiMessage::PitchBendChange { channel: 1, value: 40 });

    assert!(!state.matches(&condition));
}
