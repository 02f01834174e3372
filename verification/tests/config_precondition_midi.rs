#![allow(unused_imports)]
use mmpd::actions::{Action, ControlAction};
use mmpd::config::actions::{
    build_action, build_action_control, build_action_enter_text, build_action_key_sequence,
    build_action_shell, build_action_wait,
};
use mmpd::config::event_matchers::{build_event_matcher, build_midi_event_matcher};
use mmpd::config::macros::{build_macro, build_scope_macros};
use mmpd::config::precondition::{build_midi_precondition, build_precondition};
use mmpd::config::primitive_matchers::{
    build_number_matcher, build_number_matcher_from_musical_note, build_string_matcher,
    build_musical_key_matcher,
};
use mmpd::config::scope::build_scope;
use mmpd::event_matching::{EventMatcher, MatcherType, MidiEventMatcher};
use mmpd::macros::{Macro, MacroBuilder, Scope};
use mmpd::match_checker::{NumberMatcher, StringMatcher};
use mmpd::midi::{parse_keys_from_str, parse_message, MidiMessage};
use mmpd::midi_state::MidiState;
use mmpd::preconditions::{MidiPrecondition, Precondition, PreconditionType};
use mmpd::raw_config::{k, RCHash, RCHashBuilder, RawConfig};
#[test]
fn builds_note_on_precondition() {
    let mut hash = RCHash::new();
    hash.insert(k("condition_type"), k("note_on"));
    hash.insert(k("channel"), RawConfig::Integer(2));
    hash.insert(k("key"), RawConfig::Integer(42));

    let condition = build_midi_precondition(Some(&hash))
        .ok().unwrap();

    assert_eq!(
        condition,
        MidiPrecondition::NoteOn {
            channel_match: Some(NumberMatcher::Val(2)),
            key_match: Some(NumberMatcher::Val(42))
        }
    );

    // Sparse version
    let mut hash = RCHash::new();
    hash.insert(k("condition_type"), k("note_on"));

    let condition = build_midi_precondition(Some(&hash))
        .ok().unwrap();

    assert_eq!(
        condition,
        MidiPrecondition::NoteOn {
            channel_match: None,
            key_match: None
        }
    );

    // With string key matcher
    let hash = RCHashBuilder::new()
        .insert(k("condition_type"), k("note_on"))
        .insert(k("key"), k("C3"))
        .build();

    let condition = build_midi_precondition(Some(&hash))
        .ok().unwrap();

    assert_eq!(
        condition,
        MidiPrecondition::NoteOn {
            channel_match: None,
            key_match: Some(NumberMatcher::Val(48))
        }
    )
}

#[test]
fn builds_control_precondition() {
    let mut hash = RCHash::new();
    hash.insert(k("condition_type"), k("control"));
    hash.insert(k("channel"), RawConfig::Integer(2));
    hash.insert(k("control"), RawConfig::Integer(1));
    hash.insert(k("value"), RawConfig::Integer(75));

    let condition = build_midi_precondition(Some(&hash))
        .ok().unwrap();

    assert_eq!(
        condition,
        MidiPrecondition::Control {
            channel_match: Some(NumberMatcher::Val(2)),
            control_match: Some(NumberMatcher::Val(1)),
            value_match: Some(NumberMatcher::Val(75))
        }
    );

    // Sparse version
    let mut hash = RCHash::new();
    hash.insert(k("condition_type"), k("control"));

    let condition = build_midi_precondition(Some(&hash))
        .ok().unwrap();

    assert_eq!(
        condition,
        MidiPrecondition::Control {
            channel_match: None,
            control_match: None,
            value_match: None
        }
    );
}

#[test]
fn builds_program_precondition() {
    let mut hash = RCHash::new();
    hash.insert(k("condition_type"), k("program"));
    hash.insert(k("channel"), RawConfig::Integer(2));
    hash.insert(k("program"), RawConfig::Integer(42));

    let condition = build_midi_precondition(Some(&hash))
        .ok().unwrap();

    assert_eq!(
        condition,
        MidiPrecondition::Program {
            channel_match: Some(NumberMatcher::Val(2)),
            program_match: Some(NumberMatcher::Val(42))
        }
    );

    // Sparse version
    let mut hash = RCHash::new();
    hash.insert(k("condition_type"), k("program"));

    let condition = build_midi_precondition(Some(&hash))
        .ok().unwrap();

    assert_eq!(
        condition,
        MidiPrecondition::Program {
            channel_match: None,
            program_match: None
        }
    );
}

#[test]
fn builds_pitch_bend_precondition() {
    let mut hash = RCHash::new();
    hash.insert(k("condition_type"), k("pitch_bend"));
    hash.insert(k("channel"), RawConfig::Integer(2));
    hash.insert(k("value"), RawConfig::Integer(42));

    let condition = build_midi_precondition(Some(&hash))
        .ok().unwrap();

    assert_eq!(
        condition,
        MidiPrecondition::PitchBend {
            channel_match: Some(NumberMatcher::Val(2)),
            value_match: Some(NumberMatcher::Val(42))
        }
    );

    // Sparse version
    let mut hash = RCHash::new();
    hash.insert(k("condition_type"), k("pitch_bend"));

    let condition = build_midi_precondition(Some(&hash))
        .ok().unwrap();

    assert_eq!(
        condition,
        MidiPrecondition::PitchBend {
            channel_match: None,
            value_match: None,
        }
    );
}

#[test]
fn returns_error_if_no_data_provided() {
    let condition = build_midi_precondition(None);
    assert!(condition.is_err());
}

#[test]
fn returns_error_if_condition_type_field_is_missing() {
    let hash = RCHash::new();
    let condition = build_midi_precondition(Some(&hash));
    assert!(condition.is_err());
}

#[test]
fn returns_error_if_condition_type_has_invalid_value() {
    let mut hash = RCHash::new();
    hash.insert(k("condition_type"), k("InvalidValueHere"));

    let condition = build_midi_precondition(Some(&hash));
    assert!(condition.is_err());
}

#[test]
fn returns_error_if_invalid_number_matcher_data_provided() {
    // note_on, bad data for channel
    let mut hash = RCHash::new();
    hash.insert(k("condition_type"), k("note_on"));
    hash.insert(k("channel"), RawConfig::Integer(-1));
    let condition = build_midi_precondition(Some(&hash));
    assert!(condition.is_err());

    // note_on, bad data for key
    let mut hash = RCHash::new();
    hash.insert(k("condition_type"), k("note_on"));
    hash.insert(k("key"), RawConfig::Integer(-1));
    let condition = build_midi_precondition(Some(&hash));
    assert!(condition.is_err());

    // control, bad data for channel
    let mut hash = RCHash::new();
    hash.insert(k("condition_type"), k("control"));
    hash.insert(k("channel"), RawConfig::Integer(-1));
    let condition = build_midi_precondition(Some(&hash));
    assert!(condition.is_err());

    // control, bad data for control
    let mut hash = RCHash::new();
    hash.insert(k("condition_type"), k("control"));
    hash.insert(k("control"), RawConfig::Integer(-1));
    let condition = build_midi_precondition(Some(&hash));
    assert!(condition.is_err());

    // control, bad data for value
    let mut hash = RCHash::new();
    hash.insert(k("condition_type"), k("control"));
    hash.insert(k("value"), RawConfig::Integer(-1));
    let condition = build_midi_precondition(Some(&hash));
    assert!(condition.is_err());

    // program, bad data for channel
    let mut hash = RCHash::new();
    hash.insert(k("condition_type"), k("program"));
    hash.insert(k("channel"), RawConfig::Integer(-1));
    let condition = build_midi_precondition(Some(&hash));
    assert!(condition.is_err());

    // program, bad data for program
    let mut hash = RCHash::new();
    hash.insert(k("condition_type"), k("program"));
    hash.insert(k("program"), RawConfig::Integer(-1));
    let condition = build_midi_precondition(Some(&hash));
    assert!(condition.is_err());

    // pitch_bend, bad data for channel
    let mut hash = RCHash::new();
    hash.insert(k("condition_type"), k("pitch_bend"));
    hash.insert(k("channel"), RawConfig::Integer(-1));
    let condition = build_midi_precondition(Some(&hash));
    assert!(condition.is_err());

    // pitch_bend bad data for value
    let mut hash = RCHash::new();
    hash.insert(k("condition_type"), k("pitch_bend"));
    hash.insert(k("value"), RawConfig::Integer(-1));
    let condition = build_midi_precondition(Some(&hash));
    assert!(condition.is_err());
}
