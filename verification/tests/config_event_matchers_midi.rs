#![allow(unused_imports)]
use mmpd::actions::{Action, ControlAction};
use mmpd::config::actions::{
    build_action, build_action_control, build_action_enter_text, build_action_key_sequence,
    build_action_shell, build_action_wait,
};
use mmpd::config::event_matchers::{build_event_matcher, build_midi_event_matcher};
use mmpd::config::macros::{build_macro, build_scope_macros};
use mmpd::config::precondition::{build_midi_precondition, build_precondition};
use mmpd::config::primitive_matchers::{
    build_number_matcher, build_number_matcher_from_musical_note, build_string_matcher,
    build_musical_key_matcher,
};
use mmpd::config::scope::build_scope;
use mmpd::event_matching::{EventMatcher, MatcherType, MidiEventMatcher};
use mmpd::macros::{Macro, MacroBuilder, Scope};
use mmpd::match_checker::{NumberMatcher, StringMatcher};
use mmpd::midi::{parse_keys_from_str, parse_message, MidiMessage};
use mmpd::midi_state::MidiState;
use mmpd::preconditions::{MidiPrecondition, Precondition, PreconditionType};
use mmpd::raw_config::{k, RCHash, RCHashBuilder, RawConfig};
#[test]
fn returns_an_error_if_no_data_is_given() {
    let matcher = build_midi_event_matcher(None);
    assert!(matcher.is_err());
}

#[test]
fn returns_an_error_if_message_type_field_is_missing() {
    let mut hash = RCHash::new();
    hash.insert(k("channel"), RawConfig::Integer(0));

    let matcher = build_midi_event_matcher(Some(&hash));
    assert!(matcher.is_err());
}

#[test]
fn returns_an_error_if_message_type_has_an_unknown_value() {
    let mut hash = RCHash::new();
    hash.insert(k("message_type"), k("unsupported-message-type"));

    let matcher = build_midi_event_matcher(Some(&hash));
    assert!(matcher.is_err());
}

#[test]
fn returns_an_error_if_an_invalid_number_matcher_is_specified() {
    let mut hash = RCHash::new();
    hash.insert(k("message_type"), k("note_on"));
    hash.insert(k("channel"), RawConfig::Integer(-3)); // negative ints not allowed

    let matcher = build_midi_event_matcher(Some(&hash));
    assert!(matcher.is_err());
}

#[test]
fn builds_note_on_matcher() {
    let mut hash = RCHash::new();
    hash.insert(k("message_type"), k("note_on"));
    hash.insert(k("channel"), RawConfig::Integer(0));
    hash.insert(k("key"), RawConfig::Integer(20));
    hash.insert(k("velocity"), RawConfig::Integer(40));

    let matcher = build_midi_event_matcher(Some(&hash)).ok().unwrap();

    assert_eq!(
        matcher,
        MidiEventMatcher::NoteOn {
            channel_match: Some(NumberMatcher::Val(0)),
            key_match: Some(NumberMatcher::Val(20)),
            velocity_match: Some(NumberMatcher::Val(40))
        }
    );

    // Without any optional matchers
    let mut hash = RCHash::new();
    hash.insert(k("message_type"), k("note_on"));

    let matcher = build_midi_event_matcher(Some(&hash)).ok().unwrap();

    assert_eq!(
        matcher,
        MidiEventMatcher::NoteOn {
            channel_match: None,
            key_match: None,
            velocity_match: None
        }
    );

    // With string key matcher
    let hash = RCHashBuilder::new()
        .insert(k("message_type"), k("note_on"))
        .insert(k("key"), k("C3"))
        .build();

    let matcher = build_midi_event_matcher(Some(&hash))
        .ok().unwrap();

    assert_eq!(
        matcher,
        MidiEventMatcher::NoteOn {
            channel_match: None,
            key_match: Some(NumberMatcher::Val(48)),
            velocity_match: None
        }
    );
}

#[test]
fn builds_note_off_matcher() {
    let mut hash = RCHash::new();
    hash.insert(k("message_type"), k("note_off"));
    hash.insert(k("channel"), RawConfig::Integer(0));
    hash.insert(k("key"), RawConfig::Integer(20));
    hash.insert(k("velocity"), RawConfig::Integer(40));

    let matcher = build_midi_event_matcher(Some(&hash)).ok().unwrap();

    assert_eq!(
        matcher,
        MidiEventMatcher::NoteOff {
            channel_match: Some(NumberMatcher::Val(0)),
            key_match: Some(NumberMatcher::Val(20)),
            velocity_match: Some(NumberMatcher::Val(40))
        }
    );

    // Without any optional matchers
    let mut hash = RCHash::new();
    hash.insert(k("message_type"), k("note_off"));

    let matcher = build_midi_event_matcher(Some(&hash)).ok().unwrap();

    assert_eq!(
        matcher,
        MidiEventMatcher::NoteOff {
            channel_match: None,
            key_match: None,
            velocity_match: None
        }
    );

    // With string key matcher
    let hash = RCHashBuilder::new()
        .insert(k("message_type"), k("note_off"))
        .insert(k("key"), k("C3"))
        .build();

    let matcher = build_midi_event_matcher(Some(&hash))
        .ok().unwrap();

    assert_eq!(
        matcher,
        MidiEventMatcher::NoteOff {
            channel_match: None,
            key_match: Some(NumberMatcher::Val(48)),
            velocity_match: None
        }
    );

}

#[test]
fn build_poly_aftertouch_matcher() {
    let mut hash = RCHash::new();
    hash.insert(k("message_type"), k("poly_aftertouch"));
    hash.insert(k("channel"), RawConfig::Integer(0));
    hash.insert(k("key"), RawConfig::Integer(20));
    hash.insert(k("value"), RawConfig::Integer(40));

    let matcher = build_midi_event_matcher(Some(&hash)).ok().unwrap();

    assert_eq!(
        matcher,
        MidiEventMatcher::PolyAftertouch {
            channel_match: Some(NumberMatcher::Val(0)),
            key_match: Some(NumberMatcher::Val(20)),
            value_match: Some(NumberMatcher::Val(40))
        }
    );

    // Without any optional matchers
    let mut hash = RCHash::new();
    hash.insert(k("message_type"), k("poly_aftertouch"));

    let matcher = build_midi_event_matcher(Some(&hash)).ok().unwrap();

    assert_eq!(
        matcher,
        MidiEventMatcher::PolyAftertouch {
            channel_match: None,
            key_match: None,
            value_match: None
        }
    );

    // With string key matcher
    let hash = RCHashBuilder::new()
        .insert(k("message_type"), k("poly_aftertouch"))
        .insert(k("key"), k("C3"))
        .build();

    let matcher = build_midi_event_matcher(Some(&hash))
        .ok().unwrap();

    assert_eq!(
        matcher,
        MidiEventMatcher::PolyAftertouch {
            channel_match: None,
            key_match: Some(NumberMatcher::Val(48)),
            value_match: None
        }
    );
}

#[test]
fn build_control_change_matcher() {
    let mut hash = RCHash::new();
    hash.insert(k("message_type"), k("control_change"));
    hash.insert(k("channel"), RawConfig::Integer(0));
    hash.insert(k("control"), RawConfig::Integer(20));
    hash.insert(k("value"), RawConfig::Integer(40));

    let matcher = build_midi_event_matcher(Some(&hash)).ok().unwrap();

    assert_eq!(
        matcher,
        MidiEventMatcher::ControlChange {
            channel_match: Some(NumberMatcher::Val(0)),
            control_match: Some(NumberMatcher::Val(20)),
            value_match: Some(NumberMatcher::Val(40))
        }
    );

    // Without any optional matchers
    let mut hash = RCHash::new();
    hash.insert(k("message_type"), k("control_change"));

    let matcher = build_midi_event_matcher(Some(&hash)).ok().unwrap();

    assert_eq!(
        matcher,
        MidiEventMatcher::ControlChange {
            channel_match: None,
            control_match: None,
            value_match: None
        }
    );
}

#[test]
fn build_program_change_matcher() {
    let mut hash = RCHash::new();
    hash.insert(k("message_type"), k("program_change"));
    hash.insert(k("channel"), RawConfig::Integer(0));
    hash.insert(k("program"), RawConfig::Integer(20));

    let matcher = build_midi_event_matcher(Some(&hash)).ok().unwrap();

    assert_eq!(
        matcher,
        MidiEventMatcher::ProgramChange {
            channel_match: Some(NumberMatcher::Val(0)),
            program_match: Some(NumberMatcher::Val(20)),
        }
    );

    // Without any optional matchers
    let mut hash = RCHash::new();
    hash.insert(k("message_type"), k("program_change"));

    let matcher = build_midi_event_matcher(Some(&hash)).ok().unwrap();

    assert_eq!(
        matcher,
        MidiEventMatcher::ProgramChange {
            channel_match: None,
            program_match: None,
        }
    );
}

#[test]
fn build_channel_aftertouch_matcher() {
    let mut hash = RCHash::new();
    hash.insert(k("message_type"), k("channel_aftertouch"));
    hash.insert(k("channel"), RawConfig::Integer(0));
    hash.insert(k("value"), RawConfig::Integer(20));

    let matcher = build_midi_event_matcher(Some(&hash)).ok().unwrap();

    assert_eq!(
        matcher,
        MidiEventMatcher::ChannelAftertouch {
            channel_match: Some(NumberMatcher::Val(0)),
            value_match: Some(NumberMatcher::Val(20)),
        }
    );

    // Without any optional matchers
    let mut hash = RCHash::new();
    hash.insert(k("message_type"), k("channel_aftertouch"));

    let matcher = build_midi_event_matcher(Some(&hash)).ok().unwrap();

    assert_eq!(
        matcher,
        MidiEventMatcher::ChannelAftertouch {
            channel_match: None,
            value_match: None,
        }
    );
}

#[test]
fn build_pitch_bend_change_matcher() {
    let mut hash = RCHash::new();
    hash.insert(k("message_type"), k("pitch_bend_change"));
    hash.insert(k("channel"), RawConfig::Integer(0));
    hash.insert(k("value"), RawConfig::Integer(20));

    let matcher = build_midi_event_matcher(Some(&hash)).ok().unwrap();

    assert_eq!(
        matcher,
        MidiEventMatcher::PitchBendChange {
            channel_match: Some(NumberMatcher::Val(0)),
            value_match: Some(NumberMatcher::Val(20)),
        }
    );

    // Without any optional matchers
    let mut hash = RCHash::new();
    hash.insert(k("message_type"), k("pitch_bend_change"));

    let matcher = build_midi_event_matcher(Some(&hash)).ok().unwrap();

    assert_eq!(
        matcher,
        MidiEventMatcher::PitchBendChange {
            channel_match: None,
            value_match: None,
        }
    );
}
