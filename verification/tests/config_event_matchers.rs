#![allow(unused_imports)]
use mmpd::actions::{Action, ControlAction};
use mmpd::config::actions::{
    build_action, build_action_control, build_action_enter_text, build_action_key_sequence,
    build_action_shell, build_action_wait,
};
use mmpd::config::event_matchers::{build_event_matcher, build_midi_event_matcher};
use mmpd::config::macros::{build_macro, build_scope_macros};
use mmpd::config::precondition::{build_midi_precondition, build_precondition};
use mmpd::config::primitive_matchers::{
    build_number_matcher, build_number_matcher_from_musical_note, build_string_matcher,
    build_musical_key_matcher,
};
use mmpd::config::scope::build_scope;
use mmpd::event_matching::{EventMatcher, MatcherType, MidiEventMatcher};
use mmpd::macros::{Macro, MacroBuilder, Scope};
use mmpd::match_checker::{NumberMatcher, StringMatcher};
use mmpd::midi::{parse_keys_from_str, parse_message, MidiMessage};
use mmpd::midi_state::MidiState;
use mmpd::preconditions::{MidiPrecondition, Precondition, PreconditionType};
use mmpd::raw_config::{k, RCHash, RCHashBuilder, RawConfig};
#[test]
fn returns_error_if_missing_type_field() {
    let data_hash = RCHash::new();

    let mut hash = RCHash::new();
    hash.insert(k("data"), RawConfig::Hash(data_hash));

    let matcher = build_event_matcher(&hash);
    assert!(matcher.is_err());
}

#[test]
fn return_error_if_type_is_an_unsupported_value() {
    let data_hash = RCHash::new();

    let mut hash = RCHash::new();
    hash.insert(k("type"), k("unsupported-type-value"));
    hash.insert(k("data"), RawConfig::Hash(data_hash));

    let matcher = build_event_matcher(&hash);
    assert!(matcher.is_err());
}

#[test]
fn builds_midi_event_matcher() {
    let mut data_hash = RCHash::new();
    data_hash.insert(k("message_type"), k("note_on"));

    let mut hash = RCHash::new();
    hash.insert(k("type"), k("midi"));
    hash.insert(k("data"), RawConfig::Hash(data_hash));

    let matcher = build_event_matcher(&hash)
        .ok().unwrap();

    assert_eq!(
        matcher,
        EventMatcher {
            matcher: MatcherType::Midi(MidiEventMatcher::NoteOn {
                channel_match: None,
                key_match: None,
                velocity_match: None
            }),

            required_preconditions: None
        }
    );
}

#[test]
fn returns_an_error_if_data_for_underlying_matcher_is_invalid() {
    let mut data_hash = RCHash::new();
    data_hash.insert(k("message_type"), k("invalid_message_type"));

    let mut hash = RCHash::new();
    hash.insert(k("type"), k("midi"));
    hash.insert(k("data"), RawConfig::Hash(data_hash));

    let matcher = build_event_matcher(&hash);
    assert!(matcher.is_err());
}

#[test]
fn builds_an_event_matcher_with_preconditions() {
    let mut data_hash = RCHash::new();
    data_hash.insert(k("message_type"), k("note_on"));

    let mut hash = RCHash::new();
    hash.insert(k("type"), k("midi"));
    hash.insert(k("data"), RawConfig::Hash(data_hash));
    hash.insert(k("required_preconditions"), RawConfig::Array(vec![
        RawConfig::Hash(RCHash::new()),
        RawConfig::Hash(RCHash::new()),
        RawConfig::Hash(RCHash::new()),
    ]));

    let matcher = build_event_matcher(&hash)
        .ok().unwrap();

    assert_eq!(
        matcher,
        EventMatcher {
            matcher: MatcherType::Midi(MidiEventMatcher::NoteOn {
                channel_match: None,
                key_match: None,
                velocity_match: None
            }),

            required_preconditions: Some(vec![
                Precondition { invert: false, condition: PreconditionType::Other },
                Precondition { invert: false, condition: PreconditionType::Other },
                Precondition { invert: false, condition: PreconditionType::Other },
            ])
        }
    );
}
