#![allow(unused_imports)]
use mmpd::actions::{Action, ControlAction};
use mmpd::config::actions::{
    build_action, build_action_control, build_action_enter_text, build_action_key_sequence,
    build_action_shell, build_action_wait,
};
use mmpd::config::event_matchers::{build_event_matcher, build_midi_event_matcher};
use mmpd::config::macros::{build_macro, build_scope_macros};
use mmpd::config::precondition::{build_midi_precondition, build_precondition};
use mmpd::config::primitive_matchers::{
    build_number_matcher, build_number_matcher_from_musical_note, build_string_matcher,
    build_musical_key_matcher,
};
use mmpd::config::scope::build_scope;
use mmpd::event_matching::{EventMatcher, MatcherType, MidiEventMatcher};
use mmpd::macros::{Macro, MacroBuilder, Scope};
use mmpd::match_checker::{NumberMatcher, StringMatcher};
use mmpd::midi::{parse_keys_from_str, parse_message, MidiMessage};
use mmpd::midi_state::MidiState;
use mmpd::preconditions::{MidiPrecondition, Precondition, PreconditionType};
use mmpd::raw_config::{k, RCHash, RCHashBuilder, RawConfig};
#[test]
fn key_sequence_returns_an_error_if_no_data_is_provided() {
    let action = build_action_key_sequence(None);
    assert!(action.is_err());
}

#[test]
fn builds_key_sequence_action_from_simplified_form() {
    let action = build_action_key_sequence(
        Some(&RawConfig::String("ctrl+shift+t".to_string()))
    ).ok().unwrap();

    assert_eq!(action, Action::KeySequence { sequence: "ctrl+shift+t".to_string(), count: 1, delay: None });
}

#[test]
fn builds_key_sequence_action_from_hash_with_count() {
    let mut data_hash = RCHash::new();
    data_hash.insert(k("sequence"), k("ctrl+shift+t"));
    data_hash.insert(k("count"), RawConfig::Integer(3));

    let action = build_action_key_sequence(Some(&RawConfig::Hash(data_hash)))
        .ok().unwrap();

    assert_eq!(action, Action::KeySequence { sequence: "ctrl+shift+t".to_string(), count: 3, delay: None });
}

#[test]
fn builds_key_sequence_action_from_hash_without_count() {
    let mut data_hash = RCHash::new();
    data_hash.insert(k("sequence"), k("ctrl+shift+t"));

    let action = build_action_key_sequence(Some(&RawConfig::Hash(data_hash)))
        .ok().unwrap();

    assert_eq!(action, Action::KeySequence { sequence: "ctrl+shift+t".to_string(), count: 1, delay: None });
}

#[test]
fn key_sequence_returns_an_error_if_count_is_negative() {
    let mut data_hash = RCHash::new();
    data_hash.insert(k("text"), k("Hello world"));
    data_hash.insert(k("count"), RawConfig::Integer(-5));

    let action = build_action_key_sequence(Some(&RawConfig::Hash(data_hash)));

    assert!(action.is_err());
}

#[test]
fn key_sequence_returns_an_error_if_data_is_neither_hash_or_string() {
    let action = build_action_key_sequence(Some(&RawConfig::Null));
    assert!(action.is_err());
}
