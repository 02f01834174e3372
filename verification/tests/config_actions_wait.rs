#![allow(unused_imports)]
use mmpd::actions::{Action, ControlAction};
use mmpd::config::actions::{
    build_action, build_action_control, build_action_enter_text, build_action_key_sequence,
    build_action_shell, build_action_wait,
};
use mmpd::config::event_matchers::{build_event_matcher, build_midi_event_matcher};
use mmpd::config::macros::{build_macro, build_scope_macros};
use mmpd::config::precondition::{build_midi_precondition, build_precondition};
use mmpd::config::primitive_matchers::{
    build_number_matcher, build_number_matcher_from_musical_note, build_string_matcher,
    build_musical_key_matcher,
};
use mmpd::config::scope::build_scope;
use mmpd::event_matching::{EventMatcher, MatcherType, MidiEventMatcher};
use mmpd::macros::{Macro, MacroBuilder, Scope};
use mmpd::match_checker::{NumberMatcher, StringMatcher};
use mmpd::midi::{parse_keys_from_str, parse_message, MidiMessage};
use mmpd::midi_state::MidiState;
use mmpd::preconditions::{MidiPrecondition, Precondition, PreconditionType};
use mmpd::raw_config::{k, RCHash, RCHashBuilder, RawConfig};
#[test]
fn wait_returns_an_error_if_no_data_is_provided() {
    let action = build_action_wait(None);
    assert!(action.is_err());
}

#[test]
fn builds_action_from_simplified_form() {
    let action = build_action_wait(Some(&RawConfig::Integer(42)))
        .ok().unwrap();

    assert_eq!(action, Action::Wait { duration: 42 });
}

#[test]
fn returns_an_error_if_simplified_form_uses_negative_integer() {
    let action = build_action_wait(Some(&RawConfig::Integer(-5)));
    assert!(action.is_err());
}

#[test]
fn returns_an_error_if_neither_duration_or_duration_ms_are_specified() {
    let action = build_action_wait(Some(&RawConfig::Hash(RCHash::new())));
    assert!(action.is_err());
}

#[test]
fn builds_action_from_duration_field() {
    let mut data_hash = RCHash::new();
    data_hash.insert(k("duration"), RawConfig::Integer(20));
    let action = build_action_wait(Some(&RawConfig::Hash(data_hash)))
        .ok().unwrap();

    assert_eq!(action, Action::Wait { duration: 20 });
}

#[test]
fn builds_action_from_duration_ms_field() {
    let mut data_hash = RCHash::new();
    data_hash.insert(k("duration_ms"), RawConfig::Integer(20));
    let action = build_action_wait(Some(&RawConfig::Hash(data_hash)))
        .ok().unwrap();

    assert_eq!(action, Action::Wait { duration: 20_000 });
}

#[test]
fn returns_error_if_duration_field_is_negative() {
    let mut data_hash = RCHash::new();
    data_hash.insert(k("duration"), RawConfig::Integer(-20));
    let action = build_action_wait(Some(&RawConfig::Hash(data_hash)));

    assert!(action.is_err())
}

#[test]
fn returns_error_if_duration_ms_field_is_negative() {
    let mut data_hash = RCHash::new();
    data_hash.insert(k("duration_ms"), RawConfig::Integer(-20));
    let action = build_action_wait(Some(&RawConfig::Hash(data_hash)));

    assert!(action.is_err())
}

#[test]
fn duration_field_supersedes_duration_ms_field() {
    let mut data_hash = RCHash::new();
    data_hash.insert(k("duration_ms"), RawConfig::Integer(20));
    data_hash.insert(k("duration"), RawConfig::Integer(40));
    let action = build_action_wait(Some(&RawConfig::Hash(data_hash)))
        .ok().unwrap();

    assert_eq!(action, Action::Wait { duration: 40 });
}

#[test]
fn uses_valid_field_if_alternative_is_negative() {
    let mut data_hash = RCHash::new();
    data_hash.insert(k("duration_ms"), RawConfig::Integer(20));
    // Negative = invalid, so "duration should be ignored" where it would normally be used
    // instead of "duration_ms" when both are specified
    data_hash.insert(k("duration"), RawConfig::Integer(-40));
    let action = build_action_wait(Some(&RawConfig::Hash(data_hash)))
        .ok().unwrap();

    assert_eq!(action, Action::Wait { duration: 20_000 });
}

#[test]
fn returns_error_if_both_duration_and_duration_ms_are_negative() {
    let mut data_hash = RCHash::new();
    data_hash.insert(k("duration_ms"), RawConfig::Integer(-20));
    data_hash.insert(k("duration"), RawConfig::Integer(-40));
    let action = build_action_wait(Some(&RawConfig::Hash(data_hash)));

    assert!(action.is_err());
}
