#![allow(unused_imports)]
use mmpd::actions::{Action, ControlAction};
use mmpd::config::actions::{
    build_action, build_action_control, build_action_enter_text, build_action_key_sequence,
    build_action_shell, build_action_wait,
};
use mmpd::config::event_matchers::{build_event_matcher, build_midi_event_matcher};
use mmpd::config::macros::{build_macro, build_scope_macros};
use mmpd::config::precondition::{build_midi_precondition, build_precondition};
use mmpd::config::primitive_matchers::{
    build_number_matcher, build_number_matcher_from_musical_note, build_string_matcher,
    build_musical_key_matcher,
};
use mmpd::config::scope::build_scope;
use mmpd::event_matching::{EventMatcher, MatcherType, MidiEventMatcher};
use mmpd::macros::{Macro, MacroBuilder, Scope};
use mmpd::match_checker::{NumberMatcher, StringMatcher};
use mmpd::midi::{parse_keys_from_str, parse_message, MidiMessage};
use mmpd::midi_state::MidiState;
use mmpd::preconditions::{MidiPrecondition, Precondition, PreconditionType};
use mmpd::raw_config::{k, RCHash, RCHashBuilder, RawConfig};
#[test]
fn builds_a_valid_precondition() {
    let mut hash = RCHash::new();
    hash.insert(k("type"), k("midi"));
    hash.insert(k("invert"), RawConfig::Bool(true));

    let mut midi_hash = RCHash::new();
    midi_hash.insert(k("condition_type"), k("program"));

    hash.insert(k("data"), RawConfig::Hash(midi_hash));

    let condition = build_precondition(&hash)
        .ok().unwrap();

    assert_eq!(
        condition,
        Precondition {
            invert: true,
            condition: PreconditionType::Midi(
                MidiPrecondition::Program {
                    channel_match: None,
                    program_match: None
                }
            )
        }
    );
}

#[test]
fn precondition_returns_an_error_if_type_field_is_missing() {
    let hash = RCHash::new();
    let condition = build_precondition(&hash);
    assert!(condition.is_err());
}

#[test]
fn returns_an_error_if_type_field_has_invalid_value() {
    let mut hash = RCHash::new();
    hash.insert(k("type"), k("InvalidType"));
    let condition = build_precondition(&hash);
    assert!(condition.is_err());
}

#[test]
fn returns_an_error_if_downstream_build_errors() {
    let mut hash = RCHash::new();
    hash.insert(k("type"), k("midi"));
    hash.insert(k("data"), RawConfig::Null);
    let condition = build_precondition(&hash);
    assert!(condition.is_err());
}
