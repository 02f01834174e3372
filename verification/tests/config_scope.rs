#![allow(unused_imports)]
use mmpd::actions::{Action, ControlAction};
use mmpd::config::actions::{
    build_action, build_action_control, build_action_enter_text, build_action_key_sequence,
    build_action_shell, build_action_wait,
};
use mmpd::config::event_matchers::{build_event_matcher, build_midi_event_matcher};
use mmpd::config::macros::{build_macro, build_scope_macros};
use mmpd::config::precondition::{build_midi_precondition, build_precondition};
use mmpd::config::primitive_matchers::{
    build_number_matcher, build_number_matcher_from_musical_note, build_string_matcher,
    build_musical_key_matcher,
};
use mmpd::config::scope::build_scope;
use mmpd::event_matching::{EventMatcher, MatcherType, MidiEventMatcher};
use mmpd::macros::{Macro, MacroBuilder, Scope};
use mmpd::match_checker::{NumberMatcher, StringMatcher};
use mmpd::midi::{parse_keys_from_str, parse_message, MidiMessage};
use mmpd::midi_state::MidiState;
use mmpd::preconditions::{MidiPrecondition, Precondition, PreconditionType};
use mmpd::raw_config::{k, RCHash, RCHashBuilder, RawConfig};
#[test]
fn builds_scope_out_of_matchers_hash() {
    let input = RCHashBuilder::new()
        .insert(
            k("window_class"),
            RawConfig::Hash(
                RCHashBuilder::new()
                    .insert(k("is"), k("class"))
                    .build()
            )
        )
        .insert(
            k("window_name"),
            RawConfig::Hash(
                RCHashBuilder::new()
                    .insert(k("is"), k("name"))
                    .build()
            )
        )
        .insert(
            k("executable_path"),
            RawConfig::Hash(
                RCHashBuilder::new()
                    .insert(k("is"), k("exec_path"))
                    .build()
            )
        )
        .insert(
            k("executable_basename"),
            RawConfig::Hash(
                RCHashBuilder::new()
                    .insert(k("is"), k("exec_basename"))
                    .build()
            )
        )
        .build();

    let scope = build_scope(&input).ok().unwrap().unwrap();

    assert_eq!(
        scope,
        Scope {
            window_class: Some(StringMatcher::Is("class".to_string())),
            window_name: Some(StringMatcher::Is("name".to_string())),
            executable_path: Some(StringMatcher::Is("exec_path".to_string())),
            executable_basename: Some(StringMatcher::Is("exec_basename".to_string()))
        }
    );
}

#[test]
fn builds_scope_with_one_matcher_none() {
    let mut window_class_hash = RCHash::new();
    window_class_hash.insert(k("is"), k("class"));

    let mut input = RCHash::new();
    input.insert(k("window_class"), RawConfig::Hash(window_class_hash));

    let scope = build_scope(&input).ok().unwrap().unwrap();

    assert_eq!(
        scope,
        Scope {
            window_class: Some(StringMatcher::Is("class".to_string())),
            window_name: None,
            executable_path: None,
            executable_basename: None,
        }
    );

    let mut window_name_hash = RCHash::new();
    window_name_hash.insert(k("is"), k("name"));

    let mut input = RCHash::new();
    input.insert(k("window_name"), RawConfig::Hash(window_name_hash));

    let scope = build_scope(&input).ok().unwrap().unwrap();

    assert_eq!(
        scope,
        Scope {
            window_class: None,
            window_name: Some(StringMatcher::Is("name".to_string())),
            executable_path: None,
            executable_basename: None,
        }
    );
}

#[test]
fn build_scope_without_either_matcher_returns_none() {
    let scope = build_scope(&RCHash::new()).ok().unwrap();
    assert!(scope.is_none());
}

#[test]
fn build_scope_with_invalid_string_matcher_returns_error() {
    let mut window_class_hash = RCHash::new();
    window_class_hash.insert(k("regex"), k("foo(bar"));

    let mut input = RCHash::new();
    input.insert(k("window_class"), RawConfig::Hash(window_class_hash));

    let scope = build_scope(&input);

    assert!(scope.is_err());
}
