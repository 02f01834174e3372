#![allow(unused_imports)]
use mmpd::actions::{Action, ControlAction};
use mmpd::config::actions::{
    build_action, build_action_control, build_action_enter_text, build_action_key_sequence,
    build_action_shell, build_action_wait,
};
use mmpd::config::event_matchers::{build_event_matcher, build_midi_event_matcher};
use mmpd::config::macros::{build_macro, build_scope_macros};
use mmpd::config::precondition::{build_midi_precondition, build_precondition};
use mmpd::config::primitive_matchers::{
    build_number_matcher, build_number_matcher_from_musical_note, build_string_matcher,
    build_musical_key_matcher,
};
use mmpd::config::scope::build_scope;
use mmpd::event_matching::{EventMatcher, MatcherType, MidiEventMatcher};
use mmpd::macros::{Macro, MacroBuilder, Scope};
use mmpd::match_checker::{NumberMatcher, StringMatcher};
use mmpd::midi::{parse_keys_from_str, parse_message, MidiMessage};
use mmpd::midi_state::MidiState;
use mmpd::preconditions::{MidiPrecondition, Precondition, PreconditionType};
use mmpd::raw_config::{k, RCHash, RCHashBuilder, RawConfig};
#[test]
fn builds_is_string_matcher() {
    let mut input = RCHash::new();
    input.insert(k("is"), k("match"));

    let matcher = build_string_matcher(Some(&input))
        .ok().unwrap().unwrap();

    assert_eq!(matcher, StringMatcher::Is("match".to_string()))
}

#[test]
fn builds_contains_string_matcher() {
    let mut input = RCHash::new();
    input.insert(k("contains"), k("match"));

    let matcher = build_string_matcher(Some(&input))
        .ok().unwrap().unwrap();

    assert_eq!(matcher, StringMatcher::Contains("match".to_string()));
}

#[test]
fn builds_starts_with_string_matcher() {
    let mut input = RCHash::new();
    input.insert(k("starts_with"), k("match"));

    let matcher = build_string_matcher(Some(&input))
        .ok().unwrap().unwrap();

    assert_eq!(matcher, StringMatcher::StartsWith("match".to_string()));
}

#[test]
fn builds_ends_with_string_matcher() {
    let mut input = RCHash::new();
    input.insert(k("ends_with"), k("match"));

    let matcher = build_string_matcher(Some(&input))
        .ok().unwrap().unwrap();

    assert_eq!(matcher, StringMatcher::EndsWith("match".to_string()));
}

#[test]
fn builds_regex_string_matcher() {
    let mut input = RCHash::new();
    input.insert(k("regex"), k("foo|bar"));

    let matcher = build_string_matcher(Some(&input))
        .ok().unwrap().unwrap();

    assert_eq!(matcher, StringMatcher::Regex("foo|bar".to_string()));
}

#[test]
fn regex_string_matcher_returns_error_on_invalid_regex() {
    let mut input = RCHash::new();
    input.insert(k("regex"), k("foo(bar"));

    let matcher = build_string_matcher(Some(&input));

    assert!(matcher.is_err());
}

#[test]
fn builds_none_string_matcher_if_key_not_found() {
    let mut input = RCHash::new();
    input.insert(k("gobbledygook"), k("hello"));

    let matcher = build_string_matcher(Some(&input));

    assert!(if let Ok(None) = matcher { true } else { false });
}

#[test]
fn ignores_capitalisation_in_string_matcher_keys() {
    let mut input_is = RCHash::new();
    input_is.insert(k("Is"), k("match"));
    let matcher_is = build_string_matcher(Some(&input_is))
        .ok().unwrap().unwrap();

    let mut input_contains = RCHash::new();
    input_contains.insert(k("conTaInS"), k("match"));
    let matcher_contains = build_string_matcher(Some(&input_contains))
        .ok().unwrap().unwrap();

    let mut input_starts_with = RCHash::new();
    input_starts_with.insert(k("StArTs_WITH"), k("match"));
    let matcher_starts_with = build_string_matcher(Some(&input_starts_with))
        .ok().unwrap().unwrap();

    let mut input_ends_with = RCHash::new();
    input_ends_with.insert(k("Ends_WITH"), k("match"));
    let matcher_ends_with = build_string_matcher(Some(&input_ends_with))
        .ok().unwrap().unwrap();

    let mut input_regex = RCHash::new();
    input_regex.insert(k("REGEx"), k("match|other_match"));
    let matcher_regex = build_string_matcher(Some(&input_regex))
        .ok().unwrap().unwrap();


    assert_eq!(matcher_is, StringMatcher::Is("match".to_string()));
    assert_eq!(matcher_contains, StringMatcher::Contains("match".to_string()));
    assert_eq!(matcher_starts_with, StringMatcher::StartsWith("match".to_string()));
    assert_eq!(matcher_ends_with, StringMatcher::EndsWith("match".to_string()));
    assert_eq!(matcher_regex, StringMatcher::Regex("match|other_match".to_string()));
}



#[test]
fn build_val_number_matcher() {
    let input_pos = RawConfig::Integer(7);
    let matcher_pos = build_number_matcher(Some(&input_pos))
        .ok().unwrap().unwrap();

    let input_zero = RawConfig::Integer(0);
    let matcher_zero = build_number_matcher(Some(&input_zero))
        .ok().unwrap().unwrap();

    assert_eq!(matcher_pos, NumberMatcher::Val(7));
    assert_eq!(matcher_zero, NumberMatcher::Val(0));
}

#[test]
fn returns_an_error_on_negative_val() {
    let input = RawConfig::Integer(-7);

    let matcher = build_number_matcher(Some(&input));

    assert!(matcher.is_err());
}

#[test]
fn builds_range_number_matcher() {
    let mut input = RCHash::new();
    input.insert(k("min"), RawConfig::Integer(7));
    input.insert(k("max"), RawConfig::Integer(10));

    let matcher = build_number_matcher(Some(&RawConfig::Hash(input)))
        .ok().unwrap().unwrap();

    assert_eq!(matcher, NumberMatcher::Range { min: Some(7), max: Some(10) });
}

#[test]
fn builds_open_ended_range_number_matcher() {
    let mut input_min = RCHash::new();
    input_min.insert(k("min"), RawConfig::Integer(7));
    let matcher_min = build_number_matcher(Some(&RawConfig::Hash(input_min)))
        .ok().unwrap().unwrap();

    let mut input_max = RCHash::new();
    input_max.insert(k("max"), RawConfig::Integer(10));
    let matcher_max = build_number_matcher(Some(&RawConfig::Hash(input_max)))
        .ok().unwrap().unwrap();

    assert_eq!(matcher_min, NumberMatcher::Range { min: Some(7), max: None });
    assert_eq!(matcher_max, NumberMatcher::Range { min: None, max: Some(10) });
}

#[test]
fn returns_error_when_range_min_or_max_are_negative() {
    let mut input_min_neg = RCHash::new();
    input_min_neg.insert(k("min"), RawConfig::Integer(-3));
    input_min_neg.insert(k("max"), RawConfig::Integer(9));
    let matcher_min_neg = build_number_matcher(Some(&RawConfig::Hash(input_min_neg)));

    let mut input_max_neg = RCHash::new();
    input_max_neg.insert(k("min"), RawConfig::Integer(2));
    input_max_neg.insert(k("max"), RawConfig::Integer(-9));
    let matcher_max_neg = build_number_matcher(Some(&RawConfig::Hash(input_max_neg)));

    let mut input_both_neg = RCHash::new();
    input_both_neg.insert(k("min"), RawConfig::Integer(-3));
    input_both_neg.insert(k("max"), RawConfig::Integer(-1));
    let matcher_both_neg = build_number_matcher(Some(&RawConfig::Hash(input_both_neg)));

    assert!(matcher_min_neg.is_err());
    assert!(matcher_max_neg.is_err());
    assert!(matcher_both_neg.is_err());
}

#[test]
fn returns_error_when_range_min_is_greater_than_max() {
    let mut input = RCHash::new();
    input.insert(k("min"), RawConfig::Integer(10));
    input.insert(k("max"), RawConfig::Integer(7));

    let matcher = build_number_matcher(Some(&RawConfig::Hash(input)));

    assert!(matcher.is_err());
}

#[test]
fn builds_list_of_number_matchers() {
    let mut range_input_hash = RCHash::new();
    range_input_hash.insert(k("min"), RawConfig::Integer(12));
    range_input_hash.insert(k("max"), RawConfig::Integer(18));

    let input = RawConfig::Array(vec![
        RawConfig::Integer(3),
        RawConfig::Integer(7),
        RawConfig::Hash(range_input_hash),
        RawConfig::Array(vec![
            RawConfig::Integer(23),
            RawConfig::Integer(42)
        ])
    ]);

    let matcher = build_number_matcher(Some(&input))
        .ok().unwrap().unwrap();

    assert_eq!(
        matcher,
        NumberMatcher::List(vec![
            NumberMatcher::Val(3),
            NumberMatcher::Val(7),
            NumberMatcher::Range { min: Some(12), max: Some(18) },
            NumberMatcher::List(vec![
                NumberMatcher::Val(23),
                NumberMatcher::Val(42)
            ])
        ])
    )
}



#[test]
fn returns_error_on_invalid_key() {
    let key_str = "NYERGH";

    let matcher = build_number_matcher_from_musical_note(key_str);

    assert!(matcher.is_err());
}

#[test]
fn builds_val_number_matcher_if_one_note_is_returned() {
    let key_str = "C3";

    let matcher = build_number_matcher_from_musical_note(key_str)
        .ok().unwrap();

    assert_eq!(matcher, NumberMatcher::Val(48));
}

#[test]
fn builds_list_number_matcher_if_multiple_notes_are_returned() {
    let key_str = "Eb";

    let matcher = build_number_matcher_from_musical_note(key_str)
        .ok().unwrap();

    assert_eq!(
        matcher,
        NumberMatcher::List(vec![
            NumberMatcher::Val(3),
            NumberMatcher::Val(15),
            NumberMatcher::Val(27),
            NumberMatcher::Val(39),
            NumberMatcher::Val(51),
            NumberMatcher::Val(63),
            NumberMatcher::Val(75),
            NumberMatcher::Val(87),
            NumberMatcher::Val(99),
            NumberMatcher::Val(111),
            NumberMatcher::Val(123)
        ])
    );
}
