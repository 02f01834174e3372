#![allow(unused_imports)]
use mmpd::actions::{Action, ControlAction};
use mmpd::config::actions::{
    build_action, build_action_control, build_action_enter_text, build_action_key_sequence,
    build_action_shell, build_action_wait,
};
use mmpd::config::event_matchers::{build_event_matcher, build_midi_event_matcher};
use mmpd::config::macros::{build_macro, build_scope_macros};
use mmpd::config::precondition::{build_midi_precondition, build_precondition};
use mmpd::config::primitive_matchers::{
    build_number_matcher, build_number_matcher_from_musical_note, build_string_matcher,
    build_musical_key_matcher,
};
use mmpd::config::scope::build_scope;
use mmpd::event_matching::{EventMatcher, MatcherType, MidiEventMatcher};
use mmpd::macros::{Macro, MacroBuilder, Scope};
use mmpd::match_checker::{NumberMatcher, StringMatcher};
use mmpd::midi::{parse_keys_from_str, parse_message, MidiMessage};
use mmpd::midi_state::MidiState;
use mmpd::preconditions::{MidiPrecondition, Precondition, PreconditionType};
use mmpd::raw_config::{k, RCHash, RCHashBuilder, RawConfig};
#[test]
fn build_macro_returns_an_error_if_no_matching_events_are_specified() {
    let mut hash = RCHash::new();

    let mut enter_text_hash = RCHash::new();
    enter_text_hash.insert(k("type"), k("enter_text"));
    enter_text_hash.insert(k("data"), k("Hello"));

    hash.insert(k("actions"), RawConfig::Array(vec![
        RawConfig::Hash(enter_text_hash)
    ]));

    let broken_macro = build_macro(&hash, None);
    assert!(broken_macro.is_err());

    // Specified but empty array
    let mut hash = RCHash::new();
    hash.insert(k("matching_events"), RawConfig::Array(vec![]));

    let mut enter_text_hash = RCHash::new();
    enter_text_hash.insert(k("type"), k("enter_text"));
    enter_text_hash.insert(k("data"), k("Hello"));

    hash.insert(k("actions"), RawConfig::Array(vec![
        RawConfig::Hash(enter_text_hash)
    ]));

    let broken_macro = build_macro(&hash, None);
    assert!(broken_macro.is_err());
}

#[test]
fn build_macro_returns_an_error_if_no_actions_are_specified() {
    let mut hash = RCHash::new();

    let mut evt_hash = RCHash::new();
    evt_hash.insert(k("type"), k("midi"));

    let mut note_on_hash = RCHash::new();
    note_on_hash.insert(k("message_type"), k("note_on"));

    evt_hash.insert(k("data"), RawConfig::Hash(note_on_hash));

    hash.insert(k("matching_events"), RawConfig::Array(vec![
        RawConfig::Hash(evt_hash)
    ]));

    let broken_macro = build_macro(&hash, None);
    assert!(broken_macro.is_err());

    // Specified but empty array
    let mut hash = RCHash::new();

    let mut evt_hash = RCHash::new();
    evt_hash.insert(k("type"), k("midi"));

    let mut note_on_hash = RCHash::new();
    note_on_hash.insert(k("message_type"), k("note_on"));

    evt_hash.insert(k("data"), RawConfig::Hash(note_on_hash));

    hash.insert(k("matching_events"), RawConfig::Array(vec![
        RawConfig::Hash(evt_hash)
    ]));

    hash.insert(k("actions"), RawConfig::Array(vec![]));

    let broken_macro = build_macro(&hash, None);
    assert!(broken_macro.is_err());
}

#[test]
fn returns_error_if_invalid_event_matcher_data_specified() {
    let mut hash = RCHash::new();

    let mut evt_hash = RCHash::new();
    evt_hash.insert(k("type"), k("invalid-event-type"));

    hash.insert(k("matching_events"), RawConfig::Array(vec![
        RawConfig::Hash(evt_hash)
    ]));

    let mut enter_text_hash = RCHash::new();
    enter_text_hash.insert(k("type"), k("enter_text"));
    enter_text_hash.insert(k("data"), k("Hello"));

    hash.insert(k("actions"), RawConfig::Array(vec![
        RawConfig::Hash(enter_text_hash)
    ]));

    let broken_macro = build_macro(&hash, None);
    assert!(broken_macro.is_err());
}

#[test]
fn returns_error_if_invalid_action_data_specified() {
    let mut hash = RCHash::new();

    let mut evt_hash = RCHash::new();
    evt_hash.insert(k("type"), k("midi"));
    let mut note_on_hash = RCHash::new();
    note_on_hash.insert(k("message_type"), k("note_on"));
    evt_hash.insert(k("data"), RawConfig::Hash(note_on_hash));

    hash.insert(k("matching_events"), RawConfig::Array(vec![
        RawConfig::Hash(evt_hash)
    ]));

    let mut invalid_action_hash = RCHash::new();
    invalid_action_hash.insert(k("type"), k("invalid-action"));

    hash.insert(k("actions"), RawConfig::Array(vec![
        RawConfig::Hash(invalid_action_hash)
    ]));

    let broken_macro = build_macro(&hash, None);
    assert!(broken_macro.is_err());
}

#[test]
fn builds_minimal_macro() {
    let mut hash = RCHash::new();

    let mut evt_hash = RCHash::new();
    evt_hash.insert(k("type"), k("midi"));
    let mut note_on_hash = RCHash::new();
    note_on_hash.insert(k("message_type"), k("note_on"));
    evt_hash.insert(k("data"), RawConfig::Hash(note_on_hash));

    let mut action_hash = RCHash::new();
    action_hash.insert(k("type"), k("enter_text"));
    action_hash.insert(k("data"), k("Hello"));

    hash.insert(k("matching_events"), RawConfig::Array(vec![
        RawConfig::Hash(evt_hash)
    ]));

    hash.insert(k("actions"), RawConfig::Array(vec![
        RawConfig::Hash(action_hash)
    ]));

    let simple_macro = build_macro(&hash, None)
        .ok().unwrap();

    assert_eq!(
        simple_macro,

        Macro {
            name: None,
            match_events: vec![
                EventMatcher  {
                    matcher: MatcherType::Midi(MidiEventMatcher::NoteOn {
                        channel_match: None,
                        key_match: None,
                        velocity_match: None,
                    }),

                    required_preconditions: None
                }
            ],
            required_preconditions: None,
            actions: vec![
                Action::EnterText { text: "Hello".to_string(), count: 1, delay: None }
            ],
            scope: None
        }
    );
}

#[test]
fn builds_macro_with_all_optional_fields() {
    let mut hash = RCHash::new();

    let mut evt_hash = RCHash::new();
    evt_hash.insert(k("type"), k("midi"));
    let mut note_on_hash = RCHash::new();
    note_on_hash.insert(k("message_type"), k("note_on"));
    evt_hash.insert(k("data"), RawConfig::Hash(note_on_hash));

    let mut action_hash = RCHash::new();
    action_hash.insert(k("type"), k("enter_text"));
    action_hash.insert(k("data"), k("Hello"));

    hash.insert(k("matching_events"), RawConfig::Array(vec![
        RawConfig::Hash(evt_hash)
    ]));

    hash.insert(k("actions"), RawConfig::Array(vec![
        RawConfig::Hash(action_hash)
    ]));

    hash.insert(k("name"), k("test macro"));

    hash.insert(k("required_preconditions"), RawConfig::Array(vec![
        RawConfig::Null,
        RawConfig::Null
    ]));

    let mut scope_hash = RCHash::new();
    let mut string_matcher_hash = RCHash::new();
    string_matcher_hash.insert(k("is"), k("match"));
    scope_hash.insert(k("window_name"), RawConfig::Hash(string_matcher_hash));

    let scope = build_scope(&scope_hash).ok().unwrap().unwrap();

    let proper_macro = build_macro(&hash, Some(scope))
        .ok().unwrap();

    assert_eq!(
        proper_macro,

        Macro {
            name: Some("test macro".to_string()),
            match_events: vec![
                EventMatcher  {
                    matcher: MatcherType::Midi(MidiEventMatcher::NoteOn {
                        channel_match: None,
                        key_match: None,
                        velocity_match: None,
                    }),

                    required_preconditions: None
                }
            ],
            required_preconditions: None,
            actions: vec![
                Action::EnterText { text: "Hello".to_string(), count: 1, delay: None }
            ],

            scope: Some(Scope {
                window_class: None,
                window_name: Some(StringMatcher::Is("match".to_string())),
                executable_path: None,
                executable_basename: None
            })
        }
    );
}

#[test]
fn attaches_scopes_to_list_of_macros() {
    let mut hash1 = RCHash::new();

    let mut evt_hash = RCHash::new();
    evt_hash.insert(k("type"), k("midi"));
    let mut note_on_hash = RCHash::new();
    note_on_hash.insert(k("message_type"), k("note_on"));
    evt_hash.insert(k("data"), RawConfig::Hash(note_on_hash));

    let mut action_hash = RCHash::new();
    action_hash.insert(k("type"), k("enter_text"));
    action_hash.insert(k("data"), k("Hello1"));

    hash1.insert(k("matching_events"), RawConfig::Array(vec![
        RawConfig::Hash(evt_hash)
    ]));

    hash1.insert(k("actions"), RawConfig::Array(vec![
        RawConfig::Hash(action_hash)
    ]));


    let mut hash2 = RCHash::new();

    let mut evt_hash = RCHash::new();
    evt_hash.insert(k("type"), k("midi"));
    let mut note_on_hash = RCHash::new();
    note_on_hash.insert(k("message_type"), k("note_off"));
    evt_hash.insert(k("data"), RawConfig::Hash(note_on_hash));

    let mut action_hash = RCHash::new();
    action_hash.insert(k("type"), k("enter_text"));
    action_hash.insert(k("data"), k("Hello2"));

    hash2.insert(k("matching_events"), RawConfig::Array(vec![
        RawConfig::Hash(evt_hash)
    ]));

    hash2.insert(k("actions"), RawConfig::Array(vec![
        RawConfig::Hash(action_hash)
    ]));


    let mut scope_hash = RCHash::new();
    let mut string_matcher_hash = RCHash::new();
    string_matcher_hash.insert(k("is"), k("match"));
    scope_hash.insert(k("window_name"), RawConfig::Hash(string_matcher_hash));

    let scope = build_scope(&scope_hash).ok().unwrap().unwrap();

    let macro_list = build_scope_macros(
        &vec![RawConfig::Hash(hash1), RawConfig::Hash(hash2)],
        Some(scope)
    ).ok().unwrap();

    assert_eq!(

        macro_list,

        vec![
            Macro {
                name: None,
                match_events: vec![
                    EventMatcher  {
                        matcher: MatcherType::Midi(MidiEventMatcher::NoteOn {
                            channel_match: None,
                            key_match: None,
                            velocity_match: None,
                        }),

                        required_preconditions: None
                    }
                ],

                required_preconditions: None,

                actions: vec![
                    Action::EnterText { text: "Hello1".to_string(), count: 1, delay: None }
                ],

                scope: Some(Scope {
                    window_class: None,
                    window_name: Some(StringMatcher::Is("match".to_string())),
                    executable_path: None,
                    executable_basename: None
                })
            },


            Macro {
                name: None,
                match_events: vec![
                    EventMatcher  {
                        matcher: MatcherType::Midi(MidiEventMatcher::NoteOff {
                            channel_match: None,
                            key_match: None,
                            velocity_match: None,
                        }),

                        required_preconditions: None
                    }
                ],

                required_preconditions: None,

                actions: vec![
                    Action::EnterText { text: "Hello2".to_string(), count: 1, delay: None }
                ],

                scope: Some(Scope {
                    window_class: None,
                    window_name: Some(StringMatcher::Is("match".to_string())),
                    executable_path: None,
                    executable_basename: None
                })
            },
        ]
    );
}
