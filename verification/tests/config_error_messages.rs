use mmpd::config::actions::{build_action, build_action_control, build_action_key_sequence, build_action_wait};
use mmpd::config::event_matchers::{build_event_matcher, build_midi_event_matcher};
use mmpd::config::macros::build_macro;
use mmpd::config::precondition::build_precondition;
use mmpd::config::scope::build_scope;
use mmpd::config::primitive_matchers::{
    build_musical_key_matcher, build_number_matcher, build_string_matcher,
};
use mmpd::config::ConfigError;
use mmpd::raw_config::{k, RCHash, RawConfig};

fn invalid(message: &str) -> ConfigError {
    ConfigError::InvalidConfig(message.to_string())
}

fn hash(entries: Vec<(&str, RawConfig)>) -> RCHash {
    let mut h = RCHash::new();
    for (key, value) in entries {
        h.insert(k(key), value);
    }
    h
}

#[test]
fn unknown_action_type_is_quoted() {
    let h = hash(vec![("type", k("dance"))]);
    assert_eq!(build_action(&h).unwrap_err(), invalid("Unknown action type 'dance'"));
}

#[test]
fn action_without_type_is_refused() {
    let h = hash(vec![("data", k("x"))]);
    assert_eq!(build_action(&h).unwrap_err(), invalid("Missing 'type' field for action"));
}

#[test]
fn negative_key_sequence_count_is_reported() {
    let data = RawConfig::Hash(hash(vec![("sequence", k("a")), ("count", RawConfig::Integer(-3))]));
    assert_eq!(
        build_action_key_sequence(Some(&data)).unwrap_err(),
        invalid("Action key_sequence: count should be 0 or more, found -3")
    );
}

#[test]
fn negative_wait_is_reported() {
    assert_eq!(
        build_action_wait(Some(&RawConfig::Integer(-12))).unwrap_err(),
        invalid("Action wait: duration should be 0 or more, found -12")
    );
    assert_eq!(build_action_wait(None).unwrap_err(), invalid("Action wait: missing data field"));
}

#[test]
fn unknown_control_action_is_quoted() {
    assert_eq!(
        build_action_control(Some(&k("jump"))).unwrap_err(),
        invalid("Action control: Unknown control action 'jump'")
    );
    assert_eq!(
        build_action_control(Some(&RawConfig::Hash(RCHash::new()))).unwrap_err(),
        invalid("Action control: data field doesn't contain a string 'action' field")
    );
}

#[test]
fn negative_number_matcher_is_reported() {
    assert_eq!(
        build_number_matcher(Some(&RawConfig::Integer(-1))).unwrap_err(),
        invalid("Number matcher only supports positive integers, -1 given")
    );
}

#[test]
fn negative_range_bound_is_reported() {
    let range = RawConfig::Hash(hash(vec![("min", RawConfig::Integer(-4))]));
    assert_eq!(
        build_number_matcher(Some(&range)).unwrap_err(),
        invalid("Number range matcher supports only positive integers, got -4 for min")
    );
    let range = RawConfig::Hash(hash(vec![("max", RawConfig::Integer(-5))]));
    assert_eq!(
        build_number_matcher(Some(&range)).unwrap_err(),
        invalid("Number range matcher supports only positive integers, got -5 for max")
    );
}

#[test]
fn empty_range_is_reported_with_both_bounds() {
    let range = RawConfig::Hash(hash(vec![("min", RawConfig::Integer(7)), ("max", RawConfig::Integer(5))]));
    assert_eq!(
        build_number_matcher(Some(&range)).unwrap_err(),
        invalid("Number range matcher will never match, since min (7) > max (5)")
    );
}

#[test]
fn range_bounds_are_compared_as_given() {
    let range = RawConfig::Hash(hash(vec![
        ("min", RawConfig::Integer(4294967296)),
        ("max", RawConfig::Integer(5)),
    ]));
    assert_eq!(
        build_number_matcher(Some(&range)).unwrap_err(),
        invalid("Number range matcher will never match, since min (4294967296) > max (5)")
    );
}

#[test]
fn first_failing_list_item_gives_the_error() {
    let list = RawConfig::Array(vec![
        RawConfig::Integer(3),
        RawConfig::Array(vec![RawConfig::Integer(-8)]),
        RawConfig::Integer(-9),
    ]);
    assert_eq!(
        build_number_matcher(Some(&list)).unwrap_err(),
        invalid("Number matcher only supports positive integers, -8 given")
    );
}

#[test]
fn unknown_note_string_is_quoted() {
    assert_eq!(
        build_musical_key_matcher(Some(&k("H9"))).unwrap_err(),
        invalid("The key string 'H9' matches no valid MIDI note number(s)")
    );
}

#[test]
fn invalid_regex_message_starts_with_its_lead() {
    let h = hash(vec![("regex", k("a("))]);
    match build_string_matcher(Some(&h)) {
        Err(ConfigError::InvalidConfig(m)) => assert!(m.starts_with("String matcher: invalid regex. ")),
        other => panic!("unexpected {:?}", other),
    }
}

#[test]
fn unknown_midi_message_type_is_quoted() {
    let data = hash(vec![("message_type", k("sysex"))]);
    assert_eq!(
        build_midi_event_matcher(Some(&data)).unwrap_err(),
        invalid("Invalid or unsupported MIDI message type 'sysex'")
    );
    assert_eq!(build_midi_event_matcher(None).unwrap_err(), invalid("Missing data for midi event matcher"));
}

#[test]
fn channel_error_comes_before_unknown_type() {
    let data = hash(vec![("message_type", k("sysex")), ("channel", RawConfig::Integer(-2))]);
    assert_eq!(
        build_midi_event_matcher(Some(&data)).unwrap_err(),
        invalid("Number matcher only supports positive integers, -2 given")
    );
}

#[test]
fn unknown_event_matcher_type_is_quoted() {
    let h = hash(vec![("type", k("osc"))]);
    assert_eq!(build_event_matcher(&h).unwrap_err(), invalid("Unknown event matcher type 'osc'"));
}

#[test]
fn unknown_precondition_type_is_quoted() {
    let h = hash(vec![("type", k("weather"))]);
    assert_eq!(build_precondition(&h).unwrap_err(), invalid("Unknown precondition type 'weather'"));
    let data = RawConfig::Hash(hash(vec![("condition_type", k("aftertouch"))]));
    let h = hash(vec![("type", k("midi")), ("data", data)]);
    assert_eq!(
        build_precondition(&h).unwrap_err(),
        invalid("Invalid or unsupported MIDI condition_type 'aftertouch'")
    );
}

#[test]
fn macro_list_errors_are_reported_in_order() {
    let h = hash(vec![("actions", RawConfig::Array(vec![]))]);
    assert_eq!(build_macro(&h, None).unwrap_err(), invalid("Macro definition missing matching_events list"));
    let event = RawConfig::Hash(hash(vec![("type", k("osc"))]));
    let action = RawConfig::Hash(hash(vec![("type", k("dance"))]));
    let h = hash(vec![
        ("matching_events", RawConfig::Array(vec![event])),
        ("actions", RawConfig::Array(vec![])),
    ]);
    assert_eq!(
        build_macro(&h, None).unwrap_err(),
        invalid("Macro definition contains 'actions' field, but not single action is specified")
    );
    let event = RawConfig::Hash(hash(vec![("type", k("osc"))]));
    let h = hash(vec![
        ("matching_events", RawConfig::Array(vec![event])),
        ("actions", RawConfig::Array(vec![action])),
    ]);
    assert_eq!(build_macro(&h, None).unwrap_err(), invalid("Unknown event matcher type 'osc'"));
}

#[test]
fn scope_reports_the_regex_compiler_description() {
    let bad = RawConfig::Hash(hash(vec![("regex", k("a("))]));
    let good = RawConfig::Hash(hash(vec![("is", k("x"))]));
    let h = hash(vec![("window_class", good), ("window_name", bad)]);
    match build_scope(&h) {
        Err(ConfigError::InvalidConfig(m)) => {
            let lead = "String matcher: invalid regex. ";
            assert!(m.starts_with(lead));
            assert!(m.len() > lead.len());
            assert_ne!(&m[lead.len()..], "a(");
        },
        other => panic!("unexpected {:?}", other),
    }
}
