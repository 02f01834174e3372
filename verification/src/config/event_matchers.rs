//! Builders of event matchers.
use vstd::prelude::*;
use vstd::string::StringExecFns;
use crate::config::{ConfigError, first_error, message3};
use crate::config::precondition::{
    build_precondition_list,
    precondition_list_ok,
    precondition_list_gives,
    precondition_list_error,
    law_precondition_list_fails_exactly_when,
};
use crate::config::primitive_matchers::{
    build_number_matcher,
    build_musical_key_matcher,
    number_matcher_ok,
    number_matcher_gives,
    number_matcher_opt_error,
    key_matcher_ok,
    key_matcher_gives,
    key_matcher_error,
};
use crate::event_matching::{EventMatcher, MatcherType, MidiEventMatcher};
use crate::midi::MidiMessage;
use crate::match_checker::NumberMatcher;
use crate::preconditions::Precondition;
use crate::raw_config::{RawConfig, RCHash, string_of, hash_of, array_of, opt_val, hash_items, list_or_empty};
use crate::text::str_eq;

verus! {

/// Whether building a MIDI event matcher from optional data succeeds: the data has a string
/// `message_type` among `note_on`, `note_off`, `poly_aftertouch`, `control_change`,
/// `program_change`, `channel_aftertouch` and `pitch_bend_change`, and the matchers that this
/// type reads (always `channel`) build.
pub open spec fn midi_event_matcher_ok(data: Option<RCHash>) -> bool {
    match data {
        Some(h) => match string_of(h.field("message_type"@)) {
            Some(t) => number_matcher_ok(h.field("channel"@)) && if t == "note_on"@ {
                key_matcher_ok(h.field("key"@)) && number_matcher_ok(h.field("velocity"@))
            } else if t == "note_off"@ {
                key_matcher_ok(h.field("key"@)) && number_matcher_ok(h.field("velocity"@))
            } else if t == "poly_aftertouch"@ {
                key_matcher_ok(h.field("key"@)) && number_matcher_ok(h.field("value"@))
            } else if t == "control_change"@ {
                number_matcher_ok(h.field("control"@)) && number_matcher_ok(h.field("value"@))
            } else if t == "program_change"@ {
                number_matcher_ok(h.field("program"@))
            } else if t == "channel_aftertouch"@ {
                number_matcher_ok(h.field("value"@))
            } else if t == "pitch_bend_change"@ {
                number_matcher_ok(h.field("value"@))
            } else {
                false
            },
            None => false,
        },
        None => false,
    }
}

/// Whether `m` is the MIDI event matcher built from optional data.
pub open spec fn midi_event_matcher_gives(data: Option<RCHash>, m: MidiEventMatcher) -> bool {
    match data {
        Some(h) => {
            let t = string_of(h.field("message_type"@));
            let ch = h.field("channel"@);
            match m {
                MidiEventMatcher::NoteOn { channel_match, key_match, velocity_match } => t == Some(
                    "note_on"@,
                ) && number_matcher_gives(ch, channel_match) && key_matcher_gives(h.field("key"@), key_match)
                    && number_matcher_gives(h.field("velocity"@), velocity_match),
                MidiEventMatcher::NoteOff { channel_match, key_match, velocity_match } => t == Some(
                    "note_off"@,
                ) && number_matcher_gives(ch, channel_match) && key_matcher_gives(h.field("key"@), key_match)
                    && number_matcher_gives(h.field("velocity"@), velocity_match),
                MidiEventMatcher::PolyAftertouch { channel_match, key_match, value_match } => t == Some(
                    "poly_aftertouch"@,
                ) && number_matcher_gives(ch, channel_match) && key_matcher_gives(h.field("key"@), key_match)
                    && number_matcher_gives(h.field("value"@), value_match),
                MidiEventMatcher::ControlChange { channel_match, control_match, value_match } => t
                    == Some("control_change"@) && number_matcher_gives(ch, channel_match)
                    && number_matcher_gives(h.field("control"@), control_match) && number_matcher_gives(
                    h.field("value"@),
                    value_match,
                ),
                MidiEventMatcher::ProgramChange { channel_match, program_match } => t == Some(
                    "program_change"@,
                ) && number_matcher_gives(ch, channel_match) && number_matcher_gives(
                    h.field("program"@),
                    program_match,
                ),
                MidiEventMatcher::ChannelAftertouch { channel_match, value_match } => t == Some(
                    "channel_aftertouch"@,
                ) && number_matcher_gives(ch, channel_match) && number_matcher_gives(
                    h.field("value"@),
                    value_match,
                ),
                MidiEventMatcher::PitchBendChange { channel_match, value_match } => t == Some(
                    "pitch_bend_change"@,
                ) && number_matcher_gives(ch, channel_match) && number_matcher_gives(
                    h.field("value"@),
                    value_match,
                ),
            }
        },
        None => false,
    }
}

/// The error of building a MIDI event matcher from optional data, when it fails: missing data, a
/// missing `message_type`, then the `channel` matcher, then the matchers of the type in order,
/// or an unknown type.
pub open spec fn midi_event_matcher_error(data: Option<RCHash>) -> Option<Seq<char>> {
    match data {
        None => Some("Missing data for midi event matcher"@),
        Some(h) => match string_of(h.field("message_type"@)) {
            None => Some("Missing message_type field in midi event data"@),
            Some(t) => first_error(
                number_matcher_opt_error(h.field("channel"@)),
                if t == "note_on"@ || t == "note_off"@ {
                    first_error(key_matcher_error(h.field("key"@)), number_matcher_opt_error(h.field("velocity"@)))
                } else if t == "poly_aftertouch"@ {
                    first_error(key_matcher_error(h.field("key"@)), number_matcher_opt_error(h.field("value"@)))
                } else if t == "control_change"@ {
                    first_error(number_matcher_opt_error(h.field("control"@)), number_matcher_opt_error(h.field("value"@)))
                } else if t == "program_change"@ {
                    number_matcher_opt_error(h.field("program"@))
                } else if t == "channel_aftertouch"@ || t == "pitch_bend_change"@ {
                    number_matcher_opt_error(h.field("value"@))
                } else {
                    Some("Invalid or unsupported MIDI message type '"@ + t + "'"@)
                },
            ),
        },
    }
}

/// Builds a MIDI event matcher from data with a `message_type` and the number matchers of that
/// type: `channel` always; `key` (a number matcher or a note string) and `velocity` for
/// `note_on` and `note_off`; `key` and `value` for `poly_aftertouch`; `control` and `value` for
/// `control_change`; `program` for `program_change`; `value` for `channel_aftertouch` and
/// `pitch_bend_change`.
pub fn build_midi_event_matcher(data: Option<&RCHash>) -> (r: Result<MidiEventMatcher, ConfigError>)
    ensures
        r is Ok == midi_event_matcher_ok(opt_val(data)),
        r matches Ok(m) ==> midi_event_matcher_gives(opt_val(data), m),
        r is Ok ==> midi_event_matcher_error(opt_val(data)) is None,
        r matches Err(e) ==> e matches ConfigError::InvalidConfig(m) && midi_event_matcher_error(opt_val(data)) == Some(m@),
{
    let data = match data {
        Some(d) => d,
        None => return Err(ConfigError::InvalidConfig(String::from_str("Missing data for midi event matcher"))),
    };
    let message_type = match data.get_string("message_type") {
        Some(t) => t,
        None => return Err(
            ConfigError::InvalidConfig(String::from_str("Missing message_type field in midi event data")),
        ),
    };
    let channel_match = match build_number_matcher(data.get("channel")) {
        Ok(m) => m,
        Err(e) => return Err(e),
    };
    if str_eq(message_type, "note_on") {
        let key_match = match build_musical_key_matcher(data.get("key")) {
            Ok(m) => m,
            Err(e) => return Err(e),
        };
        let velocity_match = match build_number_matcher(data.get("velocity")) {
            Ok(m) => m,
            Err(e) => return Err(e),
        };
        Ok(MidiEventMatcher::NoteOn { channel_match, key_match, velocity_match })
    } else if str_eq(message_type, "note_off") {
        let key_match = match build_musical_key_matcher(data.get("key")) {
            Ok(m) => m,
            Err(e) => return Err(e),
        };
        let velocity_match = match build_number_matcher(data.get("velocity")) {
            Ok(m) => m,
            Err(e) => return Err(e),
        };
        Ok(MidiEventMatcher::NoteOff { channel_match, key_match, velocity_match })
    } else if str_eq(message_type, "poly_aftertouch") {
        let key_match = match build_musical_key_matcher(data.get("key")) {
            Ok(m) => m,
            Err(e) => return Err(e),
        };
        let value_match = match build_number_matcher(data.get("value")) {
            Ok(m) => m,
            Err(e) => return Err(e),
        };
        Ok(MidiEventMatcher::PolyAftertouch { channel_match, key_match, value_match })
    } else if str_eq(message_type, "control_change") {
        let control_match = match build_number_matcher(data.get("control")) {
            Ok(m) => m,
            Err(e) => return Err(e),
        };
        let value_match = match build_number_matcher(data.get("value")) {
            Ok(m) => m,
            Err(e) => return Err(e),
        };
        Ok(MidiEventMatcher::ControlChange { channel_match, control_match, value_match })
    } else if str_eq(message_type, "program_change") {
        let program_match = match build_number_matcher(data.get("program")) {
            Ok(m) => m,
            Err(e) => return Err(e),
        };
        Ok(MidiEventMatcher::ProgramChange { channel_match, program_match })
    } else if str_eq(message_type, "channel_aftertouch") {
        let value_match = match build_number_matcher(data.get("value")) {
            Ok(m) => m,
            Err(e) => return Err(e),
        };
        Ok(MidiEventMatcher::ChannelAftertouch { channel_match, value_match })
    } else if str_eq(message_type, "pitch_bend_change") {
        let value_match = match build_number_matcher(data.get("value")) {
            Ok(m) => m,
            Err(e) => return Err(e),
        };
        Ok(MidiEventMatcher::PitchBendChange { channel_match, value_match })
    } else {
        Err(ConfigError::InvalidConfig(message3("Invalid or unsupported MIDI message type '", message_type, "'")))
    }
}

/// The list of preconditions of an event matcher hash (empty when there is none).
pub open spec fn required_precondition_items(h: RCHash) -> Seq<RawConfig> {
    list_or_empty(array_of(h.field("required_preconditions"@)))
}

/// Whether building an event matcher from a hash succeeds: its `type` is `midi`, its
/// `required_preconditions` build and its `data` builds a MIDI event matcher.
pub open spec fn event_matcher_ok(h: RCHash) -> bool {
    &&& string_of(h.field("type"@)) == Some("midi"@)
    &&& precondition_list_ok(required_precondition_items(h))
    &&& midi_event_matcher_ok(hash_of(h.field("data"@)))
}

/// Whether `e` is the event matcher built from a hash: the MIDI matcher of `data`, and the
/// preconditions of `required_preconditions`, none when that gives no precondition.
pub open spec fn event_matcher_gives(h: RCHash, e: EventMatcher) -> bool {
    let items = required_precondition_items(h);
    &&& e.matcher matches MatcherType::Midi(m) && midi_event_matcher_gives(hash_of(h.field("data"@)), m)
    &&& match e.required_preconditions {
        Some(list) => hash_items(items).len() > 0 && precondition_list_gives(items, list@),
        None => hash_items(items).len() == 0,
    }
}

/// The error of building an event matcher from a hash, when it fails: a missing `type`, then the
/// error of the `required_preconditions`, then that of the MIDI matcher of `data` or an unknown
/// type.
pub open spec fn event_matcher_error(h: RCHash) -> Option<Seq<char>> {
    match string_of(h.field("type"@)) {
        None => Some("event missing valid (string) 'type' field"@),
        Some(t) => first_error(
            precondition_list_error(required_precondition_items(h)),
            if t == "midi"@ {
                midi_event_matcher_error(hash_of(h.field("data"@)))
            } else {
                Some("Unknown event matcher type '"@ + t + "'"@)
            },
        ),
    }
}

/// Builds an event matcher from a hash with a string `type` (`midi`), the `data` of the matcher
/// and an optional list `required_preconditions` (see `build_precondition_list`).
pub fn build_event_matcher(raw_event_matcher: &RCHash) -> (r: Result<EventMatcher, ConfigError>)
    ensures
        r is Ok == event_matcher_ok(*raw_event_matcher),
        r matches Ok(e) ==> event_matcher_gives(*raw_event_matcher, e),
        r is Ok ==> event_matcher_error(*raw_event_matcher) is None,
        r matches Err(e) ==> e matches ConfigError::InvalidConfig(m) && event_matcher_error(*raw_event_matcher) == Some(m@),
{
    let event_type = match raw_event_matcher.get_string("type") {
        Some(t) => t,
        None => return Err(
            ConfigError::InvalidConfig(String::from_str("event missing valid (string) 'type' field")),
        ),
    };
    let preconditions: Vec<Precondition> = match raw_event_matcher.get_array("required_preconditions") {
        Some(items) => match build_precondition_list(items) {
            Ok(v) => v,
            Err(e) => return Err(e),
        },
        None => {
            assert(hash_items(Seq::<RawConfig>::empty()) =~= Seq::<RCHash>::empty());
            Vec::new()
        },
    };
    let data = raw_event_matcher.get_hash("data");
    if str_eq(event_type, "midi") {
        let matcher = match build_midi_event_matcher(data) {
            Ok(m) => m,
            Err(e) => return Err(e),
        };
        let required_preconditions = if preconditions.len() == 0 {
            None
        } else {
            Some(preconditions)
        };
        Ok(EventMatcher::new(MatcherType::Midi(matcher), required_preconditions))
    } else {
        Err(ConfigError::InvalidConfig(message3("Unknown event matcher type '", event_type, "'")))
    }
}


/// Building a MIDI event matcher fails exactly when the data is missing, its `message_type` is
/// missing or unknown, or the `channel` matcher or a matcher that the type reads fails.
pub proof fn law_midi_event_matcher_fails_exactly_when(data: Option<RCHash>)
    ensures
        midi_event_matcher_error(data) is Some <==> !midi_event_matcher_ok(data),
{
}

/// Building an event matcher fails exactly when its `type` is missing or is not `midi`, one of
/// its preconditions fails, or its MIDI matcher fails.
pub proof fn law_event_matcher_fails_exactly_when(h: RCHash)
    ensures
        event_matcher_error(h) is Some <==> !event_matcher_ok(h),
{
    law_precondition_list_fails_exactly_when(required_precondition_items(h));
    law_midi_event_matcher_fails_exactly_when(hash_of(h.field("data"@)));
}

/// The fields of a control change matcher's data are tested against the fields of the same
/// name: a matcher built from data with `message_type` `control_change`, no `channel`, and the
/// integers `c` in `control` and `w` in `value` accepts exactly the control change messages on
/// any channel with control number `c` and value `w`.
pub proof fn law_control_change_fields_test_their_namesakes(
    h: RCHash,
    m: MidiEventMatcher,
    c: i64,
    w: i64,
    channel: u8,
    control: u8,
    value: u8,
)
    requires
        0 <= c <= 127,
        0 <= w <= 127,
        string_of(h.field("message_type"@)) == Some("control_change"@),
        h.field("channel"@) is None,
        h.field("control"@) == Some(RawConfig::Integer(c)),
        h.field("value"@) == Some(RawConfig::Integer(w)),
        midi_event_matcher_gives(Some(h), m),
    ensures
        m.spec_matches(MidiMessage::ControlChange { channel, control, value }) <==> control == c && value == w,
{
    reveal_strlit("note_on");
    reveal_strlit("note_off");
    reveal_strlit("poly_aftertouch");
    reveal_strlit("control_change");
    reveal_strlit("program_change");
    reveal_strlit("channel_aftertouch");
    reveal_strlit("pitch_bend_change");
    assert("note_on"@.len() != "control_change"@.len());
    assert("note_off"@.len() != "control_change"@.len());
    assert("poly_aftertouch"@.len() != "control_change"@.len());
    assert("program_change"@[0] != "control_change"@[0]);
    assert("channel_aftertouch"@.len() != "control_change"@.len());
    assert("pitch_bend_change"@.len() != "control_change"@.len());
    assert(m is ControlChange);
    assert(m->ControlChange_control_match == Some(NumberMatcher::Val(c as u32)));
    assert(m->ControlChange_value_match == Some(NumberMatcher::Val(w as u32)));
    assert(m->ControlChange_channel_match is None);
}

/// The fields of a note matcher's data are tested against the fields of the same name: a
/// matcher built from data with `message_type` `note_on`, no `channel`, and the integers `k` in
/// `key` and `v` in `velocity` accepts exactly the note on messages on any channel with key `k`
/// and velocity `v`.
pub proof fn law_note_on_fields_test_their_namesakes(
    h: RCHash,
    m: MidiEventMatcher,
    k: i64,
    v: i64,
    channel: u8,
    key: u8,
    velocity: u8,
)
    requires
        0 <= k <= 127,
        0 <= v <= 127,
        string_of(h.field("message_type"@)) == Some("note_on"@),
        h.field("channel"@) is None,
        h.field("key"@) == Some(RawConfig::Integer(k)),
        h.field("velocity"@) == Some(RawConfig::Integer(v)),
        midi_event_matcher_gives(Some(h), m),
    ensures
        m.spec_matches(MidiMessage::NoteOn { channel, key, velocity }) <==> key == k && velocity == v,
{
    reveal_strlit("note_on");
    reveal_strlit("note_off");
    reveal_strlit("poly_aftertouch");
    reveal_strlit("control_change");
    reveal_strlit("program_change");
    reveal_strlit("channel_aftertouch");
    reveal_strlit("pitch_bend_change");
    assert("note_off"@.len() != "note_on"@.len());
    assert("poly_aftertouch"@.len() != "note_on"@.len());
    assert("control_change"@.len() != "note_on"@.len());
    assert("program_change"@.len() != "note_on"@.len());
    assert("channel_aftertouch"@.len() != "note_on"@.len());
    assert("pitch_bend_change"@.len() != "note_on"@.len());
    assert(m is NoteOn);
    assert(m->NoteOn_key_match == Some(NumberMatcher::Val(k as u32)));
    assert(m->NoteOn_velocity_match == Some(NumberMatcher::Val(v as u32)));
    assert(m->NoteOn_channel_match is None);
}

} // verus!
