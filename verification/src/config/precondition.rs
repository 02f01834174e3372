//! Builders of preconditions.
use vstd::prelude::*;
use vstd::string::StringExecFns;
use crate::config::{ConfigError, first_error, message3};
use crate::config::primitive_matchers::{
    build_number_matcher,
    build_musical_key_matcher,
    number_matcher_ok,
    number_matcher_gives,
    number_matcher_opt_error,
    key_matcher_ok,
    key_matcher_gives,
    key_matcher_error,
};
use crate::preconditions::{MidiPrecondition, Precondition, PreconditionType};
use crate::midi_state::MidiState;
use crate::match_checker::{NumberMatcher, num_match_accepts};
use crate::raw_config::{
    RawConfig,
    RCHash,
    string_of,
    bool_of,
    hash_of,
    opt_val,
    hash_items,
    lemma_hash_items_step,
    lemma_hash_item_kept,
    first_hash_error,
    lemma_first_hash_error_step,
    lemma_first_hash_error_prefix,
    lemma_first_hash_error_none,
};
use crate::text::str_eq;

verus! {

/// Whether building a MIDI precondition from optional data succeeds: the data has a string
/// `condition_type` among `note_on`, `control`, `program` and `pitch_bend`, and the matchers
/// that this type reads (always `channel`) build.
pub open spec fn midi_precondition_ok(data: Option<RCHash>) -> bool {
    match data {
        Some(h) => match string_of(h.field("condition_type"@)) {
            Some(t) => number_matcher_ok(h.field("channel"@)) && if t == "note_on"@ {
                key_matcher_ok(h.field("key"@))
            } else if t == "control"@ {
                number_matcher_ok(h.field("control"@)) && number_matcher_ok(h.field("value"@))
            } else if t == "program"@ {
                number_matcher_ok(h.field("program"@))
            } else if t == "pitch_bend"@ {
                number_matcher_ok(h.field("value"@))
            } else {
                false
            },
            None => false,
        },
        None => false,
    }
}

/// Whether `m` is the MIDI precondition built from optional data.
pub open spec fn midi_precondition_gives(data: Option<RCHash>, m: MidiPrecondition) -> bool {
    match data {
        Some(h) => {
            let t = string_of(h.field("condition_type"@));
            match m {
                MidiPrecondition::NoteOn { channel_match, key_match } => t == Some("note_on"@)
                    && number_matcher_gives(h.field("channel"@), channel_match) && key_matcher_gives(
                    h.field("key"@),
                    key_match,
                ),
                MidiPrecondition::Control { channel_match, control_match, value_match } => t == Some(
                    "control"@,
                ) && number_matcher_gives(h.field("channel"@), channel_match) && number_matcher_gives(
                    h.field("control"@),
                    control_match,
                ) && number_matcher_gives(h.field("value"@), value_match),
                MidiPrecondition::Program { channel_match, program_match } => t == Some("program"@)
                    && number_matcher_gives(h.field("channel"@), channel_match) && number_matcher_gives(
                    h.field("program"@),
                    program_match,
                ),
                MidiPrecondition::PitchBend { channel_match, value_match } => t == Some("pitch_bend"@)
                    && number_matcher_gives(h.field("channel"@), channel_match) && number_matcher_gives(
                    h.field("value"@),
                    value_match,
                ),
            }
        },
        None => false,
    }
}

/// The error of building a MIDI precondition from optional data, when it fails: missing data,
/// a missing `condition_type`, then the `channel` matcher, then the matchers of the type in
/// order, or an unknown type.
pub open spec fn midi_precondition_error(data: Option<RCHash>) -> Option<Seq<char>> {
    match data {
        None => Some("Missing data for midi precondition"@),
        Some(h) => match string_of(h.field("condition_type"@)) {
            None => Some("Missing condition_type field in midi precondition data"@),
            Some(t) => first_error(
                number_matcher_opt_error(h.field("channel"@)),
                if t == "note_on"@ {
                    key_matcher_error(h.field("key"@))
                } else if t == "control"@ {
                    first_error(number_matcher_opt_error(h.field("control"@)), number_matcher_opt_error(h.field("value"@)))
                } else if t == "program"@ {
                    number_matcher_opt_error(h.field("program"@))
                } else if t == "pitch_bend"@ {
                    number_matcher_opt_error(h.field("value"@))
                } else {
                    Some("Invalid or unsupported MIDI condition_type '"@ + t + "'"@)
                },
            ),
        },
    }
}

/// Builds a MIDI precondition from data with a `condition_type` (`note_on`, `control`,
/// `program` or `pitch_bend`) and the number matchers of that type: `channel` always, `key`
/// (a number matcher or a note string) for `note_on`, `control` and `value` for `control`,
/// `program` for `program`, `value` for `pitch_bend`.
pub fn build_midi_precondition(data: Option<&RCHash>) -> (r: Result<MidiPrecondition, ConfigError>)
    ensures
        r is Ok == midi_precondition_ok(opt_val(data)),
        r matches Ok(m) ==> midi_precondition_gives(opt_val(data), m),
        r is Ok ==> midi_precondition_error(opt_val(data)) is None,
        r matches Err(e) ==> e matches ConfigError::InvalidConfig(m) && midi_precondition_error(opt_val(data)) == Some(m@),
{
    let data = match data {
        Some(d) => d,
        None => return Err(ConfigError::InvalidConfig(String::from_str("Missing data for midi precondition"))),
    };
    let condition_type = match data.get_string("condition_type") {
        Some(t) => t,
        None => return Err(
            ConfigError::InvalidConfig(String::from_str("Missing condition_type field in midi precondition data")),
        ),
    };
    let channel_match = match build_number_matcher(data.get("channel")) {
        Ok(m) => m,
        Err(e) => return Err(e),
    };
    if str_eq(condition_type, "note_on") {
        let key_match = match build_musical_key_matcher(data.get("key")) {
            Ok(m) => m,
            Err(e) => return Err(e),
        };
        Ok(MidiPrecondition::NoteOn { channel_match, key_match })
    } else if str_eq(condition_type, "control") {
        let control_match = match build_number_matcher(data.get("control")) {
            Ok(m) => m,
            Err(e) => return Err(e),
        };
        let value_match = match build_number_matcher(data.get("value")) {
            Ok(m) => m,
            Err(e) => return Err(e),
        };
        Ok(MidiPrecondition::Control { channel_match, control_match, value_match })
    } else if str_eq(condition_type, "program") {
        let program_match = match build_number_matcher(data.get("program")) {
            Ok(m) => m,
            Err(e) => return Err(e),
        };
        Ok(MidiPrecondition::Program { channel_match, program_match })
    } else if str_eq(condition_type, "pitch_bend") {
        let value_match = match build_number_matcher(data.get("value")) {
            Ok(m) => m,
            Err(e) => return Err(e),
        };
        Ok(MidiPrecondition::PitchBend { channel_match, value_match })
    } else {
        Err(ConfigError::InvalidConfig(message3("Invalid or unsupported MIDI condition_type '", condition_type, "'")))
    }
}

/// Whether building a precondition from a hash succeeds: its `type` is `midi` and its `data`
/// builds a MIDI precondition.
pub open spec fn precondition_ok(h: RCHash) -> bool {
    string_of(h.field("type"@)) == Some("midi"@) && midi_precondition_ok(hash_of(h.field("data"@)))
}

/// Whether `p` is the precondition built from a hash: inverted when `invert` is `true`, with the
/// MIDI precondition of `data`.
pub open spec fn precondition_gives(h: RCHash, p: Precondition) -> bool {
    &&& p.invert == (bool_of(h.field("invert"@)) == Some(true))
    &&& p.condition matches PreconditionType::Midi(m)
    &&& midi_precondition_gives(hash_of(h.field("data"@)), m)
}

/// The error of building a precondition from a hash, when it fails: a missing `type`, the error
/// of the MIDI precondition of `data`, or an unknown type.
pub open spec fn precondition_error(h: RCHash) -> Option<Seq<char>> {
    match string_of(h.field("type"@)) {
        None => Some("precondition missing valid (string) 'type' field"@),
        Some(t) => if t == "midi"@ {
            midi_precondition_error(hash_of(h.field("data"@)))
        } else {
            Some("Unknown precondition type '"@ + t + "'"@)
        },
    }
}

/// Builds a precondition from a hash with a string `type` (`midi`), an optional boolean
/// `invert` (false when missing) and the `data` of the condition.
pub fn build_precondition(raw_precondition: &RCHash) -> (r: Result<Precondition, ConfigError>)
    ensures
        r is Ok == precondition_ok(*raw_precondition),
        r matches Ok(p) ==> precondition_gives(*raw_precondition, p),
        r is Ok ==> precondition_error(*raw_precondition) is None,
        r matches Err(e) ==> e matches ConfigError::InvalidConfig(m) && precondition_error(*raw_precondition) == Some(m@),
{
    let condition_type = match raw_precondition.get_string("type") {
        Some(t) => t,
        None => return Err(
            ConfigError::InvalidConfig(String::from_str("precondition missing valid (string) 'type' field")),
        ),
    };
    let invert = match raw_precondition.get_bool("invert") {
        Some(b) => b,
        None => false,
    };
    let data = raw_precondition.get_hash("data");
    if str_eq(condition_type, "midi") {
        match build_midi_precondition(data) {
            Ok(m) => Ok(Precondition { invert, condition: PreconditionType::Midi(m) }),
            Err(e) => Err(e),
        }
    } else {
        Err(ConfigError::InvalidConfig(message3("Unknown precondition type '", condition_type, "'")))
    }
}

/// Whether building a precondition from an entry of a precondition list succeeds: an empty hash
/// is a condition that always holds; any other hash must build a precondition.
pub open spec fn precondition_entry_ok(h: RCHash) -> bool {
    h.entries_view().len() == 0 || precondition_ok(h)
}

/// Whether `p` is the precondition built from an entry of a precondition list.
pub open spec fn precondition_entry_gives(h: RCHash, p: Precondition) -> bool {
    if h.entries_view().len() == 0 {
        p == Precondition { invert: false, condition: PreconditionType::Other }
    } else {
        precondition_gives(h, p)
    }
}

/// The error of building a precondition from an entry of a precondition list, when it fails.
pub open spec fn precondition_entry_error(h: RCHash) -> Option<Seq<char>> {
    if h.entries_view().len() == 0 {
        None
    } else {
        precondition_error(h)
    }
}

/// `precondition_entry_error` as a function value.
pub open spec fn precondition_entry_error_fn() -> spec_fn(RCHash) -> Option<Seq<char>> {
    |h: RCHash| precondition_entry_error(h)
}

/// The error of building the preconditions of a list: that of its first hash that fails.
pub open spec fn precondition_list_error(items: Seq<RawConfig>) -> Option<Seq<char>> {
    first_hash_error(hash_items(items), precondition_entry_error_fn())
}

/// Whether building the preconditions of a list succeeds: every hash in it builds one (other
/// values are skipped).
pub open spec fn precondition_list_ok(items: Seq<RawConfig>) -> bool {
    forall|i: int| 0 <= i < hash_items(items).len() ==> precondition_entry_ok(#[trigger] hash_items(items)[i])
}

/// Whether `out` holds, in order, the preconditions built from the hashes of a list.
pub open spec fn precondition_list_gives(items: Seq<RawConfig>, out: Seq<Precondition>) -> bool {
    &&& out.len() == hash_items(items).len()
    &&& forall|i: int|
        0 <= i < out.len() ==> precondition_entry_gives(#[trigger] hash_items(items)[i], out[i])
}

/// Builds the preconditions of a list: one for each hash, in order, where an empty hash is a
/// condition that always holds; other values are skipped.
#[verifier::loop_isolation(false)]
pub fn build_precondition_list(items: &Vec<RawConfig>) -> (r: Result<Vec<Precondition>, ConfigError>)
    ensures
        r is Ok == precondition_list_ok(items@),
        r matches Ok(v) ==> precondition_list_gives(items@, v@),
        r is Ok ==> precondition_list_error(items@) is None,
        r matches Err(e) ==> e matches ConfigError::InvalidConfig(m) && precondition_list_error(items@) == Some(m@),
{
    let mut out: Vec<Precondition> = Vec::new();
    let mut i: usize = 0;
    assert(items@.take(0) =~= Seq::<RawConfig>::empty());
    while i < items.len()
        invariant
            i <= items@.len(),
            precondition_list_ok(items@.take(i as int)),
            precondition_list_gives(items@.take(i as int), out@),
            precondition_list_error(items@.take(i as int)) is None,
        decreases items.len() - i,
    {
        proof {
            lemma_hash_items_step(items@, i as int);
            lemma_first_hash_error_step(items@, i as int, precondition_entry_error_fn());
        }
        match &items[i] {
            RawConfig::Hash(h) => {
                let p = if h.is_empty() {
                    Precondition { invert: false, condition: PreconditionType::Other }
                } else {
                    match build_precondition(h) {
                        Ok(p) => p,
                        Err(e) => {
                            proof {
                                let k = lemma_hash_item_kept(items@, i as int);
                                assert(!precondition_entry_ok(hash_items(items@)[k]));
                                lemma_first_hash_error_prefix(items@, i + 1, precondition_entry_error_fn());
                            }
                            return Err(e);
                        },
                    }
                };
                out.push(p);
            },
            _ => {},
        }
        i = i + 1;
    }
    assert(items@.take(items@.len() as int) =~= items@);
    Ok(out)
}


/// Building a MIDI precondition fails exactly when the data is missing, its `condition_type` is
/// missing or unknown, or the `channel` matcher or a matcher that the type reads fails.
pub proof fn law_midi_precondition_fails_exactly_when(data: Option<RCHash>)
    ensures
        midi_precondition_error(data) is Some <==> !midi_precondition_ok(data),
{
}

/// Building the preconditions of a list fails exactly when building one of its hashes does.
pub proof fn law_precondition_list_fails_exactly_when(items: Seq<RawConfig>)
    ensures
        precondition_list_error(items) is Some <==> !precondition_list_ok(items),
{
    let hs = hash_items(items);
    lemma_first_hash_error_none(hs, precondition_entry_error_fn());
    assert forall|i: int| 0 <= i < hs.len() implies (precondition_entry_error_fn()(#[trigger] hs[i]) is None
        <==> precondition_entry_ok(hs[i])) by {
        law_midi_precondition_fails_exactly_when(hash_of(hs[i].field("data"@)));
    }
}

/// The fields of a control precondition's data are tested against the state's controls: a
/// precondition built from data with `condition_type` `control`, no `channel`, and the integers
/// `c` in `control` and `w` in `value` holds in a MIDI state exactly when some channel's control
/// number `c` was last set to `w`.
pub proof fn law_control_precondition_fields_test_their_namesakes(
    h: RCHash,
    p: MidiPrecondition,
    c: i64,
    w: i64,
    state: MidiState,
)
    requires
        0 <= c <= 127,
        0 <= w <= 127,
        string_of(h.field("condition_type"@)) == Some("control"@),
        h.field("channel"@) is None,
        h.field("control"@) == Some(RawConfig::Integer(c)),
        h.field("value"@) == Some(RawConfig::Integer(w)),
        midi_precondition_gives(Some(h), p),
    ensures
        state.spec_matches(p) <==> exists|ch: u8| #[trigger] state.controls_view().contains_key((ch, c as u8))
            && state.controls_view()[(ch, c as u8)] == w,
{
    reveal_strlit("note_on");
    reveal_strlit("control");
    reveal_strlit("program");
    reveal_strlit("pitch_bend");
    assert("note_on"@[0] != "control"@[0]);
    assert("program"@[0] != "control"@[0]);
    assert("pitch_bend"@.len() != "control"@.len());
    assert(p is Control);
    assert(p->Control_control_match == Some(NumberMatcher::Val(c as u32)));
    assert(p->Control_value_match == Some(NumberMatcher::Val(w as u32)));
    assert(p->Control_channel_match is None);
    if state.spec_matches(p) {
        let q = choose|q: (u8, u8)| #[trigger] state.controls_view().contains_key(q) && num_match_accepts(
            p->Control_channel_match,
            q.0 as u32,
        ) && num_match_accepts(p->Control_control_match, q.1 as u32) && num_match_accepts(
            p->Control_value_match,
            state.controls_view()[q] as u32,
        );
        assert(q == (q.0, c as u8));
        assert(state.controls_view().contains_key((q.0, c as u8)));
    }
    if exists|ch: u8| #[trigger] state.controls_view().contains_key((ch, c as u8)) && state.controls_view()[(ch, c as u8)] == w {
        let ch = choose|ch: u8| #[trigger] state.controls_view().contains_key((ch, c as u8)) && state.controls_view()[(ch, c as u8)] == w;
        assert(state.controls_view().contains_key((ch, c as u8)));
    }
}

} // verus!
