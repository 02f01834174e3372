//! Builders of macros.
use vstd::prelude::*;
use vstd::string::StringExecFns;
use crate::actions::Action;
use crate::config::{ConfigError, first_error};
use crate::config::actions::{build_action, action_model};
use crate::config::event_matchers::{
    build_event_matcher,
    event_matcher_ok,
    event_matcher_gives,
    event_matcher_error,
    law_event_matcher_fails_exactly_when,
};
use crate::config::precondition::{
    build_precondition_list,
    precondition_list_ok,
    precondition_list_gives,
    precondition_list_error,
    law_precondition_list_fails_exactly_when,
};
use crate::event_matching::EventMatcher;
use crate::macros::{Macro, MacroBuilder, Scope};
use crate::preconditions::Precondition;
use crate::raw_config::{
    RawConfig,
    RCHash,
    string_of,
    array_of,
    hash_items,
    list_or_empty,
    lemma_hash_items_step,
    lemma_hash_item_kept,
    first_hash_error,
    lemma_first_hash_error_step,
    lemma_first_hash_error_prefix,
    lemma_first_hash_error_none,
};

verus! {

/// Whether building the event matchers of a list succeeds: every hash in it builds one.
pub open spec fn event_matcher_list_ok(items: Seq<RawConfig>) -> bool {
    forall|i: int| 0 <= i < hash_items(items).len() ==> event_matcher_ok(#[trigger] hash_items(items)[i])
}

/// Whether `out` holds, in order, the event matchers built from the hashes of a list.
pub open spec fn event_matcher_list_gives(items: Seq<RawConfig>, out: Seq<EventMatcher>) -> bool {
    &&& out.len() == hash_items(items).len()
    &&& forall|i: int| 0 <= i < out.len() ==> event_matcher_gives(#[trigger] hash_items(items)[i], out[i])
}

/// `event_matcher_error` as a function value.
pub open spec fn event_matcher_error_fn() -> spec_fn(RCHash) -> Option<Seq<char>> {
    |h: RCHash| event_matcher_error(h)
}

/// The error of building the event matchers of a list: that of its first hash that fails.
pub open spec fn event_matcher_list_error(items: Seq<RawConfig>) -> Option<Seq<char>> {
    first_hash_error(hash_items(items), event_matcher_error_fn())
}

/// Builds the event matchers of a list: one for each hash, in order; other values are skipped.
#[verifier::loop_isolation(false)]
pub fn build_event_matcher_list(items: &Vec<RawConfig>) -> (r: Result<Vec<EventMatcher>, ConfigError>)
    ensures
        r is Ok == event_matcher_list_ok(items@),
        r matches Ok(v) ==> event_matcher_list_gives(items@, v@),
        r is Ok ==> event_matcher_list_error(items@) is None,
        r matches Err(e) ==> e matches ConfigError::InvalidConfig(m) && event_matcher_list_error(items@) == Some(m@),
{
    let mut out: Vec<EventMatcher> = Vec::new();
    let mut i: usize = 0;
    assert(items@.take(0) =~= Seq::<RawConfig>::empty());
    while i < items.len()
        invariant
            i <= items@.len(),
            event_matcher_list_ok(items@.take(i as int)),
            event_matcher_list_gives(items@.take(i as int), out@),
            event_matcher_list_error(items@.take(i as int)) is None,
        decreases items.len() - i,
    {
        proof {
            lemma_hash_items_step(items@, i as int);
            lemma_first_hash_error_step(items@, i as int, event_matcher_error_fn());
        }
        match &items[i] {
            RawConfig::Hash(h) => {
                match build_event_matcher(h) {
                    Ok(e) => out.push(e),
                    Err(e) => {
                        proof {
                            let k = lemma_hash_item_kept(items@, i as int);
                            assert(!event_matcher_ok(hash_items(items@)[k]));
                            lemma_first_hash_error_prefix(items@, i + 1, event_matcher_error_fn());
                        }
                        return Err(e);
                    },
                }
            },
            _ => {},
        }
        i = i + 1;
    }
    assert(items@.take(items@.len() as int) =~= items@);
    Ok(out)
}

/// Whether building the actions of a list succeeds: every hash in it builds one.
pub open spec fn action_list_ok(items: Seq<RawConfig>) -> bool {
    forall|i: int| 0 <= i < hash_items(items).len() ==> (#[trigger] action_model(hash_items(items)[i])) is Ok
}

/// The error of building an action from a hash, when it fails.
pub open spec fn action_error(h: RCHash) -> Option<Seq<char>> {
    match action_model(h) {
        Ok(_) => None,
        Err(m) => Some(m),
    }
}

/// `action_error` as a function value.
pub open spec fn action_error_fn() -> spec_fn(RCHash) -> Option<Seq<char>> {
    |h: RCHash| action_error(h)
}

/// The error of building the actions of a list: that of its first hash that fails.
pub open spec fn action_list_error(items: Seq<RawConfig>) -> Option<Seq<char>> {
    first_hash_error(hash_items(items), action_error_fn())
}

/// Whether `out` holds, in order, the actions built from the hashes of a list.
pub open spec fn action_list_gives(items: Seq<RawConfig>, out: Seq<Action>) -> bool {
    &&& out.len() == hash_items(items).len()
    &&& forall|i: int| 0 <= i < out.len() ==> action_model(#[trigger] hash_items(items)[i]) == Ok::<
        crate::actions::ActionModel,
        Seq<char>,
    >(out[i].model())
}

/// Builds the actions of a list: one for each hash, in order; other values are skipped.
#[verifier::loop_isolation(false)]
pub fn build_action_list(items: &Vec<RawConfig>) -> (r: Result<Vec<Action>, ConfigError>)
    ensures
        r is Ok == action_list_ok(items@),
        r matches Ok(v) ==> action_list_gives(items@, v@),
        r is Ok ==> action_list_error(items@) is None,
        r matches Err(e) ==> e matches ConfigError::InvalidConfig(m) && action_list_error(items@) == Some(m@),
{
    let mut out: Vec<Action> = Vec::new();
    let mut i: usize = 0;
    assert(items@.take(0) =~= Seq::<RawConfig>::empty());
    while i < items.len()
        invariant
            i <= items@.len(),
            action_list_ok(items@.take(i as int)),
            action_list_gives(items@.take(i as int), out@),
            action_list_error(items@.take(i as int)) is None,
        decreases items.len() - i,
    {
        proof {
            lemma_hash_items_step(items@, i as int);
            lemma_first_hash_error_step(items@, i as int, action_error_fn());
        }
        match &items[i] {
            RawConfig::Hash(h) => {
                match build_action(h) {
                    Ok(a) => out.push(a),
                    Err(e) => {
                        proof {
                            let k = lemma_hash_item_kept(items@, i as int);
                            assert(action_model(hash_items(items@)[k]) is Err);
                            lemma_first_hash_error_prefix(items@, i + 1, action_error_fn());
                        }
                        return Err(e);
                    },
                }
            },
            _ => {},
        }
        i = i + 1;
    }
    assert(items@.take(items@.len() as int) =~= items@);
    Ok(out)
}

/// The list `name` of a macro hash, when it is a list.
pub open spec fn macro_list(h: RCHash, name: Seq<char>) -> Option<Seq<RawConfig>> {
    array_of(h.field(name))
}

/// Whether building a macro from a hash succeeds: `matching_events` and `actions` are non-empty
/// lists, and their items and the optional `required_preconditions` build.
pub open spec fn macro_ok(h: RCHash) -> bool {
    &&& macro_list(h, "matching_events"@) matches Some(ev) && ev.len() > 0 && event_matcher_list_ok(ev)
    &&& macro_list(h, "actions"@) matches Some(ac) && ac.len() > 0 && action_list_ok(ac)
    &&& precondition_list_ok(list_or_empty(macro_list(h, "required_preconditions"@)))
}

/// The error of building a macro from a hash, when it fails: a missing or empty
/// `matching_events` list, a missing or empty `actions` list, then the error of the event
/// matchers, of the actions and of the preconditions, in that order.
pub open spec fn macro_error(h: RCHash) -> Option<Seq<char>> {
    match macro_list(h, "matching_events"@) {
        None => Some("Macro definition missing matching_events list"@),
        Some(ev) => if ev.len() == 0 {
            Some("Macro definition contains 'matching_events' field, but not a single matching event is specified"@)
        } else {
            match macro_list(h, "actions"@) {
                None => Some("Macro definition missing actions list"@),
                Some(ac) => if ac.len() == 0 {
                    Some("Macro definition contains 'actions' field, but not single action is specified"@)
                } else {
                    first_error(
                        event_matcher_list_error(ev),
                        first_error(
                            action_list_error(ac),
                            precondition_list_error(list_or_empty(macro_list(h, "required_preconditions"@))),
                        ),
                    )
                },
            }
        },
    }
}

/// Whether `m` is the macro built from a hash with the given scope: the optional string `name`,
/// the event matchers, actions and preconditions of its lists (no preconditions when the list
/// gives none), and the scope.
pub open spec fn macro_gives(h: RCHash, scope: Option<Scope>, m: Macro) -> bool {
    let pre = list_or_empty(macro_list(h, "required_preconditions"@));
    &&& match m.name {
        Some(n) => string_of(h.field("name"@)) == Some(n@),
        None => string_of(h.field("name"@)) is None,
    }
    &&& event_matcher_list_gives(list_or_empty(macro_list(h, "matching_events"@)), m.match_events@)
    &&& action_list_gives(list_or_empty(macro_list(h, "actions"@)), m.actions@)
    &&& match m.required_preconditions {
        Some(list) => hash_items(pre).len() > 0 && precondition_list_gives(pre, list@),
        None => hash_items(pre).len() == 0,
    }
    &&& m.scope == scope
}

/// Builds a macro from a hash with an optional string `name`, a non-empty list
/// `matching_events` of event matchers, an optional list `required_preconditions` and a
/// non-empty list `actions`, attaching `scope`.
pub fn build_macro(raw_macro: &RCHash, scope: Option<Scope>) -> (r: Result<Macro, ConfigError>)
    ensures
        r is Ok == macro_ok(*raw_macro),
        r matches Ok(m) ==> macro_gives(*raw_macro, scope, m),
        r is Ok ==> macro_error(*raw_macro) is None,
        r matches Err(e) ==> e matches ConfigError::InvalidConfig(m) && macro_error(*raw_macro) == Some(m@),
{
    let raw_matching_events = match raw_macro.get_array("matching_events") {
        Some(a) => a,
        None => return Err(
            ConfigError::InvalidConfig(String::from_str("Macro definition missing matching_events list")),
        ),
    };
    if raw_matching_events.len() == 0 {
        return Err(
            ConfigError::InvalidConfig(
                String::from_str(
                    "Macro definition contains 'matching_events' field, but not a single matching event is specified",
                ),
            ),
        );
    }
    let raw_actions = match raw_macro.get_array("actions") {
        Some(a) => a,
        None => return Err(ConfigError::InvalidConfig(String::from_str("Macro definition missing actions list"))),
    };
    if raw_actions.len() == 0 {
        return Err(
            ConfigError::InvalidConfig(
                String::from_str("Macro definition contains 'actions' field, but not single action is specified"),
            ),
        );
    }
    let matching_events = match build_event_matcher_list(raw_matching_events) {
        Ok(v) => v,
        Err(e) => return Err(e),
    };
    let actions = match build_action_list(raw_actions) {
        Ok(v) => v,
        Err(e) => return Err(e),
    };
    let required_preconditions: Vec<Precondition> = match raw_macro.get_array("required_preconditions") {
        Some(items) => match build_precondition_list(items) {
            Ok(v) => v,
            Err(e) => return Err(e),
        },
        None => {
            assert(hash_items(Seq::<RawConfig>::empty()) =~= Seq::<RCHash>::empty());
            Vec::new()
        },
    };
    let mut macro_builder = MacroBuilder::from_event_matchers(matching_events);
    if let Some(name) = raw_macro.get_string("name") {
        macro_builder = macro_builder.set_name(String::from_str(name));
    }
    if required_preconditions.len() > 0 {
        macro_builder = macro_builder.set_preconditions(required_preconditions);
    }
    macro_builder = macro_builder.set_actions(actions);
    if let Some(scope) = scope {
        macro_builder = macro_builder.set_scope(scope);
    }
    Ok(macro_builder.build())
}

/// Whether building the macros of a list succeeds: every hash in it builds one.
pub open spec fn macro_list_ok(items: Seq<RawConfig>) -> bool {
    forall|i: int| 0 <= i < hash_items(items).len() ==> macro_ok(#[trigger] hash_items(items)[i])
}

/// Whether `out` holds, in order, the macros built from the hashes of a list, with the scope.
pub open spec fn macro_list_gives(items: Seq<RawConfig>, scope: Option<Scope>, out: Seq<Macro>) -> bool {
    &&& out.len() == hash_items(items).len()
    &&& forall|i: int| 0 <= i < out.len() ==> macro_gives(#[trigger] hash_items(items)[i], scope, out[i])
}

/// `macro_error` as a function value.
pub open spec fn macro_error_fn() -> spec_fn(RCHash) -> Option<Seq<char>> {
    |h: RCHash| macro_error(h)
}

/// The error of building the macros of a list: that of its first hash that fails.
pub open spec fn macro_list_error(items: Seq<RawConfig>) -> Option<Seq<char>> {
    first_hash_error(hash_items(items), macro_error_fn())
}

/// Builds the macros of a list, each with a copy of `scope`: one for each hash, in order; other
/// values are skipped.
#[verifier::loop_isolation(false)]
pub fn build_scope_macros(raw_macros: &Vec<RawConfig>, scope: Option<Scope>) -> (r: Result<Vec<Macro>, ConfigError>)
    ensures
        r is Ok == macro_list_ok(raw_macros@),
        r matches Ok(v) ==> macro_list_gives(raw_macros@, scope, v@),
        r is Ok ==> macro_list_error(raw_macros@) is None,
        r matches Err(e) ==> e matches ConfigError::InvalidConfig(m) && macro_list_error(raw_macros@) == Some(m@),
{
    let mut out: Vec<Macro> = Vec::new();
    let mut i: usize = 0;
    assert(raw_macros@.take(0) =~= Seq::<RawConfig>::empty());
    while i < raw_macros.len()
        invariant
            i <= raw_macros@.len(),
            macro_list_ok(raw_macros@.take(i as int)),
            macro_list_gives(raw_macros@.take(i as int), scope, out@),
            macro_list_error(raw_macros@.take(i as int)) is None,
        decreases raw_macros.len() - i,
    {
        proof {
            lemma_hash_items_step(raw_macros@, i as int);
            lemma_first_hash_error_step(raw_macros@, i as int, macro_error_fn());
        }
        match &raw_macros[i] {
            RawConfig::Hash(h) => {
                let s = match &scope {
                    Some(s) => Some(s.clone()),
                    None => None,
                };
                match build_macro(h, s) {
                    Ok(m) => out.push(m),
                    Err(e) => {
                        proof {
                            let k = lemma_hash_item_kept(raw_macros@, i as int);
                            assert(!macro_ok(hash_items(raw_macros@)[k]));
                            lemma_first_hash_error_prefix(raw_macros@, i + 1, macro_error_fn());
                        }
                        return Err(e);
                    },
                }
            },
            _ => {},
        }
        i = i + 1;
    }
    assert(raw_macros@.take(raw_macros@.len() as int) =~= raw_macros@);
    Ok(out)
}

/// Building a macro fails exactly when `matching_events` or `actions` is missing, not a list or
/// empty, or building one of the hashes of `matching_events`, `actions` or
/// `required_preconditions` fails.
pub proof fn law_macro_fails_exactly_when(h: RCHash)
    ensures
        macro_error(h) is Some <==> !macro_ok(h),
{
    let ev = list_or_empty(macro_list(h, "matching_events"@));
    let ac = list_or_empty(macro_list(h, "actions"@));
    let ehs = hash_items(ev);
    let ahs = hash_items(ac);
    lemma_first_hash_error_none(ehs, event_matcher_error_fn());
    assert forall|i: int| 0 <= i < ehs.len() implies (event_matcher_error_fn()(#[trigger] ehs[i]) is None
        <==> event_matcher_ok(ehs[i])) by {
        law_event_matcher_fails_exactly_when(ehs[i]);
    }
    lemma_first_hash_error_none(ahs, action_error_fn());
    assert forall|i: int| 0 <= i < ahs.len() implies (action_error_fn()(#[trigger] ahs[i]) is None
        <==> action_model(ahs[i]) is Ok) by {}
    law_precondition_list_fails_exactly_when(list_or_empty(macro_list(h, "required_preconditions"@)));
}

} // verus!
