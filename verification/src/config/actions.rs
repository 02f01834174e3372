//! Builders of actions from configuration values.
use vstd::prelude::*;
use vstd::string::StringExecFns;
use crate::actions::{Action, ActionModel, ControlAction};
use crate::config::{ConfigError, message, message3};
use crate::raw_config::{RawConfig, RCHash, string_of, integer_of, array_of, hash_of, opt_val};
use crate::text::{decimal, int_to_string, str_eq};

verus! {

/// The `count` field of `h` when it is an integer, else 1.
pub open spec fn count_field(h: RCHash) -> i64 {
    match integer_of(h.field("count"@)) {
        Some(c) => c,
        None => 1,
    }
}

/// A key sequence action from its data: a string, or a hash with a string `sequence` and an
/// optional non-negative integer `count`.
pub open spec fn key_sequence_model(d: RawConfig) -> Result<ActionModel, Seq<char>> {
    match d {
        RawConfig::String(s) => Ok(ActionModel::KeySequence { sequence: s@, count: 1, delay: None }),
        RawConfig::Hash(h) => match string_of(h.field("sequence"@)) {
            Some(sequence) => if count_field(h) < 0 {
                Err("Action key_sequence: count should be 0 or more, found "@ + decimal(count_field(h) as int))
            } else {
                Ok(ActionModel::KeySequence { sequence, count: count_field(h) as usize, delay: None })
            },
            None => Err("Action key_sequence: data field doesn't contain a 'sequence' field"@),
        },
        _ => Err("Action key_sequence: data field should be either string or hash, but was neither"@),
    }
}

/// `m` milliseconds in microseconds, as a `u32` that wraps around as the multiplication of a
/// release build does.
pub open spec fn ms_to_us_u32(m: i64) -> u32 {
    (((m as u32) as nat * 1000nat) % 0x1_0000_0000nat) as u32
}

/// `m` milliseconds in microseconds, as a `u64` that wraps around as the multiplication of a
/// release build does.
pub open spec fn ms_to_us_u64(m: i64) -> u64 {
    (((m as u64) as nat * 1000nat) % 0x1_0000_0000_0000_0000nat) as u64
}

/// The delay between keys of a text entry: `delay` in microseconds when it is a non-negative
/// integer, else `delay_ms` in milliseconds when it is a non-negative integer, else none.
pub open spec fn enter_text_delay(h: RCHash) -> Option<u32> {
    let d = integer_of(h.field("delay"@));
    let m = integer_of(h.field("delay_ms"@));
    if d is Some && d->0 >= 0 {
        Some(d->0 as u32)
    } else if m is Some && m->0 >= 0 {
        Some(ms_to_us_u32(m->0))
    } else {
        None
    }
}

/// A text entry action from its data: a string, or a hash with a string `text`, an optional
/// non-negative integer `count` and an optional delay.
pub open spec fn enter_text_model(d: RawConfig) -> Result<ActionModel, Seq<char>> {
    match d {
        RawConfig::String(s) => Ok(ActionModel::EnterText { text: s@, count: 1, delay: None }),
        RawConfig::Hash(h) => match string_of(h.field("text"@)) {
            Some(text) => if count_field(h) < 0 {
                Err("Action enter_text: count should be 0 or more, found "@ + decimal(count_field(h) as int))
            } else {
                Ok(
                    ActionModel::EnterText {
                        text,
                        count: count_field(h) as usize,
                        delay: enter_text_delay(h),
                    },
                )
            },
            None => Err("Action enter_text: data field doesn't contain a 'text' field"@),
        },
        _ => Err("Action enter_text: data field should be either string or hash, but was neither"@),
    }
}

/// Whether `v` is a string or an integer.
pub open spec fn is_scalar(v: RawConfig) -> bool {
    v is String || v is Integer
}

/// The text of a string or an integer (in decimal).
pub open spec fn scalar_text(v: RawConfig) -> Seq<char> {
    match v {
        RawConfig::String(s) => s@,
        RawConfig::Integer(i) => decimal(i as int),
        _ => Seq::empty(),
    }
}

/// The arguments of a shell action: `None` when `args` holds something other than strings and
/// integers; otherwise their texts, or no arguments when `args` is missing, not a list or empty.
pub open spec fn shell_args(h: RCHash) -> Option<Option<Seq<Seq<char>>>> {
    match array_of(h.field("args"@)) {
        Some(a) => if forall|i: int| 0 <= i < a.len() ==> is_scalar(#[trigger] a[i]) {
            if a.len() == 0 {
                Some(None)
            } else {
                Some(Some(a.map_values(|v: RawConfig| scalar_text(v))))
            }
        } else {
            None
        },
        None => Some(None),
    }
}

/// The environment variables of a shell action: `None` when a key or a value of `env_vars` is
/// something other than a string or an integer; otherwise their texts in order, or none when
/// `env_vars` is missing, not a hash or empty.
pub open spec fn shell_env_vars(h: RCHash) -> Option<Option<Seq<(Seq<char>, Seq<char>)>>> {
    match hash_of(h.field("env_vars"@)) {
        Some(e) => {
            let es = e.entries_view();
            if forall|i: int| 0 <= i < es.len() ==> is_scalar(#[trigger] es[i].0) && is_scalar(es[i].1) {
                if es.len() == 0 {
                    Some(None)
                } else {
                    Some(
                        Some(
                            es.map_values(
                                |p: (RawConfig, RawConfig)| (scalar_text(p.0), scalar_text(p.1)),
                            ),
                        ),
                    )
                }
            } else {
                None
            }
        },
        None => Some(None),
    }
}

/// A shell action from its data: a string command, or a hash with a string `command` and
/// optional `args` and `env_vars`.
pub open spec fn shell_model(d: RawConfig) -> Result<ActionModel, Seq<char>> {
    match d {
        RawConfig::String(s) => Ok(ActionModel::Shell { command: s@, args: None, env_vars: None }),
        RawConfig::Hash(h) => match (string_of(h.field("command"@)), shell_args(h), shell_env_vars(h)) {
            (None, _, _) => Err("Action: shell: data field doesn't contain a command field"@),
            (_, None, _) => Err("Action: shell: invalid argument type"@),
            (_, _, None) => Err("Action: shell: invalid env var key and/or value type"@),
            (Some(command), Some(args), Some(env_vars)) => Ok(ActionModel::Shell { command, args, env_vars }),
        },
        _ => Err("Action: shell: data field should be either string or hash, but was neither"@),
    }
}

/// The duration of a wait given as a hash: `duration` in microseconds when it is a
/// non-negative integer, else `duration_ms` in milliseconds when it is a non-negative integer.
pub open spec fn wait_duration(h: RCHash) -> Option<u64> {
    let d = integer_of(h.field("duration"@));
    let m = integer_of(h.field("duration_ms"@));
    if d is Some && d->0 >= 0 {
        Some(d->0 as u64)
    } else if m is Some && m->0 >= 0 {
        Some(ms_to_us_u64(m->0))
    } else {
        None
    }
}

/// A wait action from its data: a non-negative integer, or a hash with a duration.
pub open spec fn wait_model(d: RawConfig) -> Result<ActionModel, Seq<char>> {
    match d {
        RawConfig::Integer(i) => if i < 0 {
            Err("Action wait: duration should be 0 or more, found "@ + decimal(i as int))
        } else {
            Ok(ActionModel::Wait { duration: i as u64 })
        },
        RawConfig::Hash(h) => match wait_duration(h) {
            Some(duration) => Ok(ActionModel::Wait { duration }),
            None => Err("Action wait: no positive duration or duration_ms specified"@),
        },
        _ => Err("Action wait: data field should be either int or hash, but was neither"@),
    }
}

/// The name of a control action: the data string, or the string `action` field of a hash.
pub open spec fn control_name(d: RawConfig) -> Option<Seq<char>> {
    match d {
        RawConfig::String(s) => Some(s@),
        RawConfig::Hash(h) => string_of(h.field("action"@)),
        _ => None,
    }
}

/// A control action from its data: `reload_macros`, `restart` or `exit`.
pub open spec fn control_model(d: RawConfig) -> Result<ActionModel, Seq<char>> {
    match control_name(d) {
        Some(n) => if n == "reload_macros"@ {
            Ok(ActionModel::Control(ControlAction::ReloadMacros))
        } else if n == "restart"@ {
            Ok(ActionModel::Control(ControlAction::Restart))
        } else if n == "exit"@ {
            Ok(ActionModel::Control(ControlAction::Exit))
        } else {
            Err("Action control: Unknown control action '"@ + n + "'"@)
        },
        None => if d is Hash {
            Err("Action control: data field doesn't contain a string 'action' field"@)
        } else {
            Err("Action control: data field should be either string or hash, but was neither"@)
        },
    }
}

/// The action that `model` gives for the data, or the error `missing` when there is no data.
pub open spec fn from_data(
    data: Option<RawConfig>,
    missing: Seq<char>,
    model: spec_fn(RawConfig) -> Result<ActionModel, Seq<char>>,
) -> Result<ActionModel, Seq<char>> {
    match data {
        Some(d) => model(d),
        None => Err(missing),
    }
}

/// An action of type `kind` from its data.
pub open spec fn typed_action_model(kind: Seq<char>, data: Option<RawConfig>) -> Result<ActionModel, Seq<char>> {
    if kind == "key_sequence"@ {
        from_data(data, "Action key_sequence: missing data field"@, |d: RawConfig| key_sequence_model(d))
    } else if kind == "enter_text"@ {
        from_data(data, "Action enter_text: missing data field"@, |d: RawConfig| enter_text_model(d))
    } else if kind == "shell"@ {
        from_data(data, "Action: shell: missing data field"@, |d: RawConfig| shell_model(d))
    } else if kind == "wait"@ {
        from_data(data, "Action wait: missing data field"@, |d: RawConfig| wait_model(d))
    } else if kind == "control"@ {
        from_data(data, "Action control: missing data field"@, |d: RawConfig| control_model(d))
    } else {
        Err("Unknown action type '"@ + kind + "'"@)
    }
}

/// An action from a hash with a string `type` and its `data`.
pub open spec fn action_model(h: RCHash) -> Result<ActionModel, Seq<char>> {
    match string_of(h.field("type"@)) {
        Some(kind) => typed_action_model(kind, h.field("data"@)),
        None => Err("Missing 'type' field for action"@),
    }
}

/// Whether `r` is the action `m` when there is one, or else a configuration error with the
/// message of `m`.
pub open spec fn built_as(r: Result<Action, ConfigError>, m: Result<ActionModel, Seq<char>>) -> bool {
    match m {
        Ok(m) => r matches Ok(a) && a.model() == m,
        Err(msg) => r matches Err(ConfigError::InvalidConfig(e)) && e@ == msg,
    }
}

/// Builds a key sequence action.
pub fn build_action_key_sequence(raw_data: Option<&RawConfig>) -> (r: Result<Action, ConfigError>)
    ensures
        built_as(r, from_data(opt_val(raw_data), "Action key_sequence: missing data field"@, |d: RawConfig| key_sequence_model(d))),
{
    let raw_data = match raw_data {
        Some(d) => d,
        None => return Err(ConfigError::InvalidConfig(String::from_str("Action key_sequence: missing data field"))),
    };
    match raw_data {
        RawConfig::String(sequence) => Ok(Action::key_sequence(sequence.as_str())),
        RawConfig::Hash(hash) => {
            let sequence = match hash.get_string("sequence") {
                Some(s) => s,
                None => return Err(
                    ConfigError::InvalidConfig(
                        String::from_str("Action key_sequence: data field doesn't contain a 'sequence' field"),
                    ),
                ),
            };
            let count = match hash.get_integer("count") {
                Some(c) => c,
                None => 1,
            };
            if count < 0 {
                Err(ConfigError::InvalidConfig(
                    message("Action key_sequence: count should be 0 or more, found ", int_to_string(count).as_str()),
                ))
            } else {
                Ok(Action::KeySequence { sequence: String::from_str(sequence), count: count as usize, delay: None })
            }
        },
        _ => Err(ConfigError::InvalidConfig(
            String::from_str("Action key_sequence: data field should be either string or hash, but was neither"),
        )),
    }
}


/// Builds a text entry action.
pub fn build_action_enter_text(raw_data: Option<&RawConfig>) -> (r: Result<Action, ConfigError>)
    ensures
        built_as(r, from_data(opt_val(raw_data), "Action enter_text: missing data field"@, |d: RawConfig| enter_text_model(d))),
{
    let raw_data = match raw_data {
        Some(d) => d,
        None => return Err(ConfigError::InvalidConfig(String::from_str("Action enter_text: missing data field"))),
    };
    match raw_data {
        RawConfig::String(text) => Ok(Action::enter_text(text.as_str())),
        RawConfig::Hash(hash) => {
            let text = match hash.get_string("text") {
                Some(s) => s,
                None => return Err(
                    ConfigError::InvalidConfig(
                        String::from_str("Action enter_text: data field doesn't contain a 'text' field"),
                    ),
                ),
            };
            let count = match hash.get_integer("count") {
                Some(c) => c,
                None => 1,
            };
            let delay: Option<u32> = match hash.get_integer("delay") {
                Some(d) if d >= 0 => Some(d as u32),
                _ => match hash.get_integer("delay_ms") {
                    Some(m) if m >= 0 => Some((m as u32).wrapping_mul(1000)),
                    _ => None,
                },
            };
            if count < 0 {
                Err(ConfigError::InvalidConfig(
                    message("Action enter_text: count should be 0 or more, found ", int_to_string(count).as_str()),
                ))
            } else {
                Ok(Action::EnterText { text: String::from_str(text), count: count as usize, delay })
            }
        },
        _ => Err(ConfigError::InvalidConfig(
            String::from_str("Action enter_text: data field should be either string or hash, but was neither"),
        )),
    }
}

/// Builds a wait action.
pub fn build_action_wait(raw_data: Option<&RawConfig>) -> (r: Result<Action, ConfigError>)
    ensures
        built_as(r, from_data(opt_val(raw_data), "Action wait: missing data field"@, |d: RawConfig| wait_model(d))),
{
    let raw_data = match raw_data {
        Some(d) => d,
        None => return Err(ConfigError::InvalidConfig(String::from_str("Action wait: missing data field"))),
    };
    match raw_data {
        RawConfig::Integer(i) => if *i < 0 {
            Err(ConfigError::InvalidConfig(
                message("Action wait: duration should be 0 or more, found ", int_to_string(*i).as_str()),
            ))
        } else {
            Ok(Action::Wait { duration: *i as u64 })
        },
        RawConfig::Hash(hash) => {
            let duration: Option<u64> = match hash.get_integer("duration") {
                Some(d) if d >= 0 => Some(d as u64),
                _ => match hash.get_integer("duration_ms") {
                    Some(m) if m >= 0 => Some((m as u64).wrapping_mul(1000)),
                    _ => None,
                },
            };
            match duration {
                Some(duration) => Ok(Action::Wait { duration }),
                None => Err(ConfigError::InvalidConfig(
                    String::from_str("Action wait: no positive duration or duration_ms specified"),
                )),
            }
        },
        _ => Err(ConfigError::InvalidConfig(
            String::from_str("Action wait: data field should be either int or hash, but was neither"),
        )),
    }
}

/// Builds a control action.
pub fn build_action_control(raw_data: Option<&RawConfig>) -> (r: Result<Action, ConfigError>)
    ensures
        built_as(r, from_data(opt_val(raw_data), "Action control: missing data field"@, |d: RawConfig| control_model(d))),
{
    let raw_data = match raw_data {
        Some(d) => d,
        None => return Err(ConfigError::InvalidConfig(String::from_str("Action control: missing data field"))),
    };
    let name: &str = match raw_data {
        RawConfig::String(s) => s.as_str(),
        RawConfig::Hash(hash) => match hash.get_string("action") {
            Some(s) => s,
            None => return Err(
                ConfigError::InvalidConfig(
                    String::from_str("Action control: data field doesn't contain a string 'action' field"),
                ),
            ),
        },
        _ => return Err(
            ConfigError::InvalidConfig(
                String::from_str("Action control: data field should be either string or hash, but was neither"),
            ),
        ),
    };
    if str_eq(name, "reload_macros") {
        Ok(Action::Control(ControlAction::ReloadMacros))
    } else if str_eq(name, "restart") {
        Ok(Action::Control(ControlAction::Restart))
    } else if str_eq(name, "exit") {
        Ok(Action::Control(ControlAction::Exit))
    } else {
        Err(ConfigError::InvalidConfig(message3("Action control: Unknown control action '", name, "'")))
    }
}


/// The text of a string or an integer value, or `None` for any other value.
fn scalar_string(v: &RawConfig) -> (r: Option<String>)
    ensures
        match r {
            Some(t) => is_scalar(*v) && t@ == scalar_text(*v),
            None => !is_scalar(*v),
        },
{
    match v {
        RawConfig::String(s) => Some(s.clone()),
        RawConfig::Integer(i) => Some(int_to_string(*i)),
        _ => None,
    }
}

/// The arguments of a shell action from the `args` field of `hash`.
#[verifier::loop_isolation(false)]
fn build_shell_args(hash: &RCHash) -> (r: Result<Option<Vec<String>>, ConfigError>)
    ensures
        match shell_args(*hash) {
            Some(args) => r matches Ok(out) && match out {
                Some(v) => args == Some(crate::actions::strings_view(v@)),
                None => args is None,
            },
            None => r matches Err(ConfigError::InvalidConfig(m)) && m@ == "Action: shell: invalid argument type"@,
        },
{
    let raw_args = match hash.get_array("args") {
        Some(a) => a,
        None => return Ok(None),
    };
    let ghost a = raw_args@;
    let mut out: Vec<String> = Vec::new();
    let mut i: usize = 0;
    while i < raw_args.len()
        invariant
            a == raw_args@,
            i <= a.len(),
            out@.len() == i,
            forall|j: int| 0 <= j < i ==> is_scalar(#[trigger] a[j]),
            forall|j: int| 0 <= j < i ==> (#[trigger] out@[j])@ == scalar_text(a[j]),
        decreases a.len() - i,
    {
        match scalar_string(&raw_args[i]) {
            Some(t) => out.push(t),
            None => return Err(ConfigError::InvalidConfig(String::from_str("Action: shell: invalid argument type"))),
        }
        i = i + 1;
    }
    if out.len() == 0 {
        Ok(None)
    } else {
        assert(crate::actions::strings_view(out@) =~= a.map_values(|v: RawConfig| scalar_text(v)));
        Ok(Some(out))
    }
}

/// The environment variables of a shell action from the `env_vars` field of `hash`.
#[verifier::loop_isolation(false)]
fn build_shell_env_vars(hash: &RCHash) -> (r: Result<Option<Vec<(String, String)>>, ConfigError>)
    ensures
        match shell_env_vars(*hash) {
            Some(vars) => r matches Ok(out) && match out {
                Some(v) => vars == Some(crate::actions::string_pairs_view(v@)),
                None => vars is None,
            },
            None => r matches Err(ConfigError::InvalidConfig(m)) && m@
                == "Action: shell: invalid env var key and/or value type"@,
        },
{
    let raw_vars = match hash.get_hash("env_vars") {
        Some(e) => e,
        None => return Ok(None),
    };
    let ghost es = raw_vars.entries_view();
    let mut out: Vec<(String, String)> = Vec::new();
    let mut i: usize = 0;
    let n = raw_vars.len();
    while i < n
        invariant
            es == raw_vars.entries_view(),
            n == es.len(),
            i <= n,
            out@.len() == i,
            forall|j: int| 0 <= j < i ==> is_scalar((#[trigger] es[j]).0) && is_scalar(es[j].1),
            forall|j: int|
                0 <= j < i ==> (#[trigger] out@[j]).0@ == scalar_text(es[j].0) && out@[j].1@
                    == scalar_text(es[j].1),
        decreases n - i,
    {
        let (key, value) = raw_vars.entry(i);
        let key = match scalar_string(key) {
            Some(t) => t,
            None => return Err(
                ConfigError::InvalidConfig(String::from_str("Action: shell: invalid env var key and/or value type")),
            ),
        };
        let value = match scalar_string(value) {
            Some(t) => t,
            None => return Err(
                ConfigError::InvalidConfig(String::from_str("Action: shell: invalid env var key and/or value type")),
            ),
        };
        out.push((key, value));
        i = i + 1;
    }
    if out.len() == 0 {
        Ok(None)
    } else {
        assert(crate::actions::string_pairs_view(out@) =~= es.map_values(
            |p: (RawConfig, RawConfig)| (scalar_text(p.0), scalar_text(p.1)),
        ));
        Ok(Some(out))
    }
}

/// Builds a shell action.
pub fn build_action_shell(raw_data: Option<&RawConfig>) -> (r: Result<Action, ConfigError>)
    ensures
        built_as(r, from_data(opt_val(raw_data), "Action: shell: missing data field"@, |d: RawConfig| shell_model(d))),
{
    let raw_data = match raw_data {
        Some(d) => d,
        None => return Err(ConfigError::InvalidConfig(String::from_str("Action: shell: missing data field"))),
    };
    match raw_data {
        RawConfig::String(command) => Ok(Action::Shell { command: command.clone(), args: None, env_vars: None }),
        RawConfig::Hash(hash) => {
            let command = match hash.get_string("command") {
                Some(s) => s,
                None => return Err(
                    ConfigError::InvalidConfig(
                        String::from_str("Action: shell: data field doesn't contain a command field"),
                    ),
                ),
            };
            let args = match build_shell_args(hash) {
                Ok(a) => a,
                Err(e) => return Err(e),
            };
            let env_vars = match build_shell_env_vars(hash) {
                Ok(e) => e,
                Err(e) => return Err(e),
            };
            Ok(Action::Shell { command: String::from_str(command), args, env_vars })
        },
        _ => Err(ConfigError::InvalidConfig(
            String::from_str("Action: shell: data field should be either string or hash, but was neither"),
        )),
    }
}

/// Builds an action from a hash with a string `type` (`key_sequence`, `enter_text`, `shell`,
/// `wait` or `control`) and the `data` that the builder of that type reads.
pub fn build_action(raw_action: &RCHash) -> (r: Result<Action, ConfigError>)
    ensures
        built_as(r, action_model(*raw_action)),
{
    let data = raw_action.get("data");
    let kind = match raw_action.get_string("type") {
        Some(t) => t,
        None => return Err(ConfigError::InvalidConfig(String::from_str("Missing 'type' field for action"))),
    };
    if str_eq(kind, "key_sequence") {
        build_action_key_sequence(data)
    } else if str_eq(kind, "enter_text") {
        build_action_enter_text(data)
    } else if str_eq(kind, "shell") {
        build_action_shell(data)
    } else if str_eq(kind, "wait") {
        build_action_wait(data)
    } else if str_eq(kind, "control") {
        build_action_control(data)
    } else {
        Err(ConfigError::InvalidConfig(message3("Unknown action type '", kind, "'")))
    }
}


/// A non-negative `duration` (microseconds) decides the wait, whatever `duration_ms` holds.
pub proof fn law_duration_supersedes_duration_ms(h: RCHash)
    requires
        integer_of(h.field("duration"@)) matches Some(d) && d >= 0,
    ensures
        wait_model(RawConfig::Hash(h)) == Ok::<ActionModel, Seq<char>>(
            ActionModel::Wait { duration: integer_of(h.field("duration"@))->0 as u64 },
        ),
{
}

/// A negative `duration` is ignored in favour of a non-negative `duration_ms` (milliseconds).
pub proof fn law_negative_duration_falls_back_to_duration_ms(h: RCHash)
    requires
        integer_of(h.field("duration"@)) matches Some(d) && d < 0,
        integer_of(h.field("duration_ms"@)) matches Some(m) && m >= 0,
    ensures
        wait_model(RawConfig::Hash(h)) == Ok::<ActionModel, Seq<char>>(
            ActionModel::Wait { duration: ms_to_us_u64(integer_of(h.field("duration_ms"@))->0) },
        ),
{
}

/// A non-negative `delay` (microseconds) decides the delay of a text entry, whatever
/// `delay_ms` holds.
pub proof fn law_delay_supersedes_delay_ms(h: RCHash)
    requires
        integer_of(h.field("delay"@)) matches Some(d) && d >= 0,
    ensures
        enter_text_delay(h) == Some(integer_of(h.field("delay"@))->0 as u32),
{
}

/// A negative `delay` is ignored in favour of a non-negative `delay_ms` (milliseconds).
pub proof fn law_negative_delay_falls_back_to_delay_ms(h: RCHash)
    requires
        integer_of(h.field("delay"@)) matches Some(d) && d < 0,
        integer_of(h.field("delay_ms"@)) matches Some(m) && m >= 0,
    ensures
        enter_text_delay(h) == Some(ms_to_us_u32(integer_of(h.field("delay_ms"@))->0)),
{
}

/// A wait fails exactly for data that is neither an integer nor a hash, a negative integer, or
/// a hash with neither a non-negative `duration` nor a non-negative `duration_ms`.
pub proof fn law_wait_fails_exactly_when(d: RawConfig)
    ensures
        wait_model(d) is Err <==> {
            ||| !(d is Integer) && !(d is Hash)
            ||| d matches RawConfig::Integer(i) && i < 0
            ||| d matches RawConfig::Hash(h) && !(integer_of(h.field("duration"@)) matches Some(v) && v >= 0)
                && !(integer_of(h.field("duration_ms"@)) matches Some(v) && v >= 0)
        },
{
}

/// A key sequence fails exactly for data that is neither a string nor a hash, a hash without a
/// string `sequence`, or a hash with a negative integer `count`; otherwise its count is `count`,
/// or 1 when `count` is not an integer.
pub proof fn law_key_sequence_fails_exactly_when(d: RawConfig)
    ensures
        key_sequence_model(d) is Err <==> {
            ||| !(d is String) && !(d is Hash)
            ||| d matches RawConfig::Hash(h) && string_of(h.field("sequence"@)) is None
            ||| d matches RawConfig::Hash(h) && integer_of(h.field("count"@)) matches Some(c) && c < 0
        },
        d matches RawConfig::Hash(h) ==> (key_sequence_model(d) is Ok ==> key_sequence_model(d)
            == Ok::<ActionModel, Seq<char>>(
            ActionModel::KeySequence {
                sequence: string_of(h.field("sequence"@))->0,
                count: count_field(h) as usize,
                delay: None,
            },
        )),
{
}

/// A shell action fails exactly for data that is neither a string nor a hash, or a hash without
/// a string `command`, with an `args` list holding something other than strings and integers,
/// or with an `env_vars` hash holding a key or a value other than a string or an integer.
pub proof fn law_shell_fails_exactly_when(d: RawConfig)
    ensures
        shell_model(d) is Err <==> {
            ||| !(d is String) && !(d is Hash)
            ||| d matches RawConfig::Hash(h) && string_of(h.field("command"@)) is None
            ||| d matches RawConfig::Hash(h) && array_of(h.field("args"@)) matches Some(a) && exists|i: int|
                0 <= i < a.len() && !is_scalar(#[trigger] a[i])
            ||| d matches RawConfig::Hash(h) && hash_of(h.field("env_vars"@)) matches Some(e) && exists|i: int|
                0 <= i < e.entries_view().len() && !(is_scalar((#[trigger] e.entries_view()[i]).0) && is_scalar(
                    e.entries_view()[i].1,
                ))
        },
{
}

/// An action whose `type` names a kind of action is what the builder of that kind makes of its
/// `data`; any other `type`, or none, fails.
pub proof fn law_action_dispatches_on_type(h: RCHash)
    ensures
        match string_of(h.field("type"@)) {
            Some(t) => if t == "key_sequence"@ || t == "enter_text"@ || t == "shell"@ || t == "wait"@ || t
                == "control"@ {
                action_model(h) == typed_action_model(t, h.field("data"@))
            } else {
                action_model(h) is Err
            },
            None => action_model(h) is Err,
        },
{
}

/// A control action fails exactly when its name is missing or is not exactly `reload_macros`,
/// `restart` or `exit`.
pub proof fn law_control_fails_exactly_when(d: RawConfig)
    ensures
        control_model(d) is Err <==> match control_name(d) {
            Some(n) => n != "reload_macros"@ && n != "restart"@ && n != "exit"@,
            None => true,
        },
{
}

} // verus!
