//! Actions run in response to events.
use vstd::prelude::*;
use vstd::string::StringExecFns;
use crate::text::whitespace_split;

verus! {

/// Action run in response to a MIDI event.
#[derive(Debug, PartialEq)]
pub enum Action {
    /// Sends a key sequence `count` times, with an optional delay between keys in microseconds.
    /// The sequence is in X Keysym notation, like "ctrl+shift+t"; several sequences can be
    /// separated by whitespace.
    KeySequence { sequence: String, count: usize, delay: Option<u32> },
    /// Types text `count` times, with an optional delay between keys in microseconds.
    EnterText { text: String, count: usize, delay: Option<u32> },
    /// Runs a program with optional arguments and environment variables.
    Shell {
        command: String,
        args: Option<Vec<String>>,
        env_vars: Option<Vec<(String, String)>>,
    },
    /// Blocks for a number of microseconds.
    Wait { duration: u64 },
    /// Controls the application itself.
    Control(ControlAction),
}

/// Action that controls application execution.
#[derive(Debug, Clone, Copy, PartialEq, Eq, Structural)]
pub enum ControlAction {
    /// Reread the configuration file and use the reloaded macros.
    ReloadMacros,
    /// Restart the program with the same arguments.
    Restart,
    /// Exit the program.
    Exit,
}

/// An action described with mathematical values.
pub enum ActionModel {
    KeySequence { sequence: Seq<char>, count: usize, delay: Option<u32> },
    EnterText { text: Seq<char>, count: usize, delay: Option<u32> },
    Shell {
        command: Seq<char>,
        args: Option<Seq<Seq<char>>>,
        env_vars: Option<Seq<(Seq<char>, Seq<char>)>>,
    },
    Wait { duration: u64 },
    Control(ControlAction),
}

/// The characters of each string.
pub open spec fn strings_view(v: Seq<String>) -> Seq<Seq<char>> {
    v.map_values(|s: String| s@)
}

/// The characters of each string pair.
pub open spec fn string_pairs_view(v: Seq<(String, String)>) -> Seq<(Seq<char>, Seq<char>)> {
    v.map_values(|p: (String, String)| (p.0@, p.1@))
}

impl Action {
    /// The action described with mathematical values.
    pub open spec fn model(self) -> ActionModel {
        match self {
            Action::KeySequence { sequence, count, delay } => ActionModel::KeySequence {
                sequence: sequence@,
                count,
                delay,
            },
            Action::EnterText { text, count, delay } => ActionModel::EnterText {
                text: text@,
                count,
                delay,
            },
            Action::Shell { command, args, env_vars } => ActionModel::Shell {
                command: command@,
                args: match args {
                    Some(a) => Some(strings_view(a@)),
                    None => None,
                },
                env_vars: match env_vars {
                    Some(e) => Some(string_pairs_view(e@)),
                    None => None,
                },
            },
            Action::Wait { duration } => ActionModel::Wait { duration },
            Action::Control(c) => ActionModel::Control(c),
        }
    }

    /// The common simple form of `Action::KeySequence`: once, default delay.
    pub fn key_sequence(sequence: &str) -> (r: Action)
        ensures
            r matches Action::KeySequence { sequence: s, count, delay } && s@ == sequence@ && count
                == 1 && delay is None,
    {
        Action::KeySequence { sequence: String::from_str(sequence), count: 1, delay: None }
    }

    /// The common simple form of `Action::EnterText`: once, default delay.
    pub fn enter_text(text: &str) -> (r: Action)
        ensures
            r matches Action::EnterText { text: t, count, delay } && t@ == text@ && count == 1
                && delay is None,
    {
        Action::EnterText { text: String::from_str(text), count: 1, delay: None }
    }
}


/// The delay between keys, in microseconds, when an action gives none.
pub const DELAY_BETWEEN_KEYS_US: u32 = 100;

/// A step of running an action, carried out by the keyboard, the shell or a timer.
#[derive(Debug, PartialEq)]
pub enum RunStep {
    /// Send each key sequence in turn, the whole list `repeat` times, with `delay` microseconds
    /// between keys.
    SendKeySequences { sequences: Vec<String>, delay: u32, repeat: usize },
    /// Type the text `repeat` times, with `delay` microseconds between keys.
    SendText { text: String, delay: u32, repeat: usize },
    /// Run a program with optional arguments and environment variables.
    RunShell { command: String, args: Option<Vec<String>>, env_vars: Option<Vec<(String, String)>> },
    /// Block for a number of microseconds.
    Wait { duration: u64 },
}

/// A run step described with mathematical values.
pub enum RunStepModel {
    SendKeySequences { sequences: Seq<Seq<char>>, delay: u32, repeat: usize },
    SendText { text: Seq<char>, delay: u32, repeat: usize },
    RunShell {
        command: Seq<char>,
        args: Option<Seq<Seq<char>>>,
        env_vars: Option<Seq<(Seq<char>, Seq<char>)>>,
    },
    Wait { duration: u64 },
}

impl RunStep {
    /// This step described with mathematical values.
    pub open spec fn model(self) -> RunStepModel {
        match self {
            RunStep::SendKeySequences { sequences, delay, repeat } => RunStepModel::SendKeySequences {
                sequences: strings_view(sequences@),
                delay,
                repeat,
            },
            RunStep::SendText { text, delay, repeat } => RunStepModel::SendText { text: text@, delay, repeat },
            RunStep::RunShell { command, args, env_vars } => RunStepModel::RunShell {
                command: command@,
                args: match args {
                    Some(a) => Some(strings_view(a@)),
                    None => None,
                },
                env_vars: match env_vars {
                    Some(e) => Some(string_pairs_view(e@)),
                    None => None,
                },
            },
            RunStep::Wait { duration } => RunStepModel::Wait { duration },
        }
    }
}

/// The step that runs an action, or the control action it passes on: a key sequence is split
/// at runs of whitespace into several sequences; a missing delay is the default delay.
pub open spec fn run_plan(a: ActionModel) -> (Option<RunStepModel>, Option<ControlAction>) {
    match a {
        ActionModel::KeySequence { sequence, count, delay } => (
            Some(
                RunStepModel::SendKeySequences {
                    sequences: whitespace_split(sequence),
                    delay: match delay {
                        Some(d) => d,
                        None => DELAY_BETWEEN_KEYS_US,
                    },
                    repeat: count,
                },
            ),
            None,
        ),
        ActionModel::EnterText { text, count, delay } => (
            Some(
                RunStepModel::SendText {
                    text,
                    delay: match delay {
                        Some(d) => d,
                        None => DELAY_BETWEEN_KEYS_US,
                    },
                    repeat: count,
                },
            ),
            None,
        ),
        ActionModel::Shell { command, args, env_vars } => (
            Some(RunStepModel::RunShell { command, args, env_vars }),
            None,
        ),
        ActionModel::Wait { duration } => (Some(RunStepModel::Wait { duration }), None),
        ActionModel::Control(c) => (None, Some(c)),
    }
}

/// Splits `text` with the regular expression `\s+` of the `regex` crate (`Regex::new` and
/// `Regex::split`). Claimed: the pieces are those between maximal runs of Unicode whitespace,
/// in order, with an empty piece before a leading run and after a trailing one, as the crate
/// documents `split` (its `\s` is Unicode `White_Space`). The pattern always compiles.
#[verifier::external_body]
fn split_on_whitespace_runs(text: &str) -> (r: Vec<String>)
    ensures
        strings_view(r@) == whitespace_split(text@),
{
    match regex::Regex::new(r"\s+") {
        Ok(re) => re.split(text).map(|p| p.to_string()).collect(),
        Err(_) => Vec::new(),
    }
}

/// A copy of a list of strings.
fn clone_strings(v: &Vec<String>) -> (r: Vec<String>)
    ensures
        strings_view(r@) == strings_view(v@),
{
    let mut out: Vec<String> = Vec::new();
    let mut i: usize = 0;
    while i < v.len()
        invariant
            i <= v@.len(),
            out@.len() == i,
            forall|j: int| 0 <= j < i ==> (#[trigger] out@[j])@ == v@[j]@,
        decreases v.len() - i,
    {
        out.push(v[i].clone());
        i = i + 1;
    }
    assert(strings_view(out@) =~= strings_view(v@));
    out
}

/// A copy of a list of string pairs.
fn clone_string_pairs(v: &Vec<(String, String)>) -> (r: Vec<(String, String)>)
    ensures
        string_pairs_view(r@) == string_pairs_view(v@),
{
    let mut out: Vec<(String, String)> = Vec::new();
    let mut i: usize = 0;
    while i < v.len()
        invariant
            i <= v@.len(),
            out@.len() == i,
            forall|j: int| 0 <= j < i ==> (#[trigger] out@[j]).0@ == v@[j].0@ && out@[j].1@ == v@[j].1@,
        decreases v.len() - i,
    {
        out.push((v[i].0.clone(), v[i].1.clone()));
        i = i + 1;
    }
    assert(string_pairs_view(out@) =~= string_pairs_view(v@));
    out
}

/// Decides how actions are run: the keyboard, shell and timer work is carried out by whoever
/// holds the adapters, step by step.
pub struct ActionRunner {}

impl ActionRunner {
    /// Creates a runner.
    pub fn new() -> (r: ActionRunner)
        ensures
            r == (ActionRunner {}),
    {
        ActionRunner {}
    }

    /// The step that runs `action`, or, for a control action, that control action to pass on.
    pub fn run(&self, action: &Action) -> (r: (Option<RunStep>, Option<ControlAction>))
        ensures
            (match r.0 {
                Some(step) => Some(step.model()),
                None => None,
            }, r.1) == run_plan(action.model()),
    {
        match action {
            Action::KeySequence { sequence, count, delay } => {
                let sequences = split_on_whitespace_runs(sequence.as_str());
                let delay = match delay {
                    Some(d) => *d,
                    None => DELAY_BETWEEN_KEYS_US,
                };
                (Some(RunStep::SendKeySequences { sequences, delay, repeat: *count }), None)
            },
            Action::EnterText { text, count, delay } => {
                let delay = match delay {
                    Some(d) => *d,
                    None => DELAY_BETWEEN_KEYS_US,
                };
                (Some(RunStep::SendText { text: text.clone(), delay, repeat: *count }), None)
            },
            Action::Shell { command, args, env_vars } => {
                let args = match args {
                    Some(a) => Some(clone_strings(a)),
                    None => None,
                };
                let env_vars = match env_vars {
                    Some(e) => Some(clone_string_pairs(e)),
                    None => None,
                };
                (Some(RunStep::RunShell { command: command.clone(), args, env_vars }), None)
            },
            Action::Wait { duration } => (Some(RunStep::Wait { duration: *duration }), None),
            Action::Control(c) => (None, Some(*c)),
        }
    }
}

} // verus!
