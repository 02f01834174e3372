//! Macros: event matchers, preconditions and a scope, tied to a list of actions.
use vstd::prelude::*;
use crate::actions::Action;
use crate::event_matching::{Event, EventMatcher, preconditions_hold, check_preconditions};
use crate::match_checker::StringMatcher;
use crate::preconditions::Precondition;
use crate::state::State;

verus! {

/// Matchers on the focused window; all present ones must match for the scope to match.
#[derive(Debug, PartialEq)]
pub struct Scope {
    pub window_class: Option<StringMatcher>,
    pub window_name: Option<StringMatcher>,
    pub executable_path: Option<StringMatcher>,
    pub executable_basename: Option<StringMatcher>,
}

/// A copy of an optional string matcher.
fn clone_matcher(m: &Option<StringMatcher>) -> (r: Option<StringMatcher>)
    ensures
        r == *m,
{
    match m {
        Some(x) => Some(x.clone()),
        None => None,
    }
}

impl Clone for Scope {
    fn clone(&self) -> (r: Self)
        ensures
            r == *self,
    {
        Scope {
            window_class: clone_matcher(&self.window_class),
            window_name: clone_matcher(&self.window_name),
            executable_path: clone_matcher(&self.executable_path),
            executable_basename: clone_matcher(&self.executable_basename),
        }
    }
}

impl Scope {
    /// Creates a scope from its matchers.
    pub fn new(
        window_class: Option<StringMatcher>,
        window_name: Option<StringMatcher>,
        executable_path: Option<StringMatcher>,
        executable_basename: Option<StringMatcher>,
    ) -> (r: Scope)
        ensures
            r.window_class == window_class,
            r.window_name == window_name,
            r.executable_path == executable_path,
            r.executable_basename == executable_basename,
    {
        Scope { window_class, window_name, executable_path, executable_basename }
    }

    /// Whether the scope has at least one matcher.
    pub open spec fn has_matchers(self) -> bool {
        self.window_class is Some || self.window_name is Some || self.executable_path is Some
            || self.executable_basename is Some
    }

    /// Turns the scope into an option: `None` when it has no matchers at all.
    pub fn into_option(self) -> (r: Option<Scope>)
        ensures
            r == (if self.has_matchers() {
                Some(self)
            } else {
                None
            }),
    {
        if self.window_class.is_some() || self.window_name.is_some() || self.executable_path.is_some()
            || self.executable_basename.is_some() {
            Some(self)
        } else {
            None
        }
    }
}

/// Builds a `Macro` step by step.
pub struct MacroBuilder {
    pub name: Option<String>,
    pub match_events: Vec<EventMatcher>,
    pub required_preconditions: Option<Vec<Precondition>>,
    pub actions: Vec<Action>,
    pub scope: Option<Scope>,
}

/// A macro: when an event matches one of its event matchers, its scope matches and its
/// preconditions hold, its actions are to be run.
#[derive(Debug, PartialEq)]
pub struct Macro {
    pub name: Option<String>,
    pub match_events: Vec<EventMatcher>,
    pub required_preconditions: Option<Vec<Precondition>>,
    pub actions: Vec<Action>,
    pub scope: Option<Scope>,
}

impl MacroBuilder {
    /// Starts a macro matching one event matcher, with no name, preconditions, actions or scope.
    pub fn from_event_matcher(event_matcher: EventMatcher) -> (r: MacroBuilder)
        ensures
            r.match_events@ == seq![event_matcher],
            r.name is None,
            r.required_preconditions is None,
            r.actions@.len() == 0,
            r.scope is None,
    {
        let mut match_events: Vec<EventMatcher> = Vec::new();
        match_events.push(event_matcher);
        MacroBuilder {
            name: None,
            match_events,
            required_preconditions: None,
            actions: Vec::new(),
            scope: None,
        }
    }

    /// Starts a macro matching the given event matchers, with no name, preconditions, actions
    /// or scope.
    pub fn from_event_matchers(event_matchers: Vec<EventMatcher>) -> (r: MacroBuilder)
        ensures
            r.match_events == event_matchers,
            r.name is None,
            r.required_preconditions is None,
            r.actions@.len() == 0,
            r.scope is None,
    {
        MacroBuilder {
            name: None,
            match_events: event_matchers,
            required_preconditions: None,
            actions: Vec::new(),
            scope: None,
        }
    }

    /// Replaces the event matchers.
    pub fn set_event_matchers(self, event_matchers: Vec<EventMatcher>) -> (r: Self)
        ensures
            r == (MacroBuilder { match_events: event_matchers, ..self }),
    {
        MacroBuilder { match_events: event_matchers, ..self }
    }

    /// Adds an event matcher at the end.
    pub fn add_event_matcher(self, event_matcher: EventMatcher) -> (r: Self)
        ensures
            r.match_events@ == self.match_events@.push(event_matcher),
            r.name == self.name,
            r.required_preconditions == self.required_preconditions,
            r.actions == self.actions,
            r.scope == self.scope,
    {
        let mut s = self;
        s.match_events.push(event_matcher);
        s
    }

    /// Replaces the actions.
    pub fn set_actions(self, actions: Vec<Action>) -> (r: Self)
        ensures
            r == (MacroBuilder { actions, ..self }),
    {
        MacroBuilder { actions, ..self }
    }

    /// Adds an action at the end.
    pub fn add_action(self, action: Action) -> (r: Self)
        ensures
            r.actions@ == self.actions@.push(action),
            r.name == self.name,
            r.match_events == self.match_events,
            r.required_preconditions == self.required_preconditions,
            r.scope == self.scope,
    {
        let mut s = self;
        s.actions.push(action);
        s
    }

    /// Sets the name.
    pub fn set_name(self, name: String) -> (r: Self)
        ensures
            r == (MacroBuilder { name: Some(name), ..self }),
    {
        MacroBuilder { name: Some(name), ..self }
    }

    /// Replaces the preconditions.
    pub fn set_preconditions(self, preconditions: Vec<Precondition>) -> (r: Self)
        ensures
            r == (MacroBuilder { required_preconditions: Some(preconditions), ..self }),
    {
        MacroBuilder { required_preconditions: Some(preconditions), ..self }
    }

    /// Adds a precondition at the end, starting a list when there was none.
    pub fn add_precondition(self, precondition: Precondition) -> (r: Self)
        ensures
            r.required_preconditions matches Some(list) && list@ == (match self.required_preconditions {
                Some(old_list) => old_list@,
                None => Seq::empty(),
            }).push(precondition),
            r.name == self.name,
            r.match_events == self.match_events,
            r.actions == self.actions,
            r.scope == self.scope,
    {
        let mut s = self;
        let mut list: Vec<Precondition> = match s.required_preconditions.take() {
            Some(l) => l,
            None => Vec::new(),
        };
        list.push(precondition);
        s.required_preconditions = Some(list);
        s
    }

    /// Sets the scope.
    pub fn set_scope(self, scope: Scope) -> (r: Self)
        ensures
            r == (MacroBuilder { scope: Some(scope), ..self }),
    {
        MacroBuilder { scope: Some(scope), ..self }
    }

    /// Finishes the macro.
    pub fn build(self) -> (r: Macro)
        ensures
            r.name == self.name,
            r.match_events == self.match_events,
            r.required_preconditions == self.required_preconditions,
            r.actions == self.actions,
            r.scope == self.scope,
    {
        Macro {
            name: self.name,
            match_events: self.match_events,
            required_preconditions: self.required_preconditions,
            actions: self.actions,
            scope: self.scope,
        }
    }
}

impl Macro {
    /// The name of the macro, if it has one.
    pub fn name(&self) -> (r: Option<&str>)
        ensures
            match self.name {
                Some(n) => r matches Some(s) && s@ == n@,
                None => r is None,
            },
    {
        match &self.name {
            Some(n) => Some(n.as_str()),
            None => None,
        }
    }

    /// Whether some event matcher of this macro matches `event` in `state`.
    pub open spec fn spec_matches_event<S: State>(self, event: Event, state: S) -> bool {
        exists|i: int| 0 <= i < self.match_events@.len() && (#[trigger] self.match_events@[i]).spec_matches(event, state)
    }

    /// Whether this macro fires for `event` in `state`: the scope matches, all macro
    /// preconditions hold, and some event matcher matches.
    pub open spec fn spec_fires<S: State>(self, event: Event, state: S) -> bool {
        &&& state.spec_matches_scope(self.scope)
        &&& preconditions_hold(state, self.required_preconditions)
        &&& self.spec_matches_event(event, state)
    }

    /// Evaluates an incoming event: when the macro fires, returns the actions to run.
    pub fn evaluate<'b, S: State>(&'b self, event: &Event, state: &S) -> (r: Option<&'b Vec<Action>>)
        ensures
            self.spec_fires(*event, *state) ==> r == Some(&self.actions),
            !self.spec_fires(*event, *state) ==> r is None,
    {
        if !state.matches_scope(&self.scope) {
            return None;
        }
        if let Some(conditions) = &self.required_preconditions {
            if !check_preconditions(state, conditions) {
                return None;
            }
        }
        if self.matches_event(event, state) {
            Some(&self.actions)
        } else {
            None
        }
    }

    /// Checks whether some event matcher of this macro matches `event` in `state`.
    pub fn matches_event<S: State>(&self, event: &Event, state: &S) -> (r: bool)
        ensures
            r == self.spec_matches_event(*event, *state),
    {
        let mut i: usize = 0;
        while i < self.match_events.len()
            invariant
                i <= self.match_events@.len(),
                forall|j: int| 0 <= j < i ==> !(#[trigger] self.match_events@[j]).spec_matches(*event, *state),
            decreases self.match_events.len() - i,
        {
            if self.match_events[i].matches(event, state) {
                return true;
            }
            i = i + 1;
        }
        false
    }
}

} // verus!
