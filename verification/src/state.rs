//! The state that macros are evaluated against: MIDI state and the focused window.
use vstd::prelude::*;
use crate::event_matching::Event;
use crate::focus::FocusedWindow;
use crate::macros::Scope;
use crate::match_checker::StringMatcher;
use crate::midi_state::MidiState;
use crate::preconditions::{Precondition, PreconditionType};

verus! {

/// State that events update and that scopes and preconditions are checked against.
pub trait State {
    /// Whether `scope` matches in this state.
    spec fn spec_matches_scope(&self, scope: Option<Scope>) -> bool;

    /// Whether `precondition` holds in this state.
    spec fn spec_matches_precondition(&self, precondition: Precondition) -> bool;

    /// Updates the state with an incoming event.
    fn process_event(&mut self, event: &Event);

    /// Checks whether `scope` matches in this state.
    fn matches_scope(&self, scope: &Option<Scope>) -> (r: bool)
        ensures
            r == self.spec_matches_scope(*scope);

    /// Checks whether `precondition` holds in this state.
    fn matches_precondition(&self, precondition: &Precondition) -> (r: bool)
        ensures
            r == self.spec_matches_precondition(*precondition);
}

/// Whether the window `w` satisfies every matcher that `scope` has.
pub open spec fn window_matches_scope(scope: Scope, w: FocusedWindow) -> bool {
    &&& (scope.window_name matches Some(m) ==> m.spec_matches(w.window_name@))
    &&& (scope.window_class matches Some(m) ==> exists|i: int|
        0 <= i < w.window_class@.len() && m.spec_matches(#[trigger] w.window_class@[i]@))
    &&& (scope.executable_path matches Some(m) ==> (w.executable_path matches Some(p)
        && m.spec_matches(p@)))
    &&& (scope.executable_basename matches Some(m) ==> (w.executable_basename matches Some(p)
        && m.spec_matches(p@)))
}

/// Whether `scope` matches given the focused window: no scope always matches; a scope never
/// matches when no window is focused.
pub open spec fn scope_matches(scope: Option<Scope>, window: Option<FocusedWindow>) -> bool {
    match scope {
        None => true,
        Some(s) => match window {
            None => false,
            Some(w) => window_matches_scope(s, w),
        },
    }
}

/// Checks whether `scope` matches given the focused window.
pub fn check_scope(scope: &Option<Scope>, window: &Option<FocusedWindow>) -> (r: bool)
    ensures
        r == scope_matches(*scope, *window),
{
    let scope = match scope {
        None => return true,
        Some(s) => s,
    };
    let window = match window {
        None => return false,
        Some(w) => w,
    };
    if let Some(window_name) = &scope.window_name {
        if !window_name.matches(window.window_name.as_str()) {
            return false;
        }
    }
    if let Some(window_class) = &scope.window_class {
        let mut found = false;
        let mut i: usize = 0;
        while i < window.window_class.len()
            invariant
                i <= window.window_class@.len(),
                found == exists|j: int| 0 <= j < i && window_class.spec_matches(#[trigger] window.window_class@[j]@),
            decreases window.window_class.len() - i,
        {
            if window_class.matches(window.window_class[i].as_str()) {
                found = true;
            }
            i = i + 1;
        }
        if !found {
            return false;
        }
    }
    if let Some(executable_path) = &scope.executable_path {
        match &window.executable_path {
            None => return false,
            Some(p) => {
                if !executable_path.matches(p.as_str()) {
                    return false;
                }
            },
        }
    }
    if let Some(executable_basename) = &scope.executable_basename {
        match &window.executable_basename {
            None => return false,
            Some(p) => {
                if !executable_basename.matches(p.as_str()) {
                    return false;
                }
            },
        }
    }
    true
}

/// The state kept while running: MIDI state, and the focused window as last reported.
pub struct StateImpl {
    pub midi: MidiState,
    pub focused_window: Option<FocusedWindow>,
}

/// Creates a state that knows no MIDI values and no focused window.
pub fn new() -> (r: StateImpl)
    ensures
        r.focused_window is None,
        r.midi.notes_view() == Set::<(u8, u8)>::empty(),
        r.midi.controls_view() == Map::<(u8, u8), u8>::empty(),
        r.midi.programs_view() == Map::<u8, u8>::empty(),
        r.midi.pitch_bend_view() == Map::<u8, u16>::empty(),
{
    StateImpl::new()
}

impl StateImpl {
    /// Creates a state that knows no MIDI values and no focused window.
    pub fn new() -> (r: StateImpl)
        ensures
            r.focused_window is None,
            r.midi.notes_view() == Set::<(u8, u8)>::empty(),
            r.midi.controls_view() == Map::<(u8, u8), u8>::empty(),
            r.midi.programs_view() == Map::<u8, u8>::empty(),
            r.midi.pitch_bend_view() == Map::<u8, u16>::empty(),
    {
        StateImpl { midi: MidiState::new(), focused_window: None }
    }

    /// Records the currently focused window, as reported by a focus adapter.
    pub fn set_focused_window(&mut self, window: Option<FocusedWindow>)
        ensures
            final(self).focused_window == window,
            final(self).midi == old(self).midi,
    {
        self.focused_window = window;
    }
}

/// Whether `precondition` holds of `midi`; `invert` negates the condition.
pub open spec fn precondition_holds(midi: MidiState, precondition: Precondition) -> bool {
    let normal = match precondition.condition {
        PreconditionType::Midi(c) => midi.spec_matches(c),
        PreconditionType::Other => true,
    };
    if precondition.invert {
        !normal
    } else {
        normal
    }
}

impl State for StateImpl {
    open spec fn spec_matches_scope(&self, scope: Option<Scope>) -> bool {
        scope_matches(scope, self.focused_window)
    }

    open spec fn spec_matches_precondition(&self, precondition: Precondition) -> bool {
        precondition_holds(self.midi, precondition)
    }

    fn process_event(&mut self, event: &Event)
        ensures
            match *event {
                Event::Midi(msg) => old(self).midi.spec_after(msg, final(self).midi),
                Event::Other => final(self).midi == old(self).midi,
            },
            final(self).focused_window == old(self).focused_window,
    {
        match event {
            Event::Midi(msg) => self.midi.process_message(msg),
            Event::Other => {},
        }
    }

    fn matches_scope(&self, scope: &Option<Scope>) -> (r: bool) {
        check_scope(scope, &self.focused_window)
    }

    fn matches_precondition(&self, precondition: &Precondition) -> (r: bool) {
        let normal = match &precondition.condition {
            PreconditionType::Midi(condition) => self.midi.matches(condition),
            PreconditionType::Other => true,
        };
        if precondition.invert {
            !normal
        } else {
            normal
        }
    }
}


/// Inverting a precondition negates it.
pub proof fn law_invert_negates(midi: MidiState, condition: PreconditionType)
    ensures
        precondition_holds(midi, Precondition { invert: true, condition }) == !precondition_holds(
            midi,
            Precondition { invert: false, condition },
        ),
{
}

/// The scope with the single string matcher `m` for the field that `which` names (0: window
/// class, 1: window name, 2: executable path, 3: executable basename).
pub open spec fn single_matcher_scope(which: int, m: StringMatcher) -> Scope {
    Scope {
        window_class: if which == 0 { Some(m) } else { None },
        window_name: if which == 1 { Some(m) } else { None },
        executable_path: if which == 2 { Some(m) } else { None },
        executable_basename: if which == 3 { Some(m) } else { None },
    }
}

/// A scope tests each property of the focused window with its own matcher: a class matcher
/// accepts a window when it accepts one of its classes, a name matcher when it accepts its name,
/// a path matcher when the window has an executable path that it accepts, and a basename matcher
/// when the window has an executable basename that it accepts (never the path); a scope with
/// several matchers matches exactly when each of them, taken alone, does.
pub proof fn law_scope_tests_each_window_property(m: StringMatcher, s: Scope, w: FocusedWindow)
    ensures
        scope_matches(Some(single_matcher_scope(0, m)), Some(w)) <==> exists|i: int|
            0 <= i < w.window_class@.len() && m.spec_matches(#[trigger] w.window_class@[i]@),
        scope_matches(Some(single_matcher_scope(1, m)), Some(w)) <==> m.spec_matches(w.window_name@),
        scope_matches(Some(single_matcher_scope(2, m)), Some(w)) <==> (w.executable_path matches Some(p)
            && m.spec_matches(p@)),
        scope_matches(Some(single_matcher_scope(3, m)), Some(w)) <==> (w.executable_basename matches Some(b)
            && m.spec_matches(b@)),
        scope_matches(Some(s), Some(w)) <==> {
            &&& (s.window_class matches Some(c) ==> scope_matches(Some(single_matcher_scope(0, c)), Some(w)))
            &&& (s.window_name matches Some(c) ==> scope_matches(Some(single_matcher_scope(1, c)), Some(w)))
            &&& (s.executable_path matches Some(c) ==> scope_matches(Some(single_matcher_scope(2, c)), Some(w)))
            &&& (s.executable_basename matches Some(c) ==> scope_matches(
                Some(single_matcher_scope(3, c)),
                Some(w),
            ))
        },
        scope_matches(None, Some(w)) && scope_matches(None, None),
        !scope_matches(Some(s), None),
{
}

} // verus!
