//! State tracking for MIDI messages: held notes, control values, programs and pitch bends.
use vstd::prelude::*;
use std::collections::{HashMap, HashSet};
use crate::midi::MidiMessage;
use crate::match_checker::{NumMatch, num_match_accepts, num_match_matches};
use crate::preconditions::MidiPrecondition;

verus! {

broadcast use vstd::std_specs::hash::group_hash_axioms;

/// The table key of a (channel, number) pair.
pub open spec fn pair_code(channel: u8, number: u8) -> u16 {
    (channel as int * 256 + number as int) as u16
}

fn pair_code_exec(channel: u8, number: u8) -> (r: u16)
    ensures
        r == pair_code(channel, number),
{
    channel as u16 * 256 + number as u16
}

proof fn lemma_pair_code_injective(c1: u8, n1: u8, c2: u8, n2: u8)
    ensures
        pair_code(c1, n1) == pair_code(c2, n2) <==> (c1 == c2 && n1 == n2),
{
}

proof fn lemma_pair_code_decode(x: u16)
    ensures
        pair_code((x / 256) as u8, (x % 256) as u8) == x,
{
}

proof fn lemma_pair_code_parts(c: u8, n: u8)
    ensures
        pair_code(c, n) / 256 == c,
        pair_code(c, n) % 256 == n,
{
}

/// State tracking container for MIDI messages.
///
/// Keeps track of which notes are currently held on each channel, the last known value of each
/// control, the last selected program of each channel and the last pitch bend position of each
/// channel. Values are only known from the moment a relevant message comes in.
pub struct MidiState {
    /// Held notes, keyed by `pair_code(channel, key)`.
    notes_on: HashSet<u16>,
    /// Control values, keyed by `pair_code(channel, control)`.
    controls: HashMap<u16, u8>,
    /// Selected program per channel.
    programs: HashMap<u8, u8>,
    /// Pitch bend position per channel.
    pitch_bend_values: HashMap<u8, u16>,
}

/// The elements of a set of table keys, in iteration order.
fn set_elements(set: &HashSet<u16>) -> (v: Vec<u16>)
    ensures
        forall|x: u16| #[trigger] set@.contains(x) <==> v@.contains(x),
{
    let mut v: Vec<u16> = Vec::new();
    let ghost elems = set@;
    for x in it: set.iter()
        invariant
            elems == set@,
            it.seq().unref().to_set() == elems,
            v@ == it.seq().unref().take(it.index()),
            it.index() == it.seq().len() ==> v@ == it.seq().unref(),
    {
        v.push(*x);
        assert(v@ =~= it.seq().unref().take(it.index() + 1));
        assert(it.seq().unref().take(it.seq().len() as int) =~= it.seq().unref());
    }
    v
}

/// The keys of a table, in iteration order.
fn map_keys<K: Copy + std::hash::Hash + Eq, V>(m: &HashMap<K, V>) -> (v: Vec<K>)
    requires
        vstd::std_specs::hash::obeys_key_model::<K>(),
    ensures
        forall|k: K| #[trigger] m@.contains_key(k) <==> v@.contains(k),
{
    let mut v: Vec<K> = Vec::new();
    let ghost dom = m@.dom();
    for k in it: m.keys()
        invariant
            dom == m@.dom(),
            it.seq().unref().to_set() == dom,
            v@ == it.seq().unref().take(it.index()),
            it.index() == it.seq().len() ==> v@ == it.seq().unref(),
    {
        v.push(*k);
        assert(v@ =~= it.seq().unref().take(it.index() + 1));
        assert(it.seq().unref().take(it.seq().len() as int) =~= it.seq().unref());
    }
    v
}

impl MidiState {

    /// The (channel, key) pairs of the held notes.
    pub closed spec fn notes_view(self) -> Set<(u8, u8)> {
        Set::new(|p: (u8, u8)| self.notes_on@.contains(pair_code(p.0, p.1)))
    }

    /// The known value of each (channel, control) pair.
    pub closed spec fn controls_view(self) -> Map<(u8, u8), u8> {
        Map::new(
            |p: (u8, u8)| self.controls@.contains_key(pair_code(p.0, p.1)),
            |p: (u8, u8)| self.controls@[pair_code(p.0, p.1)],
        )
    }

    /// The known program of each channel.
    pub closed spec fn programs_view(self) -> Map<u8, u8> {
        self.programs@
    }

    /// The known pitch bend position of each channel.
    pub closed spec fn pitch_bend_view(self) -> Map<u8, u16> {
        self.pitch_bend_values@
    }

    /// Whether `pre` holds of the state whose parts are given.
    pub open spec fn spec_matches(self, pre: MidiPrecondition) -> bool {
        match pre {
            MidiPrecondition::NoteOn { channel_match, key_match } => exists|p: (u8, u8)|
                #[trigger] self.notes_view().contains(p) && num_match_accepts(channel_match, p.0 as u32)
                    && num_match_accepts(key_match, p.1 as u32),
            MidiPrecondition::Control { channel_match, control_match, value_match } => exists|
                p: (u8, u8),
            |
                #[trigger] self.controls_view().contains_key(p) && num_match_accepts(
                    channel_match,
                    p.0 as u32,
                ) && num_match_accepts(control_match, p.1 as u32) && num_match_accepts(
                    value_match,
                    self.controls_view()[p] as u32,
                ),
            MidiPrecondition::Program { channel_match, program_match } => exists|c: u8|
                #[trigger] self.programs_view().contains_key(c) && num_match_accepts(
                    channel_match,
                    c as u32,
                ) && num_match_accepts(program_match, self.programs_view()[c] as u32),
            MidiPrecondition::PitchBend { channel_match, value_match } => exists|c: u8|
                #[trigger] self.pitch_bend_view().contains_key(c) && num_match_accepts(
                    channel_match,
                    c as u32,
                ) && num_match_accepts(value_match, self.pitch_bend_view()[c] as u32),
        }
    }

    /// The state after processing `msg` on a state with the given parts: a note on marks the
    /// note held, a note off releases it, control, program and pitch bend changes record the new
    /// value; other messages change nothing.
    pub open spec fn spec_after(self, msg: MidiMessage, next: Self) -> bool {
        match msg {
            MidiMessage::NoteOn { channel, key, .. } => {
                &&& next.notes_view() == self.notes_view().insert((channel, key))
                &&& next.controls_view() == self.controls_view()
                &&& next.programs_view() == self.programs_view()
                &&& next.pitch_bend_view() == self.pitch_bend_view()
            },
            MidiMessage::NoteOff { channel, key, .. } => {
                &&& next.notes_view() == self.notes_view().remove((channel, key))
                &&& next.controls_view() == self.controls_view()
                &&& next.programs_view() == self.programs_view()
                &&& next.pitch_bend_view() == self.pitch_bend_view()
            },
            MidiMessage::ControlChange { channel, control, value } => {
                &&& next.notes_view() == self.notes_view()
                &&& next.controls_view() == self.controls_view().insert((channel, control), value)
                &&& next.programs_view() == self.programs_view()
                &&& next.pitch_bend_view() == self.pitch_bend_view()
            },
            MidiMessage::ProgramChange { channel, program } => {
                &&& next.notes_view() == self.notes_view()
                &&& next.controls_view() == self.controls_view()
                &&& next.programs_view() == self.programs_view().insert(channel, program)
                &&& next.pitch_bend_view() == self.pitch_bend_view()
            },
            MidiMessage::PitchBendChange { channel, value } => {
                &&& next.notes_view() == self.notes_view()
                &&& next.controls_view() == self.controls_view()
                &&& next.programs_view() == self.programs_view()
                &&& next.pitch_bend_view() == self.pitch_bend_view().insert(channel, value)
            },
            _ => {
                &&& next.notes_view() == self.notes_view()
                &&& next.controls_view() == self.controls_view()
                &&& next.programs_view() == self.programs_view()
                &&& next.pitch_bend_view() == self.pitch_bend_view()
            },
        }
    }

    /// Creates a state that knows nothing yet.
    pub fn new() -> (r: MidiState)
        ensures
            r.notes_view() == Set::<(u8, u8)>::empty(),
            r.controls_view() == Map::<(u8, u8), u8>::empty(),
            r.programs_view() == Map::<u8, u8>::empty(),
            r.pitch_bend_view() == Map::<u8, u16>::empty(),
    {
        let r = MidiState {
            notes_on: HashSet::new(),
            controls: HashMap::new(),
            programs: HashMap::new(),
            pitch_bend_values: HashMap::new(),
        };
        assert(r.notes_view() =~= Set::<(u8, u8)>::empty());
        assert(r.controls_view() =~= Map::<(u8, u8), u8>::empty());
        r
    }

    /// Processes an incoming MIDI message, updating the state as `spec_after` describes.
    pub fn process_message(&mut self, msg: &MidiMessage)
        ensures
            old(self).spec_after(*msg, *final(self)),
    {
        match msg {
            MidiMessage::NoteOn { channel, key, .. } => {
                let code = pair_code_exec(*channel, *key);
                self.notes_on.insert(code);
                proof {
                    assert forall|p: (u8, u8)| #[trigger] self.notes_view().contains(p)
                        == old(self).notes_view().insert((*channel, *key)).contains(p) by {
                        lemma_pair_code_injective(p.0, p.1, *channel, *key);
                    }
                    assert(self.notes_view() =~= old(self).notes_view().insert((*channel, *key)));
                    assert(self.controls_view() =~= old(self).controls_view());
                }
            },
            MidiMessage::NoteOff { channel, key, .. } => {
                let code = pair_code_exec(*channel, *key);
                self.notes_on.remove(&code);
                proof {
                    assert forall|p: (u8, u8)| #[trigger] self.notes_view().contains(p)
                        == old(self).notes_view().remove((*channel, *key)).contains(p) by {
                        lemma_pair_code_injective(p.0, p.1, *channel, *key);
                    }
                    assert(self.notes_view() =~= old(self).notes_view().remove((*channel, *key)));
                    assert(self.controls_view() =~= old(self).controls_view());
                }
            },
            MidiMessage::ControlChange { channel, control, value } => {
                let code = pair_code_exec(*channel, *control);
                self.controls.insert(code, *value);
                proof {
                    assert forall|p: (u8, u8)| #[trigger] self.controls_view().contains_key(p)
                        == old(self).controls_view().insert((*channel, *control), *value).contains_key(p) by {
                        lemma_pair_code_injective(p.0, p.1, *channel, *control);
                    }
                    assert forall|p: (u8, u8)| #[trigger] self.controls_view().contains_key(p)
                        implies self.controls_view()[p]
                        == old(self).controls_view().insert((*channel, *control), *value)[p] by {
                        lemma_pair_code_injective(p.0, p.1, *channel, *control);
                    }
                    assert(self.controls_view() =~= old(self).controls_view().insert(
                        (*channel, *control),
                        *value,
                    ));
                    assert(self.notes_view() =~= old(self).notes_view());
                }
            },
            MidiMessage::ProgramChange { channel, program } => {
                self.programs.insert(*channel, *program);
                proof {
                    assert(self.notes_view() =~= old(self).notes_view());
                    assert(self.controls_view() =~= old(self).controls_view());
                }
            },
            MidiMessage::PitchBendChange { channel, value } => {
                self.pitch_bend_values.insert(*channel, *value);
                proof {
                    assert(self.notes_view() =~= old(self).notes_view());
                    assert(self.controls_view() =~= old(self).controls_view());
                }
            },
            _ => {
            },
        }
    }

    /// Whether the note `key` on `channel` is currently held.
    pub fn is_note_on(&self, channel: u8, key: u8) -> (r: bool)
        ensures
            r == self.notes_view().contains((channel, key)),
    {
        let code = pair_code_exec(channel, key);
        self.notes_on.contains(&code)
    }

    /// Whether no note is currently held.
    pub fn no_notes_on(&self) -> (r: bool)
        ensures
            r == (self.notes_view() == Set::<(u8, u8)>::empty()),
    {
        let elems = set_elements(&self.notes_on);
        let r = elems.len() == 0;
        proof {
            if r {
                assert(self.notes_view() =~= Set::<(u8, u8)>::empty());
            } else {
                let x = elems@[0];
                assert(elems@.contains(x));
                lemma_pair_code_decode(x);
                assert(self.notes_view().contains(((x / 256) as u8, (x % 256) as u8)));
            }
        }
        r
    }

    /// The known value of `control` on `channel`, if any.
    pub fn control_value(&self, channel: u8, control: u8) -> (r: Option<u8>)
        ensures
            r == (if self.controls_view().contains_key((channel, control)) {
                Some(self.controls_view()[(channel, control)])
            } else {
                None
            }),
    {
        let code = pair_code_exec(channel, control);
        match self.controls.get(&code) {
            Some(v) => Some(*v),
            None => None,
        }
    }

    /// The known program of `channel`, if any.
    pub fn program(&self, channel: u8) -> (r: Option<u8>)
        ensures
            r == (if self.programs_view().contains_key(channel) {
                Some(self.programs_view()[channel])
            } else {
                None
            }),
    {
        match self.programs.get(&channel) {
            Some(v) => Some(*v),
            None => None,
        }
    }

    /// The known pitch bend position of `channel`, if any.
    pub fn pitch_bend(&self, channel: u8) -> (r: Option<u16>)
        ensures
            r == (if self.pitch_bend_view().contains_key(channel) {
                Some(self.pitch_bend_view()[channel])
            } else {
                None
            }),
    {
        match self.pitch_bend_values.get(&channel) {
            Some(v) => Some(*v),
            None => None,
        }
    }


    /// Checks whether a MIDI precondition holds against this state.
    #[verifier::loop_isolation(false)]
    pub fn matches(&self, precondition: &MidiPrecondition) -> (r: bool)
        ensures
            r == self.spec_matches(*precondition),
    {
        match precondition {
            MidiPrecondition::NoteOn { channel_match, key_match } => {
                let elems = set_elements(&self.notes_on);
                let mut i: usize = 0;
                while i < elems.len()
                    invariant
                        i <= elems@.len(),
                        forall|x: u16| #[trigger] self.notes_on@.contains(x) <==> elems@.contains(x),
                        forall|j: int| 0 <= j < i ==> !(num_match_accepts(*channel_match, (#[trigger] elems@[j] / 256) as u32)
                            && num_match_accepts(*key_match, (elems@[j] % 256) as u32)),
                    decreases elems.len() - i,
                {
                    let code = elems[i];
                    let channel: u8 = (code / 256) as u8;
                    let key: u8 = (code % 256) as u8;
                    if num_match_matches(channel_match, channel as u32) && num_match_matches(key_match, key as u32) {
                        proof {
                            assert(elems@.contains(code));
                            lemma_pair_code_decode(code);
                            assert(self.notes_view().contains((channel, key)));
                        }
                        return true;
                    }
                    i = i + 1;
                }
                proof {
                    assert forall|p: (u8, u8)| #[trigger] self.notes_view().contains(p) implies !(
                    num_match_accepts(*channel_match, p.0 as u32) && num_match_accepts(*key_match, p.1 as u32)) by {
                        let code = pair_code(p.0, p.1);
                        assert(elems@.contains(code));
                        let j = choose|j: int| 0 <= j < elems@.len() && elems@[j] == code;
                        lemma_pair_code_parts(p.0, p.1);
                        assert(elems@[j] == code);
                    }
                }
                false
            },
            MidiPrecondition::Control { channel_match, control_match, value_match } => {
                let keys = map_keys(&self.controls);
                let mut i: usize = 0;
                while i < keys.len()
                    invariant
                        i <= keys@.len(),
                        forall|x: u16| #[trigger] self.controls@.contains_key(x) <==> keys@.contains(x),
                        forall|j: int| 0 <= j < i ==> !(num_match_accepts(*channel_match, (#[trigger] keys@[j] / 256) as u32)
                            && num_match_accepts(*control_match, (keys@[j] % 256) as u32)
                            && num_match_accepts(*value_match, self.controls@[keys@[j]] as u32)),
                    decreases keys.len() - i,
                {
                    let code = keys[i];
                    assert(keys@.contains(code));
                    let value: u8 = match self.controls.get(&code) {
                        Some(v) => *v,
                        None => 0,
                    };
                    let channel: u8 = (code / 256) as u8;
                    let control: u8 = (code % 256) as u8;
                    if num_match_matches(channel_match, channel as u32) && num_match_matches(control_match, control as u32)
                        && num_match_matches(value_match, value as u32) {
                        proof {
                            lemma_pair_code_decode(code);
                            assert(self.controls_view().contains_key((channel, control)));
                        }
                        return true;
                    }
                    i = i + 1;
                }
                proof {
                    assert forall|p: (u8, u8)| #[trigger] self.controls_view().contains_key(p) implies !(
                    num_match_accepts(*channel_match, p.0 as u32) && num_match_accepts(*control_match, p.1 as u32)
                        && num_match_accepts(*value_match, self.controls_view()[p] as u32)) by {
                        let code = pair_code(p.0, p.1);
                        assert(keys@.contains(code));
                        let j = choose|j: int| 0 <= j < keys@.len() && keys@[j] == code;
                        lemma_pair_code_parts(p.0, p.1);
                        assert(keys@[j] == code);
                    }
                }
                false
            },
            MidiPrecondition::Program { channel_match, program_match } => {
                let keys = map_keys(&self.programs);
                let mut i: usize = 0;
                while i < keys.len()
                    invariant
                        i <= keys@.len(),
                        forall|x: u8| #[trigger] self.programs@.contains_key(x) <==> keys@.contains(x),
                        forall|j: int| 0 <= j < i ==> !(num_match_accepts(*channel_match, (#[trigger] keys@[j]) as u32)
                            && num_match_accepts(*program_match, self.programs@[keys@[j]] as u32)),
                    decreases keys.len() - i,
                {
                    let channel = keys[i];
                    assert(keys@.contains(channel));
                    let program: u8 = match self.programs.get(&channel) {
                        Some(v) => *v,
                        None => 0,
                    };
                    assert(self.programs@.contains_key(channel));
                    assert(program == self.programs@[channel]);
                    if num_match_matches(channel_match, channel as u32) && num_match_matches(program_match, program as u32) {
                        assert(self.programs_view().contains_key(channel));
                        return true;
                    }
                    i = i + 1;
                }
                proof {
                    assert forall|c: u8| #[trigger] self.programs_view().contains_key(c) implies !(
                    num_match_accepts(*channel_match, c as u32)
                        && num_match_accepts(*program_match, self.programs_view()[c] as u32)) by {
                        assert(keys@.contains(c));
                        let j = choose|j: int| 0 <= j < keys@.len() && keys@[j] == c;
                        assert(keys@[j] == c);
                    }
                }
                false
            },
            MidiPrecondition::PitchBend { channel_match, value_match } => {
                let keys = map_keys(&self.pitch_bend_values);
                let mut i: usize = 0;
                while i < keys.len()
                    invariant
                        i <= keys@.len(),
                        forall|x: u8| #[trigger] self.pitch_bend_values@.contains_key(x) <==> keys@.contains(x),
                        forall|j: int| 0 <= j < i ==> !(num_match_accepts(*channel_match, (#[trigger] keys@[j]) as u32)
                            && num_match_accepts(*value_match, self.pitch_bend_values@[keys@[j]] as u32)),
                    decreases keys.len() - i,
                {
                    let channel = keys[i];
                    assert(keys@.contains(channel));
                    let value: u16 = match self.pitch_bend_values.get(&channel) {
                        Some(v) => *v,
                        None => 0,
                    };
                    assert(self.pitch_bend_values@.contains_key(channel));
                    assert(value == self.pitch_bend_values@[channel]);
                    if num_match_matches(channel_match, channel as u32) && num_match_matches(value_match, value as u32) {
                        assert(self.pitch_bend_view().contains_key(channel));
                        return true;
                    }
                    i = i + 1;
                }
                proof {
                    assert forall|c: u8| #[trigger] self.pitch_bend_view().contains_key(c) implies !(
                    num_match_accepts(*channel_match, c as u32)
                        && num_match_accepts(*value_match, self.pitch_bend_view()[c] as u32)) by {
                        assert(keys@.contains(c));
                        let j = choose|j: int| 0 <= j < keys@.len() && keys@[j] == c;
                        assert(keys@[j] == c);
                    }
                }
                false
            },
        }
    }
}


/// A note pressed and then released is no longer held, and the state is otherwise what it was
/// before the note was pressed, but for that note.
pub proof fn law_note_on_then_off(
    s0: MidiState,
    s1: MidiState,
    s2: MidiState,
    channel: u8,
    key: u8,
    on_velocity: u8,
    off_velocity: u8,
)
    requires
        s0.spec_after(MidiMessage::NoteOn { channel, key, velocity: on_velocity }, s1),
        s1.spec_after(MidiMessage::NoteOff { channel, key, velocity: off_velocity }, s2),
    ensures
        !s2.notes_view().contains((channel, key)),
        s2.notes_view() == s0.notes_view().remove((channel, key)),
        s2.controls_view() == s0.controls_view(),
        s2.programs_view() == s0.programs_view(),
        s2.pitch_bend_view() == s0.pitch_bend_view(),
{
    assert(s2.notes_view() =~= s0.notes_view().remove((channel, key)));
}

/// Pressing the same note twice keeps a single record of it: the held notes are those after the
/// first press, and one release frees the note.
pub proof fn law_one_record_per_held_note(
    s0: MidiState,
    s1: MidiState,
    s2: MidiState,
    s3: MidiState,
    channel: u8,
    key: u8,
    v1: u8,
    v2: u8,
    v3: u8,
)
    requires
        s0.spec_after(MidiMessage::NoteOn { channel, key, velocity: v1 }, s1),
        s1.spec_after(MidiMessage::NoteOn { channel, key, velocity: v2 }, s2),
        s2.spec_after(MidiMessage::NoteOff { channel, key, velocity: v3 }, s3),
    ensures
        s2.notes_view() == s1.notes_view(),
        !s3.notes_view().contains((channel, key)),
{
    assert(s2.notes_view() =~= s1.notes_view());
}

/// Releasing a note that is not held changes nothing.
pub proof fn law_note_off_of_unheld_note(s0: MidiState, s1: MidiState, channel: u8, key: u8, velocity: u8)
    requires
        !s0.notes_view().contains((channel, key)),
        s0.spec_after(MidiMessage::NoteOff { channel, key, velocity }, s1),
    ensures
        s1.notes_view() == s0.notes_view(),
        s1.controls_view() == s0.controls_view(),
        s1.programs_view() == s0.programs_view(),
        s1.pitch_bend_view() == s0.pitch_bend_view(),
{
    assert(s1.notes_view() =~= s0.notes_view());
}

/// The last value a control was changed to is its known value.
pub proof fn law_last_control_value_wins(
    s0: MidiState,
    s1: MidiState,
    s2: MidiState,
    channel: u8,
    control: u8,
    first: u8,
    second: u8,
)
    requires
        s0.spec_after(MidiMessage::ControlChange { channel, control, value: first }, s1),
        s1.spec_after(MidiMessage::ControlChange { channel, control, value: second }, s2),
    ensures
        s2.controls_view().contains_key((channel, control)),
        s2.controls_view()[(channel, control)] == second,
        s2.controls_view() == s0.controls_view().insert((channel, control), second),
{
    assert(s2.controls_view() =~= s0.controls_view().insert((channel, control), second));
}

/// After a note is pressed, a note precondition whose matchers accept its channel and key holds.
pub proof fn law_pressed_note_satisfies_precondition(
    s0: MidiState,
    s1: MidiState,
    channel: u8,
    key: u8,
    velocity: u8,
    channel_match: NumMatch,
    key_match: NumMatch,
)
    requires
        s0.spec_after(MidiMessage::NoteOn { channel, key, velocity }, s1),
        num_match_accepts(channel_match, channel as u32),
        num_match_accepts(key_match, key as u32),
    ensures
        s1.spec_matches(MidiPrecondition::NoteOn { channel_match, key_match }),
{
    assert(s1.notes_view().contains((channel, key)));
}

/// After a control change, a control precondition whose matchers accept the channel, the
/// control and the new value holds.
pub proof fn law_changed_control_satisfies_precondition(
    s0: MidiState,
    s1: MidiState,
    channel: u8,
    control: u8,
    value: u8,
    channel_match: NumMatch,
    control_match: NumMatch,
    value_match: NumMatch,
)
    requires
        s0.spec_after(MidiMessage::ControlChange { channel, control, value }, s1),
        num_match_accepts(channel_match, channel as u32),
        num_match_accepts(control_match, control as u32),
        num_match_accepts(value_match, value as u32),
    ensures
        s1.spec_matches(MidiPrecondition::Control { channel_match, control_match, value_match }),
{
    assert(s1.controls_view().contains_key((channel, control)));
}

/// After a program change, a program precondition whose matchers accept the channel and the new
/// program holds.
pub proof fn law_changed_program_satisfies_precondition(
    s0: MidiState,
    s1: MidiState,
    channel: u8,
    program: u8,
    channel_match: NumMatch,
    program_match: NumMatch,
)
    requires
        s0.spec_after(MidiMessage::ProgramChange { channel, program }, s1),
        num_match_accepts(channel_match, channel as u32),
        num_match_accepts(program_match, program as u32),
    ensures
        s1.spec_matches(MidiPrecondition::Program { channel_match, program_match }),
{
    assert(s1.programs_view().contains_key(channel));
}

/// After a pitch bend change, a pitch bend precondition whose matchers accept the channel and
/// the new position holds.
pub proof fn law_changed_pitch_bend_satisfies_precondition(
    s0: MidiState,
    s1: MidiState,
    channel: u8,
    value: u16,
    channel_match: NumMatch,
    value_match: NumMatch,
)
    requires
        s0.spec_after(MidiMessage::PitchBendChange { channel, value }, s1),
        num_match_accepts(channel_match, channel as u32),
        num_match_accepts(value_match, value as u32),
    ensures
        s1.spec_matches(MidiPrecondition::PitchBend { channel_match, value_match }),
{
    assert(s1.pitch_bend_view().contains_key(channel));
}

/// A state that has seen nothing satisfies no MIDI precondition: no note is held and no control,
/// program or pitch bend value is known.
pub proof fn law_fresh_state_satisfies_nothing(s: MidiState, pre: MidiPrecondition)
    requires
        s.notes_view() == Set::<(u8, u8)>::empty(),
        s.controls_view() == Map::<(u8, u8), u8>::empty(),
        s.programs_view() == Map::<u8, u8>::empty(),
        s.pitch_bend_view() == Map::<u8, u16>::empty(),
    ensures
        !s.spec_matches(pre),
{
}

} // verus!
