//! The MIDI monitor program: decoding port messages, reading the focused window from `xprop`
//! output, and deciding what each released key does.
use vstd::prelude::*;
use vstd::string::StringExecFns;
use crate::actions::strings_view;
use crate::focus::FocusedWindow;
use crate::match_checker::{spec_ends_with, spec_starts_with, chars_ends_with, chars_starts_with};
use crate::midi::MidiMessage;
use crate::text::{char_vecs_view, lemma_split_char_len, split_char, split_on_char, str_chars, string_from_chars};

verus! {

/// The message of a port event with status byte `status` and data bytes `data1` and `data2`:
/// the high nibble of the status selects the message type (8 to 14 for channel messages, 15
/// for system messages, which are not decoded), the low nibble is the channel. Data bytes are
/// taken as they are, except that the pitch bend value is made of their low 7 bits.
pub open spec fn spec_parse_port_message(status: u8, data1: u8, data2: u8) -> MidiMessage {
    let channel = (status % 16) as u8;
    let kind = status / 16;
    if kind == 8 {
        MidiMessage::NoteOff { channel, key: data1, velocity: data2 }
    } else if kind == 9 {
        MidiMessage::NoteOn { channel, key: data1, velocity: data2 }
    } else if kind == 10 {
        MidiMessage::PolyAftertouch { channel, key: data1, value: data2 }
    } else if kind == 11 {
        MidiMessage::ControlChange { channel, control: data1, value: data2 }
    } else if kind == 12 {
        MidiMessage::ProgramChange { channel, program: data1 }
    } else if kind == 13 {
        MidiMessage::ChannelAftertouch { channel, value: data1 }
    } else if kind == 14 {
        MidiMessage::PitchBendChange { channel, value: ((data1 % 128) + (data2 % 128) * 128) as u16 }
    } else {
        MidiMessage::Other
    }
}

/// Decodes the message of a port event.
pub fn parse_message(status: u8, data1: u8, data2: u8) -> (r: MidiMessage)
    ensures
        r == spec_parse_port_message(status, data1, data2),
{
    let channel: u8 = status & 0x0f;
    let kind: u8 = (status & 0xf0) >> 4;
    assert(status & 0x0f == status % 16) by (bit_vector);
    assert((status & 0xf0) >> 4 == status / 16) by (bit_vector);
    if kind == 8 {
        MidiMessage::NoteOff { channel, key: data1, velocity: data2 }
    } else if kind == 9 {
        MidiMessage::NoteOn { channel, key: data1, velocity: data2 }
    } else if kind == 10 {
        MidiMessage::PolyAftertouch { channel, key: data1, value: data2 }
    } else if kind == 11 {
        MidiMessage::ControlChange { channel, control: data1, value: data2 }
    } else if kind == 12 {
        MidiMessage::ProgramChange { channel, program: data1 }
    } else if kind == 13 {
        MidiMessage::ChannelAftertouch { channel, value: data1 }
    } else if kind == 14 {
        let lsb: u16 = (data1 & 0x7f) as u16;
        let msb: u16 = (data2 as u16) & 0x7f;
        assert(data1 & 0x7f == data1 % 128) by (bit_vector);
        assert((data2 as u16) & 0x7f == data2 % 128) by (bit_vector);
        assert(lsb < 128 && msb < 128 ==> (lsb | (msb << 7)) == lsb + msb * 128) by (bit_vector);
        MidiMessage::PitchBendChange { channel, value: lsb | (msb << 7) }
    } else {
        MidiMessage::Other
    }
}

/// The position of the first occurrence of `p` in `s` at or after `i`, if any.
pub open spec fn find_from(s: Seq<char>, p: Seq<char>, i: int) -> Option<int>
    decreases s.len() + 1 - i,
{
    if i < 0 || i + p.len() > s.len() {
        None
    } else if s.subrange(i, i + p.len()) == p {
        Some(i)
    } else {
        find_from(s, p, i + 1)
    }
}

/// The pieces of `s` between occurrences of the non-empty `p`, found from left to right without
/// overlapping, as Rust's `str::split` with a string pattern gives them.
pub open spec fn split_str(s: Seq<char>, p: Seq<char>) -> Seq<Seq<char>>
    decreases s.len(),
{
    if p.len() == 0 {
        seq![s]
    } else {
        match find_from(s, p, 0) {
            None => seq![s],
            Some(i) => {
                proof {
                    lemma_find_from(s, p, 0);
                }
                seq![s.take(i)] + split_str(s.skip(i + p.len()), p)
            },
        }
    }
}

pub proof fn lemma_find_from(s: Seq<char>, p: Seq<char>, i: int)
    requires
        0 <= i,
    ensures
        find_from(s, p, i) matches Some(j) ==> i <= j && j + p.len() <= s.len() && s.subrange(j, j + p.len()) == p,
        find_from(s, p, i) is None ==> forall|j: int|
            i <= j && j + p.len() <= s.len() ==> #[trigger] s.subrange(j, j + p.len()) != p,
        find_from(s, p, i) matches Some(j) ==> forall|k: int|
            i <= k < j ==> #[trigger] s.subrange(k, k + p.len()) != p,
    decreases s.len() + 1 - i,
{
    if i + p.len() <= s.len() && s.subrange(i, i + p.len()) != p {
        lemma_find_from(s, p, i + 1);
    }
}

/// The separator between the items of a quoted `xprop` list.
pub open spec fn quoted_list_separator() -> Seq<char> {
    seq!['"', ',', ' ', '"']
}

/// Whether `p` occurs in `v` at position `i`.
fn occurs_at(v: &Vec<char>, p: &Vec<char>, i: usize) -> (r: bool)
    requires
        i <= v@.len(),
    ensures
        r == (i + p@.len() <= v@.len() && v@.subrange(i as int, i + p@.len()) == p@),
{
    let vl = v.len();
    if p.len() > vl - i {
        return false;
    }
    let mut j: usize = 0;
    while j < p.len()
        invariant
            vl == v@.len(),
            i + p@.len() <= v@.len(),
            j <= p@.len(),
            forall|k: int| 0 <= k < j ==> v@[i + k] == p@[k],
        decreases p.len() - j,
    {
        if v[i + j] != p[j] {
            assert(v@.subrange(i as int, i + p@.len())[j as int] != p@[j as int]);
            return false;
        }
        j = j + 1;
    }
    assert(v@.subrange(i as int, i + p@.len()) =~= p@);
    true
}

/// Splits the inside of a quoted `xprop` list such as `a", "b", "c` into its items.
pub fn parse_quoted_list(list: &str) -> (r: Vec<String>)
    ensures
        strings_view(r@) == split_str(list@, quoted_list_separator()),
{
    let s = str_chars(list);
    let mut sep: Vec<char> = Vec::new();
    sep.push('"');
    sep.push(',');
    sep.push(' ');
    sep.push('"');
    assert(sep@ =~= quoted_list_separator());
    let ghost p = sep@;
    let mut out: Vec<String> = Vec::new();
    let mut start: usize = 0;
    let mut i: usize = 0;
    assert(s@.skip(0) =~= s@);
    assert(strings_view(out@) =~= Seq::<Seq<char>>::empty());
    while i < s.len()
        invariant
            s@ == list@,
            sep@ == p,
            p == quoted_list_separator(),
            start <= i <= s@.len(),
            split_str(list@, p) == strings_view(out@) + split_str(s@.skip(start as int), p),
            forall|k: int| start <= k < i ==> !(k + p.len() <= s@.len() && #[trigger] s@.subrange(k, k + p.len()) == p),
        decreases s.len() - i,
    {
        if occurs_at(&s, &sep, i) {
            let ghost rest = s@.skip(start as int);
            proof {
                lemma_find_from(rest, p, 0);
                assert forall|k: int| 0 <= k < i - start implies !(k + p.len() <= rest.len() && #[trigger] rest.subrange(k, k + p.len()) == p) by {
                    assert(rest.subrange(k, k + p.len()) =~= s@.subrange(start + k, start + k + p.len()));
                }
                assert(rest.subrange(i - start, i - start + p.len()) =~= s@.subrange(i as int, i + p.len()));
                if find_from(rest, p, 0) != Some((i - start) as int) {
                    match find_from(rest, p, 0) {
                        Some(j) => {
                            if j < i - start {
                            } else {
                                assert(rest.subrange(i - start, i - start + p.len()) == p);
                            }
                        },
                        None => {},
                    }
                }
            }
            let mut piece: Vec<char> = Vec::new();
            let mut j: usize = start;
            while j < i
                invariant
                    start <= j <= i,
                    i <= s@.len(),
                    piece@ == s@.subrange(start as int, j as int),
                decreases i - j,
            {
                piece.push(s[j]);
                j = j + 1;
                assert(piece@ =~= s@.subrange(start as int, j as int));
            }
            let ghost before = strings_view(out@);
            out.push(string_from_chars(piece.as_slice()));
            proof {
                assert(piece@ =~= rest.take(i - start));
                assert(rest.skip(i - start + p.len()) =~= s@.skip(i + 4));
                assert(strings_view(out@) =~= before.push(piece@));
                assert(split_str(rest, p) == seq![rest.take(i - start)] + split_str(rest.skip(i - start + p.len()), p));
                assert(before + split_str(rest, p) =~= strings_view(out@) + split_str(s@.skip(i + 4), p));
            }
            i = i + 4;
            start = i;
        } else {
            i = i + 1;
        }
    }
    let ghost rest = s@.skip(start as int);
    proof {
        lemma_find_from(rest, p, 0);
        if find_from(rest, p, 0) is Some {
            let j = find_from(rest, p, 0)->0;
            assert(rest.subrange(j, j + p.len()) =~= s@.subrange(start + j, start + j + p.len()));
        }
    }
    let mut piece: Vec<char> = Vec::new();
    let mut j: usize = start;
    while j < s.len()
        invariant
            start <= j <= s@.len(),
            piece@ == s@.subrange(start as int, j as int),
        decreases s.len() - j,
    {
        piece.push(s[j]);
        j = j + 1;
        assert(piece@ =~= s@.subrange(start as int, j as int));
    }
    assert(piece@ =~= rest);
    let ghost before = strings_view(out@);
    out.push(string_from_chars(piece.as_slice()));
    assert(strings_view(out@) =~= before + seq![rest]);
    out
}


/// `l` without a carriage return at its end.
pub open spec fn strip_cr(l: Seq<char>) -> Seq<char> {
    if l.len() > 0 && l.last() == '\r' {
        l.drop_last()
    } else {
        l
    }
}

/// The lines of `s` as Rust's `str::lines` gives them: split at `\n`, a `\r` before a `\n`
/// dropped, and no empty line after a final line break.
pub open spec fn text_lines(s: Seq<char>) -> Seq<Seq<char>> {
    let ps = split_char(s, '\n');
    let n = ps.len();
    let inner = ps.take(n - 1).map_values(|l: Seq<char>| strip_cr(l));
    if n == 0 || ps[n - 1].len() == 0 {
        inner
    } else {
        inner.push(ps[n - 1])
    }
}

/// The lines of `s`.
pub fn lines_of(s: &str) -> (r: Vec<Vec<char>>)
    ensures
        char_vecs_view(r@) == text_lines(s@),
{
    let chars = str_chars(s);
    let pieces = split_on_char(&chars, '\n');
    let n = pieces.len();
    let ghost ps = split_char(s@, '\n');
    let mut out: Vec<Vec<char>> = Vec::new();
    proof {
        lemma_split_char_len(s@, '\n');
    }
    let mut i: usize = 0;
    while i + 1 < n
        invariant
            char_vecs_view(pieces@) == ps,
            ps == split_char(s@, '\n'),
            n == pieces@.len(),
            n >= 1,
            i + 1 <= n,
            out@.len() == i,
            forall|j: int| 0 <= j < i ==> (#[trigger] out@[j])@ == strip_cr(ps[j]),
        decreases n - i,
    {
        let piece = &pieces[i];
        assert(piece@ == ps[i as int]);
        let mut line: Vec<char> = Vec::new();
        let m = piece.len();
        let keep = if m > 0 && piece[m - 1] == '\r' {
            m - 1
        } else {
            m
        };
        let mut j: usize = 0;
        while j < keep
            invariant
                keep <= m,
                m == piece@.len(),
                j <= keep,
                line@ == piece@.subrange(0, j as int),
            decreases keep - j,
        {
            line.push(piece[j]);
            j = j + 1;
            assert(line@ =~= piece@.subrange(0, j as int));
        }
        assert(line@ =~= strip_cr(piece@));
        out.push(line);
        i = i + 1;
    }
    let ghost inner = ps.take(n - 1).map_values(|l: Seq<char>| strip_cr(l));
    assert(char_vecs_view(out@) =~= inner);
    let last = &pieces[n - 1];
    assert(last@ == ps[n - 1]);
    if last.len() > 0 {
        out.push(last.clone());
        assert(char_vecs_view(out@) =~= inner.push(ps[n - 1]));
    }
    out
}

/// The `xprop` line of the window class.
pub open spec fn class_prefix() -> Seq<char> {
    "WM_CLASS(STRING) = \""@
}

/// The `xprop` line of a plain window name.
pub open spec fn name_prefix() -> Seq<char> {
    "WM_NAME(STRING) = \""@
}

/// The `xprop` line of a window name in compound text.
pub open spec fn compound_name_prefix() -> Seq<char> {
    "WM_NAME(COMPOUND_TEXT) = \""@
}

/// The value of a quoted `xprop` line: after its prefix, without its last character.
pub open spec fn quoted_value(l: Seq<char>, prefix: Seq<char>) -> Seq<char> {
    l.subrange(prefix.len() as int, l.len() - 1)
}

/// Whether a line that starts with one of the `xprop` prefixes is longer than its prefix.
pub open spec fn xprop_line_ok(l: Seq<char>) -> bool {
    &&& spec_starts_with(l, class_prefix()) ==> l.len() > class_prefix().len()
    &&& spec_starts_with(l, name_prefix()) ==> l.len() > name_prefix().len()
    &&& spec_starts_with(l, compound_name_prefix()) ==> l.len() > compound_name_prefix().len()
}

/// The window class and name that `xprop` lines give: each class line sets the class to the
/// items of its quoted list, each name line sets the name; later lines win.
pub open spec fn xprop_fields(lines: Seq<Seq<char>>) -> (Seq<Seq<char>>, Seq<char>)
    decreases lines.len(),
{
    if lines.len() == 0 {
        (Seq::empty(), Seq::empty())
    } else {
        let (c, n) = xprop_fields(lines.drop_last());
        let l = lines.last();
        let c2 = if spec_starts_with(l, class_prefix()) {
            split_str(quoted_value(l, class_prefix()), quoted_list_separator())
        } else {
            c
        };
        let n1 = if spec_starts_with(l, name_prefix()) {
            quoted_value(l, name_prefix())
        } else {
            n
        };
        let n2 = if spec_starts_with(l, compound_name_prefix()) {
            quoted_value(l, compound_name_prefix())
        } else {
            n1
        };
        (c2, n2)
    }
}

/// The characters of `v` from `from` up to, not including, `to`.
fn chars_between(v: &Vec<char>, from: usize, to: usize) -> (r: Vec<char>)
    requires
        from <= to <= v@.len(),
    ensures
        r@ == v@.subrange(from as int, to as int),
{
    let mut out: Vec<char> = Vec::new();
    let mut j: usize = from;
    while j < to
        invariant
            from <= j <= to,
            to <= v@.len(),
            out@ == v@.subrange(from as int, j as int),
        decreases to - j,
    {
        out.push(v[j]);
        j = j + 1;
        assert(out@ =~= v@.subrange(from as int, j as int));
    }
    out
}

/// Reads the focused window from the output of `xprop` asked for `WM_CLASS` and `WM_NAME`.
pub fn window_from_xprop_output(output: &str) -> (r: FocusedWindow)
    requires
        forall|i: int| 0 <= i < text_lines(output@).len() ==> xprop_line_ok(#[trigger] text_lines(output@)[i]),
    ensures
        strings_view(r.window_class@) == xprop_fields(text_lines(output@)).0,
        r.window_name@ == xprop_fields(text_lines(output@)).1,
        r.executable_path is None,
        r.executable_basename is None,
{
    let lines = lines_of(output);
    let ghost ls = text_lines(output@);
    let class_p = str_chars("WM_CLASS(STRING) = \"");
    let name_p = str_chars("WM_NAME(STRING) = \"");
    let compound_p = str_chars("WM_NAME(COMPOUND_TEXT) = \"");
    let mut fw = FocusedWindow::blank();
    let mut i: usize = 0;
    assert(ls.take(0) =~= Seq::<Seq<char>>::empty());
    assert(strings_view(fw.window_class@) =~= Seq::<Seq<char>>::empty());
    while i < lines.len()
        invariant
            char_vecs_view(lines@) == ls,
            ls == text_lines(output@),
            forall|k: int| 0 <= k < ls.len() ==> xprop_line_ok(#[trigger] ls[k]),
            class_p@ == class_prefix(),
            name_p@ == name_prefix(),
            compound_p@ == compound_name_prefix(),
            i <= lines@.len(),
            (strings_view(fw.window_class@), fw.window_name@) == xprop_fields(ls.take(i as int)),
            fw.executable_path is None,
            fw.executable_basename is None,
        decreases lines.len() - i,
    {
        let line = &lines[i];
        assert(line@ == ls[i as int]);
        assert(ls.take(i + 1).drop_last() =~= ls.take(i as int));
        assert(ls.take(i + 1).last() == line@);
        let n = line.len();
        if chars_starts_with(line, &class_p) {
            let inner = string_from_chars(chars_between(line, class_p.len(), n - 1).as_slice());
            fw.window_class = parse_quoted_list(inner.as_str());
        }
        if chars_starts_with(line, &name_p) {
            fw.window_name = string_from_chars(chars_between(line, name_p.len(), n - 1).as_slice());
        }
        if chars_starts_with(line, &compound_p) {
            fw.window_name = string_from_chars(chars_between(line, compound_p.len(), n - 1).as_slice());
        }
        i = i + 1;
    }
    assert(ls.take(lines@.len() as int) =~= ls);
    fw
}

/// What the monitor does for a message: nothing but for a released key; then, by key, offer
/// Inkscape's centring shortcut (48), type a greeting (60), copy (61), show the focused window
/// (62), or report that no action is configured.
pub enum MonitorResponse {
    /// Not a released key: nothing to do.
    Nothing,
    /// Run Inkscape's centring shortcut if Inkscape is focused.
    CheckInkscape,
    /// Type the text with the delay between keys.
    EnterText { text: String, delay: u32 },
    /// Send the key sequence with the delay between keys.
    SendKeySequence { sequence: String, delay: u32 },
    /// Show the focused window.
    ShowFocusedWindow,
    /// No action is configured for the key.
    NoActionConfigured,
}

/// Decides what the monitor does for a message.
pub fn monitor_response(msg: &MidiMessage) -> (r: MonitorResponse)
    ensures
        match *msg {
            MidiMessage::NoteOff { key, .. } => if key == 48 {
                r is CheckInkscape
            } else if key == 60 {
                r matches MonitorResponse::EnterText { text, delay } && text@ == "Hello world!"@ && delay == 250
            } else if key == 61 {
                r matches MonitorResponse::SendKeySequence { sequence, delay } && sequence@ == "ctrl+c"@ && delay == 0
            } else if key == 62 {
                r is ShowFocusedWindow
            } else {
                r is NoActionConfigured
            },
            _ => r is Nothing,
        },
{
    match msg {
        MidiMessage::NoteOff { key, .. } => {
            if *key == 48 {
                MonitorResponse::CheckInkscape
            } else if *key == 60 {
                MonitorResponse::EnterText { text: String::from_str("Hello world!"), delay: 250 }
            } else if *key == 61 {
                MonitorResponse::SendKeySequence { sequence: String::from_str("ctrl+c"), delay: 0 }
            } else if *key == 62 {
                MonitorResponse::ShowFocusedWindow
            } else {
                MonitorResponse::NoActionConfigured
            }
        },
        _ => MonitorResponse::Nothing,
    }
}

/// The key sequences of Inkscape's centring shortcut, sent with 100 microseconds between keys.
pub open spec fn inkscape_sequences() -> Seq<Seq<char>> {
    seq!["ctrl+shift+a"@, "Tab"@, "Tab"@, "Tab"@, "Tab"@, "Tab"@, "Tab"@, "Return"@]
}

/// The key sequences to send for key 48: Inkscape's centring shortcut when the focused window's
/// name ends with `Inkscape`, none otherwise.
pub fn inkscape_response(window_name: &str) -> (r: Option<Vec<String>>)
    ensures
        match r {
            Some(v) => spec_ends_with(window_name@, "Inkscape"@) && strings_view(v@) == inkscape_sequences(),
            None => !spec_ends_with(window_name@, "Inkscape"@),
        },
{
    let name = str_chars(window_name);
    let suffix = str_chars("Inkscape");
    if !chars_ends_with(&name, &suffix) {
        return None;
    }
    let mut v: Vec<String> = Vec::new();
    v.push(String::from_str("ctrl+shift+a"));
    let mut i: usize = 0;
    while i < 6
        invariant
            i <= 6,
            v@.len() == 1 + i,
            v@[0]@ == "ctrl+shift+a"@,
            forall|j: int| 1 <= j < 1 + i ==> (#[trigger] v@[j])@ == "Tab"@,
        decreases 6 - i,
    {
        v.push(String::from_str("Tab"));
        i = i + 1;
    }
    v.push(String::from_str("Return"));
    assert(strings_view(v@) =~= inkscape_sequences());
    Some(v)
}

/// The monitor decodes a channel message as the library decodes the same three bytes: for a
/// status of a channel message (high nibble 8 to 14) and data bytes below 128, the port message
/// is the message that `midi::parse_message` gives for the bytes `[status, data1, data2]`.
pub proof fn law_port_message_agrees_with_byte_decoding(status: u8, data1: u8, data2: u8)
    requires
        8 <= status / 16 <= 14,
        data1 < 128,
        data2 < 128,
    ensures
        crate::midi::spec_parse_message(seq![status, data1, data2]) == Some(
            spec_parse_port_message(status, data1, data2),
        ),
{
    let b = seq![status, data1, data2];
    assert(b[0] == status && b[1] == data1 && b[2] == data2);
    assert(data1 % 128 == data1 && data2 % 128 == data2);
}

} // verus!
