//! Structured MIDI messages, decoded from raw bytes, and musical note names.
use vstd::prelude::*;

verus! {

/// A parsed MIDI message, structured to be easy to work with.
/// It is parsed from up to 3 raw bytes of data.
#[derive(Debug, Clone, Copy, PartialEq, Eq, Structural)]
#[allow(inconsistent_fields)]
pub enum MidiMessage {
    /// Key released: channel 0-15, key 0-127, release velocity 0-127.
    NoteOff { channel: u8, key: u8, velocity: u8 },
    /// Key pressed: channel 0-15, key 0-127, velocity 0-127.
    NoteOn { channel: u8, key: u8, velocity: u8 },
    /// Pressure on an already held key: channel, key, pressure value.
    PolyAftertouch { channel: u8, key: u8, value: u8 },
    /// A control changed value: channel, control number, new value.
    ControlChange { channel: u8, control: u8, value: u8 },
    /// The selected program changed: channel, program number.
    ProgramChange { channel: u8, program: u8 },
    /// Channel-wide pressure: channel, pressure value.
    ChannelAftertouch { channel: u8, value: u8 },
    /// Pitch bender position changed: channel, 14 bit value.
    PitchBendChange { channel: u8, value: u16 },
    /// Catch-all for system messages that are not decoded further.
    Other,
}

/// The message that the bytes `b` decode to, following the MIDI summary of channel messages:
/// the high nibble of the first byte is the status, the low nibble the channel, and every data
/// byte contributes its low 7 bits only.
pub open spec fn spec_parse_message(b: Seq<u8>) -> Option<MidiMessage> {
    if b.len() == 0 {
        None
    } else {
        let status = b[0] / 16;
        let channel = (b[0] % 16) as u8;
        if status == 8 {
            if b.len() >= 3 {
                Some(MidiMessage::NoteOff { channel, key: (b[1] % 128) as u8, velocity: (b[2] % 128) as u8 })
            } else {
                None
            }
        } else if status == 9 {
            if b.len() >= 3 {
                Some(MidiMessage::NoteOn { channel, key: (b[1] % 128) as u8, velocity: (b[2] % 128) as u8 })
            } else {
                None
            }
        } else if status == 10 {
            if b.len() >= 3 {
                Some(MidiMessage::PolyAftertouch { channel, key: (b[1] % 128) as u8, value: (b[2] % 128) as u8 })
            } else {
                None
            }
        } else if status == 11 {
            if b.len() >= 3 {
                Some(MidiMessage::ControlChange { channel, control: (b[1] % 128) as u8, value: (b[2] % 128) as u8 })
            } else {
                None
            }
        } else if status == 12 {
            if b.len() >= 2 {
                Some(MidiMessage::ProgramChange { channel, program: (b[1] % 128) as u8 })
            } else {
                None
            }
        } else if status == 13 {
            if b.len() >= 2 {
                Some(MidiMessage::ChannelAftertouch { channel, value: (b[1] % 128) as u8 })
            } else {
                None
            }
        } else if status == 14 {
            if b.len() >= 3 {
                Some(MidiMessage::PitchBendChange {
                    channel,
                    value: ((b[1] % 128) + (b[2] % 128) * 128) as u16,
                })
            } else {
                None
            }
        } else if status == 15 {
            Some(MidiMessage::Other)
        } else {
            None
        }
    }
}

/// Low 7 bits of a data byte.
fn data7(b: u8) -> (r: u8)
    ensures
        r == b % 128,
{
    assert(b & 0x7f == b % 128) by (bit_vector);
    b & 0x7f
}

/// Parses raw MIDI bytes into a structured message.
///
/// Returns `None` when no bytes are given, when the status nibble is not that of a channel or
/// system message, or when fewer data bytes are present than the message type needs.
pub fn parse_message(bytes: &[u8]) -> (r: Option<MidiMessage>)
    ensures
        r == spec_parse_message(bytes@),
{
    if bytes.len() == 0 {
        return None;
    }
    let first_byte = bytes[0];
    let status: u8 = (first_byte & 0xf0) >> 4;
    let channel: u8 = first_byte & 0x0f;
    assert((first_byte & 0xf0) >> 4 == first_byte / 16) by (bit_vector);
    assert(first_byte & 0x0f == first_byte % 16) by (bit_vector);
    let len = bytes.len();
    if status == 8 {
        if len >= 3 {
            Some(MidiMessage::NoteOff { channel, key: data7(bytes[1]), velocity: data7(bytes[2]) })
        } else {
            None
        }
    } else if status == 9 {
        if len >= 3 {
            Some(MidiMessage::NoteOn { channel, key: data7(bytes[1]), velocity: data7(bytes[2]) })
        } else {
            None
        }
    } else if status == 10 {
        if len >= 3 {
            Some(MidiMessage::PolyAftertouch { channel, key: data7(bytes[1]), value: data7(bytes[2]) })
        } else {
            None
        }
    } else if status == 11 {
        if len >= 3 {
            Some(MidiMessage::ControlChange { channel, control: data7(bytes[1]), value: data7(bytes[2]) })
        } else {
            None
        }
    } else if status == 12 {
        if len >= 2 {
            Some(MidiMessage::ProgramChange { channel, program: data7(bytes[1]) })
        } else {
            None
        }
    } else if status == 13 {
        if len >= 2 {
            Some(MidiMessage::ChannelAftertouch { channel, value: data7(bytes[1]) })
        } else {
            None
        }
    } else if status == 14 {
        if len >= 3 {
            let lsb: u16 = data7(bytes[1]) as u16;
            let msb: u16 = data7(bytes[2]) as u16;
            assert(lsb < 128 && msb < 128 ==> (lsb | (msb << 7)) == lsb + msb * 128) by (bit_vector);
            Some(MidiMessage::PitchBendChange { channel, value: lsb | (msb << 7) })
        } else {
            None
        }
    } else if status == 15 {
        Some(MidiMessage::Other)
    } else {
        None
    }
}


/// Number of the note named by `c` in octave -1 (C-1 is MIDI note 0), or `None` when `c` is not
/// a note letter A-G in either case.
pub open spec fn note_letter_base(c: char) -> Option<int> {
    if c == 'C' || c == 'c' {
        Some(12)
    } else if c == 'D' || c == 'd' {
        Some(14)
    } else if c == 'E' || c == 'e' {
        Some(16)
    } else if c == 'F' || c == 'f' {
        Some(17)
    } else if c == 'G' || c == 'g' {
        Some(19)
    } else if c == 'A' || c == 'a' {
        Some(21)
    } else if c == 'B' || c == 'b' {
        Some(23)
    } else {
        None
    }
}

/// A flat (`b`) or sharp (`#`) sign.
pub open spec fn is_accidental(c: char) -> bool {
    c == 'b' || c == '#'
}

/// Number of accidental signs at the start of `s`.
pub open spec fn accidental_run(s: Seq<char>) -> nat
    decreases s.len(),
{
    if s.len() > 0 && is_accidental(s[0]) {
        1 + accidental_run(s.drop_first())
    } else {
        0
    }
}

/// Sharps minus flats in `s`.
pub open spec fn accidental_offset(s: Seq<char>) -> int
    decreases s.len(),
{
    if s.len() == 0 {
        0
    } else {
        (if s[0] == '#' {
            1int
        } else if s[0] == 'b' {
            -1int
        } else {
            0int
        }) + accidental_offset(s.drop_first())
    }
}

/// Value of the decimal digit `c`, if it is one.
pub open spec fn digit_value(c: char) -> Option<int> {
    if '0' <= c && c <= '9' {
        Some(c as int - '0' as int)
    } else {
        None
    }
}

/// The octave suffix of a note string: empty (no octave), a digit, or `-` and a digit.
/// `None` when `s` is none of these.
pub open spec fn octave_suffix(s: Seq<char>) -> Option<Option<int>> {
    if s.len() == 0 {
        Some(None)
    } else if s.len() == 1 && digit_value(s[0]).is_some() {
        Some(Some(digit_value(s[0]).unwrap()))
    } else if s.len() == 2 && s[0] == '-' && digit_value(s[1]).is_some() {
        Some(Some(-digit_value(s[1]).unwrap()))
    } else {
        None
    }
}

/// Reads a note string `<letter A-G, any case>[up to 100 of 'b' or '#'][optional '-' and digit]`,
/// which must span the whole string. Gives the note number in octave -1 with accidentals
/// applied, and the octave if one was given.
pub open spec fn spec_read_note(s: Seq<char>) -> Option<(int, Option<int>)> {
    if s.len() == 0 || note_letter_base(s[0]).is_none() {
        None
    } else {
        let rest = s.drop_first();
        let k = accidental_run(rest);
        if k > 100 {
            None
        } else {
            match octave_suffix(rest.skip(k as int)) {
                None => None,
                Some(octave) => Some((
                    note_letter_base(s[0]).unwrap() + accidental_offset(rest.take(k as int)),
                    octave,
                )),
            }
        }
    }
}

/// The pitch class of the note number `a`: its remainder when divided by 12, between 0 and 11
/// also for a negative `a`.
pub open spec fn pitch_class(a: int) -> int {
    a % 12
}

/// All MIDI note numbers (0-127) with remainder `r` when divided by 12, in increasing order.
pub open spec fn notes_in_class(r: int) -> Seq<u8> {
    if 0 <= r < 12 {
        Seq::new(((127 - r) / 12 + 1) as nat, |i: int| (r + 12 * i) as u8)
    } else {
        Seq::empty()
    }
}

/// The MIDI notes that a note string describes: with an octave, the single note if it lies in
/// 0-127; without one, that note in every octave; nothing when the string is not a note string.
pub open spec fn spec_keys_from_str(s: Seq<char>) -> Seq<u8> {
    match spec_read_note(s) {
        None => Seq::empty(),
        Some((base, Some(octave))) => {
            let n = base + 12 * octave;
            if 0 <= n < 128 {
                seq![n as u8]
            } else {
                Seq::empty()
            }
        },
        Some((base, None)) => notes_in_class(pitch_class(base)),
    }
}

proof fn lemma_accidental_run_bound(s: Seq<char>)
    ensures
        accidental_run(s) <= s.len(),
        forall|i: int| 0 <= i < accidental_run(s) ==> is_accidental(#[trigger] s[i]),
        accidental_run(s) < s.len() ==> !is_accidental(s[accidental_run(s) as int]),
    decreases s.len(),
{
    if s.len() > 0 && is_accidental(s[0]) {
        lemma_accidental_run_bound(s.drop_first());
        assert forall|i: int| 0 <= i < accidental_run(s) implies is_accidental(#[trigger] s[i]) by {
            if i > 0 {
                assert(s[i] == s.drop_first()[i - 1]);
            }
        }
    }
}

proof fn lemma_accidental_run_from(s: Seq<char>, k: int)
    requires
        0 <= k <= s.len(),
        forall|i: int| 0 <= i < k ==> is_accidental(#[trigger] s[i]),
        k == s.len() || !is_accidental(s[k]),
    ensures
        accidental_run(s) == k,
    decreases k,
{
    if k > 0 {
        assert forall|i: int| 0 <= i < k - 1 implies is_accidental(#[trigger] s.drop_first()[i]) by {
            assert(s.drop_first()[i] == s[i + 1]);
        }
        if k - 1 < s.drop_first().len() {
            assert(s.drop_first()[k - 1] == s[k]);
        }
        lemma_accidental_run_from(s.drop_first(), k - 1);
    }
}

proof fn lemma_accidental_offset_push(s: Seq<char>, c: char)
    ensures
        accidental_offset(s.push(c)) == accidental_offset(s) + (if c == '#' {
            1int
        } else if c == 'b' {
            -1int
        } else {
            0int
        }),
    decreases s.len(),
{
    if s.len() == 0 {
        assert(s.push(c).drop_first() =~= Seq::<char>::empty());
        assert(accidental_offset(Seq::<char>::empty()) == 0);
        assert(s.push(c)[0] == c);
    } else {
        assert(s.push(c).drop_first() =~= s.drop_first().push(c));
        assert(s.push(c)[0] == s[0]);
        lemma_accidental_offset_push(s.drop_first(), c);
    }
}

/// Number in octave -1 of the note letter `c`, as `note_letter_base` gives it.
fn note_letter_base_exec(c: char) -> (r: Option<i16>)
    ensures
        r.is_some() == note_letter_base(c).is_some(),
        r.is_some() ==> r.unwrap() as int == note_letter_base(c).unwrap(),
{
    if c == 'C' || c == 'c' {
        Some(12)
    } else if c == 'D' || c == 'd' {
        Some(14)
    } else if c == 'E' || c == 'e' {
        Some(16)
    } else if c == 'F' || c == 'f' {
        Some(17)
    } else if c == 'G' || c == 'g' {
        Some(19)
    } else if c == 'A' || c == 'a' {
        Some(21)
    } else if c == 'B' || c == 'b' {
        Some(23)
    } else {
        None
    }
}

/// Reads a note string, as `spec_read_note` describes.
fn read_note(s: &Vec<char>) -> (r: Option<(i16, Option<i16>)>)
    ensures
        match (r, spec_read_note(s@)) {
            (None, None) => true,
            (Some((b, o)), Some((sb, so))) => b as int == sb && match (o, so) {
                (None, None) => true,
                (Some(x), Some(y)) => x as int == y,
                _ => false,
            },
            _ => false,
        },
        r matches Some((b, o)) ==> -88 <= b <= 123 && (o matches Some(x) ==> -9 <= x <= 9),
{
    let n = s.len();
    if n == 0 {
        return None;
    }
    let base = match note_letter_base_exec(s[0]) {
        None => return None,
        Some(b) => b,
    };
    let ghost rest = s@.drop_first();
    let mut j: usize = 1;
    let mut offset: i16 = 0;
    while j < n && (s[j] == 'b' || s[j] == '#') && j <= 100
        invariant
            1 <= j <= n,
            j <= 101,
            n == s@.len(),
            rest == s@.drop_first(),
            forall|i: int| 0 <= i < j - 1 ==> is_accidental(#[trigger] rest[i]),
            offset as int == accidental_offset(rest.take(j - 1)),
            -(j - 1) <= offset <= j - 1,
        decreases n - j,
    {
        proof {
            lemma_accidental_offset_push(rest.take(j - 1), rest[j - 1]);
            assert(rest.take(j - 1).push(rest[j - 1]) =~= rest.take(j as int));
        }
        if s[j] == '#' {
            offset = offset + 1;
        } else {
            offset = offset - 1;
        }
        j = j + 1;
    }
    if j < n && (s[j] == 'b' || s[j] == '#') {
        // more than 100 accidentals
        proof {
            assert(j == 101);
            lemma_accidental_run_bound(rest);
            if accidental_run(rest) <= 100 {
                assert(is_accidental(rest[accidental_run(rest) as int]));
            }
        }
        return None;
    }
    proof {
        lemma_accidental_run_from(rest, j - 1);
    }
    let ghost tail = rest.skip(j - 1);
    let octave: Option<i16>;
    if j == n {
        assert(tail.len() == 0);
        octave = None;
    } else if j + 1 == n && '0' <= s[j] && s[j] <= '9' {
        assert(tail[0] == s@[j as int]);
        octave = Some((s[j] as u32 - '0' as u32) as i16);
    } else if j + 2 == n && s[j] == '-' && '0' <= s[j + 1] && s[j + 1] <= '9' {
        assert(tail[0] == s@[j as int]);
        assert(tail[1] == s@[j + 1]);
        octave = Some(0 - ((s[j + 1] as u32 - '0' as u32) as i16));
    } else {
        proof {
            if tail.len() == 1 {
                assert(tail[0] == s@[j as int]);
            }
            if tail.len() == 2 {
                assert(tail[0] == s@[j as int]);
                assert(tail[1] == s@[j + 1]);
            }
        }
        return None;
    }
    Some((base + offset, octave))
}

/// Parses a string describing a note into MIDI note number(s).
///
/// `key_str` has the form `<note name>[accidentals][octave]`: a letter A-G in either case, then
/// up to 100 flat (`b`) or sharp (`#`) signs, then a single decimal digit, optionally preceded
/// by `-`. With an octave, the result holds that one note when it lies in 0-127; without an
/// octave, it holds that note in every octave, in increasing order. When the string has any
/// other form, or the note falls outside 0-127, the result is empty.
pub fn parse_keys_from_str(key_str: &str) -> (r: Vec<u8>)
    ensures
        r@ == spec_keys_from_str(key_str@),
{
    let chars = crate::text::str_chars(key_str);
    let mut out: Vec<u8> = Vec::new();
    match read_note(&chars) {
        None => out,
        Some((base, Some(octave))) => {
            let n: i16 = base + 12 * octave;
            if 0 <= n && n < 128 {
                out.push(n as u8);
                assert(out@ =~= seq![n as u8]);
            }
            out
        },
        Some((base, None)) => {
            let mut rem: i16 = base % 12;
            if rem < 0 {
                rem = rem + 12;
            }
            assert(rem as int == pitch_class(base as int));
            let mut note: u8 = rem as u8;
            let ghost r = rem as int;
            let mut i: usize = 0;
            while note < 128
                invariant
                    0 <= r < 12,
                    note as int == r + 12 * i,
                    note < 140,
                    out@ =~= Seq::new(i as nat, |k: int| (r + 12 * k) as u8),
                decreases 140 - note,
            {
                out.push(note);
                note = note + 12;
                i = i + 1;
            }
            assert(i as int == (127 - r) / 12 + 1);
            out
        },
    }
}


/// A data byte counts only by its low 7 bits: messages whose first bytes agree and whose other
/// bytes agree in their low 7 bits decode alike.
pub proof fn law_data_bytes_low_bits_only(a: Seq<u8>, b: Seq<u8>)
    requires
        a.len() == b.len(),
        a.len() > 0 ==> a[0] == b[0],
        forall|i: int| 1 <= i < a.len() ==> #[trigger] a[i] % 128 == b[i] % 128,
    ensures
        spec_parse_message(a) == spec_parse_message(b),
{
    if a.len() >= 2 {
        assert(a[1] % 128 == b[1] % 128);
    }
    if a.len() >= 3 {
        assert(a[2] % 128 == b[2] % 128);
    }
}

/// Every note a note string names is a MIDI note (0-127); all of them are the same note in
/// different octaves; they come in increasing order.
pub proof fn law_keys_from_str_one_pitch_class(s: Seq<char>)
    ensures
        forall|i: int| 0 <= i < spec_keys_from_str(s).len() ==> #[trigger] spec_keys_from_str(s)[i] < 128,
        forall|i: int, j: int|
            0 <= i < spec_keys_from_str(s).len() && 0 <= j < spec_keys_from_str(s).len() ==> #[trigger] spec_keys_from_str(s)[i] % 12
                == #[trigger] spec_keys_from_str(s)[j] % 12,
        forall|i: int, j: int|
            0 <= i < j < spec_keys_from_str(s).len() ==> #[trigger] spec_keys_from_str(s)[i]
                < #[trigger] spec_keys_from_str(s)[j],
{
    match spec_read_note(s) {
        None => {},
        Some((base, Some(octave))) => {},
        Some((base, None)) => {
            let r = pitch_class(base);
            if 0 <= r < 12 {
                let ks = notes_in_class(r);
                let n = (127 - r) / 12 + 1;
                assert forall|i: int| 0 <= i < ks.len() implies #[trigger] ks[i] < 128 && ks[i] as int == r + 12 * i by {
                    assert(0 <= i < n);
                    assert(r + 12 * i <= 127) by (nonlinear_arith)
                        requires
                            0 <= r < 12,
                            0 <= i < (127 - r) / 12 + 1,
                    ;
                }
                assert forall|i: int, j: int| 0 <= i < ks.len() && 0 <= j < ks.len() implies #[trigger] ks[i] % 12
                    == #[trigger] ks[j] % 12 by {
                    assert(ks[i] as int == r + 12 * i);
                    assert(ks[j] as int == r + 12 * j);
                    assert((r + 12 * i) % 12 == r) by (nonlinear_arith)
                        requires
                            0 <= r < 12,
                            0 <= i,
                    ;
                    assert((r + 12 * j) % 12 == r) by (nonlinear_arith)
                        requires
                            0 <= r < 12,
                            0 <= j,
                    ;
                }
                assert forall|i: int, j: int| 0 <= i < j < ks.len() implies #[trigger] ks[i] < #[trigger] ks[j] by {
                    assert(ks[i] as int == r + 12 * i);
                    assert(ks[j] as int == r + 12 * j);
                }
            }
        },
    }
}

/// A pitch bend message (status 14) of at least three bytes carries a 14-bit position whose low
/// 7 bits are those of the second byte and whose high 7 bits are those of the third: the wheel
/// at rest (`0x00`, `0x40`) reads 8192, and raising the third byte by one raises the position
/// by 128.
pub proof fn law_pitch_bend_second_byte_is_least_significant(b: Seq<u8>)
    requires
        b.len() >= 3,
        b[0] / 16 == 14,
    ensures
        spec_parse_message(b) matches Some(MidiMessage::PitchBendChange { channel, value }) && channel
            == b[0] % 16 && value < 16384 && value % 128 == b[1] % 128 && value / 128 == b[2] % 128,
{
    let v = ((b[1] % 128) + (b[2] % 128) * 128) as u16;
    let lo = b[1] % 128;
    let hi = b[2] % 128;
    assert(lo + hi * 128 < 16384) by (nonlinear_arith)
        requires
            0 <= lo < 128,
            0 <= hi < 128,
    ;
    assert((lo + hi * 128) % 128 == lo && (lo + hi * 128) / 128 == hi) by (nonlinear_arith)
        requires
            0 <= lo < 128,
            0 <= hi < 128,
    ;
}

/// In the channel messages with two data bytes, the second byte gives the key (note messages)
/// or the control number (control change) and the third the velocity or value; in those with
/// one data byte, the second byte gives the program or the pressure; the low nibble of the first
/// byte is always the channel.
pub proof fn law_data_bytes_fill_their_fields(b: Seq<u8>)
    requires
        b.len() >= 3,
    ensures
        b[0] / 16 == 8 ==> spec_parse_message(b) == Some(
            MidiMessage::NoteOff { channel: (b[0] % 16) as u8, key: (b[1] % 128) as u8, velocity: (b[2] % 128) as u8 },
        ),
        b[0] / 16 == 9 ==> spec_parse_message(b) == Some(
            MidiMessage::NoteOn { channel: (b[0] % 16) as u8, key: (b[1] % 128) as u8, velocity: (b[2] % 128) as u8 },
        ),
        b[0] / 16 == 10 ==> spec_parse_message(b) == Some(
            MidiMessage::PolyAftertouch { channel: (b[0] % 16) as u8, key: (b[1] % 128) as u8, value: (b[2] % 128) as u8 },
        ),
        b[0] / 16 == 11 ==> spec_parse_message(b) == Some(
            MidiMessage::ControlChange {
                channel: (b[0] % 16) as u8,
                control: (b[1] % 128) as u8,
                value: (b[2] % 128) as u8,
            },
        ),
        b[0] / 16 == 12 ==> spec_parse_message(b) == Some(
            MidiMessage::ProgramChange { channel: (b[0] % 16) as u8, program: (b[1] % 128) as u8 },
        ),
        b[0] / 16 == 13 ==> spec_parse_message(b) == Some(
            MidiMessage::ChannelAftertouch { channel: (b[0] % 16) as u8, value: (b[1] % 128) as u8 },
        ),
{
}

} // verus!
