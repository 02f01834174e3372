//! Information about the focused window, and how it is read from what the platforms report.
use vstd::prelude::*;
use vstd::string::StringExecFns;
use vstd::utf8::{valid_utf8, decode_utf8};
use crate::actions::strings_view;
use crate::text::string_from_utf8;

pub mod mac_os;

verus! {

/// Container for focused window info.
#[derive(Debug)]
pub struct FocusedWindow {
    pub window_class: Vec<String>,
    pub window_name: String,
    pub executable_path: Option<String>,
    pub executable_basename: Option<String>,
}

impl FocusedWindow {
    /// A window with no class, an empty name and no executable.
    pub fn blank() -> (r: FocusedWindow)
        ensures
            r.window_class@.len() == 0,
            r.window_name@ == Seq::<char>::empty(),
            r.executable_path is None,
            r.executable_basename is None,
    {
        let r = FocusedWindow {
            window_class: Vec::new(),
            window_name: String::new(),
            executable_path: None,
            executable_basename: None,
        };
        r
    }
}

/// The position of the first nul byte of `b`, or its length when there is none.
pub open spec fn first_nul(b: Seq<u8>) -> int
    decreases b.len(),
{
    if b.len() == 0 {
        0
    } else if b[0] == 0 {
        0
    } else {
        1 + first_nul(b.drop_first())
    }
}

/// The strings of a nul-separated byte array: the pieces between nul bytes (a nul at the very
/// end ends the last piece), each decoded as UTF-8; pieces that are not valid UTF-8 are
/// skipped.
pub open spec fn decoded_strings(b: Seq<u8>) -> Seq<Seq<char>>
    decreases b.len(),
{
    if b.len() == 0 {
        Seq::empty()
    } else {
        let k = first_nul(b);
        let piece = b.take(k);
        let here = if valid_utf8(piece) {
            seq![decode_utf8(piece)]
        } else {
            Seq::empty()
        };
        if k >= b.len() - 1 {
            here
        } else {
            proof {
                lemma_first_nul(b);
            }
            here + decoded_strings(b.skip(k + 1))
        }
    }
}

pub proof fn lemma_first_nul(b: Seq<u8>)
    ensures
        0 <= first_nul(b) <= b.len(),
        first_nul(b) < b.len() ==> b[first_nul(b)] == 0,
        forall|j: int| 0 <= j < first_nul(b) ==> b[j] != 0,
    decreases b.len(),
{
    if b.len() > 0 && b[0] != 0 {
        lemma_first_nul(b.drop_first());
        assert forall|j: int| 0 <= j < first_nul(b) implies b[j] != 0 by {
            if j > 0 {
                assert(b[j] == b.drop_first()[j - 1]);
            }
        }
    }
}

/// Decodes a nul-separated byte array into strings.
pub fn decode_strings(bytes: &[u8]) -> (r: Vec<String>)
    requires
        bytes@.len() > 0,
    ensures
        strings_view(r@) == decoded_strings(bytes@),
{
    let mut strings: Vec<String> = Vec::new();
    let mut start: usize = 0;
    let n = bytes.len();
    assert(bytes@.skip(0) =~= bytes@);
    assert(strings_view(strings@) =~= Seq::<Seq<char>>::empty());
    assert(strings_view(strings@) + decoded_strings(bytes@) =~= decoded_strings(bytes@));
    loop
        invariant
            n == bytes@.len(),
            start < n,
            decoded_strings(bytes@) == strings_view(strings@) + decoded_strings(bytes@.skip(start as int)),
        decreases n - start,
    {
        let ghost rest = bytes@.skip(start as int);
        proof {
            lemma_first_nul(rest);
        }
        let mut nul_pos: usize = 0;
        while start + nul_pos < n && bytes[start + nul_pos] != 0
            invariant
                n == bytes@.len(),
                start < n,
                rest == bytes@.skip(start as int),
                start + nul_pos <= n,
                forall|j: int| 0 <= j < nul_pos ==> rest[j] != 0,
            decreases n - start - nul_pos,
        {
            nul_pos = nul_pos + 1;
        }
        assert(nul_pos == first_nul(rest)) by {
            if nul_pos < first_nul(rest) {
                assert(rest[nul_pos as int] == bytes@[start + nul_pos]);
            }
            if first_nul(rest) < nul_pos {
                assert(rest[first_nul(rest)] == 0);
            }
        }
        let mut piece: Vec<u8> = Vec::new();
        let mut j: usize = 0;
        while j < nul_pos
            invariant
                n == bytes@.len(),
                start + nul_pos <= n,
                j <= nul_pos,
                piece@ == bytes@.subrange(start as int, start + j),
            decreases nul_pos - j,
        {
            piece.push(bytes[start + j]);
            j = j + 1;
            assert(piece@ =~= bytes@.subrange(start as int, start + j));
        }
        assert(piece@ =~= rest.take(nul_pos as int));
        let ghost before = strings_view(strings@);
        match string_from_utf8(piece.as_slice()) {
            Some(s) => {
                strings.push(s);
                assert(strings_view(strings@) =~= before.push(decode_utf8(piece@)));
            },
            None => {},
        }
        if start + nul_pos >= n - 1 {
            assert(strings_view(strings@) + Seq::<Seq<char>>::empty() =~= strings_view(strings@));
            return strings;
        }
        assert(rest.skip(nul_pos + 1) =~= bytes@.skip(start + nul_pos + 1));
        start = start + nul_pos + 1;
    }
}

/// The focused window given by the strings of its class and name properties: the class is all
/// of its strings, the name the first of its strings; no window when there is no name.
pub fn window_from_properties(window_class: Vec<String>, window_name: &Vec<String>) -> (r: Option<FocusedWindow>)
    ensures
        match r {
            Some(w) => window_name@.len() > 0 && w.window_class == window_class && w.window_name@
                == window_name@[0]@ && w.executable_path is None && w.executable_basename is None,
            None => window_name@.len() == 0,
        },
{
    if window_name.len() == 0 {
        return None;
    }
    Some(
        FocusedWindow {
            window_class,
            window_name: window_name[0].clone(),
            executable_path: None,
            executable_basename: None,
        },
    )
}

/// The strings of a window property as the X server returned it: none when the request failed
/// or the items are not bytes; otherwise the decoded nul-separated strings.
pub fn property_strings(request_succeeded: bool, item_bits: i32, bytes: &[u8]) -> (r: Option<Vec<String>>)
    requires
        request_succeeded && item_bits == 8 ==> bytes@.len() > 0,
    ensures
        match r {
            Some(v) => request_succeeded && item_bits == 8 && strings_view(v@) == decoded_strings(bytes@),
            None => !(request_succeeded && item_bits == 8),
        },
{
    if !request_succeeded || item_bits != 8 {
        return None;
    }
    Some(decode_strings(bytes))
}

} // verus!
