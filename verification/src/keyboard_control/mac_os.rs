//! The AppleScript commands that press key sequences on macOS.
use vstd::prelude::*;
use vstd::string::StringExecFns;
use crate::keyboard_control::KeyboardControlError;
use crate::text::{
    decimal,
    int_to_string,
    lowercase_of,
    push_str_chars,
    split_char,
    split_on_char,
    str_chars,
    str_eq,
    string_from_chars,
    to_lowercase,
    trim,
    trim_vec,
    char_vecs_view,
};

verus! {

/// Whether a one-character key is typed with `keystroke` and the character in quotes: a letter
/// other than `k`, a digit, or one of the listed symbols.
pub open spec fn is_quoted_key_char(c: char) -> bool {
    (('a' <= c && c <= 'j') || ('l' <= c && c <= 'z') || ('0' <= c && c <= '9')) || c == '¬' || c == '`'
        || c == '!' || c == '"' || c == '£' || c == '$' || c == '%' || c == '^' || c == '&' || c == '*'
        || c == '(' || c == ')' || c == '-' || c == '_' || c == '+' || c == '=' || c == '[' || c == ']'
        || c == '{' || c == '}' || c == ':' || c == ';' || c == '@' || c == '\'' || c == '#' || c == '~'
        || c == '\\' || c == '|' || c == ',' || c == '.' || c == '<' || c == '>' || c == '/' || c == '?'
}

/// Whether `c` is typed with `keystroke` and the character in quotes.
fn quoted_key_char(c: char) -> (r: bool)
    ensures
        r == is_quoted_key_char(c),
{
    (('a' <= c && c <= 'j') || ('l' <= c && c <= 'z') || ('0' <= c && c <= '9')) || c == '¬' || c == '`'
        || c == '!' || c == '"' || c == '£' || c == '$' || c == '%' || c == '^' || c == '&' || c == '*'
        || c == '(' || c == ')' || c == '-' || c == '_' || c == '+' || c == '=' || c == '[' || c == ']'
        || c == '{' || c == '}' || c == ':' || c == ';' || c == '@' || c == '\'' || c == '#' || c == '~'
        || c == '\\' || c == '|' || c == ',' || c == '.' || c == '<' || c == '>' || c == '/' || c == '?'
}

/// A quoted key character as written inside AppleScript quotes.
pub open spec fn escaped_key(c: char) -> Seq<char> {
    if c == '"' {
        seq!['\\', '"']
    } else if c == '\\' {
        seq!['\\', '\\']
    } else {
        seq![c]
    }
}

/// The AppleScript key code of a named key, if it has one.
pub open spec fn mac_key_code(k: Seq<char>) -> Option<u32> {
    if k == "enter"@ { Some(76) }
    else if k == "return"@ { Some(36) }
    else if k == "esc"@ { Some(53) }
    else if k == "left"@ { Some(123) }
    else if k == "right"@ { Some(124) }
    else if k == "up"@ { Some(126) }
    else if k == "down"@ { Some(125) }
    else if k == "home"@ { Some(115) }
    else if k == "end"@ { Some(119) }
    else if k == "page_up"@ { Some(116) }
    else if k == "page_down"@ { Some(121) }
    else if k == "f1"@ { Some(122) }
    else if k == "f2"@ { Some(120) }
    else if k == "f3"@ { Some(99) }
    else if k == "f4"@ { Some(118) }
    else if k == "f5"@ { Some(96) }
    else if k == "f6"@ { Some(97) }
    else if k == "f7"@ { Some(98) }
    else if k == "f8"@ { Some(100) }
    else if k == "f9"@ { Some(101) }
    else if k == "f10"@ { Some(109) }
    else if k == "f11"@ { Some(103) }
    else if k == "f12"@ { Some(111) }
    else if k == "f13"@ { Some(105) }
    else if k == "f14"@ { Some(107) }
    else if k == "f15"@ { Some(113) }
    else if k == "f16"@ { Some(106) }
    else if k == "f17"@ { Some(64) }
    else if k == "f18"@ { Some(79) }
    else if k == "f19"@ { Some(80) }
    else if k == "f20"@ { Some(90) }
    else { None }
}

/// Looks up the AppleScript key code of a named key.
fn key_code(k: &str) -> (r: Option<u32>)
    ensures
        r == mac_key_code(k@),
{
    if str_eq(k, "enter") { Some(76) }
    else if str_eq(k, "return") { Some(36) }
    else if str_eq(k, "esc") { Some(53) }
    else if str_eq(k, "left") { Some(123) }
    else if str_eq(k, "right") { Some(124) }
    else if str_eq(k, "up") { Some(126) }
    else if str_eq(k, "down") { Some(125) }
    else if str_eq(k, "home") { Some(115) }
    else if str_eq(k, "end") { Some(119) }
    else if str_eq(k, "page_up") { Some(116) }
    else if str_eq(k, "page_down") { Some(121) }
    else if str_eq(k, "f1") { Some(122) }
    else if str_eq(k, "f2") { Some(120) }
    else if str_eq(k, "f3") { Some(99) }
    else if str_eq(k, "f4") { Some(118) }
    else if str_eq(k, "f5") { Some(96) }
    else if str_eq(k, "f6") { Some(97) }
    else if str_eq(k, "f7") { Some(98) }
    else if str_eq(k, "f8") { Some(100) }
    else if str_eq(k, "f9") { Some(101) }
    else if str_eq(k, "f10") { Some(109) }
    else if str_eq(k, "f11") { Some(103) }
    else if str_eq(k, "f12") { Some(111) }
    else if str_eq(k, "f13") { Some(105) }
    else if str_eq(k, "f14") { Some(107) }
    else if str_eq(k, "f15") { Some(113) }
    else if str_eq(k, "f16") { Some(106) }
    else if str_eq(k, "f17") { Some(64) }
    else if str_eq(k, "f18") { Some(79) }
    else if str_eq(k, "f19") { Some(80) }
    else if str_eq(k, "f20") { Some(90) }
    else { None }
}

/// Whether a named key is typed with `keystroke` and its name unquoted.
pub open spec fn is_other_key(k: Seq<char>) -> bool {
    k == "control"@ || k == "option"@ || k == "shift"@ || k == "command"@ || k == "tab"@ || k == "space"@
}

/// The AppleScript command that presses a key, given in any case: `keystroke` with the quoted
/// character for a character key, `key code` with the code for a named key that has one,
/// `keystroke` with the name for the other named keys. Otherwise the lowercased key is invalid.
pub open spec fn main_key_command(key: Seq<char>) -> Result<Seq<char>, Seq<char>> {
    let lk = lowercase_of(key);
    if lk.len() == 1 && is_quoted_key_char(lk[0]) {
        Ok("keystroke \""@ + escaped_key(lk[0]) + "\""@)
    } else {
        match mac_key_code(lk) {
            Some(code) => Ok("key code "@ + decimal(code as int)),
            None => if is_other_key(lk) {
                Ok("keystroke "@ + lk)
            } else {
                Err(lk)
            },
        }
    }
}

/// Builds the AppleScript command that presses one key.
pub fn build_main_key_subcommand(key: &str) -> (r: Result<String, KeyboardControlError>)
    ensures
        match main_key_command(key@) {
            Ok(cmd) => r matches Ok(s) && s@ == cmd,
            Err(k) => r matches Err(KeyboardControlError::InvalidKey(s)) && s@ == k,
        },
{
    let key = to_lowercase(key);
    let chars = str_chars(key.as_str());
    if chars.len() == 1 && quoted_key_char(chars[0]) {
        let c = chars[0];
        let mut out: Vec<char> = Vec::new();
        push_str_chars(&mut out, "keystroke \"");
        if c == '"' {
            out.push('\\');
            out.push('"');
        } else if c == '\\' {
            out.push('\\');
            out.push('\\');
        } else {
            out.push(c);
        }
        push_str_chars(&mut out, "\"");
        proof {
            let prefix = "keystroke \""@;
            assert(out@ =~= prefix + escaped_key(c) + "\""@);
        }
        return Ok(string_from_chars(out.as_slice()));
    }
    match key_code(key.as_str()) {
        Some(code) => {
            let mut out: Vec<char> = Vec::new();
            push_str_chars(&mut out, "key code ");
            push_str_chars(&mut out, int_to_string(code as i64).as_str());
            Ok(string_from_chars(out.as_slice()))
        },
        None => {
            let k = key.as_str();
            if str_eq(k, "control") || str_eq(k, "option") || str_eq(k, "shift") || str_eq(k, "command")
                || str_eq(k, "tab") || str_eq(k, "space") {
                let mut out: Vec<char> = Vec::new();
                push_str_chars(&mut out, "keystroke ");
                push_str_chars(&mut out, k);
                Ok(string_from_chars(out.as_slice()))
            } else {
                Err(KeyboardControlError::InvalidKey(key))
            }
        },
    }
}

/// The held keys of a key combination, last first, each followed by ` down`, separated by
/// `, `.
pub open spec fn held_keys(ks: Seq<Seq<char>>) -> Seq<char>
    decreases ks.len(),
{
    if ks.len() == 0 {
        Seq::empty()
    } else if ks.len() == 1 {
        ks[0] + " down"@
    } else {
        ks.last() + " down, "@ + held_keys(ks.drop_last())
    }
}

/// Why building a key combination command failed.
pub enum SequenceScriptError {
    /// No keys were given.
    NoKeys,
    /// The main key is not valid; the lowercased key.
    InvalidKey(Seq<char>),
}

/// The keys of a combination such as `ctrl+shift+t`: the pieces between `+` signs, without
/// surrounding whitespace.
pub open spec fn sequence_keys(s: Seq<char>) -> Seq<Seq<char>> {
    split_char(trim(s), '+').map_values(|k: Seq<char>| trim(k))
}

/// The AppleScript command that presses a key combination: the last key is pressed (see
/// `main_key_command`) using the others held down, in the forms `using a down` for one held key
/// and `using {b down, a down}` for more, last first.
pub open spec fn sequence_script(s: Seq<char>) -> Result<Seq<char>, SequenceScriptError> {
    let keys = sequence_keys(s);
    let n = keys.len();
    if trim(s).len() == 0 || n == 0 {
        Err(SequenceScriptError::NoKeys)
    } else {
        match main_key_command(keys[n - 1]) {
            Err(k) => Err(SequenceScriptError::InvalidKey(k)),
            Ok(main) => if n == 1 {
                Ok(main)
            } else if n == 2 {
                Ok(main + " using "@ + keys[0] + " down"@)
            } else {
                Ok(main + " using {"@ + held_keys(keys.take(n - 1)) + "}"@)
            },
        }
    }
}

/// Appends the held keys of `keys[..n]`, last first.
fn push_held_keys(out: &mut Vec<char>, keys: &Vec<Vec<char>>, n: usize)
    requires
        1 <= n <= keys@.len(),
    ensures
        final(out)@ == old(out)@ + held_keys(char_vecs_view(keys@).take(n as int)),
    decreases n,
{
    let ghost ks = char_vecs_view(keys@).take(n as int);
    let last = string_from_chars(keys[n - 1].as_slice());
    push_str_chars(out, last.as_str());
    if n == 1 {
        push_str_chars(out, " down");
        assert(ks.len() == 1);
        assert(ks[0] == keys@[0]@);
    } else {
        push_str_chars(out, " down, ");
        let ghost mid = out@;
        push_held_keys(out, keys, n - 1);
        assert(ks.drop_last() =~= char_vecs_view(keys@).take(n - 1));
        assert(ks.last() == keys@[n - 1]@);
        assert(out@ =~= old(out)@ + (ks.last() + " down, "@ + held_keys(ks.drop_last())));
    }
}

/// Builds the AppleScript command that presses a key combination such as `ctrl+shift+t`.
pub fn build_sequence_script(str_sequence: &str) -> (r: Result<String, KeyboardControlError>)
    ensures
        match sequence_script(str_sequence@) {
            Ok(cmd) => r matches Ok(s) && s@ == cmd,
            Err(SequenceScriptError::NoKeys) => r matches Err(KeyboardControlError::Other(m)) && m@
                == "No keys specified"@,
            Err(SequenceScriptError::InvalidKey(k)) => r matches Err(KeyboardControlError::InvalidKey(s))
                && s@ == k,
        },
{
    let trimmed = crate::text::trim_chars(str_sequence);
    if trimmed.len() == 0 {
        return Err(KeyboardControlError::Other(String::from_str("No keys specified")));
    }
    let pieces = split_on_char(&trimmed, '+');
    let mut keys: Vec<Vec<char>> = Vec::new();
    let mut i: usize = 0;
    while i < pieces.len()
        invariant
            i <= pieces@.len(),
            char_vecs_view(pieces@) == split_char(trimmed@, '+'),
            keys@.len() == i,
            forall|j: int| 0 <= j < i ==> (#[trigger] keys@[j])@ == trim(pieces@[j]@),
        decreases pieces.len() - i,
    {
        keys.push(trim_vec(&pieces[i]));
        i = i + 1;
    }
    let ghost spec_keys = sequence_keys(str_sequence@);
    assert(char_vecs_view(keys@) =~= spec_keys) by {
        assert(char_vecs_view(pieces@).len() == pieces@.len());
        assert forall|j: int| 0 <= j < keys@.len() implies char_vecs_view(keys@)[j] == spec_keys[j] by {
            assert(char_vecs_view(pieces@)[j] == pieces@[j]@);
        }
    }
    let n = keys.len();
    if n == 0 {
        return Err(KeyboardControlError::Other(String::from_str("No keys specified")));
    }
    let last = string_from_chars(keys[n - 1].as_slice());
    assert(last@ == spec_keys[n - 1]);
    let main = match build_main_key_subcommand(last.as_str()) {
        Ok(m) => m,
        Err(e) => return Err(e),
    };
    if n == 1 {
        return Ok(main);
    }
    let mut out: Vec<char> = str_chars(main.as_str());
    if n == 2 {
        push_str_chars(&mut out, " using ");
        let first = string_from_chars(keys[0].as_slice());
        assert(first@ == spec_keys[0]);
        push_str_chars(&mut out, first.as_str());
        push_str_chars(&mut out, " down");
    } else {
        push_str_chars(&mut out, " using {");
        push_held_keys(&mut out, &keys, n - 1);
        push_str_chars(&mut out, "}");
    }
    Ok(string_from_chars(out.as_slice()))
}


/// Keys are read without regard to case: keys that lowercase alike give the same command.
pub proof fn law_main_key_ignores_case(a: Seq<char>, b: Seq<char>)
    requires
        lowercase_of(a) == lowercase_of(b),
    ensures
        main_key_command(a) == main_key_command(b),
{
}

/// Named keys press distinct physical keys: no two key names share a macOS key code.
pub proof fn law_named_keys_have_distinct_codes(a: Seq<char>, b: Seq<char>)
    requires
        mac_key_code(a) is Some,
        mac_key_code(a) == mac_key_code(b),
    ensures
        a == b,
{
}

/// The arrow keys press the macOS arrow keys (`kVK_LeftArrow` 123, `kVK_RightArrow` 124,
/// `kVK_DownArrow` 125, `kVK_UpArrow` 126), and `return` and `esc` the return (36) and escape
/// (53) keys; a named key's command presses its key code.
pub proof fn law_arrow_keys_press_arrow_codes(k: Seq<char>)
    ensures
        mac_key_code("left"@) == Some(123u32),
        mac_key_code("right"@) == Some(124u32),
        mac_key_code("down"@) == Some(125u32),
        mac_key_code("up"@) == Some(126u32),
        mac_key_code("return"@) == Some(36u32),
        mac_key_code("esc"@) == Some(53u32),
        !(lowercase_of(k).len() == 1 && is_quoted_key_char(lowercase_of(k)[0])) ==> (mac_key_code(lowercase_of(k))
            matches Some(c) ==> main_key_command(k) == Ok::<Seq<char>, Seq<char>>("key code "@ + decimal(c as int))),
{
    reveal_strlit("enter");
    reveal_strlit("return");
    reveal_strlit("esc");
    reveal_strlit("left");
    reveal_strlit("right");
    reveal_strlit("up");
    reveal_strlit("down");
    assert("return"@.len() != "enter"@.len());
    assert("esc"@.len() != "enter"@.len());
    assert("esc"@.len() != "return"@.len());
    assert("left"@.len() != "enter"@.len());
    assert("left"@.len() != "return"@.len());
    assert("left"@.len() != "esc"@.len());
    assert("right"@[0] != "enter"@[0]);
    assert("right"@.len() != "return"@.len());
    assert("right"@.len() != "esc"@.len());
    assert("right"@.len() != "left"@.len());
    assert("up"@.len() != "enter"@.len());
    assert("up"@.len() != "return"@.len());
    assert("up"@.len() != "esc"@.len());
    assert("up"@.len() != "left"@.len());
    assert("up"@.len() != "right"@.len());
    assert("down"@.len() != "enter"@.len());
    assert("down"@.len() != "return"@.len());
    assert("down"@.len() != "esc"@.len());
    assert("down"@[0] != "left"@[0]);
    assert("down"@.len() != "right"@.len());
    assert("down"@.len() != "up"@.len());
}

/// A key combination presses its last key while holding the others: with two keys the first is
/// held (`using a down`); with three the first two are held, listed last first
/// (`using {b down, a down}`).
pub proof fn law_combination_holds_the_other_keys(s: Seq<char>, a: Seq<char>, b: Seq<char>, c: Seq<char>)
    requires
        trim(s).len() > 0,
    ensures
        sequence_keys(s) == seq![a, b] ==> sequence_script(s) == match main_key_command(b) {
            Ok(m) => Ok(m + " using "@ + a + " down"@),
            Err(k) => Err(SequenceScriptError::InvalidKey(k)),
        },
        sequence_keys(s) == seq![a, b, c] ==> sequence_script(s) == match main_key_command(c) {
            Ok(m) => Ok(m + " using {"@ + b + " down, "@ + a + " down"@ + "}"@),
            Err(k) => Err(SequenceScriptError::InvalidKey(k)),
        },
{
    if sequence_keys(s) == seq![a, b, c] {
        let ks = seq![a, b, c].take(2);
        assert(ks =~= seq![a, b]);
        assert(ks.drop_last() =~= seq![a]);
        assert(held_keys(ks.drop_last()) == a + " down"@);
        assert(held_keys(ks) == b + " down, "@ + (a + " down"@));
        match main_key_command(c) {
            Ok(m) => {
                assert(m + " using {"@ + held_keys(ks) + "}"@ =~= m + " using {"@ + b + " down, "@ + a + " down"@ + "}"@);
            },
            Err(_) => {},
        }
    }
}

} // verus!
