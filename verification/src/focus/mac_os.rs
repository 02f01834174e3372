//! The focused window as the macOS window information script reports it.
use vstd::prelude::*;
use vstd::utf8::{valid_utf8, decode_utf8};
use crate::actions::strings_view;
use crate::focus::FocusedWindow;
use crate::text::{char_vecs_view, split_char, split_on_char, str_chars, string_from_chars, string_from_utf8, trim, trim_vec};

verus! {

/// The file name that `std::path::Path::file_name` gives for the path with the characters `p`.
pub uninterp spec fn path_file_name(p: Seq<char>) -> Option<Seq<char>>;

/// Calls `std::path::Path::file_name` on `path` and turns the name back into a string with
/// `OsStr::to_str` (which succeeds on what came from a string). Claimed: the result is a
/// function of the characters of `path` alone, named `path_file_name`.
#[verifier::external_body]
fn file_name_of(path: &str) -> (r: Option<String>)
    ensures
        match r {
            Some(s) => path_file_name(path@) == Some(s@),
            None => path_file_name(path@) is None,
        },
{
    std::path::Path::new(path).file_name().and_then(|f| f.to_str()).map(|f| f.to_string())
}

/// The lines of the script output: the text without surrounding whitespace, split at line
/// breaks; nothing when the output is not valid UTF-8.
pub open spec fn script_lines(output: Seq<u8>) -> Option<Seq<Seq<char>>> {
    if valid_utf8(output) {
        Some(split_char(trim(decode_utf8(output)), '\n'))
    } else {
        None
    }
}

/// Builds the focused window from the output of the window information script: four lines
/// giving the application's displayed name and name (the window class), the window title and
/// the executable's path (whose file name is the executable's base name). Any other output
/// gives no window.
pub fn window_from_script_output(output: &[u8]) -> (r: Option<FocusedWindow>)
    ensures
        match script_lines(output@) {
            Some(lines) => if lines.len() == 4 {
                r matches Some(w) && strings_view(w.window_class@) == seq![lines[0], lines[1]]
                    && w.window_name@ == lines[2] && (w.executable_path matches Some(p) && p@ == lines[3])
                    && (match w.executable_basename {
                    Some(b) => path_file_name(lines[3]) == Some(b@),
                    None => path_file_name(lines[3]) is None,
                })
            } else {
                r is None
            },
            None => r is None,
        },
{
    let text = match string_from_utf8(output) {
        Some(t) => t,
        None => return None,
    };
    let chars = str_chars(text.as_str());
    let trimmed = trim_vec(&chars);
    let lines = split_on_char(&trimmed, '\n');
    if lines.len() != 4 {
        return None;
    }
    proof {
        assert(char_vecs_view(lines@)[0] == lines@[0]@);
        assert(char_vecs_view(lines@)[1] == lines@[1]@);
        assert(char_vecs_view(lines@)[2] == lines@[2]@);
        assert(char_vecs_view(lines@)[3] == lines@[3]@);
    }
    let executable_path = string_from_chars(lines[3].as_slice());
    let executable_basename = file_name_of(executable_path.as_str());
    let mut window_class: Vec<String> = Vec::new();
    window_class.push(string_from_chars(lines[0].as_slice()));
    window_class.push(string_from_chars(lines[1].as_slice()));
    let ghost lv = char_vecs_view(lines@);
    assert(strings_view(window_class@) =~= seq![lv[0], lv[1]]);
    Some(
        FocusedWindow {
            window_class,
            window_name: string_from_chars(lines[2].as_slice()),
            executable_path: Some(executable_path),
            executable_basename,
        },
    )
}

} // verus!
