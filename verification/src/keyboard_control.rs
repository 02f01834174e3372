//! Keyboard control: the errors of sending keys, and what the platforms make of key sequences.
use vstd::prelude::*;
use crate::text::{push_str_chars, string_from_chars};

pub mod mac_os;
pub mod windows;

verus! {

/// Errors that may occur when sending keys.
#[derive(Debug, PartialEq)]
pub enum KeyboardControlError {
    /// An unknown, unsupported or invalid key, as given.
    InvalidKey(String),
    /// Any other error, with a description.
    Other(String),
}

impl KeyboardControlError {
    /// The error as text.
    pub fn to_display_string(&self) -> (r: String)
        ensures
            r@ == match self {
                KeyboardControlError::InvalidKey(s) => "Keyboard Control Error: Invalid key '"@ + s@ + "'"@,
                KeyboardControlError::Other(d) => "Keyboard Control Error: "@ + d@,
            },
    {
        let mut out: Vec<char> = Vec::new();
        match self {
            KeyboardControlError::InvalidKey(s) => {
                push_str_chars(&mut out, "Keyboard Control Error: Invalid key '");
                push_str_chars(&mut out, s.as_str());
                push_str_chars(&mut out, "'");
            },
            KeyboardControlError::Other(d) => {
                push_str_chars(&mut out, "Keyboard Control Error: ");
                push_str_chars(&mut out, d.as_str());
            },
        }
        string_from_chars(out.as_slice())
    }
}

} // verus!
