//! Configuration: errors, version processors, and the builders of version 1 of the format.
use vstd::prelude::*;
use vstd::string::StringExecFns;

pub mod actions;
pub mod event_matchers;
pub mod macros;
pub mod precondition;
pub mod primitive_matchers;
pub mod scope;

verus! {

/// Location in a configuration file.
#[derive(Debug, Clone, Copy, PartialEq, Eq, Structural)]
pub struct Loc {
    pub line: usize,
    pub col: usize,
}

/// Errors in reading a configuration.
#[derive(Debug, PartialEq)]
pub enum ConfigError {
    /// The file could not be read in its format (such as YAML), with a description and where.
    FormatError(String, Loc),
    /// The content does not describe a valid configuration.
    InvalidConfig(String),
}

/// Builds an error message from two parts.
pub fn message(a: &str, b: &str) -> (r: String)
    ensures
        r@ == a@ + b@,
{
    let mut s = String::from_str(a);
    s.append(b);
    s
}

/// Builds an error message from three parts.
pub fn message3(a: &str, b: &str, c: &str) -> (r: String)
    ensures
        r@ == a@ + b@ + c@,
{
    let mut s = message(a, b);
    s.append(c);
    s
}

/// The error of the first of two steps that fails, when one does.
pub open spec fn first_error(a: Option<Seq<char>>, b: Option<Seq<char>>) -> Option<Seq<char>> {
    if a is Some {
        a
    } else {
        b
    }
}


/// The processor of version 1 of the configuration format, whose builders are in `actions`,
/// `event_matchers`, `precondition`, `scope` and `macros`.
#[derive(Debug, PartialEq)]
pub struct Version1Processor {}

impl Version1Processor {
    /// Creates the processor.
    pub fn new() -> (r: Version1Processor)
        ensures
            r == (Version1Processor {}),
    {
        Version1Processor {}
    }
}

/// The processor of a configuration format version: version 1 has one, other versions none.
pub fn get_processor(version: i64) -> (r: Option<Version1Processor>)
    ensures
        r is Some <==> version == 1,
        r is Some ==> r == Some(Version1Processor {}),
{
    if version == 1 {
        Some(Version1Processor::new())
    } else {
        None
    }
}

/// The reader of configuration text written in YAML.
#[derive(Debug, PartialEq)]
pub struct YamlConfigInput {}

impl YamlConfigInput {
    /// Creates the reader.
    pub fn new() -> (r: YamlConfigInput)
        ensures
            r == (YamlConfigInput {}),
    {
        YamlConfigInput {}
    }
}

} // verus!
