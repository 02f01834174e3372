//! A stricter reader of variable notation, kept alongside `expressions`: it allows no spaces
//! around names, indexes or dots, and reads function arguments in one pass.
use vstd::prelude::*;
use vstd::string::StringExecFns;
pub use crate::expressions::{Token, TokenKind};
use crate::expressions::{
    KindModel,
    TokenModel,
    ParserState,
    spec_is_space,
    is_name_char,
    is_digit,
    digits_value,
    strings_model,
    tokens_model,
    digits_to_usize,
    usize_parse_failure,
    usize_parse_failure_text,
    law_digits_value_reads_decimal,
};
use crate::text::{decimal, decimal_digits, trim, trim_chars, string_from_chars, push_str_chars, push_decimal_usize};

verus! {

/// An error in variable notation.
#[derive(Debug)]
pub enum VariableError {
    /// The notation could not be parsed; the message says where and why.
    Parser(String),
    /// Any other problem.
    Other(String),
}

/// What one reading step gave: a finished token, the pending name after it, the next state and
/// how many characters were read; or an error.
pub enum VStep {
    Done { token: Option<TokenModel>, name: Seq<char>, state: ParserState, read: int },
    Fail(VFault),
}

/// The parts of an error message: `lead`, then, when `at` is given, the location of the problem
/// (the position of the step plus `at`) in decimal, `mid`, the notation, and `trail`.
pub struct VFault {
    pub lead: Seq<char>,
    pub at: Option<int>,
    pub mid: Seq<char>,
    pub trail: Seq<char>,
}

/// The message of `f` for a step at position `index` of the notation `var`.
pub open spec fn fault_text(f: VFault, index: int, var: Seq<char>) -> Seq<char> {
    f.lead + match f.at {
        Some(p) => decimal(index + p),
        None => Seq::empty(),
    } + f.mid + var + f.trail
}

/// A fault whose message ends with the notation.
pub open spec fn plain_fault(lead: Seq<char>) -> VFault {
    VFault { lead, at: None, mid: ""@, trail: ""@ }
}

/// A fault located at `at` in the notation.
pub open spec fn located_fault(lead: Seq<char>, at: int, mid: Seq<char>) -> VFault {
    VFault { lead, at: Some(at), mid, trail: ""@ }
}

/// The fault of an unexpected character `c` at `at`.
pub open spec fn invalid_char_fault(c: char, at: int) -> VFault {
    located_fault("Invalid character '"@ + seq![c] + "' at location "@, at, " in variable notation:\n"@)
}

/// Reading a name from position `i` of `s`, with the pending name: name characters extend it,
/// `.` finishes a namespace token, `[` and `(` start an index or arguments, the end finishes a
/// leaf (an error for an empty name); anything else is an error.
pub open spec fn vname_scan(s: Seq<char>, i: int, name: Seq<char>) -> VStep
    decreases s.len() - i,
{
    if i < 0 || i >= s.len() {
        if name.len() == 0 {
            VStep::Fail(plain_fault("Unexpected end of variable notation string; expecting a name. Variable notation:\n"@))
        } else {
            VStep::Done {
                token: Some(TokenModel { name, kind: KindModel::Leaf }),
                name,
                state: ParserState::End,
                read: s.len() as int,
            }
        }
    } else {
        let c = s[i];
        if is_name_char(c) {
            vname_scan(s, i + 1, name.push(c))
        } else if c == '.' {
            VStep::Done {
                token: Some(TokenModel { name, kind: KindModel::Namespace }),
                name: Seq::empty(),
                state: ParserState::Name,
                read: i + 1,
            }
        } else if c == '[' {
            VStep::Done { token: None, name, state: ParserState::Array, read: i + 1 }
        } else if c == '(' {
            VStep::Done { token: None, name, state: ParserState::FunctionCall, read: i + 1 }
        } else {
            VStep::Fail(invalid_char_fault(c, i))
        }
    }
}

/// Reading an array index from position `i` of `s`, with the digits so far: digits extend the
/// index, `]` finishes an index token of the pending name (an empty index or one too large for a
/// `usize` is an error); anything else, or the end, is an error.
pub open spec fn varray_scan(s: Seq<char>, i: int, digits: Seq<char>, name: Seq<char>) -> VStep
    decreases s.len() - i,
{
    if i < 0 || i >= s.len() {
        VStep::Fail(
            plain_fault(
                "Unexpected end of variable notation string; expecting decimal digits or ']'. Variable notation:\n"@,
            ),
        )
    } else {
        let c = s[i];
        if is_digit(c) {
            varray_scan(s, i + 1, digits.push(c), name)
        } else if c == ']' {
            if digits.len() == 0 {
                VStep::Fail(located_fault("Missing array index at location "@, i, " in variable notation:\n"@))
            } else if digits_value(digits) <= usize::MAX {
                VStep::Done {
                    token: Some(TokenModel { name, kind: KindModel::ArrayIndex(digits_value(digits) as usize) }),
                    name: Seq::empty(),
                    state: ParserState::AfterToken,
                    read: i + 1,
                }
            } else {
                VStep::Fail(
                    located_fault(
                        "Failed to parse array index '"@ + digits + "': "@ + usize_parse_failure(digits)
                            + ". Found at location "@,
                        i - 1,
                        " in variable notation:\n"@,
                    ),
                )
            }
        } else {
            VStep::Fail(invalid_char_fault(c, i))
        }
    }
}

/// Reading function arguments from position `i` of `s`, with the pending name and the reading
/// state: whether a backslash escapes the next character, whether a quoted argument is open,
/// the argument so far, whether a `,` or `)` must come next, and the arguments so far.
///
/// After a quoted argument only spaces, `,` or `)` may come. A `"` opens a quoted argument (an
/// error inside a bare argument) and closes it; inside quotes a backslash escapes the next
/// character (an escaped character other than `"` and backslash loses its backslash), and `,`,
/// `)` and spaces are part of the argument. Outside quotes, `,` ends a non-empty argument (an
/// error otherwise), `)` ends the arguments and finishes a function call token, spaces are
/// dropped, and any other character (backslash included) extends the argument. The end is an
/// error.
pub open spec fn vcall_scan(
    s: Seq<char>,
    i: int,
    name: Seq<char>,
    escaping: bool,
    in_quotes: bool,
    arg: Seq<char>,
    expect_comma_or_paren: bool,
    args: Seq<Seq<char>>,
) -> VStep
    decreases s.len() - i,
{
    if i < 0 || i >= s.len() {
        VStep::Fail(
            plain_fault(
                "Unexpected end of variable notation string during function call syntax. Variable notation:\n"@,
            ),
        )
    } else {
        let c = s[i];
        if expect_comma_or_paren {
            if c == ',' {
                vcall_scan(s, i + 1, name, escaping, in_quotes, arg, false, args)
            } else if c == ')' {
                VStep::Done {
                    token: Some(TokenModel { name, kind: KindModel::FunctionCall(args) }),
                    name: Seq::empty(),
                    state: ParserState::AfterToken,
                    read: i + 1,
                }
            } else if spec_is_space(c) {
                vcall_scan(s, i + 1, name, escaping, in_quotes, arg, true, args)
            } else {
                VStep::Fail(
                    VFault {
                        lead: "Invalid character '"@ + seq![c] + "' at location "@,
                        at: Some(i),
                        mid: " in function args in variable notation:\n"@,
                        trail: "\nExpected whitespace, ',', or ')' at this point."@,
                    },
                )
            }
        } else if c == '"' {
            if in_quotes {
                if escaping {
                    vcall_scan(s, i + 1, name, false, true, arg.push(c), false, args)
                } else {
                    vcall_scan(s, i + 1, name, false, false, Seq::empty(), true, args.push(arg))
                }
            } else if arg.len() > 0 {
                VStep::Fail(
                    located_fault(
                        "Unexpected '\"' quote character mid-argument at location "@,
                        i,
                        " in function args in variable notation:\n"@,
                    ),
                )
            } else {
                vcall_scan(s, i + 1, name, false, true, arg, false, args)
            }
        } else if c == '\\' {
            if in_quotes {
                if escaping {
                    vcall_scan(s, i + 1, name, false, true, arg.push(c), false, args)
                } else {
                    vcall_scan(s, i + 1, name, true, true, arg, false, args)
                }
            } else {
                vcall_scan(s, i + 1, name, escaping, false, arg.push(c), false, args)
            }
        } else if c == ',' {
            if arg.len() == 0 && !in_quotes {
                VStep::Fail(
                    located_fault("Unexpected ',' at location "@, i, " in function function args in variable notation:\n"@),
                )
            } else if in_quotes {
                vcall_scan(s, i + 1, name, false, true, arg.push(c), false, args)
            } else {
                vcall_scan(s, i + 1, name, false, false, Seq::empty(), false, args.push(arg))
            }
        } else if c == ')' {
            if !in_quotes {
                VStep::Done {
                    token: Some(
                        TokenModel {
                            name,
                            kind: KindModel::FunctionCall(
                                if arg.len() > 0 {
                                    args.push(arg)
                                } else {
                                    args
                                },
                            ),
                        },
                    ),
                    name: Seq::empty(),
                    state: ParserState::AfterToken,
                    read: i + 1,
                }
            } else {
                vcall_scan(s, i + 1, name, false, true, arg.push(c), false, args)
            }
        } else if spec_is_space(c) {
            vcall_scan(
                s,
                i + 1,
                name,
                false,
                in_quotes,
                if in_quotes {
                    arg.push(c)
                } else {
                    arg
                },
                false,
                args,
            )
        } else {
            vcall_scan(s, i + 1, name, false, in_quotes, arg.push(c), false, args)
        }
    }
}

/// Reading after a token: a `.` leads to a name, the end ends the notation; anything else is an
/// error.
pub open spec fn vafter_scan(s: Seq<char>, name: Seq<char>) -> VStep {
    if s.len() == 0 {
        VStep::Done { token: None, name, state: ParserState::End, read: 0 }
    } else if s[0] == '.' {
        VStep::Done { token: None, name, state: ParserState::Name, read: 1 }
    } else {
        VStep::Fail(
            located_fault("Invalid character '"@ + seq![s[0]] + "' (expected '.') at location "@, 0, " in variable notation:\n"@),
        )
    }
}

/// One reading step in `state` on the rest `s` of the notation, with the pending name.
pub open spec fn vstep(state: ParserState, s: Seq<char>, name: Seq<char>) -> VStep {
    match state {
        ParserState::Name => vname_scan(s, 0, name),
        ParserState::Array => varray_scan(s, 0, Seq::empty(), name),
        ParserState::FunctionCall => vcall_scan(s, 0, name, false, false, Seq::empty(), false, Seq::empty()),
        ParserState::AfterToken => vafter_scan(s, name),
        ParserState::End => VStep::Fail(plain_fault(""@)),
    }
}

pub proof fn lemma_vname_scan(s: Seq<char>, i: int, name: Seq<char>)
    requires
        0 <= i <= s.len(),
    ensures
        vname_scan(s, i, name) matches VStep::Done { state, read, .. } ==> read <= s.len() && (state
            != ParserState::End ==> i + 1 <= read) && (state == ParserState::End ==> read == s.len()),
    decreases s.len() - i,
{
    if i < s.len() && is_name_char(s[i]) {
        lemma_vname_scan(s, i + 1, name.push(s[i]));
    }
}

pub proof fn lemma_varray_scan(s: Seq<char>, i: int, digits: Seq<char>, name: Seq<char>)
    requires
        0 <= i <= s.len(),
    ensures
        varray_scan(s, i, digits, name) matches VStep::Done { read, .. } ==> i + 1 <= read <= s.len(),
    decreases s.len() - i,
{
    if i < s.len() && is_digit(s[i]) {
        lemma_varray_scan(s, i + 1, digits.push(s[i]), name);
    }
}

pub proof fn lemma_vcall_scan(
    s: Seq<char>,
    i: int,
    name: Seq<char>,
    escaping: bool,
    in_quotes: bool,
    arg: Seq<char>,
    expect_comma_or_paren: bool,
    args: Seq<Seq<char>>,
)
    requires
        0 <= i <= s.len(),
    ensures
        vcall_scan(s, i, name, escaping, in_quotes, arg, expect_comma_or_paren, args) matches VStep::Done {
            read,
            ..
        } ==> i + 1 <= read <= s.len(),
    decreases s.len() - i,
{
    if i < s.len() {
        let c = s[i];
        if expect_comma_or_paren {
            if c == ',' {
                lemma_vcall_scan(s, i + 1, name, escaping, in_quotes, arg, false, args);
            } else if spec_is_space(c) {
                lemma_vcall_scan(s, i + 1, name, escaping, in_quotes, arg, true, args);
            }
        } else if c == '"' {
            if in_quotes {
                if escaping {
                    lemma_vcall_scan(s, i + 1, name, false, true, arg.push(c), false, args);
                } else {
                    lemma_vcall_scan(s, i + 1, name, false, false, Seq::empty(), true, args.push(arg));
                }
            } else if arg.len() == 0 {
                lemma_vcall_scan(s, i + 1, name, false, true, arg, false, args);
            }
        } else if c == '\\' {
            if in_quotes {
                if escaping {
                    lemma_vcall_scan(s, i + 1, name, false, true, arg.push(c), false, args);
                } else {
                    lemma_vcall_scan(s, i + 1, name, true, true, arg, false, args);
                }
            } else {
                lemma_vcall_scan(s, i + 1, name, escaping, false, arg.push(c), false, args);
            }
        } else if c == ',' {
            if in_quotes {
                lemma_vcall_scan(s, i + 1, name, false, true, arg.push(c), false, args);
            } else if arg.len() > 0 {
                lemma_vcall_scan(s, i + 1, name, false, false, Seq::empty(), false, args.push(arg));
            }
        } else if c == ')' {
            if in_quotes {
                lemma_vcall_scan(s, i + 1, name, false, true, arg.push(c), false, args);
            }
        } else if spec_is_space(c) {
            lemma_vcall_scan(
                s,
                i + 1,
                name,
                false,
                in_quotes,
                if in_quotes {
                    arg.push(c)
                } else {
                    arg
                },
                false,
                args,
            );
        } else {
            lemma_vcall_scan(s, i + 1, name, false, in_quotes, arg.push(c), false, args);
        }
    }
}

pub proof fn lemma_vstep(state: ParserState, s: Seq<char>, name: Seq<char>)
    ensures
        vstep(state, s, name) matches VStep::Done { state: next, read, .. } ==> 0 <= read <= s.len() && (next
            != ParserState::End ==> read >= 1),
{
    match state {
        ParserState::Name => lemma_vname_scan(s, 0, name),
        ParserState::Array => lemma_varray_scan(s, 0, Seq::empty(), name),
        ParserState::FunctionCall => lemma_vcall_scan(s, 0, name, false, false, Seq::empty(), false, Seq::empty()),
        _ => {},
    }
}

/// Parsing `s` from position `index` in `state`, with the pending name and the tokens so far,
/// until the end state. Gives the tokens, or the message of an error.
pub open spec fn vparse_from(
    s: Seq<char>,
    index: int,
    state: ParserState,
    name: Seq<char>,
    tokens: Seq<TokenModel>,
) -> Result<Seq<TokenModel>, Seq<char>>
    decreases s.len() - index, if state == ParserState::End { 0int } else { 1int },
{
    if state == ParserState::End || index < 0 || index > s.len() {
        Ok(tokens)
    } else {
        let rest = s.subrange(index, s.len() as int);
        match vstep(state, rest, name) {
            VStep::Fail(f) => Err(fault_text(f, index, s)),
            VStep::Done { token, name: name2, state: next, read } => {
                let tokens2 = match token {
                    Some(t) => tokens.push(t),
                    None => tokens,
                };
                if next == ParserState::End {
                    Ok(tokens2)
                } else {
                    proof {
                        lemma_vstep(state, rest, name);
                    }
                    vparse_from(s, index + read, next, name2, tokens2)
                }
            },
        }
    }
}

/// The tokens of variable notation `s` (without surrounding whitespace), or the message of an
/// error.
pub open spec fn spec_vparse(s: Seq<char>) -> Result<Seq<TokenModel>, Seq<char>> {
    let t = trim(s);
    if t.len() == 0 {
        Err("No valid characters found in variable name"@)
    } else {
        vparse_from(t, 0, ParserState::Name, Seq::empty(), Seq::empty())
    }
}

/// A parser of one notation string.
pub struct Parser {
    chars: Vec<char>,
    index: usize,
    nodes: Vec<Token>,
    current_name: Vec<char>,
    state: ParserState,
}

impl Parser {
    /// What parsing from the parser's current position gives.
    pub closed spec fn spec_outcome(self) -> Result<Seq<TokenModel>, Seq<char>> {
        if self.chars@.len() == 0 {
            Err("No valid characters found in variable name"@)
        } else {
            vparse_from(self.chars@, self.index as int, self.state, self.current_name@, tokens_model(self.nodes@))
        }
    }

    /// Creates a parser of `var_str` without its surrounding whitespace.
    pub fn new(var_str: &str) -> (r: Parser)
        ensures
            r.spec_outcome() == spec_vparse(var_str@),
    {
        let p = Parser {
            chars: trim_chars(var_str),
            index: 0,
            nodes: Vec::new(),
            current_name: Vec::new(),
            state: ParserState::Name,
        };
        assert(tokens_model(p.nodes@) =~= Seq::<TokenModel>::empty());
        assert(p.current_name@ =~= Seq::<char>::empty());
        p
    }
}


/// Whether `r`, `old` and `new` are what the reading step `st` describes: on success the
/// characters read, the token added, the pending name and the next state; otherwise a parser
/// error with the message of the fault.
spec fn step_is(old: Parser, new: Parser, r: Result<usize, VariableError>, st: VStep) -> bool {
    match st {
        VStep::Done { token, name, state, read } => {
            &&& r matches Ok(n) && n == read
            &&& new.chars == old.chars
            &&& new.index == old.index
            &&& new.state == state
            &&& new.current_name@ == name
            &&& tokens_model(new.nodes@) == match token {
                Some(t) => tokens_model(old.nodes@).push(t),
                None => tokens_model(old.nodes@),
            }
        },
        VStep::Fail(f) => r matches Err(VariableError::Parser(m)) && m@ == fault_text(
            f,
            old.index as int,
            old.chars@,
        ),
    }
}

/// The characters of `s`.
fn chars_of(s: &str) -> (r: Vec<char>)
    ensures
        r@ == s@,
{
    let mut v: Vec<char> = Vec::new();
    push_str_chars(&mut v, s);
    v
}

impl Parser {
    /// The message made of `lead`, the location `at` in decimal when there is one, `mid`, the
    /// notation and `trail`.
    fn fault_message(&self, lead: Vec<char>, at: Option<usize>, mid: &str, trail: &str) -> (r: String)
        ensures
            r@ == lead@ + match at {
                Some(p) => decimal(p as int),
                None => Seq::empty(),
            } + mid@ + self.chars@ + trail@,
    {
        let mut out = lead;
        match at {
            Some(p) => push_decimal_usize(p, &mut out),
            None => {},
        }
        push_str_chars(&mut out, mid);
        let mut rest = self.chars.clone();
        out.append(&mut rest);
        push_str_chars(&mut out, trail);
        string_from_chars(out.as_slice())
    }

    /// The message of the unexpected character `c` at `at`.
    fn invalid_char_message(&self, c: char, at: usize) -> (r: String)
        ensures
            r@ == "Invalid character '"@ + seq![c] + "' at location "@ + decimal(at as int)
                + " in variable notation:\n"@ + self.chars@ + ""@,
    {
        let mut lead = chars_of("Invalid character '");
        lead.push(c);
        push_str_chars(&mut lead, "' at location ");
        assert(lead@ =~= "Invalid character '"@ + seq![c] + "' at location "@);
        self.fault_message(lead, Some(at), " in variable notation:\n", "")
    }

    /// Adds a token of the pending name to the parsed tokens.
    fn push_token(&mut self, kind: TokenKind)
        ensures
            tokens_model(final(self).nodes@) == tokens_model(old(self).nodes@).push(
                TokenModel { name: old(self).current_name@, kind: kind.model() },
            ),
            final(self).chars == old(self).chars,
            final(self).index == old(self).index,
            final(self).state == old(self).state,
            final(self).current_name == old(self).current_name,
    {
        let ghost before = tokens_model(self.nodes@);
        let name = string_from_chars(self.current_name.as_slice());
        self.nodes.push(Token { name, kind });
        assert(tokens_model(self.nodes@) =~= before.push(self.nodes@.last().model()));
    }

    /// Reads name characters.
    #[verifier::loop_isolation(false)]
    fn read_name_chars(&mut self) -> (r: Result<usize, VariableError>)
        requires
            old(self).index <= old(self).chars@.len(),
        ensures
            step_is(
                *old(self),
                *final(self),
                r,
                vname_scan(
                    old(self).chars@.subrange(old(self).index as int, old(self).chars@.len() as int),
                    0,
                    old(self).current_name@,
                ),
            ),
    {
        let ghost s = self.chars@.subrange(self.index as int, self.chars@.len() as int);
        let ghost start_scan = vname_scan(s, 0, self.current_name@);
        let len = self.chars.len();
        let start = self.index;
        let n = len - start;
        let mut i: usize = 0;
        while i < n
            invariant
                self.chars == old(self).chars,
                self.index == old(self).index,
                self.state == old(self).state,
                self.nodes == old(self).nodes,
                len == self.chars@.len(),
                start == self.index,
                start + n == len,
                i <= n,
                s == self.chars@.subrange(start as int, len as int),
                start_scan == vname_scan(s, i as int, self.current_name@),
            decreases n - i,
        {
            let c = self.chars[start + i];
            assert(c == s[i as int]);
            if ('a' <= c && c <= 'z') || ('A' <= c && c <= 'Z') || ('0' <= c && c <= '9') || c == '_' {
                self.current_name.push(c);
            } else if c == '.' {
                self.push_token(TokenKind::Namespace);
                self.current_name = Vec::new();
                assert(self.current_name@ =~= Seq::<char>::empty());
                self.state = if self.index >= self.chars.len() {
                    ParserState::End
                } else {
                    ParserState::Name
                };
                return Ok(i + 1);
            } else if c == '[' {
                self.state = ParserState::Array;
                return Ok(i + 1);
            } else if c == '(' {
                self.state = ParserState::FunctionCall;
                return Ok(i + 1);
            } else {
                return Err(VariableError::Parser(self.invalid_char_message(c, start + i)));
            }
            i = i + 1;
        }
        self.state = ParserState::End;
        if self.current_name.len() == 0 {
            Err(VariableError::Parser(
                self.fault_message(
                    chars_of("Unexpected end of variable notation string; expecting a name. Variable notation:\n"),
                    None,
                    "",
                    "",
                ),
            ))
        } else {
            self.push_token(TokenKind::Leaf);
            Ok(n)
        }
    }

    /// Reads array index characters.
    #[verifier::loop_isolation(false)]
    fn read_array_chars(&mut self) -> (r: Result<usize, VariableError>)
        requires
            old(self).index <= old(self).chars@.len(),
        ensures
            step_is(
                *old(self),
                *final(self),
                r,
                varray_scan(
                    old(self).chars@.subrange(old(self).index as int, old(self).chars@.len() as int),
                    0,
                    Seq::empty(),
                    old(self).current_name@,
                ),
            ),
    {
        let ghost s = self.chars@.subrange(self.index as int, self.chars@.len() as int);
        let ghost start_scan = varray_scan(s, 0, Seq::empty(), self.current_name@);
        let len = self.chars.len();
        let start = self.index;
        let n = len - start;
        let mut digits: Vec<char> = Vec::new();
        let mut i: usize = 0;
        while i < n
            invariant
                *self == *old(self),
                len == self.chars@.len(),
                start == self.index,
                start + n == len,
                i <= n,
                s == self.chars@.subrange(start as int, len as int),
                forall|j: int| 0 <= j < digits@.len() ==> is_digit(#[trigger] digits@[j]),
                start_scan == varray_scan(s, i as int, digits@, self.current_name@),
            decreases n - i,
        {
            let c = self.chars[start + i];
            assert(c == s[i as int]);
            if '0' <= c && c <= '9' {
                digits.push(c);
            } else if c == ']' {
                if digits.len() == 0 {
                    return Err(
                        VariableError::Parser(
                            self.fault_message(
                                chars_of("Missing array index at location "),
                                Some(start + i),
                                " in variable notation:\n",
                                "",
                            ),
                        ),
                    );
                }
                match digits_to_usize(&digits) {
                    Some(v) => {
                        self.push_token(TokenKind::ArrayIndex(v));
                        self.current_name = Vec::new();
                        assert(self.current_name@ =~= Seq::<char>::empty());
                        self.state = ParserState::AfterToken;
                        return Ok(i + 1);
                    },
                    None => {
                        let d = string_from_chars(digits.as_slice());
                        let mut lead = chars_of("Failed to parse array index '");
                        push_str_chars(&mut lead, d.as_str());
                        push_str_chars(&mut lead, "': ");
                        push_str_chars(&mut lead, usize_parse_failure_text(d.as_str()).as_str());
                        push_str_chars(&mut lead, ". Found at location ");
                        return Err(
                            VariableError::Parser(
                                self.fault_message(lead, Some(start + i - 1), " in variable notation:\n", ""),
                            ),
                        );
                    },
                }
            } else {
                return Err(VariableError::Parser(self.invalid_char_message(c, start + i)));
            }
            i = i + 1;
        }
        Err(VariableError::Parser(
            self.fault_message(
                chars_of("Unexpected end of variable notation string; expecting decimal digits or ']'. Variable notation:\n"),
                None,
                "",
                "",
            ),
        ))
    }

    /// Reads what follows a token.
    fn read_after_token_chars(&mut self) -> (r: Result<usize, VariableError>)
        requires
            old(self).index <= old(self).chars@.len(),
        ensures
            step_is(
                *old(self),
                *final(self),
                r,
                vafter_scan(
                    old(self).chars@.subrange(old(self).index as int, old(self).chars@.len() as int),
                    old(self).current_name@,
                ),
            ),
    {
        if self.index < self.chars.len() {
            if self.chars[self.index] == '.' {
                self.state = ParserState::Name;
                Ok(1)
            } else {
                let mut lead = chars_of("Invalid character '");
                lead.push(self.chars[self.index]);
                push_str_chars(&mut lead, "' (expected '.') at location ");
                assert(lead@ =~= "Invalid character '"@ + seq![self.chars@[self.index as int]]
                    + "' (expected '.') at location "@);
                Err(VariableError::Parser(self.fault_message(lead, Some(self.index), " in variable notation:\n", "")))
            }
        } else {
            self.state = ParserState::End;
            Ok(0)
        }
    }
}


impl Parser {
    /// Reads function call arguments up to the closing `)`.
    #[verifier::loop_isolation(false)]
    fn read_function_call_chars(&mut self) -> (r: Result<usize, VariableError>)
        requires
            old(self).index <= old(self).chars@.len(),
        ensures
            step_is(
                *old(self),
                *final(self),
                r,
                vcall_scan(
                    old(self).chars@.subrange(old(self).index as int, old(self).chars@.len() as int),
                    0,
                    old(self).current_name@,
                    false,
                    false,
                    Seq::empty(),
                    false,
                    Seq::empty(),
                ),
            ),
    {
        let ghost s = self.chars@.subrange(self.index as int, self.chars@.len() as int);
        let ghost start_scan = vcall_scan(s, 0, self.current_name@, false, false, Seq::empty(), false, Seq::empty());
        let len = self.chars.len();
        let start = self.index;
        let n = len - start;
        let mut is_escaping = false;
        let mut is_in_quotes = false;
        let mut current_arg: Vec<char> = Vec::new();
        let mut expect_comma_or_paren = false;
        let mut args: Vec<String> = Vec::new();
        assert(strings_model(args@) =~= Seq::<Seq<char>>::empty());
        let mut i: usize = 0;
        while i < n
            invariant
                *self == *old(self),
                len == self.chars@.len(),
                start == self.index,
                start + n == len,
                i <= n,
                s == self.chars@.subrange(start as int, len as int),
                start_scan == vcall_scan(
                    s,
                    i as int,
                    self.current_name@,
                    is_escaping,
                    is_in_quotes,
                    current_arg@,
                    expect_comma_or_paren,
                    strings_model(args@),
                ),
            decreases n - i,
        {
            let c = self.chars[start + i];
            assert(c == s[i as int]);
            let ghost old_args = strings_model(args@);
            if expect_comma_or_paren {
                if c == ',' {
                    expect_comma_or_paren = false;
                } else if c == ')' {
                    self.push_token(TokenKind::FunctionCall(args));
                    self.current_name = Vec::new();
                    assert(self.current_name@ =~= Seq::<char>::empty());
                    self.state = ParserState::AfterToken;
                    return Ok(i + 1);
                } else if !crate::expressions::is_space(&c) {
                    let mut lead = chars_of("Invalid character '");
                    lead.push(c);
                    push_str_chars(&mut lead, "' at location ");
                    assert(lead@ =~= "Invalid character '"@ + seq![c] + "' at location "@);
                    return Err(
                        VariableError::Parser(
                            self.fault_message(
                                lead,
                                Some(start + i),
                                " in function args in variable notation:\n",
                                "\nExpected whitespace, ',', or ')' at this point.",
                            ),
                        ),
                    );
                }
            } else if c == '"' {
                if is_in_quotes {
                    if is_escaping {
                        current_arg.push(c);
                        is_escaping = false;
                    } else {
                        args.push(string_from_chars(current_arg.as_slice()));
                        assert(strings_model(args@) =~= old_args.push(current_arg@));
                        current_arg = Vec::new();
                        is_in_quotes = false;
                        expect_comma_or_paren = true;
                    }
                } else if current_arg.len() > 0 {
                    return Err(
                        VariableError::Parser(
                            self.fault_message(
                                chars_of("Unexpected '\"' quote character mid-argument at location "),
                                Some(start + i),
                                " in function args in variable notation:\n",
                                "",
                            ),
                        ),
                    );
                } else {
                    is_in_quotes = true;
                    is_escaping = false;
                }
            } else if c == '\\' {
                if is_in_quotes {
                    if is_escaping {
                        current_arg.push(c);
                        is_escaping = false;
                    } else {
                        is_escaping = true;
                    }
                } else {
                    current_arg.push(c);
                }
            } else if c == ',' {
                if current_arg.len() == 0 && !is_in_quotes {
                    return Err(
                        VariableError::Parser(
                            self.fault_message(
                                chars_of("Unexpected ',' at location "),
                                Some(start + i),
                                " in function function args in variable notation:\n",
                                "",
                            ),
                        ),
                    );
                }
                if is_in_quotes {
                    current_arg.push(c);
                } else {
                    args.push(string_from_chars(current_arg.as_slice()));
                    assert(strings_model(args@) =~= old_args.push(current_arg@));
                    current_arg = Vec::new();
                }
                is_escaping = false;
            } else if c == ')' {
                if !is_in_quotes {
                    if current_arg.len() > 0 {
                        args.push(string_from_chars(current_arg.as_slice()));
                        assert(strings_model(args@) =~= old_args.push(current_arg@));
                    }
                    self.push_token(TokenKind::FunctionCall(args));
                    self.current_name = Vec::new();
                    assert(self.current_name@ =~= Seq::<char>::empty());
                    self.state = ParserState::AfterToken;
                    return Ok(i + 1);
                }
                current_arg.push(c);
                is_escaping = false;
            } else if crate::expressions::is_space(&c) {
                if is_in_quotes {
                    current_arg.push(c);
                }
                is_escaping = false;
            } else {
                current_arg.push(c);
                is_escaping = false;
            }
            i = i + 1;
        }
        Err(VariableError::Parser(
            self.fault_message(
                chars_of("Unexpected end of variable notation string during function call syntax. Variable notation:\n"),
                None,
                "",
                "",
            ),
        ))
    }

    /// Parses the notation into tokens.
    pub fn parse(self) -> (r: Result<Vec<Token>, VariableError>)
        ensures
            match self.spec_outcome() {
                Ok(t) => r matches Ok(v) && tokens_model(v@) == t,
                Err(m) => r matches Err(VariableError::Parser(e)) && e@ == m,
            },
    {
        let mut p = self;
        if p.chars.len() == 0 {
            return Err(VariableError::Parser(String::from_str("No valid characters found in variable name")));
        }
        loop
            invariant
                p.chars@.len() > 0,
                p.chars == self.chars,
                self.spec_outcome() == p.spec_outcome(),
            decreases p.chars@.len() - p.index, if p.state == ParserState::End { 0int } else { 1int },
        {
            if p.state == ParserState::End || p.index > p.chars.len() {
                return Ok(p.nodes);
            }
            let ghost before = p;
            let ghost rest = p.chars@.subrange(p.index as int, p.chars@.len() as int);
            proof {
                lemma_vstep(p.state, rest, p.current_name@);
            }
            let read = match p.state {
                ParserState::Name => p.read_name_chars(),
                ParserState::Array => p.read_array_chars(),
                ParserState::FunctionCall => p.read_function_call_chars(),
                _ => p.read_after_token_chars(),
            };
            let read = match read {
                Ok(n) => n,
                Err(e) => return Err(e),
            };
            p.index = p.index + read;
        }
    }
}

proof fn lemma_vname_scan_to_call(s: Seq<char>, n: Seq<char>, i: int)
    requires
        0 <= i <= n.len(),
        forall|j: int| 0 <= j < n.len() ==> is_name_char(#[trigger] n[j]),
        s.len() > n.len(),
        s.take(n.len() as int) == n,
        s[n.len() as int] == '(',
    ensures
        vname_scan(s, i, n.take(i)) == (VStep::Done {
            token: None,
            name: n,
            state: ParserState::FunctionCall,
            read: n.len() + 1int,
        }),
    decreases n.len() - i,
{
    if i < n.len() {
        assert(s[i] == s.take(n.len() as int)[i]);
        assert(n.take(i).push(n[i]) =~= n.take(i + 1));
        lemma_vname_scan_to_call(s, n, i + 1);
    } else {
        assert(n.take(i) =~= n);
    }
}

proof fn lemma_vcall_scan_quoted(r: Seq<char>, n: Seq<char>, x: Seq<char>, i: int)
    requires
        0 <= i <= x.len(),
        forall|j: int| 0 <= j < x.len() ==> #[trigger] x[j] != '"' && x[j] != '\\',
        r =~= seq!['"'] + x + seq!['"', ')'],
    ensures
        vcall_scan(r, 1 + i, n, false, true, x.take(i), false, Seq::empty()) == (VStep::Done {
            token: Some(TokenModel { name: n, kind: KindModel::FunctionCall(seq![x]) }),
            name: Seq::empty(),
            state: ParserState::AfterToken,
            read: x.len() + 3int,
        }),
    decreases x.len() - i,
{
    if i < x.len() {
        assert(r[1 + i] == x[i]);
        assert(x.take(i).push(x[i]) =~= x.take(i + 1));
        lemma_vcall_scan_quoted(r, n, x, i + 1);
    } else {
        assert(x.take(i) =~= x);
        assert(r[1 + i] == '"');
        assert(r[2 + i] == ')');
        assert(Seq::<Seq<char>>::empty().push(x) =~= seq![x]);
        assert(vcall_scan(r, 2 + i, n, false, false, Seq::empty(), true, seq![x]) == (VStep::Done {
            token: Some(TokenModel { name: n, kind: KindModel::FunctionCall(seq![x]) }),
            name: Seq::empty(),
            state: ParserState::AfterToken,
            read: x.len() + 3int,
        }));
    }
}

/// Inside a quoted function argument every character but `"` and backslash belongs to the
/// argument, commas, parentheses and spaces included: a name followed by one quoted argument
/// free of `"` and backslash is a single function call token of that name whose one argument
/// is the quoted text.
pub proof fn law_quoted_argument_keeps_its_characters(n: Seq<char>, x: Seq<char>)
    requires
        n.len() > 0,
        forall|j: int| 0 <= j < n.len() ==> is_name_char(#[trigger] n[j]),
        forall|j: int| 0 <= j < x.len() ==> #[trigger] x[j] != '"' && x[j] != '\\',
    ensures
        spec_vparse(n + seq!['(', '"'] + x + seq!['"', ')']) == Ok::<Seq<TokenModel>, Seq<char>>(
            seq![TokenModel { name: n, kind: KindModel::FunctionCall(seq![x]) }],
        ),
{
    let s = n + seq!['(', '"'] + x + seq!['"', ')'];
    let nl = n.len() as int;
    let xl = x.len() as int;
    let len = s.len() as int;
    assert(len == nl + xl + 4);
    assert(s[0] == n[0]);
    assert(is_name_char(n[0]));
    assert(s.last() == ')');
    assert(trim(s) == s);
    assert(s.take(nl) =~= n);
    assert(s[nl] == '(');
    assert(s.subrange(0, len) =~= s);
    lemma_vname_scan_to_call(s, n, 0);
    assert(n.take(0) =~= Seq::<char>::empty());
    let r = s.subrange(nl + 1, len);
    assert(r =~= seq!['"'] + x + seq!['"', ')']);
    lemma_vcall_scan_quoted(r, n, x, 0);
    assert(x.take(0) =~= Seq::<char>::empty());
    assert(r[0] == '"');
    let tok = TokenModel { name: n, kind: KindModel::FunctionCall(seq![x]) };
    assert(vstep(ParserState::FunctionCall, r, n) == (VStep::Done {
        token: Some(tok),
        name: Seq::empty(),
        state: ParserState::AfterToken,
        read: xl + 3,
    }));
    assert(s.subrange(len, len) =~= Seq::<char>::empty());
    assert(Seq::<TokenModel>::empty().push(tok) =~= seq![tok]);
    assert(vparse_from(s, len, ParserState::AfterToken, Seq::empty(), seq![tok]) == Ok::<
        Seq<TokenModel>,
        Seq<char>,
    >(seq![tok]));
    assert(vparse_from(s, nl + 1, ParserState::FunctionCall, n, Seq::empty()) == Ok::<
        Seq<TokenModel>,
        Seq<char>,
    >(seq![tok]));
}

proof fn lemma_vname_scan_to(s: Seq<char>, n: Seq<char>, i: int)
    requires
        0 <= i <= n.len(),
        forall|j: int| 0 <= j < n.len() ==> is_name_char(#[trigger] n[j]),
        s.len() > n.len(),
        s.take(n.len() as int) == n,
        s[n.len() as int] == '.' || s[n.len() as int] == '[',
    ensures
        vname_scan(s, i, n.take(i)) == if s[n.len() as int] == '.' {
            VStep::Done {
                token: Some(TokenModel { name: n, kind: KindModel::Namespace }),
                name: Seq::empty(),
                state: ParserState::Name,
                read: n.len() + 1int,
            }
        } else {
            VStep::Done { token: None, name: n, state: ParserState::Array, read: n.len() + 1int }
        },
    decreases n.len() - i,
{
    if i < n.len() {
        assert(s[i] == s.take(n.len() as int)[i]);
        assert(n.take(i).push(n[i]) =~= n.take(i + 1));
        lemma_vname_scan_to(s, n, i + 1);
    } else {
        assert(n.take(i) =~= n);
    }
}

proof fn lemma_varray_scan_plain(r: Seq<char>, d: Seq<char>, n: Seq<char>, i: int)
    requires
        0 <= i <= d.len(),
        d.len() > 0,
        digits_value(d) <= usize::MAX,
        forall|j: int| 0 <= j < d.len() ==> is_digit(#[trigger] d[j]),
        r.len() > d.len(),
        r.take(d.len() as int) == d,
        r[d.len() as int] == ']',
    ensures
        varray_scan(r, i, d.take(i), n) == (VStep::Done {
            token: Some(TokenModel { name: n, kind: KindModel::ArrayIndex(digits_value(d) as usize) }),
            name: Seq::empty(),
            state: ParserState::AfterToken,
            read: d.len() + 1int,
        }),
    decreases d.len() - i,
{
    if i < d.len() {
        assert(r[i] == r.take(d.len() as int)[i]);
        assert(d.take(i).push(d[i]) =~= d.take(i + 1));
        lemma_varray_scan_plain(r, d, n, i + 1);
    } else {
        assert(d.take(i) =~= d);
    }
}

/// An array index is the number written between the brackets: a name followed by the decimal
/// digits of a number `v` in square brackets is a single array index token of that name whose
/// index is `v`.
#[verifier::spinoff_prover]
#[verifier::rlimit(50)]
pub proof fn law_array_index_is_the_written_number(n: Seq<char>, v: usize)
    requires
        n.len() > 0,
        forall|j: int| 0 <= j < n.len() ==> is_name_char(#[trigger] n[j]),
    ensures
        spec_vparse(n + seq!['['] + decimal_digits(v as nat) + seq![']']) == Ok::<Seq<TokenModel>, Seq<char>>(
            seq![TokenModel { name: n, kind: KindModel::ArrayIndex(v) }],
        ),
{
    let d = decimal_digits(v as nat);
    law_digits_value_reads_decimal(v as nat);
    let s = n + seq!['['] + d + seq![']'];
    let nl = n.len() as int;
    let dl = d.len() as int;
    let len = s.len() as int;
    assert(len == nl + dl + 2);
    assert(s[0] == n[0]);
    assert(is_name_char(n[0]));
    assert(s.last() == ']');
    assert(trim(s) == s);
    assert(s.take(nl) =~= n);
    assert(s[nl] == '[');
    assert(s.subrange(0, len) =~= s);
    lemma_vname_scan_to(s, n, 0);
    assert(n.take(0) =~= Seq::<char>::empty());
    let r = s.subrange(nl + 1, len);
    assert(r =~= d + seq![']']);
    assert(r.take(dl) =~= d);
    lemma_varray_scan_plain(r, d, n, 0);
    assert(d.take(0) =~= Seq::<char>::empty());
    let tok = TokenModel { name: n, kind: KindModel::ArrayIndex(v) };
    assert(vstep(ParserState::Array, r, n) == (VStep::Done {
        token: Some(tok),
        name: Seq::empty(),
        state: ParserState::AfterToken,
        read: dl + 1,
    }));
    assert(vstep(ParserState::Name, s, Seq::empty()) == (VStep::Done {
        token: None,
        name: n,
        state: ParserState::Array,
        read: nl + 1,
    }));
    assert(s.subrange(len, len) =~= Seq::<char>::empty());
    assert(Seq::<TokenModel>::empty().push(tok) =~= seq![tok]);
    assert(vparse_from(s, len, ParserState::AfterToken, Seq::empty(), seq![tok]) == Ok::<
        Seq<TokenModel>,
        Seq<char>,
    >(seq![tok]));
    assert(vparse_from(s, nl + 1, ParserState::Array, n, Seq::empty()) == Ok::<
        Seq<TokenModel>,
        Seq<char>,
    >(seq![tok]));
}

} // verus!
