//! Parsing of variable notation such as `state.midi.channels[3].controls[15].value` or
//! `state.midi.note_on(*, 7)` into tokens. The notation is read character by character.
use vstd::prelude::*;
use vstd::string::StringExecFns;
use crate::config::message3;
use crate::text::{str_chars, string_from_chars, push_str_chars, decimal_digits, digit_char};

verus! {

/// A token of variable notation: a name and what kind of access it is.
#[derive(PartialEq, Debug)]
pub struct Token {
    pub name: String,
    pub kind: TokenKind,
}

/// The kinds of tokens.
#[derive(PartialEq, Debug)]
pub enum TokenKind {
    /// The last name, with nothing after it.
    Leaf,
    /// A name followed by an index in square brackets.
    ArrayIndex(usize),
    /// A name followed by a `.`.
    Namespace,
    /// A name followed by arguments in parentheses.
    FunctionCall(Vec<String>),
}

/// A token kind described with mathematical values.
pub enum KindModel {
    Leaf,
    ArrayIndex(usize),
    Namespace,
    FunctionCall(Seq<Seq<char>>),
}

/// A token described with mathematical values.
pub struct TokenModel {
    pub name: Seq<char>,
    pub kind: KindModel,
}

/// The characters of each string.
pub open spec fn strings_model(v: Seq<String>) -> Seq<Seq<char>> {
    v.map_values(|s: String| s@)
}

impl TokenKind {
    /// This kind described with mathematical values.
    pub open spec fn model(self) -> KindModel {
        match self {
            TokenKind::Leaf => KindModel::Leaf,
            TokenKind::ArrayIndex(i) => KindModel::ArrayIndex(i),
            TokenKind::Namespace => KindModel::Namespace,
            TokenKind::FunctionCall(args) => KindModel::FunctionCall(strings_model(args@)),
        }
    }
}

impl Token {
    /// This token described with mathematical values.
    pub open spec fn model(self) -> TokenModel {
        TokenModel { name: self.name@, kind: self.kind.model() }
    }
}

/// The tokens described with mathematical values.
pub open spec fn tokens_model(v: Seq<Token>) -> Seq<TokenModel> {
    v.map_values(|t: Token| t.model())
}

/// An error in variable notation: a message, the notation, and the character position at
/// which the problem was found.
#[derive(Debug)]
pub struct ExpressionError<'a> {
    message: String,
    var_str: &'a str,
    location: usize,
}

impl<'a> ExpressionError<'a> {
    /// The character position of the problem.
    pub closed spec fn spec_location(self) -> usize {
        self.location
    }

    /// The notation that held the problem.
    pub closed spec fn spec_var_str(self) -> Seq<char> {
        self.var_str@
    }

    /// The description of the problem.
    pub closed spec fn spec_message(self) -> Seq<char> {
        self.message@
    }

    fn new(message: String, location: usize) -> (r: ExpressionError<'a>)
        ensures
            r.location == location,
            r.message@ == message@,
            r.var_str@ == Seq::<char>::empty(),
    {
        proof {
            reveal_strlit("");
        }
        ExpressionError { message, var_str: "", location }
    }

    fn offset_location(self, location_offset: usize) -> (r: Self)
        requires
            self.location + location_offset <= usize::MAX,
        ensures
            r.location == self.location + location_offset,
            r.message == self.message,
            r.var_str == self.var_str,
    {
        let mut s = self;
        s.location = s.location + location_offset;
        s
    }

    fn add_var_str(self, var_str: &'a str) -> (r: Self)
        ensures
            r.location == self.location,
            r.message == self.message,
            r.var_str == var_str,
    {
        let mut s = self;
        s.var_str = var_str;
        s
    }
}

/// The whitespace characters that notation may hold between its parts.
pub open spec fn spec_is_space(c: char) -> bool {
    c == ' ' || c == '\t' || c == '\n' || c == '\r' || c == '\u{000B}' || c == '\u{0085}' || c
        == '\u{200E}' || c == '\u{200F}' || c == '\u{2028}' || c == '\u{2029}'
}

/// Whether `c` is one of the whitespace characters of notation.
pub(crate) fn is_space(c: &char) -> (r: bool)
    ensures
        r == spec_is_space(*c),
{
    let c = *c;
    c == ' ' || c == '\t' || c == '\n' || c == '\r' || c == '\u{000B}' || c == '\u{0085}' || c
        == '\u{200E}' || c == '\u{200F}' || c == '\u{2028}' || c == '\u{2029}'
}

/// Whether `c` may be part of a name: an ASCII letter, digit or underscore.
pub open spec fn is_name_char(c: char) -> bool {
    ('a' <= c && c <= 'z') || ('A' <= c && c <= 'Z') || ('0' <= c && c <= '9') || c == '_'
}

/// Whether `c` is an ASCII decimal digit.
pub open spec fn is_digit(c: char) -> bool {
    '0' <= c && c <= '9'
}

/// The value of a string of decimal digits.
pub open spec fn digits_value(d: Seq<char>) -> nat
    decreases d.len(),
{
    if d.len() == 0 {
        0
    } else {
        digits_value(d.drop_last()) * 10 + ((d.last() as nat) - ('0' as nat)) as nat
    }
}

/// What the parser expects to read next.
#[derive(Clone, Copy, PartialEq, Eq, Structural)]
pub enum ParserState {
    /// Characters of a name, or what starts an array index or a function call.
    Name,
    /// Decimal digits or `]`.
    Array,
    /// Function call arguments.
    FunctionCall,
    /// After a token: a `.`, or spaces up to the end.
    AfterToken,
    /// The end of the notation.
    End,
}

/// What reading some characters gave: a name, a finished token kind, the next state and how
/// many characters were read; or an error at a position, with its message.
pub enum Scan {
    Done { name: Option<Seq<char>>, kind: Option<KindModel>, state: ParserState, read: int },
    Fail(int, Seq<char>),
}

/// The result of a reader of characters.
struct ReadResult {
    name: Option<String>,
    token_kind: Option<TokenKind>,
    state: ParserState,
    chars_read: usize,
}

/// An optional string as characters.
pub open spec fn opt_chars(o: Option<String>) -> Option<Seq<char>> {
    match o {
        Some(s) => Some(s@),
        None => None,
    }
}

/// An optional token kind described with mathematical values.
pub open spec fn opt_kind(o: Option<TokenKind>) -> Option<KindModel> {
    match o {
        Some(k) => Some(k.model()),
        None => None,
    }
}

/// The message made of `lead`, the character `c` and `tail`.
fn char_message(lead: &str, c: char, tail: &str) -> (r: String)
    ensures
        r@ == lead@ + seq![c] + tail@,
{
    let mut out: Vec<char> = Vec::new();
    push_str_chars(&mut out, lead);
    out.push(c);
    push_str_chars(&mut out, tail);
    string_from_chars(out.as_slice())
}

/// The text of the error that `usize::from_str_radix` in base 10 gives for the digits `d`
/// (empty when it gives none).
pub uninterp spec fn usize_parse_failure(d: Seq<char>) -> Seq<char>;

/// Runs `usize::from_str_radix(digits, 10)` and gives the `to_string` of its error, or an empty
/// string when it succeeds. Claimed: the text depends on the digits alone; what it says is not
/// described.
#[verifier::external_body]
pub(crate) fn usize_parse_failure_text(digits: &str) -> (r: String)
    ensures
        r@ == usize_parse_failure(digits@),
{
    match usize::from_str_radix(digits, 10) {
        Ok(_) => String::new(),
        Err(e) => e.to_string(),
    }
}

/// Whether `r` is what the scan `s` describes.
spec fn read_result_is<'a>(r: Result<ReadResult, ExpressionError<'a>>, s: Scan) -> bool {
    match (r, s) {
        (Ok(rr), Scan::Done { name, kind, state, read }) => opt_chars(rr.name) == name && opt_kind(
            rr.token_kind,
        ) == kind && rr.state == state && rr.chars_read == read,
        (Err(e), Scan::Fail(l, m)) => e.spec_location() == l && e.spec_message() == m,
        _ => false,
    }
}

/// Reading a name from position `i` of `s`, with the name so far and whether a space followed
/// it: name characters extend the name (a space inside a name is an error), `.` ends a
/// namespace, `[` starts an array index (not after an empty name or a space), `(` starts a
/// function call, spaces are skipped, the end gives a leaf; anything else is an error.
pub open spec fn name_scan(s: Seq<char>, i: int, name: Seq<char>, space_seen: bool) -> Scan
    decreases s.len() - i,
{
    if i < 0 || i >= s.len() {
        if name.len() == 0 {
            Scan::Fail(0, "Unexpected end of variable notation string; expecting a name."@)
        } else {
            Scan::Done { name: Some(name), kind: Some(KindModel::Leaf), state: ParserState::End, read: s.len() as int }
        }
    } else {
        let c = s[i];
        if is_name_char(c) {
            if name.len() > 0 && space_seen {
                Scan::Fail(i, "Space characters within names are not supported."@)
            } else {
                name_scan(s, i + 1, name.push(c), space_seen)
            }
        } else if c == '.' {
            Scan::Done { name: Some(name), kind: Some(KindModel::Namespace), state: ParserState::Name, read: i + 1 }
        } else if c == '[' {
            if name.len() == 0 {
                Scan::Fail(i, "Missing name for array access"@)
            } else if space_seen {
                Scan::Fail(i - 1, "Unexpected space before array index access"@)
            } else {
                Scan::Done { name: Some(name), kind: None, state: ParserState::Array, read: i + 1 }
            }
        } else if c == '(' {
            Scan::Done { name: Some(name), kind: None, state: ParserState::FunctionCall, read: i + 1 }
        } else if spec_is_space(c) {
            name_scan(s, i + 1, name, space_seen || name.len() > 0)
        } else {
            Scan::Fail(1, "Invalid character '"@ + seq![c] + "'"@)
        }
    }
}

/// Reads a name from the characters of `chars` from `start` on.
fn read_name_chars<'a>(chars: &Vec<char>, start: usize) -> (r: Result<ReadResult, ExpressionError<'a>>)
    requires
        start <= chars@.len(),
    ensures
        read_result_is(r, name_scan(chars@.subrange(start as int, chars@.len() as int), 0, Seq::empty(), false)),
{
    let ghost s = chars@.subrange(start as int, chars@.len() as int);
    let len = chars.len();
    let n = len - start;
    let mut name: Vec<char> = Vec::new();
    let mut space_seen = false;
    let mut i: usize = 0;
    while i < n
        invariant
            s == chars@.subrange(start as int, chars@.len() as int),
            n == s.len(),
            len == chars@.len(),
            start + n == len,
            i <= n,
            name_scan(s, 0, Seq::empty(), false) == name_scan(s, i as int, name@, space_seen),
        decreases n - i,
    {
        let c = chars[start + i];
        assert(c == s[i as int]);
        if ('a' <= c && c <= 'z') || ('A' <= c && c <= 'Z') || ('0' <= c && c <= '9') || c == '_' {
            if name.len() > 0 && space_seen {
                return Err(ExpressionError::new(
                    String::from_str("Space characters within names are not supported."),
                    i,
                ));
            }
            name.push(c);
        } else if c == '.' {
            return Ok(ReadResult {
                name: Some(string_from_chars(name.as_slice())),
                token_kind: Some(TokenKind::Namespace),
                state: ParserState::Name,
                chars_read: i + 1,
            });
        } else if c == '[' {
            if name.len() == 0 {
                return Err(ExpressionError::new(String::from_str("Missing name for array access"), i));
            }
            if space_seen {
                return Err(ExpressionError::new(
                    String::from_str("Unexpected space before array index access"),
                    i - 1,
                ));
            }
            return Ok(ReadResult {
                name: Some(string_from_chars(name.as_slice())),
                token_kind: None,
                state: ParserState::Array,
                chars_read: i + 1,
            });
        } else if c == '(' {
            return Ok(ReadResult {
                name: Some(string_from_chars(name.as_slice())),
                token_kind: None,
                state: ParserState::FunctionCall,
                chars_read: i + 1,
            });
        } else if is_space(&c) {
            if name.len() > 0 {
                space_seen = true;
            }
        } else {
            return Err(ExpressionError::new(char_message("Invalid character '", c, "'"), 1));
        }
        i = i + 1;
    }
    if name.len() == 0 {
        Err(ExpressionError::new(
            String::from_str("Unexpected end of variable notation string; expecting a name."),
            0,
        ))
    } else {
        Ok(ReadResult {
            name: Some(string_from_chars(name.as_slice())),
            token_kind: Some(TokenKind::Leaf),
            state: ParserState::End,
            chars_read: n,
        })
    }
}


/// Extending a string of digits never lowers its value.
pub proof fn lemma_digits_value_grows(d: Seq<char>, k: int)
    requires
        0 <= k <= d.len(),
        forall|j: int| 0 <= j < d.len() ==> is_digit(#[trigger] d[j]),
    ensures
        digits_value(d.take(k)) <= digits_value(d),
    decreases d.len() - k,
{
    if k < d.len() {
        lemma_digits_value_grows(d, k + 1);
        assert(d.take(k + 1).drop_last() =~= d.take(k));
    } else {
        assert(d.take(k) =~= d);
    }
}

/// The value of a string of decimal digits, when it fits in a `usize`.
pub(crate) fn digits_to_usize(d: &Vec<char>) -> (r: Option<usize>)
    requires
        forall|j: int| 0 <= j < d@.len() ==> is_digit(#[trigger] d@[j]),
    ensures
        match r {
            Some(v) => v == digits_value(d@),
            None => digits_value(d@) > usize::MAX,
        },
{
    let mut acc: usize = 0;
    let mut i: usize = 0;
    assert(d@.take(0) =~= Seq::<char>::empty());
    while i < d.len()
        invariant
            i <= d@.len(),
            forall|j: int| 0 <= j < d@.len() ==> is_digit(#[trigger] d@[j]),
            acc == digits_value(d@.take(i as int)),
        decreases d.len() - i,
    {
        let digit = (d[i] as u32 - '0' as u32) as usize;
        assert(d@.take(i + 1).drop_last() =~= d@.take(i as int));
        match acc.checked_mul(10) {
            Some(m) => match m.checked_add(digit) {
                Some(v) => acc = v,
                None => {
                    proof {
                        lemma_digits_value_grows(d@, i + 1);
                    }
                    return None;
                },
            },
            None => {
                proof {
                    lemma_digits_value_grows(d@, i + 1);
                }
                return None;
            },
        }
        i = i + 1;
    }
    assert(d@.take(d@.len() as int) =~= d@);
    Some(acc)
}

/// Reading an array index from position `i` of `s`, with the digits so far and whether a space
/// followed them: digits extend the index (not after such a space), `]` ends it (an empty index
/// or one too large for a `usize` is an error), spaces are skipped; anything else, or the end,
/// is an error.
pub open spec fn array_scan(s: Seq<char>, i: int, digits: Seq<char>, space_seen: bool) -> Scan
    decreases s.len() - i,
{
    if i < 0 || i >= s.len() {
        Scan::Fail(s.len() as int, "Unexpected end of variable notation string; expecting decimal digits or ']'"@)
    } else {
        let c = s[i];
        if is_digit(c) {
            if space_seen {
                Scan::Fail(i - 1, "Unexpected space in array index"@)
            } else {
                array_scan(s, i + 1, digits.push(c), space_seen)
            }
        } else if c == ']' {
            if digits.len() == 0 {
                Scan::Fail(0, "Missing array index"@)
            } else if digits_value(digits) <= usize::MAX {
                Scan::Done {
                    name: None,
                    kind: Some(KindModel::ArrayIndex(digits_value(digits) as usize)),
                    state: ParserState::AfterToken,
                    read: i + 1,
                }
            } else {
                Scan::Fail(i - 1, "Failed to parse array index '"@ + digits + "': "@ + usize_parse_failure(digits))
            }
        } else if spec_is_space(c) {
            array_scan(s, i + 1, digits, space_seen || digits.len() > 0)
        } else {
            Scan::Fail(i, "Invalid character '"@ + seq![c] + "', expecting decimal digit or ']'."@)
        }
    }
}

/// Reads an array index from the characters of `chars` from `start` on.
fn read_array_chars<'a>(chars: &Vec<char>, start: usize) -> (r: Result<ReadResult, ExpressionError<'a>>)
    requires
        start <= chars@.len(),
    ensures
        read_result_is(r, array_scan(chars@.subrange(start as int, chars@.len() as int), 0, Seq::empty(), false)),
{
    let ghost s = chars@.subrange(start as int, chars@.len() as int);
    let len = chars.len();
    let n = len - start;
    let mut digits: Vec<char> = Vec::new();
    let mut space_seen = false;
    let mut i: usize = 0;
    while i < n
        invariant
            s == chars@.subrange(start as int, chars@.len() as int),
            n == s.len(),
            len == chars@.len(),
            start + n == len,
            i <= n,
            forall|j: int| 0 <= j < digits@.len() ==> is_digit(#[trigger] digits@[j]),
            space_seen ==> digits@.len() > 0 && i >= 1,
            digits@.len() <= i,
            array_scan(s, 0, Seq::empty(), false) == array_scan(s, i as int, digits@, space_seen),
        decreases n - i,
    {
        let c = chars[start + i];
        assert(c == s[i as int]);
        if '0' <= c && c <= '9' {
            if space_seen {
                return Err(ExpressionError::new(String::from_str("Unexpected space in array index"), i - 1));
            }
            digits.push(c);
        } else if c == ']' {
            if digits.len() == 0 {
                return Err(ExpressionError::new(String::from_str("Missing array index"), 0));
            }
            return match digits_to_usize(&digits) {
                Some(v) => Ok(ReadResult {
                    name: None,
                    token_kind: Some(TokenKind::ArrayIndex(v)),
                    state: ParserState::AfterToken,
                    chars_read: i + 1,
                }),
                None => {
                    let d = string_from_chars(digits.as_slice());
                    let mut m = message3("Failed to parse array index '", d.as_str(), "': ");
                    m.append(usize_parse_failure_text(d.as_str()).as_str());
                    Err(ExpressionError::new(m, i - 1))
                },
            };
        } else if is_space(&c) {
            if digits.len() > 0 {
                space_seen = true;
            }
        } else {
            return Err(ExpressionError::new(char_message("Invalid character '", c, "', expecting decimal digit or ']'."), i));
        }
        i = i + 1;
    }
    Err(ExpressionError::new(
        String::from_str("Unexpected end of variable notation string; expecting decimal digits or ']'"),
        n,
    ))
}

/// Reading after a token from position `i` of `s`: a `.` (one character read) leads to a
/// name, spaces up to the end are fine (nothing read); anything else is an error.
pub open spec fn after_token_scan(s: Seq<char>, i: int) -> Scan
    decreases s.len() - i,
{
    if i < 0 || i >= s.len() {
        Scan::Done { name: None, kind: None, state: ParserState::End, read: 0 }
    } else if s[i] == '.' {
        Scan::Done { name: None, kind: None, state: ParserState::Name, read: 1 }
    } else if spec_is_space(s[i]) {
        after_token_scan(s, i + 1)
    } else {
        Scan::Fail(i, "Invalid character '"@ + seq![s[i]] + "'; expected '.', spaces, or end."@)
    }
}

/// Reads what follows a token from the characters of `chars` from `start` on.
fn read_after_token_chars<'a>(chars: &Vec<char>, start: usize) -> (r: Result<ReadResult, ExpressionError<'a>>)
    requires
        start <= chars@.len(),
    ensures
        read_result_is(r, after_token_scan(chars@.subrange(start as int, chars@.len() as int), 0)),
{
    let ghost s = chars@.subrange(start as int, chars@.len() as int);
    let len = chars.len();
    let n = len - start;
    let mut i: usize = 0;
    while i < n
        invariant
            s == chars@.subrange(start as int, chars@.len() as int),
            n == s.len(),
            len == chars@.len(),
            start + n == len,
            i <= n,
            after_token_scan(s, 0) == after_token_scan(s, i as int),
        decreases n - i,
    {
        let c = chars[start + i];
        assert(c == s[i as int]);
        if c == '.' {
            return Ok(ReadResult { name: None, token_kind: None, state: ParserState::Name, chars_read: 1 });
        } else if !is_space(&c) {
            return Err(ExpressionError::new(char_message("Invalid character '", c, "'; expected '.', spaces, or end."), i));
        }
        i = i + 1;
    }
    Ok(ReadResult { name: None, token_kind: None, state: ParserState::End, chars_read: 0 })
}


/// What the reader of function call arguments expects next.
#[derive(Clone, Copy, PartialEq, Eq, Structural)]
pub enum FunctionParseState {
    /// The start of an argument, or `)`.
    Start,
    /// The characters of an unquoted argument.
    BareValue,
    /// The characters of a quoted argument.
    QuotedValue,
    /// A `,` or `)` after a quoted argument.
    AfterQuotedValue,
    /// The end of the arguments.
    End,
}

/// What reading some argument characters gave: an argument value, the next state and how many
/// characters were read; or an error at a position, with its message.
pub enum ArgScan {
    Done { value: Option<Seq<char>>, state: FunctionParseState, read: int },
    Fail(int, Seq<char>),
}

/// The result of a reader of argument characters.
struct FunctionReadResult {
    value: Option<String>,
    state: FunctionParseState,
    chars_read: usize,
}

/// Whether `r` is what the scan `s` describes.
spec fn function_read_is<'a>(r: Result<FunctionReadResult, ExpressionError<'a>>, s: ArgScan) -> bool {
    match (r, s) {
        (Ok(rr), ArgScan::Done { value, state, read }) => opt_chars(rr.value) == value && rr.state == state
            && rr.chars_read == read,
        (Err(e), ArgScan::Fail(l, m)) => e.spec_location() == l && e.spec_message() == m,
        _ => false,
    }
}

/// Reading the start of an argument from position `i` of `s`: `"` starts a quoted value, `)`
/// ends the arguments, spaces are skipped, `,` is an error, anything else starts a bare value
/// (not read yet); the end is an error.
pub open spec fn start_scan(s: Seq<char>, i: int) -> ArgScan
    decreases s.len() - i,
{
    if i < 0 || i >= s.len() {
        ArgScan::Fail(0, "Unexpected end of function invocation syntax"@)
    } else {
        let c = s[i];
        if c == '"' {
            ArgScan::Done { value: None, state: FunctionParseState::QuotedValue, read: i + 1 }
        } else if c == ',' {
            ArgScan::Fail(0, "Unexpected ',' in function invocation syntax"@)
        } else if c == ')' {
            ArgScan::Done { value: None, state: FunctionParseState::End, read: i + 1 }
        } else if spec_is_space(c) {
            start_scan(s, i + 1)
        } else {
            ArgScan::Done { value: None, state: FunctionParseState::BareValue, read: i }
        }
    }
}

/// Reads the start of an argument from the characters of `chars` from `start` on.
fn read_start<'a>(chars: &Vec<char>, start: usize) -> (r: Result<FunctionReadResult, ExpressionError<'a>>)
    requires
        start <= chars@.len(),
    ensures
        function_read_is(r, start_scan(chars@.subrange(start as int, chars@.len() as int), 0)),
{
    let ghost s = chars@.subrange(start as int, chars@.len() as int);
    let len = chars.len();
    let n = len - start;
    let mut i: usize = 0;
    while i < n
        invariant
            s == chars@.subrange(start as int, chars@.len() as int),
            n == s.len(),
            len == chars@.len(),
            start + n == len,
            i <= n,
            start_scan(s, 0) == start_scan(s, i as int),
        decreases n - i,
    {
        let c = chars[start + i];
        assert(c == s[i as int]);
        if c == '"' {
            return Ok(FunctionReadResult { value: None, state: FunctionParseState::QuotedValue, chars_read: i + 1 });
        } else if c == ',' {
            return Err(ExpressionError::new(String::from_str("Unexpected ',' in function invocation syntax"), 0));
        } else if c == ')' {
            return Ok(FunctionReadResult { value: None, state: FunctionParseState::End, chars_read: i + 1 });
        } else if !is_space(&c) {
            return Ok(FunctionReadResult { value: None, state: FunctionParseState::BareValue, chars_read: i });
        }
        i = i + 1;
    }
    Err(ExpressionError::new(String::from_str("Unexpected end of function invocation syntax"), 0))
}

/// Reading an unquoted argument from position `i` of `s`, with the value so far and whether a
/// space followed it: `"` is an error, `,` ends a non-empty value, `)` ends the value and the
/// arguments, a space after the value is noted, another character after such a space is an
/// error, any other character extends the value; the end is an error.
pub open spec fn bare_scan(s: Seq<char>, i: int, value: Seq<char>, spaces_seen: bool) -> ArgScan
    decreases s.len() - i,
{
    if i < 0 || i >= s.len() {
        ArgScan::Fail(
            s.len() as int,
            "Unexpected end of variable notation string during function call syntax while reading bare value"@,
        )
    } else {
        let c = s[i];
        if c == '"' {
            ArgScan::Fail(i, "Unexpected '\"' quote character mid-value"@)
        } else if c == ',' {
            if value.len() == 0 {
                ArgScan::Fail(i, "Unexpected ',' in function values"@)
            } else {
                ArgScan::Done { value: Some(value), state: FunctionParseState::Start, read: i + 1 }
            }
        } else if c == ')' {
            ArgScan::Done {
                value: if value.len() == 0 { None } else { Some(value) },
                state: FunctionParseState::End,
                read: i + 1,
            }
        } else if spec_is_space(c) && value.len() > 0 {
            bare_scan(s, i + 1, value, true)
        } else if value.len() > 0 && spaces_seen {
            ArgScan::Fail(i - 1, "Bare values in function invocation may not contain spaces"@)
        } else {
            bare_scan(s, i + 1, value.push(c), spaces_seen)
        }
    }
}

/// Reads an unquoted argument from the characters of `chars` from `start` on.
fn read_bare_value<'a>(chars: &Vec<char>, start: usize) -> (r: Result<FunctionReadResult, ExpressionError<'a>>)
    requires
        start <= chars@.len(),
    ensures
        function_read_is(r, bare_scan(chars@.subrange(start as int, chars@.len() as int), 0, Seq::empty(), false)),
{
    let ghost s = chars@.subrange(start as int, chars@.len() as int);
    let len = chars.len();
    let n = len - start;
    let mut value: Vec<char> = Vec::new();
    let mut spaces_seen = false;
    let mut i: usize = 0;
    while i < n
        invariant
            s == chars@.subrange(start as int, chars@.len() as int),
            n == s.len(),
            len == chars@.len(),
            start + n == len,
            i <= n,
            spaces_seen ==> i >= 1,
            bare_scan(s, 0, Seq::empty(), false) == bare_scan(s, i as int, value@, spaces_seen),
        decreases n - i,
    {
        let c = chars[start + i];
        assert(c == s[i as int]);
        if c == '"' {
            return Err(ExpressionError::new(String::from_str("Unexpected '\"' quote character mid-value"), i));
        } else if c == ',' {
            if value.len() == 0 {
                return Err(ExpressionError::new(String::from_str("Unexpected ',' in function values"), i));
            }
            return Ok(FunctionReadResult {
                value: Some(string_from_chars(value.as_slice())),
                state: FunctionParseState::Start,
                chars_read: i + 1,
            });
        } else if c == ')' {
            let v = if value.len() == 0 {
                None
            } else {
                Some(string_from_chars(value.as_slice()))
            };
            return Ok(FunctionReadResult { value: v, state: FunctionParseState::End, chars_read: i + 1 });
        } else if is_space(&c) && value.len() > 0 {
            spaces_seen = true;
        } else if value.len() > 0 && spaces_seen {
            return Err(ExpressionError::new(
                String::from_str("Bare values in function invocation may not contain spaces"),
                i - 1,
            ));
        } else {
            value.push(c);
        }
        i = i + 1;
    }
    Err(ExpressionError::new(
        String::from_str("Unexpected end of variable notation string during function call syntax while reading bare value"),
        n,
    ))
}

/// Reading a quoted argument from position `i` of `s`, with the value so far and whether a
/// backslash escapes the next character: an unescaped `"` ends the value, an unescaped
/// backslash escapes the next character, any other character (escaped or not) extends the
/// value; the end is an error.
pub open spec fn quoted_scan(s: Seq<char>, i: int, value: Seq<char>, escaping: bool) -> ArgScan
    decreases s.len() - i,
{
    if i < 0 || i >= s.len() {
        ArgScan::Fail(
            s.len() as int,
            "Unexpected end of variable notation string during function call syntax while reading quoted value"@,
        )
    } else {
        let c = s[i];
        if c == '"' && !escaping {
            ArgScan::Done { value: Some(value), state: FunctionParseState::AfterQuotedValue, read: i + 1 }
        } else if c == '\\' && !escaping {
            quoted_scan(s, i + 1, value, true)
        } else {
            quoted_scan(s, i + 1, value.push(c), false)
        }
    }
}

/// Reads a quoted argument from the characters of `chars` from `start` on.
fn read_quoted_value<'a>(chars: &Vec<char>, start: usize) -> (r: Result<FunctionReadResult, ExpressionError<'a>>)
    requires
        start <= chars@.len(),
    ensures
        function_read_is(r, quoted_scan(chars@.subrange(start as int, chars@.len() as int), 0, Seq::empty(), false)),
{
    let ghost s = chars@.subrange(start as int, chars@.len() as int);
    let len = chars.len();
    let n = len - start;
    let mut value: Vec<char> = Vec::new();
    let mut is_escaping = false;
    let mut i: usize = 0;
    while i < n
        invariant
            s == chars@.subrange(start as int, chars@.len() as int),
            n == s.len(),
            len == chars@.len(),
            start + n == len,
            i <= n,
            quoted_scan(s, 0, Seq::empty(), false) == quoted_scan(s, i as int, value@, is_escaping),
        decreases n - i,
    {
        let c = chars[start + i];
        assert(c == s[i as int]);
        if c == '"' && !is_escaping {
            return Ok(FunctionReadResult {
                value: Some(string_from_chars(value.as_slice())),
                state: FunctionParseState::AfterQuotedValue,
                chars_read: i + 1,
            });
        } else if c == '\\' && !is_escaping {
            is_escaping = true;
        } else {
            value.push(c);
            is_escaping = false;
        }
        i = i + 1;
    }
    Err(ExpressionError::new(
        String::from_str("Unexpected end of variable notation string during function call syntax while reading quoted value"),
        n,
    ))
}

/// Reading after a quoted argument from position `i` of `s`: `,` leads to the next argument,
/// `)` ends the arguments, spaces are skipped; anything else, or the end, is an error.
pub open spec fn after_quoted_scan(s: Seq<char>, i: int) -> ArgScan
    decreases s.len() - i,
{
    if i < 0 || i >= s.len() {
        ArgScan::Fail(s.len() as int, "Unexpected end of string in function call syntax within variable notation."@)
    } else {
        let c = s[i];
        if c == ',' {
            ArgScan::Done { value: None, state: FunctionParseState::Start, read: i + 1 }
        } else if c == ')' {
            ArgScan::Done { value: None, state: FunctionParseState::End, read: i + 1 }
        } else if spec_is_space(c) {
            after_quoted_scan(s, i + 1)
        } else {
            ArgScan::Fail(
                i,
                "Unexpected character '"@ + seq![c]
                    + "' in function call syntax within variable notation string, expecting ',', ')', or whitespace."@,
            )
        }
    }
}

/// Reads what follows a quoted argument from the characters of `chars` from `start` on.
fn read_after_quoted_value<'a>(chars: &Vec<char>, start: usize) -> (r: Result<FunctionReadResult, ExpressionError<'a>>)
    requires
        start <= chars@.len(),
    ensures
        function_read_is(r, after_quoted_scan(chars@.subrange(start as int, chars@.len() as int), 0)),
{
    let ghost s = chars@.subrange(start as int, chars@.len() as int);
    let len = chars.len();
    let n = len - start;
    let mut i: usize = 0;
    while i < n
        invariant
            s == chars@.subrange(start as int, chars@.len() as int),
            n == s.len(),
            len == chars@.len(),
            start + n == len,
            i <= n,
            after_quoted_scan(s, 0) == after_quoted_scan(s, i as int),
        decreases n - i,
    {
        let c = chars[start + i];
        assert(c == s[i as int]);
        if c == ',' {
            return Ok(FunctionReadResult { value: None, state: FunctionParseState::Start, chars_read: i + 1 });
        } else if c == ')' {
            return Ok(FunctionReadResult { value: None, state: FunctionParseState::End, chars_read: i + 1 });
        } else if !is_space(&c) {
            return Err(ExpressionError::new(
                char_message(
                    "Unexpected character '",
                    c,
                    "' in function call syntax within variable notation string, expecting ',', ')', or whitespace.",
                ),
                i,
            ));
        }
        i = i + 1;
    }
    Err(ExpressionError::new(
        String::from_str("Unexpected end of string in function call syntax within variable notation."),
        n,
    ))
}


pub proof fn lemma_start_scan(s: Seq<char>, i: int)
    requires
        0 <= i <= s.len(),
    ensures
        match start_scan(s, i) {
            ArgScan::Done { state, read, .. } => i <= read <= s.len() && (read == i ==> state
                == FunctionParseState::BareValue) && state != FunctionParseState::Start,
            ArgScan::Fail(l, _) => 0 <= l <= s.len(),
        },
    decreases s.len() - i,
{
    if i < s.len() {
        lemma_start_scan(s, i + 1);
    }
}

pub proof fn lemma_bare_scan(s: Seq<char>, i: int, value: Seq<char>, spaces_seen: bool)
    requires
        0 <= i <= s.len(),
        spaces_seen ==> i >= 1,
    ensures
        match bare_scan(s, i, value, spaces_seen) {
            ArgScan::Done { read, .. } => i + 1 <= read <= s.len(),
            ArgScan::Fail(l, _) => 0 <= l <= s.len(),
        },
    decreases s.len() - i,
{
    if i < s.len() {
        let c = s[i];
        if spec_is_space(c) && value.len() > 0 {
            lemma_bare_scan(s, i + 1, value, true);
        } else {
            lemma_bare_scan(s, i + 1, value.push(c), spaces_seen);
        }
    }
}

pub proof fn lemma_quoted_scan(s: Seq<char>, i: int, value: Seq<char>, escaping: bool)
    requires
        0 <= i <= s.len(),
    ensures
        match quoted_scan(s, i, value, escaping) {
            ArgScan::Done { read, .. } => i + 1 <= read <= s.len(),
            ArgScan::Fail(l, _) => 0 <= l <= s.len(),
        },
    decreases s.len() - i,
{
    if i < s.len() {
        let c = s[i];
        if c == '\\' && !escaping {
            lemma_quoted_scan(s, i + 1, value, true);
        } else {
            lemma_quoted_scan(s, i + 1, value.push(c), false);
        }
    }
}

pub proof fn lemma_after_quoted_scan(s: Seq<char>, i: int)
    requires
        0 <= i <= s.len(),
    ensures
        match after_quoted_scan(s, i) {
            ArgScan::Done { read, .. } => i + 1 <= read <= s.len(),
            ArgScan::Fail(l, _) => 0 <= l <= s.len(),
        },
    decreases s.len() - i,
{
    if i < s.len() {
        lemma_after_quoted_scan(s, i + 1);
    }
}

/// Reading argument characters in `state` from the start of `s`.
pub open spec fn arg_scan(state: FunctionParseState, s: Seq<char>) -> ArgScan {
    match state {
        FunctionParseState::Start => start_scan(s, 0),
        FunctionParseState::BareValue => bare_scan(s, 0, Seq::empty(), false),
        FunctionParseState::QuotedValue => quoted_scan(s, 0, Seq::empty(), false),
        FunctionParseState::AfterQuotedValue => after_quoted_scan(s, 0),
        FunctionParseState::End => ArgScan::Fail(0, Seq::empty()),
    }
}

pub proof fn lemma_arg_scan(state: FunctionParseState, s: Seq<char>)
    ensures
        match arg_scan(state, s) {
            ArgScan::Done { state: next, read, .. } => 0 <= read <= s.len() && (read == 0 ==> state
                == FunctionParseState::Start && next == FunctionParseState::BareValue),
            ArgScan::Fail(l, _) => 0 <= l <= s.len(),
        },
{
    match state {
        FunctionParseState::Start => lemma_start_scan(s, 0),
        FunctionParseState::BareValue => lemma_bare_scan(s, 0, Seq::empty(), false),
        FunctionParseState::QuotedValue => lemma_quoted_scan(s, 0, Seq::empty(), false),
        FunctionParseState::AfterQuotedValue => lemma_after_quoted_scan(s, 0),
        FunctionParseState::End => {},
    }
}

/// Reading function call arguments from position `index` of `s` in `state`, with the values
/// read so far: each reader runs on the rest of `s`, its value is collected, and reading goes
/// on until the arguments end or the characters run out. Gives the values and the position
/// reached, or the position of an error.
pub open spec fn call_from(s: Seq<char>, index: int, state: FunctionParseState, values: Seq<Seq<char>>) -> Result<
    (Seq<Seq<char>>, int),
    (int, Seq<char>),
>
    decreases s.len() - index, if state == FunctionParseState::Start { 1int } else { 0int },
{
    if state == FunctionParseState::End || index < 0 || index >= s.len() {
        Ok((values, index))
    } else {
        let rest = s.subrange(index, s.len() as int);
        match arg_scan(state, rest) {
            ArgScan::Fail(l, m) => Err((l + index, m)),
            ArgScan::Done { value, state: next, read } => {
                let values2 = match value {
                    Some(v) => values.push(v),
                    None => values,
                };
                let index2 = index + read;
                if index2 >= s.len() || next == FunctionParseState::End {
                    Ok((values2, index2))
                } else {
                    proof {
                        lemma_arg_scan(state, rest);
                    }
                    call_from(s, index2, next, values2)
                }
            },
        }
    }
}

pub proof fn lemma_call_from(s: Seq<char>, index: int, state: FunctionParseState, values: Seq<Seq<char>>)
    requires
        0 <= index < s.len(),
        state != FunctionParseState::End,
    ensures
        match call_from(s, index, state, values) {
            Ok((_, j)) => index < j <= s.len(),
            Err((l, _)) => 0 <= l <= s.len(),
        },
    decreases s.len() - index, if state == FunctionParseState::Start { 1int } else { 0int },
{
    let rest = s.subrange(index, s.len() as int);
    lemma_arg_scan(state, rest);
    match arg_scan(state, rest) {
        ArgScan::Fail(..) => {},
        ArgScan::Done { value, state: next, read } => {
            let values2 = match value {
                Some(v) => values.push(v),
                None => values,
            };
            let index2 = index + read;
            if !(index2 >= s.len() || next == FunctionParseState::End) {
                lemma_call_from(s, index2, next, values2);
            } else if read == 0 {
                assert(next == FunctionParseState::BareValue);
            }
        },
    }
}

/// Reading a function call's arguments from the start of `s`: the argument values and the
/// characters read, up to and including the closing `)`.
pub open spec fn function_call_scan(s: Seq<char>) -> Scan {
    match call_from(s, 0, FunctionParseState::Start, Seq::empty()) {
        Ok((values, read)) => Scan::Done {
            name: None,
            kind: Some(KindModel::FunctionCall(values)),
            state: ParserState::AfterToken,
            read,
        },
        Err((l, m)) => Scan::Fail(l, m),
    }
}

/// Reads function call arguments from the characters of `chars` from `start` on.
fn read_function_call_chars<'a>(chars: &Vec<char>, start: usize) -> (r: Result<ReadResult, ExpressionError<'a>>)
    requires
        start < chars@.len(),
    ensures
        read_result_is(r, function_call_scan(chars@.subrange(start as int, chars@.len() as int))),
{
    let ghost s = chars@.subrange(start as int, chars@.len() as int);
    let len = chars.len();
    let n = len - start;
    let mut values: Vec<String> = Vec::new();
    let mut index: usize = 0;
    let mut state = FunctionParseState::Start;
    proof {
        lemma_call_from(s, 0, FunctionParseState::Start, Seq::empty());
    }
    assert(strings_model(values@) =~= Seq::<Seq<char>>::empty());
    loop
        invariant
            s == chars@.subrange(start as int, chars@.len() as int),
            n == s.len(),
            len == chars@.len(),
            start + n == len,
            index < n,
            state != FunctionParseState::End,
            call_from(s, 0, FunctionParseState::Start, Seq::empty()) == call_from(
                s,
                index as int,
                state,
                strings_model(values@),
            ),
        decreases n - index, if state == FunctionParseState::Start { 1int } else { 0int },
    {
        let ghost rest = s.subrange(index as int, s.len() as int);
        assert(chars@.subrange((start + index) as int, chars@.len() as int) =~= rest);
        proof {
            lemma_arg_scan(state, rest);
        }
        let read = match state {
            FunctionParseState::Start => read_start(chars, start + index),
            FunctionParseState::BareValue => read_bare_value(chars, start + index),
            FunctionParseState::QuotedValue => read_quoted_value(chars, start + index),
            FunctionParseState::AfterQuotedValue => read_after_quoted_value(chars, start + index),
            FunctionParseState::End => read_start(chars, start + index),
        };
        let read = match read {
            Ok(rr) => rr,
            Err(e) => {
                return Err(e.offset_location(index));
            },
        };
        let ghost old_values = strings_model(values@);
        match read.value {
            Some(v) => {
                values.push(v);
                assert(strings_model(values@) =~= old_values.push(values@.last()@));
            },
            None => {},
        }
        let old_state = state;
        state = read.state;
        index = index + read.chars_read;
        if index >= n || state == FunctionParseState::End {
            return Ok(ReadResult {
                name: None,
                token_kind: Some(TokenKind::FunctionCall(values)),
                state: ParserState::AfterToken,
                chars_read: index,
            });
        }
    }
}


pub proof fn lemma_name_scan(s: Seq<char>, i: int, name: Seq<char>, space_seen: bool)
    requires
        0 <= i <= s.len(),
        space_seen ==> i >= 1,
    ensures
        match name_scan(s, i, name, space_seen) {
            Scan::Done { name: n, kind, state, read } => n is Some && 0 <= read <= s.len() && (state
                != ParserState::End ==> read >= 1) && (state == ParserState::Array || state
                == ParserState::FunctionCall ==> kind is None) && state != ParserState::AfterToken,
            Scan::Fail(l, _) => 0 <= l <= s.len(),
        },
    decreases s.len() - i,
{
    if i < s.len() {
        let c = s[i];
        if is_name_char(c) {
            if !(name.len() > 0 && space_seen) {
                lemma_name_scan(s, i + 1, name.push(c), space_seen);
            }
        } else if spec_is_space(c) {
            lemma_name_scan(s, i + 1, name, space_seen || name.len() > 0);
        }
    }
}

pub proof fn lemma_array_scan(s: Seq<char>, i: int, digits: Seq<char>, space_seen: bool)
    requires
        0 <= i <= s.len(),
        space_seen ==> i >= 1,
        digits.len() <= i,
    ensures
        match array_scan(s, i, digits, space_seen) {
            Scan::Done { name, kind, state, read } => name is None && kind is Some && state
                == ParserState::AfterToken && 1 <= read <= s.len(),
            Scan::Fail(l, _) => 0 <= l <= s.len(),
        },
    decreases s.len() - i,
{
    if i < s.len() {
        let c = s[i];
        if is_digit(c) {
            if !space_seen {
                lemma_array_scan(s, i + 1, digits.push(c), space_seen);
            }
        } else if spec_is_space(c) {
            lemma_array_scan(s, i + 1, digits, space_seen || digits.len() > 0);
        }
    }
}

pub proof fn lemma_after_token_scan(s: Seq<char>, i: int)
    requires
        0 <= i <= s.len(),
    ensures
        match after_token_scan(s, i) {
            Scan::Done { name, kind, state, read } => name is None && kind is None && ((state
                == ParserState::Name && read == 1 && s.len() >= 1) || (state == ParserState::End && read
                == 0)),
            Scan::Fail(l, _) => 0 <= l <= s.len(),
        },
    decreases s.len() - i,
{
    if i < s.len() {
        lemma_after_token_scan(s, i + 1);
    }
}

/// Reading characters in `state` from the start of `s`.
pub open spec fn token_scan(state: ParserState, s: Seq<char>) -> Scan {
    match state {
        ParserState::Name => name_scan(s, 0, Seq::empty(), false),
        ParserState::Array => array_scan(s, 0, Seq::empty(), false),
        ParserState::FunctionCall => function_call_scan(s),
        ParserState::AfterToken => after_token_scan(s, 0),
        ParserState::End => Scan::Fail(0, Seq::empty()),
    }
}

pub proof fn lemma_token_scan(state: ParserState, s: Seq<char>)
    requires
        s.len() >= 1,
    ensures
        match token_scan(state, s) {
            Scan::Done { name, kind, state: next, read } => 0 <= read <= s.len() && (next != ParserState::End
                ==> read >= 1) && (next == ParserState::Array || next == ParserState::FunctionCall
                ==> name is Some && kind is None) && (kind is Some ==> name is Some || state
                == ParserState::Array || state == ParserState::FunctionCall),
            Scan::Fail(l, _) => 0 <= l <= s.len(),
        },
{
    match state {
        ParserState::Name => lemma_name_scan(s, 0, Seq::empty(), false),
        ParserState::Array => lemma_array_scan(s, 0, Seq::empty(), false),
        ParserState::FunctionCall => lemma_call_from(s, 0, FunctionParseState::Start, Seq::empty()),
        ParserState::AfterToken => lemma_after_token_scan(s, 0),
        ParserState::End => {},
    }
}

/// Parsing `s` from position `index` in `state`, with the pending name and the tokens so far:
/// each reader runs on the rest of `s`; a name it gives becomes the pending name when there is
/// none; a token kind it gives makes a token of the pending name; parsing goes on until the end
/// state or the end of the characters. Gives the tokens, or the position and message of an
/// error.
pub open spec fn parse_from(
    s: Seq<char>,
    index: int,
    state: ParserState,
    current: Option<Seq<char>>,
    tokens: Seq<TokenModel>,
) -> Result<Seq<TokenModel>, (int, Seq<char>)>
    decreases s.len() - index, if state == ParserState::End { 0int } else { 1int },
{
    if state == ParserState::End || index < 0 || index >= s.len() {
        Ok(tokens)
    } else {
        let rest = s.subrange(index, s.len() as int);
        match token_scan(state, rest) {
            Scan::Fail(l, m) => Err((l + index, m)),
            Scan::Done { name, kind, state: next, read } => {
                let cur = match current {
                    Some(c) => Some(c),
                    None => name,
                };
                let tokens2 = match kind {
                    Some(k) => tokens.push(TokenModel { name: cur.unwrap(), kind: k }),
                    None => tokens,
                };
                let cur2 = match kind {
                    Some(_) => None,
                    None => cur,
                };
                let index2 = index + read;
                if index2 >= s.len() || next == ParserState::End {
                    Ok(tokens2)
                } else {
                    proof {
                        lemma_token_scan(state, rest);
                    }
                    parse_from(s, index2, next, cur2, tokens2)
                }
            },
        }
    }
}

/// The tokens of variable notation `s`, or the position and message of an error in it.
pub open spec fn spec_parse(s: Seq<char>) -> Result<Seq<TokenModel>, (int, Seq<char>)> {
    if s.len() == 0 {
        Err((0, "Empty variable notation string"@))
    } else {
        parse_from(s, 0, ParserState::Name, None, Seq::empty())
    }
}

/// Parses variable notation into tokens: dot-separated names, where a name may be followed by
/// an array index in square brackets or by function call arguments in parentheses (bare values
/// without spaces, or quoted values in which a backslash escapes the next character). Spaces
/// may surround names, indexes and arguments. An error gives its message, the position at which
/// it was found and, but for an empty notation, the notation itself.
pub fn parse(var_str: &str) -> (r: Result<Vec<Token>, ExpressionError<'_>>)
    ensures
        match spec_parse(var_str@) {
            Ok(tokens) => r matches Ok(v) && tokens_model(v@) == tokens,
            Err((l, m)) => r matches Err(e) && e.spec_location() == l && e.spec_message() == m && (var_str@.len()
                > 0 ==> e.spec_var_str() == var_str@),
        },
{
    let chars = str_chars(var_str);
    let len = chars.len();
    if len == 0 {
        return Err(ExpressionError::new(String::from_str("Empty variable notation string"), 0));
    }
    let ghost s = chars@;
    let mut current_name: Option<String> = None;
    let mut index: usize = 0;
    let mut state = ParserState::Name;
    let mut tokens: Vec<Token> = Vec::new();
    assert(tokens_model(tokens@) =~= Seq::<TokenModel>::empty());
    loop
        invariant
            s == chars@,
            s == var_str@,
            len == s.len(),
            index < len,
            state != ParserState::End,
            state == ParserState::Array || state == ParserState::FunctionCall ==> current_name is Some,
            spec_parse(s) == parse_from(s, index as int, state, opt_chars(current_name), tokens_model(tokens@)),
        decreases len - index, if state == ParserState::End { 0int } else { 1int },
    {
        let ghost rest = s.subrange(index as int, s.len() as int);
        proof {
            lemma_token_scan(state, rest);
        }
        let read = match state {
            ParserState::Name => read_name_chars(&chars, index),
            ParserState::Array => read_array_chars(&chars, index),
            ParserState::FunctionCall => read_function_call_chars(&chars, index),
            ParserState::AfterToken => read_after_token_chars(&chars, index),
            ParserState::End => read_after_token_chars(&chars, index),
        };
        let read = match read {
            Ok(rr) => rr,
            Err(e) => {
                return Err(e.offset_location(index).add_var_str(var_str));
            },
        };
        if current_name.is_none() {
            current_name = read.name;
        }
        let ghost old_tokens = tokens_model(tokens@);
        match read.token_kind {
            Some(kind) => {
                let name = match current_name.take() {
                    Some(n) => n,
                    None => {
                        assert(false);
                        String::new()
                    },
                };
                tokens.push(Token { name, kind });
                assert(tokens_model(tokens@) =~= old_tokens.push(tokens@.last().model()));
            },
            None => {},
        }
        state = read.state;
        index = index + read.chars_read;
        if index >= len || state == ParserState::End {
            return Ok(tokens);
        }
    }
}


impl<'a> ExpressionError<'a> {
    /// The error as text: the message, the notation, and a marker under the position of the
    /// problem.
    pub fn to_display_string(&self) -> (r: String)
        requires
            self.spec_location() < usize::MAX,
        ensures
            r@ == "Variable Parsing Error: "@ + self.spec_message() + "\n\nVariable notation:\n    "@
                + self.spec_var_str() + "\n"@ + Seq::new((self.spec_location() + 1) as nat, |i: int| ' ')
                + "___^"@,
    {
        let mut out: Vec<char> = Vec::new();
        push_str_chars(&mut out, "Variable Parsing Error: ");
        push_str_chars(&mut out, self.message.as_str());
        push_str_chars(&mut out, "\n\nVariable notation:\n    ");
        push_str_chars(&mut out, self.var_str);
        push_str_chars(&mut out, "\n");
        let ghost prefix = out@;
        let mut i: usize = 0;
        while i < self.location + 1
            invariant
                i <= self.location + 1,
                self.location < usize::MAX,
                out@ == prefix + Seq::new(i as nat, |j: int| ' '),
            decreases self.location + 1 - i,
        {
            out.push(' ');
            i = i + 1;
            assert(out@ =~= prefix + Seq::new(i as nat, |j: int| ' '));
        }
        push_str_chars(&mut out, "___^");
        string_from_chars(out.as_slice())
    }
}


proof fn lemma_name_scan_all_name_chars(s: Seq<char>, i: int)
    requires
        0 <= i <= s.len(),
        s.len() > 0,
        forall|j: int| 0 <= j < s.len() ==> is_name_char(#[trigger] s[j]),
    ensures
        name_scan(s, i, s.take(i), false) == (Scan::Done {
            name: Some(s),
            kind: Some(KindModel::Leaf),
            state: ParserState::End,
            read: s.len() as int,
        }),
    decreases s.len() - i,
{
    if i < s.len() {
        assert(s.take(i).push(s[i]) =~= s.take(i + 1));
        lemma_name_scan_all_name_chars(s, i + 1);
    } else {
        assert(s.take(i) =~= s);
    }
}

/// A lone name (letters, digits and underscores) is a single leaf token.
pub proof fn law_lone_name_is_leaf(s: Seq<char>)
    requires
        s.len() > 0,
        forall|j: int| 0 <= j < s.len() ==> is_name_char(#[trigger] s[j]),
    ensures
        spec_parse(s) == Ok::<Seq<TokenModel>, (int, Seq<char>)>(seq![TokenModel { name: s, kind: KindModel::Leaf }]),
{
    lemma_name_scan_all_name_chars(s, 0);
    assert(s.take(0) =~= Seq::<char>::empty());
    assert(s.subrange(0, s.len() as int) =~= s);
}

proof fn lemma_name_scan_to_call(s: Seq<char>, n: Seq<char>, i: int)
    requires
        0 <= i <= n.len(),
        n.len() > 0,
        forall|j: int| 0 <= j < n.len() ==> is_name_char(#[trigger] n[j]),
        s.len() > n.len(),
        s.take(n.len() as int) == n,
        s[n.len() as int] == '(',
    ensures
        name_scan(s, i, n.take(i), false) == (Scan::Done {
            name: Some(n),
            kind: None,
            state: ParserState::FunctionCall,
            read: n.len() + 1int,
        }),
    decreases n.len() - i,
{
    if i < n.len() {
        assert(s[i] == s.take(n.len() as int)[i]);
        assert(n.take(i).push(n[i]) =~= n.take(i + 1));
        lemma_name_scan_to_call(s, n, i + 1);
    } else {
        assert(n.take(i) =~= n);
    }
}

proof fn lemma_quoted_scan_plain(q: Seq<char>, x: Seq<char>, i: int)
    requires
        0 <= i <= x.len(),
        forall|j: int| 0 <= j < x.len() ==> #[trigger] x[j] != '"' && x[j] != '\\',
        q.len() > x.len(),
        q.take(x.len() as int) == x,
        q[x.len() as int] == '"',
    ensures
        quoted_scan(q, i, x.take(i), false) == (ArgScan::Done {
            value: Some(x),
            state: FunctionParseState::AfterQuotedValue,
            read: x.len() + 1int,
        }),
    decreases x.len() - i,
{
    if i < x.len() {
        assert(q[i] == q.take(x.len() as int)[i]);
        assert(x.take(i).push(x[i]) =~= x.take(i + 1));
        lemma_quoted_scan_plain(q, x, i + 1);
    } else {
        assert(x.take(i) =~= x);
    }
}

/// Inside a quoted function argument every character but `"` and backslash belongs to the
/// argument, commas, parentheses, dots and spaces included: a name followed by one quoted
/// argument free of `"` and backslash is a single function call token of that name whose one
/// argument is the quoted text.
pub proof fn law_quoted_argument_keeps_its_characters(n: Seq<char>, x: Seq<char>)
    requires
        n.len() > 0,
        forall|j: int| 0 <= j < n.len() ==> is_name_char(#[trigger] n[j]),
        forall|j: int| 0 <= j < x.len() ==> #[trigger] x[j] != '"' && x[j] != '\\',
    ensures
        spec_parse(n + seq!['(', '"'] + x + seq!['"', ')']) == Ok::<Seq<TokenModel>, (int, Seq<char>)>(
            seq![TokenModel { name: n, kind: KindModel::FunctionCall(seq![x]) }],
        ),
{
    let s = n + seq!['(', '"'] + x + seq!['"', ')'];
    let nl = n.len() as int;
    let xl = x.len() as int;
    let len = s.len() as int;
    assert(len == nl + xl + 4);
    // the name and the opening parenthesis
    assert(s.take(nl) =~= n);
    assert(s[nl] == '(');
    lemma_name_scan_to_call(s, n, 0);
    assert(n.take(0) =~= Seq::<char>::empty());
    assert(s.subrange(0, len) =~= s);
    // the arguments
    let r = s.subrange(nl + 1, len);
    assert(r =~= seq!['"'] + x + seq!['"', ')']);
    assert(r.subrange(0, r.len() as int) =~= r);
    assert(start_scan(r, 0) == (ArgScan::Done { value: None, state: FunctionParseState::QuotedValue, read: 1 }));
    let q = r.subrange(1, r.len() as int);
    assert(q =~= x + seq!['"', ')']);
    assert(q.take(xl) =~= x);
    assert(q[xl] == '"');
    lemma_quoted_scan_plain(q, x, 0);
    assert(x.take(0) =~= Seq::<char>::empty());
    let t = r.subrange(xl + 2, r.len() as int);
    assert(t =~= seq![')']);
    assert(after_quoted_scan(t, 0) == (ArgScan::Done { value: None, state: FunctionParseState::End, read: 1 }));
    assert(Seq::<Seq<char>>::empty().push(x) =~= seq![x]);
    assert(call_from(r, xl + 2, FunctionParseState::AfterQuotedValue, seq![x]) == Ok::<
        (Seq<Seq<char>>, int),
        (int, Seq<char>),
    >((seq![x], xl + 3)));
    assert(call_from(r, 1, FunctionParseState::QuotedValue, Seq::empty()) == Ok::<
        (Seq<Seq<char>>, int),
        (int, Seq<char>),
    >((seq![x], xl + 3)));
    assert(call_from(r, 0, FunctionParseState::Start, Seq::empty()) == Ok::<
        (Seq<Seq<char>>, int),
        (int, Seq<char>),
    >((seq![x], xl + 3)));
    assert(Seq::<TokenModel>::empty().push(TokenModel { name: n, kind: KindModel::FunctionCall(seq![x]) })
        =~= seq![TokenModel { name: n, kind: KindModel::FunctionCall(seq![x]) }]);
    assert(parse_from(s, nl + 1, ParserState::FunctionCall, Some(n), Seq::empty()) == Ok::<
        Seq<TokenModel>,
        (int, Seq<char>),
    >(seq![TokenModel { name: n, kind: KindModel::FunctionCall(seq![x]) }]));
}

proof fn lemma_bare_scan_plain(q: Seq<char>, x: Seq<char>, i: int)
    requires
        0 <= i <= x.len(),
        x.len() > 0,
        forall|j: int| 0 <= j < x.len() ==> #[trigger] x[j] != '"' && x[j] != ',' && x[j] != ')' && !spec_is_space(x[j]),
        q.len() > x.len(),
        q.take(x.len() as int) == x,
        q[x.len() as int] == ')',
    ensures
        bare_scan(q, i, x.take(i), false) == (ArgScan::Done {
            value: Some(x),
            state: FunctionParseState::End,
            read: x.len() + 1int,
        }),
    decreases x.len() - i,
{
    if i < x.len() {
        assert(q[i] == q.take(x.len() as int)[i]);
        assert(x.take(i).push(x[i]) =~= x.take(i + 1));
        lemma_bare_scan_plain(q, x, i + 1);
    } else {
        assert(x.take(i) =~= x);
    }
}

/// An unquoted function argument is the text between the parentheses: a name followed by one
/// unquoted argument without quotes, commas, closing parentheses or spaces is a single function
/// call token of that name whose one argument is that text.
pub proof fn law_bare_argument_keeps_its_characters(n: Seq<char>, x: Seq<char>)
    requires
        n.len() > 0,
        forall|j: int| 0 <= j < n.len() ==> is_name_char(#[trigger] n[j]),
        x.len() > 0,
        forall|j: int| 0 <= j < x.len() ==> #[trigger] x[j] != '"' && x[j] != ',' && x[j] != ')' && !spec_is_space(x[j]),
    ensures
        spec_parse(n + seq!['('] + x + seq![')']) == Ok::<Seq<TokenModel>, (int, Seq<char>)>(
            seq![TokenModel { name: n, kind: KindModel::FunctionCall(seq![x]) }],
        ),
{
    let s = n + seq!['('] + x + seq![')'];
    let nl = n.len() as int;
    let xl = x.len() as int;
    let len = s.len() as int;
    assert(len == nl + xl + 2);
    assert(s.take(nl) =~= n);
    assert(s[nl] == '(');
    lemma_name_scan_to_call(s, n, 0);
    assert(n.take(0) =~= Seq::<char>::empty());
    assert(s.subrange(0, len) =~= s);
    let r = s.subrange(nl + 1, len);
    assert(r =~= x + seq![')']);
    assert(r.subrange(0, r.len() as int) =~= r);
    assert(r[0] == x[0]);
    assert(start_scan(r, 0) == (ArgScan::Done { value: None, state: FunctionParseState::BareValue, read: 0 }));
    assert(r.take(xl) =~= x);
    lemma_bare_scan_plain(r, x, 0);
    assert(x.take(0) =~= Seq::<char>::empty());
    assert(Seq::<Seq<char>>::empty().push(x) =~= seq![x]);
    assert(call_from(r, 0, FunctionParseState::BareValue, Seq::empty()) == Ok::<
        (Seq<Seq<char>>, int),
        (int, Seq<char>),
    >((seq![x], xl + 1)));
    assert(call_from(r, 0, FunctionParseState::Start, Seq::empty()) == Ok::<
        (Seq<Seq<char>>, int),
        (int, Seq<char>),
    >((seq![x], xl + 1)));
    assert(Seq::<TokenModel>::empty().push(TokenModel { name: n, kind: KindModel::FunctionCall(seq![x]) })
        =~= seq![TokenModel { name: n, kind: KindModel::FunctionCall(seq![x]) }]);
    assert(parse_from(s, nl + 1, ParserState::FunctionCall, Some(n), Seq::empty()) == Ok::<
        Seq<TokenModel>,
        (int, Seq<char>),
    >(seq![TokenModel { name: n, kind: KindModel::FunctionCall(seq![x]) }]));
}

/// Reading back the decimal digits of a number gives the number: `digits_value` is the inverse
/// of writing a number in decimal.
pub proof fn law_digits_value_reads_decimal(n: nat)
    ensures
        forall|j: int| 0 <= j < decimal_digits(n).len() ==> is_digit(#[trigger] decimal_digits(n)[j]),
        decimal_digits(n).len() > 0,
        digits_value(decimal_digits(n)) == n,
    decreases n,
{
    let d = (n % 10) as int;
    assert(is_digit(digit_char(d)) && (digit_char(d) as nat) - ('0' as nat) == d);
    if n >= 10 {
        law_digits_value_reads_decimal(n / 10);
        let s = decimal_digits(n);
        let p = decimal_digits(n / 10);
        assert(s == p + seq![digit_char(d)]);
        assert(s.drop_last() =~= p);
        assert(s.last() == digit_char(d));
        assert forall|j: int| 0 <= j < s.len() implies is_digit(#[trigger] s[j]) by {
            if j < p.len() {
                assert(s[j] == p[j]);
            }
        }
        assert(n == (n / 10) * 10 + n % 10);
        assert(digits_value(s) == digits_value(p) * 10 + (((s.last() as nat) - ('0' as nat)) as nat));
    } else {
        let s = decimal_digits(n);
        assert(s == seq![digit_char(d)]);
        assert(s.drop_last() =~= Seq::<char>::empty());
        assert(digits_value(s.drop_last()) == 0);
        assert(digits_value(s) == digits_value(s.drop_last()) * 10 + (((s.last() as nat) - ('0' as nat)) as nat));
        assert(n % 10 == n);
    }
}

proof fn lemma_name_scan_to(s: Seq<char>, n: Seq<char>, i: int)
    requires
        0 <= i <= n.len(),
        n.len() > 0,
        forall|j: int| 0 <= j < n.len() ==> is_name_char(#[trigger] n[j]),
        s.len() > n.len(),
        s.take(n.len() as int) == n,
        s[n.len() as int] == '.' || s[n.len() as int] == '[',
    ensures
        name_scan(s, i, n.take(i), false) == if s[n.len() as int] == '.' {
            Scan::Done {
                name: Some(n),
                kind: Some(KindModel::Namespace),
                state: ParserState::Name,
                read: n.len() + 1int,
            }
        } else {
            Scan::Done { name: Some(n), kind: None, state: ParserState::Array, read: n.len() + 1int }
        },
    decreases n.len() - i,
{
    if i < n.len() {
        assert(s[i] == s.take(n.len() as int)[i]);
        assert(n.take(i).push(n[i]) =~= n.take(i + 1));
        lemma_name_scan_to(s, n, i + 1);
    } else {
        assert(n.take(i) =~= n);
    }
}

proof fn lemma_array_scan_plain(r: Seq<char>, d: Seq<char>, i: int)
    requires
        0 <= i <= d.len(),
        d.len() > 0,
        digits_value(d) <= usize::MAX,
        forall|j: int| 0 <= j < d.len() ==> is_digit(#[trigger] d[j]),
        r.len() > d.len(),
        r.take(d.len() as int) == d,
        r[d.len() as int] == ']',
    ensures
        array_scan(r, i, d.take(i), false) == (Scan::Done {
            name: None,
            kind: Some(KindModel::ArrayIndex(digits_value(d) as usize)),
            state: ParserState::AfterToken,
            read: d.len() + 1int,
        }),
    decreases d.len() - i,
{
    if i < d.len() {
        assert(r[i] == r.take(d.len() as int)[i]);
        assert(d.take(i).push(d[i]) =~= d.take(i + 1));
        lemma_array_scan_plain(r, d, i + 1);
    } else {
        assert(d.take(i) =~= d);
    }
}

/// An array index is the number written between the brackets: a name followed by the decimal
/// digits of a number `v` in square brackets is a single array index token of that name whose
/// index is `v`.
pub proof fn law_array_index_is_the_written_number(n: Seq<char>, v: usize)
    requires
        n.len() > 0,
        forall|j: int| 0 <= j < n.len() ==> is_name_char(#[trigger] n[j]),
    ensures
        spec_parse(n + seq!['['] + decimal_digits(v as nat) + seq![']']) == Ok::<Seq<TokenModel>, (int, Seq<char>)>(
            seq![TokenModel { name: n, kind: KindModel::ArrayIndex(v) }],
        ),
{
    let d = decimal_digits(v as nat);
    law_digits_value_reads_decimal(v as nat);
    let s = n + seq!['['] + d + seq![']'];
    let nl = n.len() as int;
    let dl = d.len() as int;
    let len = s.len() as int;
    assert(len == nl + dl + 2);
    assert(s.take(nl) =~= n);
    assert(s[nl] == '[');
    lemma_name_scan_to(s, n, 0);
    assert(n.take(0) =~= Seq::<char>::empty());
    assert(s.subrange(0, len) =~= s);
    let r = s.subrange(nl + 1, len);
    assert(r =~= d + seq![']']);
    assert(r.take(dl) =~= d);
    lemma_array_scan_plain(r, d, 0);
    assert(d.take(0) =~= Seq::<char>::empty());
    let tok = TokenModel { name: n, kind: KindModel::ArrayIndex(v) };
    assert(Seq::<TokenModel>::empty().push(tok) =~= seq![tok]);
    assert(parse_from(s, nl + 1, ParserState::Array, Some(n), Seq::empty()) == Ok::<
        Seq<TokenModel>,
        (int, Seq<char>),
    >(seq![tok]));
}

/// A dot separates a namespace from what follows: two names joined by a dot are a namespace
/// token of the first and a leaf token of the second.
pub proof fn law_dot_separates_namespace(a: Seq<char>, b: Seq<char>)
    requires
        a.len() > 0,
        b.len() > 0,
        forall|j: int| 0 <= j < a.len() ==> is_name_char(#[trigger] a[j]),
        forall|j: int| 0 <= j < b.len() ==> is_name_char(#[trigger] b[j]),
    ensures
        spec_parse(a + seq!['.'] + b) == Ok::<Seq<TokenModel>, (int, Seq<char>)>(
            seq![
                TokenModel { name: a, kind: KindModel::Namespace },
                TokenModel { name: b, kind: KindModel::Leaf },
            ],
        ),
{
    let s = a + seq!['.'] + b;
    let al = a.len() as int;
    let len = s.len() as int;
    assert(s.take(al) =~= a);
    assert(s[al] == '.');
    lemma_name_scan_to(s, a, 0);
    assert(a.take(0) =~= Seq::<char>::empty());
    assert(s.subrange(0, len) =~= s);
    let r = s.subrange(al + 1, len);
    assert(r =~= b);
    lemma_name_scan_all_name_chars(b, 0);
    assert(b.take(0) =~= Seq::<char>::empty());
    let t1 = TokenModel { name: a, kind: KindModel::Namespace };
    let t2 = TokenModel { name: b, kind: KindModel::Leaf };
    assert(Seq::<TokenModel>::empty().push(t1) =~= seq![t1]);
    assert(seq![t1].push(t2) =~= seq![t1, t2]);
    assert(parse_from(s, al + 1, ParserState::Name, None, seq![t1]) == Ok::<
        Seq<TokenModel>,
        (int, Seq<char>),
    >(seq![t1, t2]));
}

} // verus!
