//! Matchers for numbers and strings, used by scopes, event matchers and preconditions.
use vstd::prelude::*;
use crate::text::str_chars;

verus! {

/// Tells whether a number is acceptable.
#[derive(Debug, PartialEq)]
pub enum NumberMatcher {
    /// Matches exactly this value.
    Val(u32),
    /// Matches values from `min` up to and including `max`; a missing bound is open.
    Range { min: Option<u32>, max: Option<u32> },
    /// Matches when any of the listed matchers matches.
    List(Vec<NumberMatcher>),
}

/// An optional number matcher; `None` matches every number.
pub type NumMatch = Option<NumberMatcher>;

impl NumberMatcher {
    /// Whether this matcher accepts `n`.
    pub open spec fn spec_matches(self, n: u32) -> bool
        decreases self,
    {
        match self {
            NumberMatcher::Val(v) => n == v,
            NumberMatcher::Range { min, max } => (min matches Some(lo) ==> lo <= n) && (
            max matches Some(hi) ==> n <= hi),
            NumberMatcher::List(list) => exists|i: int|
                0 <= i < list@.len() && (#[trigger] list@[i]).spec_matches(n),
        }
    }

    /// Checks whether this matcher accepts `n`.
    #[verifier::loop_isolation(false)]
    pub fn matches(&self, n: u32) -> (r: bool)
        ensures
            r == self.spec_matches(n),
        decreases self,
    {
        match self {
            NumberMatcher::Val(v) => n == *v,
            NumberMatcher::Range { min, max } => {
                let lo_ok = match min {
                    Some(lo) => *lo <= n,
                    None => true,
                };
                let hi_ok = match max {
                    Some(hi) => n <= *hi,
                    None => true,
                };
                lo_ok && hi_ok
            },
            NumberMatcher::List(list) => {
                let mut i: usize = 0;
                while i < list.len()
                    invariant
                        i <= list@.len(),
                        forall|j: int| 0 <= j < i ==> !(#[trigger] list@[j]).spec_matches(n),
                    decreases list.len() - i,
                {
                    proof {
                        assert(decreases_to!(*self => *list));
                        assert(decreases_to!(*list => list@));
                        assert(decreases_to!(list@ => list@[i as int]));
                    }
                    if list[i].matches(n) {
                        return true;
                    }
                    i = i + 1;
                }
                false
            },
        }
    }
}

/// Whether an optional number matcher accepts `n`; no matcher accepts everything.
pub open spec fn num_match_accepts(m: NumMatch, n: u32) -> bool {
    match m {
        Some(matcher) => matcher.spec_matches(n),
        None => true,
    }
}

/// Checks whether an optional number matcher accepts `n`.
pub fn num_match_matches(m: &NumMatch, n: u32) -> (r: bool)
    ensures
        r == num_match_accepts(*m, n),
{
    match m {
        Some(matcher) => matcher.matches(n),
        None => true,
    }
}

/// Tells whether a string is acceptable.
#[derive(Debug, PartialEq)]
pub enum StringMatcher {
    /// The string equals this one.
    Is(String),
    /// The string contains this one.
    Contains(String),
    /// The string starts with this one.
    StartsWith(String),
    /// The string ends with this one.
    EndsWith(String),
    /// The string matches this regular expression pattern; a pattern that does not compile
    /// matches nothing.
    Regex(String),
}

/// Whether `p` is a prefix of `s`.
pub open spec fn spec_starts_with(s: Seq<char>, p: Seq<char>) -> bool {
    p.len() <= s.len() && s.subrange(0, p.len() as int) == p
}

/// Whether `p` is a suffix of `s`.
pub open spec fn spec_ends_with(s: Seq<char>, p: Seq<char>) -> bool {
    p.len() <= s.len() && s.subrange(s.len() - p.len(), s.len() as int) == p
}

/// Whether `p` occurs somewhere in `s`.
pub open spec fn spec_contains(s: Seq<char>, p: Seq<char>) -> bool {
    exists|i: int| 0 <= i && i + p.len() <= s.len() && #[trigger] s.subrange(i, i + p.len()) == p
}

/// The `to_string` of the error that `regex::Regex::new(p)` gives for the pattern `p`, or none
/// when it compiles.
pub uninterp spec fn regex_compile_error(p: Seq<char>) -> Option<Seq<char>>;

/// Whether the pattern `p` compiles with `regex::Regex::new`.
pub open spec fn regex_pattern_valid(p: Seq<char>) -> bool {
    regex_compile_error(p) is None
}

/// The result of `regex::Regex::is_match(t)` on the regex compiled from the pattern `p`.
pub uninterp spec fn regex_pattern_matches(p: Seq<char>, t: Seq<char>) -> bool;

/// Compiles `pattern` with `regex::Regex::new` and reports whether that succeeded, with the
/// `to_string` of the compiler's error when it did not. Claimed: the outcome and the text are
/// facts of the pattern alone; what the text says is not described.
#[verifier::external_body]
pub(crate) fn regex_check(pattern: &str) -> (r: Result<(), String>)
    ensures
        match regex_compile_error(pattern@) {
            None => r is Ok,
            Some(m) => r matches Err(e) && e@ == m,
        },
{
    match regex::Regex::new(pattern) {
        Ok(_) => Ok(()),
        Err(e) => Err(e.to_string()),
    }
}

/// Compiles `pattern` with `regex::Regex::new` and runs `regex::Regex::is_match` on `text`.
/// Claimed: `None` exactly when the pattern does not compile, else the result of `is_match`, a
/// fact of the pattern and the text alone.
#[verifier::external_body]
pub(crate) fn regex_is_match(pattern: &str, text: &str) -> (r: Option<bool>)
    ensures
        match r {
            Some(b) => regex_pattern_valid(pattern@) && b == regex_pattern_matches(pattern@, text@),
            None => !regex_pattern_valid(pattern@),
        },
{
    match regex::Regex::new(pattern) {
        Ok(re) => Some(re.is_match(text)),
        Err(_) => None,
    }
}

/// Whether `p` starts `s` at position `i`.
fn occurs_at(s: &Vec<char>, p: &Vec<char>, i: usize) -> (r: bool)
    requires
        i + p@.len() <= s@.len(),
    ensures
        r == (s@.subrange(i as int, i + p@.len()) == p@),
{
    let mut j: usize = 0;
    while j < p.len()
        invariant
            i + p@.len() <= s@.len(),
            i + p.len() <= s.len(),
            j <= p@.len(),
            forall|k: int| 0 <= k < j ==> s@[i + k] == p@[k],
        decreases p.len() - j,
    {
        if s[i + j] != p[j] {
            assert(s@.subrange(i as int, i + p@.len())[j as int] != p@[j as int]);
            return false;
        }
        j = j + 1;
    }
    assert(s@.subrange(i as int, i + p@.len()) =~= p@);
    true
}

/// Checks whether `p` is a prefix of `s`.
pub fn chars_starts_with(s: &Vec<char>, p: &Vec<char>) -> (r: bool)
    ensures
        r == spec_starts_with(s@, p@),
{
    if p.len() > s.len() {
        false
    } else {
        occurs_at(s, p, 0)
    }
}

/// Checks whether `p` is a suffix of `s`.
pub fn chars_ends_with(s: &Vec<char>, p: &Vec<char>) -> (r: bool)
    ensures
        r == spec_ends_with(s@, p@),
{
    if p.len() > s.len() {
        false
    } else {
        occurs_at(s, p, s.len() - p.len())
    }
}

/// Checks whether `p` occurs in `s`.
pub fn chars_contains(s: &Vec<char>, p: &Vec<char>) -> (r: bool)
    ensures
        r == spec_contains(s@, p@),
{
    if p.len() > s.len() {
        return false;
    }
    let last = s.len() - p.len();
    let mut i: usize = 0;
    loop
        invariant
            last + p@.len() == s@.len(),
            i <= last,
            forall|k: int| 0 <= k < i ==> #[trigger] s@.subrange(k, k + p@.len()) != p@,
        decreases last - i,
    {
        if occurs_at(s, p, i) {
            return true;
        }
        if i == last {
            return false;
        }
        i = i + 1;
    }
}

impl Clone for StringMatcher {
    fn clone(&self) -> (r: Self)
        ensures
            r == *self,
    {
        match self {
            StringMatcher::Is(v) => StringMatcher::Is(v.clone()),
            StringMatcher::Contains(v) => StringMatcher::Contains(v.clone()),
            StringMatcher::StartsWith(v) => StringMatcher::StartsWith(v.clone()),
            StringMatcher::EndsWith(v) => StringMatcher::EndsWith(v.clone()),
            StringMatcher::Regex(v) => StringMatcher::Regex(v.clone()),
        }
    }
}

impl StringMatcher {
    /// Whether this matcher accepts the string `s`.
    pub open spec fn spec_matches(self, s: Seq<char>) -> bool {
        match self {
            StringMatcher::Is(v) => s == v@,
            StringMatcher::Contains(v) => spec_contains(s, v@),
            StringMatcher::StartsWith(v) => spec_starts_with(s, v@),
            StringMatcher::EndsWith(v) => spec_ends_with(s, v@),
            StringMatcher::Regex(p) => regex_pattern_valid(p@) && regex_pattern_matches(p@, s),
        }
    }

    /// Checks whether this matcher accepts `s`.
    pub fn matches(&self, s: &str) -> (r: bool)
        ensures
            r == self.spec_matches(s@),
    {
        match self {
            StringMatcher::Regex(p) => {
                let ps = p.as_str();
                assert(ps@ == p@);
                match regex_is_match(ps, s) {
                    Some(b) => b,
                    None => false,
                }
            },
            StringMatcher::Is(v) => {
                let a = str_chars(s);
                let b = str_chars(v.as_str());
                let r = chars_starts_with(&a, &b) && a.len() == b.len();
                proof {
                    if a@.len() == b@.len() {
                        assert(a@.subrange(0, b@.len() as int) =~= a@);
                    }
                }
                r
            },
            StringMatcher::Contains(v) => {
                let a = str_chars(s);
                let b = str_chars(v.as_str());
                chars_contains(&a, &b)
            },
            StringMatcher::StartsWith(v) => {
                let a = str_chars(s);
                let b = str_chars(v.as_str());
                chars_starts_with(&a, &b)
            },
            StringMatcher::EndsWith(v) => {
                let a = str_chars(s);
                let b = str_chars(v.as_str());
                chars_ends_with(&a, &b)
            },
        }
    }
}

/// String matchers compare as their names say: `Is` accepts exactly its text; `StartsWith`
/// accepts its text followed by anything and only strings that begin with it; `EndsWith`
/// accepts anything followed by its text and only strings that end with it; `Contains` accepts
/// its text with anything around it.
pub proof fn law_string_matchers_compare_as_named(p: String, a: Seq<char>, b: Seq<char>, s: Seq<char>)
    ensures
        StringMatcher::Is(p).spec_matches(s) <==> s == p@,
        StringMatcher::StartsWith(p).spec_matches(p@ + b),
        StringMatcher::StartsWith(p).spec_matches(s) ==> p@.len() <= s.len() && forall|i: int|
            0 <= i < p@.len() ==> #[trigger] s[i] == p@[i],
        StringMatcher::EndsWith(p).spec_matches(a + p@),
        StringMatcher::EndsWith(p).spec_matches(s) ==> p@.len() <= s.len() && forall|i: int|
            0 <= i < p@.len() ==> #[trigger] s[s.len() - p@.len() + i] == p@[i],
        StringMatcher::Contains(p).spec_matches(a + p@ + b),
{
    assert((p@ + b).subrange(0, p@.len() as int) =~= p@);
    let e = a + p@;
    assert(e.subrange(e.len() - p@.len(), e.len() as int) =~= p@);
    let c = a + p@ + b;
    assert(c.subrange(a.len() as int, (a.len() + p@.len()) as int) =~= p@);
    if StringMatcher::StartsWith(p).spec_matches(s) {
        assert forall|i: int| 0 <= i < p@.len() implies #[trigger] s[i] == p@[i] by {
            assert(s.subrange(0, p@.len() as int)[i] == s[i]);
        }
    }
    if StringMatcher::EndsWith(p).spec_matches(s) {
        assert forall|i: int| 0 <= i < p@.len() implies #[trigger] s[s.len() - p@.len() + i] == p@[i] by {
            assert(s.subrange(s.len() - p@.len(), s.len() as int)[i] == s[s.len() - p@.len() + i]);
        }
    }
}

} // verus!
