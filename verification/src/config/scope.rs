//! Builder of scopes.
use vstd::prelude::*;
use crate::config::{ConfigError, first_error};
use crate::config::primitive_matchers::{
    build_string_matcher,
    string_matcher_ok,
    string_matcher_gives,
    string_matcher_error,
    last_string_pair,
};
use crate::macros::Scope;
use crate::focus::FocusedWindow;
use crate::match_checker::StringMatcher;
use crate::state::scope_matches;
use crate::text::lowercase_of;
use crate::raw_config::{RCHash, hash_of};

verus! {

/// Whether building a scope from a hash succeeds: each of the string matchers `window_class`,
/// `window_name`, `executable_path` and `executable_basename` builds.
pub open spec fn scope_ok(h: RCHash) -> bool {
    &&& string_matcher_ok(hash_of(h.field("window_class"@)))
    &&& string_matcher_ok(hash_of(h.field("window_name"@)))
    &&& string_matcher_ok(hash_of(h.field("executable_path"@)))
    &&& string_matcher_ok(hash_of(h.field("executable_basename"@)))
}

/// The error of building a scope from a hash, when it fails: that of the first of the string
/// matchers `window_class`, `window_name`, `executable_path` and `executable_basename` that
/// fails.
pub open spec fn scope_error(h: RCHash) -> Option<Seq<char>> {
    first_error(
        string_matcher_error(hash_of(h.field("window_class"@))),
        first_error(
            string_matcher_error(hash_of(h.field("window_name"@))),
            first_error(
                string_matcher_error(hash_of(h.field("executable_path"@))),
                string_matcher_error(hash_of(h.field("executable_basename"@))),
            ),
        ),
    )
}

/// Whether `out` is the scope built from a hash: the scope of the four string matchers, or none
/// when none of them gives a matcher.
pub open spec fn scope_gives(h: RCHash, out: Option<Scope>) -> bool {
    let wc = hash_of(h.field("window_class"@));
    let wn = hash_of(h.field("window_name"@));
    let ep = hash_of(h.field("executable_path"@));
    let eb = hash_of(h.field("executable_basename"@));
    match out {
        Some(s) => s.has_matchers() && string_matcher_gives(wc, s.window_class) && string_matcher_gives(
            wn,
            s.window_name,
        ) && string_matcher_gives(ep, s.executable_path) && string_matcher_gives(eb, s.executable_basename),
        None => string_matcher_gives(wc, None) && string_matcher_gives(wn, None) && string_matcher_gives(
            ep,
            None,
        ) && string_matcher_gives(eb, None),
    }
}

/// Builds a scope from a hash with the optional string matchers `window_class`, `window_name`,
/// `executable_path` and `executable_basename` (see `build_string_matcher`); none when none of
/// them gives a matcher.
pub fn build_scope(raw_scope: &RCHash) -> (r: Result<Option<Scope>, ConfigError>)
    ensures
        r is Ok == scope_ok(*raw_scope),
        r matches Ok(o) ==> scope_gives(*raw_scope, o),
        r matches Err(e) ==> e matches ConfigError::InvalidConfig(m) && scope_error(*raw_scope) == Some(m@),
{
    let window_class = match build_string_matcher(raw_scope.get_hash("window_class")) {
        Ok(m) => m,
        Err(e) => return Err(e),
    };
    let window_name = match build_string_matcher(raw_scope.get_hash("window_name")) {
        Ok(m) => m,
        Err(e) => return Err(e),
    };
    let executable_path = match build_string_matcher(raw_scope.get_hash("executable_path")) {
        Ok(m) => m,
        Err(e) => return Err(e),
    };
    let executable_basename = match build_string_matcher(raw_scope.get_hash("executable_basename")) {
        Ok(m) => m,
        Err(e) => return Err(e),
    };
    Ok(Scope::new(window_class, window_name, executable_path, executable_basename).into_option())
}

/// Each field of a scope is tested against the window property of the same name: a scope built
/// from a hash whose only matcher is an `is` matcher for `v` under `executable_basename` matches
/// exactly the windows whose executable basename is `v` (whatever their executable path).
pub proof fn law_basename_field_tests_the_basename(h: RCHash, out: Option<Scope>, b: RCHash, key: Seq<char>, v: Seq<char>, w: FocusedWindow)
    requires
        hash_of(h.field("window_class"@)) is None,
        hash_of(h.field("window_name"@)) is None,
        hash_of(h.field("executable_path"@)) is None,
        hash_of(h.field("executable_basename"@)) == Some(b),
        last_string_pair(b) == Some((key, v)),
        lowercase_of(key) == "is"@,
        scope_gives(h, out),
    ensures
        out is Some,
        scope_matches(out, Some(w)) <==> (w.executable_basename matches Some(x) && x@ == v),
{
    reveal_strlit("is");
    reveal_strlit("contains");
    reveal_strlit("starts_with");
    reveal_strlit("ends_with");
    reveal_strlit("regex");
    assert("contains"@.len() != "is"@.len());
    assert("starts_with"@.len() != "is"@.len());
    assert("ends_with"@.len() != "is"@.len());
    assert("regex"@.len() != "is"@.len());
    assert(out->0.executable_basename matches Some(StringMatcher::Is(x)) && x@ == v);
}

} // verus!
