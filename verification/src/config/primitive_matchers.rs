//! Builders of string matchers and number matchers.
use vstd::prelude::*;
use vstd::string::StringExecFns;
use crate::config::{ConfigError, message, message3};
use crate::match_checker::{NumberMatcher, StringMatcher, regex_check, regex_compile_error, regex_pattern_valid};
use crate::midi::{parse_keys_from_str, spec_keys_from_str};
use crate::raw_config::{RawConfig, RCHash, integer_of, opt_val};
use crate::text::{decimal, int_to_string, lowercase_of, to_lowercase, str_eq};

verus! {

/// The key and value of the last entry of `h`, when both are strings.
pub open spec fn last_string_pair(h: RCHash) -> Option<(Seq<char>, Seq<char>)> {
    let e = h.entries_view();
    if e.len() > 0 && e.last().0 is String && e.last().1 is String {
        Some((e.last().0->String_0@, e.last().1->String_0@))
    } else {
        None
    }
}


/// Whether building a number matcher from an optional value succeeds.
pub open spec fn number_matcher_ok(raw: Option<RawConfig>) -> bool {
    match raw {
        Some(r) => !number_matcher_fails(r),
        None => true,
    }
}

/// Whether `out` is the number matcher built from an optional value.
pub open spec fn number_matcher_gives(raw: Option<RawConfig>, out: Option<NumberMatcher>) -> bool {
    match raw {
        Some(r) => number_matcher_from(r, out),
        None => out is None,
    }
}

/// Whether building a key matcher from an optional value succeeds: a note string must name at
/// least one note; anything else is a number matcher.
pub open spec fn key_matcher_ok(raw: Option<RawConfig>) -> bool {
    match raw {
        Some(RawConfig::String(s)) => spec_keys_from_str(s@).len() > 0,
        _ => number_matcher_ok(raw),
    }
}

/// Whether `out` is the key matcher built from an optional value.
pub open spec fn key_matcher_gives(raw: Option<RawConfig>, out: Option<NumberMatcher>) -> bool {
    match raw {
        Some(RawConfig::String(s)) => out matches Some(m) && musical_matcher_is(m, spec_keys_from_str(s@)),
        _ => number_matcher_gives(raw, out),
    }
}

/// Whether building a string matcher from an optional hash succeeds: it fails only for a
/// `regex` whose pattern does not compile.
pub open spec fn string_matcher_ok(raw: Option<RCHash>) -> bool {
    match raw {
        Some(h) => match last_string_pair(h) {
            Some((key, value)) => !(lowercase_of(key) == "regex"@ && !regex_pattern_valid(value)),
            None => true,
        },
        None => true,
    }
}

/// Whether `out` is the string matcher built from an optional hash.
pub open spec fn string_matcher_gives(raw: Option<RCHash>, out: Option<StringMatcher>) -> bool {
    match raw {
        Some(h) => match last_string_pair(h) {
            Some((key, value)) => {
                let lk = lowercase_of(key);
                if lk == "is"@ {
                    out matches Some(StringMatcher::Is(v)) && v@ == value
                } else if lk == "contains"@ {
                    out matches Some(StringMatcher::Contains(v)) && v@ == value
                } else if lk == "starts_with"@ {
                    out matches Some(StringMatcher::StartsWith(v)) && v@ == value
                } else if lk == "ends_with"@ {
                    out matches Some(StringMatcher::EndsWith(v)) && v@ == value
                } else if lk == "regex"@ {
                    out matches Some(StringMatcher::Regex(v)) && v@ == value
                } else {
                    out is None
                }
            },
            None => out is None,
        },
        None => out is None,
    }
}

/// The error of building a string matcher from an optional hash, when it fails: a `regex`
/// whose pattern does not compile, described by the compiler.
pub open spec fn string_matcher_error(raw: Option<RCHash>) -> Option<Seq<char>> {
    match raw {
        Some(h) => match last_string_pair(h) {
            Some((key, value)) => if lowercase_of(key) == "regex"@ {
                match regex_compile_error(value) {
                    Some(e) => Some("String matcher: invalid regex. "@ + e),
                    None => None,
                }
            } else {
                None
            },
            None => None,
        },
        None => None,
    }
}

/// Builds a string matcher from a hash whose last entry names the kind of matcher (`is`,
/// `contains`, `starts_with`, `ends_with` or `regex`, in any case) and gives the string.
///
/// Returns `Ok(None)` when there is no hash, the hash is empty, its last entry is not a pair of
/// strings, or the key names no kind of matcher. Returns an error when the kind is `regex` and
/// the value does not compile as a regular expression.
pub fn build_string_matcher(raw_matcher: Option<&RCHash>) -> (r: Result<Option<StringMatcher>, ConfigError>)
    ensures
        r is Ok == string_matcher_ok(opt_val(raw_matcher)),
        r matches Ok(o) ==> string_matcher_gives(opt_val(raw_matcher), o),
        r is Ok ==> string_matcher_error(opt_val(raw_matcher)) is None,
        r matches Err(e) ==> e matches ConfigError::InvalidConfig(m) && string_matcher_error(opt_val(raw_matcher))
            == Some(m@),
{
    proof {
        reveal_strlit("is");
        reveal_strlit("contains");
        reveal_strlit("starts_with");
        reveal_strlit("ends_with");
        reveal_strlit("regex");
        assert("is"@.len() != "regex"@.len());
        assert("contains"@.len() != "regex"@.len());
        assert("starts_with"@.len() != "regex"@.len());
        assert("ends_with"@.len() != "regex"@.len());
    }
    let h = match raw_matcher {
        None => return Ok(None),
        Some(h) => h,
    };
    let n = h.len();
    if n == 0 {
        return Ok(None);
    }
    let (key, value) = h.entry(n - 1);
    let (key, value) = match (key, value) {
        (RawConfig::String(key), RawConfig::String(value)) => (key, value),
        _ => return Ok(None),
    };
    let lk = to_lowercase(key.as_str());
    let lk = lk.as_str();
    if str_eq(lk, "is") {
        Ok(Some(StringMatcher::Is(value.clone())))
    } else if str_eq(lk, "contains") {
        Ok(Some(StringMatcher::Contains(value.clone())))
    } else if str_eq(lk, "starts_with") {
        Ok(Some(StringMatcher::StartsWith(value.clone())))
    } else if str_eq(lk, "ends_with") {
        Ok(Some(StringMatcher::EndsWith(value.clone())))
    } else if str_eq(lk, "regex") {
        match regex_check(value.as_str()) {
            Ok(()) => Ok(Some(StringMatcher::Regex(value.clone()))),
            Err(e) => Err(ConfigError::InvalidConfig(message("String matcher: invalid regex. ", e.as_str()))),
        }
    } else {
        Ok(None)
    }
}

/// The message for a negative bound `v` of the range field `field`.
pub open spec fn negative_bound_message(v: i64, field: Seq<char>) -> Seq<char> {
    "Number range matcher supports only positive integers, got "@ + decimal(v as int) + " for "@ + field
}

/// The message for a range whose minimum `lo` exceeds its maximum `hi`.
pub open spec fn empty_range_message(lo: i64, hi: i64) -> Seq<char> {
    "Number range matcher will never match, since min ("@ + decimal(lo as int) + ") > max ("@ + decimal(
        hi as int,
    ) + ")"@
}

/// The error of building a number matcher from `raw`, when it fails: a negative value, a
/// negative range bound (`min` first), a range whose minimum exceeds its maximum, or the first
/// item of a list that fails.
pub open spec fn number_matcher_error(raw: RawConfig) -> Option<Seq<char>>
    decreases raw, 1int,
{
    match raw {
        RawConfig::Integer(i) => if i < 0 {
            Some("Number matcher only supports positive integers, "@ + decimal(i as int) + " given"@)
        } else {
            None
        },
        RawConfig::Hash(h) => {
            let lo = integer_of(h.field("min"@));
            let hi = integer_of(h.field("max"@));
            if lo is Some && lo->0 < 0 {
                Some(negative_bound_message(lo->0, "min"@))
            } else if hi is Some && hi->0 < 0 {
                Some(negative_bound_message(hi->0, "max"@))
            } else if lo is Some && hi is Some && lo->0 > hi->0 {
                Some(empty_range_message(lo->0, hi->0))
            } else {
                None
            }
        },
        RawConfig::Array(a) => number_list_error(a@),
        _ => None,
    }
}

/// The error of the first item of `items` whose number matcher fails, when one does.
pub open spec fn number_list_error(items: Seq<RawConfig>) -> Option<Seq<char>>
    decreases items, 0int,
{
    if items.len() == 0 {
        None
    } else {
        match number_list_error(items.drop_last()) {
            Some(m) => Some(m),
            None => number_matcher_error(items[items.len() - 1]),
        }
    }
}

/// Whether building a number matcher from `raw` fails.
pub open spec fn number_matcher_fails(raw: RawConfig) -> bool {
    number_matcher_error(raw) is Some
}

/// The error of building a number matcher from an optional value, when it fails.
pub open spec fn number_matcher_opt_error(raw: Option<RawConfig>) -> Option<Seq<char>> {
    match raw {
        Some(r) => number_matcher_error(r),
        None => None,
    }
}

/// Once a prefix of `items` has a failing item, the whole list fails with its error.
proof fn lemma_number_list_error_prefix(items: Seq<RawConfig>, n: int)
    requires
        0 <= n <= items.len(),
        number_list_error(items.take(n)) is Some,
    ensures
        number_list_error(items) == number_list_error(items.take(n)),
    decreases items.len() - n,
{
    if n < items.len() {
        assert(items.take(n + 1).drop_last() =~= items.take(n));
        lemma_number_list_error_prefix(items, n + 1);
    } else {
        assert(items.take(n) =~= items);
    }
}

/// Whether building a number matcher from `raw` (when it does not fail) gives a matcher rather
/// than none: a value, a range hash, or a list with at least one such item.
pub open spec fn number_matcher_present(raw: RawConfig) -> bool
    decreases raw,
{
    match raw {
        RawConfig::Integer(_) => true,
        RawConfig::Hash(_) => true,
        RawConfig::Array(a) => exists|i: int| 0 <= i < a@.len() && number_matcher_present(#[trigger] a@[i]),
        _ => false,
    }
}

/// A non-negative integer as a `u32`, as Rust's `as` converts it.
pub open spec fn as_u32(i: i64) -> u32 {
    i as u32
}

/// Whether `out` is what building a number matcher from `raw` gives: a value for an integer, a
/// range with the `min` and `max` fields for a hash, the list of the matchers of the items that
/// give one for a list (none when no item does), and none for anything else.
pub open spec fn number_matcher_from(raw: RawConfig, out: Option<NumberMatcher>) -> bool
    decreases raw, 1int,
{
    match raw {
        RawConfig::Integer(i) => out == Some(NumberMatcher::Val(as_u32(i))),
        RawConfig::Hash(h) => out == Some(NumberMatcher::Range {
            min: match integer_of(h.field("min"@)) {
                Some(x) => Some(as_u32(x)),
                None => None,
            },
            max: match integer_of(h.field("max"@)) {
                Some(y) => Some(as_u32(y)),
                None => None,
            },
        }),
        RawConfig::Array(a) => if number_matcher_present(raw) {
            out matches Some(NumberMatcher::List(list)) && number_list_from(a@, list@)
        } else {
            out is None
        },
        _ => out is None,
    }
}

/// Whether `list` holds, in order, the matchers built from the items of `items` that give one.
pub open spec fn number_list_from(items: Seq<RawConfig>, list: Seq<NumberMatcher>) -> bool
    decreases items, 0int,
{
    if items.len() == 0 {
        list.len() == 0
    } else if number_matcher_present(items[0]) {
        list.len() > 0 && number_matcher_from(items[0], Some(list[0])) && number_list_from(
            items.drop_first(),
            list.drop_first(),
        )
    } else {
        number_list_from(items.drop_first(), list)
    }
}

proof fn lemma_number_list_append(
    items: Seq<RawConfig>,
    list: Seq<NumberMatcher>,
    x: RawConfig,
    out: Option<NumberMatcher>,
)
    requires
        number_list_from(items, list),
        number_matcher_from(x, out),
        out is Some == number_matcher_present(x),
    ensures
        number_list_from(
            items.push(x),
            match out {
                Some(m) => list.push(m),
                None => list,
            },
        ),
    decreases items.len(),
{
    let new_list = match out {
        Some(m) => list.push(m),
        None => list,
    };
    reveal_with_fuel(number_list_from, 2);
    if items.len() == 0 {
        assert(items.push(x).drop_first() =~= Seq::<RawConfig>::empty());
        assert(items.push(x)[0] == x);
        if out is Some {
            assert(new_list.drop_first() =~= Seq::<NumberMatcher>::empty());
            assert(new_list[0] == out.unwrap());
        }
    } else {
        assert(items.push(x)[0] == items[0]);
        assert(items.push(x).drop_first() =~= items.drop_first().push(x));
        if number_matcher_present(items[0]) {
            lemma_number_list_append(items.drop_first(), list.drop_first(), x, out);
            let tail_list = match out {
                Some(m) => list.drop_first().push(m),
                None => list.drop_first(),
            };
            assert(new_list.drop_first() =~= tail_list);
            assert(new_list[0] == list[0]);
        } else {
            lemma_number_list_append(items.drop_first(), list, x, out);
        }
    }
}

proof fn lemma_number_matcher_present(raw: RawConfig, out: Option<NumberMatcher>)
    requires
        number_matcher_from(raw, out),
    ensures
        out is Some == number_matcher_present(raw),
{
}

/// Builds a number matcher from a configuration value.
///
/// - An integer gives a matcher of that value; it must not be negative.
/// - A hash gives a range with its optional `min` and `max` integer fields as bounds; neither
///   may be negative, and `min` may not exceed `max`.
/// - A list gives a list of the matchers its items give (nested lists included), or none when
///   no item gives one; the first item that fails makes the whole fail with its error.
/// - Anything else, or no value, gives no matcher, which matches every number.
pub fn build_number_matcher(matcher: Option<&RawConfig>) -> (r: Result<Option<NumberMatcher>, ConfigError>)
    ensures
        match matcher {
            None => r matches Ok(None),
            Some(raw) => (r is Err == number_matcher_fails(*raw)) && (r matches Ok(o) ==> number_matcher_from(*raw, o)),
        },
        r is Ok == number_matcher_ok(opt_val(matcher)),
        r matches Ok(o) ==> number_matcher_gives(opt_val(matcher), o),
        r matches Err(e) ==> e matches ConfigError::InvalidConfig(m) && number_matcher_opt_error(opt_val(matcher))
            == Some(m@),
{
    match matcher {
        None => Ok(None),
        Some(raw) => build_number_matcher_from_value(raw),
    }
}

/// The message for a negative bound `v` of the range field `field`.
fn negative_bound_error(v: i64, field: &str) -> (r: String)
    ensures
        r@ == negative_bound_message(v, field@),
{
    let mut s = message3("Number range matcher supports only positive integers, got ", int_to_string(v).as_str(), " for ");
    s.append(field);
    s
}

/// The message for a range whose minimum `lo` exceeds its maximum `hi`.
fn empty_range_error(lo: i64, hi: i64) -> (r: String)
    ensures
        r@ == empty_range_message(lo, hi),
{
    let mut s = message3(
        "Number range matcher will never match, since min (",
        int_to_string(lo).as_str(),
        ") > max (",
    );
    s.append(int_to_string(hi).as_str());
    s.append(")");
    s
}

/// Builds a number matcher from a configuration value, as `build_number_matcher` describes.
#[verifier::loop_isolation(false)]
fn build_number_matcher_from_value(raw: &RawConfig) -> (r: Result<Option<NumberMatcher>, ConfigError>)
    ensures
        r is Err == number_matcher_fails(*raw),
        r matches Ok(o) ==> number_matcher_from(*raw, o),
        r matches Err(e) ==> e matches ConfigError::InvalidConfig(m) && number_matcher_error(*raw) == Some(m@),
    decreases raw,
{
    match raw {
        RawConfig::Integer(i) => {
            if *i >= 0 {
                Ok(Some(NumberMatcher::Val(*i as u32)))
            } else {
                Err(ConfigError::InvalidConfig(message3(
                    "Number matcher only supports positive integers, ",
                    int_to_string(*i).as_str(),
                    " given",
                )))
            }
        },
        RawConfig::Array(arr) => {
            let mut matcher_list: Vec<NumberMatcher> = Vec::new();
            let mut i: usize = 0;
            assert(arr@.take(0) =~= Seq::<RawConfig>::empty());
            while i < arr.len()
                invariant
                    i <= arr@.len(),
                    number_list_error(arr@.take(i as int)) is None,
                    number_list_from(arr@.take(i as int), matcher_list@),
                    matcher_list@.len() > 0 <==> exists|j: int| 0 <= j < i && number_matcher_present(#[trigger] arr@[j]),
                decreases arr.len() - i,
            {
                proof {
                    assert(decreases_to!(*raw => *arr));
                    assert(decreases_to!(*arr => arr@));
                    assert(decreases_to!(arr@ => arr@[i as int]));
                    assert(arr@.take(i + 1).drop_last() =~= arr@.take(i as int));
                    assert(arr@.take(i + 1)[i as int] == arr@[i as int]);
                }
                let item = &arr[i];
                let built = build_number_matcher_from_value(item);
                match built {
                    Err(e) => {
                        proof {
                            lemma_number_list_error_prefix(arr@, i + 1);
                        }
                        return Err(e);
                    },
                    Ok(o) => {
                        proof {
                            lemma_number_matcher_present(*item, o);
                            lemma_number_list_append(arr@.take(i as int), matcher_list@, *item, o);
                            assert(arr@.take(i as int).push(*item) =~= arr@.take(i + 1));
                        }
                        match o {
                            Some(m) => {
                                matcher_list.push(m);
                            },
                            None => {},
                        }
                    },
                }
                i = i + 1;
            }
            assert(arr@.take(arr@.len() as int) =~= arr@);
            if matcher_list.len() == 0 {
                Ok(None)
            } else {
                Ok(Some(NumberMatcher::List(matcher_list)))
            }
        },
        RawConfig::Hash(range) => {
            let raw_min_val = range.get_integer("min");
            let raw_max_val = range.get_integer("max");
            let mut min_val: Option<u32> = None;
            let mut max_val: Option<u32> = None;
            if let Some(lo) = raw_min_val {
                if lo >= 0 {
                    min_val = Some(lo as u32);
                } else {
                    return Err(ConfigError::InvalidConfig(negative_bound_error(lo, "min")));
                }
            }
            if let Some(hi) = raw_max_val {
                if hi >= 0 {
                    max_val = Some(hi as u32);
                } else {
                    return Err(ConfigError::InvalidConfig(negative_bound_error(hi, "max")));
                }
            }
            if let (Some(lo), Some(hi)) = (raw_min_val, raw_max_val) {
                if lo > hi {
                    return Err(ConfigError::InvalidConfig(empty_range_error(lo, hi)));
                }
            }
            Ok(Some(NumberMatcher::Range { min: min_val, max: max_val }))
        },
        _ => Ok(None),
    }
}

/// The message for a note string `s` that names no MIDI note.
pub open spec fn note_string_message(s: Seq<char>) -> Seq<char> {
    "The key string '"@ + s + "' matches no valid MIDI note number(s)"@
}

/// The error of building a key matcher from an optional value, when it fails.
pub open spec fn key_matcher_error(raw: Option<RawConfig>) -> Option<Seq<char>> {
    match raw {
        Some(RawConfig::String(s)) => if spec_keys_from_str(s@).len() == 0 {
            Some(note_string_message(s@))
        } else {
            None
        },
        _ => number_matcher_opt_error(raw),
    }
}

/// Builds a number matcher from a note string (see `parse_keys_from_str`): a value for a single
/// note, a list of values for several. Fails when the string names no MIDI note.
pub fn build_number_matcher_from_musical_note(key_str: &str) -> (r: Result<NumberMatcher, ConfigError>)
    ensures
        ({
            let notes = spec_keys_from_str(key_str@);
            if notes.len() == 0 {
                r matches Err(ConfigError::InvalidConfig(m)) && m@ == note_string_message(key_str@)
            } else if notes.len() == 1 {
                r == Ok::<NumberMatcher, ConfigError>(NumberMatcher::Val(notes[0] as u32))
            } else {
                r matches Ok(NumberMatcher::List(list)) && list@.len() == notes.len() && forall|i: int|
                    0 <= i < notes.len() ==> #[trigger] list@[i] == NumberMatcher::Val(notes[i] as u32)
            }
        }),
{
    let midi_notes = parse_keys_from_str(key_str);
    if midi_notes.len() == 0 {
        return Err(ConfigError::InvalidConfig(message3(
            "The key string '",
            key_str,
            "' matches no valid MIDI note number(s)",
        )));
    }
    if midi_notes.len() == 1 {
        return Ok(NumberMatcher::Val(midi_notes[0] as u32));
    }
    let mut list: Vec<NumberMatcher> = Vec::new();
    let mut i: usize = 0;
    while i < midi_notes.len()
        invariant
            i <= midi_notes@.len(),
            list@.len() == i,
            forall|j: int| 0 <= j < i ==> #[trigger] list@[j] == NumberMatcher::Val(midi_notes@[j] as u32),
        decreases midi_notes.len() - i,
    {
        list.push(NumberMatcher::Val(midi_notes[i] as u32));
        i = i + 1;
    }
    Ok(NumberMatcher::List(list))
}

/// Builds a matcher for a key: a note string gives the notes it names (see
/// `build_number_matcher_from_musical_note`); anything else is a number matcher.
pub fn build_musical_key_matcher(matcher: Option<&RawConfig>) -> (r: Result<Option<NumberMatcher>, ConfigError>)
    ensures
        match matcher {
            Some(RawConfig::String(s)) => match build_number_matcher_from_musical_note_result(s@) {
                None => r is Err,
                Some(notes) => r matches Ok(Some(m)) && musical_matcher_is(m, notes),
            },
            None => r matches Ok(None),
            Some(raw) => (r is Err == number_matcher_fails(*raw)) && (r matches Ok(o) ==> number_matcher_from(*raw, o)),
        },
        r is Ok == key_matcher_ok(opt_val(matcher)),
        r matches Ok(o) ==> key_matcher_gives(opt_val(matcher), o),
        r matches Err(e) ==> e matches ConfigError::InvalidConfig(m) && key_matcher_error(opt_val(matcher)) == Some(m@),
{
    match matcher {
        Some(RawConfig::String(s)) => {
            match build_number_matcher_from_musical_note(s.as_str()) {
                Ok(m) => Ok(Some(m)),
                Err(e) => Err(e),
            }
        },
        _ => build_number_matcher(matcher),
    }
}

/// The notes that a note string names, when it names any.
pub open spec fn build_number_matcher_from_musical_note_result(s: Seq<char>) -> Option<Seq<u8>> {
    let notes = spec_keys_from_str(s);
    if notes.len() == 0 {
        None
    } else {
        Some(notes)
    }
}

/// Whether `m` matches exactly the listed notes, as built from a note string: one value for one
/// note, a list of values otherwise.
pub open spec fn musical_matcher_is(m: NumberMatcher, notes: Seq<u8>) -> bool {
    if notes.len() == 1 {
        m == NumberMatcher::Val(notes[0] as u32)
    } else {
        m matches NumberMatcher::List(list) && list@.len() == notes.len() && forall|i: int|
            0 <= i < notes.len() ==> #[trigger] list@[i] == NumberMatcher::Val(notes[i] as u32)
    }
}


/// The matcher built from a non-negative integer that fits in a `u32` accepts exactly that
/// number.
pub proof fn law_value_matcher_accepts_only_its_value(i: i64, m: NumberMatcher, n: u32)
    requires
        0 <= i <= u32::MAX,
        number_matcher_from(RawConfig::Integer(i), Some(m)),
    ensures
        m.spec_matches(n) <==> n == i,
{
}

/// The matcher built from a range hash whose bounds fit in a `u32` accepts exactly the numbers
/// between its bounds.
pub proof fn law_range_matcher_accepts_its_range(h: RCHash, m: NumberMatcher, n: u32)
    requires
        !number_matcher_fails(RawConfig::Hash(h)),
        integer_of(h.field("min"@)) matches Some(lo) ==> lo <= u32::MAX,
        integer_of(h.field("max"@)) matches Some(hi) ==> hi <= u32::MAX,
        number_matcher_from(RawConfig::Hash(h), Some(m)),
    ensures
        m.spec_matches(n) <==> ((integer_of(h.field("min"@)) matches Some(lo) ==> lo <= n) && (integer_of(
            h.field("max"@),
        ) matches Some(hi) ==> n <= hi)),
{
}

} // verus!
