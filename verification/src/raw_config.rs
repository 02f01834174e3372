//! The intermediary tree that configuration files are read into.
use vstd::prelude::*;
use vstd::string::StringExecFns;
use crate::config::first_error;

verus! {

/// A configuration value: scalar, list, or hash with ordered entries.
#[derive(Debug, PartialEq)]
pub enum RawConfig {
    Null,
    Bool(bool),
    Integer(i64),
    String(String),
    Array(Vec<RawConfig>),
    Hash(RCHash),
}

/// A hash of configuration values with unique keys, in insertion order.
#[derive(Debug, PartialEq)]
pub struct RCHash {
    entries: Vec<(RawConfig, RawConfig)>,
}

/// Whether `a` and `b` are the same configuration value: same kind, same contents, compared
/// element by element.
pub closed spec fn same(a: RawConfig, b: RawConfig) -> bool
    decreases a,
{
    match (a, b) {
        (RawConfig::Null, RawConfig::Null) => true,
        (RawConfig::Bool(x), RawConfig::Bool(y)) => x == y,
        (RawConfig::Integer(x), RawConfig::Integer(y)) => x == y,
        (RawConfig::String(x), RawConfig::String(y)) => x@ == y@,
        (RawConfig::Array(x), RawConfig::Array(y)) => x@.len() == y@.len() && forall|i: int|
            0 <= i < x@.len() ==> same(#[trigger] x@[i], y@[i]),
        (RawConfig::Hash(x), RawConfig::Hash(y)) => x.entries@.len() == y.entries@.len()
            && forall|i: int|
            0 <= i < x.entries@.len() ==> same((#[trigger] x.entries@[i]).0, y.entries@[i].0) && same(
                x.entries@[i].1,
                y.entries@[i].1,
            ),
        _ => false,
    }
}



/// Whether `key` is the string key `name`.
pub open spec fn is_name_key(key: RawConfig, name: Seq<char>) -> bool {
    key matches RawConfig::String(s) && s@ == name
}

/// Index of the first entry whose key is the string `name`.
pub open spec fn first_named(entries: Seq<(RawConfig, RawConfig)>, name: Seq<char>) -> Option<int>
    decreases entries.len(),
{
    if entries.len() == 0 {
        None
    } else if is_name_key(entries[0].0, name) {
        Some(0)
    } else {
        match first_named(entries.drop_first(), name) {
            Some(i) => Some(i + 1),
            None => None,
        }
    }
}

/// Index of the first entry whose key is the same as `key`.
pub closed spec fn first_same(entries: Seq<(RawConfig, RawConfig)>, key: RawConfig) -> Option<int>
    decreases entries.len(),
{
    if entries.len() == 0 {
        None
    } else if same(entries[0].0, key) {
        Some(0)
    } else {
        match first_same(entries.drop_first(), key) {
            Some(i) => Some(i + 1),
            None => None,
        }
    }
}

proof fn lemma_first_named(entries: Seq<(RawConfig, RawConfig)>, name: Seq<char>)
    ensures
        first_named(entries, name) matches Some(i) ==> 0 <= i < entries.len() && is_name_key(
            entries[i].0,
            name,
        ) && forall|j: int| 0 <= j < i ==> !is_name_key(#[trigger] entries[j].0, name),
        first_named(entries, name) is None ==> forall|j: int|
            0 <= j < entries.len() ==> !is_name_key(#[trigger] entries[j].0, name),
    decreases entries.len(),
{
    if entries.len() > 0 {
        lemma_first_named(entries.drop_first(), name);
        assert forall|j: int| 1 <= j < entries.len() implies entries[j] == entries.drop_first()[j - 1] by {}
    }
}

/// The value of a string option: the characters of a string value.
pub open spec fn string_of(v: Option<RawConfig>) -> Option<Seq<char>> {
    match v {
        Some(RawConfig::String(s)) => Some(s@),
        _ => None,
    }
}

/// The value of an integer option.
pub open spec fn integer_of(v: Option<RawConfig>) -> Option<i64> {
    match v {
        Some(RawConfig::Integer(i)) => Some(i),
        _ => None,
    }
}

/// The value of a boolean option.
pub open spec fn bool_of(v: Option<RawConfig>) -> Option<bool> {
    match v {
        Some(RawConfig::Bool(b)) => Some(b),
        _ => None,
    }
}

/// The hash of a hash option.
pub open spec fn hash_of(v: Option<RawConfig>) -> Option<RCHash> {
    match v {
        Some(RawConfig::Hash(h)) => Some(h),
        _ => None,
    }
}

/// The list of a list option.
pub open spec fn array_of(v: Option<RawConfig>) -> Option<Seq<RawConfig>> {
    match v {
        Some(RawConfig::Array(a)) => Some(a@),
        _ => None,
    }
}


/// The value behind an optional reference.
pub open spec fn opt_val<T>(o: Option<&T>) -> Option<T> {
    match o {
        Some(x) => Some(*x),
        None => None,
    }
}

/// The hashes among `items`, in order; other values are skipped.
pub open spec fn hash_items(items: Seq<RawConfig>) -> Seq<RCHash>
    decreases items.len(),
{
    if items.len() == 0 {
        Seq::empty()
    } else {
        let rest = hash_items(items.drop_last());
        match items.last() {
            RawConfig::Hash(h) => rest.push(h),
            _ => rest,
        }
    }
}

/// The items of an optional list, or none.
pub open spec fn list_or_empty(items: Option<Seq<RawConfig>>) -> Seq<RawConfig> {
    match items {
        Some(a) => a,
        None => Seq::empty(),
    }
}

/// Extending a prefix of `items` by one item extends its hashes by that item when it is a hash.
pub proof fn lemma_hash_items_step(items: Seq<RawConfig>, i: int)
    requires
        0 <= i < items.len(),
    ensures
        hash_items(items.take(i + 1)) == match items[i] {
            RawConfig::Hash(h) => hash_items(items.take(i)).push(h),
            _ => hash_items(items.take(i)),
        },
{
    assert(items.take(i + 1).drop_last() =~= items.take(i));
}


/// The hashes of a prefix of `items` are a prefix of the hashes of `items`.
pub proof fn lemma_hash_items_prefix(items: Seq<RawConfig>, n: int)
    requires
        0 <= n <= items.len(),
    ensures
        hash_items(items.take(n)).len() <= hash_items(items).len(),
        forall|j: int|
            0 <= j < hash_items(items.take(n)).len() ==> #[trigger] hash_items(items.take(n))[j]
                == hash_items(items)[j],
    decreases items.len() - n,
{
    if n < items.len() {
        lemma_hash_items_prefix(items, n + 1);
        lemma_hash_items_step(items, n);
        assert forall|j: int| 0 <= j < hash_items(items.take(n)).len() implies #[trigger] hash_items(
            items.take(n),
        )[j] == hash_items(items)[j] by {
            assert(hash_items(items.take(n))[j] == hash_items(items.take(n + 1))[j]);
        }
    } else {
        assert(items.take(n) =~= items);
    }
}

/// A hash of `items` is among its hashes, at the returned position.
pub proof fn lemma_hash_item_kept(items: Seq<RawConfig>, i: int) -> (k: int)
    requires
        0 <= i < items.len(),
        items[i] is Hash,
    ensures
        0 <= k < hash_items(items).len(),
        hash_items(items)[k] == items[i]->Hash_0,
{
    lemma_hash_items_step(items, i);
    lemma_hash_items_prefix(items, i + 1);
    let k = hash_items(items.take(i + 1)).len() - 1;
    assert(hash_items(items)[k] == hash_items(items.take(i + 1))[k]);
    k
}

/// The error of the first of the hashes `hs` whose build fails, where `err` gives the error of
/// building one, when one does.
pub open spec fn first_hash_error(hs: Seq<RCHash>, err: spec_fn(RCHash) -> Option<Seq<char>>) -> Option<
    Seq<char>,
>
    decreases hs.len(),
{
    if hs.len() == 0 {
        None
    } else {
        first_error(first_hash_error(hs.drop_last(), err), err(hs.last()))
    }
}

/// The hashes of the first `i + 1` items of `items` fail to build as those of the first `i`
/// items do, or else as item `i` does when it is a hash.
pub proof fn lemma_first_hash_error_step(
    items: Seq<RawConfig>,
    i: int,
    err: spec_fn(RCHash) -> Option<Seq<char>>,
)
    requires
        0 <= i < items.len(),
    ensures
        first_hash_error(hash_items(items.take(i + 1)), err) == match items[i] {
            RawConfig::Hash(h) => first_error(first_hash_error(hash_items(items.take(i)), err), err(h)),
            _ => first_hash_error(hash_items(items.take(i)), err),
        },
{
    lemma_hash_items_step(items, i);
    match items[i] {
        RawConfig::Hash(h) => {
            assert(hash_items(items.take(i)).push(h).drop_last() =~= hash_items(items.take(i)));
        },
        _ => {},
    }
}

/// The hashes `hs` build without error exactly when each of them does.
pub proof fn lemma_first_hash_error_none(hs: Seq<RCHash>, err: spec_fn(RCHash) -> Option<Seq<char>>)
    ensures
        first_hash_error(hs, err) is None <==> forall|i: int| 0 <= i < hs.len() ==> err(#[trigger] hs[i]) is None,
    decreases hs.len(),
{
    if hs.len() > 0 {
        lemma_first_hash_error_none(hs.drop_last(), err);
        assert forall|i: int| 0 <= i < hs.len() - 1 implies #[trigger] hs.drop_last()[i] == hs[i] by {}
        if first_hash_error(hs, err) is None {
            assert forall|i: int| 0 <= i < hs.len() implies err(#[trigger] hs[i]) is None by {
                if i < hs.len() - 1 {
                    assert(hs.drop_last()[i] == hs[i]);
                }
            }
        } else if forall|i: int| 0 <= i < hs.len() ==> err(#[trigger] hs[i]) is None {
            assert forall|i: int| 0 <= i < hs.drop_last().len() implies err(#[trigger] hs.drop_last()[i]) is None by {
                assert(hs.drop_last()[i] == hs[i]);
            }
            assert(err(hs[hs.len() - 1]) is None);
        }
    }
}

/// Once the hashes of a prefix of `items` fail to build, those of all of `items` fail with the
/// same error.
pub proof fn lemma_first_hash_error_prefix(items: Seq<RawConfig>, n: int, err: spec_fn(RCHash) -> Option<Seq<char>>)
    requires
        0 <= n <= items.len(),
        first_hash_error(hash_items(items.take(n)), err) is Some,
    ensures
        first_hash_error(hash_items(items), err) == first_hash_error(hash_items(items.take(n)), err),
    decreases items.len() - n,
{
    if n < items.len() {
        lemma_first_hash_error_step(items, n, err);
        lemma_first_hash_error_prefix(items, n + 1, err);
    } else {
        assert(items.take(n) =~= items);
    }
}

/// A string key.
pub fn k(name: &str) -> (r: RawConfig)
    ensures
        r matches RawConfig::String(s) && s@ == name@,
{
    RawConfig::String(String::from_str(name))
}

/// Whether two lists hold the same values, position by position.
pub closed spec fn same_lists(a: Seq<RawConfig>, b: Seq<RawConfig>) -> bool {
    a.len() == b.len() && forall|i: int| 0 <= i < a.len() ==> same(#[trigger] a[i], b[i])
}

/// Whether two entry lists hold the same keys and values, position by position.
pub closed spec fn same_entries(a: Seq<(RawConfig, RawConfig)>, b: Seq<(RawConfig, RawConfig)>) -> bool {
    a.len() == b.len() && forall|i: int|
        0 <= i < a.len() ==> same((#[trigger] a[i]).0, b[i].0) && same(a[i].1, b[i].1)
}

proof fn lemma_same_unfold(a: RawConfig, b: RawConfig)
    ensures
        match (a, b) {
            (RawConfig::Array(x), RawConfig::Array(y)) => same(a, b) == same_lists(x@, y@),
            (RawConfig::Hash(x), RawConfig::Hash(y)) => same(a, b) == same_entries(x.entries@, y.entries@),
            _ => true,
        },
{
    match (a, b) {
        (RawConfig::Array(x), RawConfig::Array(y)) => {
            assert(same(a, b) == same_lists(x@, y@));
        },
        (RawConfig::Hash(x), RawConfig::Hash(y)) => {
            assert(same(a, b) == same_entries(x.entries@, y.entries@));
        },
        _ => {},
    }
}

/// Checks whether two lists hold the same values.
fn lists_equal(a: &Vec<RawConfig>, b: &Vec<RawConfig>) -> (r: bool)
    ensures
        r == same_lists(a@, b@),
    decreases a,
{
    if a.len() != b.len() {
        return false;
    }
    let mut i: usize = 0;
    while i < a.len()
        invariant
            a@.len() == b@.len(),
            i <= a@.len(),
            forall|j: int| 0 <= j < i ==> same(#[trigger] a@[j], b@[j]),
        decreases a.len() - i,
    {
        proof {
            assert(decreases_to!(*a => a@));
            assert(decreases_to!(a@ => a@[i as int]));
        }
        if !a[i].equals(&b[i]) {
            return false;
        }
        i = i + 1;
    }
    true
}

/// Checks whether two entry lists hold the same keys and values.
fn entries_equal(a: &Vec<(RawConfig, RawConfig)>, b: &Vec<(RawConfig, RawConfig)>) -> (r: bool)
    ensures
        r == same_entries(a@, b@),
    decreases a,
{
    if a.len() != b.len() {
        return false;
    }
    let mut i: usize = 0;
    while i < a.len()
        invariant
            a@.len() == b@.len(),
            i <= a@.len(),
            forall|j: int| 0 <= j < i ==> same((#[trigger] a@[j]).0, b@[j].0) && same(a@[j].1, b@[j].1),
        decreases a.len() - i,
    {
        proof {
            assert(decreases_to!(*a => a@));
            assert(decreases_to!(a@ => a@[i as int]));
            assert(decreases_to!(a@[i as int] => a@[i as int].0));
            assert(decreases_to!(a@[i as int] => a@[i as int].1));
        }
        let k_same = a[i].0.equals(&b[i].0);
        if !k_same {
            assert(!(same(a@[i as int].0, b@[i as int].0) && same(a@[i as int].1, b@[i as int].1)));
            return false;
        }
        let v_same = a[i].1.equals(&b[i].1);
        if !v_same {
            assert(!(same(a@[i as int].0, b@[i as int].0) && same(a@[i as int].1, b@[i as int].1)));
            return false;
        }
        assert(same(a@[i as int].0, b@[i as int].0) && same(a@[i as int].1, b@[i as int].1));
        i = i + 1;
    }
    true
}

impl RawConfig {
    /// Checks whether two values are the same, as `same` describes.
    pub fn equals(&self, other: &RawConfig) -> (r: bool)
        ensures
            r == same(*self, *other),
        decreases self,
    {
        proof {
            lemma_same_unfold(*self, *other);
        }
        match (self, other) {
            (RawConfig::Null, RawConfig::Null) => true,
            (RawConfig::Bool(a), RawConfig::Bool(b)) => *a == *b,
            (RawConfig::Integer(a), RawConfig::Integer(b)) => *a == *b,
            (RawConfig::String(a), RawConfig::String(b)) => a.eq(b),
            (RawConfig::Array(a), RawConfig::Array(b)) => lists_equal(a, b),
            (RawConfig::Hash(a), RawConfig::Hash(b)) => {
                proof {
                    assert(decreases_to!(*a => a.entries));
                }
                entries_equal(&a.entries, &b.entries)
            },
            _ => false,
        }
    }
}

/// The entries of `s` whose keys are not the same as `key`, in order.
pub closed spec fn without_key(s: Seq<(RawConfig, RawConfig)>, key: RawConfig) -> Seq<(RawConfig, RawConfig)>
    decreases s.len(),
{
    if s.len() == 0 {
        s
    } else if same(s[0].0, key) {
        without_key(s.drop_first(), key)
    } else {
        seq![s[0]] + without_key(s.drop_first(), key)
    }
}

impl RCHash {
    /// The entries, in order.
    pub closed spec fn entries_view(self) -> Seq<(RawConfig, RawConfig)> {
        self.entries@
    }

    /// The value of the first entry whose key is the string `name`.
    pub open spec fn field(self, name: Seq<char>) -> Option<RawConfig> {
        match first_named(self.entries_view(), name) {
            Some(i) => Some(self.entries_view()[i].1),
            None => None,
        }
    }

    /// Creates an empty hash.
    pub fn new() -> (r: RCHash)
        ensures
            r.entries_view() == Seq::<(RawConfig, RawConfig)>::empty(),
    {
        RCHash { entries: Vec::new() }
    }

    /// Number of entries.
    pub fn len(&self) -> (r: usize)
        ensures
            r == self.entries_view().len(),
    {
        self.entries.len()
    }

    /// Whether there are no entries.
    pub fn is_empty(&self) -> (r: bool)
        ensures
            r == (self.entries_view().len() == 0),
    {
        self.entries.len() == 0
    }

    /// The entry at position `i`.
    pub fn entry(&self, i: usize) -> (r: (&RawConfig, &RawConfig))
        requires
            i < self.entries_view().len(),
        ensures
            *r.0 == self.entries_view()[i as int].0,
            *r.1 == self.entries_view()[i as int].1,
    {
        (&self.entries[i].0, &self.entries[i].1)
    }

    /// Sets `key` to `value`: an entry with the same key is dropped, and the new entry goes at
    /// the end.
    pub fn insert(&mut self, key: RawConfig, value: RawConfig)
        ensures
            final(self).entries_view() == without_key(old(self).entries_view(), key).push((key, value)),
    {
        let mut rest: Vec<(RawConfig, RawConfig)> = Vec::new();
        std::mem::swap(&mut rest, &mut self.entries);
        let ghost orig = rest@;
        assert(without_key(orig, key) == Seq::<(RawConfig, RawConfig)>::empty() + without_key(rest@, key));
        while rest.len() > 0
            invariant
                without_key(orig, key) == self.entries@ + without_key(rest@, key),
            decreases rest.len(),
        {
            let ghost before = rest@;
            let entry = rest.remove(0);
            assert(rest@ =~= before.drop_first());
            if !entry.0.equals(&key) {
                let ghost kept = self.entries@;
                self.entries.push(entry);
                assert(self.entries@ + without_key(rest@, key) =~= kept + (seq![entry] + without_key(rest@, key)));
            }
        }
        assert(self.entries@ + without_key(rest@, key) =~= self.entries@);
        self.entries.push((key, value));
    }

    /// The value of the first entry whose key is the string `name`.
    pub fn get(&self, name: &str) -> (r: Option<&RawConfig>)
        ensures
            match r {
                Some(v) => self.field(name@) == Some(*v),
                None => self.field(name@) is None,
            },
    {
        let mut i: usize = 0;
        while i < self.entries.len()
            invariant
                i <= self.entries@.len(),
                forall|j: int| 0 <= j < i ==> !is_name_key(#[trigger] self.entries@[j].0, name@),
            decreases self.entries.len() - i,
        {
            let is_name = match &self.entries[i].0 {
                RawConfig::String(s) => crate::text::str_eq(s.as_str(), name),
                _ => false,
            };
            if is_name {
                proof {
                    lemma_first_named(self.entries@, name@);
                    assert(is_name_key(self.entries@[i as int].0, name@));
                    match first_named(self.entries@, name@) {
                        Some(f) => {
                            if f < i {
                                assert(!is_name_key(self.entries@[f].0, name@));
                            }
                        },
                        None => {},
                    }
                }
                return Some(&self.entries[i].1);
            }
            i = i + 1;
        }
        proof {
            lemma_first_named(self.entries@, name@);
        }
        None
    }

    /// The string value of the field `name`, if it is a string.
    pub fn get_string(&self, name: &str) -> (r: Option<&str>)
        ensures
            match r {
                Some(s) => string_of(self.field(name@)) == Some(s@),
                None => string_of(self.field(name@)) is None,
            },
    {
        match self.get(name) {
            Some(RawConfig::String(s)) => Some(s.as_str()),
            _ => None,
        }
    }

    /// The integer value of the field `name`, if it is an integer.
    pub fn get_integer(&self, name: &str) -> (r: Option<i64>)
        ensures
            r == integer_of(self.field(name@)),
    {
        match self.get(name) {
            Some(RawConfig::Integer(i)) => Some(*i),
            _ => None,
        }
    }

    /// The boolean value of the field `name`, if it is a boolean.
    pub fn get_bool(&self, name: &str) -> (r: Option<bool>)
        ensures
            r == bool_of(self.field(name@)),
    {
        match self.get(name) {
            Some(RawConfig::Bool(b)) => Some(*b),
            _ => None,
        }
    }

    /// The hash value of the field `name`, if it is a hash.
    pub fn get_hash(&self, name: &str) -> (r: Option<&RCHash>)
        ensures
            match r {
                Some(h) => hash_of(self.field(name@)) == Some(*h),
                None => hash_of(self.field(name@)) is None,
            },
    {
        match self.get(name) {
            Some(RawConfig::Hash(h)) => Some(h),
            _ => None,
        }
    }

    /// The list value of the field `name`, if it is a list.
    pub fn get_array(&self, name: &str) -> (r: Option<&Vec<RawConfig>>)
        ensures
            match r {
                Some(a) => array_of(self.field(name@)) == Some(a@),
                None => array_of(self.field(name@)) is None,
            },
    {
        match self.get(name) {
            Some(RawConfig::Array(a)) => Some(a),
            _ => None,
        }
    }
}

/// Builds an `RCHash` by chained insertions.
pub struct RCHashBuilder {
    pub hash: RCHash,
}

impl RCHashBuilder {
    /// Starts from an empty hash.
    pub fn new() -> (r: RCHashBuilder)
        ensures
            r.hash.entries_view() == Seq::<(RawConfig, RawConfig)>::empty(),
    {
        RCHashBuilder { hash: RCHash::new() }
    }

    /// Inserts an entry, as `RCHash::insert` does.
    pub fn insert(self, key: RawConfig, value: RawConfig) -> (r: RCHashBuilder)
        ensures
            r.hash.entries_view() == without_key(self.hash.entries_view(), key).push((key, value)),
    {
        let mut b = self;
        b.hash.insert(key, value);
        b
    }

    /// The hash built so far.
    pub fn build(self) -> (r: RCHash)
        ensures
            r == self.hash,
    {
        self.hash
    }
}


proof fn lemma_without_key_no_name(e: Seq<(RawConfig, RawConfig)>, key: RawConfig, name: Seq<char>)
    requires
        is_name_key(key, name),
    ensures
        forall|j: int| 0 <= j < without_key(e, key).len() ==> !is_name_key(#[trigger] without_key(e, key)[j].0, name),
    decreases e.len(),
{
    if e.len() > 0 {
        lemma_without_key_no_name(e.drop_first(), key, name);
        if !same(e[0].0, key) {
            let w = without_key(e, key);
            let rest = without_key(e.drop_first(), key);
            assert(w == seq![e[0]] + rest);
            assert forall|j: int| 0 <= j < w.len() implies !is_name_key(#[trigger] w[j].0, name) by {
                if j > 0 {
                    assert(w[j] == rest[j - 1]);
                } else if is_name_key(w[0].0, name) {
                    assert(same(e[0].0, key));
                }
            }
        } else {
            assert(without_key(e, key) == without_key(e.drop_first(), key));
        }
    }
}

/// Reading a field right after setting it gives the value that was set.
pub proof fn law_field_after_insert(before: RCHash, after: RCHash, name: Seq<char>, key: RawConfig, value: RawConfig)
    requires
        is_name_key(key, name),
        after.entries_view() == without_key(before.entries_view(), key).push((key, value)),
    ensures
        after.field(name) == Some(value),
{
    let w = without_key(before.entries_view(), key);
    let e = after.entries_view();
    lemma_without_key_no_name(before.entries_view(), key, name);
    lemma_first_named(e, name);
    assert(e[w.len() as int] == (key, value));
    match first_named(e, name) {
        Some(i) => {
            if i < w.len() {
                assert(e[i] == w[i]);
            }
        },
        None => {
            assert(is_name_key(e[w.len() as int].0, name));
        },
    }
}


/// The value of the first entry of `e` whose key is the string `name`.
spec fn named_value(e: Seq<(RawConfig, RawConfig)>, name: Seq<char>) -> Option<RawConfig> {
    match first_named(e, name) {
        Some(i) => Some(e[i].1),
        None => None,
    }
}

proof fn lemma_named_value_skip(e: Seq<(RawConfig, RawConfig)>, name: Seq<char>)
    requires
        e.len() > 0,
        !is_name_key(e[0].0, name),
    ensures
        named_value(e, name) == named_value(e.drop_first(), name),
{
    lemma_first_named(e.drop_first(), name);
    match first_named(e.drop_first(), name) {
        Some(i) => {
            assert(e.drop_first()[i] == e[i + 1]);
        },
        None => {},
    }
}

proof fn lemma_named_value_without_key(e: Seq<(RawConfig, RawConfig)>, key: RawConfig, name: Seq<char>)
    requires
        !is_name_key(key, name),
    ensures
        named_value(without_key(e, key), name) == named_value(e, name),
    decreases e.len(),
{
    if e.len() > 0 {
        lemma_named_value_without_key(e.drop_first(), key, name);
        let rest = without_key(e.drop_first(), key);
        if same(e[0].0, key) {
            assert(!is_name_key(e[0].0, name));
            lemma_named_value_skip(e, name);
        } else {
            let w = without_key(e, key);
            assert(w == seq![e[0]] + rest);
            assert(w[0] == e[0]);
            if !is_name_key(e[0].0, name) {
                assert(w.drop_first() =~= rest);
                lemma_named_value_skip(w, name);
                lemma_named_value_skip(e, name);
            }
        }
    }
}

proof fn lemma_named_value_push(w: Seq<(RawConfig, RawConfig)>, x: (RawConfig, RawConfig), name: Seq<char>)
    requires
        !is_name_key(x.0, name),
    ensures
        named_value(w.push(x), name) == named_value(w, name),
    decreases w.len(),
{
    if w.len() == 0 {
        assert(w.push(x).drop_first() =~= Seq::<(RawConfig, RawConfig)>::empty());
        lemma_named_value_skip(w.push(x), name);
    } else {
        assert(w.push(x)[0] == w[0]);
        if !is_name_key(w[0].0, name) {
            assert(w.push(x).drop_first() =~= w.drop_first().push(x));
            lemma_named_value_push(w.drop_first(), x, name);
            lemma_named_value_skip(w.push(x), name);
            lemma_named_value_skip(w, name);
        }
    }
}

/// Setting a key other than the string `name` leaves the field `name` as it was.
pub proof fn law_field_kept_by_other_insert(
    before: RCHash,
    after: RCHash,
    name: Seq<char>,
    key: RawConfig,
    value: RawConfig,
)
    requires
        !is_name_key(key, name),
        after.entries_view() == without_key(before.entries_view(), key).push((key, value)),
    ensures
        after.field(name) == before.field(name),
{
    lemma_named_value_without_key(before.entries_view(), key, name);
    lemma_named_value_push(without_key(before.entries_view(), key), (key, value), name);
}

} // verus!
