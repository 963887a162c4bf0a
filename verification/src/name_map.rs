//! A map from names to values that remembers the order in which the names
//! first came. A name occurs once; a later value for it replaces the earlier
//! one where that one stands.

use crate::text::str_eq;
use vstd::prelude::*;

verus! {

/// The entries of a map as the contracts see them: name and value, in the
/// order in which the names first came.
pub type Entries<V> = Seq<(Seq<char>, V)>;

/// The first position at or after `i` whose name is `key`, or the length of
/// `entries` where there is none.
pub open spec fn key_index<V>(entries: Entries<V>, key: Seq<char>, i: int) -> int
    decreases entries.len() - i,
{
    if 0 <= i < entries.len() && entries[i].0 != key {
        key_index(entries, key, i + 1)
    } else {
        i
    }
}

/// The value that `entries` holds for `key`.
pub open spec fn lookup<V>(entries: Entries<V>, key: Seq<char>) -> Option<V> {
    let i = key_index(entries, key, 0);
    if 0 <= i < entries.len() {
        Some(entries[i].1)
    } else {
        None
    }
}

/// `entries` once `key` has the value `value`: in the place of its earlier
/// value, or at the end where it had none.
pub open spec fn with_entry<V>(entries: Entries<V>, key: Seq<char>, value: V) -> Entries<V> {
    let i = key_index(entries, key, 0);
    if 0 <= i < entries.len() {
        entries.update(i, (key, value))
    } else {
        entries.push((key, value))
    }
}

/// `entries` without the entry for `key`.
pub open spec fn without_entry<V>(entries: Entries<V>, key: Seq<char>) -> Entries<V> {
    let i = key_index(entries, key, 0);
    if 0 <= i < entries.len() {
        entries.remove(i)
    } else {
        entries
    }
}

/// No name occurs twice.
pub open spec fn distinct_keys<V>(entries: Entries<V>) -> bool {
    forall|i: int, j: int| 0 <= i < j < entries.len() ==> entries[i].0 != entries[j].0
}

/// Where the search for `key` from `i` ends: inside the bounds, at an entry
/// for `key` or at the end, with no entry for `key` before it.
pub proof fn lemma_key_index<V>(entries: Entries<V>, key: Seq<char>, i: int)
    requires
        0 <= i <= entries.len(),
    ensures
        i <= key_index(entries, key, i) <= entries.len(),
        key_index(entries, key, i) < entries.len() ==> entries[key_index(entries, key, i)].0
            == key,
        forall|k: int| i <= k < key_index(entries, key, i) ==> (#[trigger] entries[k]).0 != key,
    decreases entries.len() - i,
{
    if i < entries.len() && entries[i].0 != key {
        lemma_key_index(entries, key, i + 1);
    }
}

/// Setting a value keeps the names distinct, makes it the value found for its
/// name, and leaves what is found for every other name as it was.
pub proof fn lemma_with_entry<V>(entries: Entries<V>, key: Seq<char>, value: V, other: Seq<char>)
    requires
        distinct_keys(entries),
    ensures
        distinct_keys(with_entry(entries, key, value)),
        lookup(with_entry(entries, key, value), key) == Some(value),
        other != key ==> lookup(with_entry(entries, key, value), other) == lookup(entries, other),
{
    let after = with_entry(entries, key, value);
    let i = key_index(entries, key, 0);
    lemma_key_index(entries, key, 0);
    lemma_key_index(after, key, 0);
    lemma_key_index(entries, other, 0);
    lemma_key_index(after, other, 0);
    if i < entries.len() {
        assert forall|k: int| 0 <= k < after.len() implies (#[trigger] after[k]).0
            == entries[k].0 by {}
    } else {
        assert forall|k: int| 0 <= k < entries.len() implies (#[trigger] after[k]) == entries[k] by {}
    }
    let a = key_index(after, key, 0);
    assert(a == i) by {
        if a < i {
            assert(entries[a].0 != key);
            assert(after[a].0 == key);
        } else if a > i {
            assert(after[i].0 != key);
        }
    }
    if other != key {
        let x = key_index(entries, other, 0);
        let y = key_index(after, other, 0);
        if x < entries.len() {
            assert(after[x].0 == other);
            if y > x {
                assert(after[x].0 != other);
            }
            if y < x {
                assert(entries[y].0 != other);
                assert(after[y].0 == other);
            }
            assert(x == y);
            assert(after[x].1 == entries[x].1);
        } else {
            if y < after.len() {
                assert(after[y].0 == other);
                if y < entries.len() {
                    assert(entries[y].0 != other);
                }
            }
        }
    }
}

/// Two lists of entries with the same names in the same order find every name
/// at the same position.
pub proof fn lemma_key_index_same_keys<V, W>(
    a: Entries<V>,
    b: Entries<W>,
    key: Seq<char>,
    i: int,
)
    requires
        a.len() == b.len(),
        forall|k: int| 0 <= k < a.len() ==> (#[trigger] a[k]).0 == (#[trigger] b[k]).0,
        0 <= i <= a.len(),
    ensures
        key_index(a, key, i) == key_index(b, key, i),
    decreases a.len() - i,
{
    if i < a.len() {
        assert(a[i].0 == b[i].0);
        if a[i].0 != key {
            lemma_key_index_same_keys(a, b, key, i + 1);
        }
    }
}

/// A map from names to values, in the order in which the names first came.
#[derive(Debug)]
pub struct NameMap<V> {
    entries: Vec<(String, V)>,
}

impl<V> View for NameMap<V> {
    type V = Entries<V>;

    closed spec fn view(&self) -> Entries<V> {
        self.entries@.map_values(|e: (String, V)| (e.0@, e.1))
    }
}

impl<V> NameMap<V> {
    #[verifier::type_invariant]
    closed spec fn inv(&self) -> bool {
        distinct_keys(self@)
    }

    /// A map without entries.
    pub fn new() -> (r: Self)
        ensures
            r@.len() == 0,
    {
        NameMap { entries: Vec::new() }
    }

    /// The number of entries. No name occurs in two of them.
    pub fn len(&self) -> (n: usize)
        ensures
            n == self@.len(),
            distinct_keys(self@),
    {
        proof {
            use_type_invariant(self);
        }
        self.entries.len()
    }

    /// The name of the `i`-th entry.
    pub fn key_at(&self, i: usize) -> (k: &str)
        requires
            i < self@.len(),
        ensures
            k@ == self@[i as int].0,
    {
        self.entries[i].0.as_str()
    }

    /// The value of the `i`-th entry.
    pub fn value_at(&self, i: usize) -> (v: &V)
        requires
            i < self@.len(),
        ensures
            *v == self@[i as int].1,
    {
        &self.entries[i].1
    }

    fn position(&self, key: &str) -> (i: usize)
        ensures
            i == key_index(self@, key@, 0),
            i <= self@.len(),
    {
        let n = self.entries.len();
        let mut i: usize = 0;
        while i < n && !str_eq(self.entries[i].0.as_str(), key)
            invariant
                i <= n,
                n == self@.len(),
                n == self.entries@.len(),
                key_index(self@, key@, 0) == key_index(self@, key@, i as int),
            decreases n - i,
        {
            i = i + 1;
        }
        i
    }

    /// The value for `key`.
    pub fn get(&self, key: &str) -> (r: Option<&V>)
        ensures
            match r {
                Some(v) => lookup(self@, key@) == Some(*v),
                None => lookup(self@, key@) is None,
            },
    {
        let i = self.position(key);
        if i < self.entries.len() {
            Some(&self.entries[i].1)
        } else {
            None
        }
    }

    /// Gives `key` the value `value`: in the place of its earlier value, or as
    /// a new last entry.
    pub fn insert(&mut self, key: String, value: V)
        ensures
            final(self)@ == with_entry(old(self)@, key@, value),
    {
        proof {
            use_type_invariant(&*self);
            lemma_with_entry(self@, key@, value, key@);
        }
        let i = self.position(key.as_str());
        let ghost before = self@;
        let mut entries: Vec<(String, V)> = Vec::new();
        core::mem::swap(&mut self.entries, &mut entries);
        if i < entries.len() {
            entries[i] = (key, value);
        } else {
            entries.push((key, value));
        }
        proof {
            assert(entries@.map_values(|e: (String, V)| (e.0@, e.1)) =~= with_entry(
                before,
                key@,
                value,
            ));
        }
        self.entries = entries;
    }

    /// Takes the entry for `key` out and returns its value.
    pub fn remove(&mut self, key: &str) -> (r: Option<V>)
        ensures
            r == lookup(old(self)@, key@),
            final(self)@ == without_entry(old(self)@, key@),
    {
        proof {
            use_type_invariant(&*self);
        }
        let i = self.position(key);
        let ghost before = self@;
        let mut entries: Vec<(String, V)> = Vec::new();
        core::mem::swap(&mut self.entries, &mut entries);
        let r = if i < entries.len() {
            let (_, value) = entries.remove(i);
            Some(value)
        } else {
            None
        };
        proof {
            assert(entries@.map_values(|e: (String, V)| (e.0@, e.1)) =~= without_entry(
                before,
                key@,
            ));
        }
        self.entries = entries;
        r
    }
}

} // verus!
