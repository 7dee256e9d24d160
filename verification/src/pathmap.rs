//! A small map keyed by file path that remembers the order in which its keys
//! first came in.

use vstd::prelude::*;

verus! {

/// The value stored under `key`, if there is one.
pub open spec fn lookup<T>(entries: Seq<(Seq<char>, T)>, key: Seq<char>) -> Option<T>
    decreases entries.len(),
{
    if entries.len() == 0 {
        None
    } else if entries[0].0 == key {
        Some(entries[0].1)
    } else {
        lookup(entries.drop_first(), key)
    }
}

/// The entries after `value` is stored under `key`: it takes the place of the
/// value stored there, or comes last if the key is new.
pub open spec fn put<T>(entries: Seq<(Seq<char>, T)>, key: Seq<char>, value: T) -> Seq<
    (Seq<char>, T),
>
    decreases entries.len(),
{
    if entries.len() == 0 {
        seq![(key, value)]
    } else if entries[0].0 == key {
        entries.update(0, (key, value))
    } else {
        seq![entries[0]] + put(entries.drop_first(), key, value)
    }
}

/// Whether some entry has the key.
pub open spec fn has_key<T>(entries: Seq<(Seq<char>, T)>, key: Seq<char>) -> bool {
    exists|i: int| 0 <= i < entries.len() && (#[trigger] entries[i]).0 == key
}

/// Whether no key occurs twice.
pub open spec fn unique_keys<T>(entries: Seq<(Seq<char>, T)>) -> bool {
    forall|i: int, j: int|
        0 <= i < j < entries.len() ==> (#[trigger] entries[i]).0 != (#[trigger] entries[j]).0
}

/// `lookup` finds the first entry with the key.
pub proof fn lookup_first<T>(entries: Seq<(Seq<char>, T)>, key: Seq<char>, i: int)
    requires
        0 <= i < entries.len(),
        entries[i].0 == key,
        forall|j: int| 0 <= j < i ==> (#[trigger] entries[j]).0 != key,
    ensures
        lookup(entries, key) == Some(entries[i].1),
    decreases entries.len(),
{
    if i > 0 {
        let rest = entries.drop_first();
        assert(entries[0].0 != key);
        assert forall|j: int| 0 <= j < i - 1 implies (#[trigger] rest[j]).0 != key by {
            assert(rest[j] == entries[j + 1]);
        }
        lookup_first(rest, key, i - 1);
    }
}

/// `lookup` finds something exactly when the key occurs.
pub proof fn lookup_some_iff_has_key<T>(entries: Seq<(Seq<char>, T)>, key: Seq<char>)
    ensures
        lookup(entries, key) is Some <==> has_key(entries, key),
    decreases entries.len(),
{
    if entries.len() == 0 {
    } else if entries[0].0 == key {
        assert(has_key(entries, key));
    } else {
        let rest = entries.drop_first();
        lookup_some_iff_has_key(rest, key);
        if has_key(rest, key) {
            let i = choose|i: int| 0 <= i < rest.len() && (#[trigger] rest[i]).0 == key;
            assert(entries[i + 1] == rest[i]);
        }
        if has_key(entries, key) {
            let i = choose|i: int| 0 <= i < entries.len() && (#[trigger] entries[i]).0 == key;
            assert(rest[i - 1] == entries[i]);
        }
    }
}

/// Storing under a key that occurs replaces the first entry with that key.
pub proof fn put_present<T>(entries: Seq<(Seq<char>, T)>, key: Seq<char>, value: T, i: int)
    requires
        0 <= i < entries.len(),
        entries[i].0 == key,
        forall|j: int| 0 <= j < i ==> (#[trigger] entries[j]).0 != key,
    ensures
        put(entries, key, value) == entries.update(i, (key, value)),
    decreases entries.len(),
{
    if i > 0 {
        let rest = entries.drop_first();
        assert(entries[0].0 != key);
        assert forall|j: int| 0 <= j < i - 1 implies (#[trigger] rest[j]).0 != key by {
            assert(rest[j] == entries[j + 1]);
        }
        put_present(rest, key, value, i - 1);
        assert(seq![entries[0]] + rest.update(i - 1, (key, value)) =~= entries.update(
            i,
            (key, value),
        ));
    }
}

/// Storing under a key that does not occur appends an entry.
pub proof fn put_absent<T>(entries: Seq<(Seq<char>, T)>, key: Seq<char>, value: T)
    requires
        !has_key(entries, key),
    ensures
        put(entries, key, value) == entries.push((key, value)),
    decreases entries.len(),
{
    if entries.len() == 0 {
        assert(seq![(key, value)] =~= entries.push((key, value)));
    } else {
        let rest = entries.drop_first();
        assert(entries[0].0 != key);
        assert(!has_key(rest, key)) by {
            if has_key(rest, key) {
                let i = choose|i: int| 0 <= i < rest.len() && (#[trigger] rest[i]).0 == key;
                assert(entries[i + 1] == rest[i]);
            }
        }
        put_absent(rest, key, value);
        assert(seq![entries[0]] + rest.push((key, value)) =~= entries.push((key, value)));
    }
}

/// After storing, the key holds the new value and every other key holds what
/// it held.
pub proof fn lookup_put<T>(entries: Seq<(Seq<char>, T)>, key: Seq<char>, value: T, other: Seq<char>)
    ensures
        lookup(put(entries, key, value), other) == if other == key {
            Some(value)
        } else {
            lookup(entries, other)
        },
    decreases entries.len(),
{
    if entries.len() == 0 {
        let after = seq![(key, value)];
        assert(after.len() == 1 && after[0] == (key, value));
        assert(lookup(after.drop_first(), other) is None);
    } else if entries[0].0 == key {
        let after = entries.update(0, (key, value));
        assert(after[0] == (key, value));
        assert(after.drop_first() =~= entries.drop_first());
    } else {
        let rest = entries.drop_first();
        lookup_put(rest, key, value, other);
        let head = seq![entries[0]];
        let after = head + put(rest, key, value);
        assert(head.len() == 1 && head[0] == entries[0]);
        assert(after.len() == 1 + put(rest, key, value).len());
        assert(after[0] == entries[0]);
        assert(after.drop_first() =~= put(rest, key, value));
    }
}

/// Storing keeps every key that was there, in place, and adds at most the
/// new one at the end.
pub proof fn put_keys<T>(entries: Seq<(Seq<char>, T)>, key: Seq<char>, value: T)
    ensures
        has_key(entries, key) ==> put(entries, key, value).len() == entries.len(),
        !has_key(entries, key) ==> put(entries, key, value) == entries.push((key, value)),
        forall|i: int|
            0 <= i < entries.len() ==> (#[trigger] put(entries, key, value)[i]).0 == entries[i].0,
    decreases entries.len(),
{
    if has_key(entries, key) {
        let i = first_index(entries, key);
        put_present(entries, key, value, i);
    } else {
        put_absent(entries, key, value);
    }
}

/// The least index at which the key occurs.
pub proof fn first_index<T>(entries: Seq<(Seq<char>, T)>, key: Seq<char>) -> (i: int)
    requires
        has_key(entries, key),
    ensures
        0 <= i < entries.len(),
        entries[i].0 == key,
        forall|j: int| 0 <= j < i ==> (#[trigger] entries[j]).0 != key,
    decreases entries.len(),
{
    if entries[0].0 == key {
        0
    } else {
        let rest = entries.drop_first();
        let w = choose|i: int| 0 <= i < entries.len() && (#[trigger] entries[i]).0 == key;
        assert(rest[w - 1] == entries[w]);
        let r = first_index(rest, key);
        assert(entries[r + 1] == rest[r]);
        assert forall|j: int| 0 <= j < r + 1 implies (#[trigger] entries[j]).0 != key by {
            if j > 0 {
                assert(entries[j] == rest[j - 1]);
            }
        }
        r + 1
    }
}

/// After storing, every entry is the new one or one that was there before,
/// at the same place.
pub proof fn put_elements<T>(entries: Seq<(Seq<char>, T)>, key: Seq<char>, value: T)
    ensures
        forall|i: int|
            0 <= i < put(entries, key, value).len() ==> (#[trigger] put(entries, key, value)[i]) == (
                key,
                value,
            ) || (i < entries.len() && put(entries, key, value)[i] == entries[i]),
{
    if has_key(entries, key) {
        let i = first_index(entries, key);
        put_present(entries, key, value, i);
    } else {
        put_absent(entries, key, value);
    }
}

/// Storing never makes a key occur twice.
pub proof fn put_keeps_unique<T>(entries: Seq<(Seq<char>, T)>, key: Seq<char>, value: T)
    requires
        unique_keys(entries),
    ensures
        unique_keys(put(entries, key, value)),
{
    put_keys(entries, key, value);
    let after = put(entries, key, value);
    assert forall|i: int, j: int| 0 <= i < j < after.len() implies (#[trigger] after[i]).0 != (
    #[trigger] after[j]).0 by {
        if j < entries.len() {
            assert(after[i].0 == entries[i].0);
            assert(after[j].0 == entries[j].0);
        } else {
            assert(!has_key(entries, key));
            assert(after[i].0 == entries[i].0);
        }
    }
}

/// A map from file paths to values. No path occurs twice, and the entries
/// keep the order in which their paths were first stored.
#[derive(Debug, PartialEq, Eq)]
pub struct PathMap<V: View> {
    items: Vec<(String, V)>,
}

impl<V: View> View for PathMap<V> {
    type V = Seq<(Seq<char>, V::V)>;

    closed spec fn view(&self) -> Seq<(Seq<char>, V::V)> {
        Seq::new(self.items@.len(), |i: int| (self.items@[i].0@, self.items@[i].1@))
    }
}

impl<V: View> PathMap<V> {
    #[verifier::type_invariant]
    spec fn valid(&self) -> bool {
        unique_keys(self@)
    }

    /// The empty map.
    pub fn new() -> (m: PathMap<V>)
        ensures
            m@ == Seq::<(Seq<char>, V::V)>::empty(),
    {
        let m = PathMap { items: Vec::new() };
        assert(m@ =~= Seq::<(Seq<char>, V::V)>::empty());
        m
    }

    /// The number of entries.
    pub fn len(&self) -> (n: usize)
        ensures
            n == self@.len(),
            unique_keys(self@),
    {
        proof {
            use_type_invariant(self);
        }
        self.items.len()
    }

    /// The path of the `i`-th entry.
    pub fn path_at(&self, i: usize) -> (path: Option<&String>)
        ensures
            i < self@.len() ==> path is Some && path->0@ == self@[i as int].0,
            i >= self@.len() ==> path is None,
    {
        if i < self.items.len() {
            Some(&self.items[i].0)
        } else {
            None
        }
    }

    /// The value of the `i`-th entry.
    pub fn value_at(&self, i: usize) -> (value: Option<&V>)
        ensures
            i < self@.len() ==> value is Some && value->0@ == self@[i as int].1,
            i >= self@.len() ==> value is None,
    {
        if i < self.items.len() {
            Some(&self.items[i].1)
        } else {
            None
        }
    }

    /// The value stored under `path`.
    pub fn get(&self, path: &String) -> (value: Option<&V>)
        ensures
            match value {
                Some(v) => lookup(self@, path@) == Some(v@),
                None => lookup(self@, path@) is None,
            },
    {
        let mut i: usize = 0;
        while i < self.items.len()
            invariant
                i <= self.items@.len(),
                forall|j: int| 0 <= j < i ==> (#[trigger] self@[j]).0 != path@,
            decreases self.items@.len() - i,
        {
            if self.items[i].0 == *path {
                proof {
                    lookup_first(self@, path@, i as int);
                }
                return Some(&self.items[i].1);
            }
            i += 1;
        }
        proof {
            lookup_some_iff_has_key(self@, path@);
        }
        None
    }

    /// Stores `value` under `path`, in place of what was stored there.
    pub fn insert(&mut self, path: String, value: V)
        ensures
            final(self)@ == put(old(self)@, path@, value@),
    {
        proof {
            use_type_invariant(&*self);
            put_keeps_unique(self@, path@, value@);
        }
        let ghost before = self@;
        let mut items: Vec<(String, V)> = Vec::new();
        core::mem::swap(&mut items, &mut self.items);
        let ghost entries = items@;
        assert(before =~= Seq::new(entries.len(), |k: int| (entries[k].0@, entries[k].1@)));
        let mut i: usize = 0;
        let mut found = false;
        while i < items.len() && !found
            invariant
                i <= items@.len(),
                items@ == entries,
                before.len() == entries.len(),
                forall|k: int|
                    0 <= k < entries.len() ==> #[trigger] before[k] == (entries[k].0@, entries[k].1@),
                !found ==> forall|j: int| 0 <= j < i ==> (#[trigger] before[j]).0 != path@,
                found ==> i < items@.len() && before[i as int].0 == path@ && forall|j: int|
                    0 <= j < i ==> (#[trigger] before[j]).0 != path@,
            decreases items@.len() - i + if found { 0int } else { 1int },
        {
            if items[i].0 == path {
                found = true;
            } else {
                i += 1;
            }
        }
        if found {
            proof {
                put_present(before, path@, value@, i as int);
            }
            items.set(i, (path, value));
        } else {
            proof {
                put_absent(before, path@, value@);
            }
            items.push((path, value));
        }
        assert(Seq::new(items@.len(), |k: int| (items@[k].0@, items@[k].1@)) =~= put(
            before,
            path@,
            value@,
        ));
        self.items = items;
    }
}

} // verus!
