//! An ordered store of values under distinct string keys, the backing of the
//! registries.
use vstd::prelude::*;
use crate::text::str_eq;

verus! {

/// Values that can be copied with nothing lost.
pub trait Duplicate: View + Sized {
    fn duplicate(&self) -> (r: Self)
        ensures
            r@ == self@;
}

/// Copies every element of a list.
pub fn duplicate_all<T: Duplicate>(v: &Vec<T>) -> (r: Vec<T>)
    ensures
        r@.len() == v@.len(),
        forall|i: int| 0 <= i < v@.len() ==> (#[trigger] r@[i])@ == v@[i]@,
{
    let mut r: Vec<T> = Vec::new();
    let mut i: usize = 0;
    while i < v.len()
        invariant
            i <= v@.len(),
            r@.len() == i,
            forall|j: int| 0 <= j < i ==> (#[trigger] r@[j])@ == v@[j]@,
        decreases v@.len() - i,
    {
        r.push(v[i].duplicate());
        i = i + 1;
    }
    r
}

/// The views of a list of values.
pub open spec fn views<T: View>(s: Seq<T>) -> Seq<T::V> {
    s.map_values(|x: T| x@)
}

/// Keeps the elements of `s` whose flag in `keep` is set, in order.
pub open spec fn filter_mask<A>(s: Seq<A>, keep: Seq<bool>) -> Seq<A>
    decreases s.len(),
{
    if s.len() == 0 || keep.len() == 0 {
        Seq::empty()
    } else {
        let rest = filter_mask(s.drop_last(), keep.drop_last());
        if keep.last() {
            rest.push(s.last())
        } else {
            rest
        }
    }
}

/// Position of the first entry under `key`, or the length when there is none.
pub open spec fn key_index<V>(entries: Seq<(Seq<char>, V)>, key: Seq<char>) -> int
    decreases entries.len(),
{
    if entries.len() == 0 {
        0
    } else if entries[0].0 == key {
        0
    } else {
        1 + key_index(entries.drop_first(), key)
    }
}

/// The value under `key`.
pub open spec fn lookup<V>(entries: Seq<(Seq<char>, V)>, key: Seq<char>) -> Option<V> {
    let i = key_index(entries, key);
    if i < entries.len() {
        Some(entries[i].1)
    } else {
        None
    }
}

/// The keys of the entries, in order.
pub open spec fn keys_of<V>(entries: Seq<(Seq<char>, V)>) -> Seq<Seq<char>> {
    entries.map_values(|e: (Seq<char>, V)| e.0)
}

/// The values of the entries, in order.
pub open spec fn values_of<V>(entries: Seq<(Seq<char>, V)>) -> Seq<V> {
    entries.map_values(|e: (Seq<char>, V)| e.1)
}

/// No key occurs twice.
pub open spec fn distinct_keys<V>(entries: Seq<(Seq<char>, V)>) -> bool {
    forall|i: int, j: int|
        0 <= i < entries.len() && 0 <= j < entries.len() && i != j ==> entries[i].0
            != entries[j].0
}

/// The entries after storing `value` under `key`: in place when the key is
/// present, at the end otherwise.
pub open spec fn store_insert<V>(entries: Seq<(Seq<char>, V)>, key: Seq<char>, value: V) -> Seq<
    (Seq<char>, V),
> {
    let i = key_index(entries, key);
    if i < entries.len() {
        entries.update(i, (key, value))
    } else {
        entries.push((key, value))
    }
}

/// The entries after removing the one under `key`.
pub open spec fn store_remove<V>(entries: Seq<(Seq<char>, V)>, key: Seq<char>) -> Seq<
    (Seq<char>, V),
> {
    let i = key_index(entries, key);
    if i < entries.len() {
        entries.remove(i)
    } else {
        entries
    }
}

pub proof fn lemma_key_index_bounds<V>(entries: Seq<(Seq<char>, V)>, key: Seq<char>)
    ensures
        0 <= key_index(entries, key) <= entries.len(),
        key_index(entries, key) < entries.len() ==> entries[key_index(entries, key)].0 == key,
        forall|j: int| 0 <= j < key_index(entries, key) ==> entries[j].0 != key,
    decreases entries.len(),
{
    if entries.len() > 0 && entries[0].0 != key {
        lemma_key_index_bounds(entries.drop_first(), key);
        assert forall|j: int| 0 <= j < key_index(entries, key) implies entries[j].0 != key by {
            if j > 0 {
                assert(entries[j] == entries.drop_first()[j - 1]);
            }
        }
    }
}

/// `key_index` is the first position holding `key`.
pub proof fn lemma_key_index_is_first<V>(entries: Seq<(Seq<char>, V)>, key: Seq<char>, i: int)
    requires
        0 <= i <= entries.len(),
        forall|j: int| 0 <= j < i ==> entries[j].0 != key,
        i == entries.len() || entries[i].0 == key,
    ensures
        key_index(entries, key) == i,
    decreases entries.len(),
{
    if entries.len() > 0 && entries[0].0 != key {
        assert forall|j: int| 0 <= j < i - 1 implies entries.drop_first()[j].0 != key by {
            assert(entries.drop_first()[j] == entries[j + 1]);
        }
        lemma_key_index_is_first(entries.drop_first(), key, i - 1);
    }
}

/// A read gives back what the last write under that key stored, and a write
/// under one key leaves the others as they were.
pub proof fn lemma_lookup_insert<V>(
    entries: Seq<(Seq<char>, V)>,
    key: Seq<char>,
    value: V,
    other: Seq<char>,
)
    ensures
        lookup(store_insert(entries, key, value), key) == Some(value),
        other != key ==> lookup(store_insert(entries, key, value), other) == lookup(
            entries,
            other,
        ),
{
    let after = store_insert(entries, key, value);
    let i = key_index(entries, key);
    lemma_key_index_bounds(entries, key);
    if i < entries.len() {
        lemma_key_index_is_first(after, key, i);
    } else {
        assert forall|j: int| 0 <= j < i implies after[j].0 != key by {
            assert(after[j] == entries[j]);
        }
        lemma_key_index_is_first(after, key, i);
    }
    if other != key {
        let o = key_index(entries, other);
        lemma_key_index_bounds(entries, other);
        assert forall|j: int| 0 <= j < o implies after[j].0 != other by {
            if j != i {
                assert(after[j] == entries[j]);
            }
        }
        if o < entries.len() {
            assert(o != i);
            assert(after[o] == entries[o]);
            lemma_key_index_is_first(after, other, o);
        } else if i < entries.len() {
            lemma_key_index_is_first(after, other, o);
        } else {
            lemma_key_index_is_first(after, other, o + 1);
        }
    }
}

/// After a removal the key is gone, and the other keys read as before.
pub proof fn lemma_lookup_remove<V>(entries: Seq<(Seq<char>, V)>, key: Seq<char>, other: Seq<char>)
    requires
        distinct_keys(entries),
    ensures
        lookup(store_remove(entries, key), key) is None,
        other != key ==> lookup(store_remove(entries, key), other) == lookup(entries, other),
{
    let after = store_remove(entries, key);
    let i = key_index(entries, key);
    lemma_key_index_bounds(entries, key);
    if i < entries.len() {
        assert forall|j: int| 0 <= j < after.len() implies after[j].0 != key by {
            if j < i {
                assert(after[j] == entries[j]);
            } else {
                assert(after[j] == entries[j + 1]);
            }
        }
        lemma_key_index_is_first(after, key, after.len() as int);
    }
    if other != key {
        let o = key_index(entries, other);
        lemma_key_index_bounds(entries, other);
        if i < entries.len() {
            if o < i {
                assert forall|j: int| 0 <= j < o implies after[j].0 != other by {
                    assert(after[j] == entries[j]);
                }
                assert(after[o] == entries[o]);
                lemma_key_index_is_first(after, other, o);
            } else {
                assert(o != i);
                assert forall|j: int| 0 <= j < o - 1 implies after[j].0 != other by {
                    if j < i {
                        assert(after[j] == entries[j]);
                    } else {
                        assert(after[j] == entries[j + 1]);
                    }
                }
                if o < entries.len() {
                    assert(after[o - 1] == entries[o]);
                }
                lemma_key_index_is_first(after, other, o - 1);
            }
        }
    }
}

/// Values under distinct string keys, kept in the order they were first stored.
pub struct Store<V> {
    entries: Vec<(String, V)>,
}

impl<V: Duplicate> Store<V> {
    /// The entries, each key with the view of its value.
    pub closed spec fn entries(&self) -> Seq<(Seq<char>, V::V)> {
        self.entries@.map_values(|e: (String, V)| (e.0@, e.1@))
    }

    pub open spec fn wf(&self) -> bool {
        distinct_keys(self.entries())
    }

    pub fn new() -> (s: Self)
        ensures
            s.wf(),
            s.entries() == Seq::<(Seq<char>, V::V)>::empty(),
    {
        let s = Store { entries: Vec::new() };
        assert(s.entries() =~= Seq::<(Seq<char>, V::V)>::empty());
        s
    }

    pub fn len(&self) -> (n: usize)
        ensures
            n == self.entries().len(),
    {
        self.entries.len()
    }

    /// The position of the entry under `key`.
    pub fn find(&self, key: &str) -> (r: Option<usize>)
        ensures
            r matches Some(i) ==> i == key_index(self.entries(), key@) && i < self.entries().len(),
            r is None ==> key_index(self.entries(), key@) == self.entries().len(),
    {
        let mut i: usize = 0;
        while i < self.entries.len()
            invariant
                i <= self.entries@.len(),
                forall|j: int| 0 <= j < i ==> (#[trigger] self.entries()[j]).0 != key@,
            decreases self.entries@.len() - i,
        {
            if str_eq(self.entries[i].0.as_str(), key) {
                proof {
                    lemma_key_index_is_first(self.entries(), key@, i as int);
                }
                return Some(i);
            }
            i = i + 1;
        }
        proof {
            lemma_key_index_is_first(self.entries(), key@, i as int);
        }
        None
    }

    pub fn contains_key(&self, key: &str) -> (r: bool)
        ensures
            r == lookup(self.entries(), key@).is_some(),
    {
        self.find(key).is_some()
    }

    /// The key and value at position `i`.
    pub fn entry_at(&self, i: usize) -> (r: (&String, &V))
        requires
            i < self.entries().len(),
        ensures
            r.0@ == self.entries()[i as int].0,
            r.1@ == self.entries()[i as int].1,
    {
        (&self.entries[i].0, &self.entries[i].1)
    }

    /// A reference to the value under `key`.
    pub fn get_ref(&self, key: &str) -> (r: Option<&V>)
        ensures
            match r {
                Some(v) => lookup(self.entries(), key@) == Some(v@),
                None => lookup(self.entries(), key@).is_none(),
            },
    {
        match self.find(key) {
            Some(i) => Some(&self.entries[i].1),
            None => None,
        }
    }

    /// A copy of the value under `key`.
    pub fn get(&self, key: &str) -> (r: Option<V>)
        ensures
            match r {
                Some(v) => lookup(self.entries(), key@) == Some(v@),
                None => lookup(self.entries(), key@).is_none(),
            },
    {
        match self.find(key) {
            Some(i) => Some(self.entries[i].1.duplicate()),
            None => None,
        }
    }

    /// Stores `value` under `key`, replacing what was there in place.
    pub fn insert(&mut self, key: String, value: V)
        requires
            old(self).wf(),
        ensures
            final(self).wf(),
            final(self).entries() == store_insert(old(self).entries(), key@, value@),
    {
        let ghost k = key@;
        let ghost v = value@;
        proof {
            lemma_key_index_bounds(self.entries(), key@);
        }
        match self.find(key.as_str()) {
            Some(i) => {
                self.entries.set(i, (key, value));
                assert(self.entries() =~= old(self).entries().update(i as int, (k, v)));
            },
            None => {
                self.entries.push((key, value));
                assert(self.entries() =~= old(self).entries().push((k, v)));
            },
        }
    }

    /// Replaces the value at position `i`, keeping its key.
    pub fn set_at(&mut self, i: usize, value: V)
        requires
            old(self).wf(),
            i < old(self).entries().len(),
        ensures
            final(self).wf(),
            final(self).entries() == old(self).entries().update(
                i as int,
                (old(self).entries()[i as int].0, value@),
            ),
    {
        let ghost k = self.entries()[i as int].0;
        let ghost v = value@;
        let key = self.entries[i].0.clone();
        self.entries.set(i, (key, value));
        assert(self.entries() =~= old(self).entries().update(i as int, (k, v)));
        assert(keys_of(self.entries()) =~= keys_of(old(self).entries()));
        assert forall|a: int, b: int|
            0 <= a < self.entries().len() && 0 <= b < self.entries().len() && a != b implies
            self.entries()[a].0 != self.entries()[b].0 by {
            assert(keys_of(self.entries())[a] == keys_of(old(self).entries())[a]);
            assert(keys_of(self.entries())[b] == keys_of(old(self).entries())[b]);
        }
    }

    /// Removes the entry under `key`, giving back its value.
    pub fn remove(&mut self, key: &str) -> (r: Option<V>)
        requires
            old(self).wf(),
        ensures
            final(self).wf(),
            final(self).entries() == store_remove(old(self).entries(), key@),
            match r {
                Some(v) => lookup(old(self).entries(), key@) == Some(v@),
                None => lookup(old(self).entries(), key@).is_none(),
            },
    {
        match self.find(key) {
            Some(i) => {
                let (_, v) = self.entries.remove(i);
                assert(self.entries() =~= old(self).entries().remove(i as int));
                Some(v)
            },
            None => None,
        }
    }

    /// Copies of all values, in order.
    pub fn values(&self) -> (r: Vec<V>)
        ensures
            views(r@) == values_of(self.entries()),
    {
        let mut r: Vec<V> = Vec::new();
        let mut i: usize = 0;
        while i < self.entries.len()
            invariant
                i <= self.entries@.len(),
                r@.len() == i,
                forall|j: int| 0 <= j < i ==> (#[trigger] r@[j])@ == self.entries()[j].1,
            decreases self.entries@.len() - i,
        {
            r.push(self.entries[i].1.duplicate());
            i = i + 1;
        }
        assert(views(r@) =~= values_of(self.entries()));
        r
    }

    /// Copies of all keys, in order.
    pub fn keys(&self) -> (r: Vec<String>)
        ensures
            r@.map_values(|s: String| s@) == keys_of(self.entries()),
    {
        let mut r: Vec<String> = Vec::new();
        let mut i: usize = 0;
        while i < self.entries.len()
            invariant
                i <= self.entries@.len(),
                r@.len() == i,
                forall|j: int| 0 <= j < i ==> (#[trigger] r@[j])@ == self.entries()[j].0,
            decreases self.entries@.len() - i,
        {
            r.push(self.entries[i].0.clone());
            i = i + 1;
        }
        assert(r@.map_values(|s: String| s@) =~= keys_of(self.entries()));
        r
    }

    /// Keeps the entries whose flag in `keep` is set.
    pub fn retain_mask(&mut self, keep: &Vec<bool>)
        requires
            old(self).wf(),
            keep@.len() == old(self).entries().len(),
        ensures
            final(self).wf(),
            final(self).entries() == filter_mask(old(self).entries(), keep@),
    {
        let ghost before = self.entries();
        let mut kept: Vec<(String, V)> = Vec::new();
        let mut taken: Vec<(String, V)> = Vec::new();
        std::mem::swap(&mut taken, &mut self.entries);
        let ghost all = taken@;
        let n = taken.len();
        assert(all.len() == n);
        let mut i: usize = 0;
        assert(before =~= all.map_values(|e: (String, V)| (e.0@, e.1@)));
        while taken.len() > 0
            invariant
                all.len() == keep@.len(),
                all.len() <= usize::MAX,
                taken@ == all.subrange(i as int, all.len() as int),
                i <= all.len(),
                kept@.map_values(|e: (String, V)| (e.0@, e.1@)) == filter_mask(
                    before.subrange(0, i as int),
                    keep@.subrange(0, i as int),
                ),
                before == all.map_values(|e: (String, V)| (e.0@, e.1@)),
            decreases taken@.len(),
        {
            let e = taken.remove(0);
            let ghost ev = (e.0@, e.1@);
            proof {
                assert(before.subrange(0, i + 1).drop_last() =~= before.subrange(0, i as int));
                assert(keep@.subrange(0, i + 1).drop_last() =~= keep@.subrange(0, i as int));
                assert(before.subrange(0, i + 1).last() == ev);
            }
            if keep[i] {
                kept.push(e);
                assert(kept@.map_values(|e: (String, V)| (e.0@, e.1@)) =~= filter_mask(
                    before.subrange(0, i as int),
                    keep@.subrange(0, i as int),
                ).push(ev));
            }
            i = i + 1;
            assert(taken@ =~= all.subrange(i as int, all.len() as int));
        }
        assert(before.subrange(0, i as int) =~= before);
        assert(keep@.subrange(0, i as int) =~= keep@);
        self.entries = kept;
        proof {
            lemma_filter_mask_distinct(before, keep@);
        }
    }
}

/// Keeping by a mask that flags exactly the elements satisfying `pred` is
/// filtering by `pred`.
/// Values that name the extension that contributed them.
pub trait Owned: Duplicate {
    /// The contributor, read from the value's view.
    spec fn owner_of(v: Self::V) -> Seq<char>;

    fn owner_name(&self) -> (r: &str)
        ensures
            r@ == Self::owner_of(self@),
    ;
}

/// The condition "the entry's value is not contributed by `owner`".
pub open spec fn not_owned_entry<V: Owned>(owner: Seq<char>) -> spec_fn((Seq<char>, V::V)) -> bool {
    |e: (Seq<char>, V::V)| V::owner_of(e.1) != owner
}

impl<V: Owned> Store<V> {
    /// Removes the entries whose value `owner` contributed.
    pub fn retain_not_owned(&mut self, owner: &str)
        requires
            old(self).wf(),
        ensures
            final(self).wf(),
            final(self).entries() == old(self).entries().filter(not_owned_entry::<V>(owner@)),
    {
        let ghost before = self.entries();
        let ghost pred = not_owned_entry::<V>(owner@);
        let n = self.len();
        let mut keep: Vec<bool> = Vec::new();
        let mut i: usize = 0;
        while i < n
            invariant
                n == before.len(),
                before == self.entries(),
                i <= n,
                keep@.len() == i,
                pred == not_owned_entry::<V>(owner@),
                forall|k: int| 0 <= k < i ==> keep@[k] == pred(#[trigger] before[k]),
            decreases n - i,
        {
            let (_, v) = self.entry_at(i);
            keep.push(!str_eq(v.owner_name(), owner));
            i = i + 1;
        }
        self.retain_mask(&keep);
        proof {
            lemma_filter_mask_is_filter(before, keep@, pred);
        }
    }
}

pub proof fn lemma_filter_mask_is_filter<A>(s: Seq<A>, keep: Seq<bool>, pred: spec_fn(A) -> bool)
    requires
        keep.len() == s.len(),
        forall|i: int| 0 <= i < s.len() ==> keep[i] == pred(#[trigger] s[i]),
    ensures
        filter_mask(s, keep) == s.filter(pred),
    decreases s.len(),
{
    reveal(Seq::filter);
    if s.len() > 0 {
        assert forall|i: int| 0 <= i < s.drop_last().len() implies keep.drop_last()[i] == pred(
            #[trigger] s.drop_last()[i],
        ) by {
            assert(s.drop_last()[i] == s[i]);
        }
        lemma_filter_mask_is_filter(s.drop_last(), keep.drop_last(), pred);
    }
}

pub proof fn lemma_filter_mask_subset<A>(s: Seq<A>, keep: Seq<bool>)
    ensures
        forall|x: A| filter_mask(s, keep).contains(x) ==> s.contains(x),
        filter_mask(s, keep).len() <= s.len(),
    decreases s.len(),
{
    if s.len() > 0 && keep.len() > 0 {
        lemma_filter_mask_subset(s.drop_last(), keep.drop_last());
        assert forall|x: A| filter_mask(s, keep).contains(x) implies s.contains(x) by {
            if filter_mask(s.drop_last(), keep.drop_last()).contains(x) {
                assert(s.drop_last().contains(x));
                let k = choose|k: int| 0 <= k < s.drop_last().len() && s.drop_last()[k] == x;
                assert(s.drop_last()[k] == s[k]);
                assert(s.contains(x));
            } else {
                assert(x == s[s.len() - 1]);
                assert(s.contains(x));
            }
        }
    }
}

pub proof fn lemma_filter_mask_distinct<V>(s: Seq<(Seq<char>, V)>, keep: Seq<bool>)
    requires
        distinct_keys(s),
    ensures
        distinct_keys(filter_mask(s, keep)),
    decreases s.len(),
{
    if s.len() > 0 && keep.len() > 0 {
        let rest = filter_mask(s.drop_last(), keep.drop_last());
        assert(distinct_keys(s.drop_last()));
        lemma_filter_mask_distinct(s.drop_last(), keep.drop_last());
        lemma_filter_mask_subset(s.drop_last(), keep.drop_last());
        if keep.last() {
            let r = rest.push(s.last());
            assert forall|i: int, j: int|
                0 <= i < r.len() && 0 <= j < r.len() && i != j implies r[i].0 != r[j].0 by {
                if i < rest.len() && j < rest.len() {
                } else if i == rest.len() {
                    assert(rest.contains(r[j]));
                    assert(s.drop_last().contains(r[j]));
                    let k = choose|k: int| 0 <= k < s.drop_last().len() && s.drop_last()[k] == r[j];
                    assert(s.drop_last()[k] == s[k]);
                    assert(s[k].0 != s[s.len() - 1].0);
                } else {
                    assert(rest.contains(r[i]));
                    assert(s.drop_last().contains(r[i]));
                    let k = choose|k: int| 0 <= k < s.drop_last().len() && s.drop_last()[k] == r[i];
                    assert(s.drop_last()[k] == s[k]);
                    assert(s[k].0 != s[s.len() - 1].0);
                }
            }
        }
    }
}


impl<V: Duplicate> View for Store<V> {
    type V = Seq<(Seq<char>, V::V)>;

    open spec fn view(&self) -> Seq<(Seq<char>, V::V)> {
        self.entries()
    }
}

impl<V: Duplicate> Duplicate for Store<V> {
    fn duplicate(&self) -> (r: Self) {
        let mut entries: Vec<(String, V)> = Vec::new();
        let mut i: usize = 0;
        while i < self.entries.len()
            invariant
                i <= self.entries@.len(),
                entries@.len() == i,
                forall|j: int| 0 <= j < i ==> (#[trigger] entries@[j]).0@ == self.entries@[j].0@
                    && entries@[j].1@ == self.entries@[j].1@,
            decreases self.entries@.len() - i,
        {
            entries.push((self.entries[i].0.clone(), self.entries[i].1.duplicate()));
            i = i + 1;
        }
        let r = Store { entries };
        assert(r.entries() =~= self.entries());
        r
    }
}

/// With distinct keys, a key is found with a value exactly when the entries
/// hold that pair.
pub proof fn lemma_lookup_contains<V>(entries: Seq<(Seq<char>, V)>, key: Seq<char>, value: V)
    requires
        distinct_keys(entries),
    ensures
        lookup(entries, key) == Some(value) <==> entries.contains((key, value)),
{
    lemma_key_index_bounds(entries, key);
    let i = key_index(entries, key);
    if entries.contains((key, value)) {
        let j = choose|j: int| 0 <= j < entries.len() && entries[j] == (key, value);
        assert(entries[j].0 == key);
        if i < j {
            assert(entries[i].0 == entries[j].0);
        }
        assert(i == j);
    }
    if lookup(entries, key) == Some(value) {
        assert(entries[i] == (key, value));
    }
}

/// Clearing what one owner contributed: a key whose value that owner
/// contributed is no longer found, and every other key is found as before.
pub proof fn lemma_lookup_after_clear<V: Owned>(
    entries: Seq<(Seq<char>, V::V)>,
    owner: Seq<char>,
    key: Seq<char>,
)
    requires
        distinct_keys(entries),
    ensures
        lookup(entries.filter(not_owned_entry::<V>(owner)), key) == match lookup(entries, key) {
            Some(v) => if V::owner_of(v) == owner {
                None
            } else {
                Some(v)
            },
            None => None,
        },
{
    let pred = not_owned_entry::<V>(owner);
    let f = entries.filter(pred);
    let keep = Seq::new(entries.len(), |i: int| pred(entries[i]));
    lemma_filter_mask_is_filter(entries, keep, pred);
    lemma_filter_mask_distinct(entries, keep);
    assert(distinct_keys(f));
    match lookup(f, key) {
        Some(w) => {
            lemma_lookup_contains(f, key, w);
            entries.lemma_filter_contains_rev(pred, (key, w));
            lemma_lookup_contains(entries, key, w);
            let k = choose|k: int| 0 <= k < f.len() && f[k] == (key, w);
            entries.lemma_filter_pred(pred, k);
        },
        None => {
            match lookup(entries, key) {
                Some(v) => {
                    if V::owner_of(v) != owner {
                        lemma_lookup_contains(entries, key, v);
                        let k = choose|k: int| 0 <= k < entries.len() && entries[k] == (key, v);
                        entries.lemma_filter_contains(pred, k);
                        lemma_lookup_contains(f, key, v);
                    }
                },
                None => {},
            }
        },
    }
}

} // verus!
