//! A map from text keys to values that remembers the order in which keys
//! were first inserted. Headers, form fields and the tables of the store are
//! all kept in it.

use vstd::prelude::*;

verus! {

/// A text key with its value, as mathematics sees it.
pub type Entry<V> = (Seq<char>, V);

/// Whether no key occurs twice.
pub open spec fn distinct_keys<K, V>(e: Seq<(K, V)>) -> bool {
    forall|i: int, j: int| 0 <= i < j < e.len() ==> (#[trigger] e[i]).0 != (#[trigger] e[j]).0
}

/// Whether `k` is the key at position `i`.
pub open spec fn key_at<K, V>(e: Seq<(K, V)>, k: K, i: int) -> bool {
    0 <= i < e.len() && e[i].0 == k
}

/// Whether some entry has the key `k`.
pub open spec fn has_key<K, V>(e: Seq<(K, V)>, k: K) -> bool {
    exists|i: int| key_at(e, k, i)
}

/// A position that holds the key `k`.
pub open spec fn position_of<K, V>(e: Seq<(K, V)>, k: K) -> int {
    choose|i: int| key_at(e, k, i)
}

/// The mapping that a list of entries stands for.
pub open spec fn map_of<K, V>(e: Seq<(K, V)>) -> Map<K, V> {
    Map::new(|k: K| has_key(e, k), |k: K| e[position_of(e, k)].1)
}

/// The entries after `k` is given the value `v`: an existing key keeps its
/// place, a new one goes to the end.
pub open spec fn put<K, V>(e: Seq<(K, V)>, k: K, v: V) -> Seq<(K, V)> {
    if has_key(e, k) {
        e.update(position_of(e, k), (k, v))
    } else {
        e.push((k, v))
    }
}

/// The entries after `k` is taken out.
pub open spec fn without<K, V>(e: Seq<(K, V)>, k: K) -> Seq<(K, V)> {
    if has_key(e, k) {
        e.remove(position_of(e, k))
    } else {
        e
    }
}

/// With distinct keys, every entry is what the mapping holds for its key.
pub proof fn lemma_map_of_entry<K, V>(e: Seq<(K, V)>, i: int)
    requires
        distinct_keys(e),
        0 <= i < e.len(),
    ensures
        has_key(e, e[i].0),
        position_of(e, e[i].0) == i,
        map_of(e).contains_key(e[i].0),
        map_of(e)[e[i].0] == e[i].1,
{
    assert(key_at(e, e[i].0, i));
    let j = position_of(e, e[i].0);
    assert(key_at(e, e[i].0, j));
    if i < j {
        assert(e[i].0 != e[j].0);
    }
    if j < i {
        assert(e[j].0 != e[i].0);
    }
}

/// `put` keeps the keys distinct and acts on the mapping as `Map::insert`.
pub proof fn lemma_put<K, V>(e: Seq<(K, V)>, k: K, v: V)
    requires
        distinct_keys(e),
    ensures
        distinct_keys(put(e, k, v)),
        map_of(put(e, k, v)) == map_of(e).insert(k, v),
{
    let n = put(e, k, v);
    if has_key(e, k) {
        let p = position_of(e, k);
        assert(key_at(e, k, p));
        assert forall|i: int, j: int| 0 <= i < j < n.len() implies (#[trigger] n[i]).0 != (
        #[trigger] n[j]).0 by {
            assert(e[i].0 != e[j].0);
        }
        assert forall|x: K| has_key(n, x) <==> (x == k || has_key(e, x)) by {
            if has_key(n, x) {
                let i = position_of(n, x);
                assert(key_at(n, x, i));
                assert(key_at(e, x, i));
            }
            if has_key(e, x) {
                let i = position_of(e, x);
                assert(key_at(e, x, i));
                assert(key_at(n, x, i));
            }
            if x == k {
                assert(key_at(n, x, p));
            }
        }
        assert forall|x: K| has_key(n, x) implies #[trigger] map_of(n)[x] == map_of(
            e,
        ).insert(k, v)[x] by {
            let i = position_of(n, x);
            assert(key_at(n, x, i));
            lemma_map_of_entry(n, i);
            if x != k {
                assert(key_at(e, x, i));
                lemma_map_of_entry(e, i);
            } else {
                lemma_map_of_entry(n, p);
            }
        }
    } else {
        assert forall|i: int, j: int| 0 <= i < j < n.len() implies (#[trigger] n[i]).0 != (
        #[trigger] n[j]).0 by {
            if j == e.len() {
                if e[i].0 == k {
                    assert(key_at(e, k, i));
                }
            } else {
                assert(e[i].0 != e[j].0);
            }
        }
        assert forall|x: K| has_key(n, x) <==> (x == k || has_key(e, x)) by {
            if has_key(n, x) {
                let i = position_of(n, x);
                assert(key_at(n, x, i));
                if i < e.len() {
                    assert(key_at(e, x, i));
                }
            }
            if has_key(e, x) {
                let i = position_of(e, x);
                assert(key_at(e, x, i));
                assert(key_at(n, x, i));
            }
            if x == k {
                assert(key_at(n, x, e.len() as int));
            }
        }
        assert forall|x: K| has_key(n, x) implies #[trigger] map_of(n)[x] == map_of(
            e,
        ).insert(k, v)[x] by {
            let i = position_of(n, x);
            assert(key_at(n, x, i));
            lemma_map_of_entry(n, i);
            if x != k {
                assert(key_at(e, x, i));
                lemma_map_of_entry(e, i);
            } else {
                lemma_map_of_entry(n, e.len() as int);
            }
        }
    }
    assert(map_of(n) =~= map_of(e).insert(k, v));
}

/// `without` keeps the keys distinct and acts on the mapping as `Map::remove`.
pub proof fn lemma_without<K, V>(e: Seq<(K, V)>, k: K)
    requires
        distinct_keys(e),
    ensures
        distinct_keys(without(e, k)),
        map_of(without(e, k)) == map_of(e).remove(k),
{
    let n = without(e, k);
    if has_key(e, k) {
        let p = position_of(e, k);
        assert(key_at(e, k, p));
        lemma_map_of_entry(e, p);
        assert forall|i: int| 0 <= i < n.len() implies #[trigger] n[i] == e[if i < p {
            i
        } else {
            i + 1
        }] by {}
        assert forall|i: int, j: int| 0 <= i < j < n.len() implies (#[trigger] n[i]).0 != (
        #[trigger] n[j]).0 by {
            let a = if i < p {
                i
            } else {
                i + 1
            };
            let b = if j < p {
                j
            } else {
                j + 1
            };
            assert(e[a].0 != e[b].0);
        }
        assert forall|x: K| has_key(n, x) <==> (x != k && has_key(e, x)) by {
            if has_key(n, x) {
                let i = position_of(n, x);
                assert(key_at(n, x, i));
                let a = if i < p {
                    i
                } else {
                    i + 1
                };
                assert(key_at(e, x, a));
                lemma_map_of_entry(e, a);
            }
            if x != k && has_key(e, x) {
                let a = position_of(e, x);
                assert(key_at(e, x, a));
                let i = if a < p {
                    a
                } else {
                    a - 1
                };
                assert(key_at(n, x, i));
            }
        }
        assert forall|x: K| has_key(n, x) implies #[trigger] map_of(n)[x] == map_of(
            e,
        )[x] by {
            let i = position_of(n, x);
            assert(key_at(n, x, i));
            lemma_map_of_entry(n, i);
            let a = if i < p {
                i
            } else {
                i + 1
            };
            assert(key_at(e, x, a));
            lemma_map_of_entry(e, a);
        }
        assert(map_of(n) =~= map_of(e).remove(k));
    } else {
        assert(map_of(n) =~= map_of(e).remove(k));
    }
}

/// A map from text keys to values, in insertion order.
#[derive(Debug)]
pub struct StringMap<V> {
    items: Vec<(String, V)>,
}

impl<V> View for StringMap<V> {
    type V = Map<Seq<char>, V>;

    open spec fn view(&self) -> Map<Seq<char>, V> {
        map_of(self.entries())
    }
}

impl<V> StringMap<V> {
    /// The entries in insertion order.
    pub closed spec fn entries(&self) -> Seq<Entry<V>> {
        self.items@.map_values(|e: (String, V)| (e.0@, e.1))
    }

    #[verifier::type_invariant]
    spec fn keys_are_distinct(&self) -> bool {
        distinct_keys(self.entries())
    }

    /// An empty map.
    pub fn new() -> (r: Self)
        ensures
            r.entries() == Seq::<Entry<V>>::empty(),
            r@ == Map::<Seq<char>, V>::empty(),
    {
        let r = StringMap { items: Vec::new() };
        assert(r.entries() =~= Seq::<Entry<V>>::empty());
        assert(r@ =~= Map::<Seq<char>, V>::empty()) by {
            assert forall|k: Seq<char>| !has_key(r.entries(), k) by {
                if has_key(r.entries(), k) {
                    assert(key_at(r.entries(), k, position_of(r.entries(), k)));
                }
            }
        }
        r
    }

    /// Recalls that no key occurs twice. Nothing happens at run time.
    pub fn recall_distinct(&self)
        ensures
            distinct_keys(self.entries()),
    {
        proof {
            use_type_invariant(self);
        }
    }

    /// The number of keys.
    pub fn len(&self) -> (r: usize)
        ensures
            r == self.entries().len(),
    {
        self.items.len()
    }

    /// The key at position `i` of the insertion order.
    pub fn key(&self, i: usize) -> (r: &String)
        requires
            i < self.entries().len(),
        ensures
            r@ == self.entries()[i as int].0,
    {
        &self.items[i].0
    }

    /// The value at position `i` of the insertion order.
    pub fn value(&self, i: usize) -> (r: &V)
        requires
            i < self.entries().len(),
        ensures
            *r == self.entries()[i as int].1,
    {
        &self.items[i].1
    }

    fn find(&self, key: &str) -> (r: Option<usize>)
        ensures
            distinct_keys(self.entries()),
            match r {
                Some(i) => key_at(self.entries(), key@, i as int) && position_of(
                    self.entries(),
                    key@,
                ) == i,
                None => !has_key(self.entries(), key@),
            },
    {
        proof {
            use_type_invariant(self);
        }
        let mut i: usize = 0;
        while i < self.items.len()
            invariant
                i <= self.items.len(),
                distinct_keys(self.entries()),
                forall|j: int| 0 <= j < i ==> !key_at(self.entries(), key@, j),
            decreases self.items.len() - i,
        {
            if *self.items[i].0.as_str() == *key {
                proof {
                    lemma_map_of_entry(self.entries(), i as int);
                }
                return Some(i);
            }
            i += 1;
        }
        assert(!has_key(self.entries(), key@)) by {
            if has_key(self.entries(), key@) {
                assert(key_at(self.entries(), key@, position_of(self.entries(), key@)));
            }
        }
        None
    }

    /// Whether `key` has a value.
    pub fn contains_key(&self, key: &str) -> (r: bool)
        ensures
            r == self@.contains_key(key@),
    {
        self.find(key).is_some()
    }

    /// The value of `key`, if it has one.
    pub fn get(&self, key: &str) -> (r: Option<&V>)
        ensures
            match r {
                Some(v) => self@.contains_key(key@) && *v == self@[key@],
                None => !self@.contains_key(key@),
            },
    {
        match self.find(key) {
            Some(i) => {
                proof {
                    lemma_map_of_entry(self.entries(), i as int);
                }
                Some(&self.items[i].1)
            },
            None => None,
        }
    }

    /// A copy of the value of `key`, if it has one.
    pub fn get_cloned(&self, key: &str) -> (r: Option<V>) where V: Clone
        ensures
            match r {
                Some(v) => self@.contains_key(key@) && cloned(self@[key@], v),
                None => !self@.contains_key(key@),
            },
    {
        match self.get(key) {
            Some(v) => Some(v.clone()),
            None => None,
        }
    }

    /// Gives `key` the value `value` and returns the value it had before.
    pub fn insert(&mut self, key: String, value: V) -> (r: Option<V>)
        ensures
            final(self).entries() == put(old(self).entries(), key@, value),
            final(self)@ == old(self)@.insert(key@, value),
            r == if old(self)@.contains_key(key@) {
                Some(old(self)@[key@])
            } else {
                None::<V>
            },
    {
        let ghost before = self.entries();
        let ghost k = key@;
        proof {
            use_type_invariant(&*self);
            lemma_put(before, k, value);
        }
        let found = self.find(key.as_str());
        let mut items: Vec<(String, V)> = Vec::new();
        std::mem::swap(&mut self.items, &mut items);
        let r = match found {
            Some(i) => {
                proof {
                    lemma_map_of_entry(before, i as int);
                }
                let old_entry = items.remove(i);
                items.insert(i, (key, value));
                Some(old_entry.1)
            },
            None => {
                items.push((key, value));
                None
            },
        };
        assert(items@.map_values(|e: (String, V)| (e.0@, e.1)) =~= put(before, k, value));
        self.items = items;
        r
    }

    /// Takes `key` out and returns the value it had.
    pub fn remove(&mut self, key: &str) -> (r: Option<V>)
        ensures
            final(self).entries() == without(old(self).entries(), key@),
            final(self)@ == old(self)@.remove(key@),
            r == if old(self)@.contains_key(key@) {
                Some(old(self)@[key@])
            } else {
                None::<V>
            },
    {
        let ghost before = self.entries();
        proof {
            use_type_invariant(&*self);
            lemma_without(before, key@);
        }
        let found = self.find(key);
        let mut items: Vec<(String, V)> = Vec::new();
        std::mem::swap(&mut self.items, &mut items);
        let r = match found {
            Some(i) => {
                proof {
                    lemma_map_of_entry(before, i as int);
                }
                let old_entry = items.remove(i);
                Some(old_entry.1)
            },
            None => None,
        };
        assert(items@.map_values(|e: (String, V)| (e.0@, e.1)) =~= without(before, key@));
        self.items = items;
        r
    }
}

impl<V: Clone> Clone for StringMap<V> {
    fn clone(&self) -> (r: Self)
        ensures
            r.entries().len() == self.entries().len(),
            forall|i: int|
                0 <= i < self.entries().len() ==> (#[trigger] r.entries()[i]).0
                    == self.entries()[i].0 && cloned(self.entries()[i].1, r.entries()[i].1),
    {
        proof {
            use_type_invariant(self);
        }
        let mut items: Vec<(String, V)> = Vec::new();
        let mut i: usize = 0;
        while i < self.items.len()
            invariant
                i <= self.items.len(),
                items.len() == i,
                forall|j: int|
                    0 <= j < i ==> (#[trigger] items@[j]).0@ == self.items@[j].0@ && cloned(
                        self.items@[j].1,
                        items@[j].1,
                    ),
            decreases self.items.len() - i,
        {
            items.push((self.items[i].0.clone(), self.items[i].1.clone()));
            i += 1;
        }
        let ghost copies = items@.map_values(|e: (String, V)| (e.0@, e.1));
        assert forall|a: int, b: int| 0 <= a < b < copies.len() implies (#[trigger] copies[a]).0
            != (#[trigger] copies[b]).0 by {
            assert(self.entries()[a].0 != self.entries()[b].0);
        }
        StringMap { items }
    }
}

/// The entries with each value replaced by its text.
pub open spec fn text_values(e: Seq<Entry<String>>) -> Seq<Entry<Seq<char>>> {
    e.map_values(|x: Entry<String>| (x.0, x.1@))
}

/// Taking the text of the values changes neither the keys nor what a key
/// stands for.
pub proof fn lemma_text_values(e: Seq<Entry<String>>, k: Seq<char>)
    requires
        distinct_keys(e),
    ensures
        distinct_keys(text_values(e)),
        has_key(text_values(e), k) == has_key(e, k),
        has_key(e, k) ==> position_of(text_values(e), k) == position_of(e, k),
        has_key(e, k) ==> map_of(text_values(e))[k] == map_of(e)[k]@,
{
    let t = text_values(e);
    assert forall|i: int, j: int| 0 <= i < j < t.len() implies (#[trigger] t[i]).0 != (
    #[trigger] t[j]).0 by {
        assert(e[i].0 != e[j].0);
    }
    if has_key(e, k) {
        let i = position_of(e, k);
        assert(key_at(e, k, i));
        assert(key_at(t, k, i));
        lemma_map_of_entry(e, i);
        lemma_map_of_entry(t, i);
    }
    if has_key(t, k) {
        let i = position_of(t, k);
        assert(key_at(t, k, i));
        assert(key_at(e, k, i));
    }
}

/// `put` and `text_values` can be applied in either order.
pub proof fn lemma_text_values_put(e: Seq<Entry<String>>, k: Seq<char>, v: String)
    requires
        distinct_keys(e),
    ensures
        text_values(put(e, k, v)) == put(text_values(e), k, v@),
{
    lemma_text_values(e, k);
    assert(text_values(put(e, k, v)) =~= put(text_values(e), k, v@));
}

impl StringMap<String> {
    /// The entries with each value as a text.
    pub open spec fn text_entries(&self) -> Seq<Entry<Seq<char>>> {
        text_values(self.entries())
    }
}

/// The entries after each item of `items` is put, in order.
pub open spec fn put_all<K, V>(e: Seq<(K, V)>, items: Seq<(K, V)>) -> Seq<(K, V)>
    decreases items.len(),
{
    if items.len() == 0 {
        e
    } else {
        put(put_all(e, items.drop_last()), items.last().0, items.last().1)
    }
}

/// A key that was given a value has that value.
pub proof fn lemma_get_after_insert<K, V>(e: Seq<(K, V)>, k: K, v: V)
    requires
        distinct_keys(e),
    ensures
        map_of(put(e, k, v)).contains_key(k),
        map_of(put(e, k, v))[k] == v,
{
    lemma_put(e, k, v);
    assert(map_of(e).insert(k, v).contains_key(k));
}

/// A key that was taken out has no value.
pub proof fn lemma_get_after_remove<K, V>(e: Seq<(K, V)>, k: K)
    requires
        distinct_keys(e),
    ensures
        !map_of(without(e, k)).contains_key(k),
{
    lemma_without(e, k);
    assert(!map_of(e).remove(k).contains_key(k));
}

/// Giving values to two different keys comes to the same mapping in either
/// order.
pub proof fn lemma_inserts_commute<K, V>(e: Seq<(K, V)>, k1: K, v1: V, k2: K, v2: V)
    requires
        distinct_keys(e),
        k1 != k2,
    ensures
        map_of(put(put(e, k1, v1), k2, v2)) == map_of(put(put(e, k2, v2), k1, v1)),
{
    lemma_put(e, k1, v1);
    lemma_put(e, k2, v2);
    lemma_put(put(e, k1, v1), k2, v2);
    lemma_put(put(e, k2, v2), k1, v1);
    assert(map_of(e).insert(k1, v1).insert(k2, v2) =~= map_of(e).insert(k2, v2).insert(k1, v1));
}

/// After any number of inserts under keys that differ from one another,
/// every one of them is there with its value: none is lost, whatever the
/// order they came in.
pub proof fn lemma_all_inserts_visible<K, V>(e: Seq<(K, V)>, items: Seq<(K, V)>, i: int)
    requires
        distinct_keys(e),
        distinct_keys(items),
        0 <= i < items.len(),
    ensures
        distinct_keys(put_all(e, items)),
        map_of(put_all(e, items)).contains_key(items[i].0),
        map_of(put_all(e, items))[items[i].0] == items[i].1,
    decreases items.len(),
{
    let before = items.drop_last();
    assert(distinct_keys(before)) by {
        assert forall|a: int, b: int| 0 <= a < b < before.len() implies (
        #[trigger] before[a]).0 != (#[trigger] before[b]).0 by {
            assert(items[a].0 != items[b].0);
        }
    }
    lemma_put_all_distinct(e, before);
    lemma_put(put_all(e, before), items.last().0, items.last().1);
    if i == items.len() - 1 {
        assert(map_of(put_all(e, before)).insert(items.last().0, items.last().1).contains_key(
            items[i].0,
        ));
    } else {
        lemma_all_inserts_visible(e, before, i);
        assert(before[i] == items[i]);
        assert(items[i].0 != items[items.len() - 1].0);
    }
}

/// Putting keeps the keys distinct, however often.
pub proof fn lemma_put_all_distinct<K, V>(e: Seq<(K, V)>, items: Seq<(K, V)>)
    requires
        distinct_keys(e),
    ensures
        distinct_keys(put_all(e, items)),
    decreases items.len(),
{
    if items.len() > 0 {
        lemma_put_all_distinct(e, items.drop_last());
        lemma_put(put_all(e, items.drop_last()), items.last().0, items.last().1);
    }
}

} // verus!
