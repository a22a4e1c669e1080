//! A map from texts to values that lists its entries in the order of their keys.

use crate::text::{chars_of, texts};
use vstd::prelude::*;
use vstd::string::*;

verus! {

// ---------------------------------------------------------------------------
// The order of texts
// ---------------------------------------------------------------------------

/// Whether `a` stands before `b` in the dictionary order by code points.
pub open spec fn precedes(a: Seq<char>, b: Seq<char>) -> bool
    decreases a.len(),
{
    if b.len() == 0 {
        false
    } else if a.len() == 0 {
        true
    } else if a[0] == b[0] {
        precedes(a.drop_first(), b.drop_first())
    } else {
        a[0] < b[0]
    }
}

/// How two texts stand to each other.
#[derive(Clone, Copy)]
pub enum Placement {
    Before,
    Same,
    After,
}

/// No text stands before itself.
pub proof fn lemma_precedes_irreflexive(a: Seq<char>)
    ensures
        !precedes(a, a),
    decreases a.len(),
{
    if a.len() > 0 {
        lemma_precedes_irreflexive(a.drop_first());
    }
}

/// What stands before something that stands before `c` stands before `c`.
pub proof fn lemma_precedes_transitive(a: Seq<char>, b: Seq<char>, c: Seq<char>)
    requires
        precedes(a, b),
        precedes(b, c),
    ensures
        precedes(a, c),
    decreases a.len(),
{
    if a.len() > 0 && b.len() > 0 && c.len() > 0 && a[0] == b[0] && b[0] == c[0] {
        lemma_precedes_transitive(a.drop_first(), b.drop_first(), c.drop_first());
    }
}

/// Of two different texts one stands before the other.
pub proof fn lemma_precedes_total(a: Seq<char>, b: Seq<char>)
    ensures
        precedes(a, b) || precedes(b, a) || a == b,
    decreases a.len(),
{
    if a.len() > 0 && b.len() > 0 {
        if a[0] == b[0] {
            lemma_precedes_total(a.drop_first(), b.drop_first());
            if a.drop_first() == b.drop_first() {
                assert(a =~= seq![a[0]] + a.drop_first());
                assert(b =~= seq![b[0]] + b.drop_first());
            }
        }
    } else if a.len() == 0 && b.len() == 0 {
        assert(a =~= b);
    }
}

/// How `a` stands to `b` in the dictionary order.
pub fn place(a: &str, b: &str) -> (r: Placement)
    ensures
        match r {
            Placement::Before => precedes(a@, b@),
            Placement::Same => a@ == b@,
            Placement::After => precedes(b@, a@),
        },
{
    let v = chars_of(a);
    let w = chars_of(b);
    let mut i: usize = 0;
    assert(v@.skip(0) =~= v@);
    assert(w@.skip(0) =~= w@);
    while i < v.len() && i < w.len()
        invariant
            i <= v@.len(),
            i <= w@.len(),
            v@ == a@,
            w@ == b@,
            v@.take(i as int) == w@.take(i as int),
            precedes(v@, w@) == precedes(v@.skip(i as int), w@.skip(i as int)),
            precedes(w@, v@) == precedes(w@.skip(i as int), v@.skip(i as int)),
        decreases v@.len() - i,
    {
        let ghost p = v@.skip(i as int);
        let ghost q = w@.skip(i as int);
        if v[i] < w[i] {
            return Placement::Before;
        }
        if w[i] < v[i] {
            return Placement::After;
        }
        proof {
            assert(p.drop_first() =~= v@.skip(i + 1));
            assert(q.drop_first() =~= w@.skip(i + 1));
            assert(v@.take(i + 1) =~= v@.take(i as int).push(v@[i as int]));
            assert(w@.take(i + 1) =~= w@.take(i as int).push(w@[i as int]));
        }
        i += 1;
    }
    if i < w.len() {
        Placement::Before
    } else if i < v.len() {
        Placement::After
    } else {
        assert(v@.take(i as int) =~= v@);
        assert(w@.take(i as int) =~= w@);
        Placement::Same
    }
}

/// Whether each text of `s` stands before all that follow it.
pub open spec fn ascending(s: Seq<Seq<char>>) -> bool {
    forall|i: int, j: int| 0 <= i < j < s.len() ==> precedes(#[trigger] s[i], #[trigger] s[j])
}

/// The members of `keys` in ascending order.
pub open spec fn in_order(keys: Set<Seq<char>>) -> Seq<Seq<char>> {
    choose|s: Seq<Seq<char>>| ascending(s) && #[trigger] s.to_set() == keys
}

proof fn lemma_ascending_first(s: Seq<Seq<char>>, t: Seq<Seq<char>>)
    requires
        ascending(s),
        ascending(t),
        s.to_set() == t.to_set(),
        s.len() > 0,
    ensures
        t.len() > 0,
        s[0] == t[0],
{
    assert(s.to_set().contains(s[0]));
    assert(t.contains(s[0]));
    assert(t.to_set().contains(t[0]));
    assert(s.contains(t[0]));
    let i = choose|i: int| 0 <= i < t.len() && t[i] == s[0];
    let j = choose|j: int| 0 <= j < s.len() && s[j] == t[0];
    if i > 0 && j > 0 {
        assert(precedes(t[0], t[i]));
        assert(precedes(s[0], s[j]));
        lemma_precedes_transitive(s[0], t[0], s[0]);
        lemma_precedes_irreflexive(s[0]);
    }
}

/// A set has only one ascending listing.
pub proof fn lemma_ascending_unique(s: Seq<Seq<char>>, t: Seq<Seq<char>>)
    requires
        ascending(s),
        ascending(t),
        s.to_set() == t.to_set(),
    ensures
        s == t,
    decreases s.len(),
{
    if s.len() == 0 {
        if t.len() > 0 {
            assert(t.to_set().contains(t[0]));
            assert(s.contains(t[0]));
        }
        assert(s =~= t);
    } else {
        lemma_ascending_first(s, t);
        let s1 = s.drop_first();
        let t1 = t.drop_first();
        assert forall|k: Seq<char>| #[trigger] s1.to_set().contains(k) == t1.to_set().contains(
            k,
        ) by {
            lemma_rest_of_ascending(s, k);
            lemma_rest_of_ascending(t, k);
            assert(s.to_set().contains(k) == t.to_set().contains(k));
        }
        assert(s1.to_set() =~= t1.to_set());
        assert(ascending(s1)) by {
            assert forall|i: int, j: int| 0 <= i < j < s1.len() implies precedes(
                #[trigger] s1[i],
                #[trigger] s1[j],
            ) by {
                assert(s1[i] == s[i + 1] && s1[j] == s[j + 1]);
            }
        }
        assert(ascending(t1)) by {
            assert forall|i: int, j: int| 0 <= i < j < t1.len() implies precedes(
                #[trigger] t1[i],
                #[trigger] t1[j],
            ) by {
                assert(t1[i] == t[i + 1] && t1[j] == t[j + 1]);
            }
        }
        lemma_ascending_unique(s1, t1);
        assert(s =~= seq![s[0]] + s1);
        assert(t =~= seq![t[0]] + t1);
    }
}

proof fn lemma_rest_of_ascending(s: Seq<Seq<char>>, k: Seq<char>)
    requires
        ascending(s),
        s.len() > 0,
    ensures
        s.drop_first().to_set().contains(k) == (s.to_set().contains(k) && k != s[0]),
{
    let s1 = s.drop_first();
    if s1.contains(k) {
        let i = choose|i: int| 0 <= i < s1.len() && s1[i] == k;
        assert(s[i + 1] == k);
        assert(precedes(s[0], s[i + 1]));
        lemma_precedes_irreflexive(k);
    }
    if s.contains(k) && k != s[0] {
        let i = choose|i: int| 0 <= i < s.len() && s[i] == k;
        assert(s1[i - 1] == k);
    }
}

// ---------------------------------------------------------------------------
// The map
// ---------------------------------------------------------------------------

/// A map from texts to values. No key occurs twice, and the entries are kept in
/// the dictionary order of their keys.
#[derive(Debug)]
pub struct SortedMap<V> {
    entries: Vec<(String, V)>,
}

/// The keys of a list of entries.
pub closed spec fn entry_keys<V>(entries: Seq<(String, V)>) -> Seq<Seq<char>> {
    entries.map_values(|e: (String, V)| e.0@)
}

/// The position of the entry for `k`.
spec fn entry_index<V>(entries: Seq<(String, V)>, k: Seq<char>) -> int {
    choose|i: int| 0 <= i < entries.len() && (#[trigger] entries[i]).0@ == k
}

/// The map that a list of entries stands for.
pub closed spec fn entry_map<V>(entries: Seq<(String, V)>) -> Map<Seq<char>, V> {
    Map::new(
        |k: Seq<char>| entry_keys(entries).contains(k),
        |k: Seq<char>| entries[entry_index(entries, k)].1,
    )
}

proof fn lemma_entry<V>(entries: Seq<(String, V)>, i: int)
    requires
        ascending(entry_keys(entries)),
        0 <= i < entries.len(),
    ensures
        entry_map(entries).contains_key(entries[i].0@),
        entry_map(entries)[entries[i].0@] == entries[i].1,
{
    let k = entries[i].0@;
    let keys = entry_keys(entries);
    assert(keys[i] == k);
    let j = entry_index(entries, k);
    assert(0 <= j < entries.len() && entries[j].0@ == k);
    assert(keys[j] == k);
    lemma_precedes_irreflexive(k);
    assert(i == j) by {
        if i < j {
            assert(precedes(keys[i], keys[j]));
        } else if j < i {
            assert(precedes(keys[j], keys[i]));
        }
    }
}

proof fn lemma_entry_of<V>(entries: Seq<(String, V)>, k: Seq<char>) -> (i: int)
    requires
        entry_map(entries).contains_key(k),
    ensures
        0 <= i < entries.len(),
        entries[i].0@ == k,
{
    let i = choose|i: int| 0 <= i < entry_keys(entries).len() && entry_keys(entries)[i] == k;
    i
}

proof fn lemma_entry_dom<V>(entries: Seq<(String, V)>)
    ensures
        entry_map(entries).dom() == entry_keys(entries).to_set(),
        entry_map(entries).dom().finite(),
{
    assert(entry_map(entries).dom() =~= entry_keys(entries).to_set());
    vstd::seq_lib::seq_to_set_is_finite(entry_keys(entries));
}

proof fn lemma_entry_count<V>(entries: Seq<(String, V)>)
    requires
        ascending(entry_keys(entries)),
    ensures
        entry_map(entries).dom() == entry_keys(entries).to_set(),
        entry_map(entries).dom().finite(),
        entry_map(entries).len() == entries.len(),
{
    let keys = entry_keys(entries);
    lemma_entry_dom(entries);
    assert forall|i: int, j: int|
        0 <= i < keys.len() && 0 <= j < keys.len() && i != j implies keys[i] != keys[j] by {
        lemma_precedes_irreflexive(keys[i]);
        if i < j {
            assert(precedes(keys[i], keys[j]));
        } else {
            assert(precedes(keys[j], keys[i]));
        }
    }
    assert(keys.no_duplicates());
    keys.unique_seq_to_set();
}

impl<V> View for SortedMap<V> {
    type V = Map<Seq<char>, V>;

    closed spec fn view(&self) -> Map<Seq<char>, V> {
        entry_map(self.entries@)
    }
}

impl<V> SortedMap<V> {
    #[verifier::type_invariant]
    spec fn ordered(self) -> bool {
        ascending(entry_keys(self.entries@))
    }

    /// A map without entries.
    pub fn new() -> (r: Self)
        ensures
            r@ == Map::<Seq<char>, V>::empty(),
    {
        let r = SortedMap { entries: Vec::new() };
        assert(r@ =~= Map::<Seq<char>, V>::empty());
        r
    }

    /// Where `key` is, or where it would be inserted.
    fn search(&self, key: &str) -> (r: Result<usize, usize>)
        ensures
            match r {
                Ok(i) => i < self.entries@.len() && self.entries@[i as int].0@ == key@,
                Err(i) => {
                    &&& i <= self.entries@.len()
                    &&& forall|j: int|
                        0 <= j < i ==> precedes(#[trigger] self.entries@[j].0@, key@)
                    &&& forall|j: int|
                        i <= j < self.entries@.len() ==> precedes(
                            key@,
                            #[trigger] self.entries@[j].0@,
                        )
                },
            },
    {
        proof {
            use_type_invariant(self);
        }
        let mut i: usize = 0;
        while i < self.entries.len()
            invariant
                i <= self.entries@.len(),
                ascending(entry_keys(self.entries@)),
                forall|j: int| 0 <= j < i ==> precedes(#[trigger] self.entries@[j].0@, key@),
            decreases self.entries@.len() - i,
        {
            match place(self.entries[i].0.as_str(), key) {
                Placement::Before => {},
                Placement::Same => {
                    return Ok(i);
                },
                Placement::After => {
                    proof {
                        let keys = entry_keys(self.entries@);
                        assert forall|j: int| i <= j < self.entries@.len() implies precedes(
                            key@,
                            #[trigger] self.entries@[j].0@,
                        ) by {
                            if j > i {
                                assert(precedes(keys[i as int], keys[j]));
                                lemma_precedes_transitive(key@, keys[i as int], keys[j]);
                            }
                        }
                    }
                    return Err(i);
                },
            }
            i += 1;
        }
        Err(i)
    }

    proof fn lemma_absent(self, key: Seq<char>, i: int)
        requires
            0 <= i <= self.entries@.len(),
            forall|j: int| 0 <= j < i ==> precedes(#[trigger] self.entries@[j].0@, key),
            forall|j: int|
                i <= j < self.entries@.len() ==> precedes(key, #[trigger] self.entries@[j].0@),
        ensures
            !self@.contains_key(key),
    {
        if self@.contains_key(key) {
            let j = lemma_entry_of(self.entries@, key);
            lemma_precedes_irreflexive(key);
        }
    }

    /// The number of entries.
    pub fn len(&self) -> (n: usize)
        ensures
            n == self@.len(),
            self@.dom().finite(),
    {
        proof {
            use_type_invariant(self);
            lemma_entry_count(self.entries@);
        }
        self.entries.len()
    }

    /// Whether there is an entry for `key`.
    pub fn contains_key(&self, key: &str) -> (r: bool)
        ensures
            r == self@.contains_key(key@),
    {
        self.get(key).is_some()
    }

    /// The value for `key`, if there is one.
    pub fn get(&self, key: &str) -> (r: Option<&V>)
        ensures
            match r {
                Some(v) => self@.contains_key(key@) && self@[key@] == *v,
                None => !self@.contains_key(key@),
            },
    {
        proof {
            use_type_invariant(self);
        }
        match self.search(key) {
            Ok(i) => {
                proof {
                    lemma_entry(self.entries@, i as int);
                }
                Some(&self.entries[i].1)
            },
            Err(i) => {
                proof {
                    self.lemma_absent(key@, i as int);
                }
                None
            },
        }
    }

    /// Makes `value` the value for `key`, in place of any value it had.
    pub fn insert(&mut self, key: String, value: V)
        ensures
            final(self)@ == old(self)@.insert(key@, value),
    {
        proof {
            use_type_invariant(&*self);
        }
        let found = self.search(key.as_str());
        let ghost before = *self;
        let mut entries: Vec<(String, V)> = Vec::new();
        std::mem::swap(&mut entries, &mut self.entries);
        match found {
            Ok(i) => {
                proof {
                    lemma_entry(before.entries@, i as int);
                }
                entries.remove(i);
                let ghost middle = entries@;
                entries.insert(i, (key, value));
                proof {
                    assert(entries@ =~= before.entries@.update(i as int, (key, value)));
                    assert(entry_keys(entries@) =~= entry_keys(before.entries@));
                    lemma_updated(before.entries@, i as int, key, value);
                }
            },
            Err(i) => {
                proof {
                    before.lemma_absent(key@, i as int);
                    lemma_inserted(before.entries@, i as int, key, value);
                }
                entries.insert(i, (key, value));
            },
        }
        self.entries = entries;
    }

    /// Takes the entry for `key` out of the map, if there is one.
    pub fn remove(&mut self, key: &str) -> (r: Option<V>)
        ensures
            final(self)@ == old(self)@.remove(key@),
            match r {
                Some(v) => old(self)@.contains_key(key@) && old(self)@[key@] == v,
                None => !old(self)@.contains_key(key@),
            },
    {
        proof {
            use_type_invariant(&*self);
        }
        let found = self.search(key);
        let ghost before = *self;
        match found {
            Ok(i) => {
                let mut entries: Vec<(String, V)> = Vec::new();
                std::mem::swap(&mut entries, &mut self.entries);
                proof {
                    lemma_entry(before.entries@, i as int);
                    lemma_removed(before.entries@, i as int);
                }
                let (_, value) = entries.remove(i);
                self.entries = entries;
                Some(value)
            },
            Err(i) => {
                proof {
                    before.lemma_absent(key@, i as int);
                    assert(before@.remove(key@) =~= before@);
                }
                None
            },
        }
    }

    /// The keys, in ascending order.
    pub fn keys(&self) -> (r: Vec<String>)
        ensures
            texts(r@) == in_order(self@.dom()),
            ascending(texts(r@)),
            texts(r@).to_set() == self@.dom(),
            self@.dom().finite(),
            r@.len() == self@.len(),
    {
        proof {
            use_type_invariant(self);
        }
        let mut r: Vec<String> = Vec::new();
        let mut i: usize = 0;
        while i < self.entries.len()
            invariant
                i <= self.entries@.len(),
                r@.len() == i,
                forall|j: int| 0 <= j < i ==> (#[trigger] r@[j])@ == self.entries@[j].0@,
            decreases self.entries@.len() - i,
        {
            r.push(self.entries[i].0.clone());
            i += 1;
        }
        proof {
            assert(texts(r@) =~= entry_keys(self.entries@));
            lemma_entry_count(self.entries@);
            lemma_ascending_unique(texts(r@), in_order(self@.dom()));
        }
        r
    }
}

proof fn lemma_updated<V>(entries: Seq<(String, V)>, i: int, key: String, value: V)
    requires
        ascending(entry_keys(entries)),
        0 <= i < entries.len(),
        entries[i].0@ == key@,
    ensures
        ascending(entry_keys(entries.update(i, (key, value)))),
        entry_map(entries.update(i, (key, value))) == entry_map(entries).insert(key@, value),
{
    let new = entries.update(i, (key, value));
    assert(entry_keys(new) =~= entry_keys(entries));
    let m = entry_map(entries);
    let m2 = entry_map(new);
    lemma_entry(entries, i);
    assert forall|k: Seq<char>| #[trigger] m2.contains_key(k) implies m2[k] == m.insert(
        key@,
        value,
    )[k] by {
        let j = lemma_entry_of(new, k);
        lemma_entry(new, j);
        lemma_entry(entries, j);
        lemma_entry(new, i);
    }
    assert(m2 =~= m.insert(key@, value));
}

proof fn lemma_inserted<V>(entries: Seq<(String, V)>, i: int, key: String, value: V)
    requires
        ascending(entry_keys(entries)),
        0 <= i <= entries.len(),
        forall|j: int| 0 <= j < i ==> precedes(#[trigger] entries[j].0@, key@),
        forall|j: int| i <= j < entries.len() ==> precedes(key@, #[trigger] entries[j].0@),
    ensures
        ascending(entry_keys(entries.insert(i, (key, value)))),
        entry_map(entries.insert(i, (key, value))) == entry_map(entries).insert(key@, value),
{
    let new = entries.insert(i, (key, value));
    let keys = entry_keys(entries);
    let keys2 = entry_keys(new);
    assert forall|a: int, b: int| 0 <= a < b < keys2.len() implies precedes(
        #[trigger] keys2[a],
        #[trigger] keys2[b],
    ) by {
        let a0 = if a < i {
            a
        } else {
            a - 1
        };
        let b0 = if b < i {
            b
        } else {
            b - 1
        };
        if a != i && b != i {
            assert(keys2[a] == keys[a0] && keys2[b] == keys[b0]);
            assert(precedes(keys[a0], keys[b0]));
        } else if a == i {
            assert(keys2[b] == entries[b0].0@);
        } else {
            assert(keys2[a] == entries[a0].0@);
        }
    }
    let m = entry_map(entries);
    let m2 = entry_map(new);
    lemma_entry(new, i);
    assert forall|k: Seq<char>| #[trigger] m.contains_key(k) implies m2.contains_key(k) by {
        let j = lemma_entry_of(entries, k);
        let j2 = if j < i {
            j
        } else {
            j + 1
        };
        assert(new[j2] == entries[j]);
        lemma_entry(new, j2);
    }
    assert forall|k: Seq<char>| #[trigger] m2.contains_key(k) implies m.insert(
        key@,
        value,
    ).contains_key(k) && m2[k] == m.insert(key@, value)[k] by {
        let j = lemma_entry_of(new, k);
        lemma_entry(new, j);
        if j != i {
            let j0 = if j < i {
                j
            } else {
                j - 1
            };
            assert(new[j] == entries[j0]);
            lemma_entry(entries, j0);
            lemma_precedes_irreflexive(key@);
        }
    }
    assert(m2 =~= m.insert(key@, value));
}

proof fn lemma_removed<V>(entries: Seq<(String, V)>, i: int)
    requires
        ascending(entry_keys(entries)),
        0 <= i < entries.len(),
    ensures
        ascending(entry_keys(entries.remove(i))),
        entry_map(entries.remove(i)) == entry_map(entries).remove(entries[i].0@),
{
    let new = entries.remove(i);
    let keys = entry_keys(entries);
    let keys2 = entry_keys(new);
    assert forall|a: int, b: int| 0 <= a < b < keys2.len() implies precedes(
        #[trigger] keys2[a],
        #[trigger] keys2[b],
    ) by {
        let a0 = if a < i {
            a
        } else {
            a + 1
        };
        let b0 = if b < i {
            b
        } else {
            b + 1
        };
        assert(keys2[a] == keys[a0] && keys2[b] == keys[b0]);
        assert(precedes(keys[a0], keys[b0]));
    }
    let key = entries[i].0@;
    let m = entry_map(entries);
    let m2 = entry_map(new);
    assert forall|k: Seq<char>| #[trigger] m2.contains_key(k) implies m.remove(key).contains_key(k)
        && m2[k] == m[k] by {
        let j = lemma_entry_of(new, k);
        lemma_entry(new, j);
        let j0 = if j < i {
            j
        } else {
            j + 1
        };
        assert(new[j] == entries[j0]);
        lemma_entry(entries, j0);
        lemma_precedes_irreflexive(key);
        if j0 < i {
            assert(precedes(keys[j0], keys[i]));
        } else {
            assert(precedes(keys[i], keys[j0]));
        }
    }
    assert forall|k: Seq<char>| #[trigger] m.contains_key(k) && k != key implies m2.contains_key(
        k,
    ) by {
        let j = lemma_entry_of(entries, k);
        let j2 = if j < i {
            j
        } else {
            j - 1
        };
        assert(new[j2] == entries[j]);
        lemma_entry(new, j2);
    }
    assert(m2 =~= m.remove(key));
}

/// What the values of a map stand for.
pub open spec fn viewed<V: View>(m: Map<Seq<char>, V>) -> Map<Seq<char>, V::V> {
    m.map_values(|v: V| v@)
}

/// An ascending listing of `keys` is the listing of `keys` in order.
pub proof fn lemma_listing(s: Seq<Seq<char>>, keys: Set<Seq<char>>)
    requires
        ascending(s),
        s.to_set() == keys,
    ensures
        s == in_order(keys),
{
    lemma_ascending_unique(s, in_order(keys));
}

/// A new entry stands for what its value stands for.
pub broadcast proof fn lemma_viewed_insert<V: View>(m: Map<Seq<char>, V>, key: Seq<char>, value: V)
    ensures
        #[trigger] viewed(m.insert(key, value)) == viewed(m).insert(key, value@),
{
    assert(viewed(m.insert(key, value)) =~= viewed(m).insert(key, value@));
}

/// Without an entry, what stands for the rest stays.
pub broadcast proof fn lemma_viewed_remove<V: View>(m: Map<Seq<char>, V>, key: Seq<char>)
    ensures
        #[trigger] viewed(m.remove(key)) == viewed(m).remove(key),
{
    assert(viewed(m.remove(key)) =~= viewed(m).remove(key));
}

proof fn lemma_placed(s: Seq<Seq<char>>, key: Seq<char>) -> (t: Seq<Seq<char>>)
    requires
        ascending(s),
        !s.contains(key),
    ensures
        ascending(t),
        t.to_set() == s.to_set().insert(key),
    decreases s.len(),
{
    if s.len() == 0 || precedes(key, s[0]) {
        let t = seq![key] + s;
        assert forall|i: int, j: int| 0 <= i < j < t.len() implies precedes(
            #[trigger] t[i],
            #[trigger] t[j],
        ) by {
            assert(t[j] == s[j - 1]);
            if i > 0 {
                assert(t[i] == s[i - 1]);
            } else if j > 1 {
                assert(precedes(s[0], s[j - 1]));
                lemma_precedes_transitive(key, s[0], s[j - 1]);
            }
        }
        assert forall|k: Seq<char>| #[trigger] t.to_set().contains(k) == s.to_set().insert(
            key,
        ).contains(k) by {
            assert(t[0] == key);
            if s.contains(k) {
                let i = choose|i: int| 0 <= i < s.len() && s[i] == k;
                assert(t[i + 1] == k);
            }
            if t.contains(k) && k != key {
                let i = choose|i: int| 0 <= i < t.len() && t[i] == k;
                assert(s[i - 1] == k);
            }
        }
        assert(t.to_set() =~= s.to_set().insert(key));
        t
    } else {
        let first = s[0];
        assert(s.contains(first));
        lemma_precedes_total(key, first);
        let s1 = s.drop_first();
        assert forall|i: int, j: int| 0 <= i < j < s1.len() implies precedes(
            #[trigger] s1[i],
            #[trigger] s1[j],
        ) by {
            assert(s1[i] == s[i + 1] && s1[j] == s[j + 1]);
        }
        lemma_rest_of_ascending(s, key);
        let t1 = lemma_placed(s1, key);
        let t = seq![first] + t1;
        assert forall|i: int, j: int| 0 <= i < j < t.len() implies precedes(
            #[trigger] t[i],
            #[trigger] t[j],
        ) by {
            assert(t[j] == t1[j - 1]);
            if i > 0 {
                assert(t[i] == t1[i - 1]);
            } else {
                assert(t1.to_set().contains(t1[j - 1]));
                if t1[j - 1] != key {
                    assert(s1.to_set().contains(t1[j - 1]));
                    let k = choose|k: int| 0 <= k < s1.len() && s1[k] == t1[j - 1];
                    assert(s[k + 1] == s1[k]);
                    assert(precedes(s[0], s[k + 1]));
                }
            }
        }
        assert forall|k: Seq<char>| #[trigger] t.to_set().contains(k) == s.to_set().insert(
            key,
        ).contains(k) by {
            lemma_rest_of_ascending(s, k);
            assert(t[0] == first);
            assert(t1.to_set().contains(k) == s1.to_set().insert(key).contains(k));
            if t1.contains(k) {
                let i = choose|i: int| 0 <= i < t1.len() && t1[i] == k;
                assert(t[i + 1] == k);
            }
            if t.contains(k) && k != first {
                let i = choose|i: int| 0 <= i < t.len() && t[i] == k;
                assert(t1[i - 1] == k);
            }
        }
        assert(t.to_set() =~= s.to_set().insert(key));
        t
    }
}

/// The members of a finite set, listed in order, are those of the set, each of
/// them once.
pub proof fn lemma_in_order(keys: Set<Seq<char>>)
    requires
        keys.finite(),
    ensures
        ascending(in_order(keys)),
        in_order(keys).to_set() == keys,
        in_order(keys).no_duplicates(),
    decreases keys.len(),
{
    if keys.len() == 0 {
        assert(Seq::<Seq<char>>::empty().to_set() =~= keys);
    } else {
        let key = keys.choose();
        lemma_in_order(keys.remove(key));
        let s = in_order(keys.remove(key));
        assert(!s.contains(key)) by {
            if s.contains(key) {
                assert(s.to_set().contains(key));
            }
        }
        let t = lemma_placed(s, key);
        assert(t.to_set() =~= keys);
    }
    let s = in_order(keys);
    assert forall|i: int, j: int| 0 <= i < s.len() && 0 <= j < s.len() && i != j implies s[i]
        != s[j] by {
        if i < j {
            assert(precedes(s[i], s[j]));
        } else {
            assert(precedes(s[j], s[i]));
        }
        lemma_precedes_irreflexive(s[i]);
    }
}

// ---------------------------------------------------------------------------
// Laws
// ---------------------------------------------------------------------------

/// Texts are ordered like words in a dictionary: where one begins like the other,
/// the shorter comes first; else the first character in which they differ decides.
pub proof fn order_is_that_of_a_dictionary(
    same: Seq<char>,
    a: char,
    b: char,
    x: Seq<char>,
    y: Seq<char>,
)
    requires
        a < b,
    ensures
        precedes(same + seq![a] + x, same + seq![b] + y),
        !precedes(same + seq![b] + y, same + seq![a] + x),
        precedes(same, same + seq![a] + x),
        !precedes(same + seq![a] + x, same),
    decreases same.len(),
{
    let left = same + seq![a] + x;
    let right = same + seq![b] + y;
    if same.len() == 0 {
        assert(left[0] == a && right[0] == b);
    } else {
        let t = same.drop_first();
        order_is_that_of_a_dictionary(t, a, b, x, y);
        assert(left.drop_first() =~= t + seq![a] + x);
        assert(right.drop_first() =~= t + seq![b] + y);
        assert(left[0] == same[0] && right[0] == same[0]);
    }
}

/// What is listed in order is listed with the smaller before the larger, each
/// once, and nothing is left out.
pub proof fn listings_are_complete_and_in_order(keys: Set<Seq<char>>, i: int, j: int)
    requires
        keys.finite(),
        0 <= i < j < in_order(keys).len(),
    ensures
        precedes(in_order(keys)[i], in_order(keys)[j]),
        in_order(keys)[i] != in_order(keys)[j],
        forall|k: Seq<char>| #[trigger] in_order(keys).contains(k) <==> keys.contains(k),
{
    lemma_in_order(keys);
    assert forall|k: Seq<char>| #[trigger] in_order(keys).contains(k) <==> keys.contains(k) by {
        assert(in_order(keys).to_set().contains(k) == keys.contains(k));
    }
}

} // verus!
