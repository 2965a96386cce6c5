//! Maps and sets with text keys.
use vstd::prelude::*;

use crate::duplicate::Duplicate;
use crate::text::str_eq;

verus! {

/// Some entry has the key.
pub open spec fn has_entry<V>(entries: Seq<(Seq<char>, V)>, key: Seq<char>) -> bool {
    exists|i: int| 0 <= i < entries.len() && (#[trigger] entries[i]).0 == key
}

/// The position of an entry with the key.
pub open spec fn entry_position<V>(entries: Seq<(Seq<char>, V)>, key: Seq<char>) -> int {
    choose|i: int| 0 <= i < entries.len() && (#[trigger] entries[i]).0 == key
}

/// No two entries have the same key.
pub open spec fn keys_differ<V>(entries: Seq<(Seq<char>, V)>) -> bool {
    forall|i: int, j: int|
        0 <= i < j < entries.len() ==> (#[trigger] entries[i]).0 != (#[trigger] entries[j]).0
}

/// The map that a list of entries stands for.
pub open spec fn map_of<V>(entries: Seq<(Seq<char>, V)>) -> Map<Seq<char>, V> {
    Map::new(
        |key: Seq<char>| has_entry(entries, key),
        |key: Seq<char>| entries[entry_position(entries, key)].1,
    )
}

/// A map from text to values. It keeps its entries in order: a new key comes last.
#[derive(Debug, PartialEq)]
pub struct StringMap<V> {
    entries: Vec<(String, V)>,
}

impl<V> View for StringMap<V> {
    type V = Map<Seq<char>, V>;

    open spec fn view(&self) -> Map<Seq<char>, V> {
        map_of(self.entries())
    }
}

impl<V: DeepView> DeepView for StringMap<V> {
    type V = Map<Seq<char>, V::V>;

    open spec fn deep_view(&self) -> Map<Seq<char>, V::V> {
        deep_map(self@)
    }
}

/// The map with the values that its values stand for.
pub open spec fn deep_map<V: DeepView>(map: Map<Seq<char>, V>) -> Map<Seq<char>, V::V> {
    Map::new(|key: Seq<char>| map.contains_key(key), |key: Seq<char>| map[key].deep_view())
}

/// Giving a key a value does the same to what the values stand for.
pub proof fn lemma_deep_insert<V: DeepView>(map: Map<Seq<char>, V>, key: Seq<char>, value: V)
    ensures
        deep_map(map.insert(key, value)) == deep_map(map).insert(key, value.deep_view()),
{
    assert(deep_map(map.insert(key, value)) =~= deep_map(map).insert(key, value.deep_view()));
}

/// Taking a key out does the same to what the values stand for.
pub proof fn lemma_deep_remove<V: DeepView>(map: Map<Seq<char>, V>, key: Seq<char>)
    ensures
        deep_map(map.remove(key)) == deep_map(map).remove(key),
{
    assert(deep_map(map.remove(key)) =~= deep_map(map).remove(key));
}

/// Of a map with distinct keys, as many keys have a value that a condition holds of as there are
/// such entries.
pub proof fn lemma_count<V>(entries: Seq<(Seq<char>, V)>, condition: spec_fn(V) -> bool)
    requires
        keys_differ(entries),
    ensures
        map_of(entries).dom().filter(|key: Seq<char>| condition(map_of(entries)[key])).finite(),
        map_of(entries).dom().filter(|key: Seq<char>| condition(map_of(entries)[key])).len()
            == entries.filter(|entry: (Seq<char>, V)| condition(entry.1)).len(),
    decreases entries.len(),
{
    reveal(Seq::filter);
    let selected = map_of(entries).dom().filter(|key: Seq<char>| condition(map_of(entries)[key]));
    if entries.len() == 0 {
        assert(selected =~= Set::empty());
    } else {
        let before = entries.drop_last();
        let last = entries.last();
        assert(keys_differ(before));
        assert(!has_entry(before, last.0)) by {
            if has_entry(before, last.0) {
                let i = entry_position(before, last.0);
                assert(entries[i].0 == before[i].0);
            }
        }
        lemma_count(before, condition);
        lemma_push(before, last.0, last.1);
        assert(before.push((last.0, last.1)) =~= entries);
        let earlier = map_of(before).dom().filter(
            |key: Seq<char>| condition(map_of(before)[key]),
        );
        assert(!earlier.contains(last.0));
        if condition(last.1) {
            assert(selected =~= earlier.insert(last.0));
        } else {
            assert(selected =~= earlier);
        }
    }
}

proof fn lemma_position<V>(entries: Seq<(Seq<char>, V)>, i: int)
    requires
        keys_differ(entries),
        0 <= i < entries.len(),
    ensures
        has_entry(entries, entries[i].0),
        entry_position(entries, entries[i].0) == i,
        map_of(entries).contains_key(entries[i].0),
        map_of(entries)[entries[i].0] == entries[i].1,
{
    let p = entry_position(entries, entries[i].0);
    assert(0 <= p < entries.len() && entries[p].0 == entries[i].0);
}

proof fn lemma_push<V>(entries: Seq<(Seq<char>, V)>, key: Seq<char>, value: V)
    requires
        keys_differ(entries),
        !has_entry(entries, key),
    ensures
        keys_differ(entries.push((key, value))),
        map_of(entries.push((key, value))) == map_of(entries).insert(key, value),
{
    let after = entries.push((key, value));
    assert(keys_differ(after));
    lemma_position(after, entries.len() as int);
    assert forall|k: Seq<char>| #[trigger]
        map_of(after).contains_key(k) == map_of(entries).insert(key, value).contains_key(k) by {
        if has_entry(entries, k) {
            let i = entry_position(entries, k);
            assert(after[i] == entries[i]);
        }
    }
    assert forall|k: Seq<char>| map_of(after).contains_key(k) implies #[trigger] map_of(after)[k]
        == map_of(entries).insert(key, value)[k] by {
        if k != key {
            let i = entry_position(after, k);
            assert(after[i] == entries[i]);
            lemma_position(entries, i);
            lemma_position(after, i);
        }
    }
    assert(map_of(after) =~= map_of(entries).insert(key, value));
}

proof fn lemma_update<V>(entries: Seq<(Seq<char>, V)>, i: int, value: V)
    requires
        keys_differ(entries),
        0 <= i < entries.len(),
    ensures
        keys_differ(entries.update(i, (entries[i].0, value))),
        map_of(entries.update(i, (entries[i].0, value))) == map_of(entries).insert(
            entries[i].0,
            value,
        ),
{
    let after = entries.update(i, (entries[i].0, value));
    assert(keys_differ(after));
    lemma_position(after, i);
    assert forall|k: Seq<char>| #[trigger]
        map_of(after).contains_key(k) == map_of(entries).insert(
            entries[i].0,
            value,
        ).contains_key(k) by {
        if has_entry(entries, k) {
            let p = entry_position(entries, k);
            assert(after[p].0 == k);
        }
        if has_entry(after, k) {
            let p = entry_position(after, k);
            assert(entries[p].0 == k);
        }
    }
    assert forall|k: Seq<char>| map_of(after).contains_key(k) implies #[trigger] map_of(after)[k]
        == map_of(entries).insert(entries[i].0, value)[k] by {
        let p = entry_position(after, k);
        lemma_position(after, p);
        lemma_position(entries, p);
    }
    assert(map_of(after) =~= map_of(entries).insert(entries[i].0, value));
}

proof fn lemma_remove<V>(entries: Seq<(Seq<char>, V)>, i: int)
    requires
        keys_differ(entries),
        0 <= i < entries.len(),
    ensures
        keys_differ(entries.remove(i)),
        map_of(entries.remove(i)) == map_of(entries).remove(entries[i].0),
{
    let after = entries.remove(i);
    let key = entries[i].0;
    assert forall|a: int, b: int| 0 <= a < b < after.len() implies (#[trigger] after[a]).0 != (
    #[trigger] after[b]).0 by {
        let x = if a < i { a } else { a + 1 };
        let y = if b < i { b } else { b + 1 };
        assert(after[a] == entries[x] && after[b] == entries[y]);
    }
    assert forall|k: Seq<char>| #[trigger]
        map_of(after).contains_key(k) == map_of(entries).remove(key).contains_key(k) by {
        if has_entry(entries, k) && k != key {
            let p = entry_position(entries, k);
            let q = if p < i { p } else { p - 1 };
            assert(after[q] == entries[p]);
        }
        if has_entry(after, k) {
            let q = entry_position(after, k);
            let p = if q < i { q } else { q + 1 };
            assert(after[q] == entries[p]);
        }
    }
    assert forall|k: Seq<char>| map_of(after).contains_key(k) implies #[trigger] map_of(after)[k]
        == map_of(entries).remove(key)[k] by {
        let q = entry_position(after, k);
        let p = if q < i { q } else { q + 1 };
        assert(after[q] == entries[p]);
        lemma_position(after, q);
        lemma_position(entries, p);
    }
    assert(map_of(after) =~= map_of(entries).remove(key));
}

proof fn lemma_size<V>(entries: Seq<(Seq<char>, V)>)
    requires
        keys_differ(entries),
    ensures
        map_of(entries).dom().finite(),
        map_of(entries).dom().len() == entries.len(),
    decreases entries.len(),
{
    if entries.len() == 0 {
        assert(map_of(entries).dom() =~= Set::empty());
    } else {
        let before = entries.drop_last();
        let last = entries.last();
        assert(keys_differ(before));
        assert(!has_entry(before, last.0)) by {
            if has_entry(before, last.0) {
                let i = entry_position(before, last.0);
                assert(entries[i].0 == before[i].0);
            }
        }
        lemma_size(before);
        lemma_push(before, last.0, last.1);
        assert(before.push((last.0, last.1)) =~= entries);
        assert(map_of(entries).dom() =~= map_of(before).dom().insert(last.0));
    }
}

impl<V> StringMap<V> {
    /// The entries, in order.
    pub closed spec fn entries(&self) -> Seq<(Seq<char>, V)> {
        self.entries@.map_values(|entry: (String, V)| (entry.0@, entry.1))
    }

    #[verifier::type_invariant]
    spec fn distinct(self) -> bool {
        keys_differ(self.entries())
    }

    /// A map without entries.
    pub fn new() -> (r: Self)
        ensures
            r.entries() == Seq::<(Seq<char>, V)>::empty(),
            r@ == Map::<Seq<char>, V>::empty(),
    {
        let r = StringMap { entries: Vec::new() };
        proof {
            assert(r.entries() =~= Seq::empty());
            assert(r@ =~= Map::empty());
        }
        r
    }

    /// The number of entries.
    pub fn len(&self) -> (r: usize)
        ensures
            r == self.entries().len(),
            r == self@.dom().len(),
            self@.dom().finite(),
            keys_differ(self.entries()),
            forall|i: int|
                0 <= i < self.entries().len() ==> self@.contains_key(
                    (#[trigger] self.entries()[i]).0,
                ) && self@[self.entries()[i].0] == self.entries()[i].1,
    {
        proof {
            use_type_invariant(self);
            lemma_size(self.entries());
            assert forall|i: int| 0 <= i < self.entries().len() implies self@.contains_key(
                (#[trigger] self.entries()[i]).0,
            ) && self@[self.entries()[i].0] == self.entries()[i].1 by {
                lemma_position(self.entries(), i);
            }
        }
        self.entries.len()
    }

    /// Whether there are no entries.
    pub fn is_empty(&self) -> (r: bool)
        ensures
            r == (self@ == Map::<Seq<char>, V>::empty()),
            r == (self.entries().len() == 0),
    {
        let n = self.len();
        proof {
            if n == 0 {
                assert(self@ =~= Map::empty());
            } else {
                assert(self@.contains_key(self.entries()[0].0));
            }
        }
        n == 0
    }

    fn position(&self, key: &str) -> (r: Option<usize>)
        ensures
            match r {
                Some(i) => {
                    &&& i < self.entries().len()
                    &&& self.entries()[i as int].0 == key@
                    &&& self@.contains_key(key@)
                    &&& self@[key@] == self.entries()[i as int].1
                },
                None => !has_entry(self.entries(), key@) && !self@.contains_key(key@),
            },
    {
        for i in 0..self.entries.len()
            invariant
                forall|j: int| 0 <= j < i ==> (#[trigger] self.entries()[j]).0 != key@,
        {
            if str_eq(self.entries[i].0.as_str(), key) {
                proof {
                    use_type_invariant(self);
                    lemma_position(self.entries(), i as int);
                }
                return Some(i);
            }
        }
        None
    }

    /// The value of a key.
    pub fn get(&self, key: &str) -> (r: Option<&V>)
        ensures
            match r {
                Some(value) => self@.contains_key(key@) && *value == self@[key@],
                None => !self@.contains_key(key@),
            },
    {
        match self.position(key) {
            Some(i) => Some(&self.entries[i].1),
            None => None,
        }
    }

    /// Whether a key has a value.
    pub fn contains_key(&self, key: &str) -> (r: bool)
        ensures
            r == self@.contains_key(key@),
    {
        self.position(key).is_some()
    }

    /// The key of the entry at a position.
    pub fn key_at(&self, i: usize) -> (r: &str)
        requires
            i < self.entries().len(),
        ensures
            r@ == self.entries()[i as int].0,
    {
        self.entries[i].0.as_str()
    }

    /// The value of the entry at a position.
    pub fn value_at(&self, i: usize) -> (r: &V)
        requires
            i < self.entries().len(),
        ensures
            *r == self.entries()[i as int].1,
    {
        &self.entries[i].1
    }

    /// Give a key a value; the value that it had is returned.
    pub fn insert(&mut self, key: String, value: V) -> (r: Option<V>)
        ensures
            final(self)@ == old(self)@.insert(key@, value),
            match r {
                Some(previous) => old(self)@.contains_key(key@) && previous == old(self)@[key@],
                None => {
                    &&& !old(self)@.contains_key(key@)
                    &&& final(self).entries() == old(self).entries().push((key@, value))
                },
            },
    {
        proof {
            use_type_invariant(&*self);
        }
        let ghost before = self.entries();
        let found = self.position(key.as_str());
        let mut entries: Vec<(String, V)> = Vec::new();
        let mut previous: Option<V> = None;
        let ghost key_view = key@;
        std::mem::swap(&mut entries, &mut self.entries);
        match found {
            Some(i) => {
                let old_entry = entries.remove(i);
                entries.insert(i, (key, value));
                previous = Some(old_entry.1);
                proof {
                    assert(entries@.map_values(|entry: (String, V)| (entry.0@, entry.1))
                        =~= before.update(i as int, (before[i as int].0, value)));
                    lemma_update(before, i as int, value);
                }
            },
            None => {
                entries.push((key, value));
                proof {
                    assert(entries@.map_values(|entry: (String, V)| (entry.0@, entry.1))
                        =~= before.push((key_view, value)));
                    lemma_push(before, key_view, value);
                }
            },
        }
        self.entries = entries;
        previous
    }

    /// Take a key out; the value that it had is returned.
    pub fn remove(&mut self, key: &str) -> (r: Option<V>)
        ensures
            final(self)@ == old(self)@.remove(key@),
            match r {
                Some(previous) => old(self)@.contains_key(key@) && previous == old(self)@[key@],
                None => !old(self)@.contains_key(key@) && final(self).entries() == old(
                    self,
                ).entries(),
            },
    {
        proof {
            use_type_invariant(&*self);
        }
        let ghost before = self.entries();
        match self.position(key) {
            Some(i) => {
                let mut entries: Vec<(String, V)> = Vec::new();
                std::mem::swap(&mut entries, &mut self.entries);
                let old_entry = entries.remove(i);
                proof {
                    assert(entries@.map_values(|entry: (String, V)| (entry.0@, entry.1))
                        =~= before.remove(i as int));
                    lemma_remove(before, i as int);
                }
                self.entries = entries;
                Some(old_entry.1)
            },
            None => {
                proof {
                    assert(self@.remove(key@) =~= self@);
                }
                None
            },
        }
    }
}

impl<V: DeepView> StringMap<V> {
    /// The entries, in order, with the values that they stand for.
    pub open spec fn entry_views(&self) -> Seq<(Seq<char>, V::V)> {
        self.entries().map_values(|entry: (Seq<char>, V)| (entry.0, entry.1.deep_view()))
    }
}

impl<V: DeepView> StringMap<V> {
    /// The number of entries.
    pub fn size(&self) -> (r: usize)
        ensures
            r == self.entries().len(),
            r == self.entry_views().len(),
            r == self.deep_view().dom().len(),
            self.deep_view().dom().finite(),
            keys_differ(self.entry_views()),
            map_of(self.entry_views()) == self.deep_view(),
    {
        let r = self.len();
        proof {
            let own = self.entries();
            let views = self.entry_views();
            assert forall|i: int, j: int| 0 <= i < j < views.len() implies (#[trigger] views[i]).0
                != (#[trigger] views[j]).0 by {
                assert(views[i].0 == own[i].0 && views[j].0 == own[j].0);
            }
            assert(self.deep_view().dom() =~= self@.dom());
            assert forall|key: Seq<char>| #[trigger]
                map_of(views).contains_key(key) == self.deep_view().contains_key(key) by {
                if has_entry(views, key) {
                    let i = entry_position(views, key);
                    assert(own[i].0 == key);
                }
                if has_entry(own, key) {
                    let i = entry_position(own, key);
                    assert(views[i].0 == key);
                }
            }
            assert forall|key: Seq<char>| map_of(views).contains_key(key) implies #[trigger] map_of(
                views,
            )[key] == self.deep_view()[key] by {
                let i = entry_position(views, key);
                lemma_position(views, i);
                assert(own[i].0 == key);
                lemma_position(own, i);
            }
            assert(map_of(views) =~= self.deep_view());
        }
        r
    }

    /// The map of a list of entries whose keys differ.
    pub fn from_entries(entries: Vec<(String, V)>) -> (r: Self)
        requires
            keys_differ(entries.deep_view()),
        ensures
            r.entry_views() == entries.deep_view(),
    {
        let ghost views = entries.deep_view();
        let ghost own = entries@.map_values(|entry: (String, V)| (entry.0@, entry.1));
        proof {
            assert forall|i: int, j: int| 0 <= i < j < own.len() implies (#[trigger] own[i]).0 != (
            #[trigger] own[j]).0 by {
                assert(views[i].0 == own[i].0 && views[j].0 == own[j].0);
            }
        }
        let r = StringMap { entries };
        proof {
            assert(r.entry_views() =~= views);
        }
        r
    }
}

impl<V: Duplicate> Duplicate for StringMap<V> {
    fn duplicate(&self) -> (r: Self)
        ensures
            r.entry_views() == self.entry_views(),
    {
        proof {
            use_type_invariant(self);
        }
        let mut copy: Vec<(String, V)> = Vec::new();
        for i in 0..self.entries.len()
            invariant
                copy@.len() == i,
                forall|j: int| 0 <= j < i ==> (#[trigger] copy@[j]).0@ == self.entries@[j].0@,
                forall|j: int|
                    0 <= j < i ==> (#[trigger] copy@[j]).1.deep_view()
                        == self.entries@[j].1.deep_view(),
        {
            copy.push((self.entries[i].0.clone(), self.entries[i].1.duplicate()));
        }
        let ghost own = self.entries();
        let ghost other = copy@.map_values(|entry: (String, V)| (entry.0@, entry.1));
        proof {
            assert(keys_differ(other)) by {
                assert forall|i: int, j: int| 0 <= i < j < other.len() implies (#[trigger] other[i]).0
                    != (#[trigger] other[j]).0 by {
                    assert(other[i].0 == own[i].0 && other[j].0 == own[j].0);
                }
            }
        }
        let r = StringMap { entries: copy };
        proof {
            assert(r.entries() == other);
            assert(r.entry_views() =~= self.entry_views());
            lemma_same_views(own, other);
            assert(r.deep_view() =~= self.deep_view());
        }
        r
    }
}

proof fn lemma_same_views<V: DeepView>(a: Seq<(Seq<char>, V)>, b: Seq<(Seq<char>, V)>)
    requires
        keys_differ(a),
        keys_differ(b),
        a.len() == b.len(),
        forall|i: int|
            0 <= i < a.len() ==> (#[trigger] a[i]).0 == b[i].0 && a[i].1.deep_view()
                == b[i].1.deep_view(),
    ensures
        map_of(a).dom() == map_of(b).dom(),
        forall|key: Seq<char>|
            map_of(a).contains_key(key) ==> (#[trigger] map_of(a)[key]).deep_view()
                == map_of(b)[key].deep_view(),
{
    assert forall|key: Seq<char>| #[trigger]
        map_of(a).contains_key(key) == map_of(b).contains_key(key) by {
        if has_entry(a, key) {
            let i = entry_position(a, key);
            assert(a[i].0 == b[i].0);
        }
        if has_entry(b, key) {
            let i = entry_position(b, key);
            assert(a[i].0 == b[i].0);
        }
    }
    assert(map_of(a).dom() =~= map_of(b).dom());
    assert forall|key: Seq<char>| map_of(a).contains_key(key) implies (
    #[trigger] map_of(a)[key]).deep_view() == map_of(b)[key].deep_view() by {
        let i = entry_position(a, key);
        lemma_position(a, i);
        assert(a[i].0 == b[i].0);
        lemma_position(b, i);
    }
}

/// A set of texts.
#[derive(Debug, PartialEq)]
pub struct StringSet {
    members: StringMap<()>,
}

impl View for StringSet {
    type V = Set<Seq<char>>;

    closed spec fn view(&self) -> Set<Seq<char>> {
        self.members@.dom()
    }
}

impl StringSet {
    /// The empty set.
    pub fn new() -> (r: Self)
        ensures
            r@ == Set::<Seq<char>>::empty(),
    {
        let r = StringSet { members: StringMap::new() };
        proof {
            assert(r@ =~= Set::empty());
        }
        r
    }

    /// Whether a text is a member.
    pub fn contains(&self, key: &str) -> (r: bool)
        ensures
            r == self@.contains(key@),
    {
        self.members.contains_key(key)
    }

    /// Make a text a member.
    pub fn insert(&mut self, key: String)
        ensures
            final(self)@ == old(self)@.insert(key@),
    {
        let _ = self.members.insert(key, ());
        proof {
            assert(self@ =~= old(self)@.insert(key@));
        }
    }

    /// Take a text out.
    pub fn remove(&mut self, key: &str)
        ensures
            final(self)@ == old(self)@.remove(key@),
    {
        let _ = self.members.remove(key);
        proof {
            assert(self@ =~= old(self)@.remove(key@));
        }
    }
}

} // verus!
