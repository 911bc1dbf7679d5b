//! A small map from text keys to values, kept in insertion order.

use vstd::prelude::*;
use vstd::string::*;

verus! {

/// A value that can be copied so that the copy has the same view.
pub trait Duplicate: View + Sized {
    fn duplicate(&self) -> (copy: Self)
        ensures
            copy@ == self@,
    ;
}

impl Duplicate for String {
    fn duplicate(&self) -> (copy: String) {
        self.clone()
    }
}

#[derive(Debug)]
struct Entry<V> {
    key: String,
    value: V,
}

/// A map from text keys to values. No key occurs twice; a key that is set
/// again keeps its place.
#[derive(Debug)]
pub struct Dict<V: View> {
    entries: Vec<Entry<V>>,
}

spec fn entries_map<V: View>(s: Seq<Entry<V>>) -> Map<Seq<char>, V::V>
    decreases s.len(),
{
    if s.len() == 0 {
        Map::empty()
    } else {
        entries_map(s.drop_last()).insert(s.last().key@, s.last().value@)
    }
}

spec fn entries_keys<V: View>(s: Seq<Entry<V>>) -> Seq<Seq<char>> {
    Seq::new(s.len(), |i: int| s[i].key@)
}

spec fn distinct_keys<V: View>(s: Seq<Entry<V>>) -> bool {
    forall|i: int, j: int| 0 <= i < j < s.len() ==> s[i].key@ != s[j].key@
}

proof fn lemma_absent<V: View>(s: Seq<Entry<V>>, key: Seq<char>)
    requires
        forall|i: int| 0 <= i < s.len() ==> s[i].key@ != key,
    ensures
        !entries_map(s).contains_key(key),
    decreases s.len(),
{
    if s.len() > 0 {
        lemma_absent(s.drop_last(), key);
    }
}

proof fn lemma_present<V: View>(s: Seq<Entry<V>>, i: int)
    requires
        distinct_keys(s),
        0 <= i < s.len(),
    ensures
        entries_map(s).contains_key(s[i].key@),
        entries_map(s)[s[i].key@] == s[i].value@,
    decreases s.len(),
{
    if i < s.len() - 1 {
        lemma_present(s.drop_last(), i);
    }
}

proof fn lemma_replaced<V: View>(s: Seq<Entry<V>>, i: int, entry: Entry<V>)
    requires
        distinct_keys(s),
        0 <= i < s.len(),
        entry.key@ == s[i].key@,
    ensures
        distinct_keys(s.update(i, entry)),
        entries_keys(s.update(i, entry)) == entries_keys(s),
        entries_map(s.update(i, entry)) == entries_map(s).insert(entry.key@, entry.value@),
    decreases s.len(),
{
    let t = s.update(i, entry);
    assert(entries_keys(t) =~= entries_keys(s));
    if i < s.len() - 1 {
        lemma_replaced(s.drop_last(), i, entry);
        assert(t.drop_last() =~= s.drop_last().update(i, entry));
        assert(entries_map(t) =~= entries_map(s).insert(entry.key@, entry.value@));
    } else {
        assert(t.drop_last() =~= s.drop_last());
        assert(entries_map(t) =~= entries_map(s).insert(entry.key@, entry.value@));
    }
}

proof fn lemma_appended<V: View>(s: Seq<Entry<V>>, entry: Entry<V>)
    requires
        distinct_keys(s),
        forall|i: int| 0 <= i < s.len() ==> s[i].key@ != entry.key@,
    ensures
        distinct_keys(s.push(entry)),
        entries_keys(s.push(entry)) == entries_keys(s).push(entry.key@),
        entries_map(s.push(entry)) == entries_map(s).insert(entry.key@, entry.value@),
{
    assert(s.push(entry).drop_last() =~= s);
    assert(entries_keys(s.push(entry)) =~= entries_keys(s).push(entry.key@));
}

proof fn lemma_domain<V: View>(s: Seq<Entry<V>>)
    requires
        distinct_keys(s),
    ensures
        entries_map(s).dom().finite(),
        entries_map(s).dom().len() == s.len(),
        entries_map(s).dom() == entries_keys(s).to_set(),
        entries_keys(s).no_duplicates(),
    decreases s.len(),
{
    if s.len() > 0 {
        let rest = s.drop_last();
        lemma_domain(rest);
        assert(forall|i: int| 0 <= i < rest.len() ==> rest[i].key@ != s.last().key@) by {
            assert(forall|i: int| 0 <= i < rest.len() ==> rest[i] == s[i]);
        }
        lemma_absent(rest, s.last().key@);
        assert(entries_keys(s) =~= entries_keys(rest).push(s.last().key@));
        assert(entries_keys(s).to_set() =~= entries_keys(rest).to_set().insert(s.last().key@)) by {
            assert forall|k: Seq<char>| entries_keys(s).to_set().contains(k) implies entries_keys(
                rest,
            ).to_set().insert(s.last().key@).contains(k) by {
                let i = choose|i: int| 0 <= i < s.len() && entries_keys(s)[i] == k;
                if i < rest.len() {
                    assert(entries_keys(rest)[i] == k);
                }
            }
            assert forall|k: Seq<char>|
                entries_keys(rest).to_set().insert(s.last().key@).contains(k) implies entries_keys(
                s,
            ).to_set().contains(k) by {
                if k == s.last().key@ {
                    assert(entries_keys(s)[s.len() - 1] == k);
                } else {
                    let i = choose|i: int| 0 <= i < rest.len() && entries_keys(rest)[i] == k;
                    assert(entries_keys(s)[i] == k);
                }
            }
        }
        assert(entries_map(s).dom() =~= entries_map(rest).dom().insert(s.last().key@));
    } else {
        assert(entries_map(s).dom() =~= Set::empty());
        assert(entries_keys(s).to_set() =~= Set::empty());
    }
}

impl<V: View> View for Dict<V> {
    type V = Map<Seq<char>, V::V>;

    closed spec fn view(&self) -> Map<Seq<char>, V::V> {
        entries_map(self.entries@)
    }
}

impl<V: View> Dict<V> {
    #[verifier::type_invariant]
    spec fn well_formed(self) -> bool {
        distinct_keys(self.entries@)
    }

    /// The keys in the order in which they were first set.
    pub closed spec fn key_order(&self) -> Seq<Seq<char>> {
        entries_keys(self.entries@)
    }

    pub fn new() -> (dict: Self)
        ensures
            dict@ == Map::<Seq<char>, V::V>::empty(),
            dict.key_order() == Seq::<Seq<char>>::empty(),
    {
        let dict = Dict { entries: Vec::new() };
        assert(dict.key_order() =~= Seq::<Seq<char>>::empty());
        dict
    }

    /// The number of keys. Each key stands once in `key_order`.
    pub fn len(&self) -> (n: usize)
        ensures
            n == self.key_order().len(),
            n == self@.dom().len(),
            self@.dom().finite(),
            self.key_order().no_duplicates(),
            self.key_order().to_set() == self@.dom(),
    {
        proof {
            use_type_invariant(self);
            lemma_domain(self.entries@);
        }
        self.entries.len()
    }

    /// The key at a position of `key_order`.
    pub fn key_at(&self, position: usize) -> (key: &str)
        requires
            position < self.key_order().len(),
        ensures
            key@ == self.key_order()[position as int],
    {
        self.entries[position].key.as_str()
    }

    /// The value under the key at a position of `key_order`.
    pub fn value_at(&self, position: usize) -> (value: &V)
        requires
            position < self.key_order().len(),
        ensures
            self@.contains_key(self.key_order()[position as int]),
            value@ == self@[self.key_order()[position as int]],
    {
        proof {
            use_type_invariant(self);
            lemma_present(self.entries@, position as int);
        }
        &self.entries[position].value
    }

    fn position_of(entries: &Vec<Entry<V>>, key: &String) -> (found: Option<usize>)
        ensures
            match found {
                Some(i) => i < entries.len() && entries[i as int].key@ == key@,
                None => forall|i: int| 0 <= i < entries.len() ==> entries[i].key@ != key@,
            },
    {
        let mut i: usize = 0;
        while i < entries.len()
            invariant
                i <= entries.len(),
                forall|j: int| 0 <= j < i ==> entries[j].key@ != key@,
            decreases entries.len() - i,
        {
            if entries[i].key == *key {
                return Some(i);
            }
            i += 1;
        }
        None
    }

    /// The value under `key`, if the key is set.
    pub fn get(&self, key: &str) -> (value: Option<&V>)
        ensures
            match value {
                Some(v) => self@.contains_key(key@) && self@[key@] == v@,
                None => !self@.contains_key(key@),
            },
    {
        proof {
            use_type_invariant(self);
        }
        let wanted = String::from_str(key);
        match Self::position_of(&self.entries, &wanted) {
            Some(i) => {
                proof {
                    lemma_present(self.entries@, i as int);
                }
                Some(&self.entries[i].value)
            },
            None => {
                proof {
                    lemma_absent(self.entries@, key@);
                }
                None
            },
        }
    }

    /// Sets `key` to `value`. A key that was set before keeps its place in
    /// `key_order`; a new one goes to the end.
    pub fn insert(&mut self, key: &str, value: V)
        ensures
            final(self)@ == old(self)@.insert(key@, value@),
            final(self).key_order() == if old(self)@.contains_key(key@) {
                old(self).key_order()
            } else {
                old(self).key_order().push(key@)
            },
    {
        proof {
            use_type_invariant(&*self);
        }
        let mut entries: Vec<Entry<V>> = Vec::new();
        std::mem::swap(&mut entries, &mut self.entries);
        let entry = Entry { key: String::from_str(key), value };
        match Self::position_of(&entries, &entry.key) {
            Some(i) => {
                proof {
                    lemma_present(entries@, i as int);
                    lemma_replaced(entries@, i as int, entry);
                }
                entries.set(i, entry);
            },
            None => {
                proof {
                    lemma_absent(entries@, key@);
                    lemma_appended(entries@, entry);
                }
                entries.push(entry);
            },
        }
        self.entries = entries;
    }
}

impl<V: Duplicate> Dict<V> {
    /// A copy with the same keys, in the same order, under the same values.
    pub fn duplicate(&self) -> (copy: Self)
        ensures
            copy@ == self@,
            copy.key_order() == self.key_order(),
    {
        proof {
            use_type_invariant(self);
        }
        let mut entries: Vec<Entry<V>> = Vec::new();
        let mut i: usize = 0;
        while i < self.entries.len()
            invariant
                i <= self.entries.len(),
                entries.len() == i,
                forall|j: int|
                    0 <= j < i ==> entries[j].key@ == self.entries[j].key@ && entries[j].value@
                        == self.entries[j].value@,
            decreases self.entries.len() - i,
        {
            let entry = Entry {
                key: self.entries[i].key.clone(),
                value: self.entries[i].value.duplicate(),
            };
            entries.push(entry);
            i += 1;
        }
        proof {
            lemma_same_entries(entries@, self.entries@);
        }
        Dict { entries }
    }
}

proof fn lemma_same_entries<V: View>(a: Seq<Entry<V>>, b: Seq<Entry<V>>)
    requires
        a.len() == b.len(),
        forall|j: int| 0 <= j < a.len() ==> a[j].key@ == b[j].key@ && a[j].value@ == b[j].value@,
    ensures
        entries_map(a) == entries_map(b),
        entries_keys(a) == entries_keys(b),
        distinct_keys(b) ==> distinct_keys(a),
    decreases a.len(),
{
    assert(entries_keys(a) =~= entries_keys(b));
    if a.len() > 0 {
        lemma_same_entries(a.drop_last(), b.drop_last());
    }
}

} // verus!
