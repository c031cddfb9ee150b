//! A map from text keys to values, kept in insertion order.
use vstd::prelude::*;

verus! {

/// A value under its key.
#[derive(Debug)]
pub struct Keyed<V> {
    pub key: String,
    pub value: V,
}

/// The keys of `entries`, in order.
pub open spec fn keys_of<V>(entries: Seq<Keyed<V>>) -> Seq<Seq<char>> {
    entries.map_values(|e: Keyed<V>| e.key@)
}

/// No key occurs twice.
pub open spec fn distinct<K>(keys: Seq<K>) -> bool {
    forall|i: int, j: int| 0 <= i < keys.len() && 0 <= j < keys.len() && i != j ==> keys[i] != keys[j]
}

/// Where key `k` stands among `keys`.
pub open spec fn position<K>(keys: Seq<K>, k: K) -> int {
    choose|i: int| 0 <= i < keys.len() && keys[i] == k
}

/// The map that `entries` holds.
pub open spec fn entries_map<V: View>(entries: Seq<Keyed<V>>) -> Map<Seq<char>, V::V> {
    Map::new(
        |k: Seq<char>| keys_of(entries).contains(k),
        |k: Seq<char>| entries[position(keys_of(entries), k)].value@,
    )
}

proof fn lemma_at<V: View>(entries: Seq<Keyed<V>>, i: int)
    requires
        distinct(keys_of(entries)),
        0 <= i < entries.len(),
    ensures
        entries_map(entries).contains_key(entries[i].key@),
        entries_map(entries)[entries[i].key@] == entries[i].value@,
{
    let keys = keys_of(entries);
    assert(keys[i] == entries[i].key@);
    let j = position(keys, entries[i].key@);
    assert(0 <= j < keys.len() && keys[j] == entries[i].key@);
}

proof fn lemma_set<V: View>(entries: Seq<Keyed<V>>, i: int, e: Keyed<V>)
    requires
        distinct(keys_of(entries)),
        0 <= i < entries.len(),
        e.key@ == entries[i].key@,
    ensures
        keys_of(entries.update(i, e)) == keys_of(entries),
        entries_map(entries.update(i, e)) == entries_map(entries).insert(e.key@, e.value@),
{
    let ne = entries.update(i, e);
    assert(keys_of(ne) =~= keys_of(entries));
    let m1 = entries_map(ne);
    let m2 = entries_map(entries).insert(e.key@, e.value@);
    assert(keys_of(entries)[i] == e.key@);
    assert(m1.dom() =~= m2.dom());
    assert forall|k: Seq<char>| #[trigger] m1.contains_key(k) implies m1[k] == m2[k] by {
        let j = position(keys_of(ne), k);
        if k == e.key@ {
            lemma_at(ne, i);
        } else {
            assert(keys_of(ne)[j] == k);
            assert(ne[j] == entries[j]);
        }
    }
    assert(m1 =~= m2);
}

proof fn lemma_push<V: View>(entries: Seq<Keyed<V>>, e: Keyed<V>)
    requires
        distinct(keys_of(entries)),
        !keys_of(entries).contains(e.key@),
    ensures
        keys_of(entries.push(e)) == keys_of(entries).push(e.key@),
        distinct(keys_of(entries.push(e))),
        entries_map(entries.push(e)) == entries_map(entries).insert(e.key@, e.value@),
{
    let ne = entries.push(e);
    assert(keys_of(ne) =~= keys_of(entries).push(e.key@));
    let m1 = entries_map(ne);
    let m2 = entries_map(entries).insert(e.key@, e.value@);
    assert forall|a: int, b: int|
        0 <= a < keys_of(ne).len() && 0 <= b < keys_of(ne).len() && a != b implies keys_of(
        ne,
    )[a] != keys_of(ne)[b] by {
        if a == entries.len() {
            assert(keys_of(entries)[b] == keys_of(ne)[b]);
        } else if b == entries.len() {
            assert(keys_of(entries)[a] == keys_of(ne)[a]);
        }
    }
    assert forall|k: Seq<char>| #[trigger] m1.contains_key(k) implies m2.contains_key(k) && m1[k]
        == m2[k] by {
        let j = position(keys_of(ne), k);
        if k == e.key@ {
            lemma_at(ne, entries.len() as int);
        } else {
            assert(keys_of(ne)[j] == k);
            assert(keys_of(entries)[j] == k);
            lemma_at(entries, j);
        }
    }
    assert forall|k: Seq<char>| m2.contains_key(k) implies #[trigger] m1.contains_key(k) by {
        if k != e.key@ {
            let j = choose|j: int| 0 <= j < keys_of(entries).len() && keys_of(entries)[j] == k;
            assert(keys_of(ne)[j] == k);
        } else {
            assert(keys_of(ne)[entries.len() as int] == k);
        }
    }
    assert(m1 =~= m2);
}

/// A map from text keys to values.
pub struct Store<V: View> {
    entries: Vec<Keyed<V>>,
}

impl<V: View> View for Store<V> {
    type V = Map<Seq<char>, V::V>;

    closed spec fn view(&self) -> Map<Seq<char>, V::V> {
        entries_map(self.entries@)
    }
}

impl<V: View> Store<V> {
    #[verifier::type_invariant]
    spec fn keys_distinct(&self) -> bool {
        distinct(keys_of(self.entries@))
    }

    /// An empty store.
    pub fn new() -> (s: Self)
        ensures
            s@ == Map::<Seq<char>, V::V>::empty(),
    {
        let s = Store { entries: Vec::new() };
        assert(s@ =~= Map::<Seq<char>, V::V>::empty());
        s
    }

    fn find(&self, key: &str) -> (r: Option<usize>)
        ensures
            match r {
                Some(i) => i < self.entries@.len() && self.entries@[i as int].key@ == key@
                    && self@.contains_key(key@) && self@[key@] == self.entries@[i as int].value@,
                None => !self@.contains_key(key@),
            },
    {
        proof {
            use_type_invariant(self);
        }
        let k = String::from_str(key);
        let mut i: usize = 0;
        while i < self.entries.len()
            invariant
                i <= self.entries.len(),
                k@ == key@,
                distinct(keys_of(self.entries@)),
                forall|j: int| 0 <= j < i ==> self.entries@[j].key@ != key@,
            decreases self.entries.len() - i,
        {
            if self.entries[i].key == k {
                proof {
                    lemma_at(self.entries@, i as int);
                }
                return Some(i);
            }
            i = i + 1;
        }
        proof {
            if keys_of(self.entries@).contains(key@) {
                let j = choose|j: int|
                    0 <= j < keys_of(self.entries@).len() && keys_of(self.entries@)[j] == key@;
                assert(self.entries@[j].key@ == key@);
            }
        }
        None
    }

    /// The value under `key`.
    pub fn get(&self, key: &str) -> (r: Option<&V>)
        ensures
            match r {
                Some(v) => self@.contains_key(key@) && self@[key@] == v@,
                None => !self@.contains_key(key@),
            },
    {
        match self.find(key) {
            Some(i) => Some(&self.entries[i].value),
            None => None,
        }
    }

    /// Puts `value` under `key`, replacing what was there.
    pub fn insert(&mut self, key: String, value: V)
        ensures
            final(self)@ == old(self)@.insert(key@, value@),
    {
        proof {
            use_type_invariant(&*self);
        }
        match self.find(key.as_str()) {
            Some(i) => {
                let ghost old_entries = self.entries@;
                let e = Keyed { key, value };
                proof {
                    lemma_set(old_entries, i as int, e);
                }
                let mut entries: Vec<Keyed<V>> = Vec::new();
                std::mem::swap(&mut entries, &mut self.entries);
                entries.set(i, e);
                self.entries = entries;
            },
            None => {
                let ghost old_entries = self.entries@;
                let e = Keyed { key, value };
                proof {
                    if keys_of(old_entries).contains(e.key@) {
                        let j = choose|j: int|
                            0 <= j < keys_of(old_entries).len() && keys_of(old_entries)[j]
                                == e.key@;
                        lemma_at(old_entries, j);
                    }
                    lemma_push(old_entries, e);
                }
                let mut entries: Vec<Keyed<V>> = Vec::new();
                std::mem::swap(&mut entries, &mut self.entries);
                entries.push(e);
                self.entries = entries;
            },
        }
    }
}

} // verus!
