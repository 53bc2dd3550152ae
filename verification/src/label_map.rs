//! A small map from window labels to values, kept as a list in which no
//! label occurs twice. Its view is the mathematical map from the characters
//! of a label to the value stored under it.

use vstd::prelude::*;

verus! {

/// A label with the value stored under it.
pub struct Entry<V> {
    pub key: String,
    pub value: V,
}

/// A map keyed by window label.
pub struct LabelMap<V> {
    entries: Vec<Entry<V>>,
}

/// No label occurs twice in `entries`.
pub open spec fn distinct_keys<V>(entries: Seq<Entry<V>>) -> bool {
    forall|i: int, j: int|
        0 <= i < entries.len() && 0 <= j < entries.len() && (#[trigger] entries[i]).key@ == (
        #[trigger] entries[j]).key@ ==> i == j
}

/// Some entry of `entries` has the label `k`.
pub open spec fn has_key<V>(entries: Seq<Entry<V>>, k: Seq<char>) -> bool {
    exists|i: int| 0 <= i < entries.len() && (#[trigger] entries[i]).key@ == k
}

/// The map that a list of entries stands for.
pub open spec fn map_of<V>(entries: Seq<Entry<V>>) -> Map<Seq<char>, V> {
    Map::new(
        |k: Seq<char>| has_key(entries, k),
        |k: Seq<char>|
            entries[choose|i: int| 0 <= i < entries.len() && (#[trigger] entries[i]).key@ == k].value,
    )
}

/// In a list without repeated labels, the entry at index `i` is what the
/// map holds under that entry's label.
pub proof fn lemma_map_of_entry<V>(entries: Seq<Entry<V>>, i: int)
    requires
        distinct_keys(entries),
        0 <= i < entries.len(),
    ensures
        map_of(entries).contains_key(entries[i].key@),
        map_of(entries)[entries[i].key@] == entries[i].value,
{
    let k = entries[i].key@;
    assert(has_key(entries, k));
    let j = choose|j: int| 0 <= j < entries.len() && (#[trigger] entries[j]).key@ == k;
    assert(j == i);
}

/// Appending an entry whose label is new inserts it into the map.
pub proof fn lemma_map_of_push<V>(entries: Seq<Entry<V>>, e: Entry<V>)
    requires
        distinct_keys(entries),
        !has_key(entries, e.key@),
    ensures
        distinct_keys(entries.push(e)),
        map_of(entries.push(e)) == map_of(entries).insert(e.key@, e.value),
{
    let after = entries.push(e);
    assert forall|i: int, j: int|
        0 <= i < after.len() && 0 <= j < after.len() && (#[trigger] after[i]).key@ == (
        #[trigger] after[j]).key@ implies i == j by {
        if i < entries.len() && j < entries.len() {
            assert(entries[i].key@ == entries[j].key@);
        } else if i < entries.len() {
            assert(entries[i].key@ == e.key@);
        } else if j < entries.len() {
            assert(entries[j].key@ == e.key@);
        }
    }
    assert forall|k: Seq<char>| #[trigger]
        map_of(after).contains_key(k) <==> map_of(entries).insert(e.key@, e.value).contains_key(
            k,
        ) by {
        if has_key(after, k) {
            let i = choose|i: int| 0 <= i < after.len() && (#[trigger] after[i]).key@ == k;
            if i < entries.len() {
                assert(entries[i].key@ == k);
            }
        }
        if has_key(entries, k) {
            let i = choose|i: int| 0 <= i < entries.len() && (#[trigger] entries[i]).key@ == k;
            assert(after[i].key@ == k);
        }
        if k == e.key@ {
            assert(after[entries.len() as int].key@ == k);
        }
    }
    assert forall|k: Seq<char>| #[trigger] map_of(after).contains_key(k) implies map_of(after)[k]
        == map_of(entries).insert(e.key@, e.value)[k] by {
        let i = choose|i: int| 0 <= i < after.len() && (#[trigger] after[i]).key@ == k;
        lemma_map_of_entry(after, i);
        if i < entries.len() {
            assert(entries[i].key@ == k);
            lemma_map_of_entry(entries, i);
        }
    }
    assert(map_of(after) =~= map_of(entries).insert(e.key@, e.value));
}

/// Taking the entry at index `i` out of the list removes its label from the
/// map.
pub proof fn lemma_map_of_remove<V>(entries: Seq<Entry<V>>, i: int)
    requires
        distinct_keys(entries),
        0 <= i < entries.len(),
    ensures
        distinct_keys(entries.remove(i)),
        !has_key(entries.remove(i), entries[i].key@),
        map_of(entries.remove(i)) == map_of(entries).remove(entries[i].key@),
{
    let after = entries.remove(i);
    let gone = entries[i].key@;
    assert forall|a: int| 0 <= a < after.len() implies #[trigger] after[a] == entries[if a < i {
        a
    } else {
        a + 1
    }] by {}
    assert forall|a: int, b: int|
        0 <= a < after.len() && 0 <= b < after.len() && (#[trigger] after[a]).key@ == (
        #[trigger] after[b]).key@ implies a == b by {
        let a0 = if a < i { a } else { a + 1 };
        let b0 = if b < i { b } else { b + 1 };
        assert(entries[a0].key@ == entries[b0].key@);
    }
    assert(!has_key(after, gone)) by {
        if has_key(after, gone) {
            let a = choose|a: int| 0 <= a < after.len() && (#[trigger] after[a]).key@ == gone;
            let a0 = if a < i { a } else { a + 1 };
            assert(entries[a0].key@ == entries[i].key@);
        }
    }
    assert forall|k: Seq<char>| #[trigger]
        map_of(after).contains_key(k) <==> map_of(entries).remove(gone).contains_key(k) by {
        if has_key(after, k) {
            let a = choose|a: int| 0 <= a < after.len() && (#[trigger] after[a]).key@ == k;
            let a0 = if a < i { a } else { a + 1 };
            assert(entries[a0].key@ == k);
        }
        if has_key(entries, k) && k != gone {
            let b = choose|b: int| 0 <= b < entries.len() && (#[trigger] entries[b]).key@ == k;
            let b1 = if b < i { b } else { b - 1 };
            assert(after[b1].key@ == k);
        }
    }
    assert forall|k: Seq<char>| #[trigger] map_of(after).contains_key(k) implies map_of(after)[k]
        == map_of(entries).remove(gone)[k] by {
        let a = choose|a: int| 0 <= a < after.len() && (#[trigger] after[a]).key@ == k;
        let a0 = if a < i { a } else { a + 1 };
        lemma_map_of_entry(after, a);
        assert(entries[a0].key@ == k);
        lemma_map_of_entry(entries, a0);
    }
    assert(map_of(after) =~= map_of(entries).remove(gone));
}

/// A list without repeated labels stands for a finite map with one key for
/// each entry.
pub proof fn lemma_map_of_len<V>(entries: Seq<Entry<V>>)
    requires
        distinct_keys(entries),
    ensures
        map_of(entries).dom().finite(),
        map_of(entries).dom().len() == entries.len(),
    decreases entries.len(),
{
    if entries.len() == 0 {
        assert(map_of(entries).dom() =~= Set::<Seq<char>>::empty());
    } else {
        let front = entries.drop_last();
        let e = entries.last();
        assert forall|i: int, j: int|
            0 <= i < front.len() && 0 <= j < front.len() && (#[trigger] front[i]).key@ == (
            #[trigger] front[j]).key@ implies i == j by {
            assert(entries[i].key@ == entries[j].key@);
        }
        assert(!has_key(front, e.key@)) by {
            if has_key(front, e.key@) {
                let i = choose|i: int| 0 <= i < front.len() && (#[trigger] front[i]).key@ == e.key@;
                assert(entries[i].key@ == entries[entries.len() - 1].key@);
            }
        }
        lemma_map_of_len(front);
        lemma_map_of_push(front, e);
        assert(front.push(e) =~= entries);
        assert(map_of(entries).dom() =~= map_of(front).dom().insert(e.key@));
        assert(!map_of(front).dom().contains(e.key@));
    }
}

impl<V> LabelMap<V> {
    /// No label occurs twice.
    pub closed spec fn wf(&self) -> bool {
        distinct_keys(self.entries@)
    }

    /// The map from the characters of a label to the value stored under it.
    pub closed spec fn view(&self) -> Map<Seq<char>, V> {
        map_of(self.entries@)
    }

    /// A well-formed map has finitely many keys.
    pub proof fn lemma_finite(&self)
        requires
            self.wf(),
        ensures
            self@.dom().finite(),
    {
        lemma_map_of_len(self.entries@);
    }

    pub fn new() -> (m: Self)
        ensures
            m.wf(),
            m@ == Map::<Seq<char>, V>::empty(),
    {
        let m = LabelMap { entries: Vec::new() };
        assert(m@ =~= Map::<Seq<char>, V>::empty());
        m
    }

    /// The index of the entry with the label `key`.
    fn position(&self, key: &str) -> (r: Option<usize>)
        ensures
            match r {
                Some(i) => i < self.entries@.len() && self.entries@[i as int].key@ == key@,
                None => !has_key(self.entries@, key@),
            },
    {
        let wanted = key.to_owned();
        let mut i: usize = 0;
        while i < self.entries.len()
            invariant
                wanted@ == key@,
                i <= self.entries@.len(),
                forall|j: int| 0 <= j < i ==> (#[trigger] self.entries@[j]).key@ != key@,
            decreases self.entries@.len() - i,
        {
            if self.entries[i].key == wanted {
                return Some(i);
            }
            i = i + 1;
        }
        None
    }

    /// The number of labels in the map.
    pub fn len(&self) -> (n: usize)
        requires
            self.wf(),
        ensures
            n == self@.dom().len(),
    {
        proof {
            lemma_map_of_len(self.entries@);
        }
        self.entries.len()
    }

    /// Whether a value is stored under `key`.
    pub fn contains_key(&self, key: &str) -> (r: bool)
        requires
            self.wf(),
        ensures
            r == self@.contains_key(key@),
    {
        match self.position(key) {
            Some(i) => true,
            None => false,
        }
    }

    /// The value stored under `key`.
    pub fn get(&self, key: &str) -> (r: Option<&V>)
        requires
            self.wf(),
        ensures
            match r {
                Some(v) => self@.contains_key(key@) && *v == self@[key@],
                None => !self@.contains_key(key@),
            },
    {
        match self.position(key) {
            Some(i) => {
                proof {
                    lemma_map_of_entry(self.entries@, i as int);
                }
                Some(&self.entries[i].value)
            },
            None => None,
        }
    }

    /// Stores `value` under `key` and returns what was stored there before.
    pub fn insert(&mut self, key: String, value: V) -> (r: Option<V>)
        requires
            old(self).wf(),
        ensures
            final(self).wf(),
            final(self)@ == old(self)@.insert(key@, value),
            r == if old(self)@.contains_key(key@) {
                Some(old(self)@[key@])
            } else {
                None::<V>
            },
    {
        let found = self.position(key.as_str());
        let ghost before = self.entries@;
        let previous = match found {
            Some(i) => {
                proof {
                    lemma_map_of_entry(before, i as int);
                    lemma_map_of_remove(before, i as int);
                }
                let e = self.entries.remove(i);
                Some(e.value)
            },
            None => None,
        };
        let ghost middle = self.entries@;
        let entry = Entry { key, value };
        proof {
            lemma_map_of_push(middle, entry);
            assert(map_of(middle).insert(key@, value) =~= map_of(before).insert(key@, value));
        }
        self.entries.push(entry);
        previous
    }

    /// Takes `key` out of the map and returns what was stored under it.
    pub fn remove(&mut self, key: &str) -> (r: Option<V>)
        requires
            old(self).wf(),
        ensures
            final(self).wf(),
            final(self)@ == old(self)@.remove(key@),
            r == if old(self)@.contains_key(key@) {
                Some(old(self)@[key@])
            } else {
                None::<V>
            },
    {
        match self.position(key) {
            Some(i) => {
                proof {
                    lemma_map_of_entry(self.entries@, i as int);
                    lemma_map_of_remove(self.entries@, i as int);
                }
                let e = self.entries.remove(i);
                Some(e.value)
            },
            None => {
                assert(self@.remove(key@) =~= self@);
                None
            },
        }
    }

    /// Empties the map.
    pub fn clear(&mut self)
        ensures
            final(self).wf(),
            final(self)@ == Map::<Seq<char>, V>::empty(),
    {
        self.entries.clear();
        assert(self@ =~= Map::<Seq<char>, V>::empty());
    }

    /// Empties the map and returns its entries, each label once, in no
    /// particular order.
    pub fn drain(&mut self) -> (out: Vec<Entry<V>>)
        requires
            old(self).wf(),
        ensures
            final(self).wf(),
            final(self)@ == Map::<Seq<char>, V>::empty(),
            distinct_keys(out@),
            map_of(out@) == old(self)@,
            out@.len() == old(self)@.dom().len(),
    {
        let mut out: Vec<Entry<V>> = Vec::new();
        proof {
            lemma_map_of_len(self.entries@);
        }
        core::mem::swap(&mut self.entries, &mut out);
        assert(self@ =~= Map::<Seq<char>, V>::empty());
        out
    }
}

} // verus!
