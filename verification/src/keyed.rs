use vstd::prelude::*;
use crate::text::str_eq;

verus! {

/// Whether some entry of `entries` is stored under `key`.
pub open spec fn has_key<V>(entries: Seq<(String, V)>, key: Seq<char>) -> bool {
    exists|i: int| 0 <= i < entries.len() && (#[trigger] entries[i]).0@ == key
}

/// The position of an entry stored under `key`; meaningful when `has_key` holds,
/// and the only such position when the keys are unique.
pub open spec fn slot<V>(entries: Seq<(String, V)>, key: Seq<char>) -> int {
    choose|i: int| 0 <= i < entries.len() && (#[trigger] entries[i]).0@ == key
}

/// No two entries share a key.
pub open spec fn unique_keys<V>(entries: Seq<(String, V)>) -> bool {
    forall|i: int, j: int|
        0 <= i < j < entries.len() ==> (#[trigger] entries[i]).0@ != (#[trigger] entries[j]).0@
}

/// With unique keys, the slot of an entry's key is the entry's own position.
pub proof fn lemma_slot_of_entry<V>(entries: Seq<(String, V)>, i: int)
    requires
        unique_keys(entries),
        0 <= i < entries.len(),
    ensures
        has_key(entries, entries[i].0@),
        slot(entries, entries[i].0@) == i,
{
    let key = entries[i].0@;
    let j = slot(entries, key);
    assert(0 <= j < entries.len() && entries[j].0@ == key);
    if j < i {
        assert(entries[j].0@ != entries[i].0@);
    } else if i < j {
        assert(entries[i].0@ != entries[j].0@);
    }
}

/// Appending an entry under a fresh key keeps the keys unique.
pub proof fn lemma_push_unique<V>(entries: Seq<(String, V)>, entry: (String, V))
    requires
        unique_keys(entries),
        !has_key(entries, entry.0@),
    ensures
        unique_keys(entries.push(entry)),
{
    let grown = entries.push(entry);
    assert forall|i: int, j: int| 0 <= i < j < grown.len() implies (#[trigger] grown[i]).0@ != (
    #[trigger] grown[j]).0@ by {
        if j < entries.len() {
            assert(grown[i] == entries[i] && grown[j] == entries[j]);
        } else {
            assert(grown[i] == entries[i]);
            assert(grown[j] == entry);
        }
    }
}

/// Finds the entry stored under `key`.
pub fn position<V>(entries: &Vec<(String, V)>, key: &str) -> (r: Option<usize>)
    ensures
        match r {
            Some(i) => i < entries.len() && entries@[i as int].0@ == key@,
            None => !has_key(entries@, key@),
        },
        r is Some == has_key(entries@, key@),
{
    let mut i: usize = 0;
    while i < entries.len()
        invariant
            i <= entries.len(),
            forall|j: int| 0 <= j < i ==> (#[trigger] entries@[j]).0@ != key@,
        decreases entries.len() - i,
    {
        if str_eq(entries[i].0.as_str(), key) {
            return Some(i);
        }
        i += 1;
    }
    None
}

/// The map that a sequence of entries stands for.
pub open spec fn entries_map<V>(entries: Seq<(String, V)>) -> Map<Seq<char>, V> {
    Map::new(|k: Seq<char>| has_key(entries, k), |k: Seq<char>| entries[slot(entries, k)].1)
}

/// Replacing the value at a slot replaces the value under that slot's key.
pub proof fn lemma_update_map<V>(entries: Seq<(String, V)>, j: int, value: V)
    requires
        unique_keys(entries),
        0 <= j < entries.len(),
    ensures
        unique_keys(entries.update(j, (entries[j].0, value))),
        entries_map(entries.update(j, (entries[j].0, value))) == entries_map(entries).insert(
            entries[j].0@,
            value,
        ),
{
    let changed = entries.update(j, (entries[j].0, value));
    assert forall|a: int, b: int| 0 <= a < b < changed.len() implies (#[trigger] changed[a]).0@ != (
    #[trigger] changed[b]).0@ by {
        assert(changed[a].0@ == entries[a].0@ && changed[b].0@ == entries[b].0@);
    }
    let want = entries_map(entries).insert(entries[j].0@, value);
    assert forall|k: Seq<char>| has_key(changed, k) == has_key(entries, k) by {
        if has_key(changed, k) {
            let i = slot(changed, k);
            assert(entries[i].0@ == k);
        }
        if has_key(entries, k) {
            let i = slot(entries, k);
            assert(changed[i].0@ == k);
        }
    }
    lemma_slot_of_entry(entries, j);
    assert forall|k: Seq<char>| #[trigger] has_key(changed, k) implies entries_map(changed)[k]
        == want[k] by {
        let i = slot(changed, k);
        lemma_slot_of_entry(changed, i);
        assert(entries[i].0@ == k);
        lemma_slot_of_entry(entries, i);
    }
    assert(entries_map(changed) =~= want);
}

/// Appending an entry under a fresh key adds that key to the map.
pub proof fn lemma_push_map<V>(entries: Seq<(String, V)>, entry: (String, V))
    requires
        unique_keys(entries),
        !has_key(entries, entry.0@),
    ensures
        unique_keys(entries.push(entry)),
        entries_map(entries.push(entry)) == entries_map(entries).insert(entry.0@, entry.1),
{
    lemma_push_unique(entries, entry);
    let grown = entries.push(entry);
    let want = entries_map(entries).insert(entry.0@, entry.1);
    assert(grown[entries.len() as int] == entry);
    assert forall|k: Seq<char>| has_key(grown, k) == (has_key(entries, k) || k == entry.0@) by {
        if has_key(grown, k) {
            let i = slot(grown, k);
            if i < entries.len() {
                assert(entries[i].0@ == k);
            }
        }
        if has_key(entries, k) {
            let i = slot(entries, k);
            assert(grown[i].0@ == k);
        }
    }
    assert forall|k: Seq<char>| #[trigger] has_key(grown, k) implies entries_map(grown)[k]
        == want[k] by {
        let i = slot(grown, k);
        lemma_slot_of_entry(grown, i);
        if i < entries.len() {
            assert(grown[i] == entries[i]);
            lemma_slot_of_entry(entries, i);
        }
    }
    assert(entries_map(grown) =~= want);
}

/// The entry at a position of a sequence with unique keys is found under its key
/// in the map of the whole, is absent from the entries behind it, and the entries
/// from it on stand for those behind it with the entry added.
pub proof fn lemma_last_map<V>(entries: Seq<(String, V)>, at: int)
    requires
        unique_keys(entries),
        0 <= at < entries.len(),
    ensures
        entries_map(entries).dom().contains(entries[at].0@),
        entries_map(entries)[entries[at].0@] == entries[at].1,
        !entries_map(entries.skip(at + 1)).dom().contains(entries[at].0@),
        entries_map(entries.skip(at)) == entries_map(entries.skip(at + 1)).insert(
            entries[at].0@,
            entries[at].1,
        ),
{
    lemma_slot_of_entry(entries, at);
    let tail = entries.skip(at);
    let rest = entries.skip(at + 1);
    let key = entries[at].0@;
    assert(rest =~= tail.skip(1));
    assert forall|a: int, b: int| 0 <= a < b < tail.len() implies (#[trigger] tail[a]).0@ != (
    #[trigger] tail[b]).0@ by {
        assert(tail[a] == entries[a + at] && tail[b] == entries[b + at]);
    }
    assert forall|a: int, b: int| 0 <= a < b < rest.len() implies (#[trigger] rest[a]).0@ != (
    #[trigger] rest[b]).0@ by {
        assert(rest[a] == entries[a + at + 1] && rest[b] == entries[b + at + 1]);
    }
    if has_key(rest, key) {
        let i = slot(rest, key);
        assert(rest[i] == entries[i + at + 1]);
        assert(entries[at].0@ != entries[i + at + 1].0@);
    }
    let want = entries_map(rest).insert(key, entries[at].1);
    assert forall|k: Seq<char>| has_key(tail, k) == (has_key(rest, k) || k == key) by {
        if has_key(tail, k) {
            let i = slot(tail, k);
            if i > 0 {
                assert(rest[i - 1].0@ == k);
            }
        }
        if has_key(rest, k) {
            let i = slot(rest, k);
            assert(tail[i + 1].0@ == k);
        }
        if k == key {
            assert(tail[0].0@ == k);
        }
    }
    assert forall|k: Seq<char>| #[trigger] has_key(tail, k) implies entries_map(tail)[k]
        == want[k] by {
        let i = slot(tail, k);
        lemma_slot_of_entry(tail, i);
        if i > 0 {
            assert(rest[i - 1] == tail[i]);
            lemma_slot_of_entry(rest, i - 1);
            assert(tail[0].0@ != tail[i].0@);
        }
    }
    assert(entries_map(tail) =~= want);
}

/// The map of a sequence of entries has finitely many keys.
pub proof fn lemma_entries_map_finite<V>(entries: Seq<(String, V)>)
    ensures
        entries_map(entries).dom().finite(),
    decreases entries.len(),
{
    if entries.len() == 0 {
        assert(entries_map(entries).dom() =~= Set::<Seq<char>>::empty());
    } else {
        let rest = entries.drop_last();
        let last = entries.last();
        lemma_entries_map_finite(rest);
        assert forall|k: Seq<char>| has_key(entries, k) == (has_key(rest, k) || k == last.0@) by {
            if has_key(entries, k) {
                let i = slot(entries, k);
                if i < rest.len() {
                    assert(rest[i].0@ == k);
                }
            }
            if has_key(rest, k) {
                let i = slot(rest, k);
                assert(entries[i].0@ == k);
            }
            if k == last.0@ {
                assert(entries[entries.len() - 1].0@ == k);
            }
        }
        assert(entries_map(entries).dom() =~= entries_map(rest).dom().insert(last.0@));
    }
}

/// A map from strings to values of one type, each key held once.
pub struct StringMap<V> {
    entries: Vec<(String, V)>,
}

impl<V> View for StringMap<V> {
    type V = Map<Seq<char>, V>;

    closed spec fn view(&self) -> Map<Seq<char>, V> {
        entries_map(self.entries@)
    }
}

impl<V> StringMap<V> {
    #[verifier::type_invariant]
    spec fn distinct(self) -> bool {
        unique_keys(self.entries@)
    }

    /// A map without entries.
    pub fn new() -> (map: StringMap<V>)
        ensures
            map@ == Map::<Seq<char>, V>::empty(),
    {
        let map = StringMap { entries: Vec::new() };
        assert(map@ =~= Map::<Seq<char>, V>::empty());
        map
    }

    /// The value stored under `key`, if there is one.
    pub fn get(&self, key: &str) -> (r: Option<&V>)
        ensures
            match r {
                Some(v) => self@.dom().contains(key@) && *v == self@[key@],
                None => !self@.dom().contains(key@),
            },
    {
        proof {
            use_type_invariant(self);
        }
        match position(&self.entries, key) {
            Some(i) => {
                proof {
                    lemma_slot_of_entry(self.entries@, i as int);
                }
                Some(&self.entries[i].1)
            },
            None => None,
        }
    }

    /// Whether a value is stored under `key`.
    pub fn contains_key(&self, key: &str) -> (r: bool)
        ensures
            r == self@.dom().contains(key@),
    {
        position(&self.entries, key).is_some()
    }

    /// Stores `value` under `key`, in place of what was stored there before.
    pub fn insert(&mut self, key: String, value: V)
        ensures
            final(self)@ == old(self)@.insert(key@, value),
    {
        proof {
            use_type_invariant(&*self);
        }
        let mut entries = Vec::new();
        std::mem::swap(&mut entries, &mut self.entries);
        match position(&entries, key.as_str()) {
            Some(i) => {
                proof {
                    lemma_update_map(entries@, i as int, value);
                }
                let ghost before = entries@;
                entries[i].1 = value;
                assert(entries@ =~= before.update(i as int, (before[i as int].0, value)));
            },
            None => {
                proof {
                    lemma_push_map(entries@, (key, value));
                }
                entries.push((key, value));
            },
        }
        self.entries = entries;
    }
}

} // verus!
