use vstd::prelude::*;
use crate::keyed::{
    entries_map, has_key, lemma_last_map, lemma_push_map, lemma_slot_of_entry, lemma_update_map,
    position, slot, unique_keys,
};
use crate::text::{lists, str_eq};

verus! {

/// A value handed over as it is, with the identifier of its type, in place of
/// one that is read from a file.
pub struct DirectGenericValue<V> {
    pub type_id: u64,
    pub value: V,
}

impl<V> DirectGenericValue<V> {
    /// The value, asked for as one of the type `type_id`: the value itself where
    /// that is its type, and otherwise, as the error, the identifier of the type
    /// that it is of.
    pub fn generic_deserialize(&self, type_id: u64) -> (r: Result<&V, u64>)
        ensures
            r == if self.type_id == type_id {
                Ok::<&V, u64>(&self.value)
            } else {
                Err::<&V, u64>(self.type_id)
            },
    {
        if self.type_id == type_id {
            Ok(&self.value)
        } else {
            Err(self.type_id)
        }
    }
}

/// The mathematical content of a [`GenericValue`]: strings are character sequences,
/// arrays are sequences and tables are finite maps, so two values with the same
/// model are deep-equal whatever the order in which their tables were filled.
pub enum ValueModel {
    Null,
    Bool(bool),
    Integer(i128),
    Float(u64),
    String(Seq<char>),
    Datetime(Seq<char>),
    Array(Seq<ValueModel>),
    Table(Map<Seq<char>, ValueModel>),
}

/// A value as a material file holds it, whatever the file's format.
pub enum GenericValue {
    Null,
    Bool(bool),
    /// A whole number: wide enough for every integer of the three formats.
    Integer(i128),
    /// A 64-bit float, kept as its IEEE-754 bit pattern.
    Float(u64),
    String(String),
    /// A date-time of TOML, as it is written.
    Datetime(String),
    Array(Vec<GenericValue>),
    Table(Table),
}

/// A table of a material file: values stored under distinct string keys.
pub struct Table {
    entries: Vec<(String, GenericValue)>,
}

/// The map that a sequence of entries stands for.
pub open spec fn entries_model(entries: Seq<(String, GenericValue)>) -> Map<Seq<char>, ValueModel>
    decreases entries,
{
    Map::new(
        |k: Seq<char>| has_key(entries, k),
        |k: Seq<char>|
            if has_key(entries, k) {
                entries[slot(entries, k)].1.view()
            } else {
                ValueModel::Null
            },
    )
}

/// The sequence that the items of an array stand for.
pub open spec fn items_model(items: Seq<GenericValue>) -> Seq<ValueModel>
    decreases items,
{
    Seq::new(
        items.len(),
        |i: int|
            if 0 <= i < items.len() {
                items[i].view()
            } else {
                ValueModel::Null
            },
    )
}

impl View for GenericValue {
    type V = ValueModel;

    open spec fn view(&self) -> ValueModel
        decreases self,
    {
        match self {
            GenericValue::Null => ValueModel::Null,
            GenericValue::Bool(b) => ValueModel::Bool(*b),
            GenericValue::Integer(i) => ValueModel::Integer(*i),
            GenericValue::Float(bits) => ValueModel::Float(*bits),
            GenericValue::String(s) => ValueModel::String(s@),
            GenericValue::Datetime(s) => ValueModel::Datetime(s@),
            GenericValue::Array(items) => ValueModel::Array(items_model(items@)),
            GenericValue::Table(t) => ValueModel::Table(t.view()),
        }
    }
}

impl View for Table {
    type V = Map<Seq<char>, ValueModel>;

    closed spec fn view(&self) -> Map<Seq<char>, ValueModel>
        decreases self,
    {
        entries_model(self.entries@)
    }
}

/// The overlay of `source` on `target`: two tables are united key by key, a key
/// of both holding the overlay of its two values; in every other case the
/// result is `source`.
pub open spec fn merged(target: ValueModel, source: ValueModel) -> ValueModel
    decreases source,
{
    match (target, source) {
        (ValueModel::Table(t), ValueModel::Table(s)) => ValueModel::Table(
            Map::new(
                |k: Seq<char>| t.dom().contains(k) || s.dom().contains(k),
                |k: Seq<char>|
                    if s.dom().contains(k) {
                        if t.dom().contains(k) {
                            merged(t[k], s[k])
                        } else {
                            s[k]
                        }
                    } else {
                        t[k]
                    },
            ),
        ),
        (_, s) => s,
    }
}

/// The overlay of the table `source` on the table `target`.
pub open spec fn merged_tables(
    target: Map<Seq<char>, ValueModel>,
    source: Map<Seq<char>, ValueModel>,
) -> Map<Seq<char>, ValueModel> {
    merged(ValueModel::Table(target), ValueModel::Table(source))->Table_0
}

/// The content of a value, as a function.
pub open spec fn content_of() -> spec_fn(GenericValue) -> ValueModel {
    |v: GenericValue| v@
}

/// The map that entries stand for holds the content of what the entries hold.
pub proof fn lemma_entries_model(entries: Seq<(String, GenericValue)>)
    ensures
        entries_model(entries) == entries_map(entries).map_values(content_of()),
{
    assert(entries_model(entries) =~= entries_map(entries).map_values(content_of()));
}

/// Replacing the value at a slot replaces the value under that slot's key.
pub proof fn lemma_update_entry(entries: Seq<(String, GenericValue)>, j: int, value: GenericValue)
    requires
        unique_keys(entries),
        0 <= j < entries.len(),
    ensures
        unique_keys(entries.update(j, (entries[j].0, value))),
        entries_model(entries.update(j, (entries[j].0, value))) == entries_model(entries).insert(
            entries[j].0@,
            value@,
        ),
{
    lemma_update_map(entries, j, value);
    lemma_entries_model(entries);
    lemma_entries_model(entries.update(j, (entries[j].0, value)));
    assert(entries_map(entries).insert(entries[j].0@, value).map_values(content_of())
        =~= entries_map(entries).map_values(content_of()).insert(entries[j].0@, value@));
}

/// Appending an entry under a fresh key adds that key to the map.
pub proof fn lemma_push_entry(entries: Seq<(String, GenericValue)>, entry: (String, GenericValue))
    requires
        unique_keys(entries),
        !has_key(entries, entry.0@),
    ensures
        unique_keys(entries.push(entry)),
        entries_model(entries.push(entry)) == entries_model(entries).insert(entry.0@, entry.1@),
{
    lemma_push_map(entries, entry);
    lemma_entries_model(entries);
    lemma_entries_model(entries.push(entry));
    assert(entries_map(entries).insert(entry.0@, entry.1).map_values(content_of()) =~= entries_map(
        entries,
    ).map_values(content_of()).insert(entry.0@, entry.1@));
}

/// The first entry of a sequence with unique keys is absent from the rest, and
/// the whole stands for the rest with that entry added.
pub proof fn lemma_first_entry(entries: Seq<(String, GenericValue)>)
    requires
        unique_keys(entries),
        entries.len() > 0,
    ensures
        unique_keys(entries.skip(1)),
        !has_key(entries.skip(1), entries[0].0@),
        entries_model(entries) == entries_model(entries.skip(1)).insert(
            entries[0].0@,
            entries[0].1@,
        ),
{
    let rest = entries.skip(1);
    lemma_last_map(entries, 0);
    assert(entries.skip(0) =~= entries);
    assert forall|a: int, b: int| 0 <= a < b < rest.len() implies (#[trigger] rest[a]).0@ != (
    #[trigger] rest[b]).0@ by {
        assert(rest[a] == entries[a + 1] && rest[b] == entries[b + 1]);
    }
    lemma_entries_model(entries);
    lemma_entries_model(rest);
    assert(entries_map(rest).insert(entries[0].0@, entries[0].1).map_values(content_of())
        =~= entries_map(rest).map_values(content_of()).insert(entries[0].0@, entries[0].1@));
}

/// Merging a value with itself as the source gives the value back.
pub proof fn lemma_merge_idempotent(value: ValueModel)
    ensures
        merged(value, value) == value,
    decreases value,
{
    match value {
        ValueModel::Table(t) => {
            assert forall|k: Seq<char>| t.dom().contains(k) implies merged(t[k], t[k])
                == t[k] by {
                lemma_merge_idempotent(t[k]);
            }
            assert(merged_tables(t, t) =~= t);
        },
        _ => {},
    }
}

/// The merge is an overlay of the source: every key of the source is in the
/// result, with the source's value where the target lacked the key and with the
/// merge of the two values where it held one; a key of the target alone keeps
/// its value; and no other key appears.
pub proof fn lemma_merge_overlay(
    target: Map<Seq<char>, ValueModel>,
    source: Map<Seq<char>, ValueModel>,
    key: Seq<char>,
)
    ensures
        merged_tables(target, source).dom().contains(key) == (target.dom().contains(key)
            || source.dom().contains(key)),
        source.dom().contains(key) && !target.dom().contains(key) ==> merged_tables(
            target,
            source,
        )[key] == source[key],
        source.dom().contains(key) && target.dom().contains(key) ==> merged_tables(
            target,
            source,
        )[key] == merged(target[key], source[key]),
        !source.dom().contains(key) && target.dom().contains(key) ==> merged_tables(
            target,
            source,
        )[key] == target[key],
{
}

/// Unless both are tables, the source takes the place of the target.
pub proof fn lemma_merge_overwrites(target: ValueModel, source: ValueModel)
    requires
        !(target is Table) || !(source is Table),
    ensures
        merged(target, source) == source,
{
}

/// Overlaying one more entry, under a key that the source lacked so far, changes
/// the overlay at that key alone.
pub proof fn lemma_merge_one_more(
    target: Map<Seq<char>, ValueModel>,
    source: Map<Seq<char>, ValueModel>,
    key: Seq<char>,
    value: ValueModel,
)
    requires
        !source.dom().contains(key),
    ensures
        merged_tables(target, source).dom().contains(key) == target.dom().contains(key),
        target.dom().contains(key) ==> merged_tables(target, source)[key] == target[key],
        merged_tables(target, source.insert(key, value)) == merged_tables(target, source).insert(
            key,
            if target.dom().contains(key) {
                merged(target[key], value)
            } else {
                value
            },
        ),
{
    let grown = source.insert(key, value);
    let want = merged_tables(target, source).insert(
        key,
        if target.dom().contains(key) {
            merged(target[key], value)
        } else {
            value
        },
    );
    assert forall|k: Seq<char>| #[trigger]
        merged_tables(target, grown).dom().contains(k) implies merged_tables(target, grown)[k]
        == want[k] by {
        if k != key {
            assert(grown.dom().contains(k) == source.dom().contains(k));
            if source.dom().contains(k) {
                assert(grown[k] == source[k]);
            }
        }
    }
    assert(merged_tables(target, grown) =~= want);
}

/// Taking the entry at a slot out takes its key out of the map.
pub proof fn lemma_remove_entry(entries: Seq<(String, GenericValue)>, j: int)
    requires
        unique_keys(entries),
        0 <= j < entries.len(),
    ensures
        unique_keys(entries.remove(j)),
        entries_model(entries.remove(j)) == entries_model(entries).remove(entries[j].0@),
{
    let rest = entries.remove(j);
    let want = entries_model(entries).remove(entries[j].0@);
    assert forall|a: int| 0 <= a < rest.len() implies #[trigger] rest[a] == entries[if a < j {
        a
    } else {
        a + 1
    }] by {}
    assert forall|a: int, b: int| 0 <= a < b < rest.len() implies (#[trigger] rest[a]).0@ != (
    #[trigger] rest[b]).0@ by {
        let a0 = if a < j { a } else { a + 1 };
        let b0 = if b < j { b } else { b + 1 };
        assert(entries[a0].0@ != entries[b0].0@);
    }
    assert forall|k: Seq<char>| has_key(rest, k) == (has_key(entries, k) && k != entries[j].0@) by {
        if has_key(rest, k) {
            let a = slot(rest, k);
            let a0 = if a < j { a } else { a + 1 };
            assert(entries[a0].0@ == k);
            if a0 < j {
                assert(entries[a0].0@ != entries[j].0@);
            } else {
                assert(entries[j].0@ != entries[a0].0@);
            }
        }
        if has_key(entries, k) && k != entries[j].0@ {
            let a0 = slot(entries, k);
            let a = if a0 < j { a0 } else { a0 - 1 };
            assert(rest[a].0@ == k);
        }
    }
    assert forall|k: Seq<char>| #[trigger] has_key(rest, k) implies entries_model(rest)[k]
        == want[k] by {
        let a = slot(rest, k);
        lemma_slot_of_entry(rest, a);
        let a0 = if a < j { a } else { a + 1 };
        assert(rest[a] == entries[a0]);
        lemma_slot_of_entry(entries, a0);
    }
    assert(entries_model(rest) =~= want);
}

/// Entries stand for the same map when they are read in the opposite order.
pub proof fn lemma_reversed_entries(
    entries: Seq<(String, GenericValue)>,
    reversed: Seq<(String, GenericValue)>,
)
    requires
        unique_keys(entries),
        reversed.len() == entries.len(),
        forall|i: int|
            0 <= i < entries.len() ==> #[trigger] reversed[i] == entries[entries.len() - 1 - i],
    ensures
        unique_keys(reversed),
        entries_model(reversed) == entries_model(entries),
{
    let n = entries.len();
    assert forall|a: int, b: int| 0 <= a < b < reversed.len() implies (#[trigger] reversed[a]).0@
        != (#[trigger] reversed[b]).0@ by {
        assert(entries[n - 1 - b].0@ != entries[n - 1 - a].0@);
    }
    assert forall|k: Seq<char>| has_key(reversed, k) == has_key(entries, k) by {
        if has_key(reversed, k) {
            let i = slot(reversed, k);
            assert(entries[n - 1 - i].0@ == k);
        }
        if has_key(entries, k) {
            let i = slot(entries, k);
            assert(reversed[n - 1 - i].0@ == k);
        }
    }
    assert forall|k: Seq<char>| #[trigger] has_key(reversed, k) implies entries_model(reversed)[k]
        == entries_model(entries)[k] by {
        let i = slot(reversed, k);
        lemma_slot_of_entry(reversed, i);
        assert(entries[n - 1 - i].0@ == k);
        lemma_slot_of_entry(entries, n - 1 - i);
    }
    assert(entries_model(reversed) =~= entries_model(entries));
}

/// Stores `value` under `key` in a vector of entries with unique keys.
fn entries_insert(entries: &mut Vec<(String, GenericValue)>, key: String, value: GenericValue)
    requires
        unique_keys(old(entries)@),
    ensures
        unique_keys(final(entries)@),
        entries_model(final(entries)@) == entries_model(old(entries)@).insert(key@, value@),
{
    match position(entries, key.as_str()) {
        Some(i) => {
            proof {
                lemma_update_entry(entries@, i as int, value);
            }
            entries[i].1 = value;
            assert(entries@ =~= old(entries)@.update(i as int, (old(entries)@[i as int].0, value)));
        },
        None => {
            proof {
                lemma_push_entry(entries@, (key, value));
            }
            entries.push((key, value));
        },
    }
}

/// Overlays the entries `source` on `entries`, both with unique keys.
fn entries_merge(entries: &mut Vec<(String, GenericValue)>, source: Vec<(String, GenericValue)>)
    requires
        unique_keys(old(entries)@),
        unique_keys(source@),
    ensures
        unique_keys(final(entries)@),
        entries_model(final(entries)@) == merged_tables(
            entries_model(old(entries)@),
            entries_model(source@),
        ),
    decreases source,
{
    let ghost all = source@;
    let ghost before = entries_model(entries@);
    let mut rest = source;
    assert(entries_model(all.skip(all.len() as int)) =~= Map::<Seq<char>, ValueModel>::empty());
    assert(merged_tables(before, Map::<Seq<char>, ValueModel>::empty()) =~= before);
    while rest.len() > 0
        invariant
            rest@ == all.take(rest.len() as int),
            rest.len() <= all.len(),
            all == source@,
            unique_keys(all),
            unique_keys(entries@),
            entries_model(entries@) == merged_tables(
                before,
                entries_model(all.skip(rest.len() as int)),
            ),
        decreases rest.len(),
    {
        let ghost n = rest.len() as int;
        let ghost done = entries_model(all.skip(n));
        let ghost now = entries_model(entries@);
        let ghost held = entries@;
        let (key, value) = rest.pop().unwrap();
        proof {
            assert(key == all[n - 1].0 && value == all[n - 1].1);
            let tail = all.skip(n - 1);
            assert forall|a: int, b: int| 0 <= a < b < tail.len() implies (#[trigger] tail[a]).0@
                != (#[trigger] tail[b]).0@ by {
                assert(tail[a] == all[a + n - 1] && tail[b] == all[b + n - 1]);
            }
            assert(all.skip(n) =~= tail.skip(1));
            lemma_first_entry(tail);
            assert(entries_model(tail) == done.insert(key@, value@));
            assert(!done.dom().contains(key@));
        }
        proof {
            lemma_merge_one_more(before, done, key@, value@);
        }
        match position(entries, key.as_str()) {
            Some(j) => {
                proof {
                    lemma_slot_of_entry(entries@, j as int);
                    assert(now[key@] == held[j as int].1@);
                }
                merge_value(&mut entries[j].1, value);
                proof {
                    let fresh = entries@[j as int].1;
                    assert(entries@ =~= held.update(j as int, (held[j as int].0, fresh)));
                    lemma_update_entry(held, j as int, fresh);
                }
            },
            None => {
                proof {
                    lemma_push_entry(entries@, (key, value));
                }
                entries.push((key, value));
            },
        }
        assert(rest@ =~= all.take(rest.len() as int));
    }
    assert(all.skip(0) =~= all);
}

/// Whether every entry of `left` has its key in `right`, with a deep-equal value.
fn entries_within(left: &Vec<(String, GenericValue)>, right: &Vec<(String, GenericValue)>) -> (r: bool)
    requires
        unique_keys(left@),
        unique_keys(right@),
    ensures
        r == forall|k: Seq<char>| #[trigger]
            has_key(left@, k) ==> has_key(right@, k) && entries_model(left@)[k] == entries_model(
                right@,
            )[k],
    decreases left, 0nat,
{
    let mut i: usize = 0;
    while i < left.len()
        invariant
            i <= left.len(),
            unique_keys(left@),
            unique_keys(right@),
            forall|j: int|
                0 <= j < i ==> has_key(right@, (#[trigger] left@[j]).0@) && entries_model(
                    left@,
                )[left@[j].0@] == entries_model(right@)[left@[j].0@],
        decreases left.len() - i,
    {
        proof {
            lemma_slot_of_entry(left@, i as int);
        }
        let found = match position(right, left[i].0.as_str()) {
            Some(j) => {
                proof {
                    lemma_slot_of_entry(right@, j as int);
                }
                left[i].1.same(&right[j].1)
            },
            None => false,
        };
        if !found {
            return false;
        }
        i += 1;
    }
    assert forall|k: Seq<char>| #[trigger] has_key(left@, k) implies has_key(right@, k)
        && entries_model(left@)[k] == entries_model(right@)[k] by {
        let j = slot(left@, k);
        assert(left@[j].0@ == k);
    }
    true
}

/// Whether two arrays have one length and deep-equal items in the same order.
fn items_same(left: &Vec<GenericValue>, right: &Vec<GenericValue>) -> (r: bool)
    ensures
        r == (items_model(left@) == items_model(right@)),
    decreases left, 0nat,
{
    if left.len() != right.len() {
        assert(items_model(left@).len() != items_model(right@).len());
        return false;
    }
    let mut i: usize = 0;
    while i < left.len()
        invariant
            i <= left.len(),
            left.len() == right.len(),
            forall|j: int| 0 <= j < i ==> (#[trigger] left@[j])@ == right@[j]@,
        decreases left.len() - i,
    {
        if !left[i].same(&right[i]) {
            assert(items_model(left@)[i as int] == left@[i as int]@);
            assert(items_model(right@)[i as int] == right@[i as int]@);
            return false;
        }
        i += 1;
    }
    assert(items_model(left@) =~= items_model(right@));
    true
}

/// Whether two sequences of entries with unique keys stand for the same map.
fn entries_same(left: &Vec<(String, GenericValue)>, right: &Vec<(String, GenericValue)>) -> (r: bool)
    requires
        unique_keys(left@),
        unique_keys(right@),
    ensures
        r == (entries_model(left@) == entries_model(right@)),
    decreases left, 1nat,
{
    if !entries_within(left, right) {
        proof {
            let k = choose|k: Seq<char>| #[trigger]
                has_key(left@, k) && !(has_key(right@, k) && entries_model(left@)[k]
                    == entries_model(right@)[k]);
            assert(entries_model(left@).dom().contains(k));
            if entries_model(left@) == entries_model(right@) {
                assert(entries_model(right@).dom().contains(k));
            }
        }
        return false;
    }
    // every key of `right` has to be one of `left` as well
    let mut i: usize = 0;
    while i < right.len()
        invariant
            i <= right.len(),
            forall|j: int| 0 <= j < i ==> has_key(left@, (#[trigger] right@[j]).0@),
        decreases right.len() - i,
    {
        if position(left, right[i].0.as_str()).is_none() {
            proof {
                let k = right@[i as int].0@;
                assert(has_key(right@, k));
                assert(entries_model(right@).dom().contains(k));
                assert(!entries_model(left@).dom().contains(k));
            }
            return false;
        }
        i += 1;
    }
    proof {
        assert forall|k: Seq<char>| has_key(right@, k) implies has_key(left@, k) by {
            let j = slot(right@, k);
            assert(right@[j].0@ == k);
        }
        assert(entries_model(left@) =~= entries_model(right@));
    }
    true
}

impl GenericValue {
    /// Whether two values are deep-equal: of the same kind and, for scalars
    /// and date-times, equal; for arrays, of one length with deep-equal items in the same
    /// order; for tables, with the same keys and a deep-equal value under each.
    pub fn same(&self, other: &GenericValue) -> (r: bool)
        ensures
            r == (self@ == other@),
        decreases self, 2nat,
    {
        match self {
            GenericValue::Null => match other {
                GenericValue::Null => true,
                _ => false,
            },
            GenericValue::Bool(a) => match other {
                GenericValue::Bool(b) => *a == *b,
                _ => false,
            },
            GenericValue::Integer(a) => match other {
                GenericValue::Integer(b) => *a == *b,
                _ => false,
            },
            GenericValue::Float(a) => match other {
                GenericValue::Float(b) => *a == *b,
                _ => false,
            },
            GenericValue::String(a) => match other {
                GenericValue::String(b) => str_eq(a.as_str(), b.as_str()),
                _ => false,
            },
            GenericValue::Datetime(a) => match other {
                GenericValue::Datetime(b) => str_eq(a.as_str(), b.as_str()),
                _ => false,
            },
            GenericValue::Array(a) => match other {
                GenericValue::Array(b) => items_same(a, b),
                _ => false,
            },
            GenericValue::Table(a) => match other {
                GenericValue::Table(b) => {
                    proof {
                        use_type_invariant(a);
                        use_type_invariant(b);
                    }
                    entries_same(&a.entries, &b.entries)
                },
                _ => false,
            },
        }
    }
}

/// Copies the items of an array.
fn items_duplicate(items: &Vec<GenericValue>) -> (r: Vec<GenericValue>)
    ensures
        items_model(r@) == items_model(items@),
    decreases items, 0nat,
{
    let mut copy: Vec<GenericValue> = Vec::new();
    let mut i: usize = 0;
    while i < items.len()
        invariant
            i <= items.len(),
            copy@.len() == i,
            forall|j: int| 0 <= j < i ==> (#[trigger] copy@[j])@ == items@[j]@,
        decreases items.len() - i,
    {
        copy.push(items[i].duplicate());
        i += 1;
    }
    assert(items_model(copy@) =~= items_model(items@));
    copy
}

/// Copies entries with unique keys.
fn entries_duplicate(entries: &Vec<(String, GenericValue)>) -> (r: Vec<(String, GenericValue)>)
    requires
        unique_keys(entries@),
    ensures
        unique_keys(r@),
        entries_model(r@) == entries_model(entries@),
    decreases entries, 0nat,
{
    let mut copy: Vec<(String, GenericValue)> = Vec::new();
    let mut i: usize = 0;
    while i < entries.len()
        invariant
            i <= entries.len(),
            copy@.len() == i,
            forall|j: int|
                0 <= j < i ==> (#[trigger] copy@[j]).0@ == entries@[j].0@ && copy@[j].1@
                    == entries@[j].1@,
        decreases entries.len() - i,
    {
        copy.push((entries[i].0.clone(), entries[i].1.duplicate()));
        i += 1;
    }
    proof {
        assert forall|a: int, b: int| 0 <= a < b < copy@.len() implies (#[trigger] copy@[a]).0@ != (
        #[trigger] copy@[b]).0@ by {
            assert(entries@[a].0@ != entries@[b].0@);
        }
        assert forall|k: Seq<char>| has_key(copy@, k) == has_key(entries@, k) by {
            if has_key(copy@, k) {
                let j = slot(copy@, k);
                assert(entries@[j].0@ == k);
            }
            if has_key(entries@, k) {
                let j = slot(entries@, k);
                assert(copy@[j].0@ == k);
            }
        }
        assert forall|k: Seq<char>| #[trigger] has_key(copy@, k) implies entries_model(copy@)[k]
            == entries_model(entries@)[k] by {
            let j = slot(copy@, k);
            lemma_slot_of_entry(copy@, j);
            assert(entries@[j].0@ == k);
            lemma_slot_of_entry(entries@, j);
        }
        assert(entries_model(copy@) =~= entries_model(entries@));
    }
    copy
}

impl GenericValue {
    /// A copy of the value, deep-equal to it.
    pub fn duplicate(&self) -> (r: GenericValue)
        ensures
            r@ == self@,
        decreases self, 1nat,
    {
        match self {
            GenericValue::Null => GenericValue::Null,
            GenericValue::Bool(b) => GenericValue::Bool(*b),
            GenericValue::Integer(i) => GenericValue::Integer(*i),
            GenericValue::Float(bits) => GenericValue::Float(*bits),
            GenericValue::String(s) => GenericValue::String(s.clone()),
            GenericValue::Datetime(s) => GenericValue::Datetime(s.clone()),
            GenericValue::Array(items) => GenericValue::Array(items_duplicate(items)),
            GenericValue::Table(t) => {
                proof {
                    use_type_invariant(t);
                }
                GenericValue::Table(Table { entries: entries_duplicate(&t.entries) })
            },
        }
    }
}

impl Clone for GenericValue {
    fn clone(&self) -> (r: Self)
        ensures
            r@ == self@,
    {
        self.duplicate()
    }
}

impl Clone for Table {
    fn clone(&self) -> (r: Self)
        ensures
            r@ == self@,
    {
        proof {
            use_type_invariant(self);
        }
        Table { entries: entries_duplicate(&self.entries) }
    }
}

/// Merges `other` into `value` in place. Where both are tables the tables are
/// united, a key of both being merged in turn; in every other case `other`
/// takes the place of `value`.
pub fn merge_value(value: &mut GenericValue, other: GenericValue)
    ensures
        final(value)@ == merged(old(value)@, other@),
    decreases other,
{
    match other {
        GenericValue::Table(source) => {
            match value {
                GenericValue::Table(target) => {
                    target.merge(source);
                },
                _ => {
                    *value = GenericValue::Table(source);
                },
            }
        },
        other => {
            *value = other;
        },
    }
}

impl Table {
    #[verifier::type_invariant]
    spec fn distinct(self) -> bool {
        unique_keys(self.entries@)
    }

    /// A table without entries.
    pub fn new() -> (t: Table)
        ensures
            t@ == Map::<Seq<char>, ValueModel>::empty(),
    {
        let t = Table { entries: Vec::new() };
        assert(t@ =~= Map::<Seq<char>, ValueModel>::empty());
        t
    }

    /// The value stored under `key`, if there is one.
    pub fn get(&self, key: &str) -> (r: Option<&GenericValue>)
        ensures
            match r {
                Some(v) => self@.dom().contains(key@) && v@ == self@[key@],
                None => !self@.dom().contains(key@),
            },
    {
        proof {
            use_type_invariant(self);
        }
        match position(&self.entries, key) {
            Some(i) => {
                proof {
                    lemma_slot_of_entry(self.entries@, i as int);
                }
                Some(&self.entries[i].1)
            },
            None => None,
        }
    }

    /// Whether a value is stored under `key`.
    pub fn contains_key(&self, key: &str) -> (r: bool)
        ensures
            r == self@.dom().contains(key@),
    {
        position(&self.entries, key).is_some()
    }

    /// Whether the table holds nothing.
    pub fn is_empty(&self) -> (r: bool)
        ensures
            r == (self@ == Map::<Seq<char>, ValueModel>::empty()),
    {
        if self.entries.len() == 0 {
            assert(self@ =~= Map::<Seq<char>, ValueModel>::empty());
            true
        } else {
            assert(has_key(self.entries@, self.entries@[0].0@));
            assert(self@.dom().contains(self.entries@[0].0@));
            false
        }
    }

    /// The keys of the table, each once, in no stated order.
    pub fn keys(&self) -> (r: Vec<String>)
        ensures
            forall|k: Seq<char>| lists(r@, k) == self@.dom().contains(k),
            forall|i: int, j: int| 0 <= i < j < r@.len() ==> (#[trigger] r@[i])@ != (#[trigger] r@[j])@,
    {
        proof {
            use_type_invariant(self);
        }
        let mut keys: Vec<String> = Vec::new();
        let mut i: usize = 0;
        while i < self.entries.len()
            invariant
                i <= self.entries.len(),
                keys@.len() == i,
                forall|j: int| 0 <= j < i ==> (#[trigger] keys@[j])@ == self.entries@[j].0@,
            decreases self.entries.len() - i,
        {
            keys.push(self.entries[i].0.clone());
            i += 1;
        }
        assert forall|k: Seq<char>| lists(keys@, k) == self@.dom().contains(k) by {
            if lists(keys@, k) {
                let j = choose|j: int| 0 <= j < keys@.len() && (#[trigger] keys@[j])@ == k;
                assert(self.entries@[j].0@ == k);
            }
            if has_key(self.entries@, k) {
                let j = slot(self.entries@, k);
                assert(keys@[j]@ == k);
            }
        }
        keys
    }

    /// Stores `value` under `key`, in place of what was stored there before.
    pub fn insert(&mut self, key: String, value: GenericValue)
        ensures
            final(self)@ == old(self)@.insert(key@, value@),
    {
        proof {
            use_type_invariant(&*self);
        }
        let mut entries = Vec::new();
        std::mem::swap(&mut entries, &mut self.entries);
        entries_insert(&mut entries, key, value);
        self.entries = entries;
    }

    /// The entries of the table, in no stated order: each key once, with its value.
    pub fn into_entries(self) -> (entries: Vec<(String, GenericValue)>)
        ensures
            unique_keys(entries@),
            entries_model(entries@) == self@,
    {
        proof {
            use_type_invariant(&self);
        }
        self.entries
    }

    /// Takes the value stored under `key` out of the table, if there is one.
    pub fn remove(&mut self, key: &str) -> (r: Option<GenericValue>)
        ensures
            final(self)@ == old(self)@.remove(key@),
            match r {
                Some(value) => old(self)@.dom().contains(key@) && value@ == old(self)@[key@],
                None => !old(self)@.dom().contains(key@),
            },
    {
        proof {
            use_type_invariant(&*self);
        }
        match position(&self.entries, key) {
            Some(i) => {
                let mut entries = Vec::new();
                std::mem::swap(&mut entries, &mut self.entries);
                proof {
                    lemma_slot_of_entry(entries@, i as int);
                    lemma_remove_entry(entries@, i as int);
                }
                let (_, value) = entries.remove(i);
                self.entries = entries;
                Some(value)
            },
            None => {
                assert(self@.remove(key@) =~= self@);
                None
            },
        }
    }

    /// Overlays `other` on this table: a key of `other` alone is added with its
    /// value, a key of both holds the merge of the two values.
    pub fn merge(&mut self, other: Table)
        ensures
            final(self)@ == merged_tables(old(self)@, other@),
        decreases other,
    {
        proof {
            use_type_invariant(&*self);
            use_type_invariant(&other);
        }
        let mut entries = Vec::new();
        std::mem::swap(&mut entries, &mut self.entries);
        entries_merge(&mut entries, other.entries);
        self.entries = entries;
    }
}

} // verus!
