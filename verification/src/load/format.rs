use vstd::prelude::*;
use crate::keyed::{entries_map, lemma_entries_map_finite, lemma_last_map, unique_keys};
use crate::value::{GenericValue, Table, ValueModel};

verus! {

/// The value type of the `toml` crate.
#[verifier::external_type_specification]
#[verifier::external_body]
pub struct ExTomlValue(toml::Value);

/// The value type of the `serde_json` crate.
#[verifier::external_type_specification]
#[verifier::external_body]
pub struct ExJsonValue(serde_json::Value);

/// The value type of the `ron` crate.
#[verifier::external_type_specification]
#[verifier::external_body]
pub struct ExRonValue(ron::Value);

/// One level of a value as a format's parser built it: a scalar as the parser
/// holds it, or the items or entries of an array or a table, which are values
/// of the parser still.
pub enum Node<T> {
    Null,
    Bool(bool),
    /// A signed integer.
    Integer(i64),
    /// An unsigned integer.
    Unsigned(u64),
    /// A float, as its bits.
    Float(u64),
    String(String),
    /// A date-time, as it is written.
    Datetime(String),
    Array(Vec<T>),
    Table(Vec<(String, T)>),
}

/// What a TOML value holds: the tree of its scalars, arrays and tables.
pub uninterp spec fn toml_content(value: toml::Value) -> ValueModel;

/// What a JSON value holds: the tree of its scalars, arrays and objects.
pub uninterp spec fn json_content(value: serde_json::Value) -> ValueModel;

/// What `toml::from_str` makes of a text: the content of the value that it
/// parses the text to, or the message of its error.
pub uninterp spec fn toml_document(text: Seq<char>) -> Result<ValueModel, Seq<char>>;

/// What `serde_json::from_str` makes of a text: the content of the value that it
/// parses the text to, or the message of its error.
pub uninterp spec fn json_document(text: Seq<char>) -> Result<ValueModel, Seq<char>>;

/// What a RON value holds when `ron::Value::into_rust` reads it as a value of
/// `serde_json`, or the message of the error where it cannot be read so.
pub uninterp spec fn ron_as_json(value: ron::Value) -> Result<ValueModel, Seq<char>>;

/// What `ron::from_str` makes of a text: what the value that it parses the
/// text to holds when it is read as JSON, or the message of the parse error.
pub uninterp spec fn ron_document(text: Seq<char>) -> Result<ValueModel, Seq<char>>;

/// What a node holds, given what the values below it hold.
pub open spec fn held<T>(node: Node<T>, content: spec_fn(T) -> ValueModel) -> ValueModel {
    match node {
        Node::Null => ValueModel::Null,
        Node::Bool(b) => ValueModel::Bool(b),
        Node::Integer(i) => ValueModel::Integer(i as i128),
        Node::Unsigned(u) => ValueModel::Integer(u as i128),
        Node::Float(bits) => ValueModel::Float(bits),
        Node::String(s) => ValueModel::String(s@),
        Node::Datetime(s) => ValueModel::Datetime(s@),
        Node::Array(items) => ValueModel::Array(Seq::new(items@.len(), |i: int| content(items@[i]))),
        Node::Table(entries) => ValueModel::Table(entries_map(entries@).map_values(content)),
    }
}

/// Whether the entries of a node that is a table have distinct keys.
pub open spec fn distinct<T>(node: Node<T>) -> bool {
    node matches Node::Table(entries) ==> unique_keys(entries@)
}

/// Parses a text with `toml::from_str`. The contract only names the result.
#[verifier::external_body]
pub(crate) fn parse_toml(text: &str) -> (r: Result<toml::Value, String>)
    ensures
        match r {
            Ok(value) => toml_document(text@) == Ok::<ValueModel, Seq<char>>(toml_content(value)),
            Err(message) => toml_document(text@) == Err::<ValueModel, Seq<char>>(message@),
        },
{
    toml::from_str::<toml::Value>(text).map_err(|e| e.to_string())
}

/// Parses a text with `serde_json::from_str`. The contract only names the result.
#[verifier::external_body]
pub(crate) fn parse_json(text: &str) -> (r: Result<serde_json::Value, String>)
    ensures
        match r {
            Ok(value) => json_document(text@) == Ok::<ValueModel, Seq<char>>(json_content(value)),
            Err(message) => json_document(text@) == Err::<ValueModel, Seq<char>>(message@),
        },
{
    serde_json::from_str::<serde_json::Value>(text).map_err(|e| e.to_string())
}

/// Parses a text with `ron::from_str`. The contract names the result as what
/// the value that comes out holds when it is read as JSON.
#[verifier::external_body]
pub(crate) fn parse_ron(text: &str) -> (r: Result<ron::Value, String>)
    ensures
        match r {
            Ok(value) => ron_document(text@) == ron_as_json(value),
            Err(message) => ron_document(text@) == Err::<ValueModel, Seq<char>>(message@),
        },
{
    ron::from_str::<ron::Value>(text).map_err(|e| e.to_string())
}

/// Has `ron::Value::into_rust` turn a RON value into one of `serde_json`, which
/// holds what the formats have in common: an option stands for what it holds
/// or for null, a unit for null, a character for a string, and a map with a
/// key that is no string is an error. The contract only names the result.
#[verifier::external_body]
pub(crate) fn ron_into_json(value: ron::Value) -> (r: Result<serde_json::Value, String>)
    ensures
        match r {
            Ok(json) => ron_as_json(value) == Ok::<ValueModel, Seq<char>>(json_content(json)),
            Err(message) => ron_as_json(value) == Err::<ValueModel, Seq<char>>(message@),
        },
{
    value.into_rust::<serde_json::Value>().map_err(|e| e.to_string())
}

/// Takes a TOML value apart, one variant of `toml::Value` to one kind of node. A
/// float is handed out as its bits and a date-time as `Display` writes it. The
/// contract states that the value holds what the node holds, whatever the
/// items and entries of the node hold in turn, and that the entries of a table
/// have distinct keys, as those of `toml::Table` do.
#[verifier::external_body]
fn toml_node(value: toml::Value) -> (node: Node<toml::Value>)
    ensures
        held(node, |v: toml::Value| toml_content(v)) == toml_content(value),
        distinct(node),
{
    match value {
        toml::Value::String(s) => Node::String(s),
        toml::Value::Integer(i) => Node::Integer(i),
        toml::Value::Float(f) => Node::Float(f.to_bits()),
        toml::Value::Boolean(b) => Node::Bool(b),
        toml::Value::Datetime(d) => Node::Datetime(d.to_string()),
        toml::Value::Array(items) => Node::Array(items),
        toml::Value::Table(entries) => Node::Table(entries.into_iter().collect()),
    }
}

/// Takes a JSON value apart, one variant of `serde_json::Value` to one kind of
/// node. A number is handed out as what it is held as: an unsigned integer
/// (`as_u64`), a negative integer (`as_i64`) or the bits of a float. The
/// contract states that the value
/// holds what the node holds, whatever the items and entries of the node hold
/// in turn, and that the entries of an object have distinct keys, as those of
/// `serde_json::Map` do.
#[verifier::external_body]
fn json_node(value: serde_json::Value) -> (node: Node<serde_json::Value>)
    ensures
        held(node, |v: serde_json::Value| json_content(v)) == json_content(value),
        distinct(node),
{
    match value {
        serde_json::Value::Null => Node::Null,
        serde_json::Value::Bool(b) => Node::Bool(b),
        serde_json::Value::Number(n) => match (n.as_u64(), n.as_i64()) {
            (Some(u), _) => Node::Unsigned(u),
            (None, Some(i)) => Node::Integer(i),
            (None, None) => Node::Float(n.as_f64().unwrap_or_default().to_bits()),
        },
        serde_json::Value::String(s) => Node::String(s),
        serde_json::Value::Array(items) => Node::Array(items),
        serde_json::Value::Object(entries) => Node::Table(entries.into_iter().collect()),
    }
}

/// Puts values that were built last to first back into their order.
fn restored(reversed: Vec<GenericValue>) -> (r: Vec<GenericValue>)
    ensures
        r@.len() == reversed@.len(),
        forall|i: int| 0 <= i < r@.len() ==> #[trigger] r@[i] == reversed@[reversed@.len() - 1 - i],
{
    let ghost all = reversed@;
    let mut rest = reversed;
    let mut out: Vec<GenericValue> = Vec::new();
    while rest.len() > 0
        invariant
            rest@ == all.take(rest.len() as int),
            rest.len() <= all.len(),
            out@.len() == all.len() - rest.len(),
            forall|i: int| 0 <= i < out@.len() ==> #[trigger] out@[i] == all[all.len() - 1 - i],
        decreases rest.len(),
    {
        let value = rest.pop().unwrap();
        out.push(value);
        assert(rest@ =~= all.take(rest.len() as int));
    }
    out
}

/// Builds the value that a TOML value holds.
pub fn from_toml(value: toml::Value) -> (r: GenericValue)
    ensures
        r@ == toml_content(value),
    decreases toml_content(value),
{
    let ghost content = |v: toml::Value| toml_content(v);
    match toml_node(value) {
        Node::Null => GenericValue::Null,
        Node::Bool(b) => GenericValue::Bool(b),
        Node::Integer(i) => GenericValue::Integer(i as i128),
        Node::Unsigned(u) => GenericValue::Integer(u as i128),
        Node::Float(bits) => GenericValue::Float(bits),
        Node::String(s) => GenericValue::String(s),
        Node::Datetime(s) => GenericValue::Datetime(s),
        Node::Array(items) => {
            let ghost all = items@;
            let ghost whole = Seq::new(all.len(), |i: int| content(all[i]));
            assert(toml_content(value) == ValueModel::Array(whole));
            let mut rest = items;
            let mut reversed: Vec<GenericValue> = Vec::new();
            while rest.len() > 0
                invariant
                    rest@ == all.take(rest.len() as int),
                    rest.len() <= all.len(),
                    toml_content(value) == ValueModel::Array(whole),
                    whole == Seq::new(all.len(), |i: int| toml_content(all[i])),
                    reversed@.len() == all.len() - rest.len(),
                    forall|i: int|
                        0 <= i < reversed@.len() ==> (#[trigger] reversed@[i])@ == toml_content(
                            all[all.len() - 1 - i],
                        ),
                decreases rest.len(),
            {
                let ghost n = rest.len() as int;
                let item = rest.pop().unwrap();
                assert(item == all[n - 1]);
                assert(whole[n - 1] == toml_content(item));
                assert(decreases_to!(toml_content(value) => toml_content(value)->Array_0));
                assert(decreases_to!(whole => whole[n - 1]));
                reversed.push(from_toml(item));
                assert(rest@ =~= all.take(rest.len() as int));
            }
            let built = restored(reversed);
            let r = GenericValue::Array(built);
            assert(r@->Array_0 =~= whole);
            r
        },
        Node::Table(entries) => {
            let ghost all = entries@;
            let ghost whole = entries_map(all).map_values(content);
            assert(toml_content(value) == ValueModel::Table(whole));
            let mut rest = entries;
            let mut table = Table::new();
            assert(all.take(all.len() as int) =~= all);
            assert(table@ =~= entries_map(all.skip(all.len() as int)).map_values(content));
            while rest.len() > 0
                invariant
                    rest@ == all.take(rest.len() as int),
                    rest.len() <= all.len(),
                    unique_keys(all),
                    toml_content(value) == ValueModel::Table(whole),
                    whole == entries_map(all).map_values(content),
                    content == (|v: toml::Value| toml_content(v)),
                    table@ == entries_map(all.skip(rest.len() as int)).map_values(content),
                decreases rest.len(),
            {
                let ghost n = rest.len() as int;
                let (key, item) = rest.pop().unwrap();
                proof {
                    assert(key == all[n - 1].0 && item == all[n - 1].1);
                    lemma_last_map(all, n - 1);
                    assert(whole.dom().contains(key@));
                    assert(whole[key@] == toml_content(item));
                    lemma_entries_map_finite(all);
                    assert(whole.dom() =~= entries_map(all).dom());
                    assert(decreases_to!(toml_content(value) => toml_content(value)->Table_0));
                    assert(decreases_to!(whole => whole[key@]));
                }
                table.insert(key, from_toml(item));
                assert(rest@ =~= all.take(rest.len() as int));
                assert(table@ =~= entries_map(all.skip(n - 1)).map_values(content));
            }
            assert(all.skip(0) =~= all);
            GenericValue::Table(table)
        },
    }
}

/// Builds the value that a JSON value holds.
pub fn from_json(value: serde_json::Value) -> (r: GenericValue)
    ensures
        r@ == json_content(value),
    decreases json_content(value),
{
    let ghost content = |v: serde_json::Value| json_content(v);
    match json_node(value) {
        Node::Null => GenericValue::Null,
        Node::Bool(b) => GenericValue::Bool(b),
        Node::Integer(i) => GenericValue::Integer(i as i128),
        Node::Unsigned(u) => GenericValue::Integer(u as i128),
        Node::Float(bits) => GenericValue::Float(bits),
        Node::String(s) => GenericValue::String(s),
        Node::Datetime(s) => GenericValue::Datetime(s),
        Node::Array(items) => {
            let ghost all = items@;
            let ghost whole = Seq::new(all.len(), |i: int| content(all[i]));
            assert(json_content(value) == ValueModel::Array(whole));
            let mut rest = items;
            let mut reversed: Vec<GenericValue> = Vec::new();
            while rest.len() > 0
                invariant
                    rest@ == all.take(rest.len() as int),
                    rest.len() <= all.len(),
                    json_content(value) == ValueModel::Array(whole),
                    whole == Seq::new(all.len(), |i: int| json_content(all[i])),
                    reversed@.len() == all.len() - rest.len(),
                    forall|i: int|
                        0 <= i < reversed@.len() ==> (#[trigger] reversed@[i])@ == json_content(
                            all[all.len() - 1 - i],
                        ),
                decreases rest.len(),
            {
                let ghost n = rest.len() as int;
                let item = rest.pop().unwrap();
                assert(item == all[n - 1]);
                assert(whole[n - 1] == json_content(item));
                assert(decreases_to!(json_content(value) => json_content(value)->Array_0));
                assert(decreases_to!(whole => whole[n - 1]));
                reversed.push(from_json(item));
                assert(rest@ =~= all.take(rest.len() as int));
            }
            let built = restored(reversed);
            let r = GenericValue::Array(built);
            assert(r@->Array_0 =~= whole);
            r
        },
        Node::Table(entries) => {
            let ghost all = entries@;
            let ghost whole = entries_map(all).map_values(content);
            assert(json_content(value) == ValueModel::Table(whole));
            let mut rest = entries;
            let mut table = Table::new();
            assert(all.take(all.len() as int) =~= all);
            assert(table@ =~= entries_map(all.skip(all.len() as int)).map_values(content));
            while rest.len() > 0
                invariant
                    rest@ == all.take(rest.len() as int),
                    rest.len() <= all.len(),
                    unique_keys(all),
                    json_content(value) == ValueModel::Table(whole),
                    whole == entries_map(all).map_values(content),
                    content == (|v: serde_json::Value| json_content(v)),
                    table@ == entries_map(all.skip(rest.len() as int)).map_values(content),
                decreases rest.len(),
            {
                let ghost n = rest.len() as int;
                let (key, item) = rest.pop().unwrap();
                proof {
                    assert(key == all[n - 1].0 && item == all[n - 1].1);
                    lemma_last_map(all, n - 1);
                    assert(whole.dom().contains(key@));
                    assert(whole[key@] == json_content(item));
                    lemma_entries_map_finite(all);
                    assert(whole.dom() =~= entries_map(all).dom());
                    assert(decreases_to!(json_content(value) => json_content(value)->Table_0));
                    assert(decreases_to!(whole => whole[key@]));
                }
                table.insert(key, from_json(item));
                assert(rest@ =~= all.take(rest.len() as int));
                assert(table@ =~= entries_map(all.skip(n - 1)).map_values(content));
            }
            assert(all.skip(0) =~= all);
            GenericValue::Table(table)
        },
    }
}

} // verus!
