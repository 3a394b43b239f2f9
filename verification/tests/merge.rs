use bevy_materialize::load::deserializer::{
    JsonMaterialDeserializer, MaterialDeserializer, RonMaterialDeserializer,
    TomlMaterialDeserializer,
};
use bevy_materialize::value::{merge_value, Table, GenericValue};

fn text(s: &str) -> GenericValue {
    GenericValue::String(s.to_string())
}

fn table(entries: Vec<(&str, GenericValue)>) -> GenericValue {
    let mut t = Table::new();
    for (key, value) in entries {
        t.insert(key.to_string(), value);
    }
    GenericValue::Table(t)
}

fn get<'a>(value: &'a GenericValue, key: &str) -> Option<&'a GenericValue> {
    match value {
        GenericValue::Table(t) => t.get(key),
        _ => None,
    }
}

fn sample() -> GenericValue {
    table(vec![
        ("base_color", table(vec![("red", GenericValue::Float(1.0f64.to_bits())), ("green", GenericValue::Float(0.5f64.to_bits()))])),
        ("unlit", GenericValue::Bool(false)),
        ("layers", GenericValue::Array(vec![GenericValue::Integer(1), GenericValue::Integer(2)])),
        ("texture", text("stone.png")),
        ("nothing", GenericValue::Null),
    ])
}

#[test]
fn merging_a_value_with_itself_changes_nothing() {
    let mut value = sample();
    merge_value(&mut value, sample());
    assert!(value.same(&sample()));

    let mut scalar = GenericValue::Integer(7);
    merge_value(&mut scalar, GenericValue::Integer(7));
    assert!(scalar.same(&GenericValue::Integer(7)));

    let mut array = GenericValue::Array(vec![text("a"), sample()]);
    merge_value(&mut array, GenericValue::Array(vec![text("a"), sample()]));
    assert!(array.same(&GenericValue::Array(vec![text("a"), sample()])));
}

#[test]
fn keys_of_the_source_alone_are_added() {
    let mut target = table(vec![("a", GenericValue::Integer(1))]);
    merge_value(&mut target, table(vec![("b", GenericValue::Integer(2))]));
    assert!(get(&target, "a").unwrap().same(&GenericValue::Integer(1)));
    assert!(get(&target, "b").unwrap().same(&GenericValue::Integer(2)));
    assert!(target.same(&table(vec![("b", GenericValue::Integer(2)), ("a", GenericValue::Integer(1))])));
}

#[test]
fn tables_under_a_shared_key_are_merged_not_overwritten() {
    let mut target = table(vec![(
        "base_color",
        table(vec![("red", GenericValue::Integer(1)), ("green", GenericValue::Integer(2))]),
    )]);
    let source = table(vec![(
        "base_color",
        table(vec![("green", GenericValue::Integer(20)), ("blue", GenericValue::Integer(30))]),
    )]);
    merge_value(&mut target, source);
    let expected = table(vec![(
        "base_color",
        table(vec![
            ("red", GenericValue::Integer(1)),
            ("green", GenericValue::Integer(20)),
            ("blue", GenericValue::Integer(30)),
        ]),
    )]);
    assert!(target.same(&expected));
}

#[test]
fn scalars_and_arrays_are_overwritten_by_the_source() {
    let mut target = table(vec![
        ("unlit", GenericValue::Bool(false)),
        ("layers", GenericValue::Array(vec![GenericValue::Integer(1), GenericValue::Integer(2), GenericValue::Integer(3)])),
    ]);
    let source = table(vec![
        ("unlit", GenericValue::Bool(true)),
        ("layers", GenericValue::Array(vec![GenericValue::Integer(9)])),
    ]);
    merge_value(&mut target, source);
    assert!(get(&target, "unlit").unwrap().same(&GenericValue::Bool(true)));
    assert!(get(&target, "layers").unwrap().same(&GenericValue::Array(vec![GenericValue::Integer(9)])));
}

#[test]
fn mismatched_kinds_are_overwritten_by_the_source() {
    let mut target = table(vec![("a", GenericValue::Integer(1))]);
    merge_value(&mut target, text("plain"));
    assert!(target.same(&text("plain")));

    let mut scalar = text("plain");
    merge_value(&mut scalar, table(vec![("a", GenericValue::Integer(1))]));
    assert!(scalar.same(&table(vec![("a", GenericValue::Integer(1))])));

    let mut nested = table(vec![("a", table(vec![("x", GenericValue::Integer(1))]))]);
    merge_value(&mut nested, table(vec![("a", GenericValue::Null)]));
    assert!(get(&nested, "a").unwrap().same(&GenericValue::Null));
}

#[test]
fn merge_is_not_commutative() {
    let mut one = table(vec![("a", GenericValue::Integer(1))]);
    merge_value(&mut one, table(vec![("a", GenericValue::Integer(2))]));
    let mut two = table(vec![("a", GenericValue::Integer(2))]);
    merge_value(&mut two, table(vec![("a", GenericValue::Integer(1))]));
    assert!(get(&one, "a").unwrap().same(&GenericValue::Integer(2)));
    assert!(get(&two, "a").unwrap().same(&GenericValue::Integer(1)));
    assert!(!one.same(&two));
}

#[test]
fn deep_equality_ignores_the_order_of_table_entries_only() {
    let left = table(vec![("a", GenericValue::Integer(1)), ("b", text("x"))]);
    let right = table(vec![("b", text("x")), ("a", GenericValue::Integer(1))]);
    assert!(left.same(&right));
    assert!(!left.same(&table(vec![("a", GenericValue::Integer(1))])));
    assert!(!table(vec![("a", GenericValue::Integer(1))]).same(&left));
    assert!(!left.same(&table(vec![("a", GenericValue::Integer(1)), ("b", text("y"))])));
    assert!(!left.same(&table(vec![("a", GenericValue::Integer(1)), ("c", text("x"))])));

    let forward = GenericValue::Array(vec![GenericValue::Integer(1), GenericValue::Integer(2)]);
    let backward = GenericValue::Array(vec![GenericValue::Integer(2), GenericValue::Integer(1)]);
    assert!(!forward.same(&backward));
    assert!(!forward.same(&GenericValue::Array(vec![GenericValue::Integer(1)])));
    assert!(!GenericValue::Integer(1).same(&GenericValue::Float(1)));
    assert!(!GenericValue::Null.same(&GenericValue::Bool(false)));
    assert!(!text("a").same(&text("b")));
    assert!(GenericValue::Float(0.25f64.to_bits()).same(&GenericValue::Float(0.25f64.to_bits())));
}

#[test]
fn table_holds_each_key_once() {
    let mut t = Table::new();
    assert!(t.is_empty());
    assert!(t.get("a").is_none());
    t.insert("a".to_string(), GenericValue::Integer(1));
    t.insert("b".to_string(), GenericValue::Integer(2));
    t.insert("a".to_string(), GenericValue::Integer(3));
    assert!(!t.is_empty());
    assert!(t.contains_key("a"));
    assert!(!t.contains_key("c"));
    assert!(t.get("a").unwrap().same(&GenericValue::Integer(3)));
    let mut keys = t.keys();
    keys.sort();
    assert_eq!(keys, vec!["a".to_string(), "b".to_string()]);
    assert_eq!(t.into_entries().len(), 2);
}

#[test]
fn table_merge_unites_the_keys() {
    let mut target = Table::new();
    target.insert("kept".to_string(), GenericValue::Integer(1));
    target.insert("shared".to_string(), GenericValue::Integer(2));
    let mut source = Table::new();
    source.insert("shared".to_string(), GenericValue::Integer(20));
    source.insert("added".to_string(), GenericValue::Integer(30));
    target.merge(source);
    assert!(target.get("kept").unwrap().same(&GenericValue::Integer(1)));
    assert!(target.get("shared").unwrap().same(&GenericValue::Integer(20)));
    assert!(target.get("added").unwrap().same(&GenericValue::Integer(30)));
    assert_eq!(target.keys().len(), 3);
}

#[test]
fn every_format_merges_alike_and_names_its_extensions() {
    let expected = table(vec![("a", GenericValue::Integer(2)), ("b", GenericValue::Integer(3))]);

    let mut toml = table(vec![("a", GenericValue::Integer(1))]);
    TomlMaterialDeserializer.merge_value(&mut toml, table(vec![("a", GenericValue::Integer(2)), ("b", GenericValue::Integer(3))]));
    assert!(toml.same(&expected));
    assert_eq!(
        TomlMaterialDeserializer.extensions(),
        vec!["toml", "mat", "mat.toml", "material", "material.toml"]
    );

    let mut json = table(vec![("a", GenericValue::Integer(1))]);
    JsonMaterialDeserializer.merge_value(&mut json, table(vec![("a", GenericValue::Integer(2)), ("b", GenericValue::Integer(3))]));
    assert!(json.same(&expected));
    assert_eq!(
        JsonMaterialDeserializer.extensions(),
        vec!["json", "mat", "mat.json", "material", "material.json"]
    );

    let mut ron = table(vec![("a", GenericValue::Integer(1))]);
    RonMaterialDeserializer.merge_value(&mut ron, table(vec![("a", GenericValue::Integer(2)), ("b", GenericValue::Integer(3))]));
    assert!(ron.same(&expected));
    assert_eq!(
        RonMaterialDeserializer.extensions(),
        vec!["ron", "mat", "mat.ron", "material", "material.ron"]
    );
}

#[test]
fn copy_is_deep_equal_and_independent() {
    let value = sample();
    let mut copy = value.clone();
    assert!(copy.same(&value));
    merge_value(&mut copy, table(vec![("unlit", GenericValue::Bool(true))]));
    assert!(!copy.same(&value));
    assert!(value.same(&sample()));
    assert!(value.duplicate().same(&value));

    let mut t = Table::new();
    t.insert("a".to_string(), text("x"));
    let u = t.clone();
    t.insert("a".to_string(), text("y"));
    assert!(u.get("a").unwrap().same(&text("x")));
}
