use bevy_materialize::load::deserializer::{
    JsonMaterialDeserializer, MaterialDeserializer, RonMaterialDeserializer,
    TomlMaterialDeserializer, EXPECTED_UTF8,
};
use bevy_materialize::load::error::GenericMaterialLoadError;
use bevy_materialize::load::format::{from_json, from_toml};
use bevy_materialize::load::{
    ParsedGenericMaterial, EXPECTED_INHERITS, EXPECTED_PROPERTIES, EXPECTED_TABLE, EXPECTED_TYPE,
};
use bevy_materialize::value::{GenericValue, Table};

fn text(s: &str) -> GenericValue {
    GenericValue::String(s.to_string())
}

fn table_of(entries: Vec<(&str, GenericValue)>) -> Table {
    let mut t = Table::new();
    for (key, value) in entries {
        t.insert(key.to_string(), value);
    }
    t
}

fn table(entries: Vec<(&str, GenericValue)>) -> GenericValue {
    GenericValue::Table(table_of(entries))
}

fn message_of(r: Result<ParsedGenericMaterial, GenericMaterialLoadError>) -> String {
    match r {
        Err(GenericMaterialLoadError::Deserialize(message)) => message,
        _ => panic!("a failure to read was expected"),
    }
}

#[test]
fn toml_values_keep_their_content() {
    let parsed: toml::Value = toml::from_str(
        r#"
string = "text"
integer = -3
float = 0.5
boolean = true
date = 1979-05-27T07:32:00Z
array = [1, "two", [3]]

[table]
inner = { deep = "x" }
"#,
    )
    .unwrap();
    let expected = table(vec![
        ("string", text("text")),
        ("integer", GenericValue::Integer(-3)),
        ("float", GenericValue::Float(0.5f64.to_bits())),
        ("boolean", GenericValue::Bool(true)),
        ("date", GenericValue::Datetime("1979-05-27T07:32:00Z".to_string())),
        (
            "array",
            GenericValue::Array(vec![
                GenericValue::Integer(1),
                text("two"),
                GenericValue::Array(vec![GenericValue::Integer(3)]),
            ]),
        ),
        ("table", table(vec![("inner", table(vec![("deep", text("x"))]))])),
    ]);
    assert!(from_toml(parsed).same(&expected));
    assert!(from_toml(toml::Value::Integer(4)).same(&GenericValue::Integer(4)));
    assert!(from_toml(toml::Value::Array(Vec::new())).same(&GenericValue::Array(Vec::new())));
}

#[test]
fn json_values_keep_their_content() {
    let parsed: serde_json::Value = serde_json::from_str(
        r#"{
            "null": null,
            "string": "text",
            "integer": -3,
            "large": 18446744073709551615,
            "float": 0.5,
            "boolean": false,
            "array": [1, "two", [3], {"k": null}],
            "object": {"inner": {"deep": "x"}}
        }"#,
    )
    .unwrap();
    let expected = table(vec![
        ("null", GenericValue::Null),
        ("string", text("text")),
        ("integer", GenericValue::Integer(-3)),
        ("large", GenericValue::Integer(18446744073709551615)),
        ("float", GenericValue::Float(0.5f64.to_bits())),
        ("boolean", GenericValue::Bool(false)),
        (
            "array",
            GenericValue::Array(vec![
                GenericValue::Integer(1),
                text("two"),
                GenericValue::Array(vec![GenericValue::Integer(3)]),
                table(vec![("k", GenericValue::Null)]),
            ]),
        ),
        ("object", table(vec![("inner", table(vec![("deep", text("x"))]))])),
    ]);
    assert!(from_json(parsed).same(&expected));
    assert!(from_json(serde_json::Value::Null).same(&GenericValue::Null));
}

#[test]
fn numbers_and_date_times_keep_what_sets_them_apart() {
    let parse = |text: &str| from_json(serde_json::from_str::<serde_json::Value>(text).unwrap());
    assert!(parse("18446744073709551615").same(&GenericValue::Integer(18446744073709551615)));
    assert!(!parse("18446744073709551615").same(&parse("18446744073709551614")));
    assert!(!parse("18446744073709551615").same(&parse("18446744073709551615.0")));
    assert!(parse("-9223372036854775808").same(&GenericValue::Integer(-9223372036854775808)));
    assert!(parse("7").same(&GenericValue::Integer(7)));
    assert!(parse("7.5").same(&GenericValue::Float(7.5f64.to_bits())));

    let date: toml::Value = toml::from_str("at = 1979-05-27").unwrap();
    let written: toml::Value = toml::from_str("at = \"1979-05-27\"").unwrap();
    assert!(!from_toml(date).same(&from_toml(written)));
}

#[test]
fn ron_values_are_read_as_their_content() {
    let material = RonMaterialDeserializer
        .deserialize(br#"(material: Some({ "a": Some(1), "b": None, "c": (), "d": 'x', "e": [1.5, -2] }))"#)
        .ok()
        .unwrap();
    let expected = table(vec![
        ("a", GenericValue::Integer(1)),
        ("b", GenericValue::Null),
        ("c", GenericValue::Null),
        ("d", text("x")),
        ("e", GenericValue::Array(vec![GenericValue::Float(1.5f64.to_bits()), GenericValue::Integer(-2)])),
    ]);
    assert!(material.material.unwrap().same(&expected));
}

#[test]
fn toml_file_holds_a_material() {
    let material = TomlMaterialDeserializer
        .deserialize(
            br#"
inherits = "base.toml"
type = "StandardMaterial"
unknown = 5

[material]
unlit = true

[properties]
collision = false
"#,
        )
        .ok()
        .unwrap();
    assert_eq!(material.inherits, Some("base.toml".to_string()));
    assert_eq!(material.ty, Some("StandardMaterial".to_string()));
    assert!(material.material.unwrap().same(&table(vec![("unlit", GenericValue::Bool(true))])));
    let properties = material.properties.unwrap();
    assert_eq!(properties.len(), 1);
    assert!(properties.get("collision").unwrap().same(&GenericValue::Bool(false)));
}

#[test]
fn empty_file_holds_an_empty_material() {
    let material = TomlMaterialDeserializer.deserialize(b"").ok().unwrap();
    assert!(material.inherits.is_none());
    assert!(material.ty.is_none());
    assert!(material.material.is_none());
    assert!(material.properties.is_none());
}

#[test]
fn json_file_holds_a_material() {
    let material = JsonMaterialDeserializer
        .deserialize(br#"{"inherits": null, "type": "Foo", "material": [1, 2], "properties": {}}"#)
        .ok()
        .unwrap();
    assert!(material.inherits.is_none());
    assert_eq!(material.ty, Some("Foo".to_string()));
    assert!(material
        .material
        .unwrap()
        .same(&GenericValue::Array(vec![GenericValue::Integer(1), GenericValue::Integer(2)])));
    assert!(material.properties.unwrap().is_empty());

    let nothing = JsonMaterialDeserializer
        .deserialize(br#"{"material": null, "properties": null}"#)
        .ok()
        .unwrap();
    assert!(nothing.material.is_none());
    assert!(nothing.properties.is_none());
}

#[test]
fn ron_file_holds_a_material() {
    let material = RonMaterialDeserializer
        .deserialize(
            br#"(
                inherits: Some("base.ron"),
                type: None,
                material: { "unlit": true, "scale": 2.5 },
                properties: Some({ "sounds": 'w' }),
            )"#,
        )
        .ok()
        .unwrap();
    assert_eq!(material.inherits, Some("base.ron".to_string()));
    assert!(material.ty.is_none());
    assert!(material.material.unwrap().same(&table(vec![
        ("unlit", GenericValue::Bool(true)),
        ("scale", GenericValue::Float(2.5f64.to_bits())),
    ])));
    let properties = material.properties.unwrap();
    assert_eq!(properties.len(), 1);
    assert!(properties.get("sounds").unwrap().same(&text("w")));
}

#[test]
fn text_that_does_not_parse_is_reported() {
    assert!(!message_of(TomlMaterialDeserializer.deserialize(b"type = ")).is_empty());
    assert!(!message_of(JsonMaterialDeserializer.deserialize(b"{\"type\": }")).is_empty());
    assert!(!message_of(RonMaterialDeserializer.deserialize(b"(type: ")).is_empty());
    assert!(!message_of(JsonMaterialDeserializer.deserialize(b"")).is_empty());
    assert!(!message_of(RonMaterialDeserializer.deserialize(b"{1: 2}")).is_empty());
}

#[test]
fn bytes_that_are_not_utf8_are_reported() {
    let bytes = [b't', b'y', 0xff, 0xfe];
    assert_eq!(message_of(TomlMaterialDeserializer.deserialize(&bytes)), EXPECTED_UTF8);
    assert_eq!(message_of(JsonMaterialDeserializer.deserialize(&bytes)), EXPECTED_UTF8);
    assert_eq!(message_of(RonMaterialDeserializer.deserialize(&bytes)), EXPECTED_UTF8);
}

#[test]
fn fields_of_the_wrong_kind_are_reported() {
    assert_eq!(message_of(TomlMaterialDeserializer.deserialize(b"inherits = 5")), EXPECTED_INHERITS);
    assert_eq!(message_of(TomlMaterialDeserializer.deserialize(b"type = [\"a\"]")), EXPECTED_TYPE);
    assert_eq!(
        message_of(TomlMaterialDeserializer.deserialize(b"properties = \"none\"")),
        EXPECTED_PROPERTIES
    );
    assert_eq!(message_of(JsonMaterialDeserializer.deserialize(b"[1, 2]")), EXPECTED_TABLE);
    assert_eq!(message_of(JsonMaterialDeserializer.deserialize(b"null")), EXPECTED_TABLE);
    // the first field that fails is the one reported
    assert_eq!(
        message_of(JsonMaterialDeserializer.deserialize(br#"{"properties": 1, "type": 2, "inherits": 3}"#)),
        EXPECTED_INHERITS
    );
    assert_eq!(
        message_of(JsonMaterialDeserializer.deserialize(br#"{"properties": 1, "type": 2}"#)),
        EXPECTED_TYPE
    );
}

#[test]
fn material_is_read_from_a_value() {
    let root = table(vec![
        ("inherits", text("a.toml")),
        ("type", GenericValue::Null),
        ("material", text("anything")),
        ("properties", table(vec![("k", GenericValue::Integer(1))])),
        ("more", GenericValue::Integer(2)),
    ]);
    let material = ParsedGenericMaterial::from_value(root).ok().unwrap();
    assert_eq!(material.inherits, Some("a.toml".to_string()));
    assert!(material.ty.is_none());
    assert!(material.material.unwrap().same(&text("anything")));
    assert!(material.properties.unwrap().get("k").unwrap().same(&GenericValue::Integer(1)));
    assert_eq!(message_of(ParsedGenericMaterial::from_value(text("plain"))), EXPECTED_TABLE);
}

#[test]
fn table_gives_up_what_is_removed() {
    let mut t = table_of(vec![("a", GenericValue::Integer(1)), ("b", GenericValue::Integer(2)), ("c", GenericValue::Integer(3))]);
    assert!(t.remove("b").unwrap().same(&GenericValue::Integer(2)));
    assert!(t.remove("b").is_none());
    assert!(t.remove("x").is_none());
    assert!(GenericValue::Table(t).same(&table(vec![("a", GenericValue::Integer(1)), ("c", GenericValue::Integer(3))])));
}
