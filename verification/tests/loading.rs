use bevy_materialize::load::asset::AssetLoadingProcessor;
use bevy_materialize::load::deserializer::{
    JsonMaterialDeserializer, MaterialDeserializer, RonMaterialDeserializer,
    TomlMaterialDeserializer,
};
use bevy_materialize::load::error::GenericMaterialLoadError;
use bevy_materialize::load::processor::{MaterialProcessor, MaterialProcessorContext, Substitute};
use bevy_materialize::load::{GenericMaterialLoader, MaterialPlan};
use bevy_materialize::reflect::TypeDescriptor;
use bevy_materialize::value::{Table, GenericValue};

const FILES: [(&str, &str); 14] = [
    (
        "materials/example.material.toml",
        r#"
type = "StandardMaterial"

[material]
base_color = { Srgba = { red = 1.0, green = 0.5, blue = 0.25, alpha = 1.0 } }
base_color_texture = "${name}_base.png"
perceptual_roughness = 0.8
unlit = false

[properties]
collision = true
sounds = "wood"
"#,
    ),
    (
        "materials/sub-material.toml",
        r#"
inherits = "example.material.toml"

[material]
perceptual_roughness = 0.25
base_color = { Srgba = { green = 1.0 } }

[properties]
sounds = "metal"
"#,
    ),
    (
        "materials/animated.toml",
        r#"
inherits = "/materials/sub-material.toml"

[material]
emissive_texture = "animated/${name}_1.png"

[properties.animation]
next = { fps = 5, value = "animated.toml" }
"#,
    ),
    (
        "materials/example.material.json",
        r#"
{
    "type": "StandardMaterial",
    "material": {
        "base_color": { "Srgba": { "red": 1.0, "green": 0.5, "blue": 0.25, "alpha": 1.0 } },
        "base_color_texture": "${name}_base.png",
        "layers": [1, 2, 3],
        "unlit": false
    },
    "properties": {
        "collision": true,
        "sounds": null
    }
}
"#,
    ),
    (
        "materials/example.material.ron",
        r#"
(
    type: Some("StandardMaterial"),
    material: Some({
        "base_color_texture": "${name}_base.png",
        "unlit": false,
    }),
    properties: Some({
        "collision": true,
    }),
)
"#,
    ),
    ("materials/loop-a.toml", "inherits = \"loop-b.toml\"\n"),
    ("materials/loop-b.toml", "inherits = \"loop-a.toml\"\n"),
    ("materials/broken-parent.toml", "inherits = \"broken.toml\"\n"),
    ("materials/bad-grandchild.toml", "inherits = \"bad-child.toml\"\n"),
    ("materials/bad-child.toml", "inherits = [1, 2]\n"),
    ("dir/a.toml", "inherits = \"sub/b.toml\"\n[material]\nfrom_a = \"${name}\"\n"),
    ("dir/sub/b.toml", "inherits = \"c.toml\"\n[material]\nfrom_b = \"${name}\"\n"),
    ("dir/sub/c.toml", "[material]\nfrom_c = \"${name}\"\nwhere = \"dir/sub\"\n"),
    ("dir/c.toml", "[material]\nfrom_c = \"${name}\"\nwhere = \"dir\"\n"),
];

fn read(path: &str) -> Result<Vec<u8>, String> {
    for (name, text) in FILES {
        if name == path {
            return Ok(text.as_bytes().to_vec());
        }
    }
    Err(format!("no file at {}", path))
}

fn load_with<D: MaterialDeserializer>(
    loader: &GenericMaterialLoader,
    deserializer: &D,
    path: &str,
) -> Result<MaterialPlan, GenericMaterialLoadError> {
    let bytes = read(path).map_err(GenericMaterialLoadError::Io)?;
    let mut queue = loader.start(deserializer, path.to_string(), bytes)?;
    while let Some(parent) = queue.next_request()? {
        let bytes = read(&parent);
        queue.push_read(loader, deserializer, parent, bytes)?;
    }
    let resolved = match queue.finish() {
        Ok(resolved) => resolved,
        Err(_) => unreachable!(),
    };
    loader.plan(resolved)
}

fn load(loader: &GenericMaterialLoader, path: &str) -> Result<MaterialPlan, GenericMaterialLoadError> {
    if path.ends_with(".json") {
        load_with(loader, &JsonMaterialDeserializer, path)
    } else if path.ends_with(".ron") {
        load_with(loader, &RonMaterialDeserializer, path)
    } else {
        load_with(loader, &TomlMaterialDeserializer, path)
    }
}

fn descriptor(id: u64, type_path: &str, short_type_path: &str) -> TypeDescriptor {
    TypeDescriptor {
        id,
        type_path: type_path.to_string(),
        short_type_path: short_type_path.to_string(),
        sub_asset: false,
        from_reflect: true,
    }
}

fn create_loading_test_loader() -> GenericMaterialLoader {
    let mut loader = GenericMaterialLoader::new();
    loader.type_registry.register(descriptor(
        1,
        "bevy_pbr::pbr_material::StandardMaterial",
        "StandardMaterial",
    ));
    loader.type_registry.register(descriptor(
        2,
        "bevy_asset::handle::Handle<bevy_image::image::Image>",
        "Handle<Image>",
    ));
    assert!(loader.type_registry.register_sub_asset(2));
    loader.register_material_property_manual("collision".to_string(), descriptor(3, "bool", "bool"));
    loader.register_material_property_manual(
        "sounds".to_string(),
        descriptor(4, "alloc::string::String", "String"),
    );
    loader.register_material_property_manual(
        "animation".to_string(),
        descriptor(5, "bevy_materialize::animation::MaterialAnimations", "MaterialAnimations"),
    );
    loader
}

fn field<'a>(plan: &'a MaterialPlan, key: &str) -> &'a GenericValue {
    match plan.material.as_ref().unwrap() {
        GenericValue::Table(table) => table.get(key).unwrap(),
        _ => panic!("the body of a material is a table"),
    }
}

fn property<'a>(plan: &'a MaterialPlan, key: &str) -> &'a GenericValue {
    &plan.properties.iter().find(|p| p.key == key).unwrap().value
}

fn srgba(red: f64, green: f64, blue: f64, alpha: f64) -> GenericValue {
    let mut channels = Table::new();
    channels.insert("red".to_string(), GenericValue::Float(red.to_bits()));
    channels.insert("green".to_string(), GenericValue::Float(green.to_bits()));
    channels.insert("blue".to_string(), GenericValue::Float(blue.to_bits()));
    channels.insert("alpha".to_string(), GenericValue::Float(alpha.to_bits()));
    let mut color = Table::new();
    color.insert("Srgba".to_string(), GenericValue::Table(channels));
    GenericValue::Table(color)
}

#[test]
fn load_toml() {
    let loader = create_loading_test_loader();

    let animated = load(&loader, "materials/animated.toml").unwrap_or_else(|_| panic!("animated.toml"));
    assert_eq!(animated.registration.id, 1);
    // `${name}` is the name of the file that holds it, in an ancestor too
    assert!(field(&animated, "base_color_texture").same(&GenericValue::String("example_base.png".to_string())));
    assert!(field(&animated, "emissive_texture").same(&GenericValue::String("animated/animated_1.png".to_string())));
    assert!(field(&animated, "perceptual_roughness").same(&GenericValue::Float(0.25f64.to_bits())));
    assert!(field(&animated, "base_color").same(&srgba(1.0, 1.0, 0.25, 1.0)));
    assert!(property(&animated, "collision").same(&GenericValue::Bool(true)));
    assert!(property(&animated, "sounds").same(&GenericValue::String("metal".to_string())));
    assert_eq!(animated.properties.len(), 3);

    let example = load(&loader, "materials/example.material.toml").unwrap_or_else(|_| panic!("example"));
    assert!(field(&example, "base_color_texture").same(&GenericValue::String("example_base.png".to_string())));
    assert!(field(&example, "perceptual_roughness").same(&GenericValue::Float(0.8f64.to_bits())));
    assert!(field(&example, "base_color").same(&srgba(1.0, 0.5, 0.25, 1.0)));
    assert!(property(&example, "sounds").same(&GenericValue::String("wood".to_string())));

    let sub = load(&loader, "materials/sub-material.toml").unwrap_or_else(|_| panic!("sub-material"));
    assert_eq!(sub.registration.type_path, "bevy_pbr::pbr_material::StandardMaterial");
    assert!(field(&sub, "base_color_texture").same(&GenericValue::String("example_base.png".to_string())));
    assert!(field(&sub, "unlit").same(&GenericValue::Bool(false)));
    assert!(property(&sub, "sounds").same(&GenericValue::String("metal".to_string())));
}

#[test]
fn load_json() {
    let loader = create_loading_test_loader();
    let example = load(&loader, "materials/example.material.json").unwrap_or_else(|_| panic!("example"));
    assert_eq!(example.registration.id, 1);
    assert!(field(&example, "base_color_texture").same(&GenericValue::String("example_base.png".to_string())));
    assert!(field(&example, "layers")
        .same(&GenericValue::Array(vec![GenericValue::Integer(1), GenericValue::Integer(2), GenericValue::Integer(3)])));
    assert!(property(&example, "collision").same(&GenericValue::Bool(true)));
    assert!(property(&example, "sounds").same(&GenericValue::Null));
}

#[test]
fn load_materials() {
    let loader = create_loading_test_loader();
    assert!(load(&loader, "materials/animated.toml").is_ok());
    assert!(load(&loader, "materials/example.material.toml").is_ok());
    assert!(load(&loader, "materials/example.material.json").is_ok());
    assert!(load(&loader, "materials/sub-material.toml").is_ok());
}

#[test]
fn load_ron() {
    let loader = create_loading_test_loader();
    let example = load(&loader, "materials/example.material.ron").unwrap_or_else(|_| panic!("example"));
    assert_eq!(example.registration.id, 1);
    assert!(field(&example, "base_color_texture").same(&GenericValue::String("example_base.png".to_string())));
    assert!(property(&example, "collision").same(&GenericValue::Bool(true)));
}

#[test]
fn unregistered_property_fails_the_load() {
    let mut loader = GenericMaterialLoader::new();
    loader.type_registry.register(descriptor(
        1,
        "bevy_pbr::pbr_material::StandardMaterial",
        "StandardMaterial",
    ));
    loader.register_material_property_manual(
        "sounds".to_string(),
        descriptor(4, "alloc::string::String", "String"),
    );
    match load(&loader, "materials/example.material.toml") {
        Err(GenericMaterialLoadError::PropertyNotRegistered(key)) => assert_eq!(key, "collision"),
        _ => panic!("an unregistered property was expected"),
    }
}

#[test]
fn files_that_inherit_each_other_fail_the_load() {
    let loader = create_loading_test_loader();
    match load(&loader, "materials/loop-a.toml") {
        Err(GenericMaterialLoadError::InheritanceCycle(path)) => assert_eq!(path, "materials/loop-a.toml"),
        _ => panic!("a cycle was expected"),
    }
}

#[test]
fn failure_in_a_super_material_names_it() {
    let loader = create_loading_test_loader();
    match load(&loader, "materials/broken-parent.toml") {
        Err(GenericMaterialLoadError::InSuperMaterial(path, inner)) => {
            assert_eq!(path, "broken.toml");
            assert!(matches!(*inner, GenericMaterialLoadError::Io(_)));
        }
        _ => panic!("a failure in the super-material was expected"),
    }
    assert!(matches!(load(&loader, "materials/none.toml"), Err(GenericMaterialLoadError::Io(_))));
}

#[test]
fn parent_is_found_beside_the_file_that_names_it() {
    let loader = create_loading_test_loader();
    let a = load(&loader, "dir/a.toml").unwrap_or_else(|_| panic!("dir/a.toml"));
    assert!(field(&a, "where").same(&GenericValue::String("dir/sub".to_string())));
    assert!(field(&a, "from_a").same(&GenericValue::String("a".to_string())));
    assert!(field(&a, "from_b").same(&GenericValue::String("b".to_string())));
    assert!(field(&a, "from_c").same(&GenericValue::String("c".to_string())));
}

#[test]
fn failure_to_parse_a_super_material_names_it() {
    let loader = create_loading_test_loader();
    match load(&loader, "materials/bad-grandchild.toml") {
        Err(GenericMaterialLoadError::InSuperMaterial(path, inner)) => {
            assert_eq!(path, "bad-child.toml");
            match *inner {
                GenericMaterialLoadError::Deserialize(message) => {
                    assert_eq!(message, "invalid type: `inherits` holds a string")
                }
                _ => panic!("a failure to read was expected"),
            }
        }
        _ => panic!("a failure in the super-material was expected"),
    }
    assert!(matches!(
        load(&loader, "materials/bad-child.toml"),
        Err(GenericMaterialLoadError::Deserialize(_))
    ));
}

#[test]
fn textures_of_a_loaded_material_become_asset_paths() {
    let loader = create_loading_test_loader();
    let sub = load(&loader, "materials/sub-material.toml").unwrap_or_else(|_| panic!("sub-material"));
    let ctx = MaterialProcessorContext { asset_path: "materials/sub-material.toml".to_string() };
    let handle = loader.type_registry.get(2).unwrap();
    let processor = AssetLoadingProcessor(());
    match processor.try_deserialize_recursive(&ctx, handle, field(&sub, "base_color_texture")) {
        Ok(Some(Substitute::Asset(path))) => assert_eq!(path, "materials/example_base.png"),
        _ => panic!("an asset was expected"),
    }
    let plain = loader.type_registry.get(4).unwrap();
    assert!(matches!(
        processor.try_deserialize_recursive(&ctx, plain, field(&sub, "base_color_texture")),
        Ok(None)
    ));
}
