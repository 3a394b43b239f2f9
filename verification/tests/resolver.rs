use bevy_materialize::load::error::GenericMaterialLoadError;
use bevy_materialize::load::{GenericMaterialLoader, STANDARD_MATERIAL_TYPE_PATH};
use bevy_materialize::reflect::{TypeDescriptor, TypeRegistry};

fn descriptor(id: u64, type_path: &str, short_type_path: &str) -> TypeDescriptor {
    TypeDescriptor {
        id,
        type_path: type_path.to_string(),
        short_type_path: short_type_path.to_string(),
        sub_asset: false,
        from_reflect: true,
    }
}

fn loader_with(types: Vec<TypeDescriptor>) -> GenericMaterialLoader {
    let mut loader = GenericMaterialLoader::new();
    for t in types {
        assert!(loader.type_registry.register(t));
    }
    loader
}

#[test]
fn one_type_with_the_short_path_resolves() {
    let loader = loader_with(vec![descriptor(1, "game::Foo", "Foo"), descriptor(2, "game::Bar", "Bar")]);
    let found = loader.resolve_type(Some("Foo")).ok().unwrap();
    assert_eq!(found.id, 1);
    assert_eq!(found.type_path, "game::Foo");
    // asked again, the answer is the same
    assert_eq!(loader.resolve_type(Some("Foo")).ok().unwrap().id, 1);
}

#[test]
fn full_path_resolves_too() {
    let loader = loader_with(vec![descriptor(1, "game::Foo", "Foo"), descriptor(2, "other::Foo", "Foo")]);
    assert_eq!(loader.resolve_type(Some("other::Foo")).ok().unwrap().id, 2);
}

#[test]
fn two_types_with_one_short_path_are_ambiguous() {
    let loader = loader_with(vec![
        descriptor(1, "game::Foo", "Foo"),
        descriptor(2, "game::Bar", "Bar"),
        descriptor(3, "other::Foo", "Foo"),
    ]);
    match loader.resolve_type(Some("Foo")) {
        Err(GenericMaterialLoadError::TooManyTypeCandidates(name, paths)) => {
            assert_eq!(name, "Foo");
            assert_eq!(paths, vec!["game::Foo".to_string(), "other::Foo".to_string()]);
        }
        _ => panic!("an ambiguous type was expected"),
    }
    // and it fails the same way each time
    assert!(matches!(
        loader.resolve_type(Some("Foo")),
        Err(GenericMaterialLoadError::TooManyTypeCandidates(_, _))
    ));
}

#[test]
fn unknown_name_is_not_found() {
    let loader = loader_with(vec![descriptor(1, "game::Foo", "Foo")]);
    match loader.resolve_type(Some("Baz")) {
        Err(GenericMaterialLoadError::MaterialTypeNotFound(name)) => assert_eq!(name, "Baz"),
        _ => panic!("a missing type was expected"),
    }
    let nothing = GenericMaterialLoader::new();
    assert!(matches!(
        nothing.resolve_type(Some("Foo")),
        Err(GenericMaterialLoadError::MaterialTypeNotFound(_))
    ));
}

#[test]
fn absent_name_stands_for_the_standard_material() {
    assert_eq!(STANDARD_MATERIAL_TYPE_PATH, "bevy_pbr::pbr_material::StandardMaterial");
    let loader = loader_with(vec![
        descriptor(1, "game::Foo", "Foo"),
        descriptor(7, "bevy_pbr::pbr_material::StandardMaterial", "StandardMaterial"),
    ]);
    assert_eq!(loader.resolve_type(None).ok().unwrap().id, 7);
    assert_eq!(loader.resolve_type(Some("StandardMaterial")).ok().unwrap().id, 7);

    let without = loader_with(vec![descriptor(1, "game::Foo", "Foo")]);
    match without.resolve_type(None) {
        Err(GenericMaterialLoadError::MaterialTypeNotFound(name)) => {
            assert_eq!(name, STANDARD_MATERIAL_TYPE_PATH)
        }
        _ => panic!("a missing type was expected"),
    }
}

#[test]
fn shorthand_stands_for_its_type() {
    let mut loader = loader_with(vec![descriptor(1, "game::ExtendedMaterial<game::Foo>", "ExtendedMaterial<Foo>")]);
    loader.register_generic_material_shorthand(
        "Short".to_string(),
        descriptor(1, "game::ExtendedMaterial<game::Foo>", "ExtendedMaterial<Foo>"),
    );
    assert_eq!(loader.resolve_type(Some("Short")).ok().unwrap().id, 1);
    assert_eq!(loader.resolve_type(Some("ExtendedMaterial<Foo>")).ok().unwrap().id, 1);
}

#[test]
fn shorthand_that_is_also_a_type_name_is_ambiguous() {
    let mut loader = loader_with(vec![descriptor(1, "game::Foo", "Foo"), descriptor(2, "game::Bar", "Bar")]);
    loader.register_generic_material_shorthand("Foo".to_string(), descriptor(2, "game::Bar", "Bar"));
    match loader.resolve_type(Some("Foo")) {
        Err(GenericMaterialLoadError::TooManyTypeCandidates(name, paths)) => {
            assert_eq!(name, "Foo");
            assert_eq!(paths, vec!["game::Bar".to_string(), "game::Foo".to_string()]);
        }
        _ => panic!("an ambiguous type was expected"),
    }
}

#[test]
fn shorthand_registered_again_is_overwritten() {
    let mut loader = GenericMaterialLoader::new();
    loader.register_generic_material_shorthand("S".to_string(), descriptor(1, "game::Foo", "Foo"));
    loader.register_generic_material_shorthand("S".to_string(), descriptor(2, "game::Bar", "Bar"));
    assert_eq!(loader.resolve_type(Some("S")).ok().unwrap().id, 2);
}

#[test]
fn registry_keeps_one_registration_for_each_type() {
    let mut registry = TypeRegistry::new();
    assert_eq!(registry.len(), 0);
    assert!(registry.register(descriptor(1, "game::Foo", "Foo")));
    assert!(!registry.register(descriptor(1, "game::Other", "Other")));
    assert!(registry.register(descriptor(2, "game::Bar", "Bar")));
    assert_eq!(registry.len(), 2);
    assert_eq!(registry.get(1).unwrap().type_path, "game::Foo");
    assert!(registry.get(3).is_none());
    assert!(registry.contains(2));
    assert!(!registry.contains(3));
    assert_eq!(registry.at(1).unwrap().id, 2);
    assert!(registry.at(2).is_none());
}

#[test]
fn sub_asset_mark_needs_a_registered_type() {
    let mut registry = TypeRegistry::new();
    registry.register(descriptor(1, "bevy_asset::handle::Handle<bevy_image::image::Image>", "Handle<Image>"));
    assert!(!registry.get(1).unwrap().sub_asset);
    assert!(registry.register_sub_asset(1));
    assert!(registry.get(1).unwrap().sub_asset);
    assert!(!registry.register_sub_asset(2));
    assert_eq!(registry.len(), 1);
}
