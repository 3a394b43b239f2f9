use bevy_materialize::load::asset::{load_sub_asset, AssetLoadingProcessor, EXPECTED_ASSET_PATH};
use bevy_materialize::load::error::GenericMaterialLoadError;
use bevy_materialize::load::processor::{
    MaterialDeserializerProcessor, MaterialProcessor, MaterialProcessorContext, Substitute,
};
use bevy_materialize::reflect::TypeDescriptor;
use bevy_materialize::value::{Table, GenericValue};

fn ctx() -> MaterialProcessorContext {
    MaterialProcessorContext { asset_path: "materials/stone/stone.toml".to_string() }
}

fn image_handle() -> TypeDescriptor {
    TypeDescriptor {
        id: 1,
        type_path: "bevy_asset::handle::Handle<bevy_image::image::Image>".to_string(),
        short_type_path: "Handle<Image>".to_string(),
        sub_asset: true,
        from_reflect: true,
    }
}

fn plain_string() -> TypeDescriptor {
    TypeDescriptor {
        id: 2,
        type_path: "alloc::string::String".to_string(),
        short_type_path: "String".to_string(),
        sub_asset: false,
        from_reflect: true,
    }
}

fn asset_of(r: Result<Option<Substitute>, GenericMaterialLoadError>) -> Option<String> {
    match r {
        Ok(Some(Substitute::Asset(path))) => Some(path),
        _ => None,
    }
}

#[test]
fn string_for_a_sub_asset_becomes_an_asset_path() {
    let processor = AssetLoadingProcessor(());
    let value = GenericValue::String("stone_base.png".to_string());
    assert_eq!(
        asset_of(processor.try_deserialize(&ctx(), &image_handle(), &value)),
        Some("materials/stone/stone_base.png".to_string())
    );
    assert_eq!(
        asset_of(processor.try_deserialize_recursive(&ctx(), &image_handle(), &value)),
        Some("materials/stone/stone_base.png".to_string())
    );
    let rooted = GenericValue::String("/textures/stone.png".to_string());
    assert_eq!(
        asset_of(load_sub_asset(&ctx(), &image_handle(), &rooted)),
        Some("textures/stone.png".to_string())
    );
}

#[test]
fn value_of_another_type_is_declined() {
    let processor = AssetLoadingProcessor(());
    let value = GenericValue::String("stone_base.png".to_string());
    assert!(matches!(processor.try_deserialize(&ctx(), &plain_string(), &value), Ok(None)));
    assert!(matches!(processor.try_deserialize_recursive(&ctx(), &plain_string(), &value), Ok(None)));
    assert!(matches!(
        processor.try_deserialize_recursive(&ctx(), &plain_string(), &GenericValue::Integer(3)),
        Ok(None)
    ));
}

#[test]
fn sub_asset_that_is_no_string_fails() {
    let processor = AssetLoadingProcessor(());
    for value in [GenericValue::Integer(3), GenericValue::Null, GenericValue::Array(Vec::new()), GenericValue::Table(Table::new())] {
        match processor.try_deserialize(&ctx(), &image_handle(), &value) {
            Err(GenericMaterialLoadError::Deserialize(message)) => assert_eq!(message, EXPECTED_ASSET_PATH),
            _ => panic!("a failure was expected"),
        }
    }
}

#[test]
fn sub_asset_path_that_is_no_asset_path_fails() {
    let processor = AssetLoadingProcessor(());
    let value = GenericValue::String("stone.png#".to_string());
    assert!(matches!(
        processor.try_deserialize_recursive(&ctx(), &image_handle(), &value),
        Err(GenericMaterialLoadError::Deserialize(_))
    ));
}

#[test]
fn end_of_the_chain_declines_everything() {
    let value = GenericValue::String("stone_base.png".to_string());
    assert!(matches!(().try_deserialize(&ctx(), &image_handle(), &value), Ok(None)));
    assert!(matches!(().try_deserialize_recursive(&ctx(), &image_handle(), &value), Ok(None)));
}

struct Marker {
    child: AssetLoadingProcessor<()>,
}

impl MaterialProcessor for Marker {
    fn try_deserialize(
        &self,
        _ctx: &MaterialProcessorContext,
        _registration: &TypeDescriptor,
        _value: &GenericValue,
    ) -> Result<Option<Substitute>, GenericMaterialLoadError> {
        Ok(Some(Substitute::Asset("marker".to_string())))
    }

    fn try_deserialize_recursive(
        &self,
        ctx: &MaterialProcessorContext,
        registration: &TypeDescriptor,
        value: &GenericValue,
    ) -> Result<Option<Substitute>, GenericMaterialLoadError> {
        match self.child.try_deserialize_recursive(ctx, registration, value) {
            Ok(None) => self.try_deserialize(ctx, registration, value),
            taken => taken,
        }
    }
}

#[test]
fn innermost_processor_is_asked_first() {
    let chain = MaterialDeserializerProcessor {
        ctx: ctx(),
        material_processor: Marker { child: AssetLoadingProcessor(()) },
    };
    let value = GenericValue::String("stone_base.png".to_string());
    // the asset loader below takes what it can
    assert_eq!(
        asset_of(chain.try_deserialize(&image_handle(), &value)),
        Some("materials/stone/stone_base.png".to_string())
    );
    // its failure is final, the processor above is not asked
    assert!(chain.try_deserialize(&image_handle(), &GenericValue::Integer(1)).is_err());
    // what it declines goes to the processor above
    assert_eq!(
        asset_of(chain.try_deserialize(&plain_string(), &value)),
        Some("marker".to_string())
    );
}

#[test]
fn nested_asset_loaders_agree() {
    let chain = AssetLoadingProcessor(AssetLoadingProcessor(()));
    let value = GenericValue::String("../shared.png".to_string());
    assert_eq!(
        asset_of(chain.try_deserialize_recursive(&ctx(), &image_handle(), &value)),
        Some("materials/shared.png".to_string())
    );
    assert!(matches!(chain.try_deserialize_recursive(&ctx(), &plain_string(), &value), Ok(None)));
}
