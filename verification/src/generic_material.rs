use vstd::prelude::*;
use bevy::platform::collections::HashMap;
use crate::keyed::StringMap;
use crate::reflect::TypeDescriptor;
use crate::value::DirectGenericValue;

verus! {

/// A material asset: a handle to the material itself, of whatever type, and
/// the properties that the user attached to it.
pub struct GenericMaterial<H, V> {
    pub handle: H,
    pub properties: StringMap<DirectGenericValue<V>>,
}

/// Why a property could not be had from a [`GenericMaterial`].
#[derive(Debug, Clone, Copy, PartialEq, Eq, Structural)]
pub enum GetPropertyError {
    /// The material has no property under the key.
    NotFound,
    /// The property is not of the type asked for; holds the identifier of the
    /// type that it is of.
    WrongType { found: u64 },
}

/// The key of a material property together with the identifier of the type of
/// its values.
#[derive(Debug, Clone, Copy)]
pub struct MaterialProperty {
    pub key: &'static str,
    pub type_id: u64,
}

impl MaterialProperty {
    /// The property with the key `key`, whose values are of the type `type_id`.
    pub fn new(key: &'static str, type_id: u64) -> (property: MaterialProperty)
        ensures
            property.key == key,
            property.type_id == type_id,
    {
        MaterialProperty { key, type_id }
    }
}

/// Maps the keys of material properties to the identifiers of the types that
/// their values are read as.
pub struct MaterialPropertyRegistry {
    pub inner: HashMap<String, u64>,
}

/// The shorthands that may stand for a material's type in a file, each with the
/// type that it stands for.
pub struct GenericMaterialShorthands {
    pub values: HashMap<String, TypeDescriptor>,
}

/// What reading the property under `key` as a value of the type `type_id` gives.
pub open spec fn property_read<V>(
    properties: Map<Seq<char>, DirectGenericValue<V>>,
    key: Seq<char>,
    type_id: u64,
) -> Result<V, GetPropertyError> {
    if !properties.dom().contains(key) {
        Err(GetPropertyError::NotFound)
    } else if properties[key].type_id != type_id {
        Err(GetPropertyError::WrongType { found: properties[key].type_id })
    } else {
        Ok(properties[key].value)
    }
}

/// A property that was set is read back as the very value that was set when it
/// is read as the type it was set with, and is refused as of the wrong type,
/// naming the type it was set with, when it is read as any other type.
pub proof fn lemma_property_round_trip<V>(
    properties: Map<Seq<char>, DirectGenericValue<V>>,
    key: Seq<char>,
    type_id: u64,
    value: V,
    other_type: u64,
)
    requires
        other_type != type_id,
    ensures
        property_read(properties.insert(key, DirectGenericValue { type_id, value }), key, type_id)
            == Ok::<V, GetPropertyError>(value),
        property_read(
            properties.insert(key, DirectGenericValue { type_id, value }),
            key,
            other_type,
        ) == Err::<V, GetPropertyError>(GetPropertyError::WrongType { found: type_id }),
{
}

/// Setting a property leaves every other property as it was.
pub proof fn lemma_property_set_is_local<V>(
    properties: Map<Seq<char>, DirectGenericValue<V>>,
    key: Seq<char>,
    type_id: u64,
    value: V,
    other_key: Seq<char>,
    read_as: u64,
)
    requires
        other_key != key,
    ensures
        property_read(
            properties.insert(key, DirectGenericValue { type_id, value }),
            other_key,
            read_as,
        ) == property_read(properties, other_key, read_as),
{
}

impl<H, V> GenericMaterial<H, V> {
    /// A material with the given handle and no properties.
    pub fn new(handle: H) -> (material: GenericMaterial<H, V>)
        ensures
            material.handle == handle,
            material.properties@ == Map::<Seq<char>, DirectGenericValue<V>>::empty(),
    {
        GenericMaterial { handle, properties: StringMap::new() }
    }

    /// Sets the property under `key` to `value`, a value of the type `type_id`.
    pub fn set_property_manual(&mut self, key: String, type_id: u64, value: V)
        ensures
            final(self).handle == old(self).handle,
            final(self).properties@ == old(self).properties@.insert(
                key@,
                DirectGenericValue { type_id, value },
            ),
    {
        self.properties.insert(key, DirectGenericValue { type_id, value });
    }

    /// Sets `property` to `value`.
    pub fn set_property(&mut self, property: MaterialProperty, value: V)
        ensures
            final(self).handle == old(self).handle,
            final(self).properties@ == old(self).properties@.insert(
                property.key@,
                DirectGenericValue { type_id: property.type_id, value },
            ),
    {
        self.set_property_manual(property.key.to_owned(), property.type_id, value);
    }

    /// The property under `key`, read as a value of the type `type_id`.
    pub fn get_property_manual(&self, key: &str, type_id: u64) -> (r: Result<
        &V,
        GetPropertyError,
    >)
        ensures
            match r {
                Ok(value) => property_read(self.properties@, key@, type_id) == Ok::<
                    V,
                    GetPropertyError,
                >(*value),
                Err(e) => property_read(self.properties@, key@, type_id) == Err::<
                    V,
                    GetPropertyError,
                >(e),
            },
    {
        match self.properties.get(key) {
            None => Err(GetPropertyError::NotFound),
            Some(held) => match held.generic_deserialize(type_id) {
                Ok(value) => Ok(value),
                Err(found) => Err(GetPropertyError::WrongType { found }),
            },
        }
    }

    /// The value of `property`.
    pub fn get_property(&self, property: MaterialProperty) -> (r: Result<&V, GetPropertyError>)
        ensures
            match r {
                Ok(value) => property_read(self.properties@, property.key@, property.type_id)
                    == Ok::<V, GetPropertyError>(*value),
                Err(e) => property_read(self.properties@, property.key@, property.type_id)
                    == Err::<V, GetPropertyError>(e),
            },
    {
        self.get_property_manual(property.key, property.type_id)
    }

    /// The value of `property`, or `default` where the material has no such
    /// property or has it with another type.
    pub fn property<'a>(&'a self, property: MaterialProperty, default: &'a V) -> (r: &'a V)
        ensures
            *r == match property_read(self.properties@, property.key@, property.type_id) {
                Ok(value) => value,
                Err(_) => *default,
            },
    {
        match self.get_property(property) {
            Ok(value) => value,
            Err(_) => default,
        }
    }
}

} // verus!
