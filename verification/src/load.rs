use vstd::prelude::*;
use bevy::platform::collections::HashMap;
use crate::collections::{
    held_registrations, held_types, held_values, insert_registration, insert_type, insert_value,
    new_registrations, new_types, new_values,
};
use crate::generic_material::{GenericMaterialShorthands, MaterialProperty, MaterialPropertyRegistry};
use crate::keyed::{entries_map, lemma_last_map, unique_keys};
use crate::load::deserializer::MaterialDeserializer;
use crate::load::error::{GenericMaterialLoadError, LoadErrorModel};
use crate::load::property::{untyped, TypedProperty};
use crate::load::replacements::{apply_replacements, replaced_text};
use crate::reflect::{has_id, TypeDescriptor, TypeRegistry};
use crate::value::{
    content_of, entries_model, lemma_entries_model, GenericValue, Table, ValueModel,
};

pub mod asset;
pub mod deserializer;
pub mod error;
pub mod format;
pub mod inheritance;
pub mod processor;
pub mod property;
pub mod replacements;
pub mod resolve;

verus! {

/// What a material file holds, read but not yet interpreted: the path of the
/// file it inherits from, the name of the material's type, the field values of
/// the material and the named properties.
pub struct ParsedGenericMaterial {
    pub inherits: Option<String>,
    pub ty: Option<String>,
    pub material: Option<GenericValue>,
    pub properties: Option<HashMap<String, GenericValue>>,
}

/// The mathematical content of a [`ParsedGenericMaterial`].
pub struct ParsedModel {
    pub inherits: Option<Seq<char>>,
    pub ty: Option<Seq<char>>,
    pub material: Option<ValueModel>,
    pub properties: Option<Map<Seq<char>, ValueModel>>,
}

/// The content of the values that a map holds.
pub open spec fn values_model(map: HashMap<String, GenericValue>) -> Map<Seq<char>, ValueModel> {
    held_values(map).map_values(content_of())
}

/// The characters of an optional string.
pub open spec fn text_model(text: Option<String>) -> Option<Seq<char>> {
    match text {
        Some(s) => Some(s@),
        None => None,
    }
}

impl View for ParsedGenericMaterial {
    type V = ParsedModel;

    open spec fn view(&self) -> ParsedModel {
        ParsedModel {
            inherits: text_model(self.inherits),
            ty: text_model(self.ty),
            material: match self.material {
                Some(v) => Some(v@),
                None => None,
            },
            properties: match self.properties {
                Some(map) => Some(values_model(map)),
                None => None,
            },
        }
    }
}

/// The key of the path of the file that a material file inherits from.
pub const INHERITS_KEY: &'static str = "inherits";

/// The key of the name of a material's type.
pub const TYPE_KEY: &'static str = "type";

/// The key of the field values of a material.
pub const MATERIAL_KEY: &'static str = "material";

/// The key of the properties of a material.
pub const PROPERTIES_KEY: &'static str = "properties";

/// The message of the failure to read a material from a value that is no table.
pub const EXPECTED_TABLE: &'static str = "invalid type: a material file holds a table";

/// The message of the failure to read the path of the inherited file.
pub const EXPECTED_INHERITS: &'static str = "invalid type: `inherits` holds a string";

/// The message of the failure to read the name of the material's type.
pub const EXPECTED_TYPE: &'static str = "invalid type: `type` holds a string";

/// The message of the failure to read the properties.
pub const EXPECTED_PROPERTIES: &'static str = "invalid type: `properties` holds a table";

/// What a table holds under `key`, an explicit null counting as nothing.
pub open spec fn field_of(fields: Map<Seq<char>, ValueModel>, key: Seq<char>) -> Option<
    ValueModel,
> {
    if fields.dom().contains(key) && fields[key] != ValueModel::Null {
        Some(fields[key])
    } else {
        None
    }
}

/// The material that a parsed file holds. The file holds a table. Of its fields,
/// `inherits` and `type` hold a string each and `properties` holds a table,
/// `material` holds any value; each of them may be missing, and every other
/// field is passed over.
pub open spec fn material_of(root: ValueModel) -> Result<ParsedModel, LoadErrorModel> {
    match root {
        ValueModel::Table(fields) => {
            let inherits = field_of(fields, INHERITS_KEY@);
            let ty = field_of(fields, TYPE_KEY@);
            let properties = field_of(fields, PROPERTIES_KEY@);
            if inherits is Some && !(inherits->0 is String) {
                Err(LoadErrorModel::Deserialize(EXPECTED_INHERITS@))
            } else if ty is Some && !(ty->0 is String) {
                Err(LoadErrorModel::Deserialize(EXPECTED_TYPE@))
            } else if properties is Some && !(properties->0 is Table) {
                Err(LoadErrorModel::Deserialize(EXPECTED_PROPERTIES@))
            } else {
                Ok(
                    ParsedModel {
                        inherits: match inherits {
                            Some(ValueModel::String(path)) => Some(path),
                            _ => None,
                        },
                        ty: match ty {
                            Some(ValueModel::String(name)) => Some(name),
                            _ => None,
                        },
                        material: field_of(fields, MATERIAL_KEY@),
                        properties: match properties {
                            Some(ValueModel::Table(entries)) => Some(entries),
                            _ => None,
                        },
                    },
                )
            }
        },
        _ => Err(LoadErrorModel::Deserialize(EXPECTED_TABLE@)),
    }
}

/// The material that a parsed file holds, or the failure to parse the file.
pub open spec fn material_in(document: Result<ValueModel, Seq<char>>) -> Result<
    ParsedModel,
    LoadErrorModel,
> {
    match document {
        Ok(root) => material_of(root),
        Err(message) => Err(LoadErrorModel::Deserialize(message)),
    }
}

/// The content of either outcome of reading a material.
pub open spec fn read_model(r: Result<ParsedGenericMaterial, GenericMaterialLoadError>) -> Result<
    ParsedModel,
    LoadErrorModel,
> {
    match r {
        Ok(material) => Ok(material@),
        Err(e) => Err(e@),
    }
}

/// Puts the entries of a table into a map.
fn table_into_map(table: Table) -> (r: HashMap<String, GenericValue>)
    ensures
        values_model(r) == table@,
{
    let mut entries = table.into_entries();
    let ghost all = entries@;
    let mut map = new_values();
    assert(entries_map(all.skip(all.len() as int)) =~= Map::<Seq<char>, GenericValue>::empty());
    while entries.len() > 0
        invariant
            entries@ == all.take(entries.len() as int),
            entries.len() <= all.len(),
            unique_keys(all),
            held_values(map) == entries_map(all.skip(entries.len() as int)),
        decreases entries.len(),
    {
        let ghost n = entries.len() as int;
        let (key, value) = entries.pop().unwrap();
        proof {
            assert(key == all[n - 1].0 && value == all[n - 1].1);
            lemma_last_map(all, n - 1);
        }
        insert_value(&mut map, key, value);
        assert(entries@ =~= all.take(entries.len() as int));
    }
    proof {
        assert(all.skip(0) =~= all);
        lemma_entries_model(all);
    }
    map
}

/// The text that a field of a material file holds, if it holds any.
fn text_field(fields: &Table, key: &str) -> (r: Result<Option<String>, ()>)
    ensures
        match field_of(fields@, key@) {
            None => r == Ok::<Option<String>, ()>(None),
            Some(ValueModel::String(text)) => r matches Ok(Some(held)) && held@ == text,
            Some(_) => r is Err,
        },
{
    match fields.get(key) {
        None => Ok(None),
        Some(GenericValue::Null) => Ok(None),
        Some(GenericValue::String(text)) => Ok(Some(text.clone())),
        Some(_) => Err(()),
    }
}

impl ParsedGenericMaterial {
    /// Reads a material from the value that its file was parsed to.
    pub fn from_value(root: GenericValue) -> (r: Result<
        ParsedGenericMaterial,
        GenericMaterialLoadError,
    >)
        ensures
            read_model(r) == material_of(root@),
    {
        let mut fields = match root {
            GenericValue::Table(fields) => fields,
            _ => {
                return Err(GenericMaterialLoadError::Deserialize(EXPECTED_TABLE.to_owned()));
            },
        };
        let inherits = match text_field(&fields, INHERITS_KEY) {
            Ok(inherits) => inherits,
            Err(_) => {
                return Err(GenericMaterialLoadError::Deserialize(EXPECTED_INHERITS.to_owned()));
            },
        };
        let ty = match text_field(&fields, TYPE_KEY) {
            Ok(ty) => ty,
            Err(_) => {
                return Err(GenericMaterialLoadError::Deserialize(EXPECTED_TYPE.to_owned()));
            },
        };
        proof {
            reveal_strlit("material");
            reveal_strlit("properties");
            assert(MATERIAL_KEY@ != PROPERTIES_KEY@) by {
                assert(MATERIAL_KEY@.len() != PROPERTIES_KEY@.len());
            }
        }
        let properties = match fields.remove(PROPERTIES_KEY) {
            None => None,
            Some(GenericValue::Null) => None,
            Some(GenericValue::Table(properties)) => Some(table_into_map(properties)),
            Some(_) => {
                return Err(GenericMaterialLoadError::Deserialize(EXPECTED_PROPERTIES.to_owned()));
            },
        };
        let material = match fields.remove(MATERIAL_KEY) {
            None => None,
            Some(GenericValue::Null) => None,
            Some(body) => Some(body),
        };
        Ok(ParsedGenericMaterial { inherits, ty, material, properties })
    }
}

/// The full path of the type that a material is of when its file names none.
pub const STANDARD_MATERIAL_TYPE_PATH: &'static str = "bevy_pbr::pbr_material::StandardMaterial";

/// What loads of material files share: the registered types, the shorthands for
/// material types, the registered properties, and whether the text of a file is
/// rewritten before it is parsed.
pub struct GenericMaterialLoader {
    pub type_registry: TypeRegistry,
    pub shorthands: GenericMaterialShorthands,
    pub property_registry: MaterialPropertyRegistry,
    pub do_text_replacements: bool,
}

/// What is left to do for a material once its file and the files it inherits
/// from are merged into one: the registration of the material's type, the body
/// to read as a value of that type, and each property with the registration of
/// the type that its value is to be read as.
pub struct MaterialPlan {
    pub registration: TypeDescriptor,
    pub material: Option<GenericValue>,
    pub properties: Vec<TypedProperty>,
}

impl GenericMaterialLoader {
    /// A loader that knows no type, shorthand or property, and rewrites text.
    pub fn new() -> (loader: GenericMaterialLoader)
        ensures
            loader.type_registry@ == Seq::<TypeDescriptor>::empty(),
            held_registrations(loader.shorthands.values) == Map::<Seq<char>, TypeDescriptor>::empty(),
            held_types(loader.property_registry.inner) == Map::<Seq<char>, u64>::empty(),
            loader.do_text_replacements,
    {
        GenericMaterialLoader {
            type_registry: TypeRegistry::new(),
            shorthands: GenericMaterialShorthands { values: new_registrations() },
            property_registry: MaterialPropertyRegistry { inner: new_types() },
            do_text_replacements: true,
        }
    }

    /// Lets `shorthand` stand for the type of `registration` in material files,
    /// in place of what it stood for before.
    pub fn register_generic_material_shorthand(
        &mut self,
        shorthand: String,
        registration: TypeDescriptor,
    )
        ensures
            held_registrations(final(self).shorthands.values) == held_registrations(old(self).shorthands.values).insert(
                shorthand@,
                registration,
            ),
            final(self).type_registry == old(self).type_registry,
            final(self).property_registry == old(self).property_registry,
            final(self).do_text_replacements == old(self).do_text_replacements,
    {
        insert_registration(&mut self.shorthands.values, shorthand, registration);
    }

    /// Has the values of the property `key` read as values of the type of
    /// `registration`, in place of the type registered for `key` before, and
    /// registers that type unless it is registered already.
    pub fn register_material_property_manual(&mut self, key: String, registration: TypeDescriptor)
        ensures
            held_types(final(self).property_registry.inner) == held_types(old(self).property_registry.inner).insert(
                key@,
                registration.id,
            ),
            final(self).type_registry@ == if has_id(old(self).type_registry@, registration.id) {
                old(self).type_registry@
            } else {
                old(self).type_registry@.push(registration)
            },
            final(self).shorthands == old(self).shorthands,
            final(self).do_text_replacements == old(self).do_text_replacements,
    {
        let id = registration.id;
        self.type_registry.register(registration);
        insert_type(&mut self.property_registry.inner, key, id);
    }

    /// Registers `property`, with `registration` as the registration of its type.
    pub fn register_material_property(
        &mut self,
        property: MaterialProperty,
        registration: TypeDescriptor,
    )
        ensures
            held_types(final(self).property_registry.inner) == held_types(old(self).property_registry.inner).insert(
                property.key@,
                registration.id,
            ),
            final(self).type_registry@ == if has_id(old(self).type_registry@, registration.id) {
                old(self).type_registry@
            } else {
                old(self).type_registry@.push(registration)
            },
            final(self).shorthands == old(self).shorthands,
            final(self).do_text_replacements == old(self).do_text_replacements,
    {
        self.register_material_property_manual(property.key.to_owned(), registration);
    }

    /// Rewrites the text of the material file at `path`: where the text is UTF-8
    /// and the path names a file, every `${name}` in it is replaced by the name
    /// of the file without its extension. Other text is handed back unchanged.
    pub fn try_apply_replacements(&self, path: &str, bytes: Vec<u8>) -> (r: Vec<u8>)
        ensures
            r@ == replaced_text(path@, bytes@),
    {
        apply_replacements(path, bytes)
    }

    /// The text of the material file at `path` as it is to be parsed: rewritten
    /// where the loader rewrites text, and as it was read where it does not.
    pub fn prepare_text(&self, path: &str, bytes: Vec<u8>) -> (r: Vec<u8>)
        ensures
            r@ == if self.do_text_replacements {
                replaced_text(path@, bytes@)
            } else {
                bytes@
            },
    {
        if self.do_text_replacements {
            self.try_apply_replacements(path, bytes)
        } else {
            bytes
        }
    }

    /// The bytes of the material file at `path` as they are parsed.
    pub open spec fn prepared(self, path: Seq<char>, bytes: Seq<u8>) -> Seq<u8> {
        if self.do_text_replacements {
            replaced_text(path, bytes)
        } else {
            bytes
        }
    }

    /// Reads a material from the bytes of a file, in the format of
    /// `deserializer`, with the text rewritten for the file at `path` first
    /// where the loader rewrites text.
    pub fn read_material<D: MaterialDeserializer>(
        &self,
        deserializer: &D,
        path: &str,
        bytes: Vec<u8>,
    ) -> (r: Result<ParsedGenericMaterial, GenericMaterialLoadError>)
        ensures
            read_model(r) == deserializer.decoded(self.prepared(path@, bytes@)),
    {
        let text = self.prepare_text(path, bytes);
        deserializer.deserialize(text.as_slice())
    }

    /// Settles what is left to do for a material whose inheritance is resolved:
    /// resolves the type that it declares and gives each of its properties the
    /// registration of its type. Fails with the failure of the type's resolution
    /// where that fails, and otherwise with the failure of one of the properties
    /// that the loader cannot read, where there is one.
    pub fn plan(&self, material: ParsedGenericMaterial) -> (r: Result<
        MaterialPlan,
        GenericMaterialLoadError,
    >)
        ensures
            match self.resolution_of(material@.ty) {
                Err(failure) => r matches Err(e) && e@ == failure,
                Ok(registration) => match r {
                    Ok(plan) => {
                        &&& plan.registration == registration
                        &&& plan.material == material.material
                        &&& self.types_all(
                            plan.properties@,
                            match material@.properties {
                                Some(properties) => properties,
                                None => Map::empty(),
                            },
                        )
                    },
                    Err(e) => material@.properties matches Some(properties) && self.fails_on_some(
                        properties,
                        e@,
                    ),
                },
            },
    {
        let ParsedGenericMaterial { inherits: _, ty, material: body, properties } = material;
        let registration = match &ty {
            Some(name) => self.resolve_type(Some(name.as_str())),
            None => self.resolve_type(None),
        };
        let registration = match registration {
            Ok(registration) => registration.clone(),
            Err(e) => {
                return Err(e);
            },
        };
        let typed = match properties {
            Some(properties) => match self.typed_properties(properties) {
                Ok(typed) => typed,
                Err(e) => {
                    return Err(e);
                },
            },
            None => {
                let typed: Vec<TypedProperty> = Vec::new();
                assert(entries_model(untyped(typed@)) =~= Map::<Seq<char>, ValueModel>::empty());
                typed
            },
        };
        Ok(MaterialPlan { registration, material: body, properties: typed })
    }
}

} // verus!
