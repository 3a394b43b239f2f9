use vstd::prelude::*;
use bevy::platform::collections::HashMap;
use crate::collections::{get_type, held_types, into_values};
use crate::keyed::{lemma_slot_of_entry, slot, unique_keys};
use crate::load::error::{GenericMaterialLoadError, LoadErrorModel};
use crate::load::GenericMaterialLoader;
use crate::reflect::{has_id, slot_of_id, TypeDescriptor};
use crate::load::values_model;
use crate::value::{
    entries_model, lemma_entries_model, lemma_reversed_entries, GenericValue, ValueModel,
};

verus! {

/// Why the property `key` cannot be read, if it cannot: it was never
/// registered, or the type registered for it is unknown, or values of that type
/// cannot be built from what is read.
pub open spec fn property_failure(
    properties: Map<Seq<char>, u64>,
    registrations: Seq<TypeDescriptor>,
    key: Seq<char>,
) -> Option<LoadErrorModel> {
    if !properties.dom().contains(key) {
        Some(LoadErrorModel::PropertyNotRegistered(key))
    } else if !has_id(registrations, properties[key]) {
        Some(LoadErrorModel::PropertyTypeNotRegistered(key))
    } else if !registrations[slot_of_id(registrations, properties[key])].from_reflect {
        Some(
            LoadErrorModel::NoFromReflect(
                registrations[slot_of_id(registrations, properties[key])].type_path@,
            ),
        )
    } else {
        None
    }
}

/// A property of a file together with the registration of the type that its
/// value is to be read as.
pub struct TypedProperty {
    pub key: String,
    pub registration: TypeDescriptor,
    pub value: GenericValue,
}

/// The keys and values of a sequence of typed properties.
pub open spec fn untyped(properties: Seq<TypedProperty>) -> Seq<(String, GenericValue)> {
    Seq::new(properties.len(), |i: int| (properties[i].key, properties[i].value))
}

/// What the host hands back when it has read a value as one of a registered
/// type: the owned value, or a value that was read but is not whole, with the
/// full path of the type it stands for where it stands for one, or the message
/// of the failure to read it.
pub enum ReflectOutcome<V> {
    Full(V),
    Partial { represents: Option<String> },
    Failed(String),
}

/// What the host hands back when it has read a material's body and written
/// it into the material: success, the message of the failure to read it, or
/// the message of the failure to write it.
pub enum ApplyOutcome {
    Applied,
    DeserializeFailed(String),
    ApplyFailed(String),
}

/// The owned value of a property that the host has read, or the failure that
/// the host's outcome amounts to.
pub fn reflected_property<V>(outcome: ReflectOutcome<V>) -> (r: Result<
    V,
    GenericMaterialLoadError,
>)
    ensures
        match outcome {
            ReflectOutcome::Full(value) => r == Ok::<V, GenericMaterialLoadError>(value),
            ReflectOutcome::Partial { represents } => r == Err::<V, GenericMaterialLoadError>(
                GenericMaterialLoadError::FullReflect { ty: represents },
            ),
            ReflectOutcome::Failed(message) => r == Err::<V, GenericMaterialLoadError>(
                GenericMaterialLoadError::Deserialize(message),
            ),
        },
{
    match outcome {
        ReflectOutcome::Full(value) => Ok(value),
        ReflectOutcome::Partial { represents } => Err(
            GenericMaterialLoadError::FullReflect { ty: represents },
        ),
        ReflectOutcome::Failed(message) => Err(GenericMaterialLoadError::Deserialize(message)),
    }
}

/// Success where the host has read and written the body of a material, or the
/// failure that the host's outcome amounts to.
pub fn applied_material(outcome: ApplyOutcome) -> (r: Result<(), GenericMaterialLoadError>)
    ensures
        match outcome {
            ApplyOutcome::Applied => r == Ok::<(), GenericMaterialLoadError>(()),
            ApplyOutcome::DeserializeFailed(message) => r == Err::<(), GenericMaterialLoadError>(
                GenericMaterialLoadError::Deserialize(message),
            ),
            ApplyOutcome::ApplyFailed(message) => r == Err::<(), GenericMaterialLoadError>(
                GenericMaterialLoadError::Apply(message),
            ),
        },
{
    match outcome {
        ApplyOutcome::Applied => Ok(()),
        ApplyOutcome::DeserializeFailed(message) => Err(
            GenericMaterialLoadError::Deserialize(message),
        ),
        ApplyOutcome::ApplyFailed(message) => Err(GenericMaterialLoadError::Apply(message)),
    }
}

impl GenericMaterialLoader {
    /// Why the loader cannot read the property `key`, if it cannot.
    pub open spec fn failure_of(self, key: Seq<char>) -> Option<LoadErrorModel> {
        property_failure(held_types(self.property_registry.inner), self.type_registry@, key)
    }

    /// Whether `typed` holds each of `properties` once, none of them a property
    /// that the loader cannot read, each with the registration of the type
    /// registered for its key.
    pub open spec fn types_all(
        self,
        typed: Seq<TypedProperty>,
        properties: Map<Seq<char>, ValueModel>,
    ) -> bool {
        &&& unique_keys(untyped(typed))
        &&& entries_model(untyped(typed)) == properties
        &&& forall|k: Seq<char>| #[trigger] properties.dom().contains(k) ==> self.failure_of(k) is None
        &&& forall|i: int|
            0 <= i < typed.len() ==> (#[trigger] typed[i]).registration
                == self.type_registry@[slot_of_id(
                self.type_registry@,
                held_types(self.property_registry.inner)[typed[i].key@],
            )]
    }

    /// Whether `error` is why the loader cannot read one of `properties`.
    pub open spec fn fails_on_some(
        self,
        properties: Map<Seq<char>, ValueModel>,
        error: LoadErrorModel,
    ) -> bool {
        exists|k: Seq<char>| #[trigger]
            properties.dom().contains(k) && self.failure_of(k) == Some(error)
    }
}

/// A file with a property that was never registered cannot be loaded, and where
/// no other property of it fails, the failure names that property as not
/// registered.
pub proof fn lemma_unregistered_property_fails(
    loader: GenericMaterialLoader,
    properties: Map<Seq<char>, ValueModel>,
    key: Seq<char>,
    typed: Seq<TypedProperty>,
    error: LoadErrorModel,
)
    requires
        properties.dom().contains(key),
        !held_types(loader.property_registry.inner).dom().contains(key),
    ensures
        loader.failure_of(key) == Some(LoadErrorModel::PropertyNotRegistered(key)),
        !loader.types_all(typed, properties),
        loader.fails_on_some(properties, LoadErrorModel::PropertyNotRegistered(key)),
        (forall|k: Seq<char>| #[trigger]
            properties.dom().contains(k) && k != key ==> loader.failure_of(k) is None)
            && loader.fails_on_some(properties, error) ==> error
            == LoadErrorModel::PropertyNotRegistered(key),
{
}

impl GenericMaterialLoader {
    /// The registration of the type that the values of the property `key` are
    /// read as. Fails where the property was never registered, where the type
    /// registered for it is unknown to the type registry, and where values of
    /// that type cannot be built from what is read.
    pub fn property_registration<'a>(&'a self, key: &str) -> (r: Result<
        &'a TypeDescriptor,
        GenericMaterialLoadError,
    >)
        ensures
            match r {
                Ok(registration) => {
                    &&& property_failure(held_types(self.property_registry.inner), self.type_registry@, key@)
                        is None
                    &&& *registration == self.type_registry@[slot_of_id(
                        self.type_registry@,
                        held_types(self.property_registry.inner)[key@],
                    )]
                    &&& registration.id == held_types(self.property_registry.inner)[key@]
                },
                Err(e) => property_failure(
                    held_types(self.property_registry.inner),
                    self.type_registry@,
                    key@,
                ) == Some(e@),
            },
    {
        let type_id = match get_type(&self.property_registry.inner, key) {
            Some(id) => id,
            None => {
                return Err(GenericMaterialLoadError::PropertyNotRegistered(key.to_owned()));
            },
        };
        let registration = match self.type_registry.get(type_id) {
            Some(registration) => registration,
            None => {
                return Err(GenericMaterialLoadError::PropertyTypeNotRegistered(key.to_owned()));
            },
        };
        if !registration.from_reflect {
            return Err(GenericMaterialLoadError::NoFromReflect(registration.type_path.clone()));
        }
        Ok(registration)
    }

    /// Gives every property of a file the registration of the type that its
    /// value is to be read as. Succeeds exactly when no property of the file
    /// fails the test of `property_registration`; the result then holds each
    /// property of the file once. Otherwise the failure is that of one of the
    /// properties that fail.
    pub fn typed_properties(&self, properties: HashMap<String, GenericValue>) -> (r: Result<
        Vec<TypedProperty>,
        GenericMaterialLoadError,
    >)
        ensures
            match r {
                Ok(typed) => self.types_all(typed@, values_model(properties)),
                Err(e) => self.fails_on_some(values_model(properties), e@),
            },
    {
        let mut entries = into_values(properties);
        let ghost all = entries@;
        proof {
            lemma_entries_model(all);
        }
        let mut typed: Vec<TypedProperty> = Vec::new();
        while entries.len() > 0
            invariant
                unique_keys(all),
                entries_model(all) == values_model(properties),
                entries@ == all.take(entries.len() as int),
                entries.len() <= all.len(),
                typed@.len() == all.len() - entries.len(),
                forall|i: int|
                    0 <= i < typed@.len() ==> (#[trigger] typed@[i]).key == all[all.len() - 1
                        - i].0 && typed@[i].value == all[all.len() - 1 - i].1,
                forall|i: int|
                    0 <= i < typed@.len() ==> property_failure(
                        held_types(self.property_registry.inner),
                        self.type_registry@,
                        (#[trigger] typed@[i]).key@,
                    ) is None && typed@[i].registration == self.type_registry@[slot_of_id(
                        self.type_registry@,
                        held_types(self.property_registry.inner)[typed@[i].key@],
                    )],
            decreases entries.len(),
        {
            let ghost n = entries.len() as int;
            let (key, value) = entries.pop().unwrap();
            assert(key == all[n - 1].0 && value == all[n - 1].1);
            let registration = match self.property_registration(key.as_str()) {
                Ok(registration) => registration.clone(),
                Err(e) => {
                    proof {
                        lemma_slot_of_entry(all, n - 1);
                        assert(values_model(properties).dom().contains(key@));
                    }
                    return Err(e);
                },
            };
            typed.push(TypedProperty { key, registration, value });
            assert(entries@ =~= all.take(entries.len() as int));
        }
        proof {
            let flat = untyped(typed@);
            assert forall|i: int| 0 <= i < all.len() implies #[trigger] flat[i] == all[all.len()
                - 1 - i] by {
                assert(typed@[i].key == all[all.len() - 1 - i].0);
            }
            lemma_reversed_entries(all, flat);
            assert forall|k: Seq<char>| #[trigger]
                values_model(properties).dom().contains(k) implies property_failure(
                held_types(self.property_registry.inner),
                self.type_registry@,
                k,
            ) is None by {
                let i = slot(all, k);
                assert(all[i].0@ == k);
                assert(typed@[all.len() - 1 - i].key == all[i].0);
            }
        }
        Ok(typed)
    }
}

} // verus!
