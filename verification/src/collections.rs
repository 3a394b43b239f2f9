use vstd::prelude::*;
use bevy::platform::collections::HashMap;
use crate::keyed::{entries_map, unique_keys};
use crate::reflect::TypeDescriptor;
use crate::value::GenericValue;

verus! {

/// The hash map of `bevy_platform`.
#[verifier::external_type_specification]
#[verifier::external_body]
#[verifier::reject_recursive_types(K)]
#[verifier::reject_recursive_types(V)]
#[verifier::reject_recursive_types(S)]
pub struct ExHashMap<K, V, S>(bevy::platform::collections::HashMap<K, V, S>);

/// The hasher that the maps of `bevy_platform` use unless told otherwise.
#[verifier::external_type_specification]
#[verifier::external_body]
pub struct ExFixedHasher(bevy::platform::hash::FixedHasher);

/// What a map from strings to values holds: the value under each key, the keys
/// taken by their characters.
pub uninterp spec fn held_values(map: HashMap<String, GenericValue>) -> Map<
    Seq<char>,
    GenericValue,
>;

/// What a map from strings to type identifiers holds.
pub uninterp spec fn held_types(map: HashMap<String, u64>) -> Map<Seq<char>, u64>;

/// What a map from strings to registrations holds.
pub uninterp spec fn held_registrations(map: HashMap<String, TypeDescriptor>) -> Map<
    Seq<char>,
    TypeDescriptor,
>;

/// Makes a map with `HashMap::default`, which holds nothing.
#[verifier::external_body]
pub(crate) fn new_values() -> (r: HashMap<String, GenericValue>)
    ensures
        held_values(r) == (Map::<Seq<char>, GenericValue>::empty()),
{
    HashMap::default()
}

/// Calls `HashMap::insert`, which stores the value under the key, in place of
/// what was stored under an equal key before.
#[verifier::external_body]
pub(crate) fn insert_value(map: &mut HashMap<String, GenericValue>, key: String, value: GenericValue)
    ensures
        held_values(*final(map)) == held_values(*old(map)).insert(key@, value),
{
    map.insert(key, value);
}

/// Calls `HashMap::get_mut`, which lends the value stored under the key: what
/// is written to it is what the map holds under the key afterwards, and nothing
/// else in the map changes.
#[verifier::external_body]
pub(crate) fn get_value_mut<'a>(map: &'a mut HashMap<String, GenericValue>, key: &str) -> (r: Option<
    &'a mut GenericValue,
>)
    ensures
        match r {
            Some(value) => {
                &&& held_values(*old(map)).dom().contains(key@)
                &&& *value == held_values(*old(map))[key@]
                &&& held_values(*final(map)) == held_values(*old(map)).insert(key@, *final(value))
            },
            None => {
                &&& !held_values(*old(map)).dom().contains(key@)
                &&& held_values(*final(map)) == held_values(*old(map))
            },
        },
{
    map.get_mut(key)
}

/// Walks the map with `HashMap::into_iter` and collects the entries, in the
/// order in which the map hands them out: each key once, with its value.
#[verifier::external_body]
pub(crate) fn into_values(map: HashMap<String, GenericValue>) -> (r: Vec<(String, GenericValue)>)
    ensures
        unique_keys(r@),
        entries_map(r@) == held_values(map),
{
    map.into_iter().collect()
}

/// Makes a map with `HashMap::default`, which holds nothing.
#[verifier::external_body]
pub(crate) fn new_types() -> (r: HashMap<String, u64>)
    ensures
        held_types(r) == (Map::<Seq<char>, u64>::empty()),
{
    HashMap::default()
}

/// Calls `HashMap::insert`, which stores the identifier under the key, in place
/// of what was stored under an equal key before.
#[verifier::external_body]
pub(crate) fn insert_type(map: &mut HashMap<String, u64>, key: String, type_id: u64)
    ensures
        held_types(*final(map)) == held_types(*old(map)).insert(key@, type_id),
{
    map.insert(key, type_id);
}

/// Calls `HashMap::get`, which hands out the identifier stored under the key.
#[verifier::external_body]
pub(crate) fn get_type(map: &HashMap<String, u64>, key: &str) -> (r: Option<u64>)
    ensures
        match r {
            Some(type_id) => held_types(*map).dom().contains(key@) && type_id == held_types(
                *map,
            )[key@],
            None => !held_types(*map).dom().contains(key@),
        },
{
    map.get(key).copied()
}

/// Makes a map with `HashMap::default`, which holds nothing.
#[verifier::external_body]
pub(crate) fn new_registrations() -> (r: HashMap<String, TypeDescriptor>)
    ensures
        held_registrations(r) == (Map::<Seq<char>, TypeDescriptor>::empty()),
{
    HashMap::default()
}

/// Calls `HashMap::insert`, which stores the registration under the key, in
/// place of what was stored under an equal key before.
#[verifier::external_body]
pub(crate) fn insert_registration(
    map: &mut HashMap<String, TypeDescriptor>,
    key: String,
    registration: TypeDescriptor,
)
    ensures
        held_registrations(*final(map)) == held_registrations(*old(map)).insert(
            key@,
            registration,
        ),
{
    map.insert(key, registration);
}

/// Calls `HashMap::get`, which hands out the registration stored under the key.
#[verifier::external_body]
pub(crate) fn get_registration<'a>(map: &'a HashMap<String, TypeDescriptor>, key: &str) -> (r: Option<
    &'a TypeDescriptor,
>)
    ensures
        match r {
            Some(registration) => held_registrations(*map).dom().contains(key@) && *registration
                == held_registrations(*map)[key@],
            None => !held_registrations(*map).dom().contains(key@),
        },
{
    map.get(key)
}

} // verus!
