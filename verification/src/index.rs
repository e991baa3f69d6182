//! The hash sets and maps behind the subscription index.
//!
//! The index keys its collections by the 64-bit identifiers of peers and
//! topics and hashes them with FNV. vstd describes the standard hash
//! collections for hashers that it knows to be deterministic; the
//! functions here say the same of collections hashed with
//! `fnv::FnvHasher`, which starts from a fixed value and folds in the
//! bytes it is given. They are the only places where the collections are
//! read or changed, and what each one promises is taken on trust.

use fnv::{FnvHashMap, FnvHashSet, FnvHasher};
use std::collections::{hash_map, hash_set};
use std::hash::BuildHasherDefault;
use vstd::prelude::*;
use vstd::std_specs::hash::{spec_hash_keys_iter, spec_keys_iter};
use vstd::std_specs::iter::IteratorSpec;

verus! {

#[verifier::external_type_specification]
#[verifier::external_body]
pub struct ExFnvHasher(FnvHasher);

#[verifier::external_type_specification]
#[verifier::external_body]
#[verifier::reject_recursive_types(H)]
pub struct ExBuildHasherDefault<H>(BuildHasherDefault<H>);

/// `HashSet::insert` on a set hashed with FNV: afterwards the set holds
/// `id` besides what it held, and the result tells whether `id` is new.
#[verifier::external_body]
pub(crate) fn set_insert(set: &mut FnvHashSet<u64>, id: u64) -> (fresh: bool)
    ensures
        final(set)@ == old(set)@.insert(id),
        fresh == !old(set)@.contains(id),
{
    set.insert(id)
}

/// `HashSet::remove` on a set hashed with FNV: afterwards the set holds
/// what it held but `id`, and the result tells whether `id` was there.
#[verifier::external_body]
pub(crate) fn set_remove(set: &mut FnvHashSet<u64>, id: u64) -> (present: bool)
    ensures
        final(set)@ == old(set)@.remove(id),
        present == old(set)@.contains(id),
{
    set.remove(&id)
}

/// The iterator that vstd names for `set`. vstd says of it that it yields
/// every element of the set, each once.
pub(crate) open spec fn spec_set_iter<'a>(set: &'a FnvHashSet<u64>) -> hash_set::Iter<'a, u64> {
    spec_hash_keys_iter(set)
}

/// `HashSet::iter` on a set hashed with FNV. The claims are those that
/// vstd makes of `iter` for a hasher within its model: the result is the
/// iterator that vstd names for this set, nothing has been taken from it
/// yet, and it comes to an end.
#[verifier::external_body]
#[verifier::when_used_as_spec(spec_set_iter)]
pub(crate) fn set_iter<'a>(set: &'a FnvHashSet<u64>) -> (iter: hash_set::Iter<'a, u64>)
    ensures
        iter == spec_hash_keys_iter(set),
        IteratorSpec::decrease(&iter) is Some,
        IteratorSpec::initial_value_relation(&iter, &iter),
{
    set.iter()
}

/// `HashMap::insert` on a map hashed with FNV: afterwards `id` maps to
/// `value` and every other key is as before; the result is the value that
/// `id` mapped to, if any.
#[verifier::external_body]
pub(crate) fn map_insert<V>(map: &mut FnvHashMap<u64, V>, id: u64, value: V) -> (previous: Option<V>)
    ensures
        final(map)@ == old(map)@.insert(id, value),
        previous == (if old(map)@.contains_key(id) {
            Some(old(map)@[id])
        } else {
            None
        }),
{
    map.insert(id, value)
}

/// `HashMap::remove` on a map hashed with FNV: afterwards `id` is no key
/// and every other key is as before; the result is the value that `id`
/// mapped to, if any.
#[verifier::external_body]
pub(crate) fn map_remove<V>(map: &mut FnvHashMap<u64, V>, id: u64) -> (previous: Option<V>)
    ensures
        final(map)@ == old(map)@.remove(id),
        previous == (if old(map)@.contains_key(id) {
            Some(old(map)@[id])
        } else {
            None
        }),
{
    map.remove(&id)
}

/// `HashMap::get` on a map hashed with FNV: the value that `id` maps to,
/// if it is a key.
#[verifier::external_body]
pub(crate) fn map_get<V>(map: &FnvHashMap<u64, V>, id: u64) -> (value: Option<&V>)
    ensures
        match value {
            Some(found) => map@.contains_key(id) && *found == map@[id],
            None => !map@.contains_key(id),
        },
{
    map.get(&id)
}

/// The iterator that vstd names for the keys of `map`. vstd says of it
/// that it yields every key of the map, each once.
pub(crate) open spec fn spec_map_keys<'a, V>(map: &'a FnvHashMap<u64, V>) -> hash_map::Keys<'a, u64, V> {
    spec_keys_iter(map)
}

/// `HashMap::keys` on a map hashed with FNV. The claims are those that
/// vstd makes of `keys` for a hasher within its model: the result is the
/// iterator that vstd names for the keys of this map, nothing has been
/// taken from it yet, and it comes to an end.
#[verifier::external_body]
#[verifier::when_used_as_spec(spec_map_keys)]
pub(crate) fn map_keys<'a, V>(map: &'a FnvHashMap<u64, V>) -> (keys: hash_map::Keys<'a, u64, V>)
    ensures
        keys == spec_keys_iter(map),
        IteratorSpec::decrease(&keys) is Some,
        IteratorSpec::initial_value_relation(&keys, &keys),
{
    map.keys()
}

} // verus!
