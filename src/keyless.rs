//! The keyless perfect map: values in slot order and the function that gives
//! each key its slot; the keys themselves are not kept.
use std::borrow::Borrow;
use std::collections::HashMap;
use std::hash::Hash;
use std::marker::PhantomData;
use vstd::prelude::*;
use vstd::std_specs::convert::IntoSpec;
use vstd::std_specs::hash::{obeys_key_model, spec_hash_map_len};
use crate::codec::{function_is_framed, is_framed_function, DecodeError};
use crate::codec::EncodeError;
use crate::construction::{build_slots, is_conversion, unzip_entries};
use crate::hashing::{evaluate, key_count, read_function, entries_of, parses_as_function, write_function, SlotFunction};
use crate::placement::{finds, is_placement, is_slot_assignment, lemma_placed_items_are_found, slot_entry};

verus! {

/// An immutable map from a key set fixed at construction to values, with one
/// slot per key given by a minimal perfect hash function. It cannot tell a
/// member key from any other.
pub struct KeylessPerfectMap<K, V> {
    pub function: SlotFunction,
    pub values: Vec<V>,
    pub keys: PhantomData<K>,
}

impl<K, V> KeylessPerfectMap<K, V> {
    /// Each item of `values`, converted, sits in the slot that some one-to-one
    /// assignment gives its position.
    pub open spec fn is_built_from<U: Into<V>>(&self, values: Seq<U>) -> bool {
        exists|slots: Seq<u64>, conv: Seq<V>|
            is_conversion(values, conv) && #[trigger] is_placement(slots, conv, self.values@)
    }

    /// One value for each slot that the hash function hands out: holds of
    /// every map built here, so that a lookup misses only where the function
    /// declines the key.
    pub open spec fn is_well_formed(&self) -> bool {
        self.values@.len() == key_count(self.function)
    }

    /// The values, in slot order.
    pub fn values(&self) -> (r: &[V])
        ensures
            r@ == self.values@,
    {
        self.values.as_slice()
    }

    /// The number of slots, one per key of the construction set.
    pub fn len(&self) -> (r: usize)
        ensures
            r == self.values@.len(),
    {
        self.values.len()
    }

    /// The value in a slot candidate: nothing for no candidate or one past
    /// the end.
    pub fn get_at_slot(&self, slot: Option<u64>) -> (r: Option<&V>)
        ensures
            finds(r, slot_entry(self.values@, slot)),
    {
        match slot {
            Some(s) => if s < self.values.len() as u64 {
                Some(&self.values[s as usize])
            } else {
                None
            },
            None => None,
        }
    }

    /// The hash function's own bytes, for the record's `function` field.
    pub fn function_bytes(&self) -> (r: Result<Vec<u8>, EncodeError>)
        ensures
            r is Ok,
            r matches Ok(b) ==> parses_as_function(b@),
    {
        match write_function(&self.function) {
            Ok(bytes) => Ok(bytes),
            Err(_) => Err(EncodeError::FunctionNotWritten),
        }
    }

    /// Rebuilds a map from its record: the values are taken as they stand;
    /// `function` must hold a hash function's bytes.
    pub fn from_parts(values: Vec<V>, function: &[u8]) -> (r: Result<Self, DecodeError>)
        ensures
            r matches Ok(m) ==> m.values@ == values@,
            r is Ok <==> is_framed_function(function@) && parses_as_function(function@),
            r is Err ==> r == Err::<Self, DecodeError>(DecodeError::InvalidFunctionBytes),
    {
        if !function_is_framed(function) {
            return Err(DecodeError::InvalidFunctionBytes);
        }
        match read_function(function) {
            Ok(f) => Ok(KeylessPerfectMap { function: f, values, keys: PhantomData }),
            Err(_) => Err(DecodeError::InvalidFunctionBytes),
        }
    }

    /// Rebuilds a map from the fields met by name: `function` and `values`
    /// are required (checked in that order); a `keys` placeholder is ignored.
    pub fn from_fields(values: Option<Vec<V>>, function: Option<Vec<u8>>) -> (r: Result<Self, DecodeError>)
        ensures
            function is None ==> r == Err::<Self, DecodeError>(
                DecodeError::MissingField(crate::codec::Field::Function),
            ),
            function is Some && values is None ==> r == Err::<Self, DecodeError>(
                DecodeError::MissingField(crate::codec::Field::Values),
            ),
            r matches Ok(m) ==> values is Some && values->Some_0@ == m.values@,
            function is Some && values is Some ==> (r is Ok <==> is_framed_function(
                function->Some_0@,
            ) && parses_as_function(function->Some_0@)),
            function is Some && values is Some && r is Err ==> r == Err::<Self, DecodeError>(
                DecodeError::InvalidFunctionBytes,
            ),
    {
        let function = match function {
            Some(f) => f,
            None => return Err(DecodeError::MissingField(crate::codec::Field::Function)),
        };
        let values = match values {
            Some(v) => v,
            None => return Err(DecodeError::MissingField(crate::codec::Field::Values)),
        };
        Self::from_parts(values, function.as_slice())
    }

    /// Rebuilds a map from the record's elements in wire order (`values`, the
    /// `keys` placeholder, `function`); the first one missing gives its
    /// position.
    pub fn from_sequence(values: Option<Vec<V>>, keys_present: bool, function: Option<Vec<u8>>) -> (r:
        Result<Self, DecodeError>)
        ensures
            values is None ==> r == Err::<Self, DecodeError>(DecodeError::InvalidLength(0)),
            values is Some && !keys_present ==> r == Err::<Self, DecodeError>(
                DecodeError::InvalidLength(1),
            ),
            values is Some && keys_present && function is None ==> r == Err::<Self, DecodeError>(
                DecodeError::InvalidLength(2),
            ),
            r matches Ok(m) ==> values is Some && values->Some_0@ == m.values@,
            values is Some && keys_present && function is Some ==> (r is Ok <==> is_framed_function(
                function->Some_0@,
            ) && parses_as_function(function->Some_0@)),
            values is Some && keys_present && function is Some && r is Err ==> r == Err::<
                Self,
                DecodeError,
            >(DecodeError::InvalidFunctionBytes),
    {
        let values = match values {
            Some(v) => v,
            None => return Err(DecodeError::InvalidLength(0)),
        };
        if !keys_present {
            return Err(DecodeError::InvalidLength(1));
        }
        let function = match function {
            Some(f) => f,
            None => return Err(DecodeError::InvalidLength(2)),
        };
        Self::from_parts(values, function.as_slice())
    }
}

impl<K: Hash + Sync, V> KeylessPerfectMap<K, V> {
    /// Builds the map over `keys`, value `values[i]` (converted) for key
    /// `keys[i]`.
    ///
    /// `None` when no hash function can be built over the keys (duplicate
    /// keys) or it does not give them distinct slots.
    pub fn new<U: Into<V>>(keys: Vec<K>, values: Vec<U>) -> (r: Option<Self>)
        requires
            keys@.len() == values@.len(),
        ensures
            r matches Some(m) ==> m.is_built_from(values@) && m.values@.len() == keys@.len()
                && m.is_well_formed(),
    {
        match build_slots(keys.as_slice(), values) {
            Some((function, _slots, placed)) => {
                let m = KeylessPerfectMap { function, values: placed, keys: PhantomData };
                assert(m.values@ == placed@);
                Some(m)
            },
            None => None,
        }
    }

    /// Builds the map from every entry of `map`, in the map's own order.
    pub fn from_map<U: Into<V>>(map: HashMap<K, U>) -> (r: Option<Self>)
        ensures
            r matches Some(m) ==> m.is_well_formed() && m.values@.len() == spec_hash_map_len(&map)
                && exists|keys: Seq<K>, values: Seq<U>|
                #![trigger m.is_built_from(values), keys.len()]
                m.is_built_from(values) && keys.len() == values.len() && (obeys_key_model::<K>()
                    ==> forall|i: int| 0 <= i < keys.len() ==> #[trigger] map@.contains_key(keys[i]) && map@[keys[i]] == values[i]),
    {
        let ghost mv = map@;
        let entries = entries_of(map);
        let (keys, values) = unzip_entries(entries);
        proof {
            if obeys_key_model::<K>() {
                assert forall|i: int| 0 <= i < keys@.len() implies #[trigger] mv.contains_key(keys@[i]) && mv[keys@[i]] == values@[i] by {
                    assert(entries@[entries@.len() - 1 - i] == (keys@[i], values@[i]));
                }
            }
            assert(keys@.len() == values@.len());
        }
        Self::new(keys, values)
    }

    /// The slot that the hash function gives `key`. For a key outside the
    /// construction set it is `None` or any slot.
    pub fn slot_of<Q: Hash + ?Sized>(&self, key: &Q) -> (r: Option<u64>)
        where
            K: Borrow<Q>,
        ensures
            r matches Some(s) ==> s < key_count(self.function),
    {
        evaluate(&self.function, key)
    }

    /// The value in the slot that the hash function gives `key`; for a key
    /// outside the construction set, some value of the map or nothing.
    pub fn get_unchecked<Q: Hash + ?Sized>(&self, key: &Q) -> (r: Option<&V>)
        where
            K: Borrow<Q>,
        ensures
            exists|slot: Option<u64>|
                #[trigger] finds(r, slot_entry(self.values@, slot)) && (slot matches Some(s) ==> s
                    < key_count(self.function)) && (self.is_well_formed() ==> (r is None <==> slot is None)),
    {
        let slot = self.slot_of(key);
        self.get_at_slot(slot)
    }

    /// The same lookup as [`Self::get_unchecked`]: the equality that the
    /// bounds ask for is not used, since no key is kept to compare with.
    pub fn get<Q: Hash + PartialEq + ?Sized>(&self, key: &Q) -> (r: Option<&V>)
        where
            K: Borrow<Q> + PartialEq,
        ensures
            exists|slot: Option<u64>|
                #[trigger] finds(r, slot_entry(self.values@, slot)) && (slot matches Some(s) ==> s
                    < key_count(self.function)) && (self.is_well_formed() ==> (r is None <==> slot is None)),
    {
        match self.slot_of(key) {
            Some(idx) => self.get_at_slot(Some(idx)),
            None => {
                assert(finds(None::<&V>, slot_entry(self.values@, None)));
                None
            },
        }
    }
}

impl<KEY: Hash + Sync, VALUE: Hash + Sync> KeylessPerfectMap<KEY, VALUE> {
    /// Builds the map from an association read the other way round: each
    /// entry `(value, key)` of `map` gives `key` the value `value` (converted).
    pub fn from_map_invert<U: Into<VALUE>>(map: HashMap<U, KEY>) -> (r: Option<Self>)
        ensures
            r matches Some(m) ==> m.is_well_formed() && m.values@.len() == spec_hash_map_len(&map)
                && exists|keys: Seq<KEY>, values: Seq<U>|
                #![trigger m.is_built_from(values), keys.len()]
                m.is_built_from(values) && keys.len() == values.len() && (obeys_key_model::<U>()
                    ==> forall|i: int| 0 <= i < keys.len() ==> #[trigger] map@.contains_key(values[i]) && map@[values[i]] == keys[i]),
    {
        let ghost mv = map@;
        let entries = entries_of(map);
        let (values, keys) = unzip_entries(entries);
        proof {
            if obeys_key_model::<U>() {
                assert forall|i: int| 0 <= i < keys@.len() implies #[trigger] mv.contains_key(values@[i]) && mv[values@[i]] == keys@[i] by {
                    assert(entries@[entries@.len() - 1 - i] == (values@[i], keys@[i]));
                }
            }
            assert(keys@.len() == values@.len());
        }
        Self::new(keys, values)
    }
}

/// Every position of a construction has a slot of its own, and looking that
/// slot up finds the position's value, converted: a map built from keys and
/// values answers each key's slot with that key's value.
pub proof fn lemma_built_map_finds_each_value<K, V, U: Into<V>>(m: KeylessPerfectMap<K, V>, values: Seq<U>)
    requires
        m.is_built_from(values),
        U::obeys_into_spec(),
    ensures
        exists|slots: Seq<u64>|
            #[trigger] is_slot_assignment(slots, values.len()) && forall|i: int|
                0 <= i < values.len() ==> slot_entry(m.values@, Some(#[trigger] slots[i])) == Some(
                    values[i].into_spec(),
                ),
{
    let (slots, conv) = choose|slots: Seq<u64>, conv: Seq<V>|
        is_conversion(values, conv) && #[trigger] is_placement(slots, conv, m.values@);
    lemma_placed_items_are_found(slots, conv, m.values@);
    assert(is_slot_assignment(slots, values.len()));
    assert forall|i: int| 0 <= i < values.len() implies slot_entry(m.values@, Some(#[trigger] slots[i]))
        == Some(values[i].into_spec()) by {
        assert(slot_entry(m.values@, Some(slots[i])) == Some(conv[i]));
    }
}

} // verus!
