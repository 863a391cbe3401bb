//! The minimal perfect hash function of the `ph` crate, and the few std calls
//! around it that vstd does not describe.
use std::collections::HashMap;
use std::hash::Hash;
use ph::fmph::keyset::SliceSourceWithRefs;
use ph::fmph::{GOBuildConf, GOConf, GOFunction};
use vstd::prelude::*;
use crate::codec::is_framed_function;
use vstd::std_specs::hash::{obeys_key_model, spec_hash_map_len};

verus! {

/// A minimal perfect hash function of the `ph` crate (`fmph::GOFunction`):
/// it sends each key of the set it was built over to its own slot in
/// `0..key_count`, and can write itself out as bytes and be read back.
#[verifier::external_body]
pub struct SlotFunction {
    inner: GOFunction,
}

/// The number of keys that a function was built over: its slots are
/// `0..key_count(f)`.
pub uninterp spec fn key_count(f: SlotFunction) -> nat;

/// Whether `ph`'s reader accepts `b` as the bytes of a hash function.
pub uninterp spec fn parses_as_function(b: Seq<u8>) -> bool;

#[verifier::external_type_specification]
#[verifier::external_body]
pub struct ExIoError(std::io::Error);

/// Relies on `ph::fmph::GOFunction::try_with_conf_stats`: builds a minimal
/// perfect hash function over `keys` with the given relative level size, or
/// gives `None` when the construction fails (in practice: duplicate keys).
/// Unlike `from_slice_with_conf` it does not panic. A built function has one
/// slot per key (`GOFunction::len`: the number of keys given during
/// construction).
#[verifier::external_body]
pub(crate) fn build_function<K: Hash + Sync>(keys: &[K], relative_level_size: u16) -> (r: Option<
    SlotFunction,
>)
    requires
        relative_level_size >= 1,
    ensures
        r matches Some(f) ==> key_count(f) == keys@.len(),
{
    GOFunction::try_with_conf_stats(
        SliceSourceWithRefs::<_, u8>::new(keys),
        GOBuildConf::with_lsize(GOConf::default(), relative_level_size),
        &mut (),
    ).map(|inner| SlotFunction { inner })
}

/// Relies on `ph::fmph::GOFunction::get`: the slot of `key`, in the range
/// from 0 to the number of keys. For a key outside the construction set it
/// may be `None` or any slot of that range. A `SlotFunction` comes only from
/// `build_function` or from `read_function` on framed bytes, and in either case
/// every level has at least one group, which is what `get` needs in order not
/// to panic.
#[verifier::external_body]
pub(crate) fn evaluate<Q: Hash + ?Sized>(function: &SlotFunction, key: &Q) -> (r: Option<u64>)
    ensures
        r matches Some(s) ==> s < key_count(*function),
{
    function.inner.get(key)
}

/// Relies on `ph::fmph::GOFunction::write`: the function's own byte encoding.
/// It fails only where its sink fails, and a `Vec` sink never does; and
/// `GOFunction::read` (same default hasher) accepts what it writes.
#[verifier::external_body]
pub(crate) fn write_function(function: &SlotFunction) -> (r: Result<Vec<u8>, std::io::Error>)
    ensures
        r is Ok,
        r matches Ok(b) ==> parses_as_function(b@),
{
    let mut bytes: Vec<u8> = Vec::new();
    function.inner.write(&mut bytes).map(|_| bytes)
}

/// Relies on `ph::fmph::GOFunction::read`: parses a function from its byte
/// encoding, or reports an error on bytes that do not hold one; which of the
/// two depends on the bytes alone. The frame keeps out the bytes on which it
/// would panic: the lengths it allocates by stay within the input, the sums
/// and products of group counts cannot overflow, and every level has a group,
/// so that `GOFunction::get` on the result never asks for a seed past the end.
/// Every encoding that `GOFunction::write` produces has this frame, as long as
/// no level has 2^28 groups or more.
#[verifier::external_body]
pub(crate) fn read_function(bytes: &[u8]) -> (r: Result<SlotFunction, std::io::Error>)
    requires
        is_framed_function(bytes@),
    ensures
        r is Ok <==> parses_as_function(bytes@),
{
    let mut input: &[u8] = bytes;
    GOFunction::read(&mut input).map(|inner| SlotFunction { inner })
}

/// Relies on `Vec::from_iter` over a `HashMap`: every entry once, in the
/// map's own order. Where the key type behaves as a key should (vstd's
/// `obeys_key_model`), each pair is an entry of the map.
#[verifier::external_body]
pub(crate) fn entries_of<A, B>(map: HashMap<A, B>) -> (r: Vec<(A, B)>)
    ensures
        r@.len() == spec_hash_map_len(&map),
        obeys_key_model::<A>() ==> forall|i: int|
            0 <= i < r@.len() ==> #[trigger] map@.contains_key(r@[i].0) && map@[r@[i].0] == r@[i].1,
{
    Vec::from_iter(map)
}

} // verus!
