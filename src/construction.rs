//! The construction pass shared by both maps: build the hash function, ask it
//! for the slot of every key, convert the values and move them into place.
use std::hash::Hash;
use vstd::prelude::*;
use vstd::std_specs::convert::IntoSpec;
use crate::hashing::{build_function, evaluate, key_count, SlotFunction};
use crate::placement::{is_placement, place_by_slots};

verus! {

/// The relative level size handed to the hash function's builder: a moderate
/// trade between the function's size and its construction time.
pub const RELATIVE_LEVEL_SIZE: u16 = 300;

/// `dst` holds the items of `src`, each converted by `Into`, in order.
pub open spec fn is_conversion<U: Into<V>, V>(src: Seq<U>, dst: Seq<V>) -> bool {
    &&& dst.len() == src.len()
    &&& U::obeys_into_spec() ==> forall|i: int| 0 <= i < src.len() ==> dst[i] == #[trigger] src[i].into_spec()
}

/// Converts every item by `Into`, keeping the order.
pub fn convert_all<U: Into<V>, V>(items: Vec<U>) -> (r: Vec<V>)
    ensures
        is_conversion(items@, r@),
{
    let ghost src = items@;
    let n = items.len();
    let mut items = items;
    let mut rev: Vec<V> = Vec::with_capacity(n);
    while items.len() > 0
        invariant
            n == src.len(),
            items@ == src.subrange(0, items@.len() as int),
            rev@.len() + items@.len() == n,
            forall|t: int| 0 <= t < rev@.len() ==> U::obeys_into_spec() ==> #[trigger] rev@[t] == src[n - 1 - t].into_spec(),
        decreases items@.len(),
    {
        let u = items.pop().unwrap();
        rev.push(u.into());
    }
    let mut out: Vec<V> = Vec::with_capacity(n);
    while out.len() < n
        invariant
            n == src.len(),
            out@.len() + rev@.len() == n,
            forall|t: int| 0 <= t < rev@.len() ==> U::obeys_into_spec() ==> #[trigger] rev@[t] == src[n - 1 - t].into_spec(),
            forall|t: int| 0 <= t < out@.len() ==> U::obeys_into_spec() ==> #[trigger] out@[t] == src[t].into_spec(),
        decreases n - out@.len(),
    {
        let v = rev.pop().unwrap();
        out.push(v);
    }
    out
}

/// Splits pairs into two aligned vectors, last pair first: position `i` of
/// each holds a half of `entries[n - 1 - i]`.
pub fn unzip_entries<A, B>(entries: Vec<(A, B)>) -> (r: (Vec<A>, Vec<B>))
    ensures
        r.0@.len() == entries@.len(),
        r.1@.len() == entries@.len(),
        forall|i: int|
            0 <= i < entries@.len() ==> r.0@[i] == (#[trigger] entries@[entries@.len() - 1 - i]).0
                && r.1@[i] == entries@[entries@.len() - 1 - i].1,
{
    let ghost src = entries@;
    let n = entries.len();
    let mut entries = entries;
    let mut firsts: Vec<A> = Vec::with_capacity(n);
    let mut seconds: Vec<B> = Vec::with_capacity(n);
    while entries.len() > 0
        invariant
            n == src.len(),
            entries@ == src.subrange(0, entries@.len() as int),
            firsts@.len() + entries@.len() == n,
            seconds@.len() == firsts@.len(),
            forall|i: int|
                0 <= i < firsts@.len() ==> firsts@[i] == (#[trigger] src[n - 1 - i]).0 && seconds@[i]
                    == src[n - 1 - i].1,
        decreases entries@.len(),
    {
        let (a, b) = entries.pop().unwrap();
        firsts.push(a);
        seconds.push(b);
    }
    (firsts, seconds)
}

/// Asks `function` for the slot of each key, in order; `None` when it declines one.
pub fn slots_of<K: Hash>(function: &SlotFunction, keys: &[K]) -> (r: Option<Vec<u64>>)
    ensures
        r matches Some(s) ==> s@.len() == keys@.len() && forall|i: int|
            0 <= i < s@.len() ==> #[trigger] s@[i] < key_count(*function),
{
    let mut slots: Vec<u64> = Vec::with_capacity(keys.len());
    let mut i: usize = 0;
    while i < keys.len()
        invariant
            i <= keys@.len(),
            slots@.len() == i,
            forall|j: int| 0 <= j < i ==> #[trigger] slots@[j] < key_count(*function),
        decreases keys@.len() - i,
    {
        match evaluate(function, &keys[i]) {
            Some(s) => slots.push(s),
            None => return None,
        }
        i += 1;
    }
    Some(slots)
}

/// The construction pass: a hash function over `keys`, the slot it gives each
/// key, and the converted values moved into those slots.
///
/// `None` when the hash function cannot be built over the keys (duplicate
/// keys), or when it does not send them one to one onto the slots.
pub fn build_slots<K: Hash + Sync, U: Into<V>, V>(keys: &[K], values: Vec<U>) -> (r: Option<
    (SlotFunction, Vec<u64>, Vec<V>),
>)
    requires
        keys@.len() == values@.len(),
    ensures
        r is Some ==> key_count(r->Some_0.0) == keys@.len(),
        r is Some ==> exists|conv: Seq<V>|
            is_conversion(values@, conv) && #[trigger] is_placement(r->Some_0.1@, conv, r->Some_0.2@),
{
    let function = match build_function(keys, RELATIVE_LEVEL_SIZE) {
        Some(f) => f,
        None => return None,
    };
    let slots = match slots_of(&function, keys) {
        Some(s) => s,
        None => return None,
    };
    let converted = convert_all(values);
    let ghost conv = converted@;
    match place_by_slots(&slots, converted) {
        Some(placed) => {
            let r = Some((function, slots, placed));
            assert(is_conversion(values@, conv));
            assert(is_placement(r->Some_0.1@, conv, r->Some_0.2@));
            r
        },
        None => None,
    }
}

} // verus!
