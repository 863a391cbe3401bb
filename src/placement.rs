//! Moving items into the slots that a minimal perfect hash function gives them.
use vstd::prelude::*;
use vstd::set_lib::*;

verus! {

/// `slots` sends the positions `0..n` one to one onto the slots `0..n`.
pub open spec fn is_slot_assignment(slots: Seq<u64>, n: nat) -> bool {
    &&& slots.len() == n
    &&& forall|i: int| 0 <= i < slots.len() ==> #[trigger] slots[i] < n
    &&& forall|i: int, j: int|
        0 <= i < slots.len() && 0 <= j < slots.len() && i != j ==> slots[i] != slots[j]
}

/// `dst` holds `src[i]` in slot `slots[i]`, for every position `i`, and has one
/// slot per item.
pub open spec fn is_placement<T>(slots: Seq<u64>, src: Seq<T>, dst: Seq<T>) -> bool {
    &&& is_slot_assignment(slots, src.len())
    &&& dst.len() == src.len()
    &&& forall|i: int| 0 <= i < src.len() ==> dst[#[trigger] slots[i] as int] == src[i]
}

/// What a lookup finds in `dst` for a slot candidate: nothing when there is no
/// candidate or it lies past the end.
pub open spec fn slot_entry<T>(dst: Seq<T>, slot: Option<u64>) -> Option<T> {
    match slot {
        Some(s) => if s < dst.len() {
            Some(dst[s as int])
        } else {
            None
        },
        None => None,
    }
}

/// A lookup's answer `r` is what the slot it reached holds.
pub open spec fn finds<T>(r: Option<&T>, entry: Option<T>) -> bool {
    match r {
        Some(v) => entry == Some(*v),
        None => entry is None,
    }
}

/// Some position is sent to slot `s`.
pub open spec fn slot_is_hit(slots: Seq<u64>, s: int) -> bool {
    exists|i: int| 0 <= i < slots.len() && slots[i] == s
}

/// A one-to-one assignment of `n` positions into `n` slots reaches every slot.
pub proof fn lemma_assignment_covers(slots: Seq<u64>, n: nat)
    requires
        is_slot_assignment(slots, n),
    ensures
        forall|s: int| 0 <= s < n ==> #[trigger] slot_is_hit(slots, s),
{
    let ss = slots.map_values(|x: u64| x as int);
    assert(ss.no_duplicates()) by {
        assert forall|i: int, j: int| 0 <= i < ss.len() && 0 <= j < ss.len() && i != j implies ss[i]
            != ss[j] by {
            assert(slots[i] != slots[j]);
        }
    }
    ss.unique_seq_to_set();
    lemma_int_range(0, n as int);
    let range = set_int_range(0, n as int);
    assert(ss.to_set().subset_of(range)) by {
        assert forall|s: int| ss.to_set().contains(s) implies range.contains(s) by {
            let i = choose|i: int| 0 <= i < ss.len() && ss[i] == s;
            assert(slots[i] < n);
        }
    }
    lemma_subset_equality(ss.to_set(), range);
    assert forall|s: int| 0 <= s < n implies #[trigger] slot_is_hit(slots, s) by {
        assert(range.contains(s));
        assert(ss.to_set().contains(s));
        let i = choose|i: int| 0 <= i < ss.len() && ss[i] == s;
        assert(slots[i] == s);
    }
}

/// Looking up the slot of any position of a placement finds that position's
/// item: what was put in is what comes out.
pub proof fn lemma_placed_items_are_found<T>(slots: Seq<u64>, src: Seq<T>, dst: Seq<T>)
    requires
        is_placement(slots, src, dst),
    ensures
        forall|i: int|
            0 <= i < src.len() ==> #[trigger] slot_entry(dst, Some(slots[i])) == Some(src[i]),
{
    assert forall|i: int| 0 <= i < src.len() implies #[trigger] slot_entry(dst, Some(slots[i]))
        == Some(src[i]) by {
        assert(slots[i] < src.len());
    }
}

/// A placement of `n` items has exactly `n` slots, and each slot is written
/// by exactly one position.
pub proof fn lemma_each_slot_written_once<T>(slots: Seq<u64>, src: Seq<T>, dst: Seq<T>)
    requires
        is_placement(slots, src, dst),
    ensures
        dst.len() == src.len(),
        forall|s: int| 0 <= s < dst.len() ==> #[trigger] slot_is_hit(slots, s),
        forall|i: int, j: int|
            0 <= i < src.len() && 0 <= j < src.len() && #[trigger] slots[i] == #[trigger] slots[j]
                ==> i == j,
{
    lemma_assignment_covers(slots, src.len());
}

/// Moves each item into its slot: item `i` goes to slot `slots[i]`.
///
/// Succeeds exactly when `slots` is a one-to-one assignment of the items onto
/// as many slots, so that every slot is written once before it is read.
pub fn place_by_slots<T>(slots: &Vec<u64>, items: Vec<T>) -> (r: Option<Vec<T>>)
    ensures
        r is Some <==> is_slot_assignment(slots@, items@.len()),
        r matches Some(dst) ==> is_placement(slots@, items@, dst@),
{
    let n = items.len();
    if slots.len() != n {
        return None;
    }
    let ghost src = items@;
    let mut buf: Vec<Option<T>> = Vec::with_capacity(n);
    let mut k: usize = 0;
    while k < n
        invariant
            k <= n,
            buf@.len() == k,
            forall|s: int| 0 <= s < k ==> buf@[s] is None,
        decreases n - k,
    {
        buf.push(None);
        k += 1;
    }
    let mut items = items;
    let mut i: usize = n;
    while i > 0
        invariant
            i <= n,
            n == src.len(),
            slots@.len() == n,
            buf@.len() == n,
            items@ == src.subrange(0, i as int),
            forall|j: int| i <= j < n ==> #[trigger] slots@[j] < n,
            forall|j: int| i <= j < n ==> buf@[#[trigger] slots@[j] as int] == Some(src[j]),
            forall|j1: int, j2: int|
                i <= j1 < n && i <= j2 < n && j1 != j2 ==> slots@[j1] != slots@[j2],
            forall|s: int|
                0 <= s < n && (#[trigger] buf@[s]) is Some ==> exists|j: int|
                    i <= j < n && slots@[j] == s,
        decreases i,
    {
        i -= 1;
        let s = slots[i];
        if s >= n as u64 {
            return None;
        }
        let su = s as usize;
        if buf[su].is_some() {
            proof {
                let j = choose|j: int| i < j < n && slots@[j] == su as int;
                assert(slots@[j] == slots@[i as int]);
            }
            return None;
        }
        let v = items.pop().unwrap();
        assert(v == src[i as int]);
        buf.set(su, Some(v));
        proof {
            assert forall|j1: int, j2: int|
                i <= j1 < n && i <= j2 < n && j1 != j2 implies slots@[j1] != slots@[j2] by {
                if j1 == i && j2 != i {
                    assert(buf@[slots@[j2] as int] is Some);
                } else if j2 == i && j1 != i {
                    assert(buf@[slots@[j1] as int] is Some);
                }
            }
        }
    }
    proof {
        lemma_assignment_covers(slots@, n as nat);
    }
    let ghost dense = Seq::new(n as nat, |s: int| buf@[s]->Some_0);
    assert forall|s: int| 0 <= s < n implies #[trigger] buf@[s] == Some(dense[s]) by {
        assert(slot_is_hit(slots@, s));
        let j = choose|j: int| 0 <= j < n && #[trigger] slots@[j] == s;
        assert(buf@[slots@[j] as int] == Some(src[j]));
    }
    assert(is_placement(slots@, src, dense)) by {
        assert forall|j: int| 0 <= j < n implies dense[#[trigger] slots@[j] as int] == src[j] by {
            assert(buf@[slots@[j] as int] == Some(src[j]));
        }
    }
    // Every slot now holds its item; take them out, last slot first.
    let mut rev: Vec<T> = Vec::with_capacity(n);
    let mut m: usize = n;
    while m > 0
        invariant
            m <= n,
            n == dense.len(),
            buf@.len() == m,
            rev@.len() == n - m,
            forall|s: int| 0 <= s < m ==> #[trigger] buf@[s] == Some(dense[s]),
            forall|t: int| 0 <= t < n - m ==> #[trigger] rev@[t] == dense[n - 1 - t],
        decreases m,
    {
        m -= 1;
        let e = buf.pop().unwrap();
        let v = e.unwrap();
        rev.push(v);
    }
    let mut out: Vec<T> = Vec::with_capacity(n);
    while out.len() < n
        invariant
            n == dense.len(),
            out@.len() + rev@.len() == n,
            forall|t: int| 0 <= t < rev@.len() ==> #[trigger] rev@[t] == dense[n - 1 - t],
            forall|t: int| 0 <= t < out@.len() ==> #[trigger] out@[t] == dense[t],
        decreases n - out@.len(),
    {
        let v = rev.pop().unwrap();
        out.push(v);
    }
    assert(out@ =~= dense);
    Some(out)
}

} // verus!
