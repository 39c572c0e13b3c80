//! What holds of the hash map across its operations.
use vstd::prelude::*;

use crate::bpf::map::hash_map::{
    lemma_sorted_index_of, next_key_of, strictly_sorted, BpfHashMap,
};
use crate::bpf::map::util::{update_outcome, BPF_ANY, BPF_EXIST, BPF_NOEXIST};
use crate::bpf::map::BpfMap;
use crate::error::SystemError;

verus! {

/// The keys that iteration yields after `n + 1` steps of "next key", starting
/// from no key: the keys a caller of `get_next_key` sees, one per call, each call
/// given the key the previous one returned.
pub open spec fn key_walk(ks: Seq<Seq<u8>>, n: nat) -> Option<Seq<u8>>
    decreases n,
{
    if n == 0 {
        next_key_of(ks, None)
    } else {
        match key_walk(ks, (n - 1) as nat) {
            Some(k) => next_key_of(ks, Some(k)),
            None => None,
        }
    }
}

/// A lookup right after binding `k` to `v` finds `v`, and finds for every other key
/// what it found before.
pub proof fn law_lookup_after_update(
    before: BpfHashMap,
    after: BpfHashMap,
    k: Seq<u8>,
    v: Seq<u8>,
    other: Seq<u8>,
)
    requires
        after@ == before@.insert(k, v),
    ensures
        after@.contains_key(k),
        after@[k] == v,
        other != k ==> (after@.contains_key(other) <==> before@.contains_key(other)),
        other != k && before@.contains_key(other) ==> after@[other] == before@[other],
{
}

/// Through the helper functions: a lookup from a CPU right after an update from
/// that CPU finds the value written; on a per-CPU map the contents seen from every
/// other CPU are what they were.
pub proof fn law_helper_lookup_after_update(
    before: BpfMap,
    after: BpfMap,
    cpu: int,
    k: Seq<u8>,
    v: Seq<u8>,
    other_cpu: int,
)
    requires
        before.serves_cpu(cpu),
        after.contents_on(cpu) == before.contents_on(cpu).insert(k, v),
        forall|c: int|
            c != cpu && before.serves_cpu(c) && (before.inner() is PerCpuHash)
                ==> #[trigger] after.contents_on(c) == before.contents_on(c),
    ensures
        after.contents_on(cpu).contains_key(k),
        after.contents_on(cpu)[k] == v,
        other_cpu != cpu && before.serves_cpu(other_cpu) && (before.inner() is PerCpuHash)
            ==> after.contents_on(other_cpu) == before.contents_on(other_cpu),
{
}

/// After a key is deleted a lookup of it finds nothing, and every other key keeps
/// its value; deleting a key the map does not hold changes nothing.
pub proof fn law_lookup_after_delete(
    before: BpfHashMap,
    after: BpfHashMap,
    k: Seq<u8>,
    other: Seq<u8>,
)
    requires
        after@ == before@.remove(k),
    ensures
        !after@.contains_key(k),
        other != k ==> (after@.contains_key(other) <==> before@.contains_key(other)),
        other != k && before@.contains_key(other) ==> after@[other] == before@[other],
        !before@.contains_key(k) ==> after@ == before@,
{
    if !before@.contains_key(k) {
        assert(after@ =~= before@);
    }
}

/// Binding the same key twice keeps only the second value; binding two different
/// keys gives the same map in either order.
pub proof fn law_update_overwrites_and_commutes(
    m: Map<Seq<u8>, Seq<u8>>,
    k1: Seq<u8>,
    v1: Seq<u8>,
    k2: Seq<u8>,
    v2: Seq<u8>,
)
    ensures
        m.insert(k1, v1).insert(k1, v2) == m.insert(k1, v2),
        k1 != k2 ==> m.insert(k1, v1).insert(k2, v2) == m.insert(k2, v2).insert(k1, v1),
{
    assert(m.insert(k1, v1).insert(k1, v2) =~= m.insert(k1, v2));
    if k1 != k2 {
        assert(m.insert(k1, v1).insert(k2, v2) =~= m.insert(k2, v2).insert(k1, v1));
    }
}

/// The keys in iteration order are exactly the keys of the map, each once, in
/// strictly ascending order.
pub proof fn law_keys_are_the_map_keys_in_order(m: BpfHashMap, k: Seq<u8>)
    requires
        m.wf(),
    ensures
        m@.contains_key(k) <==> m.keys().contains(k),
        strictly_sorted(m.keys()),
        m.keys().no_duplicates(),
{
    assert forall|i: int, j: int|
        0 <= i < m.keys().len() && 0 <= j < m.keys().len() && i != j implies m.keys()[i]
        != m.keys()[j] by {
        lemma_sorted_index_of(m.keys(), i);
        lemma_sorted_index_of(m.keys(), j);
    }
}

/// Walking the map with "next key" from no key visits every key exactly once, in
/// ascending order, and then reports that there is no next key.
pub proof fn law_next_key_walk_visits_every_key(m: BpfHashMap, n: nat)
    requires
        m.wf(),
    ensures
        n < m.keys().len() ==> key_walk(m.keys(), n) == Some(m.keys()[n as int]),
        n >= m.keys().len() ==> key_walk(m.keys(), n) is None,
    decreases n,
{
    let ks = m.keys();
    if n > 0 {
        law_next_key_walk_visits_every_key(m, (n - 1) as nat);
        if n - 1 < ks.len() {
            lemma_sorted_index_of(ks, n - 1);
        }
    }
}

/// A map never holds more entries than it was created to hold, and an update that
/// would add a key to a full map is refused (a refused update changes nothing, by
/// the contract of `update_elem`).
pub proof fn law_entries_within_capacity(m: BpfHashMap, k: Seq<u8>, flags: u64)
    requires
        m.wf(),
    ensures
        m.keys().len() <= m.spec_max_entries(),
        !m@.contains_key(k) && m.keys().len() >= m.spec_max_entries() ==> m.update_outcome(
            k,
            flags,
        ) is Err,
{
}

/// How an update is answered, by its flags and by whether the key is held: the
/// flags alone refuse it (`EINVAL` for `BPF_NOEXIST` and `BPF_EXIST` together,
/// `EEXIST` for a held key under `BPF_NOEXIST`, `ENOENT` for a new key under
/// `BPF_EXIST`), and a full map refuses only a key it does not hold yet (`E2BIG`).
/// An update of a held key under `BPF_ANY` or `BPF_EXIST` is made however many
/// entries the map has.
pub proof fn law_update_outcome_cases(held: bool, count: nat, max_entries: u32, flags: u64)
    ensures
        update_outcome(held, count, max_entries, flags) == Err::<(), SystemError>(
            SystemError::EINVAL,
        ) <==> flags % 4 == 3,
        update_outcome(held, count, max_entries, flags) == Err::<(), SystemError>(
            SystemError::EEXIST,
        ) <==> flags % 4 == BPF_NOEXIST && held,
        update_outcome(held, count, max_entries, flags) == Err::<(), SystemError>(
            SystemError::ENOENT,
        ) <==> flags % 4 == BPF_EXIST && !held,
        update_outcome(held, count, max_entries, flags) == Err::<(), SystemError>(
            SystemError::E2BIG,
        ) <==> (flags % 4 == BPF_ANY || flags % 4 == BPF_NOEXIST) && !held && count
            >= max_entries,
        held && (flags % 4 == BPF_ANY || flags % 4 == BPF_EXIST) ==> update_outcome(
            held,
            count,
            max_entries,
            flags,
        ) == Ok::<(), SystemError>(()),
{
}

/// Whether a map is full plays no part in an update of a key it holds: the answer
/// is the same for any number of entries and any capacity.
pub proof fn law_held_key_update_ignores_capacity(
    count: nat,
    max_entries: u32,
    other_count: nat,
    other_max_entries: u32,
    flags: u64,
)
    ensures
        update_outcome(true, count, max_entries, flags) == update_outcome(
            true,
            other_count,
            other_max_entries,
            flags,
        ),
{
}

/// On a map that holds `k`, an update of `k` under `BPF_ANY` or `BPF_EXIST` is made
/// (so a lookup of `k` then finds the new value, by the contract of `update_elem`),
/// even where the map is full.
pub proof fn law_update_of_held_key_is_made(m: BpfHashMap, k: Seq<u8>, flags: u64)
    requires
        m.wf(),
        m@.contains_key(k),
        flags % 4 == BPF_ANY || flags % 4 == BPF_EXIST,
    ensures
        m.update_outcome(k, flags) == Ok::<(), SystemError>(()),
{
}

/// Asking for the key after one the map does not hold restarts the walk at the
/// first key.
pub proof fn law_next_key_of_unknown_key_restarts(m: BpfHashMap, k: Seq<u8>)
    requires
        m.wf(),
        !m@.contains_key(k),
    ensures
        next_key_of(m.keys(), Some(k)) == next_key_of(m.keys(), None),
{
}

} // verus!
