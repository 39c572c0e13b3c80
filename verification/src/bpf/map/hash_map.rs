//! The hash map type: a map from byte-string keys to byte-string values with no
//! restriction on their structure, and its per-CPU variant.
//!
//! The entries are kept in a vector sorted by key in the lexicographic order of
//! byte strings, so that iteration visits the keys in ascending order.
use vstd::prelude::*;

use crate::bpf::map::key_order::{
    compare_keys, lemma_lex_lt_asymmetric, lemma_lex_lt_transitive, lex_lt, KeyOrder,
};
use crate::bpf::map::util::{round_up, round_up_spec, update_outcome, BpfMapMeta};
use crate::error::{Result, SystemError};

verus! {

/// Every key comes strictly before every later key.
pub open spec fn strictly_sorted(ks: Seq<Seq<u8>>) -> bool {
    forall|i: int, j: int| 0 <= i < j < ks.len() ==> lex_lt(#[trigger] ks[i], #[trigger] ks[j])
}

/// The map that a sequence of keys and the values beside them describe.
pub open spec fn entries_map(ks: Seq<Seq<u8>>, vs: Seq<Seq<u8>>) -> Map<Seq<u8>, Seq<u8>> {
    Map::new(|k: Seq<u8>| ks.contains(k), |k: Seq<u8>| vs[ks.index_of(k)])
}

/// In a strictly sorted key sequence each key stands at exactly one index.
pub proof fn lemma_sorted_index_of(ks: Seq<Seq<u8>>, i: int)
    requires
        strictly_sorted(ks),
        0 <= i < ks.len(),
    ensures
        ks.contains(ks[i]),
        ks.index_of(ks[i]) == i,
{
    assert(ks[i] == ks[i]);
    let j = ks.index_of(ks[i]);
    if j < i {
        assert(lex_lt(ks[j], ks[i]));
        lemma_lex_lt_asymmetric(ks[i], ks[i]);
    } else if i < j {
        assert(lex_lt(ks[i], ks[j]));
        lemma_lex_lt_asymmetric(ks[i], ks[i]);
    }
}

/// What the map gives for the key at index `i`.
pub proof fn lemma_entries_map_at(ks: Seq<Seq<u8>>, vs: Seq<Seq<u8>>, i: int)
    requires
        strictly_sorted(ks),
        0 <= i < ks.len(),
    ensures
        entries_map(ks, vs).contains_key(ks[i]),
        entries_map(ks, vs)[ks[i]] == vs[i],
{
    lemma_sorted_index_of(ks, i);
}

/// Putting a key at the place where it sorts adds it to the map and keeps the keys sorted.
pub proof fn lemma_entries_map_insert_new(
    ks: Seq<Seq<u8>>,
    vs: Seq<Seq<u8>>,
    p: int,
    k: Seq<u8>,
    v: Seq<u8>,
)
    requires
        strictly_sorted(ks),
        ks.len() == vs.len(),
        0 <= p <= ks.len(),
        forall|i: int| 0 <= i < p ==> lex_lt(#[trigger] ks[i], k),
        p < ks.len() ==> lex_lt(k, ks[p]),
    ensures
        strictly_sorted(ks.insert(p, k)),
        entries_map(ks.insert(p, k), vs.insert(p, v)) =~= entries_map(ks, vs).insert(k, v),
{
    let nks = ks.insert(p, k);
    let nvs = vs.insert(p, v);
    ks.insert_ensures(p, k);
    vs.insert_ensures(p, v);
    assert forall|i: int, j: int| 0 <= i < j < nks.len() implies lex_lt(
        #[trigger] nks[i],
        #[trigger] nks[j],
    ) by {
        if j < p {
            assert(nks[i] == ks[i] && nks[j] == ks[j]);
        } else if j == p {
            assert(nks[i] == ks[i]);
        } else if i < p {
            assert(nks[i] == ks[i] && nks[j] == ks[j - 1]);
            if j - 1 > p {
                assert(lex_lt(ks[p], ks[j - 1]));
                lemma_lex_lt_transitive(k, ks[p], ks[j - 1]);
            }
            lemma_lex_lt_transitive(ks[i], k, ks[j - 1]);
        } else if i == p {
            assert(nks[j] == ks[j - 1]);
            if j - 1 > p {
                assert(lex_lt(ks[p], ks[j - 1]));
                lemma_lex_lt_transitive(k, ks[p], ks[j - 1]);
            }
        } else {
            assert(nks[i] == ks[i - 1] && nks[j] == ks[j - 1]);
        }
    }
    let m = entries_map(ks, vs);
    let nm = entries_map(nks, nvs);
    assert forall|x: Seq<u8>| nm.contains_key(x) <==> m.insert(k, v).contains_key(x) by {
        if nks.contains(x) {
            let j = choose|j: int| 0 <= j < nks.len() && nks[j] == x;
            if j < p {
                assert(ks[j] == x);
            } else if j > p {
                assert(ks[j - 1] == x);
            }
        }
        if ks.contains(x) {
            let j = choose|j: int| 0 <= j < ks.len() && ks[j] == x;
            if j < p {
                assert(nks[j] == x);
            } else {
                assert(nks[j + 1] == x);
            }
        }
        if x == k {
            assert(nks[p] == k);
        }
    }
    assert forall|x: Seq<u8>| nm.contains_key(x) implies nm[x] == m.insert(k, v)[x] by {
        let j = choose|j: int| 0 <= j < nks.len() && nks[j] == x;
        lemma_entries_map_at(nks, nvs, j);
        if j < p {
            assert(nks[j] == ks[j]);
            lemma_entries_map_at(ks, vs, j);
            assert(lex_lt(ks[j], k));
            lemma_lex_lt_asymmetric(k, k);
        } else if j > p {
            assert(nks[j] == ks[j - 1]);
            lemma_entries_map_at(ks, vs, j - 1);
            lemma_lex_lt_asymmetric(k, k);
            if j - 1 > p {
                assert(lex_lt(ks[p], ks[j - 1]));
                lemma_lex_lt_transitive(k, ks[p], ks[j - 1]);
            }
        }
    }
}

/// Writing a new value at the index of a key rebinds that key.
pub proof fn lemma_entries_map_replace(ks: Seq<Seq<u8>>, vs: Seq<Seq<u8>>, p: int, v: Seq<u8>)
    requires
        strictly_sorted(ks),
        ks.len() == vs.len(),
        0 <= p < ks.len(),
    ensures
        entries_map(ks, vs.update(p, v)) =~= entries_map(ks, vs).insert(ks[p], v),
{
    let m = entries_map(ks, vs);
    let nm = entries_map(ks, vs.update(p, v));
    lemma_entries_map_at(ks, vs.update(p, v), p);
    assert forall|x: Seq<u8>| nm.contains_key(x) implies nm[x] == m.insert(ks[p], v)[x] by {
        let j = choose|j: int| 0 <= j < ks.len() && ks[j] == x;
        lemma_entries_map_at(ks, vs.update(p, v), j);
        lemma_entries_map_at(ks, vs, j);
    }
}

/// Dropping the entry at an index removes its key from the map and keeps the keys sorted.
pub proof fn lemma_entries_map_remove(ks: Seq<Seq<u8>>, vs: Seq<Seq<u8>>, p: int)
    requires
        strictly_sorted(ks),
        ks.len() == vs.len(),
        0 <= p < ks.len(),
    ensures
        strictly_sorted(ks.remove(p)),
        entries_map(ks.remove(p), vs.remove(p)) =~= entries_map(ks, vs).remove(ks[p]),
{
    let nks = ks.remove(p);
    let nvs = vs.remove(p);
    ks.remove_ensures(p);
    vs.remove_ensures(p);
    assert forall|i: int, j: int| 0 <= i < j < nks.len() implies lex_lt(
        #[trigger] nks[i],
        #[trigger] nks[j],
    ) by {
        let oi = if i < p { i } else { i + 1 };
        let oj = if j < p { j } else { j + 1 };
        assert(nks[i] == ks[oi] && nks[j] == ks[oj]);
    }
    let m = entries_map(ks, vs);
    let nm = entries_map(nks, nvs);
    let k = ks[p];
    assert forall|x: Seq<u8>| nm.contains_key(x) <==> m.remove(k).contains_key(x) by {
        if nks.contains(x) {
            let j = choose|j: int| 0 <= j < nks.len() && nks[j] == x;
            let oj = if j < p { j } else { j + 1 };
            assert(ks[oj] == x);
            lemma_sorted_index_of(ks, oj);
            lemma_sorted_index_of(ks, p);
        }
        if ks.contains(x) && x != k {
            let j = choose|j: int| 0 <= j < ks.len() && ks[j] == x;
            if j < p {
                assert(nks[j] == x);
            } else {
                assert(nks[j - 1] == x);
            }
        }
    }
    assert forall|x: Seq<u8>| nm.contains_key(x) implies nm[x] == m.remove(k)[x] by {
        let j = choose|j: int| 0 <= j < nks.len() && nks[j] == x;
        lemma_entries_map_at(nks, nvs, j);
        let oj = if j < p { j } else { j + 1 };
        lemma_entries_map_at(ks, vs, oj);
    }
}

/// The ascending keys `ks` with `k` added at its place (unchanged where `k` is there).
pub open spec fn insert_sorted(ks: Seq<Seq<u8>>, k: Seq<u8>) -> Seq<Seq<u8>>
    decreases ks.len(),
{
    if ks.len() == 0 {
        seq![k]
    } else if ks[0] == k {
        ks
    } else if lex_lt(k, ks[0]) {
        seq![k] + ks
    } else {
        seq![ks[0]] + insert_sorted(ks.drop_first(), k)
    }
}

/// The keys `ks` without `k`.
pub open spec fn remove_key(ks: Seq<Seq<u8>>, k: Seq<u8>) -> Seq<Seq<u8>>
    decreases ks.len(),
{
    if ks.len() == 0 {
        ks
    } else if ks[0] == k {
        ks.drop_first()
    } else {
        seq![ks[0]] + remove_key(ks.drop_first(), k)
    }
}

proof fn lemma_sorted_drop_first(ks: Seq<Seq<u8>>)
    requires
        strictly_sorted(ks),
        ks.len() > 0,
    ensures
        strictly_sorted(ks.drop_first()),
{
    let d = ks.drop_first();
    assert forall|i: int, j: int| 0 <= i < j < d.len() implies lex_lt(
        #[trigger] d[i],
        #[trigger] d[j],
    ) by {
        assert(d[i] == ks[i + 1] && d[j] == ks[j + 1]);
    }
}

/// Where `k` sorts at `p`, adding it at its place is inserting it at `p`, or
/// nothing where it is there already.
proof fn lemma_insert_sorted(ks: Seq<Seq<u8>>, k: Seq<u8>, p: int)
    requires
        strictly_sorted(ks),
        0 <= p <= ks.len(),
        forall|i: int| 0 <= i < p ==> lex_lt(#[trigger] ks[i], k),
        p < ks.len() ==> (ks[p] == k || lex_lt(k, ks[p])),
    ensures
        insert_sorted(ks, k) == (if p < ks.len() && ks[p] == k {
            ks
        } else {
            ks.insert(p, k)
        }),
    decreases ks.len(),
{
    lemma_lex_lt_asymmetric(k, k);
    if ks.len() == 0 {
        assert(ks.insert(p, k) =~= seq![k]);
    } else if p == 0 {
        if ks[0] != k {
            assert(ks.insert(0, k) =~= seq![k] + ks);
        }
    } else {
        assert(lex_lt(ks[0], k));
        lemma_lex_lt_asymmetric(ks[0], k);
        lemma_sorted_drop_first(ks);
        let d = ks.drop_first();
        assert forall|i: int| 0 <= i < p - 1 implies lex_lt(#[trigger] d[i], k) by {
            assert(d[i] == ks[i + 1]);
        }
        lemma_insert_sorted(d, k, p - 1);
        if p < ks.len() && ks[p] == k {
            assert(seq![ks[0]] + d =~= ks);
        } else {
            assert(seq![ks[0]] + d.insert(p - 1, k) =~= ks.insert(p, k));
        }
    }
}

/// Removing `k`, which stands at `p`, is removing the entry at `p`.
proof fn lemma_remove_key_at(ks: Seq<Seq<u8>>, k: Seq<u8>, p: int)
    requires
        strictly_sorted(ks),
        0 <= p < ks.len(),
        ks[p] == k,
    ensures
        remove_key(ks, k) == ks.remove(p),
    decreases ks.len(),
{
    if p == 0 {
        assert(ks.remove(0) =~= ks.drop_first());
    } else {
        assert(lex_lt(ks[0], ks[p]));
        lemma_lex_lt_asymmetric(ks[0], k);
        lemma_sorted_drop_first(ks);
        let d = ks.drop_first();
        assert(d[p - 1] == k);
        lemma_remove_key_at(d, k, p - 1);
        assert(seq![ks[0]] + d.remove(p - 1) =~= ks.remove(p));
    }
}

/// Removing a key that is not there changes nothing.
proof fn lemma_remove_key_absent(ks: Seq<Seq<u8>>, k: Seq<u8>)
    requires
        !ks.contains(k),
    ensures
        remove_key(ks, k) == ks,
    decreases ks.len(),
{
    if ks.len() > 0 {
        assert(ks[0] != k);
        let d = ks.drop_first();
        assert(!d.contains(k)) by {
            if d.contains(k) {
                let j = choose|j: int| 0 <= j < d.len() && d[j] == k;
                assert(ks[j + 1] == k);
            }
        }
        lemma_remove_key_absent(d, k);
        assert(seq![ks[0]] + d =~= ks);
    }
}

/// A map from byte-string keys to byte-string values with no restriction on
/// their structure, in which lookups take arbitrary keys.
#[derive(Debug)]
pub struct BpfHashMap {
    max_entries: u32,
    key_size: u32,
    value_size: u32,
    data: Vec<(Vec<u8>, Vec<u8>)>,
}

impl View for BpfHashMap {
    type V = Map<Seq<u8>, Seq<u8>>;

    open spec fn view(&self) -> Map<Seq<u8>, Seq<u8>> {
        entries_map(self.keys(), self.values())
    }
}

/// The keys of stored entries.
spec fn data_keys(d: Seq<(Vec<u8>, Vec<u8>)>) -> Seq<Seq<u8>> {
    Seq::new(d.len(), |i: int| d[i].0@)
}

/// The values of stored entries.
spec fn data_values(d: Seq<(Vec<u8>, Vec<u8>)>) -> Seq<Seq<u8>> {
    Seq::new(d.len(), |i: int| d[i].1@)
}

impl BpfHashMap {
    /// The keys of the map in ascending order.
    pub closed spec fn keys(self) -> Seq<Seq<u8>> {
        data_keys(self.data@)
    }

    /// The values of the map, each beside its key.
    pub closed spec fn values(self) -> Seq<Seq<u8>> {
        data_values(self.data@)
    }

    /// Every map keeps its invariant.
    #[verifier::type_invariant]
    spec fn inv(self) -> bool {
        self.wf()
    }

    /// The map's invariant: each key has one value, the keys are strictly
    /// ascending, and there are no more of them than the map was created to hold.
    pub open spec fn wf(self) -> bool {
        &&& self.keys().len() == self.values().len()
        &&& strictly_sorted(self.keys())
        &&& self.keys().len() <= self.spec_max_entries()
    }

    /// The number of entries the map was created to hold.
    pub closed spec fn spec_max_entries(self) -> u32 {
        self.max_entries
    }

    /// The key size the map was created with.
    pub closed spec fn spec_key_size(self) -> u32 {
        self.key_size
    }

    /// The value size of the map: the requested one rounded up to a multiple of eight.
    pub closed spec fn spec_value_size(self) -> u32 {
        self.value_size
    }

    /// Every map keeps its invariant: its keys are strictly ascending, each with
    /// one value.
    pub fn check_wf(&self)
        ensures
            self.wf(),
    {
        proof {
            use_type_invariant(self);
        }
    }

    /// The keys and the values of the map describe its contents.
    pub proof fn lemma_view_at(self, i: int)
        requires
            self.wf(),
            0 <= i < self.keys().len(),
        ensures
            self@.contains_key(self.keys()[i]),
            self@[self.keys()[i]] == self.values()[i],
    {
        lemma_entries_map_at(self.keys(), self.values(), i);
    }

    /// Creates an empty hash map with the attributes in `attr`. A zero value size or
    /// a zero number of entries is refused with `EINVAL`, and a value size that does
    /// not round up to a multiple of eight within 32 bits with `E2BIG`; the value
    /// size is rounded up to a multiple of eight.
    pub fn new(attr: &BpfMapMeta) -> (r: Result<Self>)
        ensures
            (attr.value_size == 0 || attr.max_entries == 0) ==> r == Err::<Self, SystemError>(
                SystemError::EINVAL,
            ),
            (attr.value_size != 0 && attr.max_entries != 0 && attr.value_size > u32::MAX - 7)
                ==> r == Err::<Self, SystemError>(SystemError::E2BIG),
            r is Ok <==> (attr.value_size != 0 && attr.max_entries != 0 && attr.value_size
                <= u32::MAX - 7),
            r matches Ok(m) ==> {
                &&& m.wf()
                &&& m@ == Map::<Seq<u8>, Seq<u8>>::empty()
                &&& m.keys() == Seq::<Seq<u8>>::empty()
                &&& m.spec_max_entries() == attr.max_entries
                &&& m.spec_key_size() == attr.key_size
                &&& m.spec_value_size() == round_up_spec(attr.value_size as int, 8)
            },
    {
        if attr.value_size == 0 || attr.max_entries == 0 {
            return Err(SystemError::EINVAL);
        }
        if attr.value_size > u32::MAX - 7 {
            return Err(SystemError::E2BIG);
        }
        assert(8usize & 7usize == 0usize) by (bit_vector);
        let value_size = round_up(attr.value_size as usize, 8);
        let m = BpfHashMap {
            max_entries: attr.max_entries,
            key_size: attr.key_size,
            value_size: value_size as u32,
            data: Vec::new(),
        };
        assert(m@ =~= Map::<Seq<u8>, Seq<u8>>::empty());
        assert(m.keys() =~= Seq::<Seq<u8>>::empty());
        Ok(m)
    }

    /// The number of entries the map was created to hold.
    pub fn max_entries(&self) -> (r: u32)
        ensures
            r == self.spec_max_entries(),
    {
        self.max_entries
    }

    /// The key size the map was created with.
    pub fn key_size(&self) -> (r: u32)
        ensures
            r == self.spec_key_size(),
    {
        self.key_size
    }

    /// The value size of the map.
    pub fn value_size(&self) -> (r: u32)
        ensures
            r == self.spec_value_size(),
    {
        self.value_size
    }

    /// Finds where `key` stands or would stand: the first index whose key does not
    /// come before `key`, and whether the key there is `key` itself.
    fn find(&self, key: &[u8]) -> (r: (usize, bool))
        requires
            self.wf(),
        ensures
            r.0 <= self.keys().len(),
            forall|i: int| 0 <= i < r.0 ==> lex_lt(#[trigger] self.keys()[i], key@),
            r.1 ==> r.0 < self.keys().len() && self.keys()[r.0 as int] == key@,
            !r.1 ==> r.0 < self.keys().len() ==> lex_lt(key@, self.keys()[r.0 as int]),
            r.1 <==> self@.contains_key(key@),
    {
        let n = self.data.len();
        let mut i: usize = 0;
        while i < n
            invariant
                self.wf(),
                n == self.keys().len(),
                n == self.data@.len(),
                i <= n,
                forall|j: int| 0 <= j < i ==> lex_lt(#[trigger] self.keys()[j], key@),
            decreases n - i,
        {
            assert(self.keys()[i as int] == self.data@[i as int].0@);
            match compare_keys(key, self.data[i].0.as_slice()) {
                KeyOrder::Equal => {
                    proof {
                        self.lemma_view_at(i as int);
                    }
                    return (i, true);
                },
                KeyOrder::Less => {
                    proof {
                        self.lemma_not_contains(key@, i as int);
                    }
                    return (i, false);
                },
                KeyOrder::Greater => {},
            }
            i = i + 1;
        }
        proof {
            self.lemma_not_contains(key@, n as int);
        }
        (n, false)
    }

    /// A key that sorts after the first `p` keys and before the key at `p` is not in the map.
    proof fn lemma_not_contains(self, key: Seq<u8>, p: int)
        requires
            self.wf(),
            0 <= p <= self.keys().len(),
            forall|j: int| 0 <= j < p ==> lex_lt(#[trigger] self.keys()[j], key),
            p < self.keys().len() ==> lex_lt(key, self.keys()[p]),
        ensures
            !self@.contains_key(key),
    {
        let ks = self.keys();
        if ks.contains(key) {
            let j = choose|j: int| 0 <= j < ks.len() && ks[j] == key;
            lemma_lex_lt_asymmetric(key, key);
            if j > p {
                assert(lex_lt(ks[p], ks[j]));
                lemma_lex_lt_transitive(key, ks[p], ks[j]);
            }
        }
    }

    /// Looks `key` up: the value bound to it, or `None` where the map does not hold it.
    pub fn lookup_elem(&self, key: &[u8]) -> (r: Result<Option<&[u8]>>)
        ensures
            r is Ok,
            r matches Ok(o) && (o is Some <==> self@.contains_key(key@)),
            r matches Ok(Some(v)) ==> v@ == self@[key@],
    {
        proof {
            use_type_invariant(self);
        }
        let (p, found) = self.find(key);
        if found {
            proof {
                self.lemma_view_at(p as int);
            }
            assert(self.values()[p as int] == self.data@[p as int].1@);
            Ok(Some(self.data[p].1.as_slice()))
        } else {
            Ok(None)
        }
    }

    /// What an update of `key` under `flags` answers on this map.
    pub open spec fn update_outcome(self, key: Seq<u8>, flags: u64) -> Result<()> {
        update_outcome(
            self@.contains_key(key),
            self.keys().len(),
            self.spec_max_entries(),
            flags,
        )
    }

    /// Binds `key` to `value`, replacing the value it had, as `flags` allow:
    /// `BPF_ANY` either way, `BPF_NOEXIST` only for a new key (else `EEXIST`),
    /// `BPF_EXIST` only for a held key (else `ENOENT`), both of them never
    /// (`EINVAL`). A new key in a full map is refused with `E2BIG`. A refused
    /// update changes nothing.
    pub fn update_elem(&mut self, key: &[u8], value: &[u8], flags: u64) -> (r: Result<()>)
        ensures
            r == old(self).update_outcome(key@, flags),
            final(self).wf(),
            final(self).same_attributes(*old(self)),
            r is Ok ==> final(self)@ == old(self)@.insert(key@, value@),
            r is Ok ==> final(self).keys() == insert_sorted(old(self).keys(), key@),
            r is Err ==> final(self)@ == old(self)@,
            r is Err ==> final(self).keys() == old(self).keys(),
    {
        proof {
            use_type_invariant(&*self);
        }
        let (p, found) = self.find(key);
        let mode = flags % 4;
        if mode == 3 {
            return Err(SystemError::EINVAL);
        }
        if mode == crate::bpf::map::util::BPF_NOEXIST && found {
            return Err(SystemError::EEXIST);
        }
        if mode == crate::bpf::map::util::BPF_EXIST && !found {
            return Err(SystemError::ENOENT);
        }
        if !found && self.data.len() >= self.max_entries as usize {
            return Err(SystemError::E2BIG);
        }
        let ghost ks = self.keys();
        let ghost vs = self.values();
        proof {
            lemma_insert_sorted(ks, key@, p as int);
        }
        let entry = (vstd::slice::slice_to_vec(key), vstd::slice::slice_to_vec(value));
        let mut data: Vec<(Vec<u8>, Vec<u8>)> = Vec::new();
        std::mem::swap(&mut data, &mut self.data);
        if found {
            data[p] = entry;
            proof {
                assert(data_keys(data@) =~= ks);
                assert(data_values(data@) =~= vs.update(p as int, value@));
                lemma_entries_map_replace(ks, vs, p as int, value@);
            }
        } else {
            data.insert(p, entry);
            proof {
                assert(data_keys(data@) =~= ks.insert(p as int, key@));
                assert(data_values(data@) =~= vs.insert(p as int, value@));
                lemma_entries_map_insert_new(ks, vs, p as int, key@, value@);
            }
        }
        self.data = data;
        Ok(())
    }

    /// The attributes the map was created with are those of `other`.
    pub open spec fn same_attributes(self, other: Self) -> bool {
        &&& self.spec_max_entries() == other.spec_max_entries()
        &&& self.spec_key_size() == other.spec_key_size()
        &&& self.spec_value_size() == other.spec_value_size()
    }

    /// Removes the entry at index `p`.
    fn remove_at(&mut self, p: usize)
        requires
            p < old(self).keys().len(),
        ensures
            final(self).wf(),
            final(self)@ == old(self)@.remove(old(self).keys()[p as int]),
            final(self).keys() == old(self).keys().remove(p as int),
            final(self).same_attributes(*old(self)),
    {
        proof {
            use_type_invariant(&*self);
        }
        let ghost ks = self.keys();
        let ghost vs = self.values();
        let mut data: Vec<(Vec<u8>, Vec<u8>)> = Vec::new();
        std::mem::swap(&mut data, &mut self.data);
        let _ = data.remove(p);
        proof {
            assert(data_keys(data@) =~= ks.remove(p as int));
            assert(data_values(data@) =~= vs.remove(p as int));
            lemma_entries_map_remove(ks, vs, p as int);
        }
        self.data = data;
    }

    /// Removes `key` and its value. Where the map does not hold `key`, it fails
    /// with `ENOENT` and changes nothing.
    pub fn delete_elem(&mut self, key: &[u8]) -> (r: Result<()>)
        ensures
            final(self).wf(),
            final(self).same_attributes(*old(self)),
            old(self)@.contains_key(key@) ==> {
                &&& r == Ok::<(), SystemError>(())
                &&& final(self)@ == old(self)@.remove(key@)
                &&& final(self).keys() == remove_key(old(self).keys(), key@)
            },
            !old(self)@.contains_key(key@) ==> {
                &&& r == Err::<(), SystemError>(SystemError::ENOENT)
                &&& final(self)@ == old(self)@
                &&& final(self).keys() == old(self).keys()
            },
    {
        proof {
            use_type_invariant(&*self);
        }
        let (p, found) = self.find(key);
        if !found {
            return Err(SystemError::ENOENT);
        }
        proof {
            lemma_remove_key_at(self.keys(), key@, p as int);
        }
        self.remove_at(p);
        Ok(())
    }

    /// Copies the value bound to `key` into `value` and removes the entry. Where the
    /// map does not hold `key`, it fails with `ENOENT` and changes nothing.
    pub fn lookup_and_delete_elem(&mut self, key: &[u8], value: &mut [u8]) -> (r: Result<()>)
        requires
            old(self)@.contains_key(key@) ==> old(value)@.len() == old(self)@[key@].len(),
        ensures
            final(self).wf(),
            final(self).same_attributes(*old(self)),
            old(self)@.contains_key(key@) ==> {
                &&& r == Ok::<(), SystemError>(())
                &&& final(value)@ == old(self)@[key@]
                &&& final(self)@ == old(self)@.remove(key@)
                &&& final(self).keys() == remove_key(old(self).keys(), key@)
            },
            !old(self)@.contains_key(key@) ==> {
                &&& r == Err::<(), SystemError>(SystemError::ENOENT)
                &&& final(value)@ == old(value)@
                &&& final(self)@ == old(self)@
                &&& final(self).keys() == old(self).keys()
            },
    {
        proof {
            use_type_invariant(&*self);
        }
        let (p, found) = self.find(key);
        if !found {
            return Err(SystemError::ENOENT);
        }
        proof {
            self.lemma_view_at(p as int);
            lemma_remove_key_at(self.keys(), key@, p as int);
        }
        assert(self.values()[p as int] == self.data@[p as int].1@);
        copy_bytes(value, self.data[p].1.as_slice());
        self.remove_at(p);
        Ok(())
    }
}

/// The key that follows `key` in iteration order over the ascending keys `ks`:
/// the key after `key` where `key` is held and is not the last; `None` where it is
/// the last; the first key where `key` is `None` or is not held, so that a walk
/// restarts; `None` where there are no keys.
pub open spec fn next_key_of(ks: Seq<Seq<u8>>, key: Option<Seq<u8>>) -> Option<Seq<u8>> {
    match key {
        Some(k) => if ks.contains(k) {
            if ks.index_of(k) + 1 < ks.len() {
                Some(ks[ks.index_of(k) + 1])
            } else {
                None
            }
        } else if ks.len() > 0 {
            Some(ks[0])
        } else {
            None
        },
        None => if ks.len() > 0 {
            Some(ks[0])
        } else {
            None
        },
    }
}

/// The byte string an optional key holds.
pub open spec fn opt_bytes(key: Option<&[u8]>) -> Option<Seq<u8>> {
    match key {
        Some(k) => Some(k@),
        None => None,
    }
}

/// `cb` may return `r` for a key holding `k` and a value holding `v`.
pub open spec fn callback_returned<F: Fn(&[u8], &[u8]) -> i32>(
    cb: F,
    k: Seq<u8>,
    v: Seq<u8>,
    r: i32,
) -> bool {
    exists|ks: &[u8], vs: &[u8]| ks@ == k && vs@ == v && call_ensures(cb, (ks, vs), r)
}

impl BpfHashMap {
    /// Writes into `next_key` the key that follows `key` in ascending key order; the
    /// first key where `key` is `None` or is not in the map. Fails with `ENOENT`,
    /// leaving `next_key` as it was, where there is no such key: the map is empty or
    /// `key` is the last key.
    pub fn get_next_key(&self, key: Option<&[u8]>, next_key: &mut [u8]) -> (r: Result<()>)
        requires
            next_key_of(self.keys(), opt_bytes(key)) matches Some(nk) ==> nk.len()
                == old(next_key)@.len(),
        ensures
            next_key_of(self.keys(), opt_bytes(key)) matches Some(nk) ==> {
                &&& r == Ok::<(), SystemError>(())
                &&& final(next_key)@ == nk
            },
            next_key_of(self.keys(), opt_bytes(key)) is None ==> {
                &&& r == Err::<(), SystemError>(SystemError::ENOENT)
                &&& final(next_key)@ == old(next_key)@
            },
    {
        proof {
            use_type_invariant(self);
        }
        let n = self.data.len();
        let next: usize = match key {
            None => 0,
            Some(k) => {
                let (p, found) = self.find(k);
                if found {
                    proof {
                        lemma_sorted_index_of(self.keys(), p as int);
                    }
                    p + 1
                } else {
                    0
                }
            },
        };
        if next >= n {
            return Err(SystemError::ENOENT);
        }
        assert(self.keys()[next as int] == self.data@[next as int].0@);
        copy_bytes(next_key, self.data[next].0.as_slice());
        Ok(())
    }

    /// Calls `cb` on each entry in ascending key order, stopping at the first call
    /// that returns non-zero, and returns how many calls returned zero before that.
    /// Non-zero flags are refused with `EINVAL` before any call.
    pub fn for_each_elem<F: Fn(&[u8], &[u8]) -> i32>(&self, cb: &F, flags: u64) -> (r: Result<
        u32,
    >)
        requires
            self.keys().len() <= u32::MAX,
            forall|k: &[u8], v: &[u8]| cb.requires((k, v)),
        ensures
            flags != 0 ==> r == Err::<u32, SystemError>(SystemError::EINVAL),
            flags == 0 ==> r is Ok,
            r matches Ok(n) ==> {
                &&& n <= self.keys().len()
                &&& forall|i: int|
                    0 <= i < n ==> callback_returned(
                        *cb,
                        #[trigger] self.keys()[i],
                        self.values()[i],
                        0,
                    )
                &&& n < self.keys().len() ==> exists|res: i32|
                    res != 0 && callback_returned(
                        *cb,
                        self.keys()[n as int],
                        self.values()[n as int],
                        res,
                    )
            },
    {
        proof {
            use_type_invariant(self);
        }
        if flags != 0 {
            return Err(SystemError::EINVAL);
        }
        let n = self.data.len();
        let mut total_used: u32 = 0;
        let mut i: usize = 0;
        while i < n
            invariant
                self.wf(),
                n == self.keys().len(),
                n == self.data@.len(),
                n <= u32::MAX,
                i <= n,
                total_used == i,
                forall|k: &[u8], v: &[u8]| cb.requires((k, v)),
                forall|j: int|
                    0 <= j < i ==> callback_returned(
                        *cb,
                        #[trigger] self.keys()[j],
                        self.values()[j],
                        0,
                    ),
            ensures
                i <= n,
                total_used == i,
                forall|j: int|
                    0 <= j < i ==> callback_returned(
                        *cb,
                        #[trigger] self.keys()[j],
                        self.values()[j],
                        0,
                    ),
                i < n ==> exists|res: i32|
                    res != 0 && callback_returned(
                        *cb,
                        self.keys()[i as int],
                        self.values()[i as int],
                        res,
                    ),
            decreases n - i,
        {
            let ks = self.data[i].0.as_slice();
            let vs = self.data[i].1.as_slice();
            let res = cb(ks, vs);
            assert(self.keys()[i as int] == ks@);
            assert(self.values()[i as int] == vs@);
            assert(callback_returned(*cb, ks@, vs@, res));
            if res != 0 {
                break;
            }
            total_used = total_used + 1;
            i = i + 1;
        }
        Ok(total_used)
    }
}

/// The per-CPU variant of [`BpfHashMap`]: one hash map for each CPU. Each operation
/// works on the map of the CPU it is given, which is the CPU it runs on.
#[derive(Debug)]
pub struct PerCpuHashMap {
    maps: Vec<BpfHashMap>,
}

impl PerCpuHashMap {
    /// The map of each CPU, by CPU number.
    pub closed spec fn maps(self) -> Seq<BpfHashMap> {
        self.maps@
    }

    /// Only the map of CPU `cpu` changed: it now holds `m`, with the keys `ks` in
    /// iteration order.
    pub open spec fn changed_only(
        self,
        old: Self,
        cpu: int,
        m: Map<Seq<u8>, Seq<u8>>,
        ks: Seq<Seq<u8>>,
    ) -> bool {
        &&& self.maps().len() == old.maps().len()
        &&& self.maps()[cpu]@ == m
        &&& self.maps()[cpu].keys() == ks
        &&& self.maps()[cpu].wf()
        &&& self.maps()[cpu].same_attributes(old.maps()[cpu])
        &&& forall|c: int|
            0 <= c < self.maps().len() && c != cpu ==> #[trigger] self.maps()[c] == old.maps()[c]
    }

    /// Creates one hash map with the attributes in `attr` for each of `num_cpus` CPUs,
    /// failing as [`BpfHashMap::new`] does.
    pub fn new(attr: &BpfMapMeta, num_cpus: u32) -> (r: Result<Self>)
        ensures
            r is Err <==> num_cpus > 0 && (attr.value_size == 0 || attr.max_entries == 0
                || attr.value_size > u32::MAX - 7),
            num_cpus > 0 && (attr.value_size == 0 || attr.max_entries == 0) ==> r == Err::<
                Self,
                SystemError,
            >(SystemError::EINVAL),
            num_cpus > 0 && attr.value_size != 0 && attr.max_entries != 0 && attr.value_size
                > u32::MAX - 7 ==> r == Err::<Self, SystemError>(SystemError::E2BIG),
            r matches Ok(m) ==> {
                &&& m.maps().len() == num_cpus
                &&& forall|c: int|
                    0 <= c < num_cpus ==> {
                        &&& (#[trigger] m.maps()[c]).wf()
                        &&& m.maps()[c]@ == Map::<Seq<u8>, Seq<u8>>::empty()
                        &&& m.maps()[c].keys() == Seq::<Seq<u8>>::empty()
                        &&& m.maps()[c].spec_max_entries() == attr.max_entries
                        &&& m.maps()[c].spec_key_size() == attr.key_size
                        &&& m.maps()[c].spec_value_size() == round_up_spec(
                            attr.value_size as int,
                            8,
                        )
                    }
            },
    {
        let mut data: Vec<BpfHashMap> = Vec::with_capacity(num_cpus as usize);
        let mut i: u32 = 0;
        while i < num_cpus
            invariant
                i <= num_cpus,
                i > 0 ==> attr.value_size != 0 && attr.max_entries != 0 && attr.value_size
                    <= u32::MAX - 7,
                data@.len() == i,
                forall|c: int|
                    0 <= c < i ==> {
                        &&& (#[trigger] data@[c]).wf()
                        &&& data@[c]@ == Map::<Seq<u8>, Seq<u8>>::empty()
                        &&& data@[c].keys() == Seq::<Seq<u8>>::empty()
                        &&& data@[c].spec_max_entries() == attr.max_entries
                        &&& data@[c].spec_key_size() == attr.key_size
                        &&& data@[c].spec_value_size() == round_up_spec(
                            attr.value_size as int,
                            8,
                        )
                    },
            decreases num_cpus - i,
        {
            let array_map = BpfHashMap::new(attr)?;
            data.push(array_map);
            i = i + 1;
        }
        Ok(PerCpuHashMap { maps: data })
    }

    /// The number of CPUs the map has a map for.
    pub fn num_cpus(&self) -> (r: usize)
        ensures
            r == self.maps().len(),
    {
        self.maps.len()
    }

    /// Looks `key` up in the map of CPU `cpu`.
    pub fn lookup_elem(&self, key: &[u8], cpu: u32) -> (r: Result<Option<&[u8]>>)
        requires
            cpu < self.maps().len(),
        ensures
            r is Ok,
            r matches Ok(o) && (o is Some <==> self.maps()[cpu as int]@.contains_key(key@)),
            r matches Ok(Some(v)) ==> v@ == self.maps()[cpu as int]@[key@],
    {
        self.maps[cpu as usize].lookup_elem(key)
    }

    /// Looks `key` up in the map of CPU `cpu`, given explicitly by the caller; a
    /// CPU the map has no map for gives no value.
    pub fn lookup_percpu_elem(&self, key: &[u8], cpu: u32) -> (r: Result<Option<&[u8]>>)
        ensures
            r is Ok,
            cpu >= self.maps().len() ==> r == Ok::<Option<&[u8]>, SystemError>(None),
            cpu < self.maps().len() ==> (r matches Ok(o) && (o is Some <==> self.maps()[cpu as int]@.contains_key(key@))),
            r matches Ok(Some(v)) ==> v@ == self.maps()[cpu as int]@[key@],
    {
        if cpu as usize >= self.maps.len() {
            return Ok(None);
        }
        self.maps[cpu as usize].lookup_elem(key)
    }

    /// Binds `key` to `value` in the map of CPU `cpu`, as
    /// [`BpfHashMap::update_elem`] does.
    pub fn update_elem(&mut self, key: &[u8], value: &[u8], flags: u64, cpu: u32) -> (r: Result<
        (),
    >)
        requires
            cpu < old(self).maps().len(),
        ensures
            r == old(self).maps()[cpu as int].update_outcome(key@, flags),
            r is Ok ==> final(self).changed_only(
                *old(self),
                cpu as int,
                old(self).maps()[cpu as int]@.insert(key@, value@),
                insert_sorted(old(self).maps()[cpu as int].keys(), key@),
            ),
            r is Err ==> final(self).changed_only(
                *old(self),
                cpu as int,
                old(self).maps()[cpu as int]@,
                old(self).maps()[cpu as int].keys(),
            ),
    {
        self.maps[cpu as usize].update_elem(key, value, flags)
    }

    /// Removes `key` from the map of CPU `cpu`, as [`BpfHashMap::delete_elem`] does.
    pub fn delete_elem(&mut self, key: &[u8], cpu: u32) -> (r: Result<()>)
        requires
            cpu < old(self).maps().len(),
        ensures
            old(self).maps()[cpu as int]@.contains_key(key@) ==> {
                &&& r == Ok::<(), SystemError>(())
                &&& final(self).changed_only(
                    *old(self),
                    cpu as int,
                    old(self).maps()[cpu as int]@.remove(key@),
                    remove_key(old(self).maps()[cpu as int].keys(), key@),
                )
            },
            !old(self).maps()[cpu as int]@.contains_key(key@) ==> {
                &&& r == Err::<(), SystemError>(SystemError::ENOENT)
                &&& final(self).changed_only(
                    *old(self),
                    cpu as int,
                    old(self).maps()[cpu as int]@,
                    old(self).maps()[cpu as int].keys(),
                )
            },
    {
        self.maps[cpu as usize].delete_elem(key)
    }

    /// Calls `cb` on the entries of the map of CPU `cpu` as
    /// [`BpfHashMap::for_each_elem`] does.
    pub fn for_each_elem<F: Fn(&[u8], &[u8]) -> i32>(&self, cb: &F, flags: u64, cpu: u32) -> (r:
        Result<u32>)
        requires
            cpu < self.maps().len(),
            self.maps()[cpu as int].keys().len() <= u32::MAX,
            forall|k: &[u8], v: &[u8]| cb.requires((k, v)),
        ensures
            flags != 0 ==> r == Err::<u32, SystemError>(SystemError::EINVAL),
            flags == 0 ==> r is Ok,
            r matches Ok(n) ==> {
                let m = self.maps()[cpu as int];
                &&& n <= m.keys().len()
                &&& forall|i: int|
                    0 <= i < n ==> callback_returned(*cb, #[trigger] m.keys()[i], m.values()[i], 0)
                &&& n < m.keys().len() ==> exists|res: i32|
                    res != 0 && callback_returned(
                        *cb,
                        m.keys()[n as int],
                        m.values()[n as int],
                        res,
                    )
            },
    {
        self.maps[cpu as usize].for_each_elem(cb, flags)
    }

    /// Copies out and removes the entry of `key` in the map of CPU `cpu`, as
    /// [`BpfHashMap::lookup_and_delete_elem`] does.
    pub fn lookup_and_delete_elem(&mut self, key: &[u8], value: &mut [u8], cpu: u32) -> (r:
        Result<()>)
        requires
            cpu < old(self).maps().len(),
            old(self).maps()[cpu as int]@.contains_key(key@) ==> old(value)@.len() == old(
                self,
            ).maps()[cpu as int]@[key@].len(),
        ensures
            old(self).maps()[cpu as int]@.contains_key(key@) ==> {
                &&& r == Ok::<(), SystemError>(())
                &&& final(value)@ == old(self).maps()[cpu as int]@[key@]
                &&& final(self).changed_only(
                    *old(self),
                    cpu as int,
                    old(self).maps()[cpu as int]@.remove(key@),
                    remove_key(old(self).maps()[cpu as int].keys(), key@),
                )
            },
            !old(self).maps()[cpu as int]@.contains_key(key@) ==> {
                &&& r == Err::<(), SystemError>(SystemError::ENOENT)
                &&& final(value)@ == old(value)@
                &&& final(self).changed_only(
                    *old(self),
                    cpu as int,
                    old(self).maps()[cpu as int]@,
                    old(self).maps()[cpu as int].keys(),
                )
            },
    {
        self.maps[cpu as usize].lookup_and_delete_elem(key, value)
    }

    /// Writes into `next_key` the key after `key` in the map of CPU `cpu`, as
    /// [`BpfHashMap::get_next_key`] does.
    pub fn get_next_key(&self, key: Option<&[u8]>, next_key: &mut [u8], cpu: u32) -> (r: Result<
        (),
    >)
        requires
            cpu < self.maps().len(),
            next_key_of(self.maps()[cpu as int].keys(), opt_bytes(key)) matches Some(nk)
                ==> nk.len() == old(next_key)@.len(),
        ensures
            next_key_of(self.maps()[cpu as int].keys(), opt_bytes(key)) matches Some(nk) ==> {
                &&& r == Ok::<(), SystemError>(())
                &&& final(next_key)@ == nk
            },
            next_key_of(self.maps()[cpu as int].keys(), opt_bytes(key)) is None ==> {
                &&& r == Err::<(), SystemError>(SystemError::ENOENT)
                &&& final(next_key)@ == old(next_key)@
            },
    {
        self.maps[cpu as usize].get_next_key(key, next_key)
    }
}

/// Copies `src` into `dst`, which has the same length.
pub fn copy_bytes(dst: &mut [u8], src: &[u8])
    requires
        old(dst)@.len() == src@.len(),
    ensures
        final(dst)@ == src@,
{
    let n = src.len();
    let mut i: usize = 0;
    while i < n
        invariant
            n == src@.len(),
            dst@.len() == n,
            i <= n,
            forall|j: int| 0 <= j < i ==> dst@[j] == src@[j],
        decreases n - i,
    {
        dst[i] = src[i];
        i = i + 1;
    }
    assert(dst@ =~= src@);
}

} // verus!
