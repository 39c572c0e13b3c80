//! eBPF maps.
pub mod hash_map;
pub mod key_order;
pub mod laws;
pub mod util;

use vstd::prelude::*;

use crate::bpf::helper::machine_is_little_endian;
use crate::bpf::map::hash_map::{insert_sorted, BpfHashMap, PerCpuHashMap};
use crate::bpf::map::util::BpfMapMeta;
use crate::error::{Result, SystemError};

verus! {

/// The map behind a [`BpfMap`].
#[derive(Debug)]
pub enum BpfMapInner {
    Hash(BpfHashMap),
    PerCpuHash(PerCpuHashMap),
}

/// A map as eBPF programs see it: the map itself, the attributes it was created
/// with, and the byte order in which numbers stored in it are written.
#[derive(Debug)]
pub struct BpfMap {
    inner: BpfMapInner,
    meta: BpfMapMeta,
    little_endian: bool,
}

impl BpfMap {
    /// The map itself.
    pub closed spec fn inner(self) -> BpfMapInner {
        self.inner
    }

    /// The attributes the map was created with.
    pub closed spec fn meta(self) -> BpfMapMeta {
        self.meta
    }

    /// Numbers stored in the map as keys or values (a CPU number, a file
    /// descriptor) are laid out least significant byte first: the machine's byte
    /// order, which is that of the programs and of user space alike, learned when
    /// the map is made.
    pub closed spec fn byte_order_little(self) -> bool {
        self.little_endian
    }

    /// The map can be used from CPU `cpu`: a per-CPU map has a map for that CPU.
    pub open spec fn serves_cpu(self, cpu: int) -> bool {
        match self.inner() {
            BpfMapInner::Hash(_) => true,
            BpfMapInner::PerCpuHash(m) => 0 <= cpu < m.maps().len(),
        }
    }

    /// The contents an operation running on CPU `cpu` works on.
    pub open spec fn contents_on(self, cpu: int) -> Map<Seq<u8>, Seq<u8>> {
        match self.inner() {
            BpfMapInner::Hash(m) => m@,
            BpfMapInner::PerCpuHash(m) => m.maps()[cpu]@,
        }
    }

    /// What an update of `k` under `flags` from CPU `cpu` answers on this map.
    pub open spec fn update_outcome_on(self, cpu: int, k: Seq<u8>, flags: u64) -> Result<()> {
        match self.inner() {
            BpfMapInner::Hash(m) => m.update_outcome(k, flags),
            BpfMapInner::PerCpuHash(m) => m.maps()[cpu].update_outcome(k, flags),
        }
    }

    /// This map is `old` after an update of `k` to `v` from CPU `cpu` that answered
    /// `r`, exactly as the inner map's own update leaves it: a hash map keeps its
    /// attributes and its invariant, and gains the binding where the update was
    /// made; a per-CPU map keeps its number of CPUs, the maps of the other CPUs stay
    /// identical, and the map of `cpu` keeps its attributes and gains the binding
    /// where the update was made. A refused update changes nothing.
    pub open spec fn updated_from(
        self,
        old: Self,
        cpu: int,
        k: Seq<u8>,
        v: Seq<u8>,
        r: Result<()>,
    ) -> bool {
        &&& self.meta() == old.meta()
        &&& self.byte_order_little() == old.byte_order_little()
        &&& match (old.inner(), self.inner()) {
            (BpfMapInner::Hash(om), BpfMapInner::Hash(nm)) => {
                &&& nm.wf()
                &&& nm.same_attributes(om)
                &&& r is Ok ==> nm@ == om@.insert(k, v) && nm.keys() == insert_sorted(om.keys(), k)
                &&& r is Err ==> nm@ == om@ && nm.keys() == om.keys()
            },
            (BpfMapInner::PerCpuHash(om), BpfMapInner::PerCpuHash(nm)) => {
                &&& r is Ok ==> nm.changed_only(
                    om,
                    cpu,
                    om.maps()[cpu]@.insert(k, v),
                    insert_sorted(om.maps()[cpu].keys(), k),
                )
                &&& r is Err ==> nm.changed_only(om, cpu, om.maps()[cpu]@, om.maps()[cpu].keys())
            },
            _ => false,
        }
    }

    /// Wraps a map and the attributes it was created with; numbers in it are in the
    /// machine's byte order.
    pub fn new(inner: BpfMapInner, meta: BpfMapMeta) -> (r: Self)
        ensures
            r.inner() == inner,
            r.meta() == meta,
    {
        let little_endian = machine_is_little_endian();
        BpfMap { inner, meta, little_endian }
    }

    /// Whether numbers stored in the map are laid out least significant byte first.
    pub fn is_little_endian(&self) -> (r: bool)
        ensures
            r == self.byte_order_little(),
    {
        self.little_endian
    }

    /// The size in bytes of a key of this map.
    pub fn key_size(&self) -> (r: usize)
        ensures
            r == self.meta().key_size,
    {
        self.meta.key_size as usize
    }

    /// The size in bytes of a value of this map.
    pub fn value_size(&self) -> (r: usize)
        ensures
            r == self.meta().value_size,
    {
        self.meta.value_size as usize
    }

    /// Whether the map can be used from CPU `cpu`.
    pub fn serves(&self, cpu: u32) -> (r: bool)
        ensures
            r == self.serves_cpu(cpu as int),
    {
        match &self.inner {
            BpfMapInner::Hash(_) => true,
            BpfMapInner::PerCpuHash(m) => (cpu as usize) < m.num_cpus(),
        }
    }

    /// Looks `key` up in the map as seen from CPU `cpu`.
    pub fn lookup_elem(&self, key: &[u8], cpu: u32) -> (r: Result<Option<&[u8]>>)
        requires
            self.serves_cpu(cpu as int),
        ensures
            r is Ok,
            r matches Ok(o) && (o is Some <==> self.contents_on(cpu as int).contains_key(key@)),
            r matches Ok(Some(v)) ==> v@ == self.contents_on(cpu as int)[key@],
    {
        match &self.inner {
            BpfMapInner::Hash(m) => m.lookup_elem(key),
            BpfMapInner::PerCpuHash(m) => m.lookup_elem(key, cpu),
        }
    }

    /// Binds `key` to `value` in the map as seen from CPU `cpu`, as the inner map's
    /// update does under `flags`; the contents seen from every other CPU stay as
    /// they were, and a refused update changes nothing.
    pub fn update_elem(&mut self, key: &[u8], value: &[u8], flags: u64, cpu: u32) -> (r: Result<
        (),
    >)
        requires
            old(self).serves_cpu(cpu as int),
        ensures
            r == old(self).update_outcome_on(cpu as int, key@, flags),
            final(self).updated_from(*old(self), cpu as int, key@, value@, r),
            final(self).meta() == old(self).meta(),
            final(self).byte_order_little() == old(self).byte_order_little(),
            final(self).inner() is Hash <==> old(self).inner() is Hash,
            r is Ok ==> final(self).contents_on(cpu as int) == old(self).contents_on(
                cpu as int,
            ).insert(key@, value@),
            r is Err ==> final(self).contents_on(cpu as int) == old(self).contents_on(cpu as int),
            forall|c: int|
                old(self).serves_cpu(c) ==> #[trigger] final(self).serves_cpu(c),
            forall|c: int|
                c != cpu && old(self).serves_cpu(c) && (old(self).inner() is PerCpuHash)
                    ==> #[trigger] final(self).contents_on(c) == old(self).contents_on(c),
    {
        match &mut self.inner {
            BpfMapInner::Hash(m) => m.update_elem(key, value, flags),
            BpfMapInner::PerCpuHash(m) => m.update_elem(key, value, flags, cpu),
        }
    }
}

} // verus!
