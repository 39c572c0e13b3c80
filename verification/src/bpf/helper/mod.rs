//! The helper functions that eBPF programs call, each as the logic behind the
//! raw entry point that the virtual machine invokes.
use vstd::prelude::*;

use crate::bpf::map::hash_map::copy_bytes;
use crate::bpf::map::BpfMap;
use crate::error::{Result, SystemError};

verus! {

/// The helper functions the kernel offers to eBPF programs.
#[derive(Debug, Clone, Copy, PartialEq, Eq, Structural)]
pub enum BpfHelper {
    /// `bpf_map_lookup_elem`.
    MapLookupElem,
    /// `bpf_map_update_elem`.
    MapUpdateElem,
    /// `bpf_perf_event_output`.
    PerfEventOutput,
    /// `bpf_trace_printk`.
    TracePrintf,
    /// `bpf_probe_read`.
    ProbeRead,
}

/// The helper functions by the number under which eBPF programs call them.
pub open spec fn helper_table() -> Seq<(u32, BpfHelper)> {
    seq![
        (1u32, BpfHelper::MapLookupElem),
        (2u32, BpfHelper::MapUpdateElem),
        (25u32, BpfHelper::PerfEventOutput),
        (6u32, BpfHelper::TracePrintf),
        (4u32, BpfHelper::ProbeRead),
    ]
}

/// The helper functions to register with the virtual machine, each with its number.
pub fn init_helper_functions() -> (r: Vec<(u32, BpfHelper)>)
    ensures
        r@ == helper_table(),
{
    let mut map: Vec<(u32, BpfHelper)> = Vec::new();
    map.push((1, BpfHelper::MapLookupElem));
    map.push((2, BpfHelper::MapUpdateElem));
    map.push((25, BpfHelper::PerfEventOutput));
    map.push((6, BpfHelper::TracePrintf));
    map.push((4, BpfHelper::ProbeRead));
    assert(map@ =~= helper_table());
    map
}

/// Looks `key` up in `map` as seen from CPU `cpu`: the value, or `None` where the map
/// does not hold the key.
pub fn map_lookup_elem<'a>(map: &'a BpfMap, key: &[u8], cpu: u32) -> (r: Result<
    Option<&'a [u8]>,
>)
    requires
        map.serves_cpu(cpu as int),
    ensures
        r is Ok,
        r matches Ok(o) && (o is Some <==> map.contents_on(cpu as int).contains_key(key@)),
        r matches Ok(Some(v)) ==> v@ == map.contents_on(cpu as int)[key@],
{
    let value = map.lookup_elem(key, cpu);
    match value {
        Ok(Some(value)) => Ok(Some(value)),
        _ => Ok(None),
    }
}

/// Binds `key` to `value` in `map` as seen from CPU `cpu`, as `flags` allow.
pub fn map_update_elem(map: &mut BpfMap, key: &[u8], value: &[u8], flags: u64, cpu: u32) -> (r:
    Result<()>)
    requires
        old(map).serves_cpu(cpu as int),
    ensures
        r == old(map).update_outcome_on(cpu as int, key@, flags),
        final(map).updated_from(*old(map), cpu as int, key@, value@, r),
        final(map).meta() == old(map).meta(),
        final(map).inner() is Hash <==> old(map).inner() is Hash,
        r is Ok ==> final(map).contents_on(cpu as int) == old(map).contents_on(cpu as int).insert(
            key@,
            value@,
        ),
        r is Err ==> final(map).contents_on(cpu as int) == old(map).contents_on(cpu as int),
        forall|c: int| old(map).serves_cpu(c) ==> #[trigger] final(map).serves_cpu(c),
        forall|c: int|
            c != cpu && old(map).serves_cpu(c) && (old(map).inner() is PerCpuHash)
                ==> #[trigger] final(map).contents_on(c) == old(map).contents_on(c),
{
    map.update_elem(key, value, flags, cpu)
}

/// The index value that stands for "the CPU the program runs on".
pub const BPF_F_CURRENT_CPU: u64 = 0xffff_ffff;

/// The four bytes of `x`, least significant first.
pub open spec fn u32_le_bytes(x: u32) -> Seq<u8> {
    seq![
        (x % 0x100) as u8,
        ((x / 0x100) % 0x100) as u8,
        ((x / 0x1_0000) % 0x100) as u8,
        ((x / 0x100_0000) % 0x100) as u8,
    ]
}

/// The four bytes of `x`, most significant first.
pub open spec fn u32_be_bytes(x: u32) -> Seq<u8> {
    u32_le_bytes(x).reverse()
}

/// The number whose bytes, least significant first, are `b`.
pub open spec fn u32_from_le_bytes(b: Seq<u8>) -> int {
    b[0] + b[1] * 0x100 + b[2] * 0x1_0000 + b[3] * 0x100_0000
}

/// The number whose bytes, most significant first, are `b`.
pub open spec fn u32_from_be_bytes(b: Seq<u8>) -> int {
    u32_from_le_bytes(b.reverse())
}

/// `b` are the bytes of `x` in one of the two byte orders a machine may have.
pub open spec fn native_bytes_of(x: u32, b: Seq<u8>) -> bool {
    b == u32_le_bytes(x) || b == u32_be_bytes(x)
}

/// `x` is the number that the four bytes `b` hold in one of the two byte orders.
pub open spec fn native_value_of(b: Seq<u8>, x: u32) -> bool {
    x == u32_from_le_bytes(b) || x == u32_from_be_bytes(b)
}

/// `u32::to_ne_bytes`: the bytes of `x` in the machine's byte order, which is
/// little- or big-endian; which of the two is not stated, as it is the machine's.
#[verifier::external_body]
fn u32_to_ne_bytes(x: u32) -> (r: Vec<u8>)
    ensures
        native_bytes_of(x, r@),
{
    x.to_ne_bytes().to_vec()
}

/// `u32::from_ne_bytes`: the number that four bytes hold in the machine's byte
/// order, which is little- or big-endian; which of the two is not stated.
#[verifier::external_body]
fn u32_from_ne_bytes(b: &[u8]) -> (r: u32)
    requires
        b@.len() == 4,
    ensures
        native_value_of(b@, r),
{
    u32::from_ne_bytes(b.try_into().unwrap())
}

/// Whether the machine lays numbers out least significant byte first: the number 1
/// then comes out as the bytes 1, 0, 0, 0, and reads back as 1 from them.
pub(crate) fn machine_is_little_endian() -> (r: bool) {
    let one = u32_to_ne_bytes(1);
    one[0] == 1 && u32_from_ne_bytes(one.as_slice()) == 1
}

/// The four bytes of `x` in the byte order `little` names: least significant first
/// where it holds, most significant first where it does not.
pub open spec fn u32_bytes_in(x: u32, little: bool) -> Seq<u8> {
    if little {
        u32_le_bytes(x)
    } else {
        u32_be_bytes(x)
    }
}

/// The number that the four bytes `b` hold in the byte order `little` names.
pub open spec fn u32_value_in(b: Seq<u8>, little: bool) -> int {
    if little {
        u32_from_le_bytes(b)
    } else {
        u32_from_be_bytes(b)
    }
}

/// Laid out in either byte order, a number reads back as itself from its bytes in
/// that same order.
pub proof fn law_u32_bytes_read_back(x: u32, little: bool)
    ensures
        u32_bytes_in(x, little).len() == 4,
        u32_value_in(u32_bytes_in(x, little), little) == x,
{
    let b = u32_le_bytes(x);
    assert(b.reverse().reverse() =~= b);
    assert(x == (x % 0x100) + ((x / 0x100) % 0x100) * 0x100 + ((x / 0x1_0000) % 0x100) * 0x1_0000
        + ((x / 0x100_0000) % 0x100) * 0x100_0000) by (bit_vector);
}

/// The bytes of `x` in the byte order `little` names.
fn u32_to_bytes(x: u32, little: bool) -> (r: Vec<u8>)
    ensures
        r@ == u32_bytes_in(x, little),
{
    let b0 = (x % 0x100) as u8;
    let b1 = ((x / 0x100) % 0x100) as u8;
    let b2 = ((x / 0x1_0000) % 0x100) as u8;
    let b3 = ((x / 0x100_0000) % 0x100) as u8;
    let mut r: Vec<u8> = Vec::new();
    if little {
        r.push(b0);
        r.push(b1);
        r.push(b2);
        r.push(b3);
    } else {
        r.push(b3);
        r.push(b2);
        r.push(b1);
        r.push(b0);
    }
    assert(r@ =~= u32_bytes_in(x, little));
    r
}

/// The number that the four bytes `b` hold in the byte order `little` names.
fn u32_from_bytes(b: &[u8], little: bool) -> (r: u32)
    requires
        b@.len() == 4,
    ensures
        r == u32_value_in(b@, little),
{
    let (b0, b1, b2, b3) = if little {
        (b[0], b[1], b[2], b[3])
    } else {
        (b[3], b[2], b[1], b[0])
    };
    b0 as u32 + b1 as u32 * 0x100 + b2 as u32 * 0x1_0000 + b3 as u32 * 0x100_0000
}

/// The index of the map entry that names the output of an event: the low half of
/// `flags`, or the current CPU where that half is [`BPF_F_CURRENT_CPU`].
pub open spec fn output_index(flags: u64, cpu: u32) -> u32 {
    if (flags % 0x1_0000_0000) == BPF_F_CURRENT_CPU {
        cpu
    } else {
        (flags % 0x1_0000_0000) as u32
    }
}

/// The output index is the low half of the flags, whatever CPU the program runs
/// on, unless that half is [`BPF_F_CURRENT_CPU`]; then it is the CPU.
pub proof fn law_output_index(flags: u64, cpu: u32, other_cpu: u32)
    ensures
        flags % 0x1_0000_0000 == BPF_F_CURRENT_CPU ==> output_index(flags, cpu) == cpu,
        flags % 0x1_0000_0000 != BPF_F_CURRENT_CPU ==> output_index(flags, cpu) == flags
            % 0x1_0000_0000,
        flags % 0x1_0000_0000 != BPF_F_CURRENT_CPU ==> output_index(flags, cpu)
            == output_index(flags, other_cpu),
{
}

/// Where an event's data goes: the perf event file descriptor that the map names,
/// and the flags for the output (the high half of the helper's flags).
#[derive(Debug, Clone, Copy, PartialEq, Eq, Structural)]
pub struct PerfEventOutput {
    pub fd: u32,
    pub flags: u32,
}

/// The map entry that `bpf_perf_event_output` reads, under key `b`, names a perf
/// event: it holds four bytes.
pub open spec fn names_output(map: BpfMap, cpu: int, b: Seq<u8>) -> bool {
    map.contents_on(cpu).contains_key(b) && map.contents_on(cpu)[b].len() == 4
}

/// Decides where `bpf_perf_event_output` sends its data. The key is the output
/// index as four bytes in the map's byte order, the machine's; the entry under it
/// holds the file descriptor, read in that same order, and the output flags are
/// the high half of `flags`. Where the map holds no entry under the key there is
/// nowhere to send the data (`ENOENT`); an entry that is not four bytes long holds
/// no descriptor (`EINVAL`).
pub fn perf_event_output(map: &BpfMap, flags: u64, cpu: u32) -> (r: Result<PerfEventOutput>)
    requires
        map.serves_cpu(cpu as int),
    ensures
        exists|b: Seq<u8>|
            #[trigger] native_bytes_of(output_index(flags, cpu), b) && {
                &&& !map.contents_on(cpu as int).contains_key(b) ==> r == Err::<
                    PerfEventOutput,
                    SystemError,
                >(SystemError::ENOENT)
                &&& map.contents_on(cpu as int).contains_key(b) && map.contents_on(cpu as int)[b].len()
                    != 4 ==> r == Err::<PerfEventOutput, SystemError>(SystemError::EINVAL)
                &&& names_output(*map, cpu as int, b) ==> (r matches Ok(o) && native_value_of(
                    map.contents_on(cpu as int)[b],
                    o.fd,
                ))
            },
        !map.contents_on(cpu as int).contains_key(
            u32_bytes_in(output_index(flags, cpu), map.byte_order_little()),
        ) ==> r == Err::<PerfEventOutput, SystemError>(SystemError::ENOENT),
        names_output(
            *map,
            cpu as int,
            u32_bytes_in(output_index(flags, cpu), map.byte_order_little()),
        ) ==> (r matches Ok(o) && o.fd == u32_value_in(
            map.contents_on(cpu as int)[u32_bytes_in(
                output_index(flags, cpu),
                map.byte_order_little(),
            )],
            map.byte_order_little(),
        )),
        map.contents_on(cpu as int).contains_key(
            u32_bytes_in(output_index(flags, cpu), map.byte_order_little()),
        ) && !names_output(
            *map,
            cpu as int,
            u32_bytes_in(output_index(flags, cpu), map.byte_order_little()),
        ) ==> r == Err::<PerfEventOutput, SystemError>(SystemError::EINVAL),
        r matches Ok(o) ==> o.flags == flags / 0x1_0000_0000,
{
    let index = #[verifier::truncate] (flags as u32);
    let out_flags = (flags >> 32) as u32;
    assert(index == flags % 0x1_0000_0000) by (bit_vector)
        requires
            index == flags as u32,
    ;
    assert(flags >> 32 == flags / 0x1_0000_0000) by (bit_vector);
    let key = if index as u64 == BPF_F_CURRENT_CPU {
        cpu
    } else {
        index
    };
    let little = map.is_little_endian();
    let key_bytes = u32_to_bytes(key, little);
    assert(native_bytes_of(output_index(flags, cpu), key_bytes@));
    match map.lookup_elem(key_bytes.as_slice(), cpu) {
        Ok(Some(fd)) => {
            if fd.len() != 4 {
                return Err(SystemError::EINVAL);
            }
            let fd = u32_from_bytes(fd, little);
            Ok(PerfEventOutput { fd, flags: out_flags })
        },
        _ => Err(SystemError::ENOENT),
    }
}

/// An entry that binds the output index, as four bytes in the map's byte order, to
/// a file descriptor in that same order names an output, and the descriptor read
/// from it is the one written: by the contract of [`perf_event_output`], the
/// helper then sends the data to that descriptor.
pub proof fn law_output_reads_the_descriptor_written(map: BpfMap, flags: u64, cpu: u32, fd: u32)
    requires
        map.contents_on(cpu as int).contains_key(
            u32_bytes_in(output_index(flags, cpu), map.byte_order_little()),
        ),
        map.contents_on(cpu as int)[u32_bytes_in(output_index(flags, cpu), map.byte_order_little())]
            == u32_bytes_in(fd, map.byte_order_little()),
    ensures
        names_output(
            map,
            cpu as int,
            u32_bytes_in(output_index(flags, cpu), map.byte_order_little()),
        ),
        u32_value_in(
            map.contents_on(cpu as int)[u32_bytes_in(
                output_index(flags, cpu),
                map.byte_order_little(),
            )],
            map.byte_order_little(),
        ) == fd,
{
    law_u32_bytes_read_back(fd, map.byte_order_little());
}

/// Copies the `src.len()` bytes read from the probed address into `dst`.
pub fn bpf_probe_read(dst: &mut [u8], src: &[u8]) -> (r: Result<()>)
    requires
        old(dst)@.len() == src@.len(),
    ensures
        r == Ok::<(), SystemError>(()),
        final(dst)@ == src@,
{
    copy_bytes(dst, src);
    Ok(())
}

} // verus!
