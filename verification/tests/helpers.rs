use dragonos_kernel::bpf::helper::{
    bpf_probe_read, init_helper_functions, map_lookup_elem, map_update_elem, perf_event_output,
    BpfHelper, PerfEventOutput, BPF_F_CURRENT_CPU,
};
use dragonos_kernel::bpf::map::hash_map::{BpfHashMap, PerCpuHashMap};
use dragonos_kernel::bpf::map::util::BpfMapMeta;
use dragonos_kernel::bpf::map::{BpfMap, BpfMapInner};
use dragonos_kernel::error::SystemError;

fn meta() -> BpfMapMeta {
    BpfMapMeta { key_size: 4, value_size: 4, max_entries: 8 }
}

fn hash_map() -> BpfMap {
    BpfMap::new(BpfMapInner::Hash(BpfHashMap::new(&meta()).unwrap()), meta())
}

#[test]
fn helper_table_numbers() {
    assert_eq!(
        init_helper_functions(),
        vec![
            (1, BpfHelper::MapLookupElem),
            (2, BpfHelper::MapUpdateElem),
            (25, BpfHelper::PerfEventOutput),
            (6, BpfHelper::TracePrintf),
            (4, BpfHelper::ProbeRead),
        ]
    );
}

#[test]
fn map_helpers_read_back_what_they_wrote() {
    let mut map = hash_map();
    assert_eq!(map.key_size(), 4);
    assert_eq!(map.value_size(), 4);
    assert_eq!(map_lookup_elem(&map, &[1, 0, 0, 0], 0), Ok(None));
    assert_eq!(map_update_elem(&mut map, &[1, 0, 0, 0], &[5, 6, 7, 8], 0, 0), Ok(()));
    assert_eq!(map_lookup_elem(&map, &[1, 0, 0, 0], 3), Ok(Some(&[5u8, 6, 7, 8][..])));
}

#[test]
fn map_helpers_on_a_per_cpu_map_use_the_given_cpu() {
    let inner = BpfMapInner::PerCpuHash(PerCpuHashMap::new(&meta(), 2).unwrap());
    let mut map = BpfMap::new(inner, meta());
    map_update_elem(&mut map, &[0; 4], &[1; 4], 0, 1).unwrap();
    assert_eq!(map_lookup_elem(&map, &[0; 4], 0), Ok(None));
    assert_eq!(map_lookup_elem(&map, &[0; 4], 1), Ok(Some(&[1u8; 4][..])));
}

#[test]
fn perf_event_output_reads_fd_at_index() {
    let mut map = hash_map();
    map_update_elem(&mut map, &2u32.to_ne_bytes(), &17u32.to_ne_bytes(), 0, 0).unwrap();
    let flags: u64 = (3u64 << 32) | 2;
    assert_eq!(perf_event_output(&map, flags, 0), Ok(PerfEventOutput { fd: 17, flags: 3 }));
}

#[test]
fn perf_event_output_current_cpu_uses_the_cpu_number() {
    let mut map = hash_map();
    map_update_elem(&mut map, &5u32.to_ne_bytes(), &0x0102_0304u32.to_ne_bytes(), 0, 0).unwrap();
    let r = perf_event_output(&map, BPF_F_CURRENT_CPU, 5);
    assert_eq!(r, Ok(PerfEventOutput { fd: 0x0102_0304, flags: 0 }));
}

#[test]
fn perf_event_output_without_an_entry_has_no_target() {
    let mut map = hash_map();
    assert_eq!(perf_event_output(&map, 9, 0), Err(SystemError::ENOENT));
    map_update_elem(&mut map, &9u32.to_ne_bytes(), &[1, 2, 3], 0, 0).unwrap();
    assert_eq!(perf_event_output(&map, 9, 0), Err(SystemError::EINVAL));
}

#[test]
fn probe_read_copies_the_bytes() {
    let mut dst = [0u8; 3];
    assert_eq!(bpf_probe_read(&mut dst, &[7, 8, 9]), Ok(()));
    assert_eq!(dst, [7, 8, 9]);
}

#[test]
fn map_update_helper_follows_the_flags() {
    let mut map = hash_map();
    assert_eq!(map_update_elem(&mut map, &[1; 4], &[1; 4], 2, 0), Err(SystemError::ENOENT));
    assert_eq!(map_lookup_elem(&map, &[1; 4], 0), Ok(None));
    assert_eq!(map_update_elem(&mut map, &[1; 4], &[1; 4], 1, 0), Ok(()));
    assert_eq!(map_update_elem(&mut map, &[1; 4], &[2; 4], 1, 0), Err(SystemError::EEXIST));
    assert_eq!(map_lookup_elem(&map, &[1; 4], 0), Ok(Some(&[1u8; 4][..])));
}

#[test]
fn errno_numbers() {
    assert_eq!(SystemError::E2BIG.errno(), 7);
    assert_eq!(SystemError::EEXIST.errno(), 17);
    assert_eq!(SystemError::ENOENT.to_posix_errno(), -2);
    assert_eq!(SystemError::ENOENT.errno(), 2);
    assert_eq!(SystemError::EISDIR.errno(), 21);
    assert_eq!(SystemError::EINVAL.errno(), 22);
    assert_eq!(SystemError::ENOSYS.errno(), 38);
}
