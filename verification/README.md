# dragonos_kernel (verified eBPF map, helper and kprobe core)

The library in `src/` holds the logic of the kernel's eBPF hash maps, the helper
functions that eBPF programs call, the debugfs `tracing` directory callbacks, the
kernel build information and kprobe performance events, each function with a
Verus contract.

- `src/bpf/map/`: the hash map (entries kept sorted by key, so iteration is in
  ascending key order), its per-CPU variant, the key order, map metadata, and the
  laws that hold across the map operations (`laws.rs`).
- `src/bpf/helper/`: the logic behind the helper functions.
- `src/perf/kprobe.rs`: registers in eBPF context layout, and the state of a
  kprobe event.
- `src/debug/tracing/`, `src/init/version_info.rs`, `src/error.rs`.

`app/` is the kernel side: the raw helper entry points that take raw pointers,
the helper table of function pointers, debugfs directory creation, kprobe
registration and running programs in the `rbpf` virtual machine. It reaches the
running kernel through the `KernelServices` trait.
