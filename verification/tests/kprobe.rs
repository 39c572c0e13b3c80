use dragonos_kernel::debug::tracing::{tracing_dir_layout, TracingDirCallBack};
use dragonos_kernel::error::SystemError;
use dragonos_kernel::init::version_info::get_kernel_build_info;
use dragonos_kernel::perf::kprobe::{
    kprobe_info_for, perf_event_open_kprobe, probe_context, pt_regs, PerfProbeArgs, TrapFrame,
};

fn frame() -> TrapFrame {
    TrapFrame {
        r15: 1,
        r14: 2,
        r13: 3,
        r12: 4,
        r11: 5,
        r10: 6,
        r9: 7,
        r8: 8,
        rbx: 9,
        rcx: 10,
        rdx: 11,
        rsi: 12,
        rdi: 13,
        rbp: 14,
        rax: 15,
        rip: 16,
        cs: 17,
        rflags: 18,
        rsp: 19,
        ss: 20,
    }
}

const MOV_R0_0_EXIT: [u8; 16] = [
    0xb7, 0x00, 0x00, 0x00, 0x00, 0x00, 0x00, 0x00, //
    0x95, 0x00, 0x00, 0x00, 0x00, 0x00, 0x00, 0x00,
];

#[test]
fn pt_regs_from_trap_frame() {
    let r = pt_regs::from(&frame());
    assert_eq!(r.r15, 1);
    assert_eq!(r.rbp, 14);
    assert_eq!(r.rbx, 9);
    assert_eq!(r.rax, 15);
    assert_eq!(r.orig_rax, 0);
    assert_eq!(r.eflags, 18);
    assert_eq!(r.ss, 20);
}

#[test]
fn probe_context_lays_registers_out_in_order() {
    let ctx = probe_context(&frame());
    assert_eq!(ctx.len(), 21 * 8);
    let words: Vec<u64> = ctx
        .chunks(8)
        .map(|c| u64::from_ne_bytes(c.try_into().unwrap()))
        .collect();
    assert_eq!(
        words,
        vec![1, 2, 3, 4, 14, 9, 5, 6, 7, 8, 15, 10, 11, 12, 13, 0, 16, 17, 18, 19, 20]
    );
}

#[test]
fn open_kprobe_requests_a_disabled_probe_on_the_symbol() {
    let args = PerfProbeArgs { name: "do_sys_open".to_string() };
    let info = kprobe_info_for(&args);
    assert_eq!(info.symbol.as_deref(), Some("do_sys_open"));
    assert_eq!(info.addr, None);
    assert_eq!(info.offset, 0);
    assert!(!info.enable);
    let event = perf_event_open_kprobe(args);
    assert_eq!(event.kprobe().symbol.as_deref(), Some("do_sys_open"));
    assert!(!event.kprobe().enabled);
    assert!(event.kprobe().event_callback.is_none());
}

#[test]
fn enable_and_disable_flip_the_probe() {
    let mut event = perf_event_open_kprobe(PerfProbeArgs { name: "f".to_string() });
    assert_eq!(event.enable(), Ok(()));
    assert!(event.kprobe().enabled);
    assert_eq!(event.disable(), Ok(()));
    assert!(!event.kprobe().enabled);
}

#[test]
fn set_bpf_prog_refuses_a_file_that_is_not_a_program() {
    let mut event = perf_event_open_kprobe(PerfProbeArgs { name: "f".to_string() });
    assert_eq!(event.do_set_bpf_prog(None), Err(SystemError::EINVAL));
    assert!(event.kprobe().event_callback.is_none());
}

#[test]
fn set_bpf_prog_installs_the_program() {
    let mut event = perf_event_open_kprobe(PerfProbeArgs { name: "f".to_string() });
    assert_eq!(event.set_bpf_prog(Some(&MOV_R0_0_EXIT)), Ok(()));
    let cb = event.kprobe().event_callback.as_ref().unwrap();
    assert_eq!(cb.insns(), &MOV_R0_0_EXIT[..]);
}

#[test]
fn try_set_bpf_prog_checks_that_the_program_loads() {
    let mut event = perf_event_open_kprobe(PerfProbeArgs { name: "f".to_string() });
    assert_eq!(event.try_set_bpf_prog(Some(&MOV_R0_0_EXIT[..8])), None);
    assert!(event.kprobe().event_callback.is_none());
    assert_eq!(event.try_set_bpf_prog(Some(&MOV_R0_0_EXIT)), Some(Ok(())));
    assert!(event.kprobe().event_callback.is_some());
    assert_eq!(event.try_set_bpf_prog(None), Some(Err(SystemError::EINVAL)));
}

#[test]
fn tracing_directories_refuse_io() {
    let cb = TracingDirCallBack;
    let mut buf = [0u8; 4];
    assert_eq!(cb.open(), Ok(()));
    assert_eq!(cb.read(&mut buf, 0), Err(SystemError::EISDIR));
    assert_eq!(cb.write(&buf, 0), Err(SystemError::EISDIR));
    assert_eq!(cb.poll(), Err(SystemError::EISDIR));
}

#[test]
fn tracing_layout_names_and_modes() {
    assert_eq!(tracing_dir_layout(), vec![("tracing", 0o555), ("events", 0o755)]);
}

#[test]
fn build_info_release() {
    let info = get_kernel_build_info();
    assert_eq!(info.release, "6.6.21-dragonos");
    assert_eq!(info.git_branch, "patch-ssh");
    assert_eq!(info.config_flags, "");
}
