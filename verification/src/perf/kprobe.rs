//! Kprobe performance events: a probe on a kernel symbol whose hits run an eBPF
//! program on the registers of the probed context.
use vstd::prelude::*;

use crate::error::{Result, SystemError};

verus! {

/// The registers saved on entry to the kernel, as the probe sees them.
#[derive(Debug, Clone, Copy, PartialEq, Eq, Structural)]
pub struct TrapFrame {
    pub r15: u64,
    pub r14: u64,
    pub r13: u64,
    pub r12: u64,
    pub r11: u64,
    pub r10: u64,
    pub r9: u64,
    pub r8: u64,
    pub rbx: u64,
    pub rcx: u64,
    pub rdx: u64,
    pub rsi: u64,
    pub rdi: u64,
    pub rbp: u64,
    pub rax: u64,
    pub rip: u64,
    pub cs: u64,
    pub rflags: u64,
    pub rsp: u64,
    pub ss: u64,
}

/// The registers in the layout that eBPF programs read as their context.
#[allow(non_camel_case_types)]
#[derive(Debug, Copy, Clone, PartialEq, Eq, Structural)]
pub struct pt_regs {
    pub r15: u64,
    pub r14: u64,
    pub r13: u64,
    pub r12: u64,
    pub rbp: u64,
    pub rbx: u64,
    pub r11: u64,
    pub r10: u64,
    pub r9: u64,
    pub r8: u64,
    pub rax: u64,
    pub rcx: u64,
    pub rdx: u64,
    pub rsi: u64,
    pub rdi: u64,
    pub orig_rax: u64,
    pub rip: u64,
    pub cs: u64,
    pub eflags: u64,
    pub rsp: u64,
    pub ss: u64,
}

/// The registers of a trap frame in the context layout; the original value of
/// `rax` at system call entry is not in the frame and reads as zero.
pub open spec fn pt_regs_of(t: TrapFrame) -> pt_regs {
    pt_regs {
        r15: t.r15,
        r14: t.r14,
        r13: t.r13,
        r12: t.r12,
        rbp: t.rbp,
        rbx: t.rbx,
        r11: t.r11,
        r10: t.r10,
        r9: t.r9,
        r8: t.r8,
        rax: t.rax,
        rcx: t.rcx,
        rdx: t.rdx,
        rsi: t.rsi,
        rdi: t.rdi,
        orig_rax: 0,
        rip: t.rip,
        cs: t.cs,
        eflags: t.rflags,
        rsp: t.rsp,
        ss: t.ss,
    }
}

impl<'a> From<&'a TrapFrame> for pt_regs {
    fn from(trap_frame: &'a TrapFrame) -> (r: pt_regs)
    {
        pt_regs {
            r15: trap_frame.r15,
            r14: trap_frame.r14,
            r13: trap_frame.r13,
            r12: trap_frame.r12,
            rbp: trap_frame.rbp,
            rbx: trap_frame.rbx,
            r11: trap_frame.r11,
            r10: trap_frame.r10,
            r9: trap_frame.r9,
            r8: trap_frame.r8,
            rax: trap_frame.rax,
            rcx: trap_frame.rcx,
            rdx: trap_frame.rdx,
            rsi: trap_frame.rsi,
            rdi: trap_frame.rdi,
            orig_rax: 0,
            rip: trap_frame.rip,
            cs: trap_frame.cs,
            eflags: trap_frame.rflags,
            rsp: trap_frame.rsp,
            ss: trap_frame.ss,
        }
    }
}

impl<'a> vstd::std_specs::convert::FromSpecImpl<&'a TrapFrame> for pt_regs {
    open spec fn obeys_from_spec() -> bool {
        true
    }

    open spec fn from_spec(trap_frame: &'a TrapFrame) -> pt_regs {
        pt_regs_of(*trap_frame)
    }
}

impl pt_regs {
    /// The registers in the order they lie in memory.
    pub open spec fn words(self) -> Seq<u64> {
        seq![
            self.r15,
            self.r14,
            self.r13,
            self.r12,
            self.rbp,
            self.rbx,
            self.r11,
            self.r10,
            self.r9,
            self.r8,
            self.rax,
            self.rcx,
            self.rdx,
            self.rsi,
            self.rdi,
            self.orig_rax,
            self.rip,
            self.cs,
            self.eflags,
            self.rsp,
            self.ss,
        ]
    }
}

/// The eight bytes of `x`, least significant first.
pub open spec fn u64_le_bytes(x: u64) -> Seq<u8> {
    Seq::new(8, |i: int| ((x >> ((8 * i) as u64)) & 0xff) as u8)
}

/// `b` are the bytes of `x` in one of the two byte orders a machine may have.
pub open spec fn native_u64_bytes_of(x: u64, b: Seq<u8>) -> bool {
    b == u64_le_bytes(x) || b == u64_le_bytes(x).reverse()
}

/// The eight bytes of `x` in the byte order `little` names: least significant
/// first where it holds, most significant first where it does not.
pub open spec fn u64_bytes_in(x: u64, little: bool) -> Seq<u8> {
    if little {
        u64_le_bytes(x)
    } else {
        u64_le_bytes(x).reverse()
    }
}

/// The number whose eight bytes, least significant first, are `b`.
pub open spec fn u64_from_le_bytes(b: Seq<u8>) -> int {
    b[0] + b[1] * 0x100 + b[2] * 0x1_0000 + b[3] * 0x100_0000 + b[4] * 0x1_0000_0000 + b[5]
        * 0x100_0000_0000 + b[6] * 0x1_0000_0000_0000 + b[7] * 0x100_0000_0000_0000
}

/// The number that the eight bytes `b` hold in the byte order `little` names.
pub open spec fn u64_value_in(b: Seq<u8>, little: bool) -> int {
    if little {
        u64_from_le_bytes(b)
    } else {
        u64_from_le_bytes(b.reverse())
    }
}

/// Laid out in either byte order, a number reads back as itself from its bytes in
/// that same order.
pub proof fn law_u64_bytes_read_back(x: u64, little: bool)
    ensures
        u64_bytes_in(x, little).len() == 8,
        u64_value_in(u64_bytes_in(x, little), little) == x,
{
    let b = u64_le_bytes(x);
    assert(b.reverse().reverse() =~= b);
    let b0 = (x >> 0u64) & 0xff;
    let b1 = (x >> 8u64) & 0xff;
    let b2 = (x >> 16u64) & 0xff;
    let b3 = (x >> 24u64) & 0xff;
    let b4 = (x >> 32u64) & 0xff;
    let b5 = (x >> 40u64) & 0xff;
    let b6 = (x >> 48u64) & 0xff;
    let b7 = (x >> 56u64) & 0xff;
    assert(x == b0 + b1 * 0x100 + b2 * 0x1_0000 + b3 * 0x100_0000 + b4 * 0x1_0000_0000 + b5
        * 0x100_0000_0000 + b6 * 0x1_0000_0000_0000 + b7 * 0x100_0000_0000_0000) by (bit_vector)
        requires
            b0 == (x >> 0u64) & 0xff,
            b1 == (x >> 8u64) & 0xff,
            b2 == (x >> 16u64) & 0xff,
            b3 == (x >> 24u64) & 0xff,
            b4 == (x >> 32u64) & 0xff,
            b5 == (x >> 40u64) & 0xff,
            b6 == (x >> 48u64) & 0xff,
            b7 == (x >> 56u64) & 0xff,
    ;
    assert(b0 < 256 && b1 < 256 && b2 < 256 && b3 < 256 && b4 < 256 && b5 < 256 && b6 < 256
        && b7 < 256) by (bit_vector)
        requires
            b0 == (x >> 0u64) & 0xff,
            b1 == (x >> 8u64) & 0xff,
            b2 == (x >> 16u64) & 0xff,
            b3 == (x >> 24u64) & 0xff,
            b4 == (x >> 32u64) & 0xff,
            b5 == (x >> 40u64) & 0xff,
            b6 == (x >> 48u64) & 0xff,
            b7 == (x >> 56u64) & 0xff,
    ;
    assert(b[0] == b0 && b[1] == b1 && b[2] == b2 && b[3] == b3);
    assert(b[4] == b4 && b[5] == b5 && b[6] == b6 && b[7] == b7);
}

/// `u64::to_ne_bytes`: the bytes of `x` in the machine's byte order, which is
/// little- or big-endian; which of the two is not stated, as it is the machine's.
#[verifier::external_body]
fn u64_to_ne_bytes(x: u64) -> (r: Vec<u8>)
    ensures
        native_u64_bytes_of(x, r@),
{
    x.to_ne_bytes().to_vec()
}

/// The bytes of `x` in the byte order `little` names.
fn u64_to_bytes(x: u64, little: bool) -> (r: Vec<u8>)
    ensures
        r@ == u64_bytes_in(x, little),
{
    let mut r: Vec<u8> = Vec::new();
    let mut j: u64 = 0;
    while j < 8
        invariant
            j <= 8,
            r@.len() == j,
            forall|t: int| 0 <= t < j ==> r@[t] == #[trigger] u64_bytes_in(x, little)[t],
        decreases 8 - j,
    {
        let shift: u64 = if little {
            8 * j
        } else {
            8 * (7 - j)
        };
        r.push(((x >> shift) & 0xff) as u8);
        proof {
            if !little {
                assert(u64_bytes_in(x, little)[j as int] == u64_le_bytes(x)[7 - j]);
            }
        }
        j = j + 1;
    }
    assert(r@ =~= u64_bytes_in(x, little));
    r
}

/// Whether the machine lays numbers out least significant byte first: the number 1
/// then comes out as the bytes 1, 0, 0, 0, 0, 0, 0, 0.
fn machine_is_little_endian() -> (r: bool) {
    let one = u64_to_ne_bytes(1);
    proof {
        assert(((1u64 >> 0u64) & 0xff) == 1u64 && ((1u64 >> 56u64) & 0xff) == 0u64)
            by (bit_vector);
        assert(u64_le_bytes(1)[0] == 1u8);
        assert(u64_le_bytes(1).reverse()[0] == u64_le_bytes(1)[7]);
    }
    one[0] == 1
}

/// The bytes `r` are the numbers `words` one after another, each as eight bytes in
/// the byte order `little` names.
pub open spec fn laid_out_in(r: Seq<u8>, words: Seq<u64>, little: bool) -> bool {
    &&& r.len() == 8 * words.len()
    &&& forall|f: int|
        0 <= f < words.len() ==> r.subrange(8 * f, 8 * f + 8) == u64_bytes_in(
            #[trigger] words[f],
            little,
        )
}

/// The memory an eBPF program attached to a probe reads as its context when the
/// probe is hit with the registers `trap_frame`: the registers in context layout,
/// each as eight bytes, all in one byte order, the machine's.
pub fn probe_context(trap_frame: &TrapFrame) -> (r: Vec<u8>)
    ensures
        r@.len() == 8 * pt_regs_of(*trap_frame).words().len(),
        forall|f: int|
            0 <= f < pt_regs_of(*trap_frame).words().len() ==> native_u64_bytes_of(
                #[trigger] pt_regs_of(*trap_frame).words()[f],
                r@.subrange(8 * f, 8 * f + 8),
            ),
        exists|little: bool| #[trigger]
            laid_out_in(r@, pt_regs_of(*trap_frame).words(), little),
{
    let regs = pt_regs::from(trap_frame);
    let words: Vec<u64> = vec![
        regs.r15,
        regs.r14,
        regs.r13,
        regs.r12,
        regs.rbp,
        regs.rbx,
        regs.r11,
        regs.r10,
        regs.r9,
        regs.r8,
        regs.rax,
        regs.rcx,
        regs.rdx,
        regs.rsi,
        regs.rdi,
        regs.orig_rax,
        regs.rip,
        regs.cs,
        regs.eflags,
        regs.rsp,
        regs.ss,
    ];
    assert(words@ == regs.words());
    let little = machine_is_little_endian();
    let mut bytes: Vec<u8> = Vec::new();
    let mut i: usize = 0;
    while i < words.len()
        invariant
            words@ == regs.words(),
            regs == pt_regs_of(*trap_frame),
            i <= words@.len(),
            bytes@.len() == 8 * i,
            forall|f: int|
                0 <= f < i ==> bytes@.subrange(8 * f, 8 * f + 8) == u64_bytes_in(
                    #[trigger] words@[f],
                    little,
                ),
        decreases words@.len() - i,
    {
        let mut b = u64_to_bytes(words[i], little);
        let ghost prev = bytes@;
        let ghost word_bytes = b@;
        assert(word_bytes.len() == 8);
        bytes.append(&mut b);
        assert forall|f: int| 0 <= f < i + 1 implies bytes@.subrange(8 * f, 8 * f + 8)
            == u64_bytes_in(#[trigger] words@[f], little) by {
            if f < i {
                assert(bytes@.subrange(8 * f, 8 * f + 8) =~= prev.subrange(8 * f, 8 * f + 8));
            } else {
                assert(bytes@.subrange(8 * f, 8 * f + 8) =~= word_bytes);
            }
        }
        i = i + 1;
    }
    assert(laid_out_in(bytes@, regs.words(), little));
    bytes
}

/// A program reading the probe context in the order it was laid out in finds each
/// register: word `f` of the context is register `f` of the context layout.
pub proof fn law_context_reads_back_registers(r: Seq<u8>, t: TrapFrame, little: bool, f: int)
    requires
        laid_out_in(r, pt_regs_of(t).words(), little),
        0 <= f < pt_regs_of(t).words().len(),
    ensures
        u64_value_in(r.subrange(8 * f, 8 * f + 8), little) == pt_regs_of(t).words()[f],
{
    law_u64_bytes_read_back(pt_regs_of(t).words()[f], little);
}

/// Whether the eBPF virtual machine loads the program `prog`: `rbpf` creates a
/// machine for it only where its verifier accepts the instructions and the stack
/// use of the program can be computed.
pub uninterp spec fn ebpf_program_loads(prog: Seq<u8>) -> bool;

/// `rbpf::EbpfVmRaw::new`: whether a virtual machine can be created for `prog`.
/// Stated: the answer is the one the name [`ebpf_program_loads`] gives for the
/// instructions; what the verifier accepts is not written out.
#[verifier::external_body]
fn vm_loads(prog: &[u8]) -> (r: bool)
    ensures
        r == ebpf_program_loads(prog@),
{
    rbpf::EbpfVmRaw::new(Some(prog)).is_ok()
}

/// The arguments a probe event is opened with.
#[derive(Debug)]
pub struct PerfProbeArgs {
    /// The kernel symbol to probe.
    pub name: String,
}

/// The request to place a probe: where, and in which state it starts.
#[derive(Debug)]
pub struct KprobeInfo {
    /// The symbol to probe, where the probe is placed by name.
    pub symbol: Option<String>,
    /// The address to probe, where the probe is placed by address.
    pub addr: Option<usize>,
    /// The offset from the symbol or address.
    pub offset: usize,
    /// Whether the probe starts enabled.
    pub enable: bool,
}

/// What a probe hit runs: the eBPF program of a program file.
#[derive(Debug)]
pub struct KprobePerfCallBack {
    insns: Vec<u8>,
}

impl KprobePerfCallBack {
    /// The instructions of the program.
    pub closed spec fn spec_insns(self) -> Seq<u8> {
        self.insns@
    }

    fn new(insns: Vec<u8>) -> (r: Self)
        ensures
            r.spec_insns() == insns@,
    {
        Self { insns }
    }

    /// The instructions of the program.
    pub fn insns(&self) -> (r: &[u8])
        ensures
            r@ == self.spec_insns(),
    {
        self.insns.as_slice()
    }
}

/// A placed probe: where it is, whether it is enabled, and what a hit runs.
#[derive(Debug)]
pub struct Kprobe {
    pub symbol: Option<String>,
    pub addr: Option<usize>,
    pub offset: usize,
    pub enabled: bool,
    pub event_callback: Option<KprobePerfCallBack>,
}

/// A performance event that counts hits of a kernel probe and can run an eBPF
/// program on each hit.
#[derive(Debug)]
pub struct KprobePerfEvent {
    args: PerfProbeArgs,
    kprobe: Kprobe,
}

/// The probe request for a probe event opened with `args`: on the symbol named
/// by `args`, at offset zero, starting disabled.
pub open spec fn probe_request_for(args: PerfProbeArgs, info: KprobeInfo) -> bool {
    &&& info.symbol matches Some(s) && s@ == args.name@
    &&& info.addr is None
    &&& info.offset == 0
    &&& !info.enable
}

impl KprobePerfEvent {
    /// The arguments the event was opened with.
    pub closed spec fn spec_args(self) -> PerfProbeArgs {
        self.args
    }

    /// The probe of the event.
    pub closed spec fn spec_kprobe(self) -> Kprobe {
        self.kprobe
    }

    /// The probe of the event.
    pub fn kprobe(&self) -> (r: &Kprobe)
        ensures
            *r == self.spec_kprobe(),
    {
        &self.kprobe
    }

    /// Runs the eBPF program `prog` on every hit of the probe from now on.
    /// `prog` is the program the given file holds, or `None` where the file is not
    /// an eBPF program, which is refused with `EINVAL`. The program must be one the
    /// virtual machine loads.
    pub fn do_set_bpf_prog(&mut self, prog: Option<&[u8]>) -> (r: Result<()>)
        requires
            prog matches Some(p) ==> ebpf_program_loads(p@),
        ensures
            final(self).spec_args() == old(self).spec_args(),
            prog is None ==> {
                &&& r == Err::<(), SystemError>(SystemError::EINVAL)
                &&& final(self).spec_kprobe() == old(self).spec_kprobe()
            },
            prog matches Some(p) ==> {
                let k = final(self).spec_kprobe();
                let ok = old(self).spec_kprobe();
                &&& r == Ok::<(), SystemError>(())
                &&& k.event_callback matches Some(cb) && cb.spec_insns() == p@
                &&& k.symbol == ok.symbol
                &&& k.addr == ok.addr
                &&& k.offset == ok.offset
                &&& k.enabled == ok.enabled
            },
    {
        let insns = match prog {
            Some(p) => p,
            None => {
                return Err(SystemError::EINVAL);
            },
        };
        let callback = KprobePerfCallBack::new(vstd::slice::slice_to_vec(insns));
        self.kprobe.event_callback = Some(callback);
        Ok(())
    }

    /// Runs the eBPF program `prog` on every hit of the probe, as
    /// [`KprobePerfEvent::do_set_bpf_prog`] does.
    pub fn set_bpf_prog(&mut self, prog: Option<&[u8]>) -> (r: Result<()>)
        requires
            prog matches Some(p) ==> ebpf_program_loads(p@),
        ensures
            final(self).spec_args() == old(self).spec_args(),
            prog is None ==> {
                &&& r == Err::<(), SystemError>(SystemError::EINVAL)
                &&& final(self).spec_kprobe() == old(self).spec_kprobe()
            },
            prog matches Some(p) ==> {
                let k = final(self).spec_kprobe();
                let ok = old(self).spec_kprobe();
                &&& r == Ok::<(), SystemError>(())
                &&& k.event_callback matches Some(cb) && cb.spec_insns() == p@
                &&& k.symbol == ok.symbol
                &&& k.addr == ok.addr
                &&& k.offset == ok.offset
                &&& k.enabled == ok.enabled
            },
    {
        self.do_set_bpf_prog(prog)
    }

    /// Sets the program `prog` as [`KprobePerfEvent::set_bpf_prog`] does where the
    /// virtual machine loads it, and returns `None`, changing nothing, where it
    /// does not.
    pub fn try_set_bpf_prog(&mut self, prog: Option<&[u8]>) -> (r: Option<Result<()>>)
        ensures
            final(self).spec_args() == old(self).spec_args(),
            r is None <==> (prog matches Some(p) && !ebpf_program_loads(p@)),
            r is None ==> final(self).spec_kprobe() == old(self).spec_kprobe(),
            prog is None ==> {
                &&& r == Some(Err::<(), SystemError>(SystemError::EINVAL))
                &&& final(self).spec_kprobe() == old(self).spec_kprobe()
            },
            prog matches Some(p) ==> ebpf_program_loads(p@) ==> {
                let k = final(self).spec_kprobe();
                let ok = old(self).spec_kprobe();
                &&& r == Some(Ok::<(), SystemError>(()))
                &&& k.event_callback matches Some(cb) && cb.spec_insns() == p@
                &&& k.symbol == ok.symbol
                &&& k.addr == ok.addr
                &&& k.offset == ok.offset
                &&& k.enabled == ok.enabled
            },
    {
        if let Some(p) = prog {
            if !vm_loads(p) {
                return None;
            }
        }
        Some(self.set_bpf_prog(prog))
    }

    /// Enables the probe; nothing else changes.
    pub fn enable(&mut self) -> (r: Result<()>)
        ensures
            r == Ok::<(), SystemError>(()),
            final(self).spec_kprobe().enabled,
            final(self).same_probe_except_enabled(*old(self)),
    {
        self.kprobe.enabled = true;
        Ok(())
    }

    /// Disables the probe; nothing else changes.
    pub fn disable(&mut self) -> (r: Result<()>)
        ensures
            r == Ok::<(), SystemError>(()),
            !final(self).spec_kprobe().enabled,
            final(self).same_probe_except_enabled(*old(self)),
    {
        self.kprobe.enabled = false;
        Ok(())
    }

    /// The two events differ at most in whether the probe is enabled.
    pub open spec fn same_probe_except_enabled(self, other: Self) -> bool {
        let k = self.spec_kprobe();
        let ok = other.spec_kprobe();
        &&& self.spec_args() == other.spec_args()
        &&& k.symbol == ok.symbol
        &&& k.addr == ok.addr
        &&& k.offset == ok.offset
        &&& k.event_callback == ok.event_callback
    }
}

/// The probe request for a probe event opened with `args`.
pub fn kprobe_info_for(args: &PerfProbeArgs) -> (r: KprobeInfo)
    ensures
        probe_request_for(*args, r),
{
    KprobeInfo { symbol: Some(args.name.clone()), addr: None, offset: 0, enable: false }
}

/// Opens a probe event on the symbol named by `args`: the probe is the one
/// [`kprobe_info_for`] requests, at offset zero, disabled, and runs nothing on a
/// hit until a program is set.
pub fn perf_event_open_kprobe(args: PerfProbeArgs) -> (r: KprobePerfEvent)
    ensures
        r.spec_args() == args,
        r.spec_kprobe().symbol matches Some(s) && s@ == args.name@,
        r.spec_kprobe().addr is None,
        r.spec_kprobe().offset == 0,
        !r.spec_kprobe().enabled,
        r.spec_kprobe().event_callback is None,
{
    let info = kprobe_info_for(&args);
    let kprobe = Kprobe {
        symbol: info.symbol,
        addr: info.addr,
        offset: info.offset,
        enabled: info.enable,
        event_callback: None,
    };
    KprobePerfEvent { args, kprobe }
}

} // verus!
