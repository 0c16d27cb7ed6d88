//! Register banks: what the debug client sees of the guest CPU, for each
//! architecture, and how a bank is read from and written back to the
//! emulator's CPU state. The program counter never comes from the CPU state:
//! it is the one that the emulation thread published with the break, and a
//! written one goes back the same way.

use vstd::prelude::*;

verus! {

/// The low 32 bits of `v`.
pub open spec fn low32(v: u64) -> u32 {
    (v % 0x1_0000_0000) as u32
}

fn low(v: u64) -> (r: u32)
    ensures
        r == low32(v),
{
    (v % 0x1_0000_0000) as u32
}

/// x86 segment registers, as the client numbers them.
#[derive(Debug, Clone, Copy, PartialEq, Eq)]
pub struct X86SegmentRegs {
    pub cs: u32,
    pub ss: u32,
    pub ds: u32,
    pub es: u32,
    pub fs: u32,
    pub gs: u32,
}

/// What the bridge reads and writes of a 64-bit x86 CPU state.
#[derive(Debug, Clone, Copy, PartialEq, Eq)]
pub struct X86_64State {
    pub regs: [u64; 16],
    pub eflags: u64,
    /// Bases of the segments cs, ss, ds, es, fs, gs, in this order.
    pub segment_bases: [u64; 6],
    pub fpregs: [[u8; 10]; 8],
    pub xmm_regs: [u128; 16],
    pub mxcsr: u32,
}

/// The 64-bit x86 bank: general registers, flags, instruction pointer,
/// segments, x87 stack, XMM registers and MXCSR.
#[derive(Debug, Clone, Copy, PartialEq, Eq)]
pub struct X86_64CoreRegs {
    pub regs: [u64; 16],
    pub eflags: u32,
    pub rip: u64,
    pub segments: X86SegmentRegs,
    pub st: [[u8; 10]; 8],
    pub xmm: [u128; 16],
    pub mxcsr: u32,
}

/// What the bridge reads and writes of a 32-bit x86 CPU state. `regs` holds
/// eax, ecx, edx, ebx, esp, ebp, esi, edi, in this order; `segment_bases`
/// the bases of cs, ss, ds, es, fs, gs.
#[derive(Debug, Clone, Copy, PartialEq, Eq)]
pub struct X86State {
    pub regs: [u32; 8],
    pub eflags: u32,
    pub segment_bases: [u32; 6],
    pub fpregs: [[u8; 10]; 8],
    pub xmm_regs: [u128; 8],
    pub mxcsr: u32,
}

/// The 32-bit x86 bank.
#[derive(Debug, Clone, Copy, PartialEq, Eq)]
pub struct X86CoreRegs {
    pub eax: u32,
    pub ecx: u32,
    pub edx: u32,
    pub ebx: u32,
    pub esp: u32,
    pub ebp: u32,
    pub esi: u32,
    pub edi: u32,
    pub eip: u32,
    pub eflags: u32,
    pub segments: X86SegmentRegs,
    pub st: [[u8; 10]; 8],
    pub xmm: [u128; 8],
    pub mxcsr: u32,
}

/// What the bridge reads and writes of an ARM CPU state.
#[derive(Debug, Clone, Copy, PartialEq, Eq)]
pub struct ArmState {
    pub regs: [u32; 16],
    pub uncached_cpsr: u32,
}

/// The ARMv4T bank: r0..r12, sp, lr, pc, cpsr.
#[derive(Debug, Clone, Copy, PartialEq, Eq)]
pub struct ArmCoreRegs {
    pub r: [u32; 13],
    pub sp: u32,
    pub lr: u32,
    pub pc: u32,
    pub cpsr: u32,
}

/// What the bridge reads and writes of a MIPS CPU state.
#[derive(Debug, Clone, Copy, PartialEq, Eq)]
pub struct MipsState {
    pub gpr: [u32; 32],
    pub lo: u32,
    pub hi: u32,
    pub cp0_status: u32,
    pub cp0_badvaddr: u32,
    pub cp0_cause: u32,
}

/// MIPS coprocessor 0 registers.
#[derive(Debug, Clone, Copy, PartialEq, Eq)]
pub struct MipsCp0Regs {
    pub status: u32,
    pub badvaddr: u32,
    pub cause: u32,
}

/// The MIPS bank: general registers, lo, hi, pc and the coprocessor 0
/// registers. The floating-point registers are not read.
#[derive(Debug, Clone, Copy, PartialEq, Eq)]
pub struct MipsCoreRegs {
    pub r: [u32; 32],
    pub lo: u32,
    pub hi: u32,
    pub pc: u32,
    pub cp0: MipsCp0Regs,
}

/// The CPU state of the guest, by architecture.
#[derive(Debug, Clone, Copy, PartialEq, Eq)]
pub enum CpuState {
    X86_64(X86_64State),
    X86(X86State),
    Arm(ArmState),
    Mips(MipsState),
}

/// A register bank, by architecture.
#[derive(Debug, Clone, Copy, PartialEq, Eq)]
pub enum Registers {
    X86_64(X86_64CoreRegs),
    X86(X86CoreRegs),
    Arm(ArmCoreRegs),
    Mips(MipsCoreRegs),
}

/// The segment registers that stand for the six segment bases `bases`, given
/// in the order cs, ss, ds, es, fs, gs.
pub open spec fn segments_of(bases: Seq<u32>) -> X86SegmentRegs {
    X86SegmentRegs {
        cs: bases[0],
        ss: bases[1],
        ds: bases[2],
        es: bases[3],
        fs: bases[4],
        gs: bases[5],
    }
}

/// The bank read from a 64-bit x86 CPU state when the published program
/// counter is `pc`. Flags and segment bases are cut to 32 bits.
pub open spec fn x86_64_bank(cpu: X86_64State, pc: u64) -> X86_64CoreRegs {
    X86_64CoreRegs {
        regs: cpu.regs,
        eflags: low32(cpu.eflags),
        rip: pc,
        segments: segments_of(cpu.segment_bases@.map_values(|b: u64| low32(b))),
        st: cpu.fpregs,
        xmm: cpu.xmm_regs,
        mxcsr: cpu.mxcsr,
    }
}

/// The bank read from a 32-bit x86 CPU state when the published program
/// counter is `pc`.
pub open spec fn x86_bank(cpu: X86State, pc: u64) -> X86CoreRegs {
    X86CoreRegs {
        eax: cpu.regs[0],
        ecx: cpu.regs[1],
        edx: cpu.regs[2],
        ebx: cpu.regs[3],
        esp: cpu.regs[4],
        ebp: cpu.regs[5],
        esi: cpu.regs[6],
        edi: cpu.regs[7],
        eip: low32(pc),
        eflags: cpu.eflags,
        segments: segments_of(cpu.segment_bases@),
        st: cpu.fpregs,
        xmm: cpu.xmm_regs,
        mxcsr: cpu.mxcsr,
    }
}

/// Whether `regs` is the bank read from the ARM CPU state `cpu` when the
/// published program counter is `pc`.
pub open spec fn is_arm_bank(regs: ArmCoreRegs, cpu: ArmState, pc: u64) -> bool {
    &&& regs.r@ == cpu.regs@.take(13)
    &&& regs.sp == cpu.regs[13]
    &&& regs.lr == cpu.regs[14]
    &&& regs.pc == low32(pc)
    &&& regs.cpsr == cpu.uncached_cpsr
}

/// The bank read from a MIPS CPU state when the published program counter
/// is `pc`.
pub open spec fn mips_bank(cpu: MipsState, pc: u64) -> MipsCoreRegs {
    MipsCoreRegs {
        r: cpu.gpr,
        lo: cpu.lo,
        hi: cpu.hi,
        pc: low32(pc),
        cp0: MipsCp0Regs {
            status: cpu.cp0_status,
            badvaddr: cpu.cp0_badvaddr,
            cause: cpu.cp0_cause,
        },
    }
}

/// Whether `regs` is the bank of the CPU state `cpu` when the published
/// program counter is `pc`.
pub open spec fn is_bank_of(regs: Registers, cpu: CpuState, pc: u64) -> bool {
    match cpu {
        CpuState::X86_64(c) => regs == Registers::X86_64(x86_64_bank(c, pc)),
        CpuState::X86(c) => regs == Registers::X86(x86_bank(c, pc)),
        CpuState::Arm(c) => regs matches Registers::Arm(r) && is_arm_bank(r, c, pc),
        CpuState::Mips(c) => regs == Registers::Mips(mips_bank(c, pc)),
    }
}

/// Reads the bank of `cpu`, with `pc` as the program counter.
pub fn read_bank(cpu: &CpuState, pc: u64) -> (regs: Registers)
    ensures
        is_bank_of(regs, *cpu, pc),
{
    match cpu {
        CpuState::X86_64(c) => {
            let s = &c.segment_bases;
            let segments = X86SegmentRegs {
                cs: low(s[0]),
                ss: low(s[1]),
                ds: low(s[2]),
                es: low(s[3]),
                fs: low(s[4]),
                gs: low(s[5]),
            };
            Registers::X86_64(
                X86_64CoreRegs {
                    regs: c.regs,
                    eflags: low(c.eflags),
                    rip: pc,
                    segments,
                    st: c.fpregs,
                    xmm: c.xmm_regs,
                    mxcsr: c.mxcsr,
                },
            )
        },
        CpuState::X86(c) => {
            let s = &c.segment_bases;
            let segments = X86SegmentRegs {
                cs: s[0],
                ss: s[1],
                ds: s[2],
                es: s[3],
                fs: s[4],
                gs: s[5],
            };
            Registers::X86(
                X86CoreRegs {
                    eax: c.regs[0],
                    ecx: c.regs[1],
                    edx: c.regs[2],
                    ebx: c.regs[3],
                    esp: c.regs[4],
                    ebp: c.regs[5],
                    esi: c.regs[6],
                    edi: c.regs[7],
                    eip: low(pc),
                    eflags: c.eflags,
                    segments,
                    st: c.fpregs,
                    xmm: c.xmm_regs,
                    mxcsr: c.mxcsr,
                },
            )
        },
        CpuState::Arm(c) => {
            let g = &c.regs;
            let r = [
                g[0],
                g[1],
                g[2],
                g[3],
                g[4],
                g[5],
                g[6],
                g[7],
                g[8],
                g[9],
                g[10],
                g[11],
                g[12],
            ];
            assert(r@ =~= c.regs@.take(13));
            Registers::Arm(
                ArmCoreRegs { r, sp: g[13], lr: g[14], pc: low(pc), cpsr: c.uncached_cpsr },
            )
        },
        CpuState::Mips(c) => Registers::Mips(
            MipsCoreRegs {
                r: c.gpr,
                lo: c.lo,
                hi: c.hi,
                pc: low(pc),
                cp0: MipsCp0Regs {
                    status: c.cp0_status,
                    badvaddr: c.cp0_badvaddr,
                    cause: c.cp0_cause,
                },
            },
        ),
    }
}

/// The program counter that writing `regs` to `cpu` publishes: that of the
/// bank, where the bank is of the CPU's architecture.
pub open spec fn written_pc(cpu: CpuState, regs: Registers) -> Option<u64> {
    match (cpu, regs) {
        (CpuState::X86_64(_), Registers::X86_64(r)) => Some(r.rip),
        (CpuState::X86(_), Registers::X86(r)) => Some(r.eip as u64),
        (CpuState::Arm(_), Registers::Arm(r)) => Some(r.pc as u64),
        (CpuState::Mips(_), Registers::Mips(r)) => Some(r.pc as u64),
        _ => None,
    }
}

/// Whether `after` is the CPU state `before` with the bank `regs` written to
/// it. On 64-bit x86 the general registers and MXCSR are written; on 32-bit
/// x86 the general registers and the flags; on ARM r0 to r14 and the status
/// register; on MIPS the general registers, lo, hi and the three
/// coprocessor 0 registers. The program counter is never written here: it
/// goes through `written_pc`. A state given a bank of another architecture
/// is left as it is.
pub open spec fn is_written(after: CpuState, before: CpuState, regs: Registers) -> bool {
    match (before, regs) {
        (CpuState::X86_64(c), Registers::X86_64(r)) => after == CpuState::X86_64(
            X86_64State { regs: r.regs, mxcsr: r.mxcsr, ..c },
        ),
        (CpuState::X86(c), Registers::X86(r)) => after matches CpuState::X86(a) && a.regs@
            == seq![r.eax, r.ecx, r.edx, r.ebx, r.esp, r.ebp, r.esi, r.edi] && a == (X86State {
            regs: a.regs,
            eflags: r.eflags,
            ..c
        }),
        (CpuState::Arm(c), Registers::Arm(r)) => after matches CpuState::Arm(a) && a.regs@
            == r.r@ + seq![r.sp, r.lr, c.regs[15]] && a.uncached_cpsr == r.cpsr,
        (CpuState::Mips(_), Registers::Mips(r)) => after == CpuState::Mips(
            MipsState {
                gpr: r.r,
                lo: r.lo,
                hi: r.hi,
                cp0_status: r.cp0.status,
                cp0_badvaddr: r.cp0.badvaddr,
                cp0_cause: r.cp0.cause,
            },
        ),
        _ => after == before,
    }
}

/// Writes the bank `regs` to `cpu`. Returns the program counter to publish,
/// if one was written.
pub fn write_bank(cpu: &mut CpuState, regs: &Registers) -> (pc: Option<u64>)
    ensures
        is_written(*final(cpu), *old(cpu), *regs),
        pc == written_pc(*old(cpu), *regs),
{
    match (*cpu, regs) {
        (CpuState::X86_64(c), Registers::X86_64(r)) => {
            *cpu = CpuState::X86_64(X86_64State { regs: r.regs, mxcsr: r.mxcsr, ..c });
            Some(r.rip)
        },
        (CpuState::X86(c), Registers::X86(r)) => {
            let written = [r.eax, r.ecx, r.edx, r.ebx, r.esp, r.ebp, r.esi, r.edi];
            *cpu = CpuState::X86(X86State { regs: written, eflags: r.eflags, ..c });
            Some(r.eip as u64)
        },
        (CpuState::Arm(c), Registers::Arm(r)) => {
            let g = &r.r;
            let written = [
                g[0],
                g[1],
                g[2],
                g[3],
                g[4],
                g[5],
                g[6],
                g[7],
                g[8],
                g[9],
                g[10],
                g[11],
                g[12],
                r.sp,
                r.lr,
                c.regs[15],
            ];
            assert(written@ =~= r.r@ + seq![r.sp, r.lr, c.regs[15]]);
            *cpu = CpuState::Arm(ArmState { regs: written, uncached_cpsr: r.cpsr });
            Some(r.pc as u64)
        },
        (CpuState::Mips(_), Registers::Mips(r)) => {
            *cpu = CpuState::Mips(
                MipsState {
                    gpr: r.r,
                    lo: r.lo,
                    hi: r.hi,
                    cp0_status: r.cp0.status,
                    cp0_badvaddr: r.cp0.badvaddr,
                    cp0_cause: r.cp0.cause,
                },
            );
            Some(r.pc as u64)
        },
        _ => None,
    }
}

} // verus!
