//! The branch detector: finds the first instruction of a lifted block that
//! ends it and says what kind of branch it is. The representation has one
//! branch operation for calls, jumps and returns alike, so the kind is read
//! off the instructions just before it.

use vstd::prelude::*;
use crate::branch::{Branch, BranchView};
use crate::ir::{
    Block, ControlFlowGraph, Expression, ExpressionView, Instruction, InstructionView, Operation,
    OperationView, Scalar, ScalarView,
};
use crate::text::{contains_text, has_infix};

verus! {

/// A guest architecture that blocks can be lifted for.
#[derive(Debug, Clone, Copy, PartialEq, Eq)]
pub enum Arch {
    X86,
    X86_64,
    Mips,
    Mipsel,
    Ppc,
}

impl Arch {
    /// Whether calls and returns go through the stack (and not through a
    /// return-address register).
    pub open spec fn is_stack_based(self) -> bool {
        self is X86 || self is X86_64
    }

    /// The stack pointer as the lifted code names it.
    pub open spec fn stack_pointer_view(self) -> ScalarView {
        match self {
            Arch::X86 => ScalarView { name: "esp"@, bits: 32 },
            Arch::X86_64 => ScalarView { name: "rsp"@, bits: 64 },
            Arch::Mips => ScalarView { name: "$sp"@, bits: 32 },
            Arch::Mipsel => ScalarView { name: "$sp"@, bits: 32 },
            Arch::Ppc => ScalarView { name: "r1"@, bits: 32 },
        }
    }

    /// The register that holds the return address, where the architecture
    /// has one, as the lifted code names it.
    pub open spec fn link_register_view(self) -> Option<ScalarView> {
        match self {
            Arch::X86 => None,
            Arch::X86_64 => None,
            Arch::Mips => Some(ScalarView { name: "$ra"@, bits: 32 }),
            Arch::Mipsel => Some(ScalarView { name: "$ra"@, bits: 32 }),
            Arch::Ppc => Some(ScalarView { name: "lr"@, bits: 32 }),
        }
    }

    pub fn stack_based(&self) -> (r: bool)
        ensures
            r == self.is_stack_based(),
    {
        match self {
            Arch::X86 => true,
            Arch::X86_64 => true,
            _ => false,
        }
    }

    pub fn stack_pointer(&self) -> (r: Scalar)
        ensures
            r@ == self.stack_pointer_view(),
    {
        match self {
            Arch::X86 => Scalar::new("esp", 32),
            Arch::X86_64 => Scalar::new("rsp", 64),
            Arch::Mips => Scalar::new("$sp", 32),
            Arch::Mipsel => Scalar::new("$sp", 32),
            Arch::Ppc => Scalar::new("r1", 32),
        }
    }

    pub fn link_register(&self) -> (r: Option<Scalar>)
        ensures
            r.deep_view() == self.link_register_view(),
    {
        match self {
            Arch::X86 => None,
            Arch::X86_64 => None,
            Arch::Mips => Some(Scalar::new("$ra", 32)),
            Arch::Mipsel => Some(Scalar::new("$ra", 32)),
            Arch::Ppc => Some(Scalar::new("lr", 32)),
        }
    }
}

/// Whether `instr` is a load that reads `reg`.
pub open spec fn loads_reg(instr: InstructionView, reg: ScalarView) -> bool {
    instr.operation is Load && instr.operation.reads(reg)
}

/// Whether `instr` is a store that reads `reg`.
pub open spec fn stores_reg(instr: InstructionView, reg: ScalarView) -> bool {
    instr.operation is Store && instr.operation.reads(reg)
}

/// Whether the branch at `idx` looks like a call. With a stack: the
/// instruction before it is a store that reads the stack pointer. With a
/// return-address register: the instruction before it writes that register.
pub open spec fn maybe_call(block: Seq<InstructionView>, idx: int, arch: Arch) -> bool {
    idx > 0 && if arch.is_stack_based() {
        stores_reg(block[idx - 1], arch.stack_pointer_view())
    } else {
        arch.link_register_view() matches Some(lr) && block[idx - 1].operation.writes(lr)
    }
}

/// Whether the branch at `idx` looks like a return. With a stack: it is no
/// call, two instructions stand before it, and one of those two is a load
/// that reads the stack pointer. With a return-address register: the
/// instruction before it reads that register.
pub open spec fn maybe_ret(block: Seq<InstructionView>, idx: int, arch: Arch) -> bool {
    if arch.is_stack_based() {
        idx > 1 && !maybe_call(block, idx, arch) && (loads_reg(
            block[idx - 2],
            arch.stack_pointer_view(),
        ) || loads_reg(block[idx - 1], arch.stack_pointer_view()))
    } else {
        idx > 0 && (arch.link_register_view() matches Some(lr) && block[idx - 1].operation.reads(
            lr,
        ))
    }
}

/// Whether a scalar of this name is a temporary of the lifter.
pub open spec fn is_temp(name: Seq<char>) -> bool {
    has_infix(name, "temp"@)
}

/// The scalar that `instr` derives `reg` from: the first scalar of the source
/// if `instr` assigns to `reg`, the first scalar of the address if it loads
/// into `reg`.
pub open spec fn source_of(instr: InstructionView, reg: ScalarView) -> Option<ScalarView> {
    match instr.operation {
        OperationView::Assign { dst, src } => if dst == reg && src.scalars().len() > 0 {
            Some(src.scalars()[0])
        } else {
            None
        },
        OperationView::Load { dst, index } => if dst == reg && index.scalars().len() > 0 {
            Some(index.scalars()[0])
        } else {
            None
        },
        _ => None,
    }
}

/// The register that `reg` is derived from, by the last of the first `n`
/// instructions of `block` that has a source for it.
pub open spec fn resolve_reg_indirect(block: Seq<InstructionView>, reg: ScalarView, n: nat) -> Option<
    ScalarView,
>
    decreases n,
{
    if n == 0 {
        None
    } else {
        match source_of(block[n - 1], reg) {
            Some(s) => Some(s),
            None => resolve_reg_indirect(block, reg, (n - 1) as nat),
        }
    }
}

/// The branch that the instruction at `idx` of `block` makes, if it is a
/// branch operation with a guest address whose target is a constant that
/// fits 64 bits or a single scalar.
///
/// A constant target is a direct call or a direct jump (not taken, until the
/// trace says otherwise). A scalar target is a return if it looks like one;
/// else it is an indirect call or jump through that scalar, or, where the
/// scalar is a temporary, through the register the temporary was derived
/// from in this block, and a direct jump of unknown destination where it
/// was derived from none.
pub open spec fn classify(block: Seq<InstructionView>, idx: int, arch: Arch, seq_num: usize) -> Option<
    BranchView,
> {
    match (block[idx].operation, block[idx].address) {
        (OperationView::Branch { target }, Some(site_pc)) => match target {
            ExpressionView::Constant(Some(dst_pc)) => if maybe_call(block, idx, arch) {
                Some(BranchView::DirectCall { site_pc, dst_pc })
            } else {
                Some(BranchView::DirectJump { site_pc, dst_pc, taken: false })
            },
            ExpressionView::Scalar(reg) => if maybe_ret(block, idx, arch) {
                Some(BranchView::ReturnSentinel { site_pc, seq_num })
            } else {
                let through = if is_temp(reg.name) {
                    resolve_reg_indirect(block, reg, block.len())
                } else {
                    Some(reg)
                };
                match through {
                    None => Some(BranchView::DirectJumpSentinel { site_pc, seq_num }),
                    Some(r) => if maybe_call(block, idx, arch) {
                        Some(BranchView::CallSentinel { site_pc, seq_num, reg: r.name })
                    } else {
                        Some(BranchView::IndirectJumpSentinel { site_pc, seq_num, reg: r.name })
                    },
                }
            },
            _ => None,
        },
        _ => None,
    }
}

/// The branch of the first instruction of `block`, from index `from` on,
/// that `classify` finds one for.
pub open spec fn first_in_block(block: Seq<InstructionView>, from: int, arch: Arch, seq_num: usize) -> Option<
    BranchView,
>
    decreases block.len() - from,
{
    if from < 0 || from >= block.len() {
        None
    } else {
        match classify(block, from, arch, seq_num) {
            Some(b) => Some(b),
            None => first_in_block(block, from + 1, arch, seq_num),
        }
    }
}

/// The first branch of the lifted code, blocks taken in order from block
/// `from` on.
pub open spec fn first_branch(cfg: Seq<Seq<InstructionView>>, from: int, arch: Arch, seq_num: usize) -> Option<
    BranchView,
>
    decreases cfg.len() - from,
{
    if from < 0 || from >= cfg.len() {
        None
    } else {
        match first_in_block(cfg[from], 0, arch, seq_num) {
            Some(b) => Some(b),
            None => first_branch(cfg, from + 1, arch, seq_num),
        }
    }
}

/// Whatever the detector finds is a sentinel, a direct call, or a direct
/// jump not yet marked as taken: never a branch in resolved form.
pub proof fn lemma_detected_is_unresolved(
    cfg: Seq<Seq<InstructionView>>,
    from: int,
    arch: Arch,
    seq_num: usize,
)
    ensures
        first_branch(cfg, from, arch, seq_num) matches Some(b) ==> b.is_unresolved(),
    decreases cfg.len() - from,
{
    if 0 <= from < cfg.len() {
        lemma_block_branch_is_unresolved(cfg[from], 0, arch, seq_num);
        lemma_detected_is_unresolved(cfg, from + 1, arch, seq_num);
    }
}

proof fn lemma_block_branch_is_unresolved(
    block: Seq<InstructionView>,
    from: int,
    arch: Arch,
    seq_num: usize,
)
    ensures
        first_in_block(block, from, arch, seq_num) matches Some(b) ==> b.is_unresolved(),
    decreases block.len() - from,
{
    if 0 <= from < block.len() {
        lemma_block_branch_is_unresolved(block, from + 1, arch, seq_num);
    }
}

/// Does the instruction load a register?
pub fn instr_loads_reg(instr: &Instruction, reg: &Scalar) -> (r: bool)
    ensures
        r == loads_reg(instr@, reg@),
{
    instr.reads(reg) && instr.is_load()
}

/// Does the instruction store a register?
pub fn instr_stores_reg(instr: &Instruction, reg: &Scalar) -> (r: bool)
    ensures
        r == stores_reg(instr@, reg@),
{
    instr.reads(reg) && instr.is_store()
}

fn instr_source_of<'a>(instr: &'a Instruction, reg: &Scalar) -> (r: Option<&'a Scalar>)
    ensures
        r.deep_view() == source_of(instr@, reg@),
{
    match &instr.operation {
        Operation::Assign { dst, src } => {
            if dst.same(reg) {
                src.first_scalar()
            } else {
                None
            }
        },
        Operation::Load { dst, index } => {
            if dst.same(reg) {
                index.first_scalar()
            } else {
                None
            }
        },
        _ => None,
    }
}

/// What register is the scalar derived from?
pub fn block_resolve_reg_indirect<'a>(block: &'a Block, scalar: &Scalar) -> (r: Option<&'a Scalar>)
    ensures
        r.deep_view() == resolve_reg_indirect(block@, scalar@, block@.len()),
{
    let mut n: usize = block.instructions.len();
    while n > 0
        invariant
            n <= block.instructions.len(),
            block@.len() == block.instructions.len(),
            resolve_reg_indirect(block@, scalar@, block@.len()) == resolve_reg_indirect(
                block@,
                scalar@,
                n as nat,
            ),
        decreases n,
    {
        let found = instr_source_of(&block.instructions[n - 1], scalar);
        if found.is_some() {
            return found;
        }
        n -= 1;
    }
    None
}

fn is_call_at(block: &Block, idx: usize, arch: Arch) -> (r: bool)
    requires
        idx < block.instructions.len(),
    ensures
        r == maybe_call(block@, idx as int, arch),
{
    if idx == 0 {
        return false;
    }
    let prev = &block.instructions[idx - 1];
    if arch.stack_based() {
        instr_stores_reg(prev, &arch.stack_pointer())
    } else {
        match arch.link_register() {
            Some(lr) => prev.writes(&lr),
            None => false,
        }
    }
}

fn is_ret_at(block: &Block, idx: usize, arch: Arch, call: bool) -> (r: bool)
    requires
        idx < block.instructions.len(),
        call == maybe_call(block@, idx as int, arch),
    ensures
        r == maybe_ret(block@, idx as int, arch),
{
    if arch.stack_based() {
        if idx > 1 && !call {
            let sp = arch.stack_pointer();
            instr_loads_reg(&block.instructions[idx - 2], &sp) || instr_loads_reg(
                &block.instructions[idx - 1],
                &sp,
            )
        } else {
            false
        }
    } else {
        if idx == 0 {
            return false;
        }
        match arch.link_register() {
            Some(lr) => block.instructions[idx - 1].reads(&lr),
            None => false,
        }
    }
}

/// The branch made by the instruction at `idx`, if it makes one.
pub fn classify_at(block: &Block, idx: usize, arch: Arch, seq_num: usize) -> (r: Option<Branch>)
    requires
        idx < block.instructions.len(),
    ensures
        r.deep_view() == classify(block@, idx as int, arch, seq_num),
{
    let instr = &block.instructions[idx];
    let site_pc = match instr.address {
        Some(a) => a,
        None => {
            return None;
        },
    };
    let target = match &instr.operation {
        Operation::Branch { target } => target,
        _ => {
            return None;
        },
    };
    match target {
        Expression::Constant(Some(dst_pc)) => {
            if is_call_at(block, idx, arch) {
                Some(Branch::DirectCall { site_pc, dst_pc: *dst_pc })
            } else {
                Some(Branch::DirectJump { site_pc, dst_pc: *dst_pc, taken: false })
            }
        },
        Expression::Scalar(reg) => {
            let call = is_call_at(block, idx, arch);
            if is_ret_at(block, idx, arch, call) {
                return Some(Branch::ReturnSentinel { site_pc, seq_num });
            }
            let through = if contains_text(reg.name.as_str(), "temp") {
                block_resolve_reg_indirect(block, reg)
            } else {
                Some(reg)
            };
            match through {
                None => Some(Branch::DirectJumpSentinel { site_pc, seq_num }),
                Some(r) => {
                    if call {
                        Some(Branch::CallSentinel { site_pc, seq_num, reg: r.name.clone() })
                    } else {
                        Some(
                            Branch::IndirectJumpSentinel { site_pc, seq_num, reg: r.name.clone() },
                        )
                    }
                },
            }
        },
        _ => None,
    }
}

/// Get first call/jump/return present in the lifted code.
pub fn detect(cfg: &ControlFlowGraph, arch: Arch, seq_num: usize) -> (r: Option<Branch>)
    ensures
        r.deep_view() == first_branch(cfg@, 0, arch, seq_num),
{
    let mut b: usize = 0;
    while b < cfg.blocks.len()
        invariant
            b <= cfg.blocks.len(),
            cfg@.len() == cfg.blocks.len(),
            first_branch(cfg@, 0, arch, seq_num) == first_branch(cfg@, b as int, arch, seq_num),
        decreases cfg.blocks.len() - b,
    {
        let block = &cfg.blocks[b];
        let mut i: usize = 0;
        while i < block.instructions.len()
            invariant
                i <= block.instructions.len(),
                block@.len() == block.instructions.len(),
                0 <= b < cfg@.len(),
                cfg@[b as int] == block@,
                first_branch(cfg@, 0, arch, seq_num) == first_branch(cfg@, b as int, arch, seq_num),
                first_in_block(block@, 0, arch, seq_num) == first_in_block(
                    block@,
                    i as int,
                    arch,
                    seq_num,
                ),
            decreases block.instructions.len() - i,
        {
            let found = classify_at(block, i, arch, seq_num);
            if found.is_some() {
                return found;
            }
            i += 1;
        }
        b += 1;
    }
    None
}

} // verus!
