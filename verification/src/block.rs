//! One observed execution of a guest basic block: where and when it ran, its
//! bytes, its lifted form once a lift was tried, and its terminator.

use vstd::prelude::*;
use vstd::slice::slice_to_vec;
use crate::branch::{Branch, BranchView};
use crate::detect::{detect, first_branch, lemma_detected_is_unresolved, Arch};
use crate::ir::{ControlFlowGraph, InstructionView};
use crate::text::{decimal, hex_padded, push_decimal, push_hex};

verus! {

/// Guest basic block, as the emulator delimits it (may be a part of a basic
/// block of the program's binary).
#[derive(Debug)]
pub struct BasicBlock {
    seq_num: usize,
    pc: u64,
    asid: u64,
    pid: i32,
    ppid: i32,
    icount: u64,
    bytes: Vec<u8>,
    arch: Arch,
    lift_attempted: bool,
    translation: Option<ControlFlowGraph>,
    branch: Option<Branch>,
}

/// The mathematical value of a `BasicBlock`.
pub ghost struct BlockView {
    pub seq_num: usize,
    pub pc: u64,
    pub asid: u64,
    pub pid: i32,
    pub ppid: i32,
    pub icount: u64,
    pub bytes: Seq<u8>,
    pub arch: Arch,
    pub lift_attempted: bool,
    pub translation: Option<Seq<Seq<InstructionView>>>,
    pub branch: Option<BranchView>,
}

/// The bytes `bytes` in hexadecimal, separated by a comma and a space.
pub open spec fn hex_list(bytes: Seq<u8>) -> Seq<char>
    decreases bytes.len(),
{
    if bytes.len() == 0 {
        Seq::empty()
    } else if bytes.len() == 1 {
        hex_padded(bytes[0] as nat, 1)
    } else {
        hex_list(bytes.drop_last()) + ", "@ + hex_padded(bytes.last() as nat, 1)
    }
}

impl BlockView {
    /// The one-line description of a block, `lift` being the text of its
    /// lifted code.
    pub open spec fn text(self, lift: Option<Seq<char>>) -> Seq<char> {
        "SEQ: "@ + decimal(self.seq_num as nat) + ", PC: "@ + hex_padded(self.pc as nat, 8)
            + ", BB_BYTES: ["@ + hex_list(self.bytes) + "], LIFT: "@ + match lift {
            Some(t) => t,
            None => "None"@,
        }
    }

    /// A block as the constructors make it: not lifted, without a branch.
    pub open spec fn fresh(
        arch: Arch,
        seq_num: usize,
        pc: u64,
        asid: u64,
        pid: i32,
        ppid: i32,
        icount: u64,
        bytes: Seq<u8>,
    ) -> BlockView {
        BlockView {
            seq_num,
            pc,
            asid,
            pid,
            ppid,
            icount,
            bytes,
            arch,
            lift_attempted: false,
            translation: None,
            branch: None,
        }
    }

    /// What every block satisfies: a branch is only known of lifted code, and
    /// lifted code only exists once a lift was tried.
    pub open spec fn wf(self) -> bool {
        &&& self.branch is Some ==> self.translation is Some
        &&& self.translation is Some ==> self.lift_attempted
    }

    /// The terminator that the detector finds in the lifted code, if any.
    pub open spec fn detected(self) -> Option<BranchView> {
        match self.translation {
            Some(cfg) => first_branch(cfg, 0, self.arch, self.seq_num),
            None => None,
        }
    }

    /// The block after the outcome `lifted` of a lift was handed in: kept, if
    /// this is the first; else the block is unchanged.
    pub open spec fn lifted(self, lifted: Option<Seq<Seq<InstructionView>>>) -> BlockView {
        if self.lift_attempted {
            self
        } else {
            BlockView { lift_attempted: true, translation: lifted, ..self }
        }
    }

    /// The block after processing with the outcome `lifted` of a lift: on the
    /// first call the outcome is kept and the terminator detected in it; any
    /// later call changes nothing.
    pub open spec fn processed(self, lifted: Option<Seq<Seq<InstructionView>>>) -> BlockView {
        if self.lift_attempted {
            self
        } else {
            let kept = self.lifted(lifted);
            BlockView { branch: kept.detected(), ..kept }
        }
    }

    /// The block with its branch in final form, given the start of the block
    /// that ran next.
    pub open spec fn resolved(self, next_pc: u64) -> BlockView {
        match self.branch {
            Some(b) => BlockView { branch: Some(b.resolved(next_pc)), ..self },
            None => self,
        }
    }
}

impl View for BasicBlock {
    type V = BlockView;

    closed spec fn view(&self) -> BlockView {
        BlockView {
            seq_num: self.seq_num,
            pc: self.pc,
            asid: self.asid,
            pid: self.pid,
            ppid: self.ppid,
            icount: self.icount,
            bytes: self.bytes@,
            arch: self.arch,
            lift_attempted: self.lift_attempted,
            translation: self.translation.deep_view(),
            branch: self.branch.deep_view(),
        }
    }
}

impl DeepView for BasicBlock {
    type V = BlockView;

    open spec fn deep_view(&self) -> BlockView {
        self@
    }
}

impl Clone for BasicBlock {
    fn clone(&self) -> (r: Self)
        ensures
            r@ == self@,
    {
        proof {
            use_type_invariant(self);
        }
        let translation = match &self.translation {
            Some(cfg) => Some(cfg.clone()),
            None => None,
        };
        let branch = match &self.branch {
            Some(branch) => Some(branch.clone()),
            None => None,
        };
        BasicBlock {
            seq_num: self.seq_num,
            pc: self.pc,
            asid: self.asid,
            pid: self.pid,
            ppid: self.ppid,
            icount: self.icount,
            bytes: slice_to_vec(self.bytes.as_slice()),
            arch: self.arch,
            lift_attempted: self.lift_attempted,
            translation,
            branch,
        }
    }
}

impl BasicBlock {
    #[verifier::type_invariant]
    spec fn inv(self) -> bool {
        self@.wf()
    }

    /// Constructor, copies bytes from parameter slice. The block is one of
    /// `Arch::X86_64`.
    pub fn new(
        seq_num: usize,
        pc: u64,
        asid: u64,
        pid: i32,
        ppid: i32,
        icount: u64,
        bytes: &[u8],
    ) -> (r: Self)
        ensures
            r@ == BlockView::fresh(Arch::X86_64, seq_num, pc, asid, pid, ppid, icount, bytes@),
    {
        BasicBlock::new_zero_copy(seq_num, pc, asid, pid, ppid, icount, slice_to_vec(bytes))
    }

    /// Constructor, takes ownership of the bytes to avoid a copy. The block
    /// is one of `Arch::X86_64`.
    pub fn new_zero_copy(
        seq_num: usize,
        pc: u64,
        asid: u64,
        pid: i32,
        ppid: i32,
        icount: u64,
        bytes: Vec<u8>,
    ) -> (r: Self)
        ensures
            r@ == BlockView::fresh(Arch::X86_64, seq_num, pc, asid, pid, ppid, icount, bytes@),
    {
        BasicBlock::for_arch(Arch::X86_64, seq_num, pc, asid, pid, ppid, icount, bytes)
    }

    /// Constructor for a block of the architecture `arch`.
    pub fn for_arch(
        arch: Arch,
        seq_num: usize,
        pc: u64,
        asid: u64,
        pid: i32,
        ppid: i32,
        icount: u64,
        bytes: Vec<u8>,
    ) -> (r: Self)
        ensures
            r@ == BlockView::fresh(arch, seq_num, pc, asid, pid, ppid, icount, bytes@),
    {
        BasicBlock {
            seq_num,
            pc,
            asid,
            pid,
            ppid,
            icount,
            bytes,
            arch,
            lift_attempted: false,
            translation: None,
            branch: None,
        }
    }

    /// Get sequence number
    pub fn seq_num(&self) -> (r: usize)
        ensures
            r == self@.seq_num,
    {
        self.seq_num
    }

    /// Get PC
    pub fn pc(&self) -> (r: u64)
        ensures
            r == self@.pc,
    {
        self.pc
    }

    /// Get address-space identifier
    pub fn asid(&self) -> (r: u64)
        ensures
            r == self@.asid,
    {
        self.asid
    }

    /// Get process identifier
    pub fn pid(&self) -> (r: i32)
        ensures
            r == self@.pid,
    {
        self.pid
    }

    /// Get parent process identifier
    pub fn ppid(&self) -> (r: i32)
        ensures
            r == self@.ppid,
    {
        self.ppid
    }

    /// Get the guest instruction count at block entry
    pub fn icount(&self) -> (r: u64)
        ensures
            r == self@.icount,
    {
        self.icount
    }

    /// Get the architecture the block is lifted for
    pub fn arch(&self) -> (r: Arch)
        ensures
            r == self@.arch,
    {
        self.arch
    }

    /// Get bytes
    pub fn bytes(&self) -> (r: &[u8])
        ensures
            r@ == self@.bytes,
    {
        self.bytes.as_slice()
    }

    /// Get translation
    pub fn translation(&self) -> (r: &Option<ControlFlowGraph>)
        ensures
            r.deep_view() == self@.translation,
            self@.wf(),
    {
        proof {
            use_type_invariant(self);
        }
        &self.translation
    }

    /// Get lift status
    pub fn is_lifted(&self) -> (r: bool)
        ensures
            r == (self@.translation is Some),
            self@.wf(),
    {
        proof {
            use_type_invariant(self);
        }
        self.translation.is_some()
    }

    /// Whether no lift was tried yet, so that one is due.
    pub fn needs_lift(&self) -> (r: bool)
        ensures
            r == !self@.lift_attempted,
            self@.wf(),
    {
        proof {
            use_type_invariant(self);
        }
        !self.lift_attempted
    }

    /// Get branch. A block that has one is lifted.
    pub fn branch(&self) -> (r: &Option<Branch>)
        ensures
            r.deep_view() == self@.branch,
            r is Some ==> self@.translation is Some,
            self@.wf(),
    {
        proof {
            use_type_invariant(self);
        }
        &self.branch
    }

    /// Takes the outcome of lifting `bytes()` at `pc()`: the lifted code, or
    /// `None` where the lifter refused the bytes. Only the first outcome
    /// handed in is kept: ask `needs_lift()` before running the lifter.
    /// This is not done by the constructor so that the work can be deferred
    /// for multi-threading.
    pub fn lift(&mut self, lifted: Option<ControlFlowGraph>)
        ensures
            final(self)@ == old(self)@.lifted(lifted.deep_view()),
            final(self)@.wf(),
    {
        proof {
            use_type_invariant(&*self);
        }
        if !self.lift_attempted {
            self.lift_attempted = true;
            self.translation = lifted;
        }
    }

    /// Takes the outcome of a lift and finds the first branch (if any).
    /// Saves the results in `translation()` and `branch()`. A second call
    /// changes nothing.
    pub fn process(&mut self, lifted: Option<ControlFlowGraph>)
        ensures
            final(self)@ == old(self)@.processed(lifted.deep_view()),
            final(self)@.wf(),
    {
        proof {
            use_type_invariant(&*self);
        }
        if !self.lift_attempted {
            self.lift(lifted);
            let found = self.find_branch();
            self.branch = found;
        }
    }

    /// Get first call/jump/return present.
    /// Without lifted code there is none.
    pub fn find_branch(&self) -> (r: Option<Branch>)
        ensures
            r.deep_view() == self@.detected(),
    {
        match &self.translation {
            Some(cfg) => detect(cfg, self.arch, self.seq_num),
            None => None,
        }
    }

    /// The one-line description of the block: sequence number, start
    /// address, bytes, and the lifted code as the text `lift` shows it
    /// (`None` for a block without lifted code).
    pub fn to_text(&self, lift: Option<&str>) -> (r: String)
        ensures
            r@ == self@.text(
                match lift {
                    Some(t) => Some(t@),
                    None => None,
                },
            ),
    {
        let mut out = String::from_str("SEQ: ");
        push_decimal(&mut out, self.seq_num as u64);
        out.append(", PC: ");
        push_hex(&mut out, self.pc, 8);
        out.append(", BB_BYTES: [");
        let mut i: usize = 0;
        let ghost head = out@;
        while i < self.bytes.len()
            invariant
                i <= self.bytes.len(),
                out@ == head + hex_list(self.bytes@.take(i as int)),
            decreases self.bytes.len() - i,
        {
            proof {
                assert(self.bytes@.take(i + 1).drop_last() =~= self.bytes@.take(i as int));
            }
            if i > 0 {
                out.append(", ");
            }
            push_hex(&mut out, self.bytes[i] as u64, 1);
            i += 1;
        }
        assert(self.bytes@.take(self.bytes.len() as int) =~= self.bytes@);
        out.append("], LIFT: ");
        match lift {
            Some(t) => out.append(t),
            None => out.append("None"),
        }
        assert(out@ =~= self@.text(
            match lift {
                Some(t) => Some(t@),
                None => None,
            },
        ));
        out
    }

    /// Rewrites the branch into its final form, given the start of the block
    /// that ran next in the same address space.
    pub(crate) fn resolve(&mut self, next_pc: u64)
        ensures
            final(self)@ == old(self)@.resolved(next_pc),
    {
        proof {
            use_type_invariant(&*self);
        }
        let rewritten = match &self.branch {
            Some(Branch::CallSentinel { site_pc, reg, .. }) => Some(
                Branch::IndirectCall { site_pc: *site_pc, dst_pc: next_pc, reg_used: reg.clone() },
            ),
            Some(Branch::ReturnSentinel { site_pc, .. }) => Some(
                Branch::Return { site_pc: *site_pc, dst_pc: next_pc },
            ),
            Some(Branch::IndirectJumpSentinel { site_pc, reg, .. }) => Some(
                Branch::IndirectJump { site_pc: *site_pc, dst_pc: next_pc, reg_used: reg.clone() },
            ),
            Some(Branch::DirectJumpSentinel { site_pc, .. }) => Some(
                Branch::DirectJump { site_pc: *site_pc, dst_pc: next_pc, taken: true },
            ),
            Some(Branch::DirectJump { site_pc, dst_pc, .. }) => Some(
                Branch::DirectJump {
                    site_pc: *site_pc,
                    dst_pc: *dst_pc,
                    taken: next_pc == *dst_pc,
                },
            ),
            _ => None,
        };
        if rewritten.is_some() {
            self.branch = rewritten;
        }
    }
}

/// A lift is asked for at most once per block: after a block was processed it
/// no longer needs a lift, and processing it again, with whatever outcome,
/// leaves it as it is.
pub proof fn lemma_process_once(
    block: BlockView,
    first: Option<Seq<Seq<InstructionView>>>,
    second: Option<Seq<Seq<InstructionView>>>,
)
    ensures
        block.processed(first).lift_attempted,
        block.processed(first).processed(second) == block.processed(first),
        block.processed(first).lifted(second) == block.processed(first),
{
}

/// A block that was never assembled has its branch, if any, as the detector
/// leaves it.
pub proof fn lemma_processed_is_unresolved(
    block: BlockView,
    lifted: Option<Seq<Seq<InstructionView>>>,
)
    requires
        block.branch matches Some(b) ==> b.is_unresolved(),
    ensures
        block.processed(lifted).branch matches Some(b) ==> b.is_unresolved(),
{
    if let Some(cfg) = lifted {
        lemma_detected_is_unresolved(cfg, 0, block.arch, block.seq_num);
    }
}

/// A block keeps a branch only together with lifted code, whatever is done
/// to it.
pub proof fn lemma_branch_needs_translation(
    block: BlockView,
    lifted: Option<Seq<Seq<InstructionView>>>,
    next_pc: u64,
)
    requires
        block.wf(),
    ensures
        block.lifted(lifted).wf(),
        block.processed(lifted).wf(),
        block.resolved(next_pc).wf(),
        block.processed(lifted).branch is Some ==> block.processed(lifted).translation is Some,
{
}

} // verus!
