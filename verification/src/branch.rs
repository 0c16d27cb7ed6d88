//! The terminator of a basic block: five final kinds and four sentinels that
//! stand in until the trace shows where the branch went.

use vstd::prelude::*;
use crate::text::{bool_text, decimal, hex_padded, push_bool, push_decimal, push_hex};

verus! {

/// How a block ends. A sentinel carries the sequence number of the block that
/// made it and is turned into its final kind when the trace is assembled.
#[derive(Debug, PartialEq, Eq)]
pub enum Branch {
    DirectCall { site_pc: u64, dst_pc: u64 },
    DirectJump { site_pc: u64, dst_pc: u64, taken: bool },
    IndirectCall { site_pc: u64, dst_pc: u64, reg_used: String },
    IndirectJump { site_pc: u64, dst_pc: u64, reg_used: String },
    Return { site_pc: u64, dst_pc: u64 },
    CallSentinel { site_pc: u64, seq_num: usize, reg: String },
    IndirectJumpSentinel { site_pc: u64, seq_num: usize, reg: String },
    DirectJumpSentinel { site_pc: u64, seq_num: usize },
    ReturnSentinel { site_pc: u64, seq_num: usize },
}

/// The mathematical value of a `Branch`: register names are sequences of
/// characters.
pub ghost enum BranchView {
    DirectCall { site_pc: u64, dst_pc: u64 },
    DirectJump { site_pc: u64, dst_pc: u64, taken: bool },
    IndirectCall { site_pc: u64, dst_pc: u64, reg_used: Seq<char> },
    IndirectJump { site_pc: u64, dst_pc: u64, reg_used: Seq<char> },
    Return { site_pc: u64, dst_pc: u64 },
    CallSentinel { site_pc: u64, seq_num: usize, reg: Seq<char> },
    IndirectJumpSentinel { site_pc: u64, seq_num: usize, reg: Seq<char> },
    DirectJumpSentinel { site_pc: u64, seq_num: usize },
    ReturnSentinel { site_pc: u64, seq_num: usize },
}

impl View for Branch {
    type V = BranchView;

    open spec fn view(&self) -> BranchView {
        match *self {
            Branch::DirectCall { site_pc, dst_pc } => BranchView::DirectCall { site_pc, dst_pc },
            Branch::DirectJump { site_pc, dst_pc, taken } => BranchView::DirectJump {
                site_pc,
                dst_pc,
                taken,
            },
            Branch::IndirectCall { site_pc, dst_pc, reg_used } => BranchView::IndirectCall {
                site_pc,
                dst_pc,
                reg_used: reg_used@,
            },
            Branch::IndirectJump { site_pc, dst_pc, reg_used } => BranchView::IndirectJump {
                site_pc,
                dst_pc,
                reg_used: reg_used@,
            },
            Branch::Return { site_pc, dst_pc } => BranchView::Return { site_pc, dst_pc },
            Branch::CallSentinel { site_pc, seq_num, reg } => BranchView::CallSentinel {
                site_pc,
                seq_num,
                reg: reg@,
            },
            Branch::IndirectJumpSentinel { site_pc, seq_num, reg } => {
                BranchView::IndirectJumpSentinel { site_pc, seq_num, reg: reg@ }
            },
            Branch::DirectJumpSentinel { site_pc, seq_num } => BranchView::DirectJumpSentinel {
                site_pc,
                seq_num,
            },
            Branch::ReturnSentinel { site_pc, seq_num } => BranchView::ReturnSentinel {
                site_pc,
                seq_num,
            },
        }
    }
}

impl DeepView for Branch {
    type V = BranchView;

    open spec fn deep_view(&self) -> BranchView {
        self@
    }
}

impl BranchView {
    /// Whether this is one of the four interim kinds.
    pub open spec fn is_sentinel(self) -> bool {
        self is CallSentinel || self is IndirectJumpSentinel || self is DirectJumpSentinel
            || self is ReturnSentinel
    }

    /// Whether this is a call, direct or indirect, in its final form.
    pub open spec fn is_call(self) -> bool {
        self is DirectCall || self is IndirectCall
    }

    /// Address of the branching instruction.
    pub open spec fn site_pc(self) -> u64 {
        match self {
            BranchView::DirectCall { site_pc, .. } => site_pc,
            BranchView::DirectJump { site_pc, .. } => site_pc,
            BranchView::IndirectCall { site_pc, .. } => site_pc,
            BranchView::IndirectJump { site_pc, .. } => site_pc,
            BranchView::Return { site_pc, .. } => site_pc,
            BranchView::CallSentinel { site_pc, .. } => site_pc,
            BranchView::IndirectJumpSentinel { site_pc, .. } => site_pc,
            BranchView::DirectJumpSentinel { site_pc, .. } => site_pc,
            BranchView::ReturnSentinel { site_pc, .. } => site_pc,
        }
    }

    /// Whether the branch is as the detector leaves it: a sentinel, a direct
    /// call, or a direct jump not marked as taken.
    pub open spec fn is_unresolved(self) -> bool {
        match self {
            BranchView::DirectCall { .. } => true,
            BranchView::DirectJump { taken, .. } => !taken,
            other => other.is_sentinel(),
        }
    }

    /// The destination that a final indirect call, indirect jump or return
    /// records.
    pub open spec fn witnessed_dst(self) -> Option<u64> {
        match self {
            BranchView::IndirectCall { dst_pc, .. } => Some(dst_pc),
            BranchView::IndirectJump { dst_pc, .. } => Some(dst_pc),
            BranchView::Return { dst_pc, .. } => Some(dst_pc),
            _ => None,
        }
    }

    /// The final form of a branch once the block that ran next is known to
    /// start at `next_pc`: a sentinel becomes the branch it stands for, with
    /// `next_pc` as its destination; a direct jump is taken if and only if
    /// `next_pc` is its destination; the other kinds stay as they are.
    pub open spec fn resolved(self, next_pc: u64) -> BranchView {
        match self {
            BranchView::CallSentinel { site_pc, reg, .. } => BranchView::IndirectCall {
                site_pc,
                dst_pc: next_pc,
                reg_used: reg,
            },
            BranchView::ReturnSentinel { site_pc, .. } => BranchView::Return {
                site_pc,
                dst_pc: next_pc,
            },
            BranchView::IndirectJumpSentinel { site_pc, reg, .. } => BranchView::IndirectJump {
                site_pc,
                dst_pc: next_pc,
                reg_used: reg,
            },
            BranchView::DirectJumpSentinel { site_pc, .. } => BranchView::DirectJump {
                site_pc,
                dst_pc: next_pc,
                taken: true,
            },
            BranchView::DirectJump { site_pc, dst_pc, .. } => BranchView::DirectJump {
                site_pc,
                dst_pc,
                taken: next_pc == dst_pc,
            },
            other => other,
        }
    }

    /// The one-line description of a branch: its kind, the site and the
    /// destination as sixteen hexadecimal digits, and what else it carries.
    pub open spec fn text(self) -> Seq<char> {
        match self {
            BranchView::DirectCall { site_pc, dst_pc } => "DirectCall@0x"@ + hex_padded(
                site_pc as nat,
                16,
            ) + " -> 0x"@ + hex_padded(dst_pc as nat, 16),
            BranchView::DirectJump { site_pc, dst_pc, taken } => "DirectJump@0x"@ + hex_padded(
                site_pc as nat,
                16,
            ) + " -> 0x"@ + hex_padded(dst_pc as nat, 16) + " [taken: "@ + bool_text(taken)
                + "]"@,
            BranchView::IndirectCall { site_pc, dst_pc, reg_used } => "IndirectCall@0x"@
                + hex_padded(site_pc as nat, 16) + " -> 0x"@ + hex_padded(dst_pc as nat, 16)
                + " ["@ + reg_used + "]"@,
            BranchView::IndirectJump { site_pc, dst_pc, reg_used } => "IndirectJump@0x"@
                + hex_padded(site_pc as nat, 16) + " -> 0x"@ + hex_padded(dst_pc as nat, 16)
                + " ["@ + reg_used + "]"@,
            BranchView::Return { site_pc, dst_pc } => "Return@0x"@ + hex_padded(
                site_pc as nat,
                16,
            ) + " -> 0x"@ + hex_padded(dst_pc as nat, 16),
            BranchView::CallSentinel { site_pc, seq_num, reg } => "CallSentinel@0x"@
                + hex_padded(site_pc as nat, 16) + " ["@ + reg + "], seq_num: "@ + decimal(
                seq_num as nat,
            ),
            BranchView::IndirectJumpSentinel { site_pc, seq_num, reg } =>
                "IndirectJumpSentinel@0x"@ + hex_padded(site_pc as nat, 16) + " ["@ + reg
                    + "], seq_num: "@ + decimal(seq_num as nat),
            BranchView::DirectJumpSentinel { site_pc, seq_num } => "DirectJumpSentinel@0x"@
                + hex_padded(site_pc as nat, 16) + ", seq_num: "@ + decimal(seq_num as nat),
            BranchView::ReturnSentinel { site_pc, seq_num } => "ReturnSentinel@0x"@
                + hex_padded(site_pc as nat, 16) + ", seq_num: "@ + decimal(seq_num as nat),
        }
    }
}

impl Clone for Branch {
    fn clone(&self) -> (r: Self)
        ensures
            r@ == self@,
    {
        match self {
            Branch::DirectCall { site_pc, dst_pc } => Branch::DirectCall {
                site_pc: *site_pc,
                dst_pc: *dst_pc,
            },
            Branch::DirectJump { site_pc, dst_pc, taken } => Branch::DirectJump {
                site_pc: *site_pc,
                dst_pc: *dst_pc,
                taken: *taken,
            },
            Branch::IndirectCall { site_pc, dst_pc, reg_used } => Branch::IndirectCall {
                site_pc: *site_pc,
                dst_pc: *dst_pc,
                reg_used: reg_used.clone(),
            },
            Branch::IndirectJump { site_pc, dst_pc, reg_used } => Branch::IndirectJump {
                site_pc: *site_pc,
                dst_pc: *dst_pc,
                reg_used: reg_used.clone(),
            },
            Branch::Return { site_pc, dst_pc } => Branch::Return {
                site_pc: *site_pc,
                dst_pc: *dst_pc,
            },
            Branch::CallSentinel { site_pc, seq_num, reg } => Branch::CallSentinel {
                site_pc: *site_pc,
                seq_num: *seq_num,
                reg: reg.clone(),
            },
            Branch::IndirectJumpSentinel { site_pc, seq_num, reg } => Branch::IndirectJumpSentinel {
                site_pc: *site_pc,
                seq_num: *seq_num,
                reg: reg.clone(),
            },
            Branch::DirectJumpSentinel { site_pc, seq_num } => Branch::DirectJumpSentinel {
                site_pc: *site_pc,
                seq_num: *seq_num,
            },
            Branch::ReturnSentinel { site_pc, seq_num } => Branch::ReturnSentinel {
                site_pc: *site_pc,
                seq_num: *seq_num,
            },
        }
    }
}

impl Branch {
    /// Whether this is one of the four interim kinds.
    pub fn is_sentinel(&self) -> (r: bool)
        ensures
            r == self@.is_sentinel(),
    {
        match self {
            Branch::CallSentinel { .. } => true,
            Branch::IndirectJumpSentinel { .. } => true,
            Branch::DirectJumpSentinel { .. } => true,
            Branch::ReturnSentinel { .. } => true,
            _ => false,
        }
    }

    /// Address of the branching instruction.
    pub fn site_pc(&self) -> (r: u64)
        ensures
            r == self@.site_pc(),
    {
        match self {
            Branch::DirectCall { site_pc, .. } => *site_pc,
            Branch::DirectJump { site_pc, .. } => *site_pc,
            Branch::IndirectCall { site_pc, .. } => *site_pc,
            Branch::IndirectJump { site_pc, .. } => *site_pc,
            Branch::Return { site_pc, .. } => *site_pc,
            Branch::CallSentinel { site_pc, .. } => *site_pc,
            Branch::IndirectJumpSentinel { site_pc, .. } => *site_pc,
            Branch::DirectJumpSentinel { site_pc, .. } => *site_pc,
            Branch::ReturnSentinel { site_pc, .. } => *site_pc,
        }
    }

    /// The one-line description of this branch.
    pub fn to_text(&self) -> (r: String)
        ensures
            r@ == self@.text(),
    {
        let mut out = String::new();
        match self {
            Branch::DirectCall { site_pc, dst_pc } => {
                out.append("DirectCall@0x");
                push_hex(&mut out, *site_pc, 16);
                out.append(" -> 0x");
                push_hex(&mut out, *dst_pc, 16);
            },
            Branch::DirectJump { site_pc, dst_pc, taken } => {
                out.append("DirectJump@0x");
                push_hex(&mut out, *site_pc, 16);
                out.append(" -> 0x");
                push_hex(&mut out, *dst_pc, 16);
                out.append(" [taken: ");
                push_bool(&mut out, *taken);
                out.append("]");
            },
            Branch::IndirectCall { site_pc, dst_pc, reg_used } => {
                out.append("IndirectCall@0x");
                push_hex(&mut out, *site_pc, 16);
                out.append(" -> 0x");
                push_hex(&mut out, *dst_pc, 16);
                out.append(" [");
                out.append(reg_used.as_str());
                out.append("]");
            },
            Branch::IndirectJump { site_pc, dst_pc, reg_used } => {
                out.append("IndirectJump@0x");
                push_hex(&mut out, *site_pc, 16);
                out.append(" -> 0x");
                push_hex(&mut out, *dst_pc, 16);
                out.append(" [");
                out.append(reg_used.as_str());
                out.append("]");
            },
            Branch::Return { site_pc, dst_pc } => {
                out.append("Return@0x");
                push_hex(&mut out, *site_pc, 16);
                out.append(" -> 0x");
                push_hex(&mut out, *dst_pc, 16);
            },
            Branch::CallSentinel { site_pc, seq_num, reg } => {
                out.append("CallSentinel@0x");
                push_hex(&mut out, *site_pc, 16);
                out.append(" [");
                out.append(reg.as_str());
                out.append("], seq_num: ");
                push_decimal(&mut out, *seq_num as u64);
            },
            Branch::IndirectJumpSentinel { site_pc, seq_num, reg } => {
                out.append("IndirectJumpSentinel@0x");
                push_hex(&mut out, *site_pc, 16);
                out.append(" [");
                out.append(reg.as_str());
                out.append("], seq_num: ");
                push_decimal(&mut out, *seq_num as u64);
            },
            Branch::DirectJumpSentinel { site_pc, seq_num } => {
                out.append("DirectJumpSentinel@0x");
                push_hex(&mut out, *site_pc, 16);
                out.append(", seq_num: ");
                push_decimal(&mut out, *seq_num as u64);
            },
            Branch::ReturnSentinel { site_pc, seq_num } => {
                out.append("ReturnSentinel@0x");
                push_hex(&mut out, *site_pc, 16);
                out.append(", seq_num: ");
                push_decimal(&mut out, *seq_num as u64);
            },
        }
        out
    }
}

} // verus!
