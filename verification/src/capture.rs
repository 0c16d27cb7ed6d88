//! The capture side of the trace pipeline: which executed blocks are kept,
//! the sequence numbers they get, how many workers lift them, and what is
//! reported when the plugin shuts down.

use vstd::prelude::*;
use crate::block::{BasicBlock, BlockView};
use crate::detect::Arch;
use crate::text::{decimal, push_decimal, same_text};
use crate::branch::BranchView;
use crate::trace::{is_assembly_of, not_lifted, BasicBlockList};

verus! {

/// The options of the trace plugin.
#[derive(Debug, Clone, PartialEq, Eq)]
pub struct Args {
    /// Process to trace
    pub proc_name: String,
    /// File to log trace results (JSON)
    pub out_trace_file: String,
    /// If set, add whitespace to JSON (larger file)
    pub pretty_json: bool,
    /// If not set, blocks that run inside shared libraries are skipped
    pub trace_lib: bool,
    /// Verbose print
    pub debug: bool,
}

impl Default for Args {
    fn default() -> (r: Self)
        ensures
            r.proc_name@ == "init"@,
            r.out_trace_file@ == "il_trace.json"@,
            !r.pretty_json,
            r.trace_lib,
            !r.debug,
    {
        Args {
            proc_name: String::from_str("init"),
            out_trace_file: String::from_str("il_trace.json"),
            pretty_json: false,
            trace_lib: true,
            debug: false,
        }
    }
}

/// The highest exit code of a block that is not run again because of an
/// interrupt.
pub const LAST_PLAIN_EXIT: u8 = 1;

/// Number of lifting workers to start on a machine with `hardware_threads`
/// hardware threads: one thread is left to the producer when there is more
/// than one.
pub open spec fn worker_count_spec(hardware_threads: nat) -> nat {
    if hardware_threads > 1 {
        (hardware_threads - 1) as nat
    } else {
        hardware_threads
    }
}

/// Number of lifting workers to start.
pub fn worker_count(hardware_threads: usize) -> (n: usize)
    ensures
        n == worker_count_spec(hardware_threads as nat),
{
    if hardware_threads > 1 {
        hardware_threads - 1
    } else {
        hardware_threads
    }
}

/// Whether a block that ran in user or kernel mode and left with
/// `exit_code` can be kept at all: not one of the kernel, and not one that
/// will run again because of an interrupt.
pub open spec fn passes_mode_filter(in_kernel: bool, exit_code: u8) -> bool {
    !in_kernel && exit_code <= LAST_PLAIN_EXIT
}

/// Whether a block of the process `name`, inside a shared library or not,
/// is kept under the options `proc_name` and `trace_lib`.
pub open spec fn passes_process_filter(
    proc_name: Seq<char>,
    trace_lib: bool,
    name: Seq<char>,
    in_shared_object: bool,
) -> bool {
    name == proc_name && (trace_lib || !in_shared_object)
}

/// What the emulator reports of an executed block that passed the filters
/// and whose bytes could be read.
pub ghost struct Observation {
    pub arch: Arch,
    pub pc: u64,
    pub asid: u64,
    pub pid: i32,
    pub ppid: i32,
    pub icount: u64,
    pub bytes: Seq<u8>,
}

/// The sequence number after `seq_num`; it wraps around at the end of the
/// range, as a counter of the machine does.
pub open spec fn next_seq_num(seq_num: usize) -> usize {
    if seq_num == usize::MAX {
        0
    } else {
        (seq_num + 1) as usize
    }
}

/// The block made of the observation `o` when `seq_num` is the next
/// sequence number.
pub open spec fn block_of(seq_num: usize, o: Observation) -> BlockView {
    BlockView::fresh(o.arch, seq_num, o.pc, o.asid, o.pid, o.ppid, o.icount, o.bytes)
}

/// The blocks made of the observations `obs`, in this order, when `start` is
/// the next sequence number.
pub open spec fn captured(start: usize, obs: Seq<Observation>) -> Seq<BlockView>
    decreases obs.len(),
{
    if obs.len() == 0 {
        Seq::empty()
    } else {
        seq![block_of(start, obs[0])] + captured(next_seq_num(start), obs.subrange(1, obs.len() as int))
    }
}

/// The producer's state: the options and the next sequence number.
#[derive(Debug)]
pub struct Capture {
    args: Args,
    next_seq: usize,
}

/// The mathematical value of the options.
pub ghost struct ArgsView {
    pub proc_name: Seq<char>,
    pub out_trace_file: Seq<char>,
    pub pretty_json: bool,
    pub trace_lib: bool,
    pub debug: bool,
}

impl View for Args {
    type V = ArgsView;

    open spec fn view(&self) -> ArgsView {
        ArgsView {
            proc_name: self.proc_name@,
            out_trace_file: self.out_trace_file@,
            pretty_json: self.pretty_json,
            trace_lib: self.trace_lib,
            debug: self.debug,
        }
    }
}

/// The mathematical value of a `Capture`.
pub ghost struct CaptureView {
    /// The options it was made with.
    pub args: ArgsView,
    /// The next sequence number; as long as none wrapped around, the number
    /// of blocks captured so far.
    pub count: usize,
}

impl View for Capture {
    type V = CaptureView;

    closed spec fn view(&self) -> CaptureView {
        CaptureView { args: self.args@, count: self.next_seq }
    }
}

/// What the producer does with an executed block that passed the filters,
/// given the outcome of reading its bytes: where they could be read, the
/// block is made of them and gets the next sequence number; where not, the
/// block is dropped and no sequence number is used.
pub open spec fn recorded(before: CaptureView, o: Observation, read: bool) -> (
    Option<BlockView>,
    CaptureView,
) {
    if read {
        (
            Some(block_of(before.count, o)),
            CaptureView { count: next_seq_num(before.count), ..before },
        )
    } else {
        (None, before)
    }
}

impl Capture {
    /// A producer that has captured nothing yet.
    pub fn new(args: Args) -> (r: Capture)
        ensures
            r@ == (CaptureView { args: args@, count: 0 }),
    {
        Capture { args, next_seq: 0 }
    }

    /// The options.
    pub fn args(&self) -> (r: &Args)
        ensures
            r@ == self@.args,
    {
        &self.args
    }

    /// The number of blocks captured so far.
    pub fn captured_count(&self) -> (r: usize)
        ensures
            r == self@.count,
    {
        self.next_seq
    }

    /// First filter, on what is known of a block without asking the guest's
    /// operating system.
    pub fn wants_block(in_kernel: bool, exit_code: u8) -> (r: bool)
        ensures
            r == passes_mode_filter(in_kernel, exit_code),
    {
        !in_kernel && exit_code <= LAST_PLAIN_EXIT
    }

    /// Second filter: whether the block belongs to the process to trace.
    pub fn wants_process(&self, name: &str) -> (r: bool)
        ensures
            r == (name@ == self@.args.proc_name),
    {
        same_text(name, self.args.proc_name.as_str())
    }

    /// Whether the third filter has to ask if the block is inside a shared
    /// library.
    pub fn asks_for_library(&self) -> (r: bool)
        ensures
            r == !self@.args.trace_lib,
    {
        !self.args.trace_lib
    }

    /// The second and third filter together.
    pub fn wants(&self, name: &str, in_shared_object: bool) -> (r: bool)
        ensures
            r == passes_process_filter(
                self@.args.proc_name,
                self@.args.trace_lib,
                name@,
                in_shared_object,
            ),
    {
        self.wants_process(name) && (self.args.trace_lib || !in_shared_object)
    }

    /// Takes an executed block that passed the filters, with the outcome of
    /// reading its bytes from guest memory (`None` where the read failed).
    /// A block whose bytes were read gets the next sequence number; one
    /// whose bytes could not be read is dropped and uses no number.
    pub fn every_basic_block(
        &mut self,
        arch: Arch,
        pc: u64,
        asid: u64,
        pid: i32,
        ppid: i32,
        icount: u64,
        bytes: Option<Vec<u8>>,
    ) -> (r: Option<BasicBlock>)
        ensures
            (r.deep_view(), final(self)@) == recorded(
                old(self)@,
                Observation {
                    arch,
                    pc,
                    asid,
                    pid,
                    ppid,
                    icount,
                    bytes: match bytes {
                        Some(b) => b@,
                        None => Seq::empty(),
                    },
                },
                bytes is Some,
            ),
    {
        let bytes = match bytes {
            Some(bytes) => bytes,
            None => {
                return None;
            },
        };
        let seq_num = self.next_seq;
        self.next_seq = if seq_num == usize::MAX {
            0
        } else {
            seq_num + 1
        };
        Some(BasicBlock::for_arch(arch, seq_num, pc, asid, pid, ppid, icount, bytes))
    }

    /// Whether every captured block has come out of the workers, `finished`
    /// being the number of those that have.
    pub fn all_lifted(&self, finished: usize) -> (r: bool)
        ensures
            r == (finished == self@.count),
    {
        finished == self.next_seq
    }
}

/// The blocks captured from a fresh start get the sequence numbers
/// 0, 1, 2, ... in the order of capture.
pub proof fn lemma_captured_in_order(start: usize, obs: Seq<Observation>, i: int)
    requires
        0 <= i < obs.len(),
        start + obs.len() <= usize::MAX + 1,
    ensures
        captured(start, obs).len() == obs.len(),
        captured(start, obs)[i] == block_of((start + i) as usize, obs[i]),
        captured(start, obs)[i].seq_num == start + i,
    decreases obs.len(),
{
    let rest = obs.subrange(1, obs.len() as int);
    lemma_captured_len(next_seq_num(start), rest);
    if i > 0 {
        lemma_captured_in_order(next_seq_num(start), rest, i - 1);
    }
}

/// As many blocks are made as there are observations.
pub proof fn lemma_captured_len(start: usize, obs: Seq<Observation>)
    ensures
        captured(start, obs).len() == obs.len(),
    decreases obs.len(),
{
    if obs.len() > 0 {
        lemma_captured_len(next_seq_num(start), obs.subrange(1, obs.len() as int));
    }
}

/// After the capture of N blocks from a fresh start, the sequence numbers
/// are exactly 0, ..., N-1, each once.
pub proof fn lemma_sequence_numbers(obs: Seq<Observation>)
    requires
        obs.len() <= usize::MAX,
    ensures
        captured(0, obs).len() == obs.len(),
        forall|i: int| 0 <= i < obs.len() ==> (#[trigger] captured(0, obs)[i]).seq_num == i,
        forall|i: int, j: int|
            0 <= i < obs.len() && 0 <= j < obs.len() && i != j ==> (#[trigger] captured(
                0,
                obs,
            )[i]).seq_num != (#[trigger] captured(0, obs)[j]).seq_num,
        captured(0, obs).map_values(|b: BlockView| b.seq_num as int).to_set() =~= Set::new(
            |n: int| 0 <= n < obs.len(),
        ),
{
    lemma_captured_len(0, obs);
    assert forall|i: int| 0 <= i < obs.len() implies (#[trigger] captured(0, obs)[i]).seq_num
        == i by {
        lemma_captured_in_order(0, obs, i);
    }
    let nums = captured(0, obs).map_values(|b: BlockView| b.seq_num as int);
    assert forall|n: int| 0 <= n < obs.len() implies nums.to_set().contains(n) by {
        assert(nums[n] == n);
    }
    assert forall|n: int| nums.to_set().contains(n) implies 0 <= n < obs.len() by {
        let k = choose|k: int| 0 <= k < nums.len() && nums[k] == n;
    }
}

/// The report at shutdown: how many blocks the trace holds and how many of
/// them could not be lifted.
pub open spec fn summary_text(blocks: Seq<BlockView>) -> Seq<char> {
    "il_trace plugin uninit, lifted "@ + decimal(blocks.len()) + " BBs, "@ + decimal(
        blocks.filter(|b: BlockView| not_lifted(b)).len(),
    ) + " errors."@
}

/// The report at shutdown.
pub fn uninit(trace: &BasicBlockList) -> (r: String)
    ensures
        r@ == summary_text(trace@),
{
    let mut out = String::from_str("il_trace plugin uninit, lifted ");
    push_decimal(&mut out, trace.len() as u64);
    out.append(" BBs, ");
    push_decimal(&mut out, trace.trans_err_cnt() as u64);
    out.append(" errors.");
    out
}

/// The line that verbose printing gives a block with the branch `branch`.
pub open spec fn branch_line(seq_num: usize, branch: BranchView) -> Seq<char> {
    decimal(seq_num as nat) + ": "@ + branch.text()
}

/// The lines that verbose printing gives the first `n` blocks of a trace:
/// one for each block that has a branch.
pub open spec fn branch_lines(blocks: Seq<BlockView>, n: nat) -> Seq<Seq<char>>
    decreases n,
{
    if n == 0 {
        Seq::empty()
    } else {
        let before = branch_lines(blocks, (n - 1) as nat);
        match blocks[n - 1].branch {
            Some(b) => before.push(branch_line(blocks[n - 1].seq_num, b)),
            None => before,
        }
    }
}

/// Assembles the blocks that came out of the workers. With `debug` set,
/// also gives the lines to print: sequence number and branch of every block
/// that has one.
pub fn finalize_bbs(bbs: Vec<BasicBlock>, debug: bool) -> (r: (BasicBlockList, Vec<String>))
    ensures
        is_assembly_of(bbs.deep_view(), r.0@),
        r.0@.len() == bbs.len(),
        r.1.deep_view() == if debug {
            branch_lines(r.0@, r.0@.len())
        } else {
            Seq::empty()
        },
{
    let final_trace = BasicBlockList::from(bbs);
    let mut lines: Vec<String> = Vec::new();
    if debug {
        let blocks = final_trace.blocks();
        let mut i: usize = 0;
        while i < blocks.len()
            invariant
                i <= blocks.len(),
                blocks.deep_view() == final_trace@,
                lines.deep_view() == branch_lines(final_trace@, i as nat),
            decreases blocks.len() - i,
        {
            let bb = &blocks[i];
            match bb.branch() {
                Some(branch) => {
                    let mut line = String::new();
                    push_decimal(&mut line, bb.seq_num() as u64);
                    line.append(": ");
                    line.append(branch.to_text().as_str());
                    let ghost before = lines.deep_view();
                    lines.push(line);
                },
                None => {},
            }
            i += 1;
        }
    }
    (final_trace, lines)
}

} // verus!
