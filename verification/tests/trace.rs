use panda_plugins::block::BasicBlock;
use panda_plugins::branch::Branch;
use panda_plugins::callstack::{fmt_callstack, nesting_of, to_lisp, CallstackError, MAX_NESTING};
use panda_plugins::capture::{finalize_bbs, uninit};
use panda_plugins::detect::Arch;
use panda_plugins::ir::{Block, ControlFlowGraph, Expression, Instruction, Operation, Scalar};
use panda_plugins::trace::BasicBlockList;

fn scalar(name: &str) -> Scalar {
    Scalar { name: name.to_string(), bits: 64 }
}

fn at(address: u64, operation: Operation) -> Instruction {
    Instruction { operation, address: Some(address) }
}

fn cfg(instructions: Vec<Instruction>) -> Option<ControlFlowGraph> {
    Some(ControlFlowGraph { blocks: vec![Block { instructions }] })
}

fn push(address: u64) -> Vec<Instruction> {
    vec![
        at(address, Operation::Assign {
            dst: scalar("rsp"),
            src: Expression::Compound(vec![scalar("rsp")]),
        }),
        at(address, Operation::Store {
            index: Expression::Scalar(scalar("rsp")),
            src: Expression::Constant(Some(address + 2)),
        }),
    ]
}

fn block(seq_num: usize, pc: u64, asid: u64, lifted: Option<ControlFlowGraph>) -> BasicBlock {
    let mut bb = BasicBlock::for_arch(Arch::X86_64, seq_num, pc, asid, 1, 0, 100, vec![0x90]);
    bb.process(lifted);
    bb
}

fn indirect_call(seq_num: usize, pc: u64, asid: u64, reg: &str) -> BasicBlock {
    let mut code = push(pc);
    code.push(at(pc, Operation::Branch { target: Expression::Scalar(scalar(reg)) }));
    block(seq_num, pc, asid, cfg(code))
}

fn direct_call(seq_num: usize, pc: u64, asid: u64, dst: u64) -> BasicBlock {
    let mut code = push(pc);
    code.push(at(pc, Operation::Branch { target: Expression::Constant(Some(dst)) }));
    block(seq_num, pc, asid, cfg(code))
}

fn direct_jump(seq_num: usize, pc: u64, asid: u64, dst: u64) -> BasicBlock {
    block(
        seq_num,
        pc,
        asid,
        cfg(vec![at(pc, Operation::Branch { target: Expression::Constant(Some(dst)) })]),
    )
}

fn indirect_jump(seq_num: usize, pc: u64, asid: u64, reg: &str) -> BasicBlock {
    block(
        seq_num,
        pc,
        asid,
        cfg(vec![at(pc, Operation::Branch { target: Expression::Scalar(scalar(reg)) })]),
    )
}

fn far_jump(seq_num: usize, pc: u64, asid: u64) -> BasicBlock {
    let temp = Scalar { name: "temp_0x0".to_string(), bits: 64 };
    block(
        seq_num,
        pc,
        asid,
        cfg(vec![
            at(pc, Operation::Load { dst: temp.clone(), index: Expression::Constant(Some(0x4000)) }),
            at(pc, Operation::Branch { target: Expression::Scalar(temp) }),
        ]),
    )
}

fn ret(seq_num: usize, pc: u64, asid: u64) -> BasicBlock {
    let temp = Scalar { name: "temp_0x1".to_string(), bits: 64 };
    block(
        seq_num,
        pc,
        asid,
        cfg(vec![
            at(pc, Operation::Load { dst: temp.clone(), index: Expression::Scalar(scalar("rsp")) }),
            at(pc, Operation::Assign {
                dst: scalar("rsp"),
                src: Expression::Compound(vec![scalar("rsp")]),
            }),
            at(pc, Operation::Branch { target: Expression::Scalar(temp) }),
        ]),
    )
}

fn plain(seq_num: usize, pc: u64, asid: u64) -> BasicBlock {
    block(seq_num, pc, asid, cfg(vec![at(pc, Operation::Nop)]))
}

fn unlifted(seq_num: usize, pc: u64, asid: u64) -> BasicBlock {
    block(seq_num, pc, asid, None)
}

fn branches(list: &BasicBlockList) -> Vec<Option<Branch>> {
    list.blocks().iter().map(|b| b.branch().clone()).collect()
}

fn seqs(list: &BasicBlockList) -> Vec<usize> {
    list.blocks().iter().map(|b| b.seq_num()).collect()
}

#[test]
fn sentinels_take_the_start_of_the_next_block() {
    let list = BasicBlockList::from(vec![
        indirect_call(0, 0x10, 7, "rax"),
        ret(1, 0x1337, 7),
        indirect_jump(2, 0x20, 7, "rbx"),
        far_jump(3, 0x30, 7),
        plain(4, 0x40, 7),
    ]);
    assert_eq!(
        branches(&list),
        vec![
            Some(Branch::IndirectCall { site_pc: 0x10, dst_pc: 0x1337, reg_used: "rax".to_string() }),
            Some(Branch::Return { site_pc: 0x1337, dst_pc: 0x20 }),
            Some(Branch::IndirectJump { site_pc: 0x20, dst_pc: 0x30, reg_used: "rbx".to_string() }),
            Some(Branch::DirectJump { site_pc: 0x30, dst_pc: 0x40, taken: true }),
            None,
        ]
    );
}

#[test]
fn direct_jump_is_taken_when_the_next_block_starts_at_its_target() {
    let list = BasicBlockList::from(vec![
        direct_jump(0, 0x10, 7, 0x50),
        direct_jump(1, 0x50, 7, 0x90),
        direct_jump(2, 0x60, 7, 0x10),
    ]);
    assert_eq!(
        branches(&list),
        vec![
            Some(Branch::DirectJump { site_pc: 0x10, dst_pc: 0x50, taken: true }),
            Some(Branch::DirectJump { site_pc: 0x50, dst_pc: 0x90, taken: false }),
            Some(Branch::DirectJump { site_pc: 0x60, dst_pc: 0x10, taken: false }),
        ]
    );
}

#[test]
fn direct_call_is_left_as_detected() {
    let list = BasicBlockList::from(vec![direct_call(0, 0x10, 7, 0x50), plain(1, 0x50, 7)]);
    assert_eq!(
        branches(&list),
        vec![Some(Branch::DirectCall { site_pc: 0x10, dst_pc: 0x50 }), None]
    );
}

#[test]
fn last_block_keeps_its_sentinel() {
    let list = BasicBlockList::from(vec![plain(0, 0x10, 7), indirect_call(1, 0x20, 7, "rcx")]);
    assert_eq!(
        branches(&list),
        vec![
            None,
            Some(Branch::CallSentinel { site_pc: 0x20, seq_num: 1, reg: "rcx".to_string() }),
        ]
    );
}

#[test]
fn blocks_are_put_in_execution_order() {
    let list = BasicBlockList::from(vec![
        plain(3, 0x40, 7),
        ret(1, 0x20, 7),
        indirect_jump(2, 0x30, 7, "rax"),
        indirect_call(0, 0x10, 7, "rax"),
    ]);
    assert_eq!(seqs(&list), vec![0, 1, 2, 3]);
    assert_eq!(
        branches(&list),
        vec![
            Some(Branch::IndirectCall { site_pc: 0x10, dst_pc: 0x20, reg_used: "rax".to_string() }),
            Some(Branch::Return { site_pc: 0x20, dst_pc: 0x30 }),
            Some(Branch::IndirectJump { site_pc: 0x30, dst_pc: 0x40, reg_used: "rax".to_string() }),
            None,
        ]
    );
}

#[test]
fn address_spaces_do_not_resolve_against_each_other() {
    let list = BasicBlockList::from(vec![
        indirect_call(2, 0x10, 9, "rax"),
        indirect_call(0, 0x20, 3, "rbx"),
        plain(3, 0x30, 9),
        indirect_call(1, 0x40, 3, "rcx"),
    ]);
    // address space 3 first, then 9; within each by sequence number
    assert_eq!(seqs(&list), vec![0, 1, 2, 3]);
    assert_eq!(
        branches(&list),
        vec![
            Some(Branch::IndirectCall { site_pc: 0x20, dst_pc: 0x40, reg_used: "rbx".to_string() }),
            // the block with the next number ran in another address space
            Some(Branch::CallSentinel { site_pc: 0x40, seq_num: 1, reg: "rcx".to_string() }),
            Some(Branch::IndirectCall { site_pc: 0x10, dst_pc: 0x30, reg_used: "rax".to_string() }),
            None,
        ]
    );
}

#[test]
fn a_sentinel_stays_where_the_next_number_is_missing() {
    let list = BasicBlockList::from(vec![
        indirect_call(0, 0x10, 7, "rax"),
        ret(2, 0x1337, 7),
        indirect_jump(4, 0x20, 7, "rbx"),
        far_jump(6, 0x30, 7),
        direct_jump(8, 0x40, 7, 0x50),
        plain(10, 0x50, 7),
    ]);
    assert_eq!(
        branches(&list),
        vec![
            Some(Branch::CallSentinel { site_pc: 0x10, seq_num: 0, reg: "rax".to_string() }),
            Some(Branch::ReturnSentinel { site_pc: 0x1337, seq_num: 2 }),
            Some(Branch::IndirectJumpSentinel { site_pc: 0x20, seq_num: 4, reg: "rbx".to_string() }),
            Some(Branch::DirectJumpSentinel { site_pc: 0x30, seq_num: 6 }),
            Some(Branch::DirectJump { site_pc: 0x40, dst_pc: 0x50, taken: false }),
            None,
        ]
    );
    assert_eq!(list.len(), 6);
}

#[test]
fn interleaved_address_spaces_leave_their_sentinels() {
    let list = BasicBlockList::from(vec![
        indirect_call(0, 0x10, 9, "rax"),
        indirect_call(1, 0x20, 3, "rbx"),
        plain(2, 0x30, 9),
        ret(3, 0x40, 3),
    ]);
    assert_eq!(seqs(&list), vec![1, 3, 0, 2]);
    assert_eq!(
        branches(&list),
        vec![
            Some(Branch::CallSentinel { site_pc: 0x20, seq_num: 1, reg: "rbx".to_string() }),
            Some(Branch::ReturnSentinel { site_pc: 0x40, seq_num: 3 }),
            Some(Branch::CallSentinel { site_pc: 0x10, seq_num: 0, reg: "rax".to_string() }),
            None,
        ]
    );
}

#[test]
fn equal_sequence_numbers_keep_their_order() {
    let list = BasicBlockList::from(vec![plain(5, 0xb, 1), plain(5, 0xa, 1), plain(4, 0xc, 1)]);
    let pcs: Vec<u64> = list.blocks().iter().map(|b| b.pc()).collect();
    assert_eq!(pcs, vec![0xc, 0xb, 0xa]);
}

#[test]
fn block_count_is_unchanged() {
    let list = BasicBlockList::from(vec![
        plain(2, 0x30, 9),
        unlifted(1, 0x20, 3),
        indirect_call(0, 0x10, 9, "rax"),
    ]);
    assert_eq!(list.len(), 3);
    assert!(!list.is_empty());
    assert_eq!(list.trans_err_cnt(), 1);
}

#[test]
fn empty_trace() {
    let list = BasicBlockList::from(vec![]);
    assert_eq!(list.len(), 0);
    assert!(list.is_empty());
    assert_eq!(list.trans_err_cnt(), 0);
    assert_eq!(list.to_json(false), "{\"list\":[]}");
    assert_eq!(list.to_json(true), "{\n  \"list\": []\n}");
    assert_eq!(to_lisp(&list), "()");
    assert_eq!(fmt_callstack(&list), Ok("callstack".to_string()));
}

#[test]
fn single_block_without_terminator_is_preserved() {
    let list = BasicBlockList::from(vec![plain(0, 0x10, 7)]);
    assert_eq!(list.len(), 1);
    assert_eq!(branches(&list), vec![None]);
    assert_eq!(list.trans_err_cnt(), 0);
}

#[test]
fn branch_list_drops_blocks_without_branch() {
    let list = BasicBlockList::from(vec![
        indirect_call(0, 0x10, 7, "rax"),
        plain(1, 0x20, 7),
        unlifted(2, 0x30, 7),
        direct_jump(3, 0x40, 7, 0x99),
        ret(4, 0x50, 7),
    ]);
    let only = list.into_branch_list();
    assert_eq!(seqs(&only), vec![0, 3, 4]);
    assert_eq!(
        branches(&only),
        vec![
            Some(Branch::IndirectCall { site_pc: 0x10, dst_pc: 0x20, reg_used: "rax".to_string() }),
            Some(Branch::DirectJump { site_pc: 0x40, dst_pc: 0x99, taken: false }),
            Some(Branch::ReturnSentinel { site_pc: 0x50, seq_num: 4 }),
        ]
    );
}

#[test]
fn branch_list_keeps_branches_as_resolved() {
    let list = BasicBlockList::from(vec![
        direct_jump(0, 0x10, 7, 0x20),
        plain(1, 0x20, 7),
        ret(2, 0x30, 7),
        plain(3, 0x40, 7),
        indirect_call(4, 0x50, 7, "rax"),
    ]);
    let only = list.into_branch_list();
    assert_eq!(
        branches(&only),
        vec![
            Some(Branch::DirectJump { site_pc: 0x10, dst_pc: 0x20, taken: true }),
            Some(Branch::Return { site_pc: 0x30, dst_pc: 0x40 }),
            Some(Branch::CallSentinel { site_pc: 0x50, seq_num: 4, reg: "rax".to_string() }),
        ]
    );
    assert_eq!(only.len(), 3);
}

#[test]
fn every_call_opens_a_group() {
    let list = BasicBlockList::from(vec![
        indirect_call(0, 0x10, 7, "rax"),
        direct_call(1, 0x20, 7, 0x30),
        ret(2, 0x30, 7),
        direct_jump(3, 0x40, 7, 0x50),
        direct_call(4, 0x50, 7, 0x60),
        plain(5, 0x60, 7),
    ]);
    let a = "IndirectCall@0x0000000000000010 -> 0x0000000000000020 [rax]";
    let b = "DirectCall@0x0000000000000020 -> 0x0000000000000030";
    let c = "DirectCall@0x0000000000000050 -> 0x0000000000000060";
    assert_eq!(to_lisp(&list), format!("({}({})({}))", a, b, c));
    assert_eq!(
        fmt_callstack(&list).unwrap(),
        format!("callstack\n└── {}\n    ├── {}\n    └── {}", a, b, c)
    );
}

#[test]
fn one_call_is_one_group() {
    let list = BasicBlockList::from(vec![direct_call(0, 0x20, 7, 0x30)]);
    let call = "DirectCall@0x0000000000000020 -> 0x0000000000000030";
    assert_eq!(to_lisp(&list), format!("({})", call));
    assert_eq!(fmt_callstack(&list).unwrap(), format!("callstack\n└── {}", call));
}

#[test]
fn blocks_without_a_call_or_return_do_not_show() {
    let with = BasicBlockList::from(vec![
        plain(0, 0x10, 7),
        direct_call(1, 0x20, 7, 0x30),
        direct_jump(2, 0x30, 7, 0x40),
        indirect_jump(3, 0x40, 7, "rax"),
        unlifted(4, 0x50, 7),
        ret(5, 0x60, 7),
        plain(6, 0x70, 7),
    ]);
    let without = BasicBlockList::from(vec![direct_call(1, 0x20, 7, 0x30), ret(5, 0x60, 7), plain(6, 0x70, 7)]);
    let call = "DirectCall@0x0000000000000020 -> 0x0000000000000030";
    assert_eq!(to_lisp(&with), format!("({})", call));
    assert_eq!(to_lisp(&without), to_lisp(&with));
}

#[test]
fn a_return_without_a_call_closes_nothing() {
    let list = BasicBlockList::from(vec![ret(0, 0x10, 7), plain(1, 0x20, 7)]);
    assert_eq!(to_lisp(&list), "");
    assert_eq!(fmt_callstack(&list), Ok("callstack".to_string()));
}

#[test]
fn call_stacks_of_different_address_spaces_do_not_nest() {
    let list = BasicBlockList::from(vec![
        direct_call(0, 0x10, 2, 0x20),
        direct_call(1, 0x10, 1, 0x20),
        direct_call(2, 0x20, 1, 0x30),
        plain(3, 0x20, 2),
    ]);
    let one = "DirectCall@0x0000000000000010 -> 0x0000000000000020";
    let two = "DirectCall@0x0000000000000020 -> 0x0000000000000030";
    // address space 1 with its two calls, closed; then address space 2
    assert_eq!(to_lisp(&list), format!("({}({}))({})", one, two, one));
    assert_eq!(
        fmt_callstack(&list).unwrap(),
        format!("callstack\n├── {}\n│   └── {}\n└── {}", one, two, one)
    );
}

#[test]
fn drawing_reports_what_the_text_lacks() {
    // a register name with parentheses opens groups that have no name
    let list = BasicBlockList::from(vec![indirect_call(0, 0x10, 7, "(("), plain(1, 0x20, 7)]);
    assert_eq!(fmt_callstack(&list), Err(CallstackError::MissingProp));
    // one that closes the group and goes on makes a second root
    let list = BasicBlockList::from(vec![indirect_call(0, 0x10, 7, "),x"), plain(1, 0x20, 7)]);
    assert_eq!(fmt_callstack(&list), Err(CallstackError::MultipleRoots));
}

#[test]
fn a_name_nested_too_deep_is_not_drawn() {
    let deep = |n: usize| "x(".repeat(n);
    // one group of the call, and the groups that the name itself opens
    let list = BasicBlockList::from(vec![
        indirect_call(0, 0x10, 7, &deep(MAX_NESTING - 1)),
        plain(1, 0x20, 7),
    ]);
    assert!(fmt_callstack(&list).is_ok());
    let list = BasicBlockList::from(vec![
        indirect_call(0, 0x10, 7, &deep(MAX_NESTING)),
        plain(1, 0x20, 7),
    ]);
    assert_eq!(fmt_callstack(&list), Err(CallstackError::TooDeep));
    let list = BasicBlockList::from(vec![
        indirect_call(0, 0x10, 7, &deep(5_000)),
        plain(1, 0x20, 7),
    ]);
    assert_eq!(fmt_callstack(&list), Err(CallstackError::TooDeep));
    assert_eq!(nesting_of("a(b(c)d)(e"), 2);
    assert_eq!(nesting_of(")))((("), 0);
    assert_eq!(nesting_of("é(é)"), 1);
    assert_eq!(nesting_of(""), 0);
}

#[test]
fn a_trace_nested_too_deep_is_not_drawn() {
    let calls = |n: usize| -> Vec<BasicBlock> {
        (0..=n).map(|i| if i < n { direct_call(i, 0x10, 7, 0x10) } else { plain(i, 0x10, 7) }).collect()
    };
    let list = BasicBlockList::from(calls(MAX_NESTING));
    assert!(fmt_callstack(&list).is_ok());
    let list = BasicBlockList::from(calls(MAX_NESTING + 1));
    assert_eq!(fmt_callstack(&list), Err(CallstackError::TooDeep));
    assert_eq!(to_lisp(&list).matches('(').count(), MAX_NESTING + 1);
    assert_eq!(MAX_NESTING, 1000);
}

#[test]
fn finalize_lists_branches_when_verbose() {
    let (list, lines) = finalize_bbs(
        vec![plain(1, 0x20, 7), indirect_call(0, 0x10, 7, "rax"), unlifted(2, 0x30, 7)],
        true,
    );
    assert_eq!(list.len(), 3);
    assert_eq!(
        lines,
        vec!["0: IndirectCall@0x0000000000000010 -> 0x0000000000000020 [rax]".to_string()]
    );
    assert_eq!(uninit(&list), "il_trace plugin uninit, lifted 3 BBs, 1 errors.");
    let (list, lines) = finalize_bbs(vec![indirect_call(0, 0x10, 7, "rax")], false);
    assert_eq!(list.len(), 1);
    assert!(lines.is_empty());
}
