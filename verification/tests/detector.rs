use panda_plugins::block::BasicBlock;
use panda_plugins::branch::Branch;
use panda_plugins::callstack::{fmt_callstack, to_lisp};
use panda_plugins::detect::{detect, Arch};
use panda_plugins::ir::{Block, ControlFlowGraph, Expression, Instruction, Operation, Scalar};
use panda_plugins::trace::BasicBlockList;

const DUMMY_ASID: u64 = 0xDEADBEEF;
const DUMMY_PID: i32 = 1;
const DUMMY_PPID: i32 = 0;
const DUMMY_ICOUNT: u64 = 100;

fn scalar(name: &str) -> Scalar {
    Scalar { name: name.to_string(), bits: 64 }
}

fn reg(name: &str) -> Expression {
    Expression::Scalar(scalar(name))
}

fn over(names: &[&str]) -> Expression {
    Expression::Compound(names.iter().map(|n| scalar(n)).collect())
}

fn at(address: u64, operation: Operation) -> Instruction {
    Instruction { operation, address: Some(address) }
}

fn temp(address: u64) -> Scalar {
    scalar(&format!("temp_0x{:X}", address))
}

fn push_return_address(out: &mut Vec<Instruction>, address: u64, size: u64) {
    out.push(at(address, Operation::Assign { dst: scalar("rsp"), src: over(&["rsp"]) }));
    out.push(at(
        address,
        Operation::Store { index: reg("rsp"), src: Expression::Constant(Some(address + size)) },
    ));
}

fn flag(address: u64, name: &str, of: &str) -> Instruction {
    at(address, Operation::Assign { dst: Scalar { name: name.to_string(), bits: 1 }, src: over(&[of]) })
}

/// The lifted form of the few x86-64 instructions that the cases below are
/// made of, as a translator for the architecture emits it: one block, each
/// guest instruction as its run of operations.
fn lift_x64(bytes: &[u8], pc: u64) -> Option<ControlFlowGraph> {
    let mut out: Vec<Instruction> = Vec::new();
    let mut i = 0usize;
    while i < bytes.len() {
        let a = pc + i as u64;
        let rest = &bytes[i..];
        if rest.starts_with(&[0x48, 0x89, 0xd8]) {
            out.push(at(a, Operation::Assign { dst: scalar("rax"), src: reg("rbx") }));
            i += 3;
        } else if rest.starts_with(&[0x48, 0x89, 0xdf]) {
            out.push(at(a, Operation::Assign { dst: scalar("rdi"), src: reg("rbx") }));
            i += 3;
        } else if rest.starts_with(&[0x48, 0xff, 0xc0]) {
            out.push(at(a, Operation::Assign { dst: scalar("rax"), src: over(&["rax"]) }));
            out.push(flag(a, "ZF", "rax"));
            out.push(flag(a, "SF", "rax"));
            out.push(flag(a, "OF", "rax"));
            i += 3;
        } else if rest.starts_with(&[0x48, 0x31, 0xc0]) {
            out.push(at(a, Operation::Assign { dst: scalar("rax"), src: over(&["rax", "rax"]) }));
            out.push(flag(a, "ZF", "rax"));
            out.push(flag(a, "SF", "rax"));
            i += 3;
        } else if rest.starts_with(&[0xff, 0xd0]) {
            push_return_address(&mut out, a, 2);
            out.push(at(a, Operation::Branch { target: reg("rax") }));
            i += 2;
        } else if rest.starts_with(&[0xff, 0xe0]) {
            out.push(at(a, Operation::Branch { target: reg("rax") }));
            i += 2;
        } else if rest.starts_with(&[0x41, 0xff, 0x54, 0x24]) && rest.len() >= 5 {
            out.push(at(a, Operation::Load { dst: temp(a), index: over(&["r12"]) }));
            push_return_address(&mut out, a, 5);
            out.push(at(a, Operation::Branch { target: Expression::Scalar(temp(a)) }));
            i += 5;
        } else if rest[0] == 0xe8 && rest.len() >= 5 {
            let rel = u32::from_le_bytes([rest[1], rest[2], rest[3], rest[4]]) as u64;
            push_return_address(&mut out, a, 5);
            out.push(at(a, Operation::Branch { target: Expression::Constant(Some(a + 5 + rel)) }));
            i += 5;
        } else if rest[0] == 0xc3 {
            out.push(at(a, Operation::Load { dst: temp(a), index: reg("rsp") }));
            out.push(at(a, Operation::Assign { dst: scalar("rsp"), src: over(&["rsp"]) }));
            out.push(at(a, Operation::Branch { target: Expression::Scalar(temp(a)) }));
            i += 1;
        } else if rest.starts_with(&[0xff, 0x25]) && rest.len() >= 6 {
            let disp = u32::from_le_bytes([rest[2], rest[3], rest[4], rest[5]]) as u64;
            out.push(at(
                a,
                Operation::Load { dst: temp(a), index: Expression::Constant(Some(a + 6 + disp)) },
            ));
            out.push(at(a, Operation::Branch { target: Expression::Scalar(temp(a)) }));
            i += 6;
        } else {
            return None;
        }
    }
    Some(ControlFlowGraph { blocks: vec![Block { instructions: out }] })
}

fn block(seq_num: usize, pc: u64, bytes: &[u8]) -> BasicBlock {
    BasicBlock::new(seq_num, pc, DUMMY_ASID, DUMMY_PID, DUMMY_PPID, DUMMY_ICOUNT, bytes)
}

fn lifted(seq_num: usize, pc: u64, bytes: &[u8]) -> BasicBlock {
    let mut bb = block(seq_num, pc, bytes);
    let cfg = lift_x64(bb.bytes(), bb.pc());
    bb.lift(cfg);
    bb
}

fn processed(seq_num: usize, pc: u64, bytes: &[u8]) -> BasicBlock {
    let mut bb = block(seq_num, pc, bytes);
    let cfg = lift_x64(bb.bytes(), bb.pc());
    bb.process(cfg);
    bb
}

const CALL_IND: [u8; 11] = [
    0x48, 0x89, 0xd8, // mov rax, rbx
    0x48, 0xff, 0xc0, // inc rax
    0xff, 0xd0, // call rax
    0x48, 0x31, 0xc0, // xor rax, rax
];

const RET: [u8; 10] = [
    0x48, 0x89, 0xd8, // mov rax, rbx
    0x48, 0xff, 0xc0, // inc rax
    0xc3, // ret
    0x48, 0x31, 0xc0, // xor rax, rax
];

#[test]
fn mod_test_x64_call_indirect() {
    let call_ind_bb = lifted(0, 0, &CALL_IND);
    assert!(call_ind_bb.translation().is_some());
    assert_eq!(
        call_ind_bb.find_branch(),
        Some(Branch::CallSentinel { site_pc: 6, seq_num: 0, reg: "rax".to_string() })
    );
}

#[test]
fn il_test_x64_call_indirect() {
    let call_ind_bb = lifted(0, 0, &CALL_IND);
    assert!(call_ind_bb.translation().is_some());
    assert_eq!(
        call_ind_bb.find_branch(),
        Some(Branch::CallSentinel { site_pc: 6, seq_num: 0, reg: "rax".to_string() })
    );
}

#[test]
fn test_x64_call_indirect_2() {
    let call_ind_encoding: [u8; 8] = [
        0x48, 0x89, 0xdf, // mov rdi, rbx
        0x41, 0xff, 0x54, 0x24, 0x60, // call [r12+0x60]
    ];
    let call_ind_bb = lifted(0, 0, &call_ind_encoding);
    assert!(call_ind_bb.translation().is_some());
    assert_eq!(
        call_ind_bb.find_branch(),
        Some(Branch::CallSentinel { site_pc: 3, seq_num: 0, reg: "r12".to_string() })
    );
}

const CALL_IMM: [u8; 14] = [
    0x48, 0x89, 0xd8, // mov rax, rbx
    0x48, 0xff, 0xc0, // inc rax
    0xe8, 0x2c, 0x13, 0x00, 0x00, // call 0x1337
    0x48, 0x31, 0xc0, // xor rax, rax
];

#[test]
fn mod_test_x64_call_direct() {
    let call_imm_bb = lifted(0, 0, &CALL_IMM);
    assert!(call_imm_bb.translation().is_some());
    assert_eq!(call_imm_bb.find_branch(), Some(Branch::DirectCall { site_pc: 6, dst_pc: 0x1337 }));
}

#[test]
fn il_test_x64_call_direct() {
    let call_imm_bb = lifted(0, 0, &CALL_IMM);
    assert!(call_imm_bb.translation().is_some());
    assert_eq!(call_imm_bb.find_branch(), Some(Branch::DirectCall { site_pc: 6, dst_pc: 0x1337 }));
}

#[test]
fn mod_test_x64_ret() {
    let ret_bb = lifted(0, 0, &RET);
    assert!(ret_bb.translation().is_some());
    assert_eq!(ret_bb.find_branch(), Some(Branch::ReturnSentinel { site_pc: 6, seq_num: 0 }));
}

#[test]
fn il_test_x64_ret() {
    let ret_bb = lifted(0, 0, &RET);
    assert!(ret_bb.translation().is_some());
    assert_eq!(ret_bb.find_branch(), Some(Branch::ReturnSentinel { site_pc: 6, seq_num: 0 }));
}

#[test]
fn test_x64_jump_direct_2() {
    let jmp_dir_encoding: [u8; 6] = [
        0xff, 0x25, 0x32, 0x1b, 0x3f, 0x00, // jmp [rip+0x3f1b32]
    ];
    let jmp_ind_bb = lifted(0, 0, &jmp_dir_encoding);
    assert!(jmp_ind_bb.translation().is_some());
    assert_eq!(
        jmp_ind_bb.find_branch(),
        Some(Branch::DirectJumpSentinel { site_pc: 0, seq_num: 0 })
    );
}

const JMP_IND: [u8; 11] = [
    0x48, 0x89, 0xd8, // mov rax, rbx
    0x48, 0xff, 0xc0, // inc rax
    0xff, 0xe0, // jmp rax
    0x48, 0x31, 0xc0, // xor rax, rax
];

#[test]
fn mod_test_x64_jump_indirect() {
    let jmp_ind_bb = lifted(0, 0, &JMP_IND);
    assert!(jmp_ind_bb.translation().is_some());
    assert_eq!(
        jmp_ind_bb.find_branch(),
        Some(Branch::IndirectJumpSentinel { site_pc: 6, seq_num: 0, reg: "rax".to_string() })
    );
}

#[test]
fn il_test_x64_jump_indirect() {
    let jmp_ind_bb = lifted(0, 0, &JMP_IND);
    assert!(jmp_ind_bb.translation().is_some());
    assert_eq!(
        jmp_ind_bb.find_branch(),
        Some(Branch::IndirectJumpSentinel { site_pc: 6, seq_num: 0, reg: "rax".to_string() })
    );
}

#[test]
fn mod_test_branch_serialize() {
    let branch = Branch::IndirectCall { site_pc: 0x0, dst_pc: 0x1337, reg_used: "rax".to_string() };
    let expected = "{\"IndirectCall\":{\"site_pc\":0,\"dst_pc\":4919,\"reg_used\":\"rax\"}}";
    let actual = branch.to_json(false);
    println!("{}", actual);
    assert_eq!(expected, actual);

    let branch = Branch::Return { site_pc: 0x0, dst_pc: 0x1337 };
    let expected = "{\"Return\":{\"site_pc\":0,\"dst_pc\":4919}}";
    let actual = branch.to_json(false);
    println!("{}", actual);
    assert_eq!(expected, actual);
}

#[test]
fn il_test_branch_serialize() {
    let branch = Branch::IndirectCall { site_pc: 0x0, dst_pc: 0x1337, reg_used: "rax".to_string() };
    let expected = "{\"IndirectCall\":{\"site_pc\":0,\"dst_pc\":4919,\"reg_used\":\"rax\"}}";
    assert_eq!(expected, branch.to_json(false));

    let branch = Branch::Return { site_pc: 0x0, dst_pc: 0x1337 };
    let expected = "{\"Return\":{\"site_pc\":0,\"dst_pc\":4919}}";
    assert_eq!(expected, branch.to_json(false));
}

#[test]
fn mod_test_block_serialize() {
    let call_ind_bb = processed(0, 0, &CALL_IND);
    assert!(call_ind_bb.translation().is_some());
    assert!(call_ind_bb.branch().is_some());

    let ret_bb = processed(1, 0x1337, &RET);
    assert!(ret_bb.translation().is_some());
    assert!(ret_bb.branch().is_some());

    let expected = "{\"seq_num\":1,\"pc\":4919,\"asid\":3735928559,\"pid\":1,\"ppid\":0,\"icount\":100,\"branch\":{\"ReturnSentinel\":{\"site_pc\":4925,\"seq_num\":1}}}";
    let actual = ret_bb.to_json(false);
    println!("{}", actual);
    assert_eq!(expected, actual);

    let bb_vec = vec![call_ind_bb, ret_bb];
    let bb_list = BasicBlockList::from(bb_vec);
    assert_eq!(bb_list.len(), 2);
    assert_eq!(bb_list.trans_err_cnt(), 0);

    assert!(serde_json::from_str::<serde_json::Value>(&bb_list.to_json(false)).is_ok());
}

#[test]
fn il_test_block_serialize() {
    let call_ind_bb = processed(0, 0, &CALL_IND);
    assert!(call_ind_bb.translation().is_some());
    assert!(call_ind_bb.branch().is_some());

    let ret_bb = processed(1, 0x1337, &RET);
    assert!(ret_bb.translation().is_some());
    assert!(ret_bb.branch().is_some());

    let expected = "{\"seq_num\":1,\"pc\":4919,\"asid\":3735928559,\"pid\":1,\"ppid\":0,\"icount\":100,\"branch\":{\"ReturnSentinel\":{\"site_pc\":4925,\"seq_num\":1}}}";
    assert_eq!(expected, ret_bb.to_json(false));

    let bb_list = BasicBlockList::from(vec![call_ind_bb, ret_bb]);
    assert_eq!(bb_list.len(), 2);
    assert_eq!(bb_list.trans_err_cnt(), 0);

    assert!(serde_json::from_str::<serde_json::Value>(&bb_list.to_json(false)).is_ok());
}

#[test]
fn test_callstack_print() {
    let last_encoding: [u8; 6] = [
        0x48, 0x89, 0xd8, // mov rax, rbx
        0x48, 0xff, 0xc0, // inc rax
    ];

    let call_ind_bb = processed(0, 0, &CALL_IND);
    assert!(call_ind_bb.translation().is_some());
    assert!(call_ind_bb.branch().is_some());

    let ret_bb = processed(1, 0x1337, &RET);
    assert!(ret_bb.translation().is_some());
    assert!(ret_bb.branch().is_some());

    let call_ind_bb_2 = processed(2, 0, &CALL_IND);
    assert!(call_ind_bb_2.translation().is_some());
    assert!(call_ind_bb_2.branch().is_some());

    let call_ind_bb_3 = processed(3, 0, &CALL_IND);
    assert!(call_ind_bb_3.translation().is_some());
    assert!(call_ind_bb_3.branch().is_some());

    let ret_bb_2 = processed(4, 0x1337, &RET);
    assert!(ret_bb_2.translation().is_some());
    assert!(ret_bb_2.branch().is_some());

    let ret_bb_3 = processed(5, 0x1337, &RET);
    assert!(ret_bb_3.translation().is_some());
    assert!(ret_bb_3.branch().is_some());

    let last_bb = processed(6, 0, &last_encoding);
    assert!(last_bb.translation().is_some());
    assert!(last_bb.branch().is_none());

    let bb_vec =
        vec![call_ind_bb, ret_bb, call_ind_bb_2, call_ind_bb_3, ret_bb_2, ret_bb_3, last_bb];
    let bb_list = BasicBlockList::from(bb_vec);
    assert_eq!(bb_list.len(), 7);
    assert_eq!(bb_list.trans_err_cnt(), 0);

    println!("{}", to_lisp(&bb_list));
    let cs = fmt_callstack(&bb_list);
    assert!(cs.is_ok());
    println!("{}", cs.unwrap());
}

#[test]
fn assembler_resolves_call_against_the_next_block() {
    let call = processed(0, 0, &CALL_IND);
    let ret = processed(1, 0x1337, &RET);
    let list = BasicBlockList::from(vec![call, ret]);
    let blocks = list.blocks();
    assert_eq!(
        blocks[0].branch(),
        &Some(Branch::IndirectCall { site_pc: 6, dst_pc: 0x1337, reg_used: "rax".to_string() })
    );
    assert_eq!(blocks[1].branch(), &Some(Branch::ReturnSentinel { site_pc: 0x133d, seq_num: 1 }));
    assert_eq!(list.trans_err_cnt(), 0);
}

#[test]
fn detector_finds_nothing_without_a_branch() {
    let bb = lifted(0, 0, &[0x48, 0x89, 0xd8, 0x48, 0xff, 0xc0]);
    assert!(bb.is_lifted());
    assert_eq!(bb.find_branch(), None);
}

#[test]
fn detector_finds_nothing_before_a_lift() {
    let bb = block(0, 0, &CALL_IND);
    assert!(!bb.is_lifted());
    assert!(bb.needs_lift());
    assert_eq!(bb.find_branch(), None);
}

#[test]
fn detector_skips_a_branch_without_address() {
    let cfg = ControlFlowGraph {
        blocks: vec![Block {
            instructions: vec![
                Instruction { operation: Operation::Branch { target: reg("rax") }, address: None },
                at(9, Operation::Branch { target: Expression::Constant(Some(0x40)) }),
            ],
        }],
    };
    assert_eq!(
        detect(&cfg, Arch::X86_64, 5),
        Some(Branch::DirectJump { site_pc: 9, dst_pc: 0x40, taken: false })
    );
}

#[test]
fn detector_skips_a_target_it_cannot_classify() {
    let cfg = ControlFlowGraph {
        blocks: vec![
            Block {
                instructions: vec![
                    at(1, Operation::Branch { target: over(&["rax", "rbx"]) }),
                    at(2, Operation::Branch { target: Expression::Constant(None) }),
                ],
            },
            Block { instructions: vec![at(3, Operation::Branch { target: reg("rcx") })] },
        ],
    };
    assert_eq!(
        detect(&cfg, Arch::X86_64, 7),
        Some(Branch::IndirectJumpSentinel { site_pc: 3, seq_num: 7, reg: "rcx".to_string() })
    );
}

#[test]
fn one_load_before_the_branch_is_no_return() {
    let cfg = ControlFlowGraph {
        blocks: vec![Block {
            instructions: vec![
                at(0, Operation::Load { dst: scalar("rbx"), index: reg("rsp") }),
                at(0, Operation::Branch { target: reg("rbx") }),
            ],
        }],
    };
    assert_eq!(
        detect(&cfg, Arch::X86_64, 0),
        Some(Branch::IndirectJumpSentinel { site_pc: 0, seq_num: 0, reg: "rbx".to_string() })
    );
}

#[test]
fn link_register_decides_on_mips() {
    let ra = Scalar { name: "$ra".to_string(), bits: 32 };
    let call = ControlFlowGraph {
        blocks: vec![Block {
            instructions: vec![
                at(0, Operation::Assign { dst: ra.clone(), src: Expression::Constant(Some(8)) }),
                at(0, Operation::Branch { target: Expression::Constant(Some(0x100)) }),
            ],
        }],
    };
    assert_eq!(
        detect(&call, Arch::Mips, 0),
        Some(Branch::DirectCall { site_pc: 0, dst_pc: 0x100 })
    );
    let ret = ControlFlowGraph {
        blocks: vec![Block {
            instructions: vec![
                at(0, Operation::Assign {
                    dst: Scalar { name: "t0".to_string(), bits: 32 },
                    src: Expression::Scalar(ra.clone()),
                }),
                at(4, Operation::Branch {
                    target: Expression::Scalar(Scalar { name: "t0".to_string(), bits: 32 }),
                }),
            ],
        }],
    };
    assert_eq!(
        detect(&ret, Arch::Mipsel, 3),
        Some(Branch::ReturnSentinel { site_pc: 4, seq_num: 3 })
    );
    // the same code on a stack machine is a plain indirect jump
    assert_eq!(
        detect(&ret, Arch::X86, 3),
        Some(Branch::IndirectJumpSentinel { site_pc: 4, seq_num: 3, reg: "t0".to_string() })
    );
}

#[test]
fn a_wider_stack_pointer_is_another_scalar() {
    // a store through a 32-bit `rsp` does not make a call on x86-64
    let narrow = Scalar { name: "rsp".to_string(), bits: 32 };
    let cfg = ControlFlowGraph {
        blocks: vec![Block {
            instructions: vec![
                at(0, Operation::Store {
                    index: Expression::Scalar(narrow),
                    src: Expression::Constant(Some(2)),
                }),
                at(0, Operation::Branch { target: Expression::Constant(Some(0x10)) }),
            ],
        }],
    };
    assert_eq!(
        detect(&cfg, Arch::X86_64, 0),
        Some(Branch::DirectJump { site_pc: 0, dst_pc: 0x10, taken: false })
    );
}

#[test]
fn process_is_done_once() {
    let mut bb = block(4, 0, &CALL_IND);
    assert!(bb.needs_lift());
    bb.process(None);
    assert!(!bb.needs_lift());
    assert!(!bb.is_lifted());
    assert!(bb.branch().is_none());
    // a later outcome is not taken
    bb.process(lift_x64(&CALL_IND, 0));
    assert!(!bb.is_lifted());
    assert!(bb.branch().is_none());

    let mut bb = processed(4, 0, &CALL_IND);
    let before = bb.to_json(false);
    bb.process(lift_x64(&RET, 0));
    bb.lift(None);
    assert_eq!(bb.to_json(false), before);
    assert!(bb.is_lifted());
}

#[test]
fn block_text_shows_bytes_in_hex() {
    let bb = block(3, 0x1337, &[0x48, 0x89, 0xd8, 0x00]);
    assert_eq!(bb.to_text(None), "SEQ: 3, PC: 00001337, BB_BYTES: [48, 89, d8, 0], LIFT: None");
    assert_eq!(
        bb.to_text(Some("\nnop\n")),
        "SEQ: 3, PC: 00001337, BB_BYTES: [48, 89, d8, 0], LIFT: \nnop\n"
    );
    let wide = BasicBlock::new(0, 0x1_2345_6789, 0, 0, 0, 0, &[]);
    assert_eq!(wide.to_text(None), "SEQ: 0, PC: 123456789, BB_BYTES: [], LIFT: None");
}

#[test]
fn a_branch_is_only_known_of_lifted_code() {
    let mut blocks = vec![
        block(0, 0, &CALL_IND),
        lifted(1, 0, &CALL_IND),
        processed(2, 0, &CALL_IND),
        processed(3, 0, &[0x48, 0x89, 0xd8]),
        processed(4, 0, &[0x0f, 0x0b]),
    ];
    let mut refused = block(5, 0, &RET);
    refused.process(None);
    blocks.push(refused);
    for bb in &blocks {
        if bb.branch().is_some() {
            assert!(bb.translation().is_some());
        }
    }
    assert_eq!(blocks.iter().filter(|bb| bb.branch().is_some()).count(), 1);
    let list = BasicBlockList::from(blocks);
    for bb in list.blocks() {
        if bb.branch().is_some() {
            assert!(bb.is_lifted());
        }
    }
    assert_eq!(list.trans_err_cnt(), 3);
}

/// The lifted form of the two MIPS instructions of the cases below, as a
/// translator for the architecture emits it.
fn lift_mips(bytes: &[u8], pc: u64) -> Option<ControlFlowGraph> {
    let ra = Scalar { name: "$ra".to_string(), bits: 32 };
    let instructions = if bytes == [0x40, 0x00, 0x00, 0x0c] {
        // jal 0x100
        vec![
            at(pc, Operation::Assign { dst: ra, src: Expression::Constant(Some(pc + 8)) }),
            at(pc, Operation::Branch { target: Expression::Constant(Some(0x100)) }),
        ]
    } else if bytes == [0x08, 0x00, 0xe0, 0x03] {
        // jr $ra
        vec![at(pc, Operation::Branch { target: Expression::Scalar(ra) })]
    } else {
        return None;
    };
    Some(ControlFlowGraph { blocks: vec![Block { instructions }] })
}

fn mips_simple() {
    let call_imm_encoding: [u8; 4] = [0x40, 0x00, 0x00, 0x0c]; // jal 0x100
    let ret_encoding: [u8; 4] = [0x08, 0x00, 0xe0, 0x03]; // jr $ra

    let mut call_imm_bb = BasicBlock::for_arch(
        Arch::Mips,
        0,
        0,
        DUMMY_ASID,
        DUMMY_PID,
        DUMMY_PPID,
        DUMMY_ICOUNT,
        call_imm_encoding.to_vec(),
    );
    call_imm_bb.lift(lift_mips(&call_imm_encoding, 0));
    assert!(call_imm_bb.translation().is_some());
    // the call is the instruction at 0: a block of four bytes has no site 6
    assert_eq!(call_imm_bb.find_branch(), Some(Branch::DirectCall { site_pc: 0, dst_pc: 0x100 }));

    let mut ret_bb = BasicBlock::for_arch(
        Arch::Mips,
        0,
        0,
        DUMMY_ASID,
        DUMMY_PID,
        DUMMY_PPID,
        DUMMY_ICOUNT,
        ret_encoding.to_vec(),
    );
    ret_bb.lift(lift_mips(&ret_encoding, 0));
    assert!(ret_bb.translation().is_some());
    // a lone jump through the return-address register has no instruction
    // before it that reads the register: it stays an indirect jump
    assert_eq!(
        ret_bb.find_branch(),
        Some(Branch::IndirectJumpSentinel { site_pc: 0, seq_num: 0, reg: "$ra".to_string() })
    );
}

#[test]
fn mod_test_mips_simple() {
    mips_simple();
}

#[test]
fn il_test_mips_simple() {
    mips_simple();
}
