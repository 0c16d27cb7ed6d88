//! The trace as JSON text: one object per block with its visible fields, the
//! branch as an object keyed by the name of its kind. Compact, or indented
//! by two spaces a level. Register names are written as JSON strings by
//! `serde_json`.

use vstd::prelude::*;
use crate::block::{BasicBlock, BlockView};
use crate::branch::{Branch, BranchView};
use crate::text::{
    bool_text, decimal, hex_padded, lemma_concat_assoc, lemma_concat_empty, push_bool,
    push_decimal, push_signed_decimal, push_spaces, signed_decimal, spaces,
};
use crate::trace::{has_branch, BasicBlockList};

verus! {

/// How one character stands inside a JSON string: the quotation mark and the
/// backslash behind a backslash, the control characters by their short
/// escape or as `\u00..`, any other character as it is.
pub open spec fn escaped_char(c: char) -> Seq<char> {
    if c == '"' {
        "\\\""@
    } else if c == '\\' {
        "\\\\"@
    } else if c as u32 == 0x08 {
        "\\b"@
    } else if c as u32 == 0x0c {
        "\\f"@
    } else if c == '\n' {
        "\\n"@
    } else if c == '\r' {
        "\\r"@
    } else if c == '\t' {
        "\\t"@
    } else if (c as u32) < 0x20 {
        "\\u"@ + hex_padded(c as nat, 4)
    } else {
        seq![c]
    }
}

/// The characters of `s` as they stand inside a JSON string.
pub open spec fn escaped(s: Seq<char>) -> Seq<char>
    decreases s.len(),
{
    if s.len() == 0 {
        Seq::empty()
    } else {
        escaped(s.drop_last()) + escaped_char(s.last())
    }
}

/// `s` as a JSON string.
pub open spec fn json_string(s: Seq<char>) -> Seq<char> {
    "\""@ + escaped(s) + "\""@
}

/// What starts a line at nesting depth `level`: nothing in compact text, a
/// newline and two spaces a level in indented text.
pub open spec fn line_start(pretty: bool, level: nat) -> Seq<char> {
    if pretty {
        "\n"@ + spaces(2 * level)
    } else {
        Seq::empty()
    }
}

/// What stands between a key and its value.
pub open spec fn key_end(pretty: bool) -> Seq<char> {
    if pretty {
        ": "@
    } else {
        ":"@
    }
}

/// What a member of an object at depth `level` starts with: a comma unless
/// it is the first, the line start, the key `name` and what ends a key.
pub open spec fn member_start(pretty: bool, level: nat, first: bool, name: Seq<char>) -> Seq<char> {
    (if first {
        Seq::<char>::empty()
    } else {
        ","@
    }) + line_start(pretty, level) + "\""@ + name + "\""@ + key_end(pretty)
}

/// A member of an object at depth `level`: the key `name` and the text
/// `value`.
pub open spec fn member(pretty: bool, level: nat, first: bool, name: Seq<char>, value: Seq<char>) -> Seq<
    char,
> {
    member_start(pretty, level, first, name) + value
}

/// What closes an object whose members stand at depth `level`.
pub open spec fn object_end(pretty: bool, level: nat) -> Seq<char> {
    line_start(pretty, (level - 1) as nat) + "}"@
}

/// The members of a branch, at depth `level`; `encoded` is the name of its
/// register as a JSON string, for a branch that has one.
pub open spec fn branch_members(b: BranchView, encoded: Seq<char>, pretty: bool, level: nat) -> Seq<
    char,
> {
    match b {
        BranchView::DirectCall { site_pc, dst_pc } => member(
            pretty,
            level,
            true,
            "site_pc"@,
            decimal(site_pc as nat),
        ) + member(pretty, level, false, "dst_pc"@, decimal(dst_pc as nat)),
        BranchView::DirectJump { site_pc, dst_pc, taken } => member(
            pretty,
            level,
            true,
            "site_pc"@,
            decimal(site_pc as nat),
        ) + member(pretty, level, false, "dst_pc"@, decimal(dst_pc as nat)) + member(
            pretty,
            level,
            false,
            "taken"@,
            bool_text(taken),
        ),
        BranchView::IndirectCall { site_pc, dst_pc, reg_used } => member(
            pretty,
            level,
            true,
            "site_pc"@,
            decimal(site_pc as nat),
        ) + member(pretty, level, false, "dst_pc"@, decimal(dst_pc as nat)) + member(
            pretty,
            level,
            false,
            "reg_used"@,
            encoded,
        ),
        BranchView::IndirectJump { site_pc, dst_pc, reg_used } => member(
            pretty,
            level,
            true,
            "site_pc"@,
            decimal(site_pc as nat),
        ) + member(pretty, level, false, "dst_pc"@, decimal(dst_pc as nat)) + member(
            pretty,
            level,
            false,
            "reg_used"@,
            encoded,
        ),
        BranchView::Return { site_pc, dst_pc } => member(
            pretty,
            level,
            true,
            "site_pc"@,
            decimal(site_pc as nat),
        ) + member(pretty, level, false, "dst_pc"@, decimal(dst_pc as nat)),
        BranchView::CallSentinel { site_pc, seq_num, reg } => member(
            pretty,
            level,
            true,
            "site_pc"@,
            decimal(site_pc as nat),
        ) + member(pretty, level, false, "seq_num"@, decimal(seq_num as nat)) + member(
            pretty,
            level,
            false,
            "reg"@,
            encoded,
        ),
        BranchView::IndirectJumpSentinel { site_pc, seq_num, reg } => member(
            pretty,
            level,
            true,
            "site_pc"@,
            decimal(site_pc as nat),
        ) + member(pretty, level, false, "seq_num"@, decimal(seq_num as nat)) + member(
            pretty,
            level,
            false,
            "reg"@,
            encoded,
        ),
        BranchView::DirectJumpSentinel { site_pc, seq_num } => member(
            pretty,
            level,
            true,
            "site_pc"@,
            decimal(site_pc as nat),
        ) + member(pretty, level, false, "seq_num"@, decimal(seq_num as nat)),
        BranchView::ReturnSentinel { site_pc, seq_num } => member(
            pretty,
            level,
            true,
            "site_pc"@,
            decimal(site_pc as nat),
        ) + member(pretty, level, false, "seq_num"@, decimal(seq_num as nat)),
    }
}

impl BranchView {
    /// The name of the kind, as the JSON text has it.
    pub open spec fn kind_name(self) -> Seq<char> {
        match self {
            BranchView::DirectCall { .. } => "DirectCall"@,
            BranchView::DirectJump { .. } => "DirectJump"@,
            BranchView::IndirectCall { .. } => "IndirectCall"@,
            BranchView::IndirectJump { .. } => "IndirectJump"@,
            BranchView::Return { .. } => "Return"@,
            BranchView::CallSentinel { .. } => "CallSentinel"@,
            BranchView::IndirectJumpSentinel { .. } => "IndirectJumpSentinel"@,
            BranchView::DirectJumpSentinel { .. } => "DirectJumpSentinel"@,
            BranchView::ReturnSentinel { .. } => "ReturnSentinel"@,
        }
    }

    /// The name of the register that the branch goes through, if it goes
    /// through one.
    pub open spec fn reg_name(self) -> Option<Seq<char>> {
        match self {
            BranchView::IndirectCall { reg_used, .. } => Some(reg_used),
            BranchView::IndirectJump { reg_used, .. } => Some(reg_used),
            BranchView::CallSentinel { reg, .. } => Some(reg),
            BranchView::IndirectJumpSentinel { reg, .. } => Some(reg),
            _ => None,
        }
    }

    /// The name of the register as a JSON string; empty for a branch that
    /// goes through none.
    pub open spec fn encoded_name(self) -> Seq<char> {
        match self.reg_name() {
            Some(name) => json_string(name),
            None => Seq::empty(),
        }
    }

    /// The branch as JSON, standing at depth `level`, with `encoded` for the
    /// name of its register: an object with one member, keyed by the name of
    /// the kind, that holds the fields.
    pub open spec fn json_with(self, encoded: Seq<char>, pretty: bool, level: nat) -> Seq<char> {
        "{"@ + member(
            pretty,
            level + 1,
            true,
            self.kind_name(),
            "{"@ + branch_members(self, encoded, pretty, level + 2) + object_end(
                pretty,
                level + 2,
            ),
        ) + object_end(pretty, level + 1)
    }

    /// The branch as JSON, standing at depth `level`.
    pub open spec fn json(self, pretty: bool, level: nat) -> Seq<char> {
        self.json_with(self.encoded_name(), pretty, level)
    }
}

impl BlockView {
    /// The block as JSON, standing at depth `level`: sequence number, start
    /// address, address space, process, parent process, instruction count
    /// and branch (`null` where there is none). The bytes and the lifted
    /// code are not part of it.
    pub open spec fn json(self, pretty: bool, level: nat) -> Seq<char> {
        "{"@ + member(pretty, level + 1, true, "seq_num"@, decimal(self.seq_num as nat)) + member(
            pretty,
            level + 1,
            false,
            "pc"@,
            decimal(self.pc as nat),
        ) + member(pretty, level + 1, false, "asid"@, decimal(self.asid as nat)) + member(
            pretty,
            level + 1,
            false,
            "pid"@,
            signed_decimal(self.pid as int),
        ) + member(pretty, level + 1, false, "ppid"@, signed_decimal(self.ppid as int)) + member(
            pretty,
            level + 1,
            false,
            "icount"@,
            decimal(self.icount as nat),
        ) + member(
            pretty,
            level + 1,
            false,
            "branch"@,
            match self.branch {
                Some(b) => b.json(pretty, level + 1),
                None => "null"@,
            },
        ) + object_end(pretty, level + 1)
    }
}

/// The first `n` of `blocks` as the elements of a JSON array at depth
/// `level`.
pub open spec fn elements(blocks: Seq<BlockView>, n: nat, pretty: bool, level: nat) -> Seq<char>
    decreases n,
{
    if n == 0 {
        Seq::empty()
    } else {
        elements(blocks, (n - 1) as nat, pretty, level) + (if n == 1 {
            Seq::<char>::empty()
        } else {
            ","@
        }) + line_start(pretty, level) + blocks[n - 1].json(pretty, level)
    }
}

/// The blocks as a JSON array whose elements stand at depth `level`.
pub open spec fn array_json(blocks: Seq<BlockView>, pretty: bool, level: nat) -> Seq<char> {
    if blocks.len() == 0 {
        "[]"@
    } else {
        "["@ + elements(blocks, blocks.len(), pretty, level) + line_start(
            pretty,
            (level - 1) as nat,
        ) + "]"@
    }
}

/// The trace as JSON: an object with the one member `list`, the array of
/// its blocks.
pub open spec fn trace_json(blocks: Seq<BlockView>, pretty: bool) -> Seq<char> {
    "{"@ + member(pretty, 1, true, "list"@, array_json(blocks, pretty, 2)) + object_end(pretty, 1)
}

/// Calls `serde_json::to_string` on a string. Claimed of it, as its source
/// shows: writing a string into memory cannot fail, and the text is the
/// string between quotation marks, with the quotation mark, the backslash
/// and the characters below U+0020 escaped as `escaped_char` says and every
/// other character as it is.
#[verifier::external_body]
fn encode_string(s: &str) -> (r: Option<String>)
    ensures
        r is Some,
        r matches Some(t) ==> t@ == json_string(s@),
{
    serde_json::to_string(s).ok()
}

/// The name of the register of `branch` as a JSON string; the empty text
/// for a branch that goes through no register.
fn encode_name(branch: &Branch) -> (r: String)
    ensures
        r@ == branch@.encoded_name(),
{
    let name = match branch {
        Branch::IndirectCall { reg_used, .. } => reg_used,
        Branch::IndirectJump { reg_used, .. } => reg_used,
        Branch::CallSentinel { reg, .. } => reg,
        Branch::IndirectJumpSentinel { reg, .. } => reg,
        _ => {
            return String::new();
        },
    };
    match encode_string(name.as_str()) {
        Some(encoded) => encoded,
        None => unreached(),
    }
}

fn push_line_start(out: &mut String, pretty: bool, level: usize)
    requires
        2 * level <= usize::MAX,
    ensures
        final(out)@ == old(out)@ + line_start(pretty, level as nat),
{
    if pretty {
        out.append("\n");
        push_spaces(out, 2 * level);
        proof {
            lemma_concat_assoc(old(out)@, "\n"@, spaces(2 * level as nat));
        }
    } else {
        proof {
            lemma_concat_empty(old(out)@);
        }
    }
}

fn push_member_start(out: &mut String, pretty: bool, level: usize, first: bool, name: &str)
    requires
        2 * level <= usize::MAX,
    ensures
        final(out)@ == old(out)@ + member_start(pretty, level as nat, first, name@),
{
    let ghost o = old(out)@;
    let ghost mut acc: Seq<char>;
    if !first {
        out.append(",");
        proof {
            acc = ","@;
        }
    } else {
        proof {
            acc = Seq::empty();
            lemma_concat_empty(o);
        }
    }
    assert(out@ == o + acc);
    push_line_start(out, pretty, level);
    proof {
        lemma_concat_assoc(o, acc, line_start(pretty, level as nat));
        acc = acc + line_start(pretty, level as nat);
    }
    assert(out@ == o + acc);
    out.append("\"");
    proof {
        lemma_concat_assoc(o, acc, "\""@);
        acc = acc + "\""@;
    }
    out.append(name);
    proof {
        lemma_concat_assoc(o, acc, name@);
        acc = acc + name@;
    }
    out.append("\"");
    proof {
        lemma_concat_assoc(o, acc, "\""@);
        acc = acc + "\""@;
    }
    assert(out@ == o + acc);
    if pretty {
        out.append(": ");
    } else {
        out.append(":");
    }
    proof {
        lemma_concat_assoc(o, acc, key_end(pretty));
    }
}

fn push_number_member(out: &mut String, pretty: bool, level: usize, first: bool, name: &str, v: u64)
    requires
        2 * level <= usize::MAX,
    ensures
        final(out)@ == old(out)@ + member(pretty, level as nat, first, name@, decimal(v as nat)),
{
    push_member_start(out, pretty, level, first, name);
    push_decimal(out, v);
    proof {
        lemma_concat_assoc(
            old(out)@,
            member_start(pretty, level as nat, first, name@),
            decimal(v as nat),
        );
    }
}

fn push_signed_member(out: &mut String, pretty: bool, level: usize, name: &str, v: i32)
    requires
        2 * level <= usize::MAX,
    ensures
        final(out)@ == old(out)@ + member(
            pretty,
            level as nat,
            false,
            name@,
            signed_decimal(v as int),
        ),
{
    push_member_start(out, pretty, level, false, name);
    push_signed_decimal(out, v);
    proof {
        lemma_concat_assoc(
            old(out)@,
            member_start(pretty, level as nat, false, name@),
            signed_decimal(v as int),
        );
    }
}

fn push_bool_member(out: &mut String, pretty: bool, level: usize, name: &str, v: bool)
    requires
        2 * level <= usize::MAX,
    ensures
        final(out)@ == old(out)@ + member(pretty, level as nat, false, name@, bool_text(v)),
{
    push_member_start(out, pretty, level, false, name);
    push_bool(out, v);
    proof {
        lemma_concat_assoc(
            old(out)@,
            member_start(pretty, level as nat, false, name@),
            bool_text(v),
        );
    }
}

fn push_string_member(out: &mut String, pretty: bool, level: usize, name: &str, encoded: &str)
    requires
        2 * level <= usize::MAX,
    ensures
        final(out)@ == old(out)@ + member(pretty, level as nat, false, name@, encoded@),
{
    push_member_start(out, pretty, level, false, name);
    out.append(encoded);
    proof {
        lemma_concat_assoc(
            old(out)@,
            member_start(pretty, level as nat, false, name@),
            encoded@,
        );
    }
}

fn push_object_end(out: &mut String, pretty: bool, level: usize)
    requires
        level >= 1,
        2 * level <= usize::MAX,
    ensures
        final(out)@ == old(out)@ + object_end(pretty, level as nat),
{
    push_line_start(out, pretty, level - 1);
    out.append("}");
    proof {
        lemma_concat_assoc(old(out)@, line_start(pretty, (level - 1) as nat), "}"@);
    }
}

/// Two members, one after the other.
proof fn lemma_two(o: Seq<char>, a: Seq<char>, b: Seq<char>)
    ensures
        (o + a) + b == o + (a + b),
{
    lemma_concat_assoc(o, a, b);
}

fn push_two_numbers(
    out: &mut String,
    pretty: bool,
    level: usize,
    first_name: &str,
    first: u64,
    second_name: &str,
    second: u64,
)
    requires
        2 * level <= usize::MAX,
    ensures
        final(out)@ == old(out)@ + (member(
            pretty,
            level as nat,
            true,
            first_name@,
            decimal(first as nat),
        ) + member(pretty, level as nat, false, second_name@, decimal(second as nat))),
{
    push_number_member(out, pretty, level, true, first_name, first);
    push_number_member(out, pretty, level, false, second_name, second);
    proof {
        lemma_two(
            old(out)@,
            member(pretty, level as nat, true, first_name@, decimal(first as nat)),
            member(pretty, level as nat, false, second_name@, decimal(second as nat)),
        );
    }
}

fn push_branch_members(
    out: &mut String,
    branch: &Branch,
    encoded: &str,
    pretty: bool,
    level: usize,
)
    requires
        2 * level <= usize::MAX,
    ensures
        final(out)@ == old(out)@ + branch_members(branch@, encoded@, pretty, level as nat),
{
    let ghost o = old(out)@;
    let ghost l = level as nat;
    match branch {
        Branch::DirectCall { site_pc, dst_pc } => {
            push_two_numbers(out, pretty, level, "site_pc", *site_pc, "dst_pc", *dst_pc);
        },
        Branch::DirectJump { site_pc, dst_pc, taken } => {
            push_two_numbers(out, pretty, level, "site_pc", *site_pc, "dst_pc", *dst_pc);
            push_bool_member(out, pretty, level, "taken", *taken);
            proof {
                lemma_concat_assoc(
                    o,
                    member(pretty, l, true, "site_pc"@, decimal(*site_pc as nat)) + member(
                        pretty,
                        l,
                        false,
                        "dst_pc"@,
                        decimal(*dst_pc as nat),
                    ),
                    member(pretty, l, false, "taken"@, bool_text(*taken)),
                );
            }
        },
        Branch::IndirectCall { site_pc, dst_pc, reg_used } => {
            push_two_numbers(out, pretty, level, "site_pc", *site_pc, "dst_pc", *dst_pc);
            push_string_member(out, pretty, level, "reg_used", encoded);
            proof {
                lemma_concat_assoc(
                    o,
                    member(pretty, l, true, "site_pc"@, decimal(*site_pc as nat)) + member(
                        pretty,
                        l,
                        false,
                        "dst_pc"@,
                        decimal(*dst_pc as nat),
                    ),
                    member(pretty, l, false, "reg_used"@, encoded@),
                );
            }
        },
        Branch::IndirectJump { site_pc, dst_pc, reg_used } => {
            push_two_numbers(out, pretty, level, "site_pc", *site_pc, "dst_pc", *dst_pc);
            push_string_member(out, pretty, level, "reg_used", encoded);
            proof {
                lemma_concat_assoc(
                    o,
                    member(pretty, l, true, "site_pc"@, decimal(*site_pc as nat)) + member(
                        pretty,
                        l,
                        false,
                        "dst_pc"@,
                        decimal(*dst_pc as nat),
                    ),
                    member(pretty, l, false, "reg_used"@, encoded@),
                );
            }
        },
        Branch::Return { site_pc, dst_pc } => {
            push_two_numbers(out, pretty, level, "site_pc", *site_pc, "dst_pc", *dst_pc);
        },
        Branch::CallSentinel { site_pc, seq_num, reg } => {
            push_two_numbers(out, pretty, level, "site_pc", *site_pc, "seq_num", *seq_num as u64);
            push_string_member(out, pretty, level, "reg", encoded);
            proof {
                lemma_concat_assoc(
                    o,
                    member(pretty, l, true, "site_pc"@, decimal(*site_pc as nat)) + member(
                        pretty,
                        l,
                        false,
                        "seq_num"@,
                        decimal(*seq_num as nat),
                    ),
                    member(pretty, l, false, "reg"@, encoded@),
                );
            }
        },
        Branch::IndirectJumpSentinel { site_pc, seq_num, reg } => {
            push_two_numbers(out, pretty, level, "site_pc", *site_pc, "seq_num", *seq_num as u64);
            push_string_member(out, pretty, level, "reg", encoded);
            proof {
                lemma_concat_assoc(
                    o,
                    member(pretty, l, true, "site_pc"@, decimal(*site_pc as nat)) + member(
                        pretty,
                        l,
                        false,
                        "seq_num"@,
                        decimal(*seq_num as nat),
                    ),
                    member(pretty, l, false, "reg"@, encoded@),
                );
            }
        },
        Branch::DirectJumpSentinel { site_pc, seq_num } => {
            push_two_numbers(out, pretty, level, "site_pc", *site_pc, "seq_num", *seq_num as u64);
        },
        Branch::ReturnSentinel { site_pc, seq_num } => {
            push_two_numbers(out, pretty, level, "site_pc", *site_pc, "seq_num", *seq_num as u64);
        },
    }
}

fn kind_name(branch: &Branch) -> (r: &'static str)
    ensures
        r@ == branch@.kind_name(),
{
    match branch {
        Branch::DirectCall { .. } => "DirectCall",
        Branch::DirectJump { .. } => "DirectJump",
        Branch::IndirectCall { .. } => "IndirectCall",
        Branch::IndirectJump { .. } => "IndirectJump",
        Branch::Return { .. } => "Return",
        Branch::CallSentinel { .. } => "CallSentinel",
        Branch::IndirectJumpSentinel { .. } => "IndirectJumpSentinel",
        Branch::DirectJumpSentinel { .. } => "DirectJumpSentinel",
        Branch::ReturnSentinel { .. } => "ReturnSentinel",
    }
}

fn push_branch(out: &mut String, branch: &Branch, encoded: &str, pretty: bool, level: usize)
    requires
        2 * level + 4 <= usize::MAX,
    ensures
        final(out)@ == old(out)@ + branch@.json_with(encoded@, pretty, level as nat),
{
    let ghost o = old(out)@;
    let ghost l = level as nat;
    let ghost start = member_start(pretty, l + 1, true, branch@.kind_name());
    let ghost inner = branch_members(branch@, encoded@, pretty, l + 2);
    let ghost inner_end = object_end(pretty, l + 2);
    let ghost outer_end = object_end(pretty, l + 1);
    out.append("{");
    push_member_start(out, pretty, level + 1, true, kind_name(branch));
    out.append("{");
    push_branch_members(out, branch, encoded, pretty, level + 2);
    push_object_end(out, pretty, level + 2);
    push_object_end(out, pretty, level + 1);
    proof {
        // what was appended, piece by piece
        assert(out@ == (((((o + "{"@) + start) + "{"@) + inner) + inner_end) + outer_end);
        let value = ("{"@ + inner) + inner_end;
        // the value of the one member
        lemma_concat_assoc((o + "{"@) + start, "{"@, inner);
        lemma_concat_assoc((o + "{"@) + start, "{"@ + inner, inner_end);
        assert(out@ == (((o + "{"@) + start) + value) + outer_end);
        lemma_concat_assoc(o + "{"@, start, value);
        lemma_concat_assoc(o, "{"@, start + value);
        lemma_concat_assoc(o, "{"@ + (start + value), outer_end);
        assert(branch@.json_with(encoded@, pretty, l) == ("{"@ + (start + value)) + outer_end);
    }
}

fn push_block(out: &mut String, block: &BasicBlock, encoded: &str, pretty: bool, level: usize)
    requires
        2 * level + 6 <= usize::MAX,
        block@.branch matches Some(b) ==> encoded@ == b.encoded_name(),
    ensures
        final(out)@ == old(out)@ + block@.json(pretty, level as nat),
{
    let ghost o = old(out)@;
    let ghost l = (level + 1) as nat;
    let ghost b = block@;
    let ghost mut acc: Seq<char> = "{"@;
    out.append("{");
    push_number_member(out, pretty, level + 1, true, "seq_num", block.seq_num() as u64);
    proof {
        let piece = member(pretty, l, true, "seq_num"@, decimal(b.seq_num as nat));
        lemma_concat_assoc(o, acc, piece);
        acc = acc + piece;
    }
    assert(out@ == o + acc);
    push_number_member(out, pretty, level + 1, false, "pc", block.pc());
    proof {
        let piece = member(pretty, l, false, "pc"@, decimal(b.pc as nat));
        lemma_concat_assoc(o, acc, piece);
        acc = acc + piece;
    }
    assert(out@ == o + acc);
    push_number_member(out, pretty, level + 1, false, "asid", block.asid());
    proof {
        let piece = member(pretty, l, false, "asid"@, decimal(b.asid as nat));
        lemma_concat_assoc(o, acc, piece);
        acc = acc + piece;
    }
    assert(out@ == o + acc);
    push_signed_member(out, pretty, level + 1, "pid", block.pid());
    proof {
        let piece = member(pretty, l, false, "pid"@, signed_decimal(b.pid as int));
        lemma_concat_assoc(o, acc, piece);
        acc = acc + piece;
    }
    assert(out@ == o + acc);
    push_signed_member(out, pretty, level + 1, "ppid", block.ppid());
    proof {
        let piece = member(pretty, l, false, "ppid"@, signed_decimal(b.ppid as int));
        lemma_concat_assoc(o, acc, piece);
        acc = acc + piece;
    }
    assert(out@ == o + acc);
    push_number_member(out, pretty, level + 1, false, "icount", block.icount());
    proof {
        let piece = member(pretty, l, false, "icount"@, decimal(b.icount as nat));
        lemma_concat_assoc(o, acc, piece);
        acc = acc + piece;
    }
    assert(out@ == o + acc);
    let ghost before = out@;
    let ghost start = member_start(pretty, l, false, "branch"@);
    let ghost value = match b.branch {
        Some(br) => br.json(pretty, l),
        None => "null"@,
    };
    push_member_start(out, pretty, level + 1, false, "branch");
    match block.branch() {
        Some(branch) => push_branch(out, branch, encoded, pretty, level + 1),
        None => out.append("null"),
    }
    proof {
        assert(out@ == (before + start) + value);
        lemma_concat_assoc(before, start, value);
        lemma_concat_assoc(o, acc, start + value);
        acc = acc + (start + value);
    }
    assert(out@ == o + acc);
    push_object_end(out, pretty, level + 1);
    proof {
        lemma_concat_assoc(o, acc, object_end(pretty, l));
    }
}

/// The name of the register of the branch of `block` as a JSON string.
fn encode_block_name(block: &BasicBlock) -> (r: String)
    ensures
        block@.branch matches Some(b) ==> r@ == b.encoded_name(),
{
    match block.branch() {
        Some(branch) => encode_name(branch),
        None => String::new(),
    }
}

impl Branch {
    /// The branch as JSON text, compact or indented.
    pub fn to_json(&self, pretty: bool) -> (r: String)
        ensures
            r@ == self@.json(pretty, 0),
    {
        let encoded = encode_name(self);
        let mut out = String::new();
        push_branch(&mut out, self, encoded.as_str(), pretty, 0);
        proof {
            lemma_concat_empty(self@.json(pretty, 0));
        }
        out
    }
}

impl BasicBlock {
    /// The block as JSON text, compact or indented.
    pub fn to_json(&self, pretty: bool) -> (r: String)
        ensures
            r@ == self@.json(pretty, 0),
    {
        let encoded = encode_block_name(self);
        let mut out = String::new();
        push_block(&mut out, self, encoded.as_str(), pretty, 0);
        proof {
            lemma_concat_empty(self@.json(pretty, 0));
        }
        out
    }
}

/// Appends the blocks as a JSON array whose elements stand at depth 2.
fn push_array(out: &mut String, blocks: &Vec<&BasicBlock>, pretty: bool)
    ensures
        final(out)@ == old(out)@ + array_json(blocks.deep_view(), pretty, 2),
{
    let ghost o = old(out)@;
    let ghost all = blocks.deep_view();
    if blocks.len() == 0 {
        out.append("[]");
        return ;
    }
    out.append("[");
    let ghost start = out@;
    let mut i: usize = 0;
    proof {
        lemma_concat_empty(start);
    }
    while i < blocks.len()
        invariant
            i <= blocks.len(),
            all == blocks.deep_view(),
            out@ == start + elements(all, i as nat, pretty, 2),
        decreases blocks.len() - i,
    {
        let ghost e = elements(all, i as nat, pretty, 2);
        let ghost sep: Seq<char> = if i == 0 {
            Seq::empty()
        } else {
            ","@
        };
        if i > 0 {
            out.append(",");
        } else {
            proof {
                lemma_concat_empty(out@);
            }
        }
        assert(out@ == (start + e) + sep);
        push_line_start(out, pretty, 2);
        let block: &BasicBlock = blocks[i];
        assert(all[i as int] == block@);
        let encoded = encode_block_name(block);
        push_block(out, block, encoded.as_str(), pretty, 2);
        proof {
            let ls = line_start(pretty, 2);
            let bj = all[i as int].json(pretty, 2);
            assert(out@ == (((start + e) + sep) + ls) + bj);
            lemma_concat_assoc(start, e, sep);
            lemma_concat_assoc(start, e + sep, ls);
            lemma_concat_assoc(start, (e + sep) + ls, bj);
            assert(elements(all, (i + 1) as nat, pretty, 2) == ((e + sep) + ls) + bj);
        }
        i += 1;
    }
    push_line_start(out, pretty, 1);
    out.append("]");
    proof {
        let e = elements(all, all.len(), pretty, 2);
        let ls = line_start(pretty, 1);
        assert(out@ == (((o + "["@) + e) + ls) + "]"@);
        lemma_concat_assoc(o, "["@, e);
        lemma_concat_assoc(o, "["@ + e, ls);
        lemma_concat_assoc(o, ("["@ + e) + ls, "]"@);
    }
}

/// The JSON text of a trace that holds `blocks`.
fn write_trace(blocks: &Vec<&BasicBlock>, pretty: bool) -> (r: String)
    ensures
        r@ == trace_json(blocks.deep_view(), pretty),
{
    let mut out = String::from_str("{");
    let ghost start = member_start(pretty, 1, true, "list"@);
    let ghost array = array_json(blocks.deep_view(), pretty, 2);
    push_member_start(&mut out, pretty, 1, true, "list");
    push_array(&mut out, blocks, pretty);
    push_object_end(&mut out, pretty, 1);
    proof {
        assert(out@ == (("{"@ + start) + array) + object_end(pretty, 1));
        lemma_concat_assoc("{"@, start, array);
    }
    out
}

impl BasicBlockList {
    /// The trace as JSON text, compact or indented.
    pub fn to_json(&self, pretty: bool) -> (r: String)
        ensures
            r@ == trace_json(self@, pretty),
    {
        let blocks = self.blocks();
        let mut all: Vec<&BasicBlock> = Vec::new();
        let mut i: usize = 0;
        while i < blocks.len()
            invariant
                i <= blocks.len(),
                blocks.deep_view() == self@,
                all.deep_view() == self@.take(i as int),
            decreases blocks.len() - i,
        {
            let ghost before = all.deep_view();
            all.push(&blocks[i]);
            assert(all.deep_view() =~= before.push(blocks[i as int]@));
            assert(self@.take(i + 1) =~= self@.take(i as int).push(self@[i as int]));
            i += 1;
        }
        assert(self@.take(blocks.len() as int) =~= self@);
        write_trace(&all, pretty)
    }

    /// The JSON text, compact or indented, of the trace of the blocks that
    /// have a branch: what `into_branch_list` keeps.
    pub fn to_branch_json(&self, pretty: bool) -> (r: String)
        ensures
            r@ == trace_json(self@.filter(|b: BlockView| has_branch(b)), pretty),
    {
        let ghost pred = |b: BlockView| has_branch(b);
        let blocks = self.blocks();
        let mut kept: Vec<&BasicBlock> = Vec::new();
        let mut i: usize = 0;
        proof {
            reveal(Seq::filter);
            assert(self@.take(0) =~= Seq::<BlockView>::empty());
        }
        while i < blocks.len()
            invariant
                i <= blocks.len(),
                blocks.deep_view() == self@,
                pred == (|b: BlockView| has_branch(b)),
                kept.deep_view() == self@.take(i as int).filter(pred),
            decreases blocks.len() - i,
        {
            proof {
                reveal(Seq::filter);
                assert(self@.take(i + 1).drop_last() =~= self@.take(i as int));
                assert(self@.take(i + 1).last() == blocks[i as int]@);
            }
            let ghost before = kept.deep_view();
            if blocks[i].branch().is_some() {
                kept.push(&blocks[i]);
                assert(kept.deep_view() =~= before.push(blocks[i as int]@));
            }
            i += 1;
        }
        assert(self@.take(blocks.len() as int) =~= self@);
        write_trace(&kept, pretty)
    }
}

} // verus!
