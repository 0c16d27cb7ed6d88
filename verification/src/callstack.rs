//! The call-stack renderer: turns the branches of an assembled trace into a
//! parenthesised text, a group for every call, and has it drawn as a tree.

use vstd::prelude::*;
use crate::block::{BasicBlock, BlockView};
use crate::branch::Branch;
use crate::trace::BasicBlockList;

verus! {

/// Why a call tree could not be drawn.
#[derive(Debug, Clone, PartialEq, Eq)]
pub enum CallstackError {
    /// The text holds no name.
    EmptyInput,
    /// A group is opened before any name.
    MissingProp,
    /// The text holds more than one tree.
    MultipleRoots,
    /// The input format's own complaint.
    FormatSpecific(String),
    /// The text is nested deeper than `MAX_NESTING`.
    TooDeep,
}

pub ghost enum CallstackErrorView {
    EmptyInput,
    MissingProp,
    MultipleRoots,
    FormatSpecific(Seq<char>),
    TooDeep,
}

impl View for CallstackError {
    type V = CallstackErrorView;

    open spec fn view(&self) -> CallstackErrorView {
        match *self {
            CallstackError::EmptyInput => CallstackErrorView::EmptyInput,
            CallstackError::MissingProp => CallstackErrorView::MissingProp,
            CallstackError::MultipleRoots => CallstackErrorView::MultipleRoots,
            CallstackError::FormatSpecific(m) => CallstackErrorView::FormatSpecific(m@),
            CallstackError::TooDeep => CallstackErrorView::TooDeep,
        }
    }
}

/// How deep a text may be nested that is handed on to be drawn: drawing
/// descends once for each level.
pub const MAX_NESTING: usize = 1000;

/// How many more `(` than `)` the first `n` bytes hold.
pub open spec fn excess(bytes: Seq<u8>, n: nat) -> int
    decreases n,
{
    if n == 0 {
        0
    } else {
        excess(bytes, (n - 1) as nat) + if bytes[n - 1] == 0x28u8 {
            1int
        } else if bytes[n - 1] == 0x29u8 {
            -1int
        } else {
            0int
        }
    }
}

/// The greatest excess of `(` over `)` at any place within the first `n`
/// bytes.
pub open spec fn deepest(bytes: Seq<u8>, n: nat) -> int
    decreases n,
{
    if n == 0 {
        0
    } else {
        let before = deepest(bytes, (n - 1) as nat);
        let now = excess(bytes, n);
        if now > before {
            now
        } else {
            before
        }
    }
}

/// How deep the text is nested: the greatest excess of `(` over `)` in any
/// of its prefixes, counted on its UTF-8 bytes (where the two bytes stand
/// for nothing but the two characters).
pub open spec fn nesting(text: Seq<char>) -> int {
    deepest(vstd::utf8::encode_utf8(text), vstd::utf8::encode_utf8(text).len())
}

/// The text and the number of open groups after the first `n` blocks of a
/// trace. Every call opens a group with its description; a return closes the
/// innermost open group, if there is one; jumps and blocks without a branch
/// add nothing. Where the address space changes, the groups still open are
/// closed first: call stacks of different address spaces do not nest.
pub open spec fn lisp_prefix(blocks: Seq<BlockView>, n: nat) -> (Seq<char>, nat)
    decreases n,
{
    if n == 0 {
        (Seq::empty(), 0)
    } else {
        let (before, still_open) = lisp_prefix(blocks, (n - 1) as nat);
        let (text, open) = if n >= 2 && blocks[n - 1].asid != blocks[n - 2].asid {
            (before + closing(still_open), 0nat)
        } else {
            (before, still_open)
        };
        match blocks[n - 1].branch {
            Some(b) => if b.is_call() {
                (text + "("@ + b.text(), open + 1)
            } else if b is Return && open > 0 {
                (text + ")"@, (open - 1) as nat)
            } else {
                (text, open)
            },
            None => (text, open),
        }
    }
}

/// `n` closing parentheses.
pub open spec fn closing(n: nat) -> Seq<char> {
    Seq::new(n, |i: int| ')')
}

/// The call stacks of a trace as text: `()` for the empty trace; else the
/// groups of its calls, those left open at the end of the trace closed
/// there.
pub open spec fn lisp_of(blocks: Seq<BlockView>) -> Seq<char> {
    if blocks.len() == 0 {
        "()"@
    } else {
        lisp_prefix(blocks, blocks.len()).0 + closing(lisp_prefix(blocks, blocks.len()).1)
    }
}

/// The text that is drawn for the groups `groups`: the groups under one root
/// of the name `callstack`.
pub open spec fn rooted(groups: Seq<char>) -> Seq<char> {
    "callstack"@ + groups
}

/// The drawing of the parenthesised tree `text`, or why there is none.
pub uninterp spec fn prettified(text: Seq<char>) -> Result<Seq<char>, CallstackErrorView>;

/// The view of an outcome of drawing.
pub open spec fn outcome_view(r: Result<String, CallstackError>) -> Result<
    Seq<char>,
    CallstackErrorView,
> {
    match r {
        Ok(s) => Ok(s@),
        Err(e) => Err(e@),
    }
}

/// The drawing of the call stacks of a trace: that of the groups under
/// their root; none where that text is nested deeper than `MAX_NESTING`.
pub open spec fn drawing_of(blocks: Seq<BlockView>) -> Result<Seq<char>, CallstackErrorView> {
    if nesting(rooted(lisp_of(blocks))) > MAX_NESTING {
        Err(CallstackErrorView::TooDeep)
    } else {
        prettified(rooted(lisp_of(blocks)))
    }
}

/// Calls `ruut::prettify` on `text`, read as a tree in parenthesised form.
/// The outcome is a function of the text alone and is given the name
/// `prettified`; nothing else is claimed of it. Parser and renderer descend
/// once for each level of nesting, so only a text of bounded nesting is
/// handed in.
#[verifier::external_body]
fn prettify(text: String) -> (r: Result<String, CallstackError>)
    requires
        nesting(text@) <= MAX_NESTING,
    ensures
        outcome_view(r) == prettified(text@),
{
    let format = ruut::InputFormat::Parens;
    match ruut::prettify(text, format, "unused".to_string(), "unused".to_string(), None) {
        Ok(drawing) => Ok(drawing),
        Err(ruut::Error::EmptyInputError) => Err(CallstackError::EmptyInput),
        Err(ruut::Error::MissingPropError) => Err(CallstackError::MissingProp),
        Err(ruut::Error::MultipleRootsError) => Err(CallstackError::MultipleRoots),
        Err(ruut::Error::FormatSpecificError(m)) => Err(CallstackError::FormatSpecific(m)),
    }
}

fn push_closing(out: &mut String, n: usize)
    ensures
        final(out)@ == old(out)@ + closing(n as nat),
{
    let mut i: usize = 0;
    proof {
        reveal_strlit(")");
    }
    while i < n
        invariant
            i <= n,
            out@ == old(out)@ + closing(i as nat),
            ")"@ == seq![')'],
        decreases n - i,
    {
        out.append(")");
        i += 1;
    }
}

/// The text of the call stacks and the most groups open at once.
fn render(blocks: &Vec<BasicBlock>) -> (r: String)
    ensures
        r@ == lisp_of(blocks.deep_view()),
{
    if blocks.len() == 0 {
        return String::from_str("()");
    }
    let ghost all = blocks.deep_view();
    let mut text = String::new();
    let mut open: usize = 0;
    let mut i: usize = 0;
    while i < blocks.len()
        invariant
            i <= blocks.len(),
            all == blocks.deep_view(),
            open <= i,
            (text@, open as nat) == lisp_prefix(all, i as nat),
        decreases blocks.len() - i,
    {
        assert(all[i as int] == blocks[i as int]@);
        if i > 0 {
            assert(all[i - 1] == blocks[i - 1]@);
            if blocks[i].asid() != blocks[i - 1].asid() {
                push_closing(&mut text, open);
                open = 0;
            }
        }
        match blocks[i].branch() {
            Some(branch) => match branch {
                Branch::DirectCall { .. } | Branch::IndirectCall { .. } => {
                    text.append("(");
                    text.append(branch.to_text().as_str());
                    open += 1;
                },
                Branch::Return { .. } => {
                    if open > 0 {
                        text.append(")");
                        open -= 1;
                    }
                },
                _ => {},
            },
            None => {},
        }
        i += 1;
    }
    push_closing(&mut text, open);
    text
}

/// List of basic blocks -> call stacks as a Lisp-like string.
pub fn to_lisp(bb_list: &BasicBlockList) -> (r: String)
    ensures
        r@ == lisp_of(bb_list@),
{
    render(bb_list.blocks())
}

/// How deep `text` is nested.
pub fn nesting_of(text: &str) -> (r: usize)
    ensures
        r == nesting(text@),
{
    let bytes = text.as_bytes();
    let mut opened: usize = 0;
    let mut closed: usize = 0;
    let mut most: usize = 0;
    let mut i: usize = 0;
    while i < bytes.len()
        invariant
            i <= bytes.len(),
            bytes@ == vstd::utf8::encode_utf8(text@),
            opened <= i,
            closed <= i,
            most <= i,
            opened - closed == excess(bytes@, i as nat),
            most == deepest(bytes@, i as nat),
        decreases bytes.len() - i,
    {
        if bytes[i] == 0x28 {
            opened += 1;
        } else if bytes[i] == 0x29 {
            closed += 1;
        }
        i += 1;
        if opened > closed && opened - closed > most {
            most = opened - closed;
        }
    }
    most
}

/// The call stacks of a trace, drawn as a tree under the root `callstack`.
/// A text nested deeper than `MAX_NESTING` is not drawn.
pub fn fmt_callstack(bb_list: &BasicBlockList) -> (r: Result<String, CallstackError>)
    ensures
        outcome_view(r) == drawing_of(bb_list@),
{
    let mut text = String::from_str("callstack");
    text.append(render(bb_list.blocks()).as_str());
    if nesting_of(text.as_str()) > MAX_NESTING {
        return Err(CallstackError::TooDeep);
    }
    prettify(text)
}

} // verus!
