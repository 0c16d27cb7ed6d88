//! The lifted form of a block as the detector reads it: blocks of
//! instructions, each an operation with an optional guest address. An
//! expression keeps what the detector asks of it: whether it is a single
//! scalar or a constant, and which scalars it mentions, left to right.

use vstd::prelude::*;

verus! {

/// A named variable of the intermediate representation.
#[derive(Debug, PartialEq, Eq)]
pub struct Scalar {
    pub name: String,
    pub bits: usize,
}

pub ghost struct ScalarView {
    pub name: Seq<char>,
    pub bits: usize,
}

impl View for Scalar {
    type V = ScalarView;

    open spec fn view(&self) -> ScalarView {
        ScalarView { name: self.name@, bits: self.bits }
    }
}

impl DeepView for Scalar {
    type V = ScalarView;

    open spec fn deep_view(&self) -> ScalarView {
        self@
    }
}

/// A value that an operation reads.
#[derive(Debug, PartialEq, Eq)]
pub enum Expression {
    /// A single scalar.
    Scalar(Scalar),
    /// A constant, with its value where that fits 64 bits.
    Constant(Option<u64>),
    /// Any operator applied to sub-expressions; the scalars they mention, in
    /// the order in which they are written.
    Compound(Vec<Scalar>),
}

pub ghost enum ExpressionView {
    Scalar(ScalarView),
    Constant(Option<u64>),
    Compound(Seq<ScalarView>),
}

impl View for Expression {
    type V = ExpressionView;

    open spec fn view(&self) -> ExpressionView {
        match *self {
            Expression::Scalar(s) => ExpressionView::Scalar(s@),
            Expression::Constant(c) => ExpressionView::Constant(c),
            Expression::Compound(v) => ExpressionView::Compound(v.deep_view()),
        }
    }
}

impl DeepView for Expression {
    type V = ExpressionView;

    open spec fn deep_view(&self) -> ExpressionView {
        self@
    }
}

impl ExpressionView {
    /// The scalars that the expression mentions, left to right.
    pub open spec fn scalars(self) -> Seq<ScalarView> {
        match self {
            ExpressionView::Scalar(s) => seq![s],
            ExpressionView::Constant(_) => Seq::empty(),
            ExpressionView::Compound(v) => v,
        }
    }
}

/// What an instruction does.
#[derive(Debug, PartialEq, Eq)]
pub enum Operation {
    Assign { dst: Scalar, src: Expression },
    Store { index: Expression, src: Expression },
    Load { dst: Scalar, index: Expression },
    Branch { target: Expression },
    /// An instruction that the representation cannot model; the scalars it
    /// reads and writes where they are known.
    Intrinsic { read: Option<Vec<Scalar>>, written: Option<Vec<Scalar>> },
    Nop,
}

pub ghost enum OperationView {
    Assign { dst: ScalarView, src: ExpressionView },
    Store { index: ExpressionView, src: ExpressionView },
    Load { dst: ScalarView, index: ExpressionView },
    Branch { target: ExpressionView },
    Intrinsic { read: Option<Seq<ScalarView>>, written: Option<Seq<ScalarView>> },
    Nop,
}

impl View for Operation {
    type V = OperationView;

    open spec fn view(&self) -> OperationView {
        match *self {
            Operation::Assign { dst, src } => OperationView::Assign { dst: dst@, src: src@ },
            Operation::Store { index, src } => OperationView::Store { index: index@, src: src@ },
            Operation::Load { dst, index } => OperationView::Load { dst: dst@, index: index@ },
            Operation::Branch { target } => OperationView::Branch { target: target@ },
            Operation::Intrinsic { read, written } => OperationView::Intrinsic {
                read: read.deep_view(),
                written: written.deep_view(),
            },
            Operation::Nop => OperationView::Nop,
        }
    }
}

impl OperationView {
    /// The scalars read, where they are known: those of the source of an
    /// assignment, of the address and then the source of a store, of the
    /// address of a load, of the target of a branch.
    pub open spec fn scalars_read(self) -> Option<Seq<ScalarView>> {
        match self {
            OperationView::Assign { src, .. } => Some(src.scalars()),
            OperationView::Store { index, src } => Some(index.scalars() + src.scalars()),
            OperationView::Load { index, .. } => Some(index.scalars()),
            OperationView::Branch { target } => Some(target.scalars()),
            OperationView::Intrinsic { read, .. } => read,
            OperationView::Nop => Some(Seq::empty()),
        }
    }

    /// The scalars written, where they are known: the destination of an
    /// assignment or a load.
    pub open spec fn scalars_written(self) -> Option<Seq<ScalarView>> {
        match self {
            OperationView::Assign { dst, .. } => Some(seq![dst]),
            OperationView::Load { dst, .. } => Some(seq![dst]),
            OperationView::Store { .. } => Some(Seq::empty()),
            OperationView::Branch { .. } => Some(Seq::empty()),
            OperationView::Intrinsic { written, .. } => written,
            OperationView::Nop => Some(Seq::empty()),
        }
    }

    /// Whether the operation is known to read `reg`.
    pub open spec fn reads(self, reg: ScalarView) -> bool {
        self.scalars_read() matches Some(regs) && regs.contains(reg)
    }

    /// Whether the operation is known to write `reg`.
    pub open spec fn writes(self, reg: ScalarView) -> bool {
        self.scalars_written() matches Some(regs) && regs.contains(reg)
    }
}

/// An operation and the guest address it was lifted from, if any.
#[derive(Debug, PartialEq, Eq)]
pub struct Instruction {
    pub operation: Operation,
    pub address: Option<u64>,
}

pub ghost struct InstructionView {
    pub operation: OperationView,
    pub address: Option<u64>,
}

impl View for Instruction {
    type V = InstructionView;

    open spec fn view(&self) -> InstructionView {
        InstructionView { operation: self.operation@, address: self.address }
    }
}

impl DeepView for Instruction {
    type V = InstructionView;

    open spec fn deep_view(&self) -> InstructionView {
        self@
    }
}

/// A straight run of instructions.
#[derive(Debug, PartialEq, Eq)]
pub struct Block {
    pub instructions: Vec<Instruction>,
}

impl View for Block {
    type V = Seq<InstructionView>;

    open spec fn view(&self) -> Seq<InstructionView> {
        self.instructions.deep_view()
    }
}

impl DeepView for Block {
    type V = Seq<InstructionView>;

    open spec fn deep_view(&self) -> Seq<InstructionView> {
        self@
    }
}

/// The lifted form of one guest basic block: its blocks in the lifter's order.
#[derive(Debug, PartialEq, Eq)]
pub struct ControlFlowGraph {
    pub blocks: Vec<Block>,
}

impl View for ControlFlowGraph {
    type V = Seq<Seq<InstructionView>>;

    open spec fn view(&self) -> Seq<Seq<InstructionView>> {
        self.blocks.deep_view()
    }
}

impl DeepView for ControlFlowGraph {
    type V = Seq<Seq<InstructionView>>;

    open spec fn deep_view(&self) -> Seq<Seq<InstructionView>> {
        self@
    }
}

impl Scalar {
    /// A scalar with a copy of `name`.
    pub fn new(name: &str, bits: usize) -> (r: Scalar)
        ensures
            r@ == (ScalarView { name: name@, bits }),
    {
        Scalar { name: String::from_str(name), bits }
    }

    /// Whether two scalars have the same name and width.
    pub fn same(&self, other: &Scalar) -> (r: bool)
        ensures
            r == (self@ == other@),
    {
        let names = self.name == other.name;
        names && self.bits == other.bits
    }
}

/// Whether `reg` occurs in `regs`.
pub fn contains_scalar(regs: &Vec<Scalar>, reg: &Scalar) -> (r: bool)
    ensures
        r == regs.deep_view().contains(reg@),
{
    let mut i: usize = 0;
    while i < regs.len()
        invariant
            i <= regs.len(),
            forall|j: int| 0 <= j < i ==> #[trigger] regs.deep_view()[j] != reg@,
        decreases regs.len() - i,
    {
        if regs[i].same(reg) {
            assert(regs.deep_view()[i as int] == reg@);
            return true;
        }
        i += 1;
    }
    false
}

impl Expression {
    /// Whether the expression mentions `reg`.
    pub fn mentions(&self, reg: &Scalar) -> (r: bool)
        ensures
            r == self@.scalars().contains(reg@),
    {
        match self {
            Expression::Scalar(s) => {
                let r = s.same(reg);
                assert(seq![s@][0] == s@);
                r
            },
            Expression::Constant(_) => false,
            Expression::Compound(v) => contains_scalar(v, reg),
        }
    }

    /// The first scalar that the expression mentions.
    pub fn first_scalar(&self) -> (r: Option<&Scalar>)
        ensures
            r is Some <==> self@.scalars().len() > 0,
            r matches Some(s) ==> s@ == self@.scalars()[0],
    {
        match self {
            Expression::Scalar(s) => Some(s),
            Expression::Constant(_) => None,
            Expression::Compound(v) => {
                if v.len() > 0 {
                    Some(&v[0])
                } else {
                    None
                }
            },
        }
    }
}

impl Instruction {
    /// Whether the instruction is known to read `reg`.
    pub fn reads(&self, reg: &Scalar) -> (r: bool)
        ensures
            r == self@.operation.reads(reg@),
    {
        match &self.operation {
            Operation::Assign { src, .. } => src.mentions(reg),
            Operation::Store { index, src } => {
                let a = index.mentions(reg);
                let b = src.mentions(reg);
                proof {
                    let x = index@.scalars();
                    let y = src@.scalars();
                    if a {
                        let k = choose|k: int| 0 <= k < x.len() && x[k] == reg@;
                        assert((x + y)[k] == reg@);
                    }
                    if b {
                        let k = choose|k: int| 0 <= k < y.len() && y[k] == reg@;
                        assert((x + y)[x.len() + k] == reg@);
                    }
                }
                a || b
            },
            Operation::Load { index, .. } => index.mentions(reg),
            Operation::Branch { target } => target.mentions(reg),
            Operation::Intrinsic { read, .. } => match read {
                Some(regs) => contains_scalar(regs, reg),
                None => false,
            },
            Operation::Nop => false,
        }
    }

    /// Whether the instruction is known to write `reg`.
    pub fn writes(&self, reg: &Scalar) -> (r: bool)
        ensures
            r == self@.operation.writes(reg@),
    {
        match &self.operation {
            Operation::Assign { dst, .. } => {
                let r = dst.same(reg);
                assert(seq![dst@][0] == dst@);
                r
            },
            Operation::Load { dst, .. } => {
                let r = dst.same(reg);
                assert(seq![dst@][0] == dst@);
                r
            },
            Operation::Store { .. } => false,
            Operation::Branch { .. } => false,
            Operation::Intrinsic { written, .. } => match written {
                Some(regs) => contains_scalar(regs, reg),
                None => false,
            },
            Operation::Nop => false,
        }
    }

    /// Whether the instruction loads from memory.
    pub fn is_load(&self) -> (r: bool)
        ensures
            r == (self@.operation is Load),
    {
        match &self.operation {
            Operation::Load { .. } => true,
            _ => false,
        }
    }

    /// Whether the instruction stores to memory.
    pub fn is_store(&self) -> (r: bool)
        ensures
            r == (self@.operation is Store),
    {
        match &self.operation {
            Operation::Store { .. } => true,
            _ => false,
        }
    }
}

/// A copy of each of `regs`.
fn clone_scalars(regs: &Vec<Scalar>) -> (r: Vec<Scalar>)
    ensures
        r.deep_view() == regs.deep_view(),
{
    let mut copy: Vec<Scalar> = Vec::new();
    let mut i: usize = 0;
    while i < regs.len()
        invariant
            i <= regs.len(),
            copy.deep_view() == regs.deep_view().take(i as int),
        decreases regs.len() - i,
    {
        let ghost before = copy.deep_view();
        copy.push(regs[i].clone());
        assert(copy.deep_view() =~= before.push(regs[i as int]@));
        assert(regs.deep_view().take(i + 1) =~= regs.deep_view().take(i as int).push(
            regs[i as int]@,
        ));
        i += 1;
    }
    assert(regs.deep_view().take(regs.len() as int) =~= regs.deep_view());
    copy
}

fn clone_known_scalars(regs: &Option<Vec<Scalar>>) -> (r: Option<Vec<Scalar>>)
    ensures
        r.deep_view() == regs.deep_view(),
{
    match regs {
        Some(regs) => Some(clone_scalars(regs)),
        None => None,
    }
}

impl Clone for Scalar {
    fn clone(&self) -> (r: Self)
        ensures
            r@ == self@,
    {
        Scalar { name: self.name.clone(), bits: self.bits }
    }
}

impl Clone for Expression {
    fn clone(&self) -> (r: Self)
        ensures
            r@ == self@,
    {
        match self {
            Expression::Scalar(s) => Expression::Scalar(s.clone()),
            Expression::Constant(c) => Expression::Constant(*c),
            Expression::Compound(v) => Expression::Compound(clone_scalars(v)),
        }
    }
}

impl Clone for Operation {
    fn clone(&self) -> (r: Self)
        ensures
            r@ == self@,
    {
        match self {
            Operation::Assign { dst, src } => Operation::Assign {
                dst: dst.clone(),
                src: src.clone(),
            },
            Operation::Store { index, src } => Operation::Store {
                index: index.clone(),
                src: src.clone(),
            },
            Operation::Load { dst, index } => Operation::Load {
                dst: dst.clone(),
                index: index.clone(),
            },
            Operation::Branch { target } => Operation::Branch { target: target.clone() },
            Operation::Intrinsic { read, written } => Operation::Intrinsic {
                read: clone_known_scalars(read),
                written: clone_known_scalars(written),
            },
            Operation::Nop => Operation::Nop,
        }
    }
}

impl Clone for Instruction {
    fn clone(&self) -> (r: Self)
        ensures
            r@ == self@,
    {
        Instruction { operation: self.operation.clone(), address: self.address }
    }
}

impl Clone for Block {
    fn clone(&self) -> (r: Self)
        ensures
            r@ == self@,
    {
        let mut copy: Vec<Instruction> = Vec::new();
        let mut i: usize = 0;
        while i < self.instructions.len()
            invariant
                i <= self.instructions.len(),
                copy.deep_view() == self@.take(i as int),
            decreases self.instructions.len() - i,
        {
            let ghost before = copy.deep_view();
            copy.push(self.instructions[i].clone());
            assert(copy.deep_view() =~= before.push(self.instructions[i as int]@));
            assert(self@.take(i + 1) =~= self@.take(i as int).push(self.instructions[i as int]@));
            i += 1;
        }
        assert(self@.take(self.instructions.len() as int) =~= self@);
        Block { instructions: copy }
    }
}

impl Clone for ControlFlowGraph {
    fn clone(&self) -> (r: Self)
        ensures
            r@ == self@,
    {
        let mut copy: Vec<Block> = Vec::new();
        let mut i: usize = 0;
        while i < self.blocks.len()
            invariant
                i <= self.blocks.len(),
                copy.deep_view() == self@.take(i as int),
            decreases self.blocks.len() - i,
        {
            let ghost before = copy.deep_view();
            copy.push(self.blocks[i].clone());
            assert(copy.deep_view() =~= before.push(self.blocks[i as int]@));
            assert(self@.take(i + 1) =~= self@.take(i as int).push(self.blocks[i as int]@));
            i += 1;
        }
        assert(self@.take(self.blocks.len() as int) =~= self@);
        ControlFlowGraph { blocks: copy }
    }
}

} // verus!
