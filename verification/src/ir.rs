use vstd::prelude::*;
use crate::data_type::DataType;
use crate::views::{lemma_views_empty, lemma_views_push, views};

verus! {

/// A type of the target representation.
#[derive(Clone, Copy, Debug, PartialEq, Eq, Structural)]
pub enum IrType {
    /// The type of a subprogram that returns nothing.
    Void,
    /// A register that holds one scalar: a 32-bit signed integer or a
    /// 32-bit floating-point number.
    Scalar(DataType),
    /// The address of a slot that holds one scalar.
    Pointer(DataType),
}

/// The signature of a callable.
#[derive(Clone, Debug, PartialEq, Eq)]
pub struct FunctionType {
    pub return_type: IrType,
    pub parameters: Vec<IrType>,
}

/// The mathematical content of a [`FunctionType`].
pub struct FunctionTypeView {
    pub return_type: IrType,
    pub parameters: Seq<IrType>,
}

impl View for FunctionType {
    type V = FunctionTypeView;

    open spec fn view(&self) -> FunctionTypeView {
        FunctionTypeView { return_type: self.return_type, parameters: self.parameters@ }
    }
}

/// The four arithmetic instructions.
#[derive(Clone, Copy, Debug, PartialEq, Eq, Structural)]
pub enum ArithmeticOp {
    Add,
    Sub,
    Mul,
    Div,
}

/// An operand of an instruction.
#[derive(Clone, Copy, Debug, PartialEq, Eq, Structural)]
pub enum Operand {
    /// An integer constant.
    ConstInt(i32),
    /// A floating-point constant, by the bits of its encoding.
    ConstFloat(u32),
    /// The incoming argument at this position of the enclosing function.
    Argument(usize),
    /// What the instruction at this position of the enclosing block yields.
    Instruction(usize),
}

/// The mathematical content of a [`Operand`].
pub enum OperandView {
    ConstInt(i32),
    ConstFloat(u32),
    Argument(nat),
    Instruction(nat),
}

impl View for Operand {
    type V = OperandView;

    open spec fn view(&self) -> OperandView {
        match *self {
            Operand::ConstInt(x) => OperandView::ConstInt(x),
            Operand::ConstFloat(bits) => OperandView::ConstFloat(bits),
            Operand::Argument(i) => OperandView::Argument(i as nat),
            Operand::Instruction(i) => OperandView::Instruction(i as nat),
        }
    }
}

/// One instruction of a basic block.
#[derive(Clone, Debug, PartialEq, Eq)]
pub enum Instruction {
    /// Reserve a zero-initialised stack slot for a value of the given type;
    /// yields the slot's address.
    Alloca(IrType),
    /// Read the slot at the given address; yields what it holds.
    Load(Operand),
    /// Write `value` to the slot at `location`.
    Store { value: Operand, location: Operand },
    /// Apply the operator to the two operands, left then right; yields the
    /// result.
    Arithmetic(ArithmeticOp, Operand, Operand),
    /// Call the function with the given handle; yields what it returns.
    Call { function: usize, arguments: Vec<Operand> },
    /// Leave the function, with a value or without one.  The only
    /// instruction that terminates a block.
    Return(Option<Operand>),
}

/// The mathematical content of an [`Instruction`].
pub enum InstructionView {
    Alloca(IrType),
    Load(OperandView),
    Store { value: OperandView, location: OperandView },
    Arithmetic(ArithmeticOp, OperandView, OperandView),
    Call { function: nat, arguments: Seq<OperandView> },
    Return(Option<OperandView>),
}

impl InstructionView {
    /// Whether the instruction ends its block.
    pub open spec fn is_terminator(self) -> bool {
        self is Return
    }
}

/// The view of an optional operand.
pub open spec fn option_view(v: Option<Operand>) -> Option<OperandView> {
    match v {
        Some(x) => Some(x@),
        None => None,
    }
}

impl View for Instruction {
    type V = InstructionView;

    open spec fn view(&self) -> InstructionView {
        match *self {
            Instruction::Alloca(ty) => InstructionView::Alloca(ty),
            Instruction::Load(location) => InstructionView::Load(location@),
            Instruction::Store { value, location } => InstructionView::Store {
                value: value@,
                location: location@,
            },
            Instruction::Arithmetic(op, left, right) => InstructionView::Arithmetic(
                op,
                left@,
                right@,
            ),
            Instruction::Call { function, arguments } => InstructionView::Call {
                function: function as nat,
                arguments: views(arguments@),
            },
            Instruction::Return(value) => InstructionView::Return(option_view(value)),
        }
    }
}

/// A straight-line run of instructions.
#[derive(Clone, Debug, PartialEq, Eq)]
pub struct Block {
    pub instructions: Vec<Instruction>,
}

impl View for Block {
    type V = Seq<InstructionView>;

    open spec fn view(&self) -> Seq<InstructionView> {
        views(self.instructions@)
    }
}

/// A callable of the module: declared only, while it has no block.
#[derive(Clone, Debug, PartialEq, Eq)]
pub struct FunctionIr {
    pub name: String,
    pub signature: FunctionType,
    pub blocks: Vec<Block>,
}

/// The mathematical content of a [`FunctionIr`].
pub struct FunctionIrView {
    pub name: Seq<char>,
    pub signature: FunctionTypeView,
    pub blocks: Seq<Seq<InstructionView>>,
}

impl View for FunctionIr {
    type V = FunctionIrView;

    open spec fn view(&self) -> FunctionIrView {
        FunctionIrView {
            name: self.name@,
            signature: self.signature@,
            blocks: views(self.blocks@),
        }
    }
}

/// Everything that was emitted for one compilation unit.  The handle of a
/// function is its position in `functions`.
#[derive(Clone, Debug, PartialEq, Eq)]
pub struct ModuleIr {
    pub functions: Vec<FunctionIr>,
}

impl View for ModuleIr {
    type V = Seq<FunctionIrView>;

    open spec fn view(&self) -> Seq<FunctionIrView> {
        views(self.functions@)
    }
}

/// The cursor that appends instructions to the block under construction.
pub struct BlockBuilder {
    instructions: Vec<Instruction>,
}

impl View for BlockBuilder {
    type V = Seq<InstructionView>;

    closed spec fn view(&self) -> Seq<InstructionView> {
        views(self.instructions@)
    }
}

impl BlockBuilder {
    /// A cursor at the start of an empty block.
    pub fn new() -> (r: BlockBuilder)
        ensures
            r@ == Seq::<InstructionView>::empty(),
    {
        proof {
            lemma_views_empty::<Instruction>();
        }
        BlockBuilder { instructions: Vec::new() }
    }

    /// The number of instructions emitted so far.
    pub fn position(&self) -> (n: usize)
        ensures
            n == self@.len(),
    {
        self.instructions.len()
    }

    /// Appends one instruction and yields the operand that names its result.
    fn emit(&mut self, instruction: Instruction) -> (v: Operand)
        ensures
            final(self)@ == old(self)@.push(instruction@),
            v@ == OperandView::Instruction(old(self)@.len()),
    {
        proof {
            lemma_views_push(self.instructions@, instruction);
        }
        let index = self.instructions.len();
        self.instructions.push(instruction);
        Operand::Instruction(index)
    }

    /// Reserves a stack slot; yields its address.
    pub fn build_alloca(&mut self, ty: IrType) -> (v: Operand)
        ensures
            final(self)@ == old(self)@.push(InstructionView::Alloca(ty)),
            v@ == OperandView::Instruction(old(self)@.len()),
    {
        self.emit(Instruction::Alloca(ty))
    }

    /// Reads the slot at `location`; yields what it holds.
    pub fn build_load(&mut self, location: Operand) -> (v: Operand)
        ensures
            final(self)@ == old(self)@.push(InstructionView::Load(location@)),
            v@ == OperandView::Instruction(old(self)@.len()),
    {
        self.emit(Instruction::Load(location))
    }

    /// Writes `value` to the slot at `location`.
    pub fn build_store(&mut self, value: Operand, location: Operand)
        ensures
            final(self)@ == old(self)@.push(
                InstructionView::Store { value: value@, location: location@ },
            ),
    {
        let _ = self.emit(Instruction::Store { value, location });
    }

    /// Applies `op` to the two operands; yields the result.
    pub fn build_arithmetic(&mut self, op: ArithmeticOp, left: Operand, right: Operand) -> (v: Operand)
        ensures
            final(self)@ == old(self)@.push(InstructionView::Arithmetic(op, left@, right@)),
            v@ == OperandView::Instruction(old(self)@.len()),
    {
        self.emit(Instruction::Arithmetic(op, left, right))
    }

    /// Calls the function with handle `function`; yields what it returns.
    pub fn build_call(&mut self, function: usize, arguments: Vec<Operand>) -> (v: Operand)
        ensures
            final(self)@ == old(self)@.push(
                InstructionView::Call { function: function as nat, arguments: views(arguments@) },
            ),
            v@ == OperandView::Instruction(old(self)@.len()),
    {
        self.emit(Instruction::Call { function, arguments })
    }

    /// Leaves the function, with `value` if one is given.
    pub fn build_ret(&mut self, value: Option<Operand>)
        ensures
            final(self)@ == old(self)@.push(InstructionView::Return(option_view(value))),
    {
        let _ = self.emit(Instruction::Return(value));
    }

    /// Closes the block and hands it over.
    pub fn finish(self) -> (block: Block)
        ensures
            block@ == self@,
    {
        Block { instructions: self.instructions }
    }
}

} // verus!
