//! The typing discipline of the intermediate representation, and the test
//! whether a module obeys it.
//!
//! Lowering does not look at types, so what it emits for an ill-typed
//! program is ill-typed too.  A module is handed to a backend only after it
//! has passed this test.
use vstd::prelude::*;
use crate::data_type::DataType;
use crate::ir::{
    Block, FunctionIr, FunctionIrView, Instruction, InstructionView, IrType, ModuleIr, Operand,
    OperandView, FunctionType, FunctionTypeView,
};
use crate::views::views;

verus! {

/// The type of an operand inside a function with the given parameters,
/// where `results` are the types of what the instructions before it yield.
/// An operand that refers to an argument or an instruction that is not
/// there has none.
pub open spec fn operand_type(
    v: OperandView,
    parameters: Seq<IrType>,
    results: Seq<IrType>,
) -> Option<IrType> {
    match v {
        OperandView::ConstInt(_) => Some(IrType::Scalar(DataType::Integer)),
        OperandView::ConstFloat(_) => Some(IrType::Scalar(DataType::Float)),
        OperandView::Argument(i) => if i < parameters.len() {
            Some(parameters[i as int])
        } else {
            None
        },
        OperandView::Instruction(i) => if i < results.len() {
            Some(results[i as int])
        } else {
            None
        },
    }
}

/// Whether the first `count` actual arguments have the types of the
/// corresponding formals.
pub open spec fn arguments_match(
    arguments: Seq<OperandView>,
    expected: Seq<IrType>,
    parameters: Seq<IrType>,
    results: Seq<IrType>,
    count: nat,
) -> bool {
    forall|k: int|
        0 <= k < count ==> operand_type(#[trigger] arguments[k], parameters, results) == Some(
            expected[k],
        )
}

/// The type of what an instruction yields, `Void` where it yields nothing;
/// `None` where the instruction is ill-typed.
///
/// A slot holds a scalar.  A load reads through a pointer; a store writes a
/// scalar through a pointer to its kind.  Arithmetic takes two scalars of
/// one kind.  A call passes as many arguments as the callee has parameters,
/// each of its parameter's type.  A return gives a value of the function's
/// return type, or none in a function that returns nothing.
pub open spec fn instruction_type(
    i: InstructionView,
    functions: Seq<FunctionIrView>,
    own: FunctionTypeView,
    results: Seq<IrType>,
) -> Option<IrType> {
    match i {
        InstructionView::Alloca(ty) => match ty {
            IrType::Scalar(dt) => Some(IrType::Pointer(dt)),
            _ => None,
        },
        InstructionView::Load(location) => match operand_type(location, own.parameters, results) {
            Some(IrType::Pointer(dt)) => Some(IrType::Scalar(dt)),
            _ => None,
        },
        InstructionView::Store { value, location } => match operand_type(
            location,
            own.parameters,
            results,
        ) {
            Some(IrType::Pointer(dt)) => if operand_type(value, own.parameters, results) == Some(
                IrType::Scalar(dt),
            ) {
                Some(IrType::Void)
            } else {
                None
            },
            _ => None,
        },
        InstructionView::Arithmetic(_, left, right) => match operand_type(
            left,
            own.parameters,
            results,
        ) {
            Some(IrType::Scalar(dt)) => if operand_type(right, own.parameters, results) == Some(
                IrType::Scalar(dt),
            ) {
                Some(IrType::Scalar(dt))
            } else {
                None
            },
            _ => None,
        },
        InstructionView::Call { function, arguments } => if function < functions.len() && {
            let callee = functions[function as int].signature;
            &&& arguments.len() == callee.parameters.len()
            &&& arguments_match(
                arguments,
                callee.parameters,
                own.parameters,
                results,
                arguments.len(),
            )
        } {
            Some(functions[function as int].signature.return_type)
        } else {
            None
        },
        InstructionView::Return(None) => if own.return_type == IrType::Void {
            Some(IrType::Void)
        } else {
            None
        },
        InstructionView::Return(Some(value)) => if own.return_type != IrType::Void && operand_type(
            value,
            own.parameters,
            results,
        ) == Some(own.return_type) {
            Some(IrType::Void)
        } else {
            None
        },
    }
}

/// The types of what the first `count` instructions of a block yield, if
/// all of them are well-typed.
pub open spec fn block_types(
    code: Seq<InstructionView>,
    functions: Seq<FunctionIrView>,
    own: FunctionTypeView,
    count: nat,
) -> Option<Seq<IrType>>
    decreases count,
{
    if count == 0 || count > code.len() {
        Some(Seq::empty())
    } else {
        match block_types(code, functions, own, (count - 1) as nat) {
            None => None,
            Some(results) => match instruction_type(code[count - 1], functions, own, results) {
                None => None,
                Some(ty) => Some(results.push(ty)),
            },
        }
    }
}

/// Whether the first `count` instructions hold one terminator, as the last
/// of them, if `count` is the length of the block, and none otherwise.
pub open spec fn terminated_at_end(code: Seq<InstructionView>, count: nat) -> bool {
    forall|i: int|
        0 <= i < count && i < code.len() ==> ((#[trigger] code[i]).is_terminator() <==> i
            == code.len() - 1)
}

/// A block is well-formed if every instruction is well-typed and the only
/// terminator is its last instruction.
pub open spec fn block_ok(
    code: Seq<InstructionView>,
    functions: Seq<FunctionIrView>,
    own: FunctionTypeView,
) -> bool {
    &&& code.len() > 0
    &&& terminated_at_end(code, code.len())
    &&& block_types(code, functions, own, code.len()) is Some
}

/// A signature is well-formed if no parameter is of the void type.
pub open spec fn signature_ok(s: FunctionTypeView) -> bool {
    forall|k: int| 0 <= k < s.parameters.len() ==> #[trigger] s.parameters[k] != IrType::Void
}

/// A module is well-formed if every signature and every block is.
pub open spec fn module_ok(functions: Seq<FunctionIrView>) -> bool {
    forall|h: int|
        0 <= h < functions.len() ==> {
            &&& signature_ok((#[trigger] functions[h]).signature)
            &&& forall|b: int|
                0 <= b < functions[h].blocks.len() ==> block_ok(
                    #[trigger] functions[h].blocks[b],
                    functions,
                    functions[h].signature,
                )
        }
}

/// Whether an operand refers to what is there: an argument of a function
/// with `arity` parameters, or one of the `position` instructions before.
pub open spec fn operand_in_range(v: OperandView, arity: nat, position: nat) -> bool {
    match v {
        OperandView::Argument(i) => i < arity,
        OperandView::Instruction(i) => i < position,
        _ => true,
    }
}

/// Whether an instruction can be replayed at `position` of a block, in a
/// function with `arity` parameters, of a module with `callables` functions.
pub open spec fn replayable(i: InstructionView, arity: nat, position: nat, callables: nat) -> bool {
    match i {
        InstructionView::Alloca(ty) => ty is Scalar,
        InstructionView::Load(location) => operand_in_range(location, arity, position),
        InstructionView::Store { value, location } => operand_in_range(value, arity, position)
            && operand_in_range(location, arity, position),
        InstructionView::Arithmetic(_, left, right) => operand_in_range(left, arity, position)
            && operand_in_range(right, arity, position),
        InstructionView::Call { function, arguments } => function < callables && forall|k: int|
            0 <= k < arguments.len() ==> operand_in_range(#[trigger] arguments[k], arity, position),
        InstructionView::Return(None) => true,
        InstructionView::Return(Some(value)) => operand_in_range(value, arity, position),
    }
}

/// A well-typed instruction can be replayed.
pub proof fn lemma_well_typed_is_replayable(
    i: InstructionView,
    functions: Seq<FunctionIrView>,
    own: FunctionTypeView,
    results: Seq<IrType>,
)
    requires
        instruction_type(i, functions, own, results) is Some,
    ensures
        replayable(i, own.parameters.len(), results.len(), functions.len()),
{
    match i {
        InstructionView::Call { function, arguments } => {
            assert forall|k: int| 0 <= k < arguments.len() implies operand_in_range(
                #[trigger] arguments[k],
                own.parameters.len(),
                results.len(),
            ) by {
                assert(operand_type(arguments[k], own.parameters, results) is Some);
            }
        },
        _ => {},
    }
}

/// In a well-typed block every prefix is well-typed, and yields one type
/// for each of its instructions.
pub proof fn lemma_block_prefix_types(
    code: Seq<InstructionView>,
    functions: Seq<FunctionIrView>,
    own: FunctionTypeView,
    shorter: nat,
    count: nat,
)
    requires
        shorter <= count <= code.len(),
        block_types(code, functions, own, count) is Some,
    ensures
        block_types(code, functions, own, shorter) is Some,
        block_types(code, functions, own, shorter)->0.len() == shorter,
    decreases count,
{
    if shorter < count {
        lemma_block_prefix_types(code, functions, own, shorter, (count - 1) as nat);
    } else {
        if count > 0 {
            lemma_block_prefix_types(
                code,
                functions,
                own,
                (count - 1) as nat,
                (count - 1) as nat,
            );
        }
    }
}

/// The type of an operand, if what it refers to is there.
pub fn type_of_operand(v: Operand, parameters: &Vec<IrType>, results: &Vec<IrType>) -> (r: Option<
    IrType,
>)
    ensures
        r == operand_type(v@, parameters@, results@),
{
    match v {
        Operand::ConstInt(_) => Some(IrType::Scalar(DataType::Integer)),
        Operand::ConstFloat(_) => Some(IrType::Scalar(DataType::Float)),
        Operand::Argument(i) => if i < parameters.len() {
            Some(parameters[i])
        } else {
            None
        },
        Operand::Instruction(i) => if i < results.len() {
            Some(results[i])
        } else {
            None
        },
    }
}

/// Whether an operand is there and has the expected type.
fn operand_has_type(
    v: Operand,
    expected: IrType,
    parameters: &Vec<IrType>,
    results: &Vec<IrType>,
) -> (r: bool)
    ensures
        r == (operand_type(v@, parameters@, results@) == Some(expected)),
{
    match type_of_operand(v, parameters, results) {
        Some(ty) => ty == expected,
        None => false,
    }
}

/// The type of what an instruction yields, if the instruction is well-typed.
#[verifier::loop_isolation(false)]
pub fn type_of_instruction(
    i: &Instruction,
    module: &ModuleIr,
    own: &FunctionType,
    results: &Vec<IrType>,
) -> (r: Option<IrType>)
    ensures
        r == instruction_type(i@, module@, own@, results@),
{
    let parameters = &own.parameters;
    match i {
        Instruction::Alloca(ty) => match ty {
            IrType::Scalar(dt) => Some(IrType::Pointer(*dt)),
            _ => None,
        },
        Instruction::Load(location) => match type_of_operand(*location, parameters, results) {
            Some(IrType::Pointer(dt)) => Some(IrType::Scalar(dt)),
            _ => None,
        },
        Instruction::Store { value, location } => match type_of_operand(
            *location,
            parameters,
            results,
        ) {
            Some(IrType::Pointer(dt)) => if operand_has_type(
                *value,
                IrType::Scalar(dt),
                parameters,
                results,
            ) {
                Some(IrType::Void)
            } else {
                None
            },
            _ => None,
        },
        Instruction::Arithmetic(_, left, right) => match type_of_operand(
            *left,
            parameters,
            results,
        ) {
            Some(IrType::Scalar(dt)) => if operand_has_type(
                *right,
                IrType::Scalar(dt),
                parameters,
                results,
            ) {
                Some(IrType::Scalar(dt))
            } else {
                None
            },
            _ => None,
        },
        Instruction::Call { function, arguments } => {
            if *function >= module.functions.len() {
                return None;
            }
            let callee = &module.functions[*function].signature;
            if arguments.len() != callee.parameters.len() {
                return None;
            }
            let mut k: usize = 0;
            while k < arguments.len()
                invariant
                    k <= arguments.len(),
                    arguments.len() == callee.parameters.len(),
                    parameters == &own.parameters,
                    arguments_match(
                        views(arguments@),
                        callee.parameters@,
                        parameters@,
                        results@,
                        k as nat,
                    ),
                decreases arguments.len() - k,
            {
                if !operand_has_type(arguments[k], callee.parameters[k], parameters, results) {
                    assert(operand_type(views(arguments@)[k as int], parameters@, results@)
                        != Some(callee.parameters@[k as int]));
                    assert(module@[*function as int].signature == callee@);
                    return None;
                }
                k += 1;
            }
            Some(callee.return_type)
        },
        Instruction::Return(None) => if own.return_type == IrType::Void {
            Some(IrType::Void)
        } else {
            None
        },
        Instruction::Return(Some(value)) => if own.return_type != IrType::Void && operand_has_type(
            *value,
            own.return_type,
            parameters,
            results,
        ) {
            Some(IrType::Void)
        } else {
            None
        },
    }
}

/// Whether a block is well-formed inside a function of signature `own`.
pub fn check_block(block: &Block, module: &ModuleIr, own: &FunctionType) -> (r: bool)
    ensures
        r == block_ok(block@, module@, own@),
{
    let n = block.instructions.len();
    if n == 0 {
        return false;
    }
    let mut results: Vec<IrType> = Vec::new();
    let mut j: usize = 0;
    while j < n
        invariant
            j <= n,
            n == block.instructions.len(),
            n == block@.len(),
            terminated_at_end(block@, j as nat),
            block_types(block@, module@, own@, j as nat) == Some(results@),
            results@.len() == j,
        decreases n - j,
    {
        let i = &block.instructions[j];
        let is_return = match i {
            Instruction::Return(_) => true,
            _ => false,
        };
        assert(is_return == block@[j as int].is_terminator());
        if is_return != (j == n - 1) {
            return false;
        }
        match type_of_instruction(i, module, own, &results) {
            None => {
                proof {
                    lemma_ill_typed_prefix(block@, module@, own@, (j + 1) as nat, n as nat);
                }
                return false;
            },
            Some(ty) => {
                results.push(ty);
            },
        }
        j += 1;
    }
    true
}

/// A block with an ill-typed prefix is ill-typed.
pub proof fn lemma_ill_typed_prefix(
    code: Seq<InstructionView>,
    functions: Seq<FunctionIrView>,
    own: FunctionTypeView,
    failed: nat,
    count: nat,
)
    requires
        failed <= count <= code.len(),
        block_types(code, functions, own, failed) is None,
    ensures
        block_types(code, functions, own, count) is None,
    decreases count,
{
    if failed < count {
        lemma_ill_typed_prefix(code, functions, own, failed, (count - 1) as nat);
    }
}

/// Whether no parameter of a signature is of the void type.
pub fn check_signature(s: &FunctionType) -> (r: bool)
    ensures
        r == signature_ok(s@),
{
    let mut k: usize = 0;
    while k < s.parameters.len()
        invariant
            k <= s.parameters.len(),
            forall|x: int| 0 <= x < k ==> #[trigger] s@.parameters[x] != IrType::Void,
        decreases s.parameters.len() - k,
    {
        if s.parameters[k] == IrType::Void {
            return false;
        }
        k += 1;
    }
    true
}

/// Whether every block of a function is well-formed.
fn check_function(f: &FunctionIr, module: &ModuleIr) -> (r: bool)
    ensures
        r == (signature_ok(f@.signature) && forall|b: int|
            0 <= b < f@.blocks.len() ==> block_ok(#[trigger] f@.blocks[b], module@, f@.signature)),
{
    if !check_signature(&f.signature) {
        return false;
    }
    let mut b: usize = 0;
    while b < f.blocks.len()
        invariant
            b <= f.blocks.len(),
            forall|x: int|
                0 <= x < b ==> block_ok(#[trigger] f@.blocks[x], module@, f@.signature),
        decreases f.blocks.len() - b,
    {
        if !check_block(&f.blocks[b], module, &f.signature) {
            assert(!block_ok(f@.blocks[b as int], module@, f@.signature));
            return false;
        }
        b += 1;
    }
    true
}

impl ModuleIr {
    /// Whether every signature and every block of the module is well-formed.
    pub fn is_well_formed(&self) -> (r: bool)
        ensures
            r == module_ok(self@),
    {
        let mut h: usize = 0;
        while h < self.functions.len()
            invariant
                h <= self.functions.len(),
                forall|x: int|
                    0 <= x < h ==> {
                        &&& signature_ok((#[trigger] self@[x]).signature)
                        &&& forall|b: int|
                            0 <= b < self@[x].blocks.len() ==> block_ok(
                                #[trigger] self@[x].blocks[b],
                                self@,
                                self@[x].signature,
                            )
                    },
            decreases self.functions.len() - h,
        {
            if !check_function(&self.functions[h], self) {
                assert(self@[h as int] == self.functions[h as int]@);
                return false;
            }
            assert(self@[h as int] == self.functions[h as int]@);
            h += 1;
        }
        true
    }
}

} // verus!
