//! Emission of a module into LLVM.
//!
//! A module is emitted only if it is well-formed ([`crate::typing`]).  It is
//! then replayed instruction by instruction through LLVM's builder.  LLVM's
//! entities are opaque here.  What is proved is what LLVM is handed: names
//! without a NUL character, arguments that a function has, operands that
//! were built before, and instructions that are well-typed.  Nothing is
//! claimed of what LLVM builds from them.
//!
//! The safe interface to LLVM offers no way to make a pointer type, so the
//! embedding program makes the types that [`Target`] holds.
use vstd::prelude::*;
use crate::data_type::DataType;
use crate::ir::{
    ArithmeticOp, Block, FunctionIrView, FunctionType, Instruction, InstructionView, IrType,
    ModuleIr, Operand,
};
use crate::typing::{
    block_ok, block_types, lemma_block_prefix_types, lemma_well_typed_is_replayable, module_ok,
    operand_in_range, replayable,
};
use crate::views::views;

verus! {

/// LLVM's context, the owner of types and constants.
#[verifier::external_type_specification]
#[verifier::external_body]
pub struct ExContext(llvm::Context);

/// A module of LLVM.
#[verifier::external_type_specification]
#[verifier::external_body]
pub struct ExModule(llvm::Module);

/// A type of LLVM.
#[verifier::external_type_specification]
#[verifier::external_body]
pub struct ExType(llvm::Type);

/// A value of LLVM: a constant, an argument or an instruction.
#[verifier::external_type_specification]
#[verifier::external_body]
pub struct ExValue(llvm::Value);

/// A function of a module of LLVM.
#[verifier::external_type_specification]
#[verifier::external_body]
pub struct ExFunction(llvm::Function);

/// A basic block of a function of LLVM.
#[verifier::external_type_specification]
#[verifier::external_body]
pub struct ExBasicBlock(llvm::BasicBlock);

/// LLVM's instruction builder.
#[verifier::external_type_specification]
#[verifier::external_body]
pub struct ExBuilder(llvm::Builder);

/// The number of parameters of a function of LLVM, as
/// `Function::get_signature` and `FunctionType::num_params` report it.
pub uninterp spec fn parameter_count(f: &llvm::Function) -> nat;

/// Whether a name holds no NUL character, so that it can be handed to LLVM.
pub open spec fn no_nul(name: Seq<char>) -> bool {
    forall|i: int| 0 <= i < name.len() ==> name[i] != '\0'
}

/// `Type::get::<()>`: LLVM's void type.  Nothing is claimed of the result.
#[verifier::external_body]
fn llvm_void_type<'a>(context: &'a llvm::Context) -> (ty: &'a llvm::Type) {
    llvm::Type::get::<()>(context)
}

/// `Type::get::<i32>`: LLVM's 32-bit integer type.  Nothing is claimed of the
/// result.
#[verifier::external_body]
fn llvm_integer_type<'a>(context: &'a llvm::Context) -> (ty: &'a llvm::Type) {
    llvm::Type::get::<i32>(context)
}

/// `FunctionType::new`: the type of functions from `parameters` to
/// `return_type`.  Nothing is claimed of the result.
#[verifier::external_body]
fn llvm_function_type<'a>(return_type: &'a llvm::Type, parameters: &Vec<&'a llvm::Type>) -> (ty:
    &'a llvm::Type) {
    llvm::FunctionType::new(return_type, parameters.as_slice())
}

/// `Module::add_function`: a new function without a body.  It panics on a
/// name that holds a NUL character, which the precondition rules out.
/// Nothing is claimed of the result.
#[verifier::external_body]
fn llvm_add_function<'a>(module: &'a llvm::Module, name: &str, signature: &'a llvm::Type) -> (f:
    &'a llvm::Function)
    requires
        no_nul(name@),
{
    module.add_function(name, signature)
}

/// `Function::get_signature` and `FunctionType::num_params`: the number of
/// parameters of a function.  The result is given its name,
/// [`parameter_count`].
#[verifier::external_body]
fn llvm_count_params(f: &llvm::Function) -> (n: usize)
    ensures
        n == parameter_count(f),
{
    f.get_signature().num_params()
}

/// `Index::index` of a function: the value of its argument at `index`.  It
/// panics on an index that is not below the number of parameters, which the
/// precondition rules out.  Nothing is claimed of the result.
#[verifier::external_body]
fn llvm_argument<'a>(f: &'a llvm::Function, index: usize) -> (v: &'a llvm::Value)
    requires
        index < parameter_count(f),
{
    &f[index]
}

/// `Function::append`: a new block at the end of a function.  It panics on
/// a label that holds a NUL character, which the precondition rules out.
/// Nothing is claimed of the result.
#[verifier::external_body]
fn llvm_append_block<'a>(f: &'a llvm::Function, label: &str) -> (block: &'a llvm::BasicBlock)
    requires
        no_nul(label@),
{
    f.append(label)
}

/// `Builder::position_at_end`: what is built next goes to the end of
/// `block`.  It returns nothing.
#[verifier::external_body]
fn llvm_position_at_end(builder: &llvm::Builder, block: &llvm::BasicBlock) {
    builder.position_at_end(block)
}

/// `Compile::compile` of an `i32`: an integer constant.  Nothing is claimed
/// of the result.
#[verifier::external_body]
fn llvm_const_i32<'a>(context: &'a llvm::Context, x: i32) -> (v: &'a llvm::Value) {
    llvm::Compile::compile(x, context)
}

/// `Compile::compile` of a `u32`: an integer constant.  Nothing is claimed
/// of the result.
#[verifier::external_body]
fn llvm_const_u32<'a>(context: &'a llvm::Context, x: u32) -> (v: &'a llvm::Value) {
    llvm::Compile::compile(x, context)
}

/// `Builder::build_bit_cast`: `value` read as a value of type `ty`.  Nothing
/// is claimed of the result.
#[verifier::external_body]
fn llvm_build_bit_cast<'a>(
    builder: &'a llvm::Builder,
    value: &'a llvm::Value,
    ty: &'a llvm::Type,
) -> (v: &'a llvm::Value) {
    builder.build_bit_cast(value, ty)
}

/// `Builder::build_alloca`: a stack slot for a value of type `ty`.  Nothing
/// is claimed of the result.
#[verifier::external_body]
fn llvm_build_alloca<'a>(builder: &'a llvm::Builder, ty: &'a llvm::Type) -> (v: &'a llvm::Value) {
    builder.build_alloca(ty)
}

/// `Builder::build_load`: a load through `location`.  Nothing is claimed of
/// the result.
#[verifier::external_body]
fn llvm_build_load<'a>(builder: &'a llvm::Builder, location: &'a llvm::Value) -> (v:
    &'a llvm::Value) {
    builder.build_load(location)
}

/// `Builder::build_store`: a store of `value` through `location`.  Nothing
/// is claimed of the result.
#[verifier::external_body]
fn llvm_build_store<'a>(
    builder: &'a llvm::Builder,
    value: &'a llvm::Value,
    location: &'a llvm::Value,
) -> (v: &'a llvm::Value) {
    builder.build_store(value, location)
}

/// `Builder::build_add`: an addition, of integers or of floating-point
/// numbers by the type of `left`.  Nothing is claimed of the result.
#[verifier::external_body]
fn llvm_build_add<'a>(
    builder: &'a llvm::Builder,
    left: &'a llvm::Value,
    right: &'a llvm::Value,
) -> (v: &'a llvm::Value) {
    builder.build_add(left, right)
}

/// `Builder::build_sub`: a subtraction.  Nothing is claimed of the result.
#[verifier::external_body]
fn llvm_build_sub<'a>(
    builder: &'a llvm::Builder,
    left: &'a llvm::Value,
    right: &'a llvm::Value,
) -> (v: &'a llvm::Value) {
    builder.build_sub(left, right)
}

/// `Builder::build_mul`: a multiplication.  Nothing is claimed of the
/// result.
#[verifier::external_body]
fn llvm_build_mul<'a>(
    builder: &'a llvm::Builder,
    left: &'a llvm::Value,
    right: &'a llvm::Value,
) -> (v: &'a llvm::Value) {
    builder.build_mul(left, right)
}

/// `Builder::build_div`: a division, signed where the operands are
/// integers.  Nothing is claimed of the result.
#[verifier::external_body]
fn llvm_build_div<'a>(
    builder: &'a llvm::Builder,
    left: &'a llvm::Value,
    right: &'a llvm::Value,
) -> (v: &'a llvm::Value) {
    builder.build_div(left, right)
}

/// `Builder::build_call`: a call of `f` with `arguments`.  Nothing is
/// claimed of the result.
#[verifier::external_body]
fn llvm_build_call<'a>(
    builder: &'a llvm::Builder,
    f: &'a llvm::Function,
    arguments: &Vec<&'a llvm::Value>,
) -> (v: &'a llvm::Value) {
    builder.build_call(f, arguments.as_slice())
}

/// `Builder::build_ret`: a return of `value`.  Nothing is claimed of the
/// result.
#[verifier::external_body]
fn llvm_build_ret<'a>(builder: &'a llvm::Builder, value: &'a llvm::Value) -> (v: &'a llvm::Value) {
    builder.build_ret(value)
}

/// `Builder::build_ret_void`: a return without a value.  Nothing is claimed
/// of the result.
#[verifier::external_body]
fn llvm_build_ret_void<'a>(builder: &'a llvm::Builder) -> (v: &'a llvm::Value) {
    builder.build_ret_void()
}

/// Why a module was not emitted.
#[derive(Clone, Copy, Debug, PartialEq, Eq, Structural)]
pub enum EmitError {
    /// The name of a function holds a NUL character.
    InvalidName,
    /// A signature or a block of the module is not well-formed.
    IllFormed,
    /// LLVM reports another number of parameters for a function than its
    /// signature has.
    ParameterCount,
}

/// Whether every function of the module has a name that LLVM takes.
pub open spec fn names_ok(functions: Seq<FunctionIrView>) -> bool {
    forall|h: int| 0 <= h < functions.len() ==> no_nul((#[trigger] functions[h]).name)
}

/// Whether a name holds no NUL character.
pub fn name_is_valid(name: &str) -> (r: bool)
    ensures
        r == no_nul(name@),
{
    let n = name.unicode_len();
    let mut i: usize = 0;
    while i < n
        invariant
            i <= n,
            n == name@.len(),
            forall|k: int| 0 <= k < i ==> name@[k] != '\0',
        decreases n - i,
    {
        if name.get_char(i) == '\0' {
            return false;
        }
        i += 1;
    }
    true
}

/// Holds LLVM's answer against the signature that a function was made
/// with.
pub fn check_parameter_count(reported: usize, signature: &FunctionType) -> (r: Result<
    (),
    EmitError,
>)
    ensures
        r == if reported == signature@.parameters.len() {
            Ok::<(), EmitError>(())
        } else {
            Err::<(), EmitError>(EmitError::ParameterCount)
        },
{
    if reported == signature.parameters.len() {
        Ok(())
    } else {
        Err(EmitError::ParameterCount)
    }
}

/// Where a module is emitted to: a module of LLVM, the builder to go
/// through, and the types of the target that only the embedding program can
/// make.
///
/// The embedding program answers for it that the module, the builder and
/// the three types belong to `context`, and that the types are what their
/// fields say.
pub struct Target<'a> {
    pub context: &'a llvm::Context,
    /// The module that functions are added to.
    pub module: &'a llvm::Module,
    /// The builder that instructions are built with.
    pub builder: &'a llvm::Builder,
    /// LLVM's 32-bit floating-point type.
    pub float: &'a llvm::Type,
    /// The type of pointers to 32-bit integers.
    pub integer_pointer: &'a llvm::Type,
    /// The type of pointers to 32-bit floating-point numbers.
    pub float_pointer: &'a llvm::Type,
}

impl<'a> Target<'a> {
    /// LLVM's type for a type of the intermediate representation.
    ///
    /// The floating-point type and the two pointer types are those that the
    /// target holds.  The void type and the integer type are what LLVM gives
    /// for the target's context.
    fn target_type(&self, ty: IrType) -> (r: &'a llvm::Type)
        ensures
            ty == IrType::Scalar(DataType::Float) ==> r == self.float,
            ty == IrType::Pointer(DataType::Integer) ==> r == self.integer_pointer,
            ty == IrType::Pointer(DataType::Float) ==> r == self.float_pointer,
    {
        match ty {
            IrType::Void => llvm_void_type(self.context),
            IrType::Scalar(DataType::Integer) => llvm_integer_type(self.context),
            IrType::Scalar(DataType::Float) => self.float,
            IrType::Pointer(DataType::Integer) => self.integer_pointer,
            IrType::Pointer(DataType::Float) => self.float_pointer,
        }
    }

    /// A floating-point constant from the bits of its encoding.
    fn float_constant(&self, bits: u32) -> (r: &'a llvm::Value) {
        llvm_build_bit_cast(self.builder, llvm_const_u32(self.context, bits), self.float)
    }

    /// Adds a function without a body for each function of the module, in
    /// order, and holds each against the number of its parameters.
    fn declare_functions(&self, ir: &ModuleIr) -> (r: Result<Vec<&'a llvm::Function>, EmitError>)
        requires
            names_ok(ir@),
        ensures
            match r {
                Ok(callables) => {
                    &&& callables@.len() == ir@.len()
                    &&& forall|h: int|
                        0 <= h < ir@.len() ==> parameter_count(#[trigger] callables@[h])
                            == ir@[h].signature.parameters.len()
                },
                Err(err) => err == EmitError::ParameterCount,
            },
    {
        let mut callables: Vec<&'a llvm::Function> = Vec::new();
        let mut h: usize = 0;
        while h < ir.functions.len()
            invariant
                h <= ir.functions.len(),
                names_ok(ir@),
                callables@.len() == h,
                forall|x: int|
                    0 <= x < h ==> parameter_count(#[trigger] callables@[x])
                        == ir@[x].signature.parameters.len(),
            decreases ir.functions.len() - h,
        {
            let f = &ir.functions[h];
            assert(ir@[h as int] == f@);
            let mut parameters: Vec<&'a llvm::Type> = Vec::new();
            let mut k: usize = 0;
            while k < f.signature.parameters.len()
                invariant
                    k <= f.signature.parameters.len(),
                decreases f.signature.parameters.len() - k,
            {
                parameters.push(self.target_type(f.signature.parameters[k]));
                k += 1;
            }
            let signature = llvm_function_type(
                self.target_type(f.signature.return_type),
                &parameters,
            );
            let callable = llvm_add_function(self.module, f.name.as_str(), signature);
            match check_parameter_count(llvm_count_params(callable), &f.signature) {
                Err(err) => {
                    return Err(err);
                },
                Ok(()) => {},
            }
            callables.push(callable);
            h += 1;
        }
        Ok(callables)
    }

    /// LLVM's value for an operand.
    ///
    /// An operand that names an instruction is the value that was built for
    /// that instruction, which `values` holds at its position.  A constant
    /// and an argument are what LLVM gives for them.
    fn operand(
        &self,
        v: Operand,
        function: &'a llvm::Function,
        values: &Vec<&'a llvm::Value>,
    ) -> (r: &'a llvm::Value)
        requires
            operand_in_range(v@, parameter_count(function), values@.len() as nat),
        ensures
            v matches Operand::Instruction(i) ==> r == values@[i as int],
    {
        match v {
            Operand::ConstInt(x) => llvm_const_i32(self.context, x),
            Operand::ConstFloat(bits) => self.float_constant(bits),
            Operand::Argument(i) => llvm_argument(function, i),
            Operand::Instruction(i) => values[i],
        }
    }

    /// Builds one instruction at the end of the block under construction.
    /// A slot is reserved and then set to zero.
    fn replay(
        &self,
        i: &Instruction,
        callables: &Vec<&'a llvm::Function>,
        function: &'a llvm::Function,
        values: &Vec<&'a llvm::Value>,
    ) -> (r: &'a llvm::Value)
        requires
            replayable(
                i@,
                parameter_count(function),
                values@.len() as nat,
                callables@.len() as nat,
            ),
    {
        match i {
            Instruction::Alloca(ty) => {
                let slot = llvm_build_alloca(self.builder, self.target_type(*ty));
                let zero = match ty {
                    IrType::Scalar(DataType::Float) => self.float_constant(0),
                    _ => llvm_const_i32(self.context, 0),
                };
                let _ = llvm_build_store(self.builder, zero, slot);
                slot
            },
            Instruction::Load(location) => llvm_build_load(
                self.builder,
                self.operand(*location, function, values),
            ),
            Instruction::Store { value, location } => {
                let v = self.operand(*value, function, values);
                let l = self.operand(*location, function, values);
                llvm_build_store(self.builder, v, l)
            },
            Instruction::Arithmetic(op, left, right) => {
                let l = self.operand(*left, function, values);
                let r = self.operand(*right, function, values);
                match op {
                    ArithmeticOp::Add => llvm_build_add(self.builder, l, r),
                    ArithmeticOp::Sub => llvm_build_sub(self.builder, l, r),
                    ArithmeticOp::Mul => llvm_build_mul(self.builder, l, r),
                    ArithmeticOp::Div => llvm_build_div(self.builder, l, r),
                }
            },
            Instruction::Call { function: callee, arguments } => {
                let mut passed: Vec<&'a llvm::Value> = Vec::new();
                let mut k: usize = 0;
                assert(i@ == InstructionView::Call {
                    function: *callee as nat,
                    arguments: views(arguments@),
                });
                assert forall|x: int| 0 <= x < arguments@.len() implies operand_in_range(
                    #[trigger] views(arguments@)[x],
                    parameter_count(function),
                    values@.len() as nat,
                ) by {
                    let passed = i@->arguments;
                    assert(passed == views(arguments@));
                    assert(operand_in_range(
                        passed[x],
                        parameter_count(function),
                        values@.len() as nat,
                    ));
                }
                while k < arguments.len()
                    invariant
                        k <= arguments.len(),
                        forall|x: int|
                            0 <= x < arguments@.len() ==> operand_in_range(
                                #[trigger] views(arguments@)[x],
                                parameter_count(function),
                                values@.len() as nat,
                            ),
                    decreases arguments.len() - k,
                {
                    assert(views(arguments@)[k as int] == arguments@[k as int]@);
                    passed.push(self.operand(arguments[k], function, values));
                    k += 1;
                }
                llvm_build_call(self.builder, callables[*callee], &passed)
            },
            Instruction::Return(None) => llvm_build_ret_void(self.builder),
            Instruction::Return(Some(value)) => llvm_build_ret(
                self.builder,
                self.operand(*value, function, values),
            ),
        }
    }

    /// Appends a block to `function` and builds its instructions in order.
    fn emit_block(
        &self,
        block: &Block,
        ir: &ModuleIr,
        own: &FunctionType,
        callables: &Vec<&'a llvm::Function>,
        function: &'a llvm::Function,
    )
        requires
            block_ok(block@, ir@, own@),
            callables@.len() == ir@.len(),
            parameter_count(function) == own@.parameters.len(),
    {
        proof {
            reveal_strlit("entry");
        }
        let entry = llvm_append_block(function, "entry");
        llvm_position_at_end(self.builder, entry);
        let mut values: Vec<&'a llvm::Value> = Vec::new();
        let mut j: usize = 0;
        while j < block.instructions.len()
            invariant
                j <= block.instructions.len(),
                values@.len() == j,
                block_ok(block@, ir@, own@),
                callables@.len() == ir@.len(),
                parameter_count(function) == own@.parameters.len(),
            decreases block.instructions.len() - j,
        {
            proof {
                let n = block@.len();
                lemma_block_prefix_types(block@, ir@, own@, (j + 1) as nat, n);
                lemma_block_prefix_types(block@, ir@, own@, j as nat, n);
                let results = block_types(block@, ir@, own@, j as nat)->0;
                lemma_well_typed_is_replayable(block@[j as int], ir@, own@, results);
            }
            let v = self.replay(&block.instructions[j], callables, function, &values);
            values.push(v);
            j += 1;
        }
    }

    /// Emits a module: a function for each of its functions, in order, and
    /// a block named `entry` for each of their blocks.
    ///
    /// Nothing is emitted unless every name can be handed to LLVM and the
    /// module is well-formed.
    pub fn emit(&self, ir: &ModuleIr) -> (r: Result<(), EmitError>)
        ensures
            r == Err::<(), EmitError>(EmitError::InvalidName) <==> !names_ok(ir@),
            r == Err::<(), EmitError>(EmitError::IllFormed) <==> names_ok(ir@) && !module_ok(ir@),
    {
        let mut h: usize = 0;
        while h < ir.functions.len()
            invariant
                h <= ir.functions.len(),
                forall|x: int| 0 <= x < h ==> no_nul((#[trigger] ir@[x]).name),
            decreases ir.functions.len() - h,
        {
            assert(ir@[h as int] == ir.functions[h as int]@);
            if !name_is_valid(ir.functions[h].name.as_str()) {
                return Err(EmitError::InvalidName);
            }
            h += 1;
        }
        if !ir.is_well_formed() {
            return Err(EmitError::IllFormed);
        }
        let callables = match self.declare_functions(ir) {
            Err(err) => {
                return Err(err);
            },
            Ok(callables) => callables,
        };
        let mut h: usize = 0;
        while h < ir.functions.len()
            invariant
                h <= ir.functions.len(),
                module_ok(ir@),
                callables@.len() == ir@.len(),
                forall|x: int|
                    0 <= x < ir@.len() ==> parameter_count(#[trigger] callables@[x])
                        == ir@[x].signature.parameters.len(),
            decreases ir.functions.len() - h,
        {
            let f = &ir.functions[h];
            assert(ir@[h as int] == f@);
            let mut b: usize = 0;
            while b < f.blocks.len()
                invariant
                    b <= f.blocks.len(),
                    h < ir.functions.len(),
                    ir@[h as int] == f@,
                    module_ok(ir@),
                    callables@.len() == ir@.len(),
                    parameter_count(callables@[h as int]) == f@.signature.parameters.len(),
                decreases f.blocks.len() - b,
            {
                assert(f@.blocks[b as int] == f.blocks[b as int]@);
                self.emit_block(&f.blocks[b], ir, &f.signature, &callables, callables[h]);
                b += 1;
            }
            h += 1;
        }
        Ok(())
    }
}

} // verus!
