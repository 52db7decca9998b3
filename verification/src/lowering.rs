//! What lowering means: pure functions from syntax to the instructions that
//! are emitted for it.
//!
//! Code is emitted at the end of the block under construction.  Each function
//! here takes `base`, the length of the block before, and gives an
//! [`Emission`]: the instructions appended, in order, and the outcome.  On an
//! error the instructions are those emitted before the error was met.
use vstd::prelude::*;
use crate::error::CodegenError;
use crate::expression::Expression;
use crate::ir::{ArithmeticOp, InstructionView, OperandView};
use crate::mapper::datatype_of;
use crate::prototype::{ArgumentDeclarationView, ParameterDirection, PrototypeView};
use crate::statement::Statement;
use crate::subprogram::VariableDeclaration;

verus! {

/// A name bound to a storage location or to a value.
pub struct BindingView {
    pub name: Seq<char>,
    /// For an addressable binding the address of its slot, else its value.
    pub location: OperandView,
    /// Whether the binding can be written: true of every local variable and
    /// of every parameter passed by reference.
    pub addressable: bool,
}

/// An entry of the function registry.
pub struct FunctionMetaView {
    /// The handle of the callable: its position in the module.
    pub function: nat,
    /// The signature that every call site goes by.
    pub prototype: PrototypeView,
}

/// The instructions appended by one lowering step, and how the step ended.
pub struct Emission<T> {
    pub code: Seq<InstructionView>,
    pub result: Result<T, CodegenError>,
}

/// The first binding of `name` in `env`, if there is one.
pub open spec fn find_binding(env: Seq<BindingView>, name: Seq<char>) -> Option<BindingView>
    decreases env.len(),
{
    if env.len() == 0 {
        None
    } else {
        match find_binding(env.drop_last(), name) {
            Some(b) => Some(b),
            None => if env.last().name == name {
                Some(env.last())
            } else {
                None
            },
        }
    }
}

/// The first entry for `name` in the registry, if there is one.
pub open spec fn find_function(reg: Seq<FunctionMetaView>, name: Seq<char>) -> Option<
    FunctionMetaView,
>
    decreases reg.len(),
{
    if reg.len() == 0 {
        None
    } else {
        match find_function(reg.drop_last(), name) {
            Some(m) => Some(m),
            None => if reg.last().prototype.name == name {
                Some(reg.last())
            } else {
                None
            },
        }
    }
}

/// A name that no binding has is not found.
pub proof fn lemma_find_binding_none(env: Seq<BindingView>, name: Seq<char>)
    requires
        forall|k: int| 0 <= k < env.len() ==> env[k].name != name,
    ensures
        find_binding(env, name) is None,
    decreases env.len(),
{
    if env.len() > 0 {
        lemma_find_binding_none(env.drop_last(), name);
    }
}

/// The binding that is found is the first one of that name.
pub proof fn lemma_find_binding_first(env: Seq<BindingView>, name: Seq<char>, i: int)
    requires
        0 <= i < env.len(),
        env[i].name == name,
        forall|k: int| 0 <= k < i ==> env[k].name != name,
    ensures
        find_binding(env, name) == Some(env[i]),
    decreases env.len(),
{
    if i == env.len() - 1 {
        lemma_find_binding_none(env.drop_last(), name);
    } else {
        lemma_find_binding_first(env.drop_last(), name, i);
    }
}

/// A binding that is found stands in the environment.
pub proof fn lemma_find_binding_member(env: Seq<BindingView>, name: Seq<char>)
    requires
        find_binding(env, name) is Some,
    ensures
        exists|i: int| 0 <= i < env.len() && #[trigger] env[i] == find_binding(env, name)->0,
    decreases env.len(),
{
    if env.len() > 0 {
        if find_binding(env.drop_last(), name) is Some {
            lemma_find_binding_member(env.drop_last(), name);
            let i = choose|i: int|
                0 <= i < env.drop_last().len() && #[trigger] env.drop_last()[i] == find_binding(
                    env.drop_last(),
                    name,
                )->0;
            assert(env[i] == env.drop_last()[i]);
        } else {
            assert(env[env.len() - 1] == env.last());
        }
    }
}

/// A name that no entry has is not found.
pub proof fn lemma_find_function_none(reg: Seq<FunctionMetaView>, name: Seq<char>)
    requires
        forall|k: int| 0 <= k < reg.len() ==> reg[k].prototype.name != name,
    ensures
        find_function(reg, name) is None,
    decreases reg.len(),
{
    if reg.len() > 0 {
        lemma_find_function_none(reg.drop_last(), name);
    }
}

/// Where nothing is found, no entry has the name.
pub proof fn lemma_find_function_absent(reg: Seq<FunctionMetaView>, name: Seq<char>)
    requires
        find_function(reg, name) is None,
    ensures
        forall|k: int| 0 <= k < reg.len() ==> (#[trigger] reg[k]).prototype.name != name,
    decreases reg.len(),
{
    if reg.len() > 0 {
        lemma_find_function_absent(reg.drop_last(), name);
        assert forall|k: int| 0 <= k < reg.len() implies (#[trigger] reg[k]).prototype.name
            != name by {
            if k < reg.len() - 1 {
                assert(reg[k] == reg.drop_last()[k]);
            }
        }
    }
}

/// The entry that is found is the first one of that name.
pub proof fn lemma_find_function_first(reg: Seq<FunctionMetaView>, name: Seq<char>, i: int)
    requires
        0 <= i < reg.len(),
        reg[i].prototype.name == name,
        forall|k: int| 0 <= k < i ==> reg[k].prototype.name != name,
    ensures
        find_function(reg, name) == Some(reg[i]),
    decreases reg.len(),
{
    if i == reg.len() - 1 {
        lemma_find_function_none(reg.drop_last(), name);
    } else {
        lemma_find_function_first(reg.drop_last(), name, i);
    }
}

/// An entry that is found stands in the registry under the name asked for.
pub proof fn lemma_find_function_member(reg: Seq<FunctionMetaView>, name: Seq<char>)
    requires
        find_function(reg, name) is Some,
    ensures
        exists|i: int|
            0 <= i < reg.len() && reg[i] == find_function(reg, name)->0
                && #[trigger] reg[i].prototype.name == name,
    decreases reg.len(),
{
    if reg.len() > 0 {
        if find_function(reg.drop_last(), name) is Some {
            lemma_find_function_member(reg.drop_last(), name);
            let i = choose|i: int|
                0 <= i < reg.drop_last().len() && reg.drop_last()[i] == find_function(
                    reg.drop_last(),
                    name,
                )->0 && #[trigger] reg.drop_last()[i].prototype.name == name;
            assert(reg[i] == reg.drop_last()[i]);
        } else {
            assert(reg[reg.len() - 1] == reg.last());
        }
    }
}

/// The arithmetic instruction that an operator stands for.
pub open spec fn operator_of(op: Seq<char>) -> Option<ArithmeticOp> {
    if op.len() != 1 {
        None
    } else if op[0] == '+' {
        Some(ArithmeticOp::Add)
    } else if op[0] == '-' {
        Some(ArithmeticOp::Sub)
    } else if op[0] == '*' {
        Some(ArithmeticOp::Mul)
    } else if op[0] == '/' {
        Some(ArithmeticOp::Div)
    } else {
        None
    }
}

/// Lowering of an expression to the operand that holds its value.
///
/// A literal is a constant and emits nothing.  A variable that is
/// addressable is loaded from its slot; one that is not is its bound value.
/// A binary operation lowers the left operand, then the right one, then
/// emits the instruction; an operator that is not known is an error after
/// both operands were lowered.  A call of a procedure is an error and emits
/// nothing; any other call is lowered as a call statement is.
pub open spec fn lower_expression(
    reg: Seq<FunctionMetaView>,
    env: Seq<BindingView>,
    e: Expression,
    base: nat,
) -> Emission<OperandView>
    decreases e, 0nat, 0nat,
{
    match e {
        Expression::IntValue(x) => Emission {
            code: Seq::empty(),
            result: Ok(OperandView::ConstInt(x)),
        },
        Expression::FloatValue(bits) => Emission {
            code: Seq::empty(),
            result: Ok(OperandView::ConstFloat(bits)),
        },
        Expression::Variable(name) => match find_binding(env, name@) {
            None => Emission { code: Seq::empty(), result: Err(CodegenError::UndefinedVariable) },
            Some(b) => if b.addressable {
                Emission {
                    code: seq![InstructionView::Load(b.location)],
                    result: Ok(OperandView::Instruction(base)),
                }
            } else {
                Emission { code: Seq::empty(), result: Ok(b.location) }
            },
        },
        Expression::Binary(op, lhs, rhs) => {
            let left = lower_expression(reg, env, *lhs, base);
            match left.result {
                Err(err) => Emission { code: left.code, result: Err(err) },
                Ok(v1) => {
                    let right = lower_expression(reg, env, *rhs, base + left.code.len());
                    let code = left.code + right.code;
                    match right.result {
                        Err(err) => Emission { code, result: Err(err) },
                        Ok(v2) => match operator_of(op@) {
                            None => Emission {
                                code,
                                result: Err(CodegenError::UnimplementedOperator),
                            },
                            Some(o) => Emission {
                                code: code.push(InstructionView::Arithmetic(o, v1, v2)),
                                result: Ok(OperandView::Instruction(base + code.len())),
                            },
                        },
                    }
                },
            }
        },
        Expression::FunctionCall(name, args) => match find_function(reg, name@) {
            Some(meta) if meta.prototype.returns is None => Emission {
                code: Seq::empty(),
                result: Err(CodegenError::VoidUsedAsValue),
            },
            _ => lower_call(reg, env, name@, args@, base),
        },
    }
}

/// Lowering of one actual argument against the direction of its formal.
///
/// For a parameter passed by value the argument is an ordinary expression.
/// For one passed by reference it must be a bare variable, and what is passed
/// is that variable's location as it is bound, without a load.
pub open spec fn lower_argument(
    reg: Seq<FunctionMetaView>,
    env: Seq<BindingView>,
    direction: ParameterDirection,
    actual: Expression,
    base: nat,
) -> Emission<OperandView>
    decreases actual, 1nat, 0nat,
{
    if direction.by_reference() {
        match actual {
            Expression::Variable(name) => match find_binding(env, name@) {
                Some(b) => Emission { code: Seq::empty(), result: Ok(b.location) },
                None => Emission {
                    code: Seq::empty(),
                    result: Err(CodegenError::UndefinedVariable),
                },
            },
            _ => Emission {
                code: Seq::empty(),
                result: Err(CodegenError::InvalidReferenceArgument),
            },
        }
    } else {
        lower_expression(reg, env, actual, base)
    }
}

/// Lowering of the actual arguments for the first `count` formals, in
/// declared order.  Actual arguments beyond the last formal are not looked at.
pub open spec fn lower_arguments(
    reg: Seq<FunctionMetaView>,
    env: Seq<BindingView>,
    formals: Seq<ArgumentDeclarationView>,
    actuals: Seq<Expression>,
    base: nat,
    count: nat,
) -> Emission<Seq<OperandView>>
    decreases actuals, 0nat, count,
{
    if count == 0 || count > formals.len() {
        Emission { code: Seq::empty(), result: Ok(Seq::empty()) }
    } else {
        let before = lower_arguments(reg, env, formals, actuals, base, (count - 1) as nat);
        match before.result {
            Err(err) => before,
            Ok(values) => if count > actuals.len() {
                Emission { code: before.code, result: Err(CodegenError::MissingArgument) }
            } else {
                let one = lower_argument(
                    reg,
                    env,
                    formals[count - 1].direction,
                    actuals[count - 1],
                    base + before.code.len(),
                );
                Emission {
                    code: before.code + one.code,
                    result: match one.result {
                        Ok(v) => Ok(values.push(v)),
                        Err(err) => Err(err),
                    },
                }
            },
        }
    }
}

/// Lowering of a call, as an expression or as a statement: the arguments in
/// the order of the callee's formals, then one call instruction.
pub open spec fn lower_call(
    reg: Seq<FunctionMetaView>,
    env: Seq<BindingView>,
    name: Seq<char>,
    actuals: Seq<Expression>,
    base: nat,
) -> Emission<OperandView>
    decreases actuals, 1nat, 0nat,
{
    match find_function(reg, name) {
        None => Emission { code: Seq::empty(), result: Err(CodegenError::UnknownSymbol) },
        Some(meta) => {
            let formals = meta.prototype.arguments;
            let passed = lower_arguments(reg, env, formals, actuals, base, formals.len());
            match passed.result {
                Err(err) => Emission { code: passed.code, result: Err(err) },
                Ok(values) => Emission {
                    code: passed.code.push(
                        InstructionView::Call { function: meta.function, arguments: values },
                    ),
                    result: Ok(OperandView::Instruction(base + passed.code.len())),
                },
            }
        },
    }
}

/// Lowering of a statement.  The outcome says whether it was a `return`.
pub open spec fn lower_statement(
    reg: Seq<FunctionMetaView>,
    env: Seq<BindingView>,
    s: Statement,
    base: nat,
) -> Emission<bool> {
    match s {
        Statement::Return(None) => Emission {
            code: seq![InstructionView::Return(None)],
            result: Ok(true),
        },
        Statement::Return(Some(e)) => {
            let value = lower_expression(reg, env, e, base);
            match value.result {
                Err(err) => Emission { code: value.code, result: Err(err) },
                Ok(v) => Emission {
                    code: value.code.push(InstructionView::Return(Some(v))),
                    result: Ok(true),
                },
            }
        },
        Statement::Assignment(dest, e) => match find_binding(env, dest@) {
            None => Emission { code: Seq::empty(), result: Err(CodegenError::UndefinedVariable) },
            Some(b) => if !b.addressable {
                Emission { code: Seq::empty(), result: Err(CodegenError::ImmutableAssignment) }
            } else {
                let value = lower_expression(reg, env, e, base);
                match value.result {
                    Err(err) => Emission { code: value.code, result: Err(err) },
                    Ok(v) => Emission {
                        code: value.code.push(
                            InstructionView::Store { value: v, location: b.location },
                        ),
                        result: Ok(false),
                    },
                }
            },
        },
        Statement::ProcedureCall(name, args) => {
            let call = lower_call(reg, env, name@, args@, base);
            Emission {
                code: call.code,
                result: match call.result {
                    Ok(_) => Ok(false),
                    Err(err) => Err(err),
                },
            }
        },
    }
}

/// Lowering of the first `count` statements of a body, in order.  The
/// outcome says whether one of them was a `return`; a statement that follows
/// a `return` is an error, and nothing is emitted for it.
pub open spec fn lower_statements(
    reg: Seq<FunctionMetaView>,
    env: Seq<BindingView>,
    body: Seq<Statement>,
    base: nat,
    count: nat,
) -> Emission<bool>
    decreases count,
{
    if count == 0 || count > body.len() {
        Emission { code: Seq::empty(), result: Ok(false) }
    } else {
        let before = lower_statements(reg, env, body, base, (count - 1) as nat);
        match before.result {
            Err(err) => before,
            Ok(returned) => if returned {
                Emission { code: before.code, result: Err(CodegenError::UnreachableCode) }
            } else {
                let one = lower_statement(reg, env, body[count - 1], base + before.code.len());
                Emission { code: before.code + one.code, result: one.result }
            },
        }
    }
}

/// The names that a subprogram binds: its parameters, then its local
/// variables.
pub open spec fn bound_names(
    prototype: PrototypeView,
    variables: Seq<VariableDeclaration>,
) -> Seq<Seq<char>> {
    Seq::new(prototype.arguments.len(), |i: int| prototype.arguments[i].name) + Seq::new(
        variables.len(),
        |j: int| variables[j].name@,
    )
}

/// Whether no name occurs twice.
pub open spec fn distinct(names: Seq<Seq<char>>) -> bool {
    forall|i: int, j: int| 0 <= i < j < names.len() ==> names[i] != names[j]
}

/// The slots that open a subprogram's block: one for each local variable,
/// in declared order.
pub open spec fn local_slots(variables: Seq<VariableDeclaration>) -> Seq<InstructionView> {
    Seq::new(
        variables.len(),
        |j: int| InstructionView::Alloca(datatype_of(variables[j].data_type, false)),
    )
}

/// The environment of a subprogram whose slots start at `base`.
///
/// The parameter at position `i` is bound to the incoming argument `i`, and
/// is addressable exactly if it is passed by reference.  The local variable
/// at position `j` is bound to the slot that instruction `base + j`
/// reserves, and is addressable.
pub open spec fn scope_of(
    prototype: PrototypeView,
    variables: Seq<VariableDeclaration>,
    base: nat,
) -> Seq<BindingView> {
    Seq::new(
        prototype.arguments.len(),
        |i: int|
            BindingView {
                name: prototype.arguments[i].name,
                location: OperandView::Argument(i as nat),
                addressable: prototype.arguments[i].direction.by_reference(),
            },
    ) + Seq::new(
        variables.len(),
        |j: int|
            BindingView {
                name: variables[j].name@,
                location: OperandView::Instruction((base + j) as nat),
                addressable: true,
            },
    )
}

/// The whole block of a subprogram: the slots of its local variables, its
/// statements, and a closing `return` without a value where a procedure's
/// body runs off its end.
///
/// Where two of the names that the subprogram binds are the same, that is
/// an error and nothing is emitted.  Where the body of a function runs off
/// its end, that is an error after its statements were emitted.
pub open spec fn lower_subprogram(
    reg: Seq<FunctionMetaView>,
    prototype: PrototypeView,
    variables: Seq<VariableDeclaration>,
    body: Seq<Statement>,
) -> Emission<()> {
    if !distinct(bound_names(prototype, variables)) {
        Emission { code: Seq::empty(), result: Err(CodegenError::DuplicateBinding) }
    } else {
        let slots = local_slots(variables);
        let env = scope_of(prototype, variables, 0);
        let statements = lower_statements(reg, env, body, slots.len(), body.len());
        let code = slots + statements.code;
        match statements.result {
            Err(err) => Emission { code, result: Err(err) },
            Ok(returned) => if returned {
                Emission { code, result: Ok(()) }
            } else if prototype.returns is Some {
                Emission { code, result: Err(CodegenError::MissingReturnValue) }
            } else {
                Emission { code: code.push(InstructionView::Return(None)), result: Ok(()) }
            },
        }
    }
}

/// Once the lowering of a call's arguments has failed, the arguments that
/// follow add nothing.
pub proof fn lemma_arguments_error_is_final(
    reg: Seq<FunctionMetaView>,
    env: Seq<BindingView>,
    formals: Seq<ArgumentDeclarationView>,
    actuals: Seq<Expression>,
    base: nat,
    failed: nat,
    count: nat,
)
    requires
        failed <= count <= formals.len(),
        lower_arguments(reg, env, formals, actuals, base, failed).result is Err,
    ensures
        lower_arguments(reg, env, formals, actuals, base, count) == lower_arguments(
            reg,
            env,
            formals,
            actuals,
            base,
            failed,
        ),
    decreases count,
{
    if failed < count {
        lemma_arguments_error_is_final(
            reg,
            env,
            formals,
            actuals,
            base,
            failed,
            (count - 1) as nat,
        );
    }
}

/// Once the lowering of a body has failed, the statements that follow add
/// nothing.
pub proof fn lemma_statements_error_is_final(
    reg: Seq<FunctionMetaView>,
    env: Seq<BindingView>,
    body: Seq<Statement>,
    base: nat,
    failed: nat,
    count: nat,
)
    requires
        failed <= count <= body.len(),
        lower_statements(reg, env, body, base, failed).result is Err,
    ensures
        lower_statements(reg, env, body, base, count) == lower_statements(
            reg,
            env,
            body,
            base,
            failed,
        ),
    decreases count,
{
    if failed < count {
        lemma_statements_error_is_final(reg, env, body, base, failed, (count - 1) as nat);
    }
}

} // verus!
