//! What holds of every lowering, proved from the definitions in
//! [`crate::lowering`] and [`crate::unit`].
use vstd::prelude::*;
use crate::error::CodegenError;
use crate::expression::Expression;
use crate::ir::{InstructionView, OperandView};
use crate::lowering::{
    bound_names, distinct, find_binding, find_function, lemma_find_binding_first,
    lemma_find_binding_member,
    lemma_arguments_error_is_final, lemma_find_function_absent, lemma_find_function_first,
    lemma_find_function_member, lemma_statements_error_is_final,
    local_slots, lower_argument, lower_arguments, lower_call, lower_expression,
    lower_statement, lower_statements, lower_subprogram, scope_of, BindingView,
    FunctionMetaView,
};
use crate::prototype::{ArgumentDeclarationView, ParameterDirection, PrototypeView};
use crate::statement::Statement;
use crate::subprogram::{ASTNode, Subprogram, VariableDeclaration};
use crate::typing::{operand_in_range, replayable, terminated_at_end};
use crate::unit::UnitView;

verus! {

/// Whether no instruction of `code` ends a block.
pub open spec fn no_terminator(code: Seq<InstructionView>) -> bool {
    forall|i: int| 0 <= i < code.len() ==> !(#[trigger] code[i]).is_terminator()
}

/// Whether `code` holds exactly one terminator, as its last instruction.
pub open spec fn ends_in_one_terminator(code: Seq<InstructionView>) -> bool {
    &&& code.len() > 0
    &&& code.last().is_terminator()
    &&& no_terminator(code.drop_last())
}

/// Whether none of the first `count` statements is a `return`.
pub open spec fn no_return_among(body: Seq<Statement>, count: nat) -> bool {
    forall|i: int| 0 <= i < count && i < body.len() ==> !(#[trigger] body[i] is Return)
}

/// An expression never emits a terminator, whether its lowering succeeds or
/// not.
pub proof fn lemma_expression_emits_no_terminator(
    reg: Seq<FunctionMetaView>,
    env: Seq<BindingView>,
    e: Expression,
    base: nat,
)
    ensures
        no_terminator(lower_expression(reg, env, e, base).code),
    decreases e, 0nat, 0nat,
{
    match e {
        Expression::Binary(op, lhs, rhs) => {
            let left = lower_expression(reg, env, *lhs, base);
            lemma_expression_emits_no_terminator(reg, env, *lhs, base);
            if left.result is Ok {
                lemma_expression_emits_no_terminator(reg, env, *rhs, base + left.code.len());
            }
        },
        Expression::FunctionCall(name, args) => {
            lemma_call_emits_no_terminator(reg, env, name@, args@, base);
        },
        _ => {},
    }
}

/// The arguments of a call never emit a terminator.
pub proof fn lemma_arguments_emit_no_terminator(
    reg: Seq<FunctionMetaView>,
    env: Seq<BindingView>,
    formals: Seq<ArgumentDeclarationView>,
    actuals: Seq<Expression>,
    base: nat,
    count: nat,
)
    ensures
        no_terminator(lower_arguments(reg, env, formals, actuals, base, count).code),
    decreases actuals, 0nat, count,
{
    if !(count == 0 || count > formals.len()) {
        let before = lower_arguments(reg, env, formals, actuals, base, (count - 1) as nat);
        lemma_arguments_emit_no_terminator(
            reg,
            env,
            formals,
            actuals,
            base,
            (count - 1) as nat,
        );
        if before.result is Ok && count <= actuals.len() {
            let one = lower_argument(
                reg,
                env,
                formals[count - 1].direction,
                actuals[count - 1],
                base + before.code.len(),
            );
            if formals[count - 1].direction.by_reference() {
                assert(one.code.len() == 0);
            } else {
                lemma_expression_emits_no_terminator(
                    reg,
                    env,
                    actuals[count - 1],
                    base + before.code.len(),
                );
            }
            assert(no_terminator(before.code + one.code));
        }
    }
}

/// A call never emits a terminator.
pub proof fn lemma_call_emits_no_terminator(
    reg: Seq<FunctionMetaView>,
    env: Seq<BindingView>,
    name: Seq<char>,
    actuals: Seq<Expression>,
    base: nat,
)
    ensures
        no_terminator(lower_call(reg, env, name, actuals, base).code),
    decreases actuals, 1nat, 0nat,
{
    match find_function(reg, name) {
        None => {},
        Some(meta) => {
            let formals = meta.prototype.arguments;
            lemma_arguments_emit_no_terminator(reg, env, formals, actuals, base, formals.len());
        },
    }
}

/// A statement that lowers successfully reports a `return` exactly if it is
/// one.  A `return` emits one terminator, as its last instruction; every
/// other statement, and every failed one, emits none.
pub proof fn lemma_statement_terminators(
    reg: Seq<FunctionMetaView>,
    env: Seq<BindingView>,
    s: Statement,
    base: nat,
)
    ensures
        ({
            let one = lower_statement(reg, env, s, base);
            &&& one.result is Ok ==> one.result == Ok::<bool, CodegenError>(s is Return)
            &&& one.result == Ok::<bool, CodegenError>(true) ==> ends_in_one_terminator(one.code)
            &&& one.result != Ok::<bool, CodegenError>(true) ==> no_terminator(one.code)
        }),
{
    let one = lower_statement(reg, env, s, base);
    match s {
        Statement::Return(None) => {
            assert(one.code.drop_last() =~= Seq::empty());
        },
        Statement::Return(Some(e)) => {
            lemma_expression_emits_no_terminator(reg, env, e, base);
            let value = lower_expression(reg, env, e, base);
            if value.result is Ok {
                assert(one.code.drop_last() =~= value.code);
            }
        },
        Statement::Assignment(dest, e) => {
            lemma_expression_emits_no_terminator(reg, env, e, base);
        },
        Statement::ProcedureCall(name, args) => {
            lemma_call_emits_no_terminator(reg, env, name@, args@, base);
        },
    }
}

/// While no `return` was met the statements emit no terminator; once one
/// was met it is the last instruction and the only terminator, and stays so
/// when a later statement is rejected as unreachable.
pub proof fn lemma_statements_terminators(
    reg: Seq<FunctionMetaView>,
    env: Seq<BindingView>,
    body: Seq<Statement>,
    base: nat,
    count: nat,
)
    ensures
        ({
            let all = lower_statements(reg, env, body, base, count);
            &&& all.result == Ok::<bool, CodegenError>(false) ==> no_terminator(all.code)
            &&& all.result == Ok::<bool, CodegenError>(true) ==> ends_in_one_terminator(all.code)
            &&& all.result is Err ==> no_terminator(all.code) || ends_in_one_terminator(all.code)
            &&& no_return_among(body, count) ==> all.result != Ok::<bool, CodegenError>(true)
        }),
    decreases count,
{
    if !(count == 0 || count > body.len()) {
        let before = lower_statements(reg, env, body, base, (count - 1) as nat);
        lemma_statements_terminators(reg, env, body, base, (count - 1) as nat);
        if before.result == Ok::<bool, CodegenError>(false) {
            let one = lower_statement(reg, env, body[count - 1], base + before.code.len());
            lemma_statement_terminators(reg, env, body[count - 1], base + before.code.len());
            let code = before.code + one.code;
            if one.result == Ok::<bool, CodegenError>(true) {
                assert(code.drop_last() =~= before.code + one.code.drop_last());
            }
            if no_return_among(body, count) {
                assert(!(body[count - 1] is Return));
            }
        }
        if no_return_among(body, count) {
            assert(no_return_among(body, (count - 1) as nat));
        }
    }
}

/// Every block that is lowered successfully ends in exactly one terminator
/// and holds no other; where the body has no `return`, that terminator is
/// the return without a value that closes a procedure.  A block that was cut
/// short by an error holds at most one terminator, as its last instruction.
pub proof fn lemma_block_has_one_terminator(
    reg: Seq<FunctionMetaView>,
    prototype: PrototypeView,
    variables: Seq<VariableDeclaration>,
    body: Seq<Statement>,
)
    ensures
        ({
            let block = lower_subprogram(reg, prototype, variables, body);
            &&& block.result is Ok ==> ends_in_one_terminator(block.code)
            &&& block.result is Ok && no_return_among(body, body.len()) ==> block.code.last()
                == InstructionView::Return(None)
            &&& block.result is Err ==> no_terminator(block.code) || ends_in_one_terminator(
                block.code,
            )
        }),
{
    if distinct(bound_names(prototype, variables)) {
        let slots = local_slots(variables);
        let env = scope_of(prototype, variables, 0);
        let statements = lower_statements(reg, env, body, slots.len(), body.len());
        lemma_statements_terminators(reg, env, body, slots.len(), body.len());
        let code = slots + statements.code;
        assert(no_terminator(slots));
        if ends_in_one_terminator(statements.code) {
            assert(code.drop_last() =~= slots + statements.code.drop_last());
        }
        if statements.result == Ok::<bool, CodegenError>(false) && prototype.returns is None {
            assert(code.push(InstructionView::Return(None)).drop_last() =~= code);
        }
    }
}

/// In the environment of a subprogram whose names are distinct, each
/// parameter is found under its name, bound to its incoming argument, and
/// can be written exactly if it is passed by reference.
pub proof fn lemma_parameter_binding(
    prototype: PrototypeView,
    variables: Seq<VariableDeclaration>,
    base: nat,
    k: int,
)
    requires
        distinct(bound_names(prototype, variables)),
        0 <= k < prototype.arguments.len(),
    ensures
        find_binding(scope_of(prototype, variables, base), prototype.arguments[k].name) == Some(
            scope_of(prototype, variables, base)[k],
        ),
        scope_of(prototype, variables, base)[k].location == OperandView::Argument(
            k as nat,
        ),
        scope_of(prototype, variables, base)[k].addressable
            == prototype.arguments[k].direction.by_reference(),
{
    let env = scope_of(prototype, variables, base);
    let names = bound_names(prototype, variables);
    assert forall|i: int| 0 <= i < k implies env[i].name != prototype.arguments[k].name by {
        assert(names[i] == env[i].name);
        assert(names[k] == prototype.arguments[k].name);
    }
    lemma_find_binding_first(env, prototype.arguments[k].name, k);
}

/// In the environment of a subprogram whose names are distinct, each local
/// variable is found under its name, bound to its own slot, and can be
/// written.
pub proof fn lemma_local_binding(
    prototype: PrototypeView,
    variables: Seq<VariableDeclaration>,
    base: nat,
    j: int,
)
    requires
        distinct(bound_names(prototype, variables)),
        0 <= j < variables.len(),
    ensures
        find_binding(scope_of(prototype, variables, base), variables[j].name@) == Some(
            BindingView {
                name: variables[j].name@,
                location: OperandView::Instruction((base + j) as nat),
                addressable: true,
            },
        ),
{
    let env = scope_of(prototype, variables, base);
    let names = bound_names(prototype, variables);
    let n = prototype.arguments.len() as int;
    assert forall|i: int| 0 <= i < n + j implies env[i].name != variables[j].name@ by {
        assert(names[i] == env[i].name);
        assert(names[n + j] == variables[j].name@);
    }
    lemma_find_binding_first(env, variables[j].name@, n + j);
}

/// An assignment to an `in` parameter always fails, as an assignment to a
/// read-only binding, and emits nothing.
pub proof fn lemma_assignment_to_in_parameter_fails(
    reg: Seq<FunctionMetaView>,
    prototype: PrototypeView,
    variables: Seq<VariableDeclaration>,
    k: int,
    s: Statement,
    base: nat,
)
    requires
        distinct(bound_names(prototype, variables)),
        0 <= k < prototype.arguments.len(),
        prototype.arguments[k].direction == ParameterDirection::In,
        s matches Statement::Assignment(dest, _) && dest@ == prototype.arguments[k].name,
    ensures
        lower_statement(reg, scope_of(prototype, variables, 0), s, base).result == Err::<
            bool,
            CodegenError,
        >(CodegenError::ImmutableAssignment),
        lower_statement(reg, scope_of(prototype, variables, 0), s, base).code.len() == 0,
{
    lemma_parameter_binding(prototype, variables, 0, k);
}

/// The arguments of a call are lowered in order: the first `count` of them
/// can only succeed if every shorter prefix did.
pub proof fn lemma_arguments_succeed_in_order(
    reg: Seq<FunctionMetaView>,
    env: Seq<BindingView>,
    formals: Seq<ArgumentDeclarationView>,
    actuals: Seq<Expression>,
    base: nat,
    shorter: nat,
    count: nat,
)
    requires
        shorter <= count <= formals.len(),
        lower_arguments(reg, env, formals, actuals, base, count).result is Ok,
    ensures
        lower_arguments(reg, env, formals, actuals, base, shorter).result is Ok,
    decreases count,
{
    if shorter < count {
        lemma_arguments_succeed_in_order(
            reg,
            env,
            formals,
            actuals,
            base,
            shorter,
            (count - 1) as nat,
        );
    }
}

/// A call that passes anything but a bare variable for a parameter that is
/// passed by reference never succeeds; it fails on that argument, as an
/// invalid reference argument, unless an earlier argument failed before.
pub proof fn lemma_reference_argument_must_be_variable(
    reg: Seq<FunctionMetaView>,
    env: Seq<BindingView>,
    name: Seq<char>,
    actuals: Seq<Expression>,
    base: nat,
    k: int,
)
    requires
        find_function(reg, name) is Some,
        0 <= k < find_function(reg, name)->0.prototype.arguments.len(),
        k < actuals.len(),
        find_function(reg, name)->0.prototype.arguments[k].direction.by_reference(),
        !(actuals[k] is Variable),
    ensures
        lower_call(reg, env, name, actuals, base).result is Err,
        lower_arguments(
            reg,
            env,
            find_function(reg, name)->0.prototype.arguments,
            actuals,
            base,
            k as nat,
        ).result is Ok ==> lower_call(reg, env, name, actuals, base).result == Err::<
            OperandView,
            CodegenError,
        >(CodegenError::InvalidReferenceArgument),
{
    let formals = find_function(reg, name)->0.prototype.arguments;
    let upto = lower_arguments(reg, env, formals, actuals, base, (k + 1) as nat);
    let before = lower_arguments(reg, env, formals, actuals, base, k as nat);
    let one = lower_argument(
        reg,
        env,
        formals[k].direction,
        actuals[k],
        base + before.code.len(),
    );
    assert(one.result == Err::<OperandView, CodegenError>(
        CodegenError::InvalidReferenceArgument,
    ));
    assert(upto.result is Err);
    lemma_arguments_error_is_final(
        reg,
        env,
        formals,
        actuals,
        base,
        (k + 1) as nat,
        formals.len(),
    );
    if before.result is Ok {
        assert(upto.result == Err::<Seq<OperandView>, CodegenError>(
            CodegenError::InvalidReferenceArgument,
        ));
    }
}

/// A bare variable that is bound always lowers as a reference argument:
/// nothing is emitted, and what is passed is the variable's location as it
/// is bound, not a value loaded from it.
pub proof fn lemma_reference_argument_passes_location(
    reg: Seq<FunctionMetaView>,
    env: Seq<BindingView>,
    direction: ParameterDirection,
    actual: Expression,
    base: nat,
)
    requires
        direction.by_reference(),
        actual matches Expression::Variable(x) && find_binding(env, x@) is Some,
    ensures
        lower_argument(reg, env, direction, actual, base).code.len() == 0,
        actual matches Expression::Variable(x) && lower_argument(
            reg,
            env,
            direction,
            actual,
            base,
        ).result == Ok::<OperandView, CodegenError>(find_binding(env, x@)->0.location),
{
}

/// A call of a subprogram whose only parameter is passed by reference,
/// with a bound variable as the argument, always succeeds: it lowers to the
/// call instruction alone, and what is passed is the variable's location.
pub proof fn lemma_call_by_reference(
    reg: Seq<FunctionMetaView>,
    env: Seq<BindingView>,
    name: Seq<char>,
    actuals: Seq<Expression>,
    base: nat,
)
    requires
        find_function(reg, name) is Some,
        find_function(reg, name)->0.prototype.arguments.len() == 1,
        find_function(reg, name)->0.prototype.arguments[0].direction.by_reference(),
        actuals.len() >= 1,
        actuals[0] matches Expression::Variable(x) && find_binding(env, x@) is Some,
    ensures
        actuals[0] matches Expression::Variable(x) && lower_call(reg, env, name, actuals, base).code
            == seq![
            InstructionView::Call {
                function: find_function(reg, name)->0.function,
                arguments: seq![find_binding(env, x@)->0.location],
            },
        ],
        lower_call(reg, env, name, actuals, base).result == Ok::<OperandView, CodegenError>(
            OperandView::Instruction(base),
        ),
{
    let formals = find_function(reg, name)->0.prototype.arguments;
    let none = lower_arguments(reg, env, formals, actuals, base, 0);
    let one = lower_arguments(reg, env, formals, actuals, base, 1);
    let passed = lower_argument(reg, env, formals[0].direction, actuals[0], base);
    assert(none.code.len() == 0);
    assert(passed.code.len() == 0);
    match actuals[0] {
        Expression::Variable(x) => {
            let location = find_binding(env, x@)->0.location;
            assert(one.result->Ok_0 =~= seq![location]);
            assert(one.code =~= Seq::empty());
            assert(lower_call(reg, env, name, actuals, base).code =~= seq![
                InstructionView::Call {
                    function: find_function(reg, name)->0.function,
                    arguments: seq![location],
                },
            ]);
        },
        _ => {},
    }
}

/// Declaring keeps a well-formed unit well-formed, makes the name known,
/// and leaves every entry that was there as it is, under its handle.
pub proof fn lemma_declare(unit: UnitView, p: PrototypeView)
    requires
        unit.wf(),
    ensures
        unit.declare(p).wf(),
        unit.declare(p).knows(p.name),
        unit.declare(p).handle_of(p.name) < unit.declare(p).functions.len(),
        forall|name: Seq<char>| #[trigger]
            unit.knows(name) ==> find_function(unit.declare(p).entries, name) == find_function(
                unit.entries,
                name,
            ),
{
    if unit.knows(p.name) {
        lemma_find_function_member(unit.entries, p.name);
    } else {
        let after = unit.declare(p);
        lemma_find_function_absent(unit.entries, p.name);
        lemma_find_function_first(after.entries, p.name, unit.entries.len() as int);
        assert(after.entries.drop_last() =~= unit.entries);
        assert forall|i: int, j: int| 0 <= i < j < after.entries.len() implies (
        #[trigger] after.entries[i]).prototype.name != (
        #[trigger] after.entries[j]).prototype.name by {
            if j < unit.entries.len() {
                assert(after.entries[i] == unit.entries[i]);
                assert(after.entries[j] == unit.entries[j]);
            } else {
                assert(after.entries[i] == unit.entries[i]);
            }
        }
    }
}

/// Lowering a node keeps a well-formed unit well-formed, whether it
/// succeeds or not, and never changes what a known name resolves to: the
/// registry only grows.
pub proof fn lemma_registry_only_grows(unit: UnitView, node: ASTNode)
    requires
        unit.wf(),
    ensures
        unit.codegen(node).unit.wf(),
        forall|name: Seq<char>| #[trigger]
            unit.knows(name) ==> find_function(unit.codegen(node).unit.entries, name)
                == find_function(unit.entries, name),
{
    match node {
        ASTNode::Subprogram(sp) => {
            lemma_declare(unit, sp.prototype@);
        },
        ASTNode::Declaration(dec) => {
            lemma_declare(unit, dec.prototype@);
        },
    }
}

/// A subprogram that is declared and defined later keeps the handle of its
/// declaration: the definition adds no entry, its block goes to the declared
/// function, and a call lowers to the same instructions before and after.
pub proof fn lemma_forward_reference(
    unit: UnitView,
    declaration: PrototypeView,
    definition: Subprogram,
    env: Seq<BindingView>,
    actuals: Seq<Expression>,
    base: nat,
)
    requires
        unit.wf(),
        definition.prototype@.name == declaration.name,
    ensures
        ({
            let declared = unit.declare(declaration);
            let defined = declared.define(definition).unit;
            let handle = declared.handle_of(declaration.name);
            &&& declared.knows(declaration.name)
            &&& defined.entries == declared.entries
            &&& defined.handle_of(declaration.name) == handle
            &&& defined.functions.len() == declared.functions.len()
            &&& defined.functions[handle as int].blocks == declared.functions[handle as int].blocks.push(
                lower_subprogram(
                    declared.entries,
                    definition.prototype@,
                    definition.variables@,
                    definition.body@,
                ).code,
            )
            &&& lower_call(defined.entries, env, declaration.name, actuals, base) == lower_call(
                declared.entries,
                env,
                declaration.name,
                actuals,
                base,
            )
        }),
{
    lemma_declare(unit, declaration);
}

/// A body in which a statement follows a `return` without a value is
/// always rejected as unreachable code; the block then ends in that return.
pub proof fn lemma_statement_after_return_fails(
    reg: Seq<FunctionMetaView>,
    prototype: PrototypeView,
    variables: Seq<VariableDeclaration>,
    body: Seq<Statement>,
)
    requires
        distinct(bound_names(prototype, variables)),
        body.len() >= 2,
        body[0] == Statement::Return(None),
    ensures
        lower_subprogram(reg, prototype, variables, body).result == Err::<(), CodegenError>(
            CodegenError::UnreachableCode,
        ),
        lower_subprogram(reg, prototype, variables, body).code == local_slots(variables).push(
            InstructionView::Return(None),
        ),
{
    let slots = local_slots(variables);
    let env = scope_of(prototype, variables, 0);
    let one = lower_statements(reg, env, body, slots.len(), 1);
    assert(lower_statements(reg, env, body, slots.len(), 0).code =~= Seq::empty());
    assert(one.result == Ok::<bool, CodegenError>(true));
    assert(one.code =~= seq![InstructionView::Return(None)]);
    let two = lower_statements(reg, env, body, slots.len(), 2);
    assert(two.result == Err::<bool, CodegenError>(CodegenError::UnreachableCode));
    lemma_statements_error_is_final(reg, env, body, slots.len(), 2, body.len());
    assert(slots + one.code =~= slots.push(InstructionView::Return(None)));
}

/// Whether every instruction of `code`, which starts at position `base` of
/// its block, refers only to arguments of its function and to instructions
/// before it, calls only functions of the module, and reserves only slots
/// for scalars.
pub open spec fn code_in_range(
    code: Seq<InstructionView>,
    arity: nat,
    base: nat,
    callables: nat,
) -> bool {
    forall|j: int|
        0 <= j < code.len() ==> replayable(#[trigger] code[j], arity, (base + j) as nat, callables)
}

/// Whether every binding of `env` is bound to an argument of the function
/// or to one of the first `position` instructions of the block.
pub open spec fn env_in_range(env: Seq<BindingView>, arity: nat, position: nat) -> bool {
    forall|k: int| 0 <= k < env.len() ==> operand_in_range((#[trigger] env[k]).location, arity, position)
}

/// Whether every entry of the registry holds the handle of one of the
/// first `callables` functions.
pub open spec fn registry_in_range(reg: Seq<FunctionMetaView>, callables: nat) -> bool {
    forall|k: int| 0 <= k < reg.len() ==> (#[trigger] reg[k]).function < callables
}

/// Code in range followed by code in range is in range.
pub proof fn lemma_code_in_range_concat(
    first: Seq<InstructionView>,
    second: Seq<InstructionView>,
    arity: nat,
    base: nat,
    callables: nat,
)
    requires
        code_in_range(first, arity, base, callables),
        code_in_range(second, arity, base + first.len(), callables),
    ensures
        code_in_range(first + second, arity, base, callables),
{
    let all = first + second;
    assert forall|j: int| 0 <= j < all.len() implies replayable(
        #[trigger] all[j],
        arity,
        (base + j) as nat,
        callables,
    ) by {
        if j < first.len() {
            assert(all[j] == first[j]);
        } else {
            assert(all[j] == second[j - first.len()]);
        }
    }
}

/// What an expression emits refers only to what is there, and so does the
/// operand that holds its value.
pub proof fn lemma_expression_in_range(
    reg: Seq<FunctionMetaView>,
    env: Seq<BindingView>,
    e: Expression,
    base: nat,
    arity: nat,
    callables: nat,
)
    requires
        env_in_range(env, arity, base),
        registry_in_range(reg, callables),
    ensures
        code_in_range(lower_expression(reg, env, e, base).code, arity, base, callables),
        lower_expression(reg, env, e, base).result matches Ok(v) ==> operand_in_range(
            v,
            arity,
            base + lower_expression(reg, env, e, base).code.len(),
        ),
    decreases e, 0nat, 0nat,
{
    match e {
        Expression::Variable(name) => {
            if find_binding(env, name@) is Some {
                lemma_find_binding_member(env, name@);
            }
        },
        Expression::Binary(op, lhs, rhs) => {
            let left = lower_expression(reg, env, *lhs, base);
            lemma_expression_in_range(reg, env, *lhs, base, arity, callables);
            if left.result is Ok {
                let right = lower_expression(reg, env, *rhs, base + left.code.len());
                lemma_expression_in_range(
                    reg,
                    env,
                    *rhs,
                    base + left.code.len(),
                    arity,
                    callables,
                );
                lemma_code_in_range_concat(left.code, right.code, arity, base, callables);
                let code = left.code + right.code;
                if right.result is Ok {
                    let last = lower_expression(reg, env, e, base).code;
                    if last.len() > code.len() {
                        assert(last =~= code + seq![last.last()]);
                        lemma_code_in_range_concat(
                            code,
                            seq![last.last()],
                            arity,
                            base,
                            callables,
                        );
                    }
                }
            }
        },
        Expression::FunctionCall(name, args) => {
            lemma_call_in_range(reg, env, name@, args@, base, arity, callables);
        },
        _ => {},
    }
}

/// What the arguments of a call emit refers only to what is there, and so
/// do the operands that are passed.
pub proof fn lemma_arguments_in_range(
    reg: Seq<FunctionMetaView>,
    env: Seq<BindingView>,
    formals: Seq<ArgumentDeclarationView>,
    actuals: Seq<Expression>,
    base: nat,
    count: nat,
    arity: nat,
    callables: nat,
)
    requires
        env_in_range(env, arity, base),
        registry_in_range(reg, callables),
    ensures
        code_in_range(
            lower_arguments(reg, env, formals, actuals, base, count).code,
            arity,
            base,
            callables,
        ),
        lower_arguments(reg, env, formals, actuals, base, count).result matches Ok(values)
            ==> forall|k: int|
            0 <= k < values.len() ==> operand_in_range(
                #[trigger] values[k],
                arity,
                base + lower_arguments(reg, env, formals, actuals, base, count).code.len(),
            ),
    decreases actuals, 0nat, count,
{
    if !(count == 0 || count > formals.len()) {
        let before = lower_arguments(reg, env, formals, actuals, base, (count - 1) as nat);
        lemma_arguments_in_range(
            reg,
            env,
            formals,
            actuals,
            base,
            (count - 1) as nat,
            arity,
            callables,
        );
        if before.result is Ok && count <= actuals.len() {
            let at = base + before.code.len();
            let one = lower_argument(reg, env, formals[count - 1].direction, actuals[count - 1], at);
            if formals[count - 1].direction.by_reference() {
                match actuals[count - 1] {
                    Expression::Variable(name) => {
                        if find_binding(env, name@) is Some {
                            lemma_find_binding_member(env, name@);
                        }
                    },
                    _ => {},
                }
                assert(one.code.len() == 0);
            } else {
                lemma_expression_in_range(reg, env, actuals[count - 1], at, arity, callables);
            }
            lemma_code_in_range_concat(before.code, one.code, arity, base, callables);
        }
    }
}

/// What a call emits refers only to what is there.
pub proof fn lemma_call_in_range(
    reg: Seq<FunctionMetaView>,
    env: Seq<BindingView>,
    name: Seq<char>,
    actuals: Seq<Expression>,
    base: nat,
    arity: nat,
    callables: nat,
)
    requires
        env_in_range(env, arity, base),
        registry_in_range(reg, callables),
    ensures
        code_in_range(lower_call(reg, env, name, actuals, base).code, arity, base, callables),
        lower_call(reg, env, name, actuals, base).result matches Ok(v) ==> operand_in_range(
            v,
            arity,
            base + lower_call(reg, env, name, actuals, base).code.len(),
        ),
    decreases actuals, 1nat, 0nat,
{
    match find_function(reg, name) {
        None => {},
        Some(meta) => {
            lemma_find_function_member(reg, name);
            let formals = meta.prototype.arguments;
            let passed = lower_arguments(reg, env, formals, actuals, base, formals.len());
            lemma_arguments_in_range(
                reg,
                env,
                formals,
                actuals,
                base,
                formals.len(),
                arity,
                callables,
            );
            match passed.result {
                Ok(values) => {
                    let call = InstructionView::Call { function: meta.function, arguments: values };
                    assert(passed.code.push(call) =~= passed.code + seq![call]);
                    lemma_code_in_range_concat(passed.code, seq![call], arity, base, callables);
                },
                Err(_) => {},
            }
        },
    }
}

/// What a statement emits refers only to what is there.
pub proof fn lemma_statement_in_range(
    reg: Seq<FunctionMetaView>,
    env: Seq<BindingView>,
    s: Statement,
    base: nat,
    arity: nat,
    callables: nat,
)
    requires
        env_in_range(env, arity, base),
        registry_in_range(reg, callables),
    ensures
        code_in_range(lower_statement(reg, env, s, base).code, arity, base, callables),
{
    let one = lower_statement(reg, env, s, base);
    match s {
        Statement::Return(None) => {},
        Statement::Return(Some(e)) => {
            let value = lower_expression(reg, env, e, base);
            lemma_expression_in_range(reg, env, e, base, arity, callables);
            if value.result is Ok {
                assert(one.code =~= value.code + seq![one.code.last()]);
                lemma_code_in_range_concat(
                    value.code,
                    seq![one.code.last()],
                    arity,
                    base,
                    callables,
                );
            }
        },
        Statement::Assignment(dest, e) => {
            if find_binding(env, dest@) is Some {
                lemma_find_binding_member(env, dest@);
                if find_binding(env, dest@)->0.addressable {
                    let value = lower_expression(reg, env, e, base);
                    lemma_expression_in_range(reg, env, e, base, arity, callables);
                    if value.result is Ok {
                        assert(one.code =~= value.code + seq![one.code.last()]);
                        lemma_code_in_range_concat(
                            value.code,
                            seq![one.code.last()],
                            arity,
                            base,
                            callables,
                        );
                    }
                }
            }
        },
        Statement::ProcedureCall(name, args) => {
            lemma_call_in_range(reg, env, name@, args@, base, arity, callables);
        },
    }
}

/// What the statements of a body emit refers only to what is there.
pub proof fn lemma_statements_in_range(
    reg: Seq<FunctionMetaView>,
    env: Seq<BindingView>,
    body: Seq<Statement>,
    base: nat,
    count: nat,
    arity: nat,
    callables: nat,
)
    requires
        env_in_range(env, arity, base),
        registry_in_range(reg, callables),
    ensures
        code_in_range(
            lower_statements(reg, env, body, base, count).code,
            arity,
            base,
            callables,
        ),
    decreases count,
{
    if !(count == 0 || count > body.len()) {
        let before = lower_statements(reg, env, body, base, (count - 1) as nat);
        lemma_statements_in_range(reg, env, body, base, (count - 1) as nat, arity, callables);
        if before.result == Ok::<bool, CodegenError>(false) {
            let at = base + before.code.len();
            lemma_statement_in_range(reg, env, body[count - 1], at, arity, callables);
            lemma_code_in_range_concat(
                before.code,
                lower_statement(reg, env, body[count - 1], at).code,
                arity,
                base,
                callables,
            );
        }
    }
}

/// Whatever is emitted for a subprogram, in full or cut short by an error,
/// refers only to what is there: to the subprogram's own parameters, to
/// instructions earlier in the block, and to functions of the module.
pub proof fn lemma_block_in_range(
    reg: Seq<FunctionMetaView>,
    prototype: PrototypeView,
    variables: Seq<VariableDeclaration>,
    body: Seq<Statement>,
    callables: nat,
)
    requires
        registry_in_range(reg, callables),
    ensures
        code_in_range(
            lower_subprogram(reg, prototype, variables, body).code,
            prototype.arguments.len(),
            0,
            callables,
        ),
{
    if distinct(bound_names(prototype, variables)) {
        let arity = prototype.arguments.len();
        let slots = local_slots(variables);
        let env = scope_of(prototype, variables, 0);
        let statements = lower_statements(reg, env, body, slots.len(), body.len());
        assert(env_in_range(env, arity, slots.len()));
        lemma_statements_in_range(reg, env, body, slots.len(), body.len(), arity, callables);
        lemma_code_in_range_concat(slots, statements.code, arity, 0, callables);
        let code = slots + statements.code;
        let last = InstructionView::Return(None);
        assert(code.push(last) =~= code + seq![last]);
        lemma_code_in_range_concat(code, seq![last], arity, 0, callables);
    }
}

/// The block that a definition appends goes to the function that the
/// subprogram's name resolves to, and refers only to parameters of the
/// subprogram, to instructions earlier in the block and to functions of the
/// unit.  Where the lowering succeeded, the block is not empty and its only
/// terminator is its last instruction.
pub proof fn lemma_defined_block(unit: UnitView, sp: Subprogram)
    requires
        unit.wf(),
    ensures
        ({
            let declared = unit.declare(sp.prototype@);
            let block = lower_subprogram(
                declared.entries,
                sp.prototype@,
                sp.variables@,
                sp.body@,
            );
            let step = unit.define(sp);
            let handle = declared.handle_of(sp.prototype@.name);
            &&& handle < step.unit.functions.len()
            &&& step.unit.functions.len() == declared.functions.len()
            &&& step.unit.functions[handle as int].blocks.last() == block.code
            &&& code_in_range(
                block.code,
                sp.prototype@.arguments.len(),
                0,
                step.unit.functions.len(),
            )
            &&& step.result is Ok ==> block.code.len() > 0 && terminated_at_end(
                block.code,
                block.code.len(),
            )
        }),
{
    let declared = unit.declare(sp.prototype@);
    let block = lower_subprogram(declared.entries, sp.prototype@, sp.variables@, sp.body@);
    lemma_declare(unit, sp.prototype@);
    assert(registry_in_range(declared.entries, declared.functions.len()));
    lemma_block_in_range(
        declared.entries,
        sp.prototype@,
        sp.variables@,
        sp.body@,
        declared.functions.len(),
    );
    lemma_block_has_one_terminator(declared.entries, sp.prototype@, sp.variables@, sp.body@);
    if block.result is Ok {
        assert forall|i: int| 0 <= i < block.code.len() implies ((
        #[trigger] block.code[i]).is_terminator() <==> i == block.code.len() - 1) by {
            if i < block.code.len() - 1 {
                assert(block.code[i] == block.code.drop_last()[i]);
            }
        }
    }
}

} // verus!
