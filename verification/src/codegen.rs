//! The lowering engine: walks the syntax tree and emits instructions.
use vstd::prelude::*;
use crate::error::CodegenError;
use crate::expression::Expression;
use crate::ir::{ArithmeticOp, BlockBuilder, FunctionIr, ModuleIr, Operand, OperandView};
use crate::mapper::function_type_from_prototype;
use crate::lowering::{
    bound_names, distinct, find_function, lemma_arguments_error_is_final,
    lemma_find_function_absent, lemma_find_function_first, lemma_find_function_member,
    lemma_find_function_none, lemma_statements_error_is_final, local_slots, lower_argument,
    lower_arguments, lower_call, lower_expression, lower_statement, lower_statements,
    lower_subprogram, operator_of, scope_of, FunctionMetaView,
};
use crate::prototype::Prototype;
use crate::scope::{build_scope, has_duplicate_names, SubprogramContext};
use crate::statement::Statement;
use crate::subprogram::{ASTNode, Declaration, Subprogram};
use crate::unit::UnitView;
use crate::views::{lemma_views_push, views};

verus! {

/// An entry of the function registry: the handle of a callable and the
/// prototype that every call of it goes by.
#[derive(Clone, Debug, PartialEq, Eq)]
pub struct FunctionMeta {
    pub function: usize,
    pub prototype: Prototype,
}

impl View for FunctionMeta {
    type V = FunctionMetaView;

    open spec fn view(&self) -> FunctionMetaView {
        FunctionMetaView { function: self.function as nat, prototype: self.prototype@ }
    }
}

/// The view of an operand that lowering may have failed to produce.
pub open spec fn operand_result(r: Result<Operand, CodegenError>) -> Result<
    OperandView,
    CodegenError,
> {
    match r {
        Ok(v) => Ok(v@),
        Err(err) => Err(err),
    }
}

/// An outcome without its value.
pub open spec fn unit_result<T>(r: Result<T, CodegenError>) -> Result<(), CodegenError> {
    match r {
        Ok(_) => Ok(()),
        Err(err) => Err(err),
    }
}

/// The arithmetic instruction that an operator stands for.
pub fn operator(op: &String) -> (r: Option<ArithmeticOp>)
    ensures
        r == operator_of(op@),
{
    let text = op.as_str();
    if text.unicode_len() != 1 {
        return None;
    }
    let c = text.get_char(0);
    if c == '+' {
        Some(ArithmeticOp::Add)
    } else if c == '-' {
        Some(ArithmeticOp::Sub)
    } else if c == '*' {
        Some(ArithmeticOp::Mul)
    } else if c == '/' {
        Some(ArithmeticOp::Div)
    } else {
        None
    }
}

/// The state of the lowering of one compilation unit: the module that is
/// emitted into, and the registry of the subprograms met so far.
pub struct CodegenContext {
    module: ModuleIr,
    fmap: Vec<FunctionMeta>,
}

impl View for CodegenContext {
    type V = UnitView;

    closed spec fn view(&self) -> UnitView {
        UnitView { functions: self.module@, entries: views(self.fmap@) }
    }
}

impl CodegenContext {
    /// A context for a unit into which nothing was emitted yet.
    pub fn new() -> (r: CodegenContext)
        ensures
            r@ == UnitView::empty(),
            r@.wf(),
    {
        let r = CodegenContext { module: ModuleIr { functions: Vec::new() }, fmap: Vec::new() };
        assert(r@.functions =~= Seq::empty());
        assert(r@.entries =~= Seq::empty());
        r
    }

    /// The module as emitted so far.
    pub fn module(&self) -> (r: &ModuleIr)
        ensures
            r@ == self@.functions,
    {
        &self.module
    }

    /// The registry, in the order of registration.
    pub fn fmap(&self) -> (r: &Vec<FunctionMeta>)
        ensures
            views(r@) == self@.entries,
    {
        &self.fmap
    }

    /// The registry entry of `name`; an unknown symbol if there is none.
    pub fn lookup(&self, name: &String) -> (r: Result<&FunctionMeta, CodegenError>)
        ensures
            match r {
                Ok(m) => find_function(self@.entries, name@) == Some(m@),
                Err(err) => err == CodegenError::UnknownSymbol && find_function(
                    self@.entries,
                    name@,
                ) is None,
            },
    {
        let mut i: usize = 0;
        while i < self.fmap.len()
            invariant
                i <= self.fmap.len(),
                forall|k: int| 0 <= k < i ==> self@.entries[k].prototype.name != name@,
            decreases self.fmap.len() - i,
        {
            if self.fmap[i].prototype.name == *name {
                proof {
                    lemma_find_function_first(self@.entries, name@, i as int);
                }
                return Ok(&self.fmap[i]);
            }
            i += 1;
        }
        proof {
            lemma_find_function_none(self@.entries, name@);
        }
        Err(CodegenError::UnknownSymbol)
    }

    /// Lowers one top-level node into the module.
    pub fn codegen(&mut self, ast_node: &ASTNode) -> (r: Result<(), CodegenError>)
        requires
            old(self)@.wf(),
        ensures
            final(self)@.wf(),
            final(self)@ == old(self)@.codegen(*ast_node).unit,
            r == old(self)@.codegen(*ast_node).result,
    {
        match ast_node {
            ASTNode::Subprogram(sp) => self.codegen_subprogram(sp),
            ASTNode::Declaration(dec) => {
                self.codegen_dec(dec);
                Ok(())
            },
        }
    }

    /// Registers a prototype unless its name is known, and gives the handle
    /// that the name resolves to.
    pub fn register(&mut self, prototype: &Prototype) -> (handle: usize)
        requires
            old(self)@.wf(),
        ensures
            final(self)@.wf(),
            final(self)@ == old(self)@.declare(prototype@),
            final(self)@.knows(prototype@.name),
            handle == final(self)@.handle_of(prototype@.name),
            handle < final(self)@.functions.len(),
    {
        match self.lookup(&prototype.name) {
            Ok(meta) => {
                proof {
                    lemma_find_function_member(self@.entries, prototype@.name);
                }
                meta.function
            },
            Err(_) => {
                let handle = self.module.functions.len();
                let function = FunctionIr {
                    name: prototype.name.clone(),
                    signature: function_type_from_prototype(prototype),
                    blocks: Vec::new(),
                };
                let meta = FunctionMeta { function: handle, prototype: prototype.duplicate() };
                proof {
                    lemma_views_push(self.module.functions@, function);
                    lemma_views_push(self.fmap@, meta);
                    assert(function@.blocks =~= Seq::empty());
                    lemma_find_function_absent(self@.entries, prototype@.name);
                    lemma_find_function_first(
                        self@.entries.push(meta@),
                        prototype@.name,
                        handle as int,
                    );
                }
                self.module.functions.push(function);
                self.fmap.push(meta);
                handle
            },
        }
    }

    /// Registers the prototype of a declaration.  Declaring a known name
    /// again changes nothing.
    pub fn codegen_dec(&mut self, dec: &Declaration)
        requires
            old(self)@.wf(),
        ensures
            final(self)@.wf(),
            final(self)@ == old(self)@.declare(dec.prototype@),
    {
        let _ = self.register(&dec.prototype);
    }

    /// Lowers a subprogram: registers it unless its name is known, and
    /// appends its block to the function that the name resolves to.
    pub fn codegen_subprogram(&mut self, sp: &Subprogram) -> (r: Result<(), CodegenError>)
        requires
            old(self)@.wf(),
        ensures
            final(self)@.wf(),
            final(self)@ == old(self)@.define(*sp).unit,
            r == old(self)@.define(*sp).result,
    {
        let handle = self.register(&sp.prototype);
        let mut builder = BlockBuilder::new();
        let r = self.codegen_body(sp, handle, &mut builder);
        let block = builder.finish();
        let ghost declared = self@;
        proof {
            lemma_views_push(self.module.functions@[handle as int].blocks@, block);
        }
        self.module.functions[handle].blocks.push(block);
        proof {
            assert(self@.functions =~= declared.with_block(handle as nat, block@).functions);
            assert(self@.entries == declared.entries);
        }
        r
    }

    /// Lowers the block of a subprogram into an empty builder: the slots of
    /// the local variables, the statements in order, and the closing return
    /// of a procedure whose body runs off its end.
    pub fn codegen_body(&self, sp: &Subprogram, handle: usize, builder: &mut BlockBuilder) -> (r: Result<
        (),
        CodegenError,
    >)
        requires
            old(builder)@.len() == 0,
        ensures
            final(builder)@ == lower_subprogram(
                self@.entries,
                sp.prototype@,
                sp.variables@,
                sp.body@,
            ).code,
            r == lower_subprogram(self@.entries, sp.prototype@, sp.variables@, sp.body@).result,
    {
        let ghost reg = self@.entries;
        if has_duplicate_names(&sp.prototype, &sp.variables) {
            assert(builder@ =~= Seq::empty());
            return Err(CodegenError::DuplicateBinding);
        }
        let vars = build_scope(&sp.prototype, &sp.variables, builder);
        let sctx = SubprogramContext { vars, func: handle };
        let ghost env = scope_of(sp.prototype@, sp.variables@, 0);
        let ghost slots = local_slots(sp.variables@);
        assert(builder@ =~= slots);
        let mut has_returned = false;
        let mut i: usize = 0;
        while i < sp.body.len()
            invariant
                i <= sp.body.len(),
                reg == self@.entries,
                sctx.env() == env,
                env == scope_of(sp.prototype@, sp.variables@, 0),
                slots == local_slots(sp.variables@),
                distinct(bound_names(sp.prototype@, sp.variables@)),
                builder@ == slots + lower_statements(reg, env, sp.body@, slots.len(), i as nat).code,
                lower_statements(reg, env, sp.body@, slots.len(), i as nat).result == Ok::<
                    bool,
                    CodegenError,
                >(has_returned),
            decreases sp.body.len() - i,
        {
            let ghost before = lower_statements(reg, env, sp.body@, slots.len(), i as nat);
            let ghost next = lower_statements(reg, env, sp.body@, slots.len(), (i + 1) as nat);
            if has_returned {
                proof {
                    assert(next.result == Err::<bool, CodegenError>(CodegenError::UnreachableCode));
                    assert(next.code == before.code);
                    lemma_statements_error_is_final(
                        reg,
                        env,
                        sp.body@,
                        slots.len(),
                        (i + 1) as nat,
                        sp.body@.len(),
                    );
                }
                return Err(CodegenError::UnreachableCode);
            }
            let r = self.codegen_statement(&sp.body[i], &mut has_returned, &sctx, builder);
            proof {
                let one = lower_statement(
                    reg,
                    env,
                    sp.body@[i as int],
                    slots.len() + before.code.len(),
                );
                assert(next.code == before.code + one.code);
                assert(next.result == one.result);
                assert(builder@ =~= slots + next.code);
            }
            match r {
                Err(err) => {
                    proof {
                        lemma_statements_error_is_final(
                            reg,
                            env,
                            sp.body@,
                            slots.len(),
                            (i + 1) as nat,
                            sp.body@.len(),
                        );
                    }
                    return Err(err);
                },
                Ok(()) => {},
            }
            i += 1;
        }
        if !has_returned {
            if sp.prototype.returns.is_some() {
                return Err(CodegenError::MissingReturnValue);
            }
            builder.build_ret(None);
        }
        Ok(())
    }

    /// Lowers a call: each actual argument against its formal, in declared
    /// order, then the call instruction.
    pub fn codegen_call(
        &self,
        name: &String,
        parameters: &Vec<Expression>,
        sctx: &SubprogramContext,
        builder: &mut BlockBuilder,
    ) -> (r: Result<Operand, CodegenError>)
        ensures
            final(builder)@ == old(builder)@ + lower_call(
                self@.entries,
                sctx.env(),
                name@,
                parameters@,
                old(builder)@.len(),
            ).code,
            operand_result(r) == lower_call(
                self@.entries,
                sctx.env(),
                name@,
                parameters@,
                old(builder)@.len(),
            ).result,
        decreases parameters, 1nat,
    {
        let ghost reg = self@.entries;
        let ghost env = sctx.env();
        let ghost base = old(builder)@.len();
        let func = match self.lookup(name) {
            Ok(meta) => meta,
            Err(err) => {
                assert(builder@ =~= old(builder)@ + Seq::empty());
                return Err(err);
            },
        };
        let ghost formals = func@.prototype.arguments;
        let mut args: Vec<Operand> = Vec::new();
        let mut par_index: usize = 0;
        assert(builder@ =~= old(builder)@ + Seq::empty());
        assert(views(args@) =~= Seq::empty());
        while par_index < func.prototype.arguments.len()
            invariant
                par_index <= func.prototype.arguments.len(),
                formals == func@.prototype.arguments,
                find_function(reg, name@) == Some(func@),
                reg == self@.entries,
                env == sctx.env(),
                base == old(builder)@.len(),
                builder@ == old(builder)@ + lower_arguments(
                    reg,
                    env,
                    formals,
                    parameters@,
                    base,
                    par_index as nat,
                ).code,
                lower_arguments(reg, env, formals, parameters@, base, par_index as nat).result
                    == Ok::<Seq<OperandView>, CodegenError>(views(args@)),
            decreases func.prototype.arguments.len() - par_index,
        {
            let ghost before = lower_arguments(reg, env, formals, parameters@, base, par_index as nat);
            let ghost next = lower_arguments(
                reg,
                env,
                formals,
                parameters@,
                base,
                (par_index + 1) as nat,
            );
            let ghost count = formals.len();
            if par_index >= parameters.len() {
                proof {
                    assert(next.result == Err::<Seq<OperandView>, CodegenError>(
                        CodegenError::MissingArgument,
                    ));
                    assert(next.code == before.code);
                    lemma_arguments_error_is_final(
                        reg,
                        env,
                        formals,
                        parameters@,
                        base,
                        (par_index + 1) as nat,
                        count,
                    );
                }
                return Err(CodegenError::MissingArgument);
            }
            let arg = &func.prototype.arguments[par_index];
            let passed = if arg.direction.is_by_reference() {
                match &parameters[par_index] {
                    Expression::Variable(s) => match sctx.lookup(s) {
                        Some(binding) => Ok(binding.location),
                        None => Err(CodegenError::UndefinedVariable),
                    },
                    _ => Err(CodegenError::InvalidReferenceArgument),
                }
            } else {
                self.codegen_expression(&parameters[par_index], sctx, builder)
            };
            proof {
                let one = lower_argument(
                    reg,
                    env,
                    formals[par_index as int].direction,
                    parameters@[par_index as int],
                    base + before.code.len(),
                );
                assert(operand_result(passed) == one.result);
                assert(next.code == before.code + one.code);
                assert(builder@ =~= old(builder)@ + next.code);
            }
            match passed {
                Err(err) => {
                    proof {
                        lemma_arguments_error_is_final(
                            reg,
                            env,
                            formals,
                            parameters@,
                            base,
                            (par_index + 1) as nat,
                            count,
                        );
                    }
                    return Err(err);
                },
                Ok(v) => {
                    proof {
                        lemma_views_push(args@, v);
                    }
                    args.push(v);
                },
            }
            par_index += 1;
        }
        let v = builder.build_call(func.function, args);
        assert(builder@ =~= old(builder)@ + lower_call(reg, env, name@, parameters@, base).code);
        Ok(v)
    }

    /// Lowers a statement.  `has_returned` is set by a `return`.
    pub fn codegen_statement(
        &self,
        s: &Statement,
        has_returned: &mut bool,
        sctx: &SubprogramContext,
        builder: &mut BlockBuilder,
    ) -> (r: Result<(), CodegenError>)
        ensures
            *final(has_returned) == (*old(has_returned) || s is Return),
            final(builder)@ == old(builder)@ + lower_statement(
                self@.entries,
                sctx.env(),
                *s,
                old(builder)@.len(),
            ).code,
            r == unit_result(
                lower_statement(self@.entries, sctx.env(), *s, old(builder)@.len()).result,
            ),
    {
        let ghost expected = lower_statement(self@.entries, sctx.env(), *s, old(builder)@.len());
        match s {
            Statement::Return(val) => {
                *has_returned = true;
                match val {
                    Some(exp) => {
                        let v = self.codegen_expression(exp, sctx, builder);
                        match v {
                            Err(err) => Err(err),
                            Ok(v) => {
                                builder.build_ret(Some(v));
                                assert(builder@ =~= old(builder)@ + expected.code);
                                Ok(())
                            },
                        }
                    },
                    None => {
                        builder.build_ret(None);
                        assert(builder@ =~= old(builder)@ + expected.code);
                        Ok(())
                    },
                }
            },
            Statement::Assignment(dest, val) => {
                let location = match sctx.lookup(dest) {
                    None => {
                        assert(builder@ =~= old(builder)@ + expected.code);
                        return Err(CodegenError::UndefinedVariable);
                    },
                    Some(binding) => {
                        if !binding.addressable {
                            assert(builder@ =~= old(builder)@ + expected.code);
                            return Err(CodegenError::ImmutableAssignment);
                        }
                        binding.location
                    },
                };
                match self.codegen_expression(val, sctx, builder) {
                    Err(err) => Err(err),
                    Ok(v) => {
                        builder.build_store(v, location);
                        assert(builder@ =~= old(builder)@ + expected.code);
                        Ok(())
                    },
                }
            },
            Statement::ProcedureCall(name, args) => {
                match self.codegen_call(name, args, sctx, builder) {
                    Err(err) => Err(err),
                    Ok(_) => Ok(()),
                }
            },
        }
    }

    /// Lowers an expression to the operand that holds its value.
    pub fn codegen_expression(
        &self,
        e: &Expression,
        sctx: &SubprogramContext,
        builder: &mut BlockBuilder,
    ) -> (r: Result<Operand, CodegenError>)
        ensures
            final(builder)@ == old(builder)@ + lower_expression(
                self@.entries,
                sctx.env(),
                *e,
                old(builder)@.len(),
            ).code,
            operand_result(r) == lower_expression(
                self@.entries,
                sctx.env(),
                *e,
                old(builder)@.len(),
            ).result,
        decreases e, 0nat,
    {
        let ghost expected = lower_expression(self@.entries, sctx.env(), *e, old(builder)@.len());
        match e {
            Expression::IntValue(x) => {
                assert(builder@ =~= old(builder)@ + expected.code);
                Ok(Operand::ConstInt(*x))
            },
            Expression::FloatValue(bits) => {
                assert(builder@ =~= old(builder)@ + expected.code);
                Ok(Operand::ConstFloat(*bits))
            },
            Expression::Variable(name) => {
                match sctx.lookup(name) {
                    None => {
                        assert(builder@ =~= old(builder)@ + expected.code);
                        Err(CodegenError::UndefinedVariable)
                    },
                    Some(var_info) => {
                        if var_info.addressable {
                            let v = builder.build_load(var_info.location);
                            assert(builder@ =~= old(builder)@ + expected.code);
                            Ok(v)
                        } else {
                            assert(builder@ =~= old(builder)@ + expected.code);
                            Ok(var_info.location)
                        }
                    },
                }
            },
            Expression::Binary(op, lhs, rhs) => {
                let v1 = match self.codegen_expression(lhs, sctx, builder) {
                    Err(err) => {
                        return Err(err);
                    },
                    Ok(v) => v,
                };
                let v2 = match self.codegen_expression(rhs, sctx, builder) {
                    Err(err) => {
                        assert(builder@ =~= old(builder)@ + expected.code);
                        return Err(err);
                    },
                    Ok(v) => v,
                };
                match operator(op) {
                    None => {
                        assert(builder@ =~= old(builder)@ + expected.code);
                        Err(CodegenError::UnimplementedOperator)
                    },
                    Some(o) => {
                        let v = builder.build_arithmetic(o, v1, v2);
                        assert(builder@ =~= old(builder)@ + expected.code);
                        Ok(v)
                    },
                }
            },
            Expression::FunctionCall(name, args) => {
                match self.lookup(name) {
                    Ok(meta) => {
                        if meta.prototype.returns.is_none() {
                            assert(builder@ =~= old(builder)@ + expected.code);
                            return Err(CodegenError::VoidUsedAsValue);
                        }
                    },
                    Err(_) => {},
                }
                self.codegen_call(name, args, sctx, builder)
            },
        }
    }
}

} // verus!
