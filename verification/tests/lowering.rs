use ada_codegen::codegen::{operator, CodegenContext};
use ada_codegen::data_type::DataType;
use ada_codegen::error::CodegenError;
use ada_codegen::expression::Expression;
use ada_codegen::ir::{ArithmeticOp, BlockBuilder, FunctionType, Instruction, IrType, Operand};
use ada_codegen::prototype::{ArgumentDeclaration, ParameterDirection, Prototype};
use ada_codegen::mapper::{
    codegen_datatype, function_type_from_prototype, pointer_type, void_type,
};
use ada_codegen::scope::{build_scope, has_duplicate_names, Binding, SubprogramContext};
use ada_codegen::statement::Statement;
use ada_codegen::subprogram::{ASTNode, Declaration, Subprogram, VariableDeclaration};

fn param(name: &str, data_type: DataType, direction: ParameterDirection) -> ArgumentDeclaration {
    ArgumentDeclaration { name: name.to_string(), data_type, direction }
}

fn proto(name: &str, arguments: Vec<ArgumentDeclaration>, returns: Option<DataType>) -> Prototype {
    Prototype { name: name.to_string(), arguments, returns }
}

fn local(name: &str, data_type: DataType) -> VariableDeclaration {
    VariableDeclaration { name: name.to_string(), data_type }
}

fn var(name: &str) -> Expression {
    Expression::Variable(name.to_string())
}

fn binary(op: &str, lhs: Expression, rhs: Expression) -> Expression {
    Expression::Binary(op.to_string(), Box::new(lhs), Box::new(rhs))
}

fn define(ctx: &mut CodegenContext, sp: Subprogram) -> Result<(), CodegenError> {
    ctx.codegen(&ASTNode::Subprogram(sp))
}

fn declare(ctx: &mut CodegenContext, prototype: Prototype) {
    ctx.codegen(&ASTNode::Declaration(Declaration { prototype })).unwrap();
}

fn last_block(ctx: &CodegenContext, handle: usize) -> Vec<Instruction> {
    ctx.module().functions[handle].blocks.last().unwrap().instructions.clone()
}

/// A procedure `Main` with parameter `X: in Integer` and local `C: Integer`.
fn main_with(body: Vec<Statement>) -> Subprogram {
    Subprogram {
        prototype: proto("Main", vec![param("X", DataType::Integer, ParameterDirection::In)], None),
        variables: vec![local("C", DataType::Integer)],
        body,
    }
}

#[test]
fn test_arithmetic() {
    let cases = [
        ("+", ArithmeticOp::Add),
        ("-", ArithmeticOp::Sub),
        ("*", ArithmeticOp::Mul),
        ("/", ArithmeticOp::Div),
    ];
    for (text, op) in cases {
        assert_eq!(operator(&text.to_string()), Some(op));
        let ctx = CodegenContext::new();
        let sctx = SubprogramContext {
            vars: vec![Binding {
                name: "X".to_string(),
                location: Operand::Argument(0),
                addressable: false,
            }],
            func: 0,
        };
        let mut builder = BlockBuilder::new();
        let e = binary(text, Expression::IntValue(11), var("X"));
        let v = ctx.codegen_expression(&e, &sctx, &mut builder);
        assert_eq!(v, Ok(Operand::Instruction(0)));
        assert_eq!(
            builder.finish().instructions,
            vec![Instruction::Arithmetic(op, Operand::ConstInt(11), Operand::Argument(0))]
        );
    }
}

#[test]
fn operands_are_lowered_left_to_right() {
    let ctx = CodegenContext::new();
    let sctx = SubprogramContext {
        vars: vec![
            Binding { name: "A".to_string(), location: Operand::Instruction(0), addressable: true },
            Binding { name: "B".to_string(), location: Operand::Instruction(1), addressable: true },
        ],
        func: 0,
    };
    let mut builder = BlockBuilder::new();
    builder.build_alloca(IrType::Scalar(DataType::Integer));
    builder.build_alloca(IrType::Scalar(DataType::Integer));
    let e = binary("-", binary("*", var("A"), Expression::IntValue(2)), var("B"));
    assert_eq!(ctx.codegen_expression(&e, &sctx, &mut builder), Ok(Operand::Instruction(5)));
    assert_eq!(
        builder.finish().instructions,
        vec![
            Instruction::Alloca(IrType::Scalar(DataType::Integer)),
            Instruction::Alloca(IrType::Scalar(DataType::Integer)),
            Instruction::Load(Operand::Instruction(0)),
            Instruction::Arithmetic(ArithmeticOp::Mul, Operand::Instruction(2), Operand::ConstInt(2)),
            Instruction::Load(Operand::Instruction(1)),
            Instruction::Arithmetic(
                ArithmeticOp::Sub,
                Operand::Instruction(3),
                Operand::Instruction(4)
            ),
        ]
    );
}

#[test]
fn unknown_operator_is_rejected_after_its_operands() {
    assert_eq!(operator(&"%".to_string()), None);
    assert_eq!(operator(&"".to_string()), None);
    assert_eq!(operator(&"++".to_string()), None);
    let ctx = CodegenContext::new();
    let sctx = SubprogramContext {
        vars: vec![Binding {
            name: "A".to_string(),
            location: Operand::Instruction(0),
            addressable: true,
        }],
        func: 0,
    };
    let mut builder = BlockBuilder::new();
    let e = binary("%", var("A"), Expression::IntValue(2));
    assert_eq!(
        ctx.codegen_expression(&e, &sctx, &mut builder),
        Err(CodegenError::UnimplementedOperator)
    );
    assert_eq!(builder.finish().instructions, vec![Instruction::Load(Operand::Instruction(0))]);
    let mut builder = BlockBuilder::new();
    let e = binary("%", var("Missing"), Expression::IntValue(2));
    assert_eq!(
        ctx.codegen_expression(&e, &sctx, &mut builder),
        Err(CodegenError::UndefinedVariable)
    );
}

#[test]
fn literals_are_constants() {
    let ctx = CodegenContext::new();
    let sctx = SubprogramContext { vars: vec![], func: 0 };
    let mut builder = BlockBuilder::new();
    assert_eq!(
        ctx.codegen_expression(&Expression::IntValue(-42), &sctx, &mut builder),
        Ok(Operand::ConstInt(-42))
    );
    let bits = 1.5f32.to_bits();
    assert_eq!(
        ctx.codegen_expression(&Expression::FloatValue(bits), &sctx, &mut builder),
        Ok(Operand::ConstFloat(bits))
    );
    assert_eq!(builder.position(), 0);
}

#[test]
fn assignment_then_return_of_a_local() {
    let mut ctx = CodegenContext::new();
    let sp = Subprogram {
        prototype: proto(
            "Main",
            vec![param("X", DataType::Integer, ParameterDirection::In)],
            Some(DataType::Integer),
        ),
        variables: vec![local("C", DataType::Integer)],
        body: vec![
            Statement::Assignment("C".to_string(), binary("+", Expression::IntValue(11), var("X"))),
            Statement::Return(Some(var("C"))),
        ],
    };
    assert_eq!(define(&mut ctx, sp), Ok(()));
    assert_eq!(
        last_block(&ctx, 0),
        vec![
            Instruction::Alloca(IrType::Scalar(DataType::Integer)),
            Instruction::Arithmetic(ArithmeticOp::Add, Operand::ConstInt(11), Operand::Argument(0)),
            Instruction::Store { value: Operand::Instruction(1), location: Operand::Instruction(0) },
            Instruction::Load(Operand::Instruction(0)),
            Instruction::Return(Some(Operand::Instruction(3))),
        ]
    );
    let f = &ctx.module().functions[0];
    assert_eq!(f.name, "Main");
    assert_eq!(
        f.signature,
        FunctionType {
            return_type: IrType::Scalar(DataType::Integer),
            parameters: vec![IrType::Scalar(DataType::Integer)],
        }
    );
    assert_eq!(f.blocks.len(), 1);
}

#[test]
fn call_with_immediate_arguments() {
    let mut ctx = CodegenContext::new();
    declare(
        &mut ctx,
        proto(
            "Set_Bank_Angle",
            vec![
                param("angle", DataType::Integer, ParameterDirection::In),
                param("rate", DataType::Integer, ParameterDirection::In),
            ],
            None,
        ),
    );
    let sp = Subprogram {
        prototype: proto("Main", vec![], None),
        variables: vec![],
        body: vec![Statement::ProcedureCall(
            "Set_Bank_Angle".to_string(),
            vec![Expression::IntValue(322), Expression::IntValue(4)],
        )],
    };
    assert_eq!(define(&mut ctx, sp), Ok(()));
    assert_eq!(
        last_block(&ctx, 1),
        vec![
            Instruction::Call {
                function: 0,
                arguments: vec![Operand::ConstInt(322), Operand::ConstInt(4)],
            },
            Instruction::Return(None),
        ]
    );
    assert!(ctx.module().functions[0].blocks.is_empty());
}

#[test]
fn reference_argument_passes_the_slot() {
    let mut ctx = CodegenContext::new();
    declare(
        &mut ctx,
        proto("Foo", vec![param("P", DataType::Integer, ParameterDirection::InOut)], None),
    );
    let sp = Subprogram {
        prototype: proto("Main", vec![], None),
        variables: vec![local("X", DataType::Integer)],
        body: vec![Statement::ProcedureCall("Foo".to_string(), vec![var("X")])],
    };
    assert_eq!(define(&mut ctx, sp), Ok(()));
    assert_eq!(
        last_block(&ctx, 1),
        vec![
            Instruction::Alloca(IrType::Scalar(DataType::Integer)),
            Instruction::Call { function: 0, arguments: vec![Operand::Instruction(0)] },
            Instruction::Return(None),
        ]
    );
    assert_eq!(
        ctx.module().functions[0].signature.parameters,
        vec![IrType::Pointer(DataType::Integer)]
    );
}

#[test]
fn reference_parameter_is_forwarded_without_a_load() {
    let mut ctx = CodegenContext::new();
    declare(
        &mut ctx,
        proto("Foo", vec![param("P", DataType::Float, ParameterDirection::Out)], None),
    );
    let sp = Subprogram {
        prototype: proto("Main", vec![param("Q", DataType::Float, ParameterDirection::Out)], None),
        variables: vec![],
        body: vec![
            Statement::ProcedureCall("Foo".to_string(), vec![var("Q")]),
            Statement::Assignment("Q".to_string(), var("Q")),
        ],
    };
    assert_eq!(define(&mut ctx, sp), Ok(()));
    assert_eq!(
        last_block(&ctx, 1),
        vec![
            Instruction::Call { function: 0, arguments: vec![Operand::Argument(0)] },
            Instruction::Load(Operand::Argument(0)),
            Instruction::Store { value: Operand::Instruction(1), location: Operand::Argument(0) },
            Instruction::Return(None),
        ]
    );
}

#[test]
fn reference_argument_must_be_a_variable() {
    let actuals = vec![
        Expression::IntValue(1),
        Expression::FloatValue(0),
        binary("+", var("X"), Expression::IntValue(1)),
        Expression::FunctionCall("Get".to_string(), vec![]),
    ];
    for direction in [ParameterDirection::Out, ParameterDirection::InOut] {
        for actual in &actuals {
            let mut ctx = CodegenContext::new();
            declare(&mut ctx, proto("Foo", vec![param("P", DataType::Integer, direction)], None));
            declare(&mut ctx, proto("Get", vec![], Some(DataType::Integer)));
            let call = match actual {
                Expression::IntValue(x) => Expression::IntValue(*x),
                Expression::FloatValue(x) => Expression::FloatValue(*x),
                Expression::FunctionCall(n, _) => Expression::FunctionCall(n.clone(), vec![]),
                _ => binary("+", var("X"), Expression::IntValue(1)),
            };
            let sp = Subprogram {
                prototype: proto("Main", vec![], None),
                variables: vec![local("X", DataType::Integer)],
                body: vec![Statement::ProcedureCall("Foo".to_string(), vec![call])],
            };
            assert_eq!(define(&mut ctx, sp), Err(CodegenError::InvalidReferenceArgument));
            assert_eq!(
                last_block(&ctx, 2),
                vec![Instruction::Alloca(IrType::Scalar(DataType::Integer))]
            );
        }
    }
}

#[test]
fn reference_argument_must_be_bound() {
    let mut ctx = CodegenContext::new();
    declare(&mut ctx, proto("Foo", vec![param("P", DataType::Integer, ParameterDirection::Out)], None));
    let sp = Subprogram {
        prototype: proto("Main", vec![], None),
        variables: vec![],
        body: vec![Statement::ProcedureCall("Foo".to_string(), vec![var("Y")])],
    };
    assert_eq!(define(&mut ctx, sp), Err(CodegenError::UndefinedVariable));
}

#[test]
fn procedure_without_return_ends_in_one_void_return() {
    let mut ctx = CodegenContext::new();
    assert_eq!(
        define(
            &mut ctx,
            main_with(vec![Statement::Assignment("C".to_string(), Expression::IntValue(1))])
        ),
        Ok(())
    );
    let block = last_block(&ctx, 0);
    assert_eq!(block.last(), Some(&Instruction::Return(None)));
    let terminators = block.iter().filter(|i| matches!(i, Instruction::Return(_))).count();
    assert_eq!(terminators, 1);

    let mut ctx = CodegenContext::new();
    assert_eq!(define(&mut ctx, main_with(vec![])), Ok(()));
    assert_eq!(
        last_block(&ctx, 0),
        vec![Instruction::Alloca(IrType::Scalar(DataType::Integer)), Instruction::Return(None)]
    );
}

#[test]
fn explicit_return_is_the_only_terminator() {
    let mut ctx = CodegenContext::new();
    assert_eq!(define(&mut ctx, main_with(vec![Statement::Return(None)])), Ok(()));
    assert_eq!(
        last_block(&ctx, 0),
        vec![Instruction::Alloca(IrType::Scalar(DataType::Integer)), Instruction::Return(None)]
    );
}

#[test]
fn assignment_to_in_parameter_is_rejected() {
    let mut ctx = CodegenContext::new();
    let r = define(
        &mut ctx,
        main_with(vec![Statement::Assignment("X".to_string(), Expression::IntValue(1))]),
    );
    assert_eq!(r, Err(CodegenError::ImmutableAssignment));
    assert_eq!(last_block(&ctx, 0), vec![Instruction::Alloca(IrType::Scalar(DataType::Integer))]);
}

#[test]
fn assignment_to_unbound_name_is_rejected() {
    let mut ctx = CodegenContext::new();
    let r = define(
        &mut ctx,
        main_with(vec![Statement::Assignment("Y".to_string(), Expression::IntValue(1))]),
    );
    assert_eq!(r, Err(CodegenError::UndefinedVariable));
}

#[test]
fn statement_after_return_is_rejected() {
    let mut ctx = CodegenContext::new();
    declare(&mut ctx, proto("Fire_Missile", vec![], None));
    let r = define(
        &mut ctx,
        main_with(vec![
            Statement::Return(None),
            Statement::ProcedureCall("Fire_Missile".to_string(), vec![]),
        ]),
    );
    assert_eq!(r, Err(CodegenError::UnreachableCode));
    assert_eq!(
        last_block(&ctx, 1),
        vec![Instruction::Alloca(IrType::Scalar(DataType::Integer)), Instruction::Return(None)]
    );
}

#[test]
fn forward_declaration_is_fulfilled_by_the_same_handle() {
    let mut ctx = CodegenContext::new();
    let foo = proto("Foo", vec![], Some(DataType::Integer));
    declare(&mut ctx, foo.clone());
    let before = ctx.lookup(&"Foo".to_string()).unwrap().function;
    let caller = |name: &str| Subprogram {
        prototype: proto(name, vec![], Some(DataType::Integer)),
        variables: vec![],
        body: vec![Statement::Return(Some(Expression::FunctionCall("Foo".to_string(), vec![])))],
    };
    assert_eq!(define(&mut ctx, caller("Early")), Ok(()));
    let definition = Subprogram {
        prototype: foo,
        variables: vec![],
        body: vec![Statement::Return(Some(Expression::IntValue(7)))],
    };
    assert_eq!(define(&mut ctx, definition), Ok(()));
    assert_eq!(define(&mut ctx, caller("Late")), Ok(()));
    assert_eq!(ctx.lookup(&"Foo".to_string()).unwrap().function, before);
    assert_eq!(ctx.lookup(&"Bar".to_string()), Err(CodegenError::UnknownSymbol));
    assert_eq!(ctx.module().functions.len(), 3);
    assert_eq!(ctx.fmap().len(), 3);
    let call = Instruction::Call { function: before, arguments: vec![] };
    assert_eq!(last_block(&ctx, 1)[0], call);
    assert_eq!(last_block(&ctx, 2)[0], call);
    assert_eq!(
        last_block(&ctx, before),
        vec![Instruction::Return(Some(Operand::ConstInt(7)))]
    );
}

#[test]
fn redeclaration_changes_nothing() {
    let mut ctx = CodegenContext::new();
    declare(&mut ctx, proto("Foo", vec![], None));
    let module = ctx.module().clone();
    let fmap = ctx.fmap().clone();
    declare(
        &mut ctx,
        proto("Foo", vec![param("P", DataType::Integer, ParameterDirection::In)], None),
    );
    assert_eq!(ctx.module(), &module);
    assert_eq!(ctx.fmap(), &fmap);
    assert_eq!(fmap[0].prototype.arguments.len(), 0);
}

#[test]
fn subprogram_can_call_itself() {
    let mut ctx = CodegenContext::new();
    let sp = Subprogram {
        prototype: proto("Loop", vec![], None),
        variables: vec![],
        body: vec![Statement::ProcedureCall("Loop".to_string(), vec![])],
    };
    assert_eq!(define(&mut ctx, sp), Ok(()));
    assert_eq!(
        last_block(&ctx, 0),
        vec![Instruction::Call { function: 0, arguments: vec![] }, Instruction::Return(None)]
    );
}

#[test]
fn unknown_callee_is_rejected() {
    let mut ctx = CodegenContext::new();
    let r = define(
        &mut ctx,
        main_with(vec![Statement::ProcedureCall("Nowhere".to_string(), vec![])]),
    );
    assert_eq!(r, Err(CodegenError::UnknownSymbol));
    let r = define(
        &mut ctx,
        Subprogram {
            prototype: proto("Other", vec![], Some(DataType::Integer)),
            variables: vec![],
            body: vec![Statement::Return(Some(Expression::FunctionCall(
                "Nowhere".to_string(),
                vec![],
            )))],
        },
    );
    assert_eq!(r, Err(CodegenError::UnknownSymbol));
}

#[test]
fn procedure_is_no_value() {
    let mut ctx = CodegenContext::new();
    declare(&mut ctx, proto("Fire_Missile", vec![], None));
    let r = define(
        &mut ctx,
        main_with(vec![Statement::Assignment(
            "C".to_string(),
            Expression::FunctionCall("Fire_Missile".to_string(), vec![]),
        )]),
    );
    assert_eq!(r, Err(CodegenError::VoidUsedAsValue));
}

#[test]
fn missing_argument_is_rejected() {
    let mut ctx = CodegenContext::new();
    declare(
        &mut ctx,
        proto(
            "Set_Bank_Angle",
            vec![
                param("angle", DataType::Integer, ParameterDirection::In),
                param("rate", DataType::Integer, ParameterDirection::In),
            ],
            None,
        ),
    );
    let r = define(
        &mut ctx,
        main_with(vec![Statement::ProcedureCall(
            "Set_Bank_Angle".to_string(),
            vec![var("C")],
        )]),
    );
    assert_eq!(r, Err(CodegenError::MissingArgument));
    assert_eq!(
        last_block(&ctx, 1),
        vec![
            Instruction::Alloca(IrType::Scalar(DataType::Integer)),
            Instruction::Load(Operand::Instruction(0)),
        ]
    );
}

#[test]
fn duplicate_names_are_rejected() {
    let x = || param("X", DataType::Integer, ParameterDirection::In);
    assert!(has_duplicate_names(&proto("P", vec![x(), x()], None), &vec![]));
    assert!(has_duplicate_names(&proto("P", vec![x()], None), &vec![local("X", DataType::Float)]));
    assert!(has_duplicate_names(
        &proto("P", vec![], None),
        &vec![local("A", DataType::Float), local("B", DataType::Float), local("A", DataType::Float)]
    ));
    assert!(!has_duplicate_names(&proto("P", vec![x()], None), &vec![local("P", DataType::Float)]));
    assert!(!has_duplicate_names(&proto("P", vec![], None), &vec![]));
    let mut ctx = CodegenContext::new();
    let sp = Subprogram {
        prototype: proto("Main", vec![x()], None),
        variables: vec![local("X", DataType::Integer)],
        body: vec![],
    };
    assert_eq!(define(&mut ctx, sp), Err(CodegenError::DuplicateBinding));
    assert_eq!(last_block(&ctx, 0), vec![]);
    assert_eq!(ctx.fmap()[0].prototype.name, "Main");
}

#[test]
fn function_must_return_a_value() {
    let mut ctx = CodegenContext::new();
    let sp = Subprogram {
        prototype: proto("Get", vec![], Some(DataType::Float)),
        variables: vec![],
        body: vec![],
    };
    assert_eq!(define(&mut ctx, sp), Err(CodegenError::MissingReturnValue));
    assert_eq!(last_block(&ctx, 0), vec![]);
}

#[test]
fn types_are_mapped_by_kind_and_direction() {
    assert_eq!(void_type(), IrType::Void);
    assert_eq!(pointer_type(DataType::Float), IrType::Pointer(DataType::Float));
    assert_eq!(codegen_datatype(DataType::Integer, false), IrType::Scalar(DataType::Integer));
    assert_eq!(codegen_datatype(DataType::Integer, true), IrType::Pointer(DataType::Integer));
    assert_eq!(codegen_datatype(DataType::Float, false), IrType::Scalar(DataType::Float));
    let p = proto(
        "P",
        vec![
            param("a", DataType::Integer, ParameterDirection::In),
            param("b", DataType::Float, ParameterDirection::Out),
            param("c", DataType::Integer, ParameterDirection::InOut),
        ],
        None,
    );
    assert_eq!(
        function_type_from_prototype(&p),
        FunctionType {
            return_type: IrType::Void,
            parameters: vec![
                IrType::Scalar(DataType::Integer),
                IrType::Pointer(DataType::Float),
                IrType::Pointer(DataType::Integer),
            ],
        }
    );
    let f = proto("F", vec![], Some(DataType::Float));
    assert_eq!(function_type_from_prototype(&f).return_type, IrType::Scalar(DataType::Float));
    assert_eq!(p.duplicate(), p);
}

#[test]
fn scope_binds_parameters_then_locals() {
    let p = proto(
        "P",
        vec![
            param("a", DataType::Integer, ParameterDirection::In),
            param("b", DataType::Float, ParameterDirection::Out),
            param("c", DataType::Integer, ParameterDirection::InOut),
        ],
        None,
    );
    let mut builder = BlockBuilder::new();
    builder.build_ret(None);
    let vars = build_scope(
        &p,
        &vec![local("x", DataType::Float), local("y", DataType::Integer)],
        &mut builder,
    );
    let bind = |name: &str, location: Operand, addressable: bool| Binding {
        name: name.to_string(),
        location,
        addressable,
    };
    assert_eq!(
        vars,
        vec![
            bind("a", Operand::Argument(0), false),
            bind("b", Operand::Argument(1), true),
            bind("c", Operand::Argument(2), true),
            bind("x", Operand::Instruction(1), true),
            bind("y", Operand::Instruction(2), true),
        ]
    );
    assert_eq!(
        builder.finish().instructions,
        vec![
            Instruction::Return(None),
            Instruction::Alloca(IrType::Scalar(DataType::Float)),
            Instruction::Alloca(IrType::Scalar(DataType::Integer)),
        ]
    );
    let sctx = SubprogramContext { vars, func: 0 };
    assert_eq!(sctx.lookup(&"c".to_string()).map(|b| b.location), Some(Operand::Argument(2)));
    assert!(sctx.lookup(&"z".to_string()).is_none());
}

#[test]
fn return_sets_the_flag() {
    let ctx = CodegenContext::new();
    let sctx = SubprogramContext { vars: vec![], func: 0 };
    let mut builder = BlockBuilder::new();
    let mut flag = false;
    let s = Statement::Return(Some(Expression::IntValue(11)));
    assert_eq!(ctx.codegen_statement(&s, &mut flag, &sctx, &mut builder), Ok(()));
    assert!(flag);
    assert_eq!(
        builder.finish().instructions,
        vec![Instruction::Return(Some(Operand::ConstInt(11)))]
    );
    let mut builder = BlockBuilder::new();
    let mut flag = false;
    let s = Statement::ProcedureCall("Nowhere".to_string(), vec![]);
    assert_eq!(
        ctx.codegen_statement(&s, &mut flag, &sctx, &mut builder),
        Err(CodegenError::UnknownSymbol)
    );
    assert!(!flag);
}
