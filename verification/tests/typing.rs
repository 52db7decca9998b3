use ada_codegen::data_type::DataType;
use ada_codegen::ir::{ArithmeticOp, Block, FunctionIr, Instruction, IrType, ModuleIr, Operand, FunctionType};
use ada_codegen::typing::{check_block, check_signature, type_of_instruction, type_of_operand};

const INT: IrType = IrType::Scalar(DataType::Integer);
const FLOAT: IrType = IrType::Scalar(DataType::Float);
const INT_REF: IrType = IrType::Pointer(DataType::Integer);
const FLOAT_REF: IrType = IrType::Pointer(DataType::Float);

fn signature(return_type: IrType, parameters: Vec<IrType>) -> FunctionType {
    FunctionType { return_type, parameters }
}

/// A module with `Get: () -> Integer` and `Put: (Integer, ref Float) -> ()`.
fn module() -> ModuleIr {
    ModuleIr {
        functions: vec![
            FunctionIr { name: "Get".to_string(), signature: signature(INT, vec![]), blocks: vec![] },
            FunctionIr {
                name: "Put".to_string(),
                signature: signature(IrType::Void, vec![INT, FLOAT_REF]),
                blocks: vec![],
            },
        ],
    }
}

#[test]
fn operands_have_the_type_of_what_they_name() {
    let parameters = vec![INT, FLOAT_REF];
    let results = vec![INT_REF, IrType::Void];
    assert_eq!(type_of_operand(Operand::ConstInt(3), &parameters, &results), Some(INT));
    assert_eq!(type_of_operand(Operand::ConstFloat(3), &parameters, &results), Some(FLOAT));
    assert_eq!(type_of_operand(Operand::Argument(1), &parameters, &results), Some(FLOAT_REF));
    assert_eq!(type_of_operand(Operand::Argument(2), &parameters, &results), None);
    assert_eq!(type_of_operand(Operand::Instruction(0), &parameters, &results), Some(INT_REF));
    assert_eq!(type_of_operand(Operand::Instruction(1), &parameters, &results), Some(IrType::Void));
    assert_eq!(type_of_operand(Operand::Instruction(2), &parameters, &results), None);
}

#[test]
fn instructions_are_typed_by_their_operands() {
    let m = module();
    let own = signature(FLOAT, vec![INT, FLOAT_REF]);
    let results = vec![INT_REF, FLOAT];
    let ty = |i: Instruction| type_of_instruction(&i, &m, &own, &results);
    assert_eq!(ty(Instruction::Alloca(FLOAT)), Some(FLOAT_REF));
    assert_eq!(ty(Instruction::Alloca(INT_REF)), None);
    assert_eq!(ty(Instruction::Alloca(IrType::Void)), None);
    assert_eq!(ty(Instruction::Load(Operand::Instruction(0))), Some(INT));
    assert_eq!(ty(Instruction::Load(Operand::Argument(1))), Some(FLOAT));
    assert_eq!(ty(Instruction::Load(Operand::Argument(0))), None);
    assert_eq!(ty(Instruction::Load(Operand::Instruction(2))), None);
    let store = |value, location| Instruction::Store { value, location };
    assert_eq!(ty(store(Operand::ConstInt(1), Operand::Instruction(0))), Some(IrType::Void));
    assert_eq!(ty(store(Operand::ConstFloat(1), Operand::Instruction(0))), None);
    assert_eq!(ty(store(Operand::ConstInt(1), Operand::Argument(0))), None);
    assert_eq!(ty(store(Operand::Instruction(1), Operand::Argument(1))), Some(IrType::Void));
    let add = |l, r| Instruction::Arithmetic(ArithmeticOp::Add, l, r);
    assert_eq!(ty(add(Operand::ConstInt(1), Operand::Argument(0))), Some(INT));
    assert_eq!(ty(add(Operand::Instruction(1), Operand::ConstFloat(0))), Some(FLOAT));
    assert_eq!(ty(add(Operand::ConstInt(1), Operand::ConstFloat(0))), None);
    assert_eq!(ty(add(Operand::Instruction(0), Operand::Instruction(0))), None);
    let call = |function, arguments| Instruction::Call { function, arguments };
    assert_eq!(ty(call(0, vec![])), Some(INT));
    assert_eq!(ty(call(0, vec![Operand::ConstInt(1)])), None);
    assert_eq!(ty(call(1, vec![Operand::ConstInt(1), Operand::Argument(1)])), Some(IrType::Void));
    assert_eq!(ty(call(1, vec![Operand::ConstInt(1), Operand::Instruction(0)])), None);
    assert_eq!(ty(call(1, vec![Operand::ConstInt(1)])), None);
    assert_eq!(ty(call(2, vec![])), None);
    assert_eq!(ty(Instruction::Return(Some(Operand::Instruction(1)))), Some(IrType::Void));
    assert_eq!(ty(Instruction::Return(Some(Operand::ConstInt(1)))), None);
    assert_eq!(ty(Instruction::Return(None)), None);
    let procedure = signature(IrType::Void, vec![]);
    assert_eq!(
        type_of_instruction(&Instruction::Return(None), &m, &procedure, &results),
        Some(IrType::Void)
    );
    assert_eq!(
        type_of_instruction(
            &Instruction::Return(Some(Operand::Instruction(1))),
            &m,
            &procedure,
            &results
        ),
        None
    );
}

#[test]
fn blocks_end_in_their_only_terminator() {
    let m = module();
    let own = signature(INT, vec![]);
    let ok = |code: Vec<Instruction>| check_block(&Block { instructions: code }, &m, &own);
    let ret = || Instruction::Return(Some(Operand::ConstInt(0)));
    assert!(ok(vec![ret()]));
    assert!(ok(vec![Instruction::Alloca(INT), Instruction::Load(Operand::Instruction(0)), ret()]));
    assert!(!ok(vec![]));
    assert!(!ok(vec![Instruction::Alloca(INT)]));
    assert!(!ok(vec![ret(), ret()]));
    assert!(!ok(vec![ret(), Instruction::Alloca(INT)]));
    assert!(!ok(vec![Instruction::Load(Operand::Instruction(0)), ret()]));
    assert!(!ok(vec![Instruction::Load(Operand::Instruction(1)), Instruction::Alloca(INT), ret()]));
}

#[test]
fn signatures_take_no_void_parameter() {
    assert!(check_signature(&signature(IrType::Void, vec![])));
    assert!(check_signature(&signature(INT, vec![INT, FLOAT_REF])));
    assert!(!check_signature(&signature(INT, vec![INT, IrType::Void])));
}

#[test]
fn modules_are_checked_function_by_function() {
    let mut m = module();
    assert!(m.is_well_formed());
    m.functions[0].blocks.push(Block {
        instructions: vec![Instruction::Return(Some(Operand::ConstInt(1)))],
    });
    m.functions[1].blocks.push(Block {
        instructions: vec![
            Instruction::Call { function: 0, arguments: vec![] },
            Instruction::Call {
                function: 1,
                arguments: vec![Operand::Instruction(0), Operand::Argument(1)],
            },
            Instruction::Return(None),
        ],
    });
    assert!(m.is_well_formed());
    m.functions[1].blocks.push(Block { instructions: vec![Instruction::Return(None)] });
    assert!(m.is_well_formed());
    m.functions[0].blocks.push(Block { instructions: vec![Instruction::Return(None)] });
    assert!(!m.is_well_formed());
    let mut m = module();
    m.functions[1].signature.parameters.push(IrType::Void);
    assert!(!m.is_well_formed());
}
