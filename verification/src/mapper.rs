//! The mapping from the language's types and prototypes to the types of the
//! intermediate representation.
use vstd::prelude::*;
use crate::data_type::DataType;
use crate::ir::{FunctionType, FunctionTypeView, IrType};
use crate::prototype::{ArgumentDeclarationView, Prototype, PrototypeView};

verus! {

/// The target type of a scalar, or of a reference to one.
pub open spec fn datatype_of(dt: DataType, is_pointer: bool) -> IrType {
    if is_pointer {
        IrType::Pointer(dt)
    } else {
        IrType::Scalar(dt)
    }
}

/// The target type of a parameter: the scalar itself where it is passed by
/// value, a pointer to it where it is passed by reference.
pub open spec fn parameter_type(a: ArgumentDeclarationView) -> IrType {
    datatype_of(a.data_type, a.direction.by_reference())
}

/// The target signature of a prototype: the return type, or the void type
/// for a procedure, and the parameters' types in order.
pub open spec fn signature_of(p: PrototypeView) -> FunctionTypeView {
    FunctionTypeView {
        return_type: match p.returns {
            Some(dt) => datatype_of(dt, false),
            None => IrType::Void,
        },
        parameters: Seq::new(p.arguments.len(), |i: int| parameter_type(p.arguments[i])),
    }
}

/// The target type of a scalar, or of a reference to one.
pub fn codegen_datatype(dt: DataType, is_pointer: bool) -> (r: IrType)
    ensures
        r == datatype_of(dt, is_pointer),
{
    if is_pointer {
        pointer_type(dt)
    } else {
        IrType::Scalar(dt)
    }
}

/// The type of a subprogram that returns nothing.
pub fn void_type() -> (r: IrType)
    ensures
        r == IrType::Void,
{
    IrType::Void
}

/// The type of a reference to a scalar.
pub fn pointer_type(dt: DataType) -> (r: IrType)
    ensures
        r == IrType::Pointer(dt),
{
    IrType::Pointer(dt)
}

/// The target signature of a prototype.
pub fn function_type_from_prototype(p: &Prototype) -> (r: FunctionType)
    ensures
        r@ == signature_of(p@),
{
    let return_type = match p.returns {
        Some(dt) => codegen_datatype(dt, false),
        None => void_type(),
    };
    let mut parameters: Vec<IrType> = Vec::new();
    let mut i: usize = 0;
    while i < p.arguments.len()
        invariant
            i <= p.arguments.len(),
            parameters@.len() == i,
            forall|k: int| 0 <= k < i ==> parameters@[k] == signature_of(p@).parameters[k],
        decreases p.arguments.len() - i,
    {
        let arg = &p.arguments[i];
        parameters.push(codegen_datatype(arg.data_type, arg.direction.is_by_reference()));
        i += 1;
    }
    assert(parameters@ =~= signature_of(p@).parameters);
    FunctionType { return_type, parameters }
}

} // verus!
