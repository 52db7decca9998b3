use vstd::prelude::*;

verus! {

/// The conditions that abort the lowering of a compilation unit.
///
/// Every one of them is fatal: nothing that was emitted for the subprogram
/// at hand is taken back, and the unit has to be discarded.
#[derive(Clone, Copy, Debug, PartialEq, Eq, Structural)]
pub enum CodegenError {
    /// A call names a subprogram that was never declared nor defined.
    UnknownSymbol,
    /// An expression, an assignment or a by-reference argument names a
    /// variable that the subprogram does not bind.
    UndefinedVariable,
    /// The target of an assignment is an `in` parameter.
    ImmutableAssignment,
    /// The actual argument for an `out` or `in out` parameter is not a bare
    /// variable.
    InvalidReferenceArgument,
    /// A statement follows a `return` in the same body.
    UnreachableCode,
    /// A binary operator other than `+`, `-`, `*` and `/`.
    UnimplementedOperator,
    /// A procedure, which yields nothing, is called inside an expression.
    VoidUsedAsValue,
    /// A call supplies fewer actual arguments than the callee has parameters.
    MissingArgument,
    /// Two parameters or local variables of one subprogram share a name.
    DuplicateBinding,
    /// The body of a function can run off its end without returning a value.
    MissingReturnValue,
}

} // verus!
