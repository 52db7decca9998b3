use vstd::prelude::*;
use crate::expression::Expression;

verus! {

/// A statement of the language.
#[derive(PartialEq, Debug)]
pub enum Statement {
    /// Store the value of the expression in the named variable.
    Assignment(String, Expression),
    /// Call a subprogram and discard what it yields.
    ProcedureCall(String, Vec<Expression>),
    /// Leave the subprogram, with a value if one is given.
    Return(Option<Expression>),
}

} // verus!
