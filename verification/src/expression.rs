use vstd::prelude::*;

verus! {

/// An expression of the language.
#[derive(PartialEq, Debug)]
pub enum Expression {
    /// A binary operation: the operator as written, then the two operands.
    Binary(String, Box<Expression>, Box<Expression>),
    /// A reference to a parameter or a local variable.
    Variable(String),
    /// An integer literal.
    IntValue(i32),
    /// A floating-point literal, held as the bits of its single-precision
    /// encoding.
    FloatValue(u32),
    /// A call of a function: its name and the actual arguments.
    FunctionCall(String, Vec<Expression>),
}

} // verus!
