use vstd::prelude::*;
use crate::data_type::DataType;
use crate::prototype::Prototype;
use crate::statement::Statement;

verus! {

/// A local variable of a subprogram.
#[derive(Clone, Debug, PartialEq, Eq)]
pub struct VariableDeclaration {
    pub name: String,
    pub data_type: DataType,
}

/// The interface of a subprogram whose body is given elsewhere or later.
#[derive(Clone, Debug, PartialEq, Eq)]
pub struct Declaration {
    pub prototype: Prototype,
}

/// A subprogram with its local variables and its body.
#[derive(PartialEq, Debug)]
pub struct Subprogram {
    pub prototype: Prototype,
    pub variables: Vec<VariableDeclaration>,
    pub body: Vec<Statement>,
}

/// One top-level node of a compilation unit.
#[derive(PartialEq, Debug)]
pub enum ASTNode {
    Subprogram(Subprogram),
    Declaration(Declaration),
}

} // verus!
