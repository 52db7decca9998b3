use vstd::prelude::*;

verus! {

/// The two primitive scalar kinds of the language.
#[derive(Clone, Copy, Debug, PartialEq, Eq, Structural)]
pub enum DataType {
    /// A 32-bit signed integer.
    Integer,
    /// A 32-bit floating-point number.
    Float,
}

} // verus!
