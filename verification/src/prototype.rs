use vstd::prelude::*;
use crate::data_type::DataType;

verus! {

/// How a parameter is passed.
#[derive(Clone, Copy, Debug, PartialEq, Eq, Structural)]
pub enum ParameterDirection {
    /// Passed by value; read-only inside the subprogram.
    In,
    /// Passed by reference; written by the subprogram.
    Out,
    /// Passed by reference; read and written by the subprogram.
    InOut,
}

impl ParameterDirection {
    /// Whether a parameter of this direction is passed by reference.
    pub open spec fn by_reference(self) -> bool {
        self != ParameterDirection::In
    }

    /// Whether a parameter of this direction is passed by reference.
    pub fn is_by_reference(self) -> (r: bool)
        ensures
            r == self.by_reference(),
    {
        match self {
            ParameterDirection::In => false,
            ParameterDirection::Out => true,
            ParameterDirection::InOut => true,
        }
    }
}

/// One formal parameter of a subprogram.
#[derive(Clone, Debug, PartialEq, Eq)]
pub struct ArgumentDeclaration {
    pub name: String,
    pub data_type: DataType,
    pub direction: ParameterDirection,
}

/// The mathematical content of an [`ArgumentDeclaration`].
pub struct ArgumentDeclarationView {
    pub name: Seq<char>,
    pub data_type: DataType,
    pub direction: ParameterDirection,
}

impl View for ArgumentDeclaration {
    type V = ArgumentDeclarationView;

    open spec fn view(&self) -> ArgumentDeclarationView {
        ArgumentDeclarationView {
            name: self.name@,
            data_type: self.data_type,
            direction: self.direction,
        }
    }
}

impl ArgumentDeclaration {
    /// A copy with the same content.
    pub fn duplicate(&self) -> (r: ArgumentDeclaration)
        ensures
            r@ == self@,
    {
        ArgumentDeclaration {
            name: self.name.clone(),
            data_type: self.data_type,
            direction: self.direction,
        }
    }
}

/// The interface of a subprogram: its name, its parameters in order, and
/// the type it returns, if it is a function.
#[derive(Clone, Debug, PartialEq, Eq)]
pub struct Prototype {
    pub name: String,
    pub arguments: Vec<ArgumentDeclaration>,
    pub returns: Option<DataType>,
}

/// The mathematical content of a [`Prototype`].
pub struct PrototypeView {
    pub name: Seq<char>,
    pub arguments: Seq<ArgumentDeclarationView>,
    pub returns: Option<DataType>,
}

impl View for Prototype {
    type V = PrototypeView;

    open spec fn view(&self) -> PrototypeView {
        PrototypeView {
            name: self.name@,
            arguments: Seq::new(self.arguments@.len(), |i: int| self.arguments@[i]@),
            returns: self.returns,
        }
    }
}

impl Prototype {
    /// A copy with the same content.
    pub fn duplicate(&self) -> (r: Prototype)
        ensures
            r@ == self@,
    {
        let mut arguments: Vec<ArgumentDeclaration> = Vec::new();
        let mut i: usize = 0;
        while i < self.arguments.len()
            invariant
                i <= self.arguments.len(),
                arguments@.len() == i,
                forall|k: int| 0 <= k < i ==> (#[trigger] arguments@[k])@ == self.arguments@[k]@,
            decreases self.arguments.len() - i,
        {
            arguments.push(self.arguments[i].duplicate());
            i += 1;
        }
        let r = Prototype { name: self.name.clone(), arguments, returns: self.returns };
        assert(r@.arguments =~= self@.arguments);
        r
    }
}

} // verus!
