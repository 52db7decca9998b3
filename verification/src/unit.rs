//! The state of one compilation unit: the functions emitted so far and the
//! registry that call sites resolve against.
use vstd::prelude::*;
use crate::error::CodegenError;
use crate::ir::{FunctionIrView, InstructionView};
use crate::lowering::{find_function, lower_subprogram, FunctionMetaView};
use crate::mapper::signature_of;
use crate::prototype::PrototypeView;
use crate::subprogram::{ASTNode, Subprogram};

verus! {

/// A compilation unit as a value.
pub struct UnitView {
    /// The functions of the module; a handle is a position here.
    pub functions: Seq<FunctionIrView>,
    /// The registry, in the order of registration.
    pub entries: Seq<FunctionMetaView>,
}

/// A unit after one lowering step, and how the step ended.
pub struct Step {
    pub unit: UnitView,
    pub result: Result<(), CodegenError>,
}

impl UnitView {
    /// The unit that nothing was emitted into.
    pub open spec fn empty() -> UnitView {
        UnitView { functions: Seq::empty(), entries: Seq::empty() }
    }

    /// The invariant of a unit: every function has exactly one entry, which
    /// holds its handle, its name and the prototype its signature was mapped
    /// from, and no two entries share a name.
    pub open spec fn wf(self) -> bool {
        &&& self.entries.len() == self.functions.len()
        &&& forall|i: int|
            0 <= i < self.entries.len() ==> {
                &&& (#[trigger] self.entries[i]).function == i
                &&& self.functions[i].name == self.entries[i].prototype.name
                &&& self.functions[i].signature == signature_of(self.entries[i].prototype)
            }
        &&& forall|i: int, j: int|
            0 <= i < j < self.entries.len() ==> (#[trigger] self.entries[i]).prototype.name != (
            #[trigger] self.entries[j]).prototype.name
    }

    /// Whether a subprogram of that name is registered.
    pub open spec fn knows(self, name: Seq<char>) -> bool {
        find_function(self.entries, name) is Some
    }

    /// The handle that calls of `name` resolve to.
    pub open spec fn handle_of(self, name: Seq<char>) -> nat
        recommends
            self.knows(name),
    {
        find_function(self.entries, name)->0.function
    }

    /// Registration of a prototype.  Under a name that is already known
    /// nothing changes; else a function without a block is added to the
    /// module, with the signature mapped from the prototype, and an entry
    /// for it to the registry.
    pub open spec fn declare(self, p: PrototypeView) -> UnitView {
        if self.knows(p.name) {
            self
        } else {
            UnitView {
                functions: self.functions.push(
                    FunctionIrView {
                        name: p.name,
                        signature: signature_of(p),
                        blocks: Seq::empty(),
                    },
                ),
                entries: self.entries.push(
                    FunctionMetaView { function: self.functions.len(), prototype: p },
                ),
            }
        }
    }

    /// The unit with one more block at the end of the function `handle`.
    pub open spec fn with_block(self, handle: nat, code: Seq<InstructionView>) -> UnitView
        recommends
            handle < self.functions.len(),
    {
        let f = self.functions[handle as int];
        UnitView {
            functions: self.functions.update(
                handle as int,
                FunctionIrView {
                    name: f.name,
                    signature: f.signature,
                    blocks: f.blocks.push(code),
                },
            ),
            entries: self.entries,
        }
    }

    /// Lowering of a subprogram: its prototype is registered unless its name
    /// is known, and its block is appended to the function that the name
    /// resolves to.  The block is lowered against the registry that holds
    /// the subprogram itself.  On an error the block holds what was emitted
    /// before the error was met.
    pub open spec fn define(self, sp: Subprogram) -> Step {
        let declared = self.declare(sp.prototype@);
        let block = lower_subprogram(declared.entries, sp.prototype@, sp.variables@, sp.body@);
        Step {
            unit: declared.with_block(declared.handle_of(sp.prototype@.name), block.code),
            result: block.result,
        }
    }

    /// Lowering of one top-level node.
    pub open spec fn codegen(self, node: ASTNode) -> Step {
        match node {
            ASTNode::Subprogram(sp) => self.define(sp),
            ASTNode::Declaration(dec) => Step {
                unit: self.declare(dec.prototype@),
                result: Ok(()),
            },
        }
    }
}

} // verus!
