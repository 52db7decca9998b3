//! The variable environment of one subprogram.
use vstd::prelude::*;
use crate::ir::{BlockBuilder, Operand};
use crate::lowering::{
    bound_names, distinct, find_binding, lemma_find_binding_first, lemma_find_binding_none,
    local_slots, scope_of, BindingView,
};
use crate::mapper::codegen_datatype;
use crate::prototype::Prototype;
use crate::subprogram::VariableDeclaration;
use crate::views::views;

verus! {

/// A name bound to a storage location or to a value.
#[derive(Clone, Debug, PartialEq, Eq)]
pub struct Binding {
    pub name: String,
    /// For an addressable binding the address of its slot, else its value.
    pub location: Operand,
    /// Whether the binding can be written.
    pub addressable: bool,
}

impl View for Binding {
    type V = BindingView;

    open spec fn view(&self) -> BindingView {
        BindingView { name: self.name@, location: self.location@, addressable: self.addressable }
    }
}

/// What the lowering of one subprogram's body goes by: its environment and
/// the handle of the function under construction.
#[derive(Clone, Debug, PartialEq, Eq)]
pub struct SubprogramContext {
    pub vars: Vec<Binding>,
    pub func: usize,
}

impl SubprogramContext {
    /// The environment as a sequence of bindings.
    pub open spec fn env(&self) -> Seq<BindingView> {
        views(self.vars@)
    }

    /// The first binding of `name`, if there is one.
    pub fn lookup(&self, name: &String) -> (r: Option<&Binding>)
        ensures
            match r {
                Some(b) => find_binding(self.env(), name@) == Some(b@),
                None => find_binding(self.env(), name@) is None,
            },
    {
        let mut i: usize = 0;
        while i < self.vars.len()
            invariant
                i <= self.vars.len(),
                forall|k: int| 0 <= k < i ==> self.env()[k].name != name@,
            decreases self.vars.len() - i,
        {
            if self.vars[i].name == *name {
                proof {
                    lemma_find_binding_first(self.env(), name@, i as int);
                }
                return Some(&self.vars[i]);
            }
            i += 1;
        }
        proof {
            lemma_find_binding_none(self.env(), name@);
        }
        None
    }
}

/// Whether two of the names that a subprogram binds are the same.
pub fn has_duplicate_names(prototype: &Prototype, variables: &Vec<VariableDeclaration>) -> (r:
    bool)
    ensures
        r == !distinct(bound_names(prototype@, variables@)),
{
    let ghost all = bound_names(prototype@, variables@);
    let mut names: Vec<&String> = Vec::new();
    let mut i: usize = 0;
    while i < prototype.arguments.len()
        invariant
            i <= prototype.arguments.len(),
            names@.len() == i,
            forall|k: int| 0 <= k < i ==> (#[trigger] names@[k])@ == all[k],
            all == bound_names(prototype@, variables@),
        decreases prototype.arguments.len() - i,
    {
        names.push(&prototype.arguments[i].name);
        i += 1;
    }
    let mut j: usize = 0;
    while j < variables.len()
        invariant
            j <= variables.len(),
            names@.len() == prototype.arguments.len() + j,
            forall|k: int| 0 <= k < names@.len() ==> (#[trigger] names@[k])@ == all[k],
            all == bound_names(prototype@, variables@),
        decreases variables.len() - j,
    {
        names.push(&variables[j].name);
        j += 1;
    }
    assert(names@.len() == all.len());
    let mut a: usize = 0;
    while a < names.len()
        invariant
            a <= names.len(),
            all == bound_names(prototype@, variables@),
            names@.len() == all.len(),
            forall|k: int| 0 <= k < names@.len() ==> (#[trigger] names@[k])@ == all[k],
            forall|x: int, y: int| 0 <= x < y < all.len() && x < a ==> all[x] != all[y],
        decreases names.len() - a,
    {
        let mut b: usize = a + 1;
        while b < names.len()
            invariant
                a < names.len(),
                a < b <= names.len(),
                all == bound_names(prototype@, variables@),
                names@.len() == all.len(),
                forall|k: int| 0 <= k < names@.len() ==> (#[trigger] names@[k])@ == all[k],
                forall|x: int, y: int| 0 <= x < y < all.len() && x < a ==> all[x] != all[y],
                forall|y: int| a < y < b ==> all[a as int] != all[y],
            decreases names.len() - b,
        {
            if *names[a] == *names[b] {
                assert(all[a as int] == all[b as int]);
                return true;
            }
            b += 1;
        }
        a += 1;
    }
    false
}

/// Builds the environment of a subprogram and reserves the slots of its
/// local variables.
///
/// Each parameter is bound to its incoming argument and can be written
/// exactly if it is passed by reference; each local variable is bound to a
/// fresh slot and can be written.
pub fn build_scope(
    prototype: &Prototype,
    variables: &Vec<VariableDeclaration>,
    builder: &mut BlockBuilder,
) -> (vars: Vec<Binding>)
    ensures
        final(builder)@ == old(builder)@ + local_slots(variables@),
        views(vars@) == scope_of(prototype@, variables@, old(builder)@.len()),
{
    let ghost base = builder@.len();
    let ghost target = scope_of(prototype@, variables@, base);
    let mut vars: Vec<Binding> = Vec::new();
    let mut i: usize = 0;
    while i < prototype.arguments.len()
        invariant
            i <= prototype.arguments.len(),
            vars@.len() == i,
            forall|k: int| 0 <= k < i ==> (#[trigger] vars@[k])@ == target[k],
            target == scope_of(prototype@, variables@, base),
        decreases prototype.arguments.len() - i,
    {
        let param = &prototype.arguments[i];
        vars.push(
            Binding {
                name: param.name.clone(),
                location: Operand::Argument(i),
                addressable: param.direction.is_by_reference(),
            },
        );
        i += 1;
    }
    let mut j: usize = 0;
    while j < variables.len()
        invariant
            j <= variables.len(),
            vars@.len() == prototype.arguments.len() + j,
            forall|k: int| 0 <= k < vars@.len() ==> (#[trigger] vars@[k])@ == target[k],
            target == scope_of(prototype@, variables@, base),
            base == old(builder)@.len(),
            builder@ == old(builder)@ + local_slots(variables@).subrange(0, j as int),
        decreases variables.len() - j,
    {
        let slot = builder.build_alloca(codegen_datatype(variables[j].data_type, false));
        vars.push(Binding { name: variables[j].name.clone(), location: slot, addressable: true });
        assert(builder@ =~= old(builder)@ + local_slots(variables@).subrange(0, j + 1));
        j += 1;
    }
    assert(local_slots(variables@).subrange(0, j as int) =~= local_slots(variables@));
    assert(views(vars@) =~= target);
    vars
}

} // verus!
