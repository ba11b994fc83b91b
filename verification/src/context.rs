//! The declaration context: memoized resolution of (name, arity) pairs to
//! function declarations.  Within one context, identical pairs resolve to the
//! identical declaration for the lifetime of one translation run.

use vstd::prelude::*;
use crate::fol::FunctionDeclaration;

verus! {

/// The memo table of resolved function declarations.  A declaration's `id`
/// is its position in the table, so identities are unique within one context.
#[derive(Debug)]
pub struct DeclarationContext {
    pub functions: Vec<FunctionDeclaration>,
}

impl View for DeclarationContext {
    type V = Seq<FunctionDeclaration>;

    open spec fn view(&self) -> Seq<FunctionDeclaration> {
        self.functions@
    }
}

/// The first declaration in the memo whose name and arity match.
pub open spec fn spec_lookup_function(
    functions: Seq<FunctionDeclaration>,
    name: Seq<char>,
    arity: usize,
) -> Option<FunctionDeclaration>
    decreases functions.len(),
{
    if functions.len() == 0 {
        None
    } else if functions[0].name@ == name && functions[0].arity == arity {
        Some(functions[0])
    } else {
        spec_lookup_function(functions.drop_first(), name, arity)
    }
}

/// What resolving (name, arity) returns and leaves behind: the memoized
/// declaration and the unchanged memo, or a fresh declaration appended to it.
pub open spec fn spec_resolve_function(
    functions: Seq<FunctionDeclaration>,
    name: String,
    arity: usize,
) -> (FunctionDeclaration, Seq<FunctionDeclaration>) {
    match spec_lookup_function(functions, name@, arity) {
        Some(declaration) => (declaration, functions),
        None => {
            let declaration = FunctionDeclaration {
                id: functions.len() as usize,
                name: name,
                arity: arity,
            };
            (declaration, functions.push(declaration))
        },
    }
}

impl DeclarationContext {
    /// A context with an empty memo.
    pub fn new() -> (context: DeclarationContext)
        ensures
            context@ == Seq::<FunctionDeclaration>::empty(),
    {
        let context = DeclarationContext { functions: Vec::new() };
        proof {
            assert(context@ =~= Seq::<FunctionDeclaration>::empty());
        }
        context
    }

    /// Resolves a (name, arity) pair to its shared function declaration,
    /// creating and memoizing one on first use.
    pub fn find_or_create_function_declaration(&mut self, name: &String, arity: usize) -> (
        declaration: FunctionDeclaration)
        ensures
            ({
                let (resolved, functions) = spec_resolve_function(old(self)@, *name, arity);
                declaration == resolved && final(self)@ == functions
            }),
    {
        let ghost functions0 = self@;
        proof {
            assert(functions0.skip(0) =~= functions0);
        }
        let mut index: usize = 0;
        while index < self.functions.len()
            invariant
                0 <= index <= functions0.len(),
                self@ == functions0,
                spec_lookup_function(functions0, name@, arity) == spec_lookup_function(
                    functions0.skip(index as int),
                    name@,
                    arity,
                ),
            decreases functions0.len() - index,
        {
            let candidate = &self.functions[index];
            proof {
                assert(functions0.skip(index as int)[0] == functions0[index as int]);
            }
            if candidate.name.eq(name) && candidate.arity == arity {
                return candidate.clone();
            }
            proof {
                assert(functions0.skip(index as int).drop_first() =~= functions0.skip(
                    index as int + 1,
                ));
            }
            index += 1;
        }
        proof {
            assert(functions0.skip(index as int) =~= Seq::<FunctionDeclaration>::empty());
        }
        let declaration = FunctionDeclaration { id: self.functions.len(), name: name.clone(), arity };
        self.functions.push(declaration.clone());
        declaration
    }
}

} // verus!
