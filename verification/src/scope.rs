//! The variable declaration scope stack: nested name-to-declaration tables
//! (innermost last), each with a pool of free (anonymous) declarations
//! generated while translating inside that scope.
//!
//! The stack also carries the registry of every variable declaration created
//! through it; a declaration's `id` is its position in the registry, so any
//! two declarations created through one stack have distinct identities.

use vstd::prelude::*;
use crate::fol::{DeclarationOrigin, Domain, VariableDeclaration};

verus! {

/// One binding of a variable name to its declaration.
#[derive(Debug)]
pub struct Binding {
    pub name: String,
    pub declaration: VariableDeclaration,
}

/// One scope: its named bindings, and the free (anonymous) declarations
/// registered while translating inside it.
#[derive(Debug)]
pub struct Scope {
    pub bindings: Vec<Binding>,
    pub free_variable_declarations: Vec<VariableDeclaration>,
}

/// The mathematical model of a [`Scope`].
#[verifier::ext_equal]
pub struct SpecScope {
    pub bindings: Seq<Binding>,
    pub free_variable_declarations: Seq<VariableDeclaration>,
}

impl View for Scope {
    type V = SpecScope;

    open spec fn view(&self) -> SpecScope {
        SpecScope {
            bindings: self.bindings@,
            free_variable_declarations: self.free_variable_declarations@,
        }
    }
}

/// The scope stack, with the registry of all declarations it has created.
#[derive(Debug)]
pub struct VariableDeclarationStack {
    pub declarations: Vec<VariableDeclaration>,
    pub scopes: Vec<Scope>,
}

/// The mathematical model of a [`VariableDeclarationStack`].
#[verifier::ext_equal]
pub struct SpecStack {
    pub declarations: Seq<VariableDeclaration>,
    pub scopes: Seq<SpecScope>,
}

impl View for VariableDeclarationStack {
    type V = SpecStack;

    open spec fn view(&self) -> SpecStack {
        SpecStack {
            declarations: self.declarations@,
            scopes: Seq::new(
                self.scopes@.len(),
                |i: int|
                    if 0 <= i < self.scopes@.len() {
                        self.scopes@[i]@
                    } else {
                        arbitrary()
                    },
            ),
        }
    }
}

/// The first binding of the name within one scope.
pub open spec fn spec_lookup_in_scope(bindings: Seq<Binding>, name: Seq<char>) -> Option<
    VariableDeclaration,
>
    decreases bindings.len(),
{
    if bindings.len() == 0 {
        None
    } else if bindings[0].name@ == name {
        Some(bindings[0].declaration)
    } else {
        spec_lookup_in_scope(bindings.drop_first(), name)
    }
}

/// The declaration of the name, searching scopes from innermost to outermost.
pub open spec fn spec_lookup(scopes: Seq<SpecScope>, name: Seq<char>) -> Option<
    VariableDeclaration,
>
    decreases scopes.len(),
{
    if scopes.len() == 0 {
        None
    } else {
        match spec_lookup_in_scope(scopes.last().bindings, name) {
            Some(declaration) => Some(declaration),
            None => spec_lookup(scopes.drop_last(), name),
        }
    }
}

/// The fresh declaration that a stack in this state would create next.
pub open spec fn spec_fresh_declaration(
    stack: SpecStack,
    origin: DeclarationOrigin,
    domain: Domain,
) -> VariableDeclaration {
    VariableDeclaration { id: stack.declarations.len() as usize, origin, domain }
}

/// What find-or-create returns and leaves behind: the declaration the name
/// already resolves to and the unchanged stack, or a fresh declaration
/// registered and bound in the innermost scope.
pub open spec fn spec_find_or_create(stack: SpecStack, name: String) -> (
    VariableDeclaration,
    SpecStack,
) {
    match spec_lookup(stack.scopes, name@) {
        Some(declaration) => (declaration, stack),
        None => {
            let declaration = spec_fresh_declaration(
                stack,
                DeclarationOrigin::Named(name),
                Domain::Program,
            );
            let inner = stack.scopes.last();
            let updated = SpecScope {
                bindings: inner.bindings.push(Binding { name, declaration }),
                free_variable_declarations: inner.free_variable_declarations,
            };
            (
                declaration,
                SpecStack {
                    declarations: stack.declarations.push(declaration),
                    scopes: stack.scopes.update(stack.scopes.len() - 1, updated),
                },
            )
        },
    }
}

/// The stack after registering a declaration in the innermost free pool.
pub open spec fn spec_register_free(
    stack: SpecStack,
    declaration: VariableDeclaration,
) -> SpecStack {
    let inner = stack.scopes.last();
    let updated = SpecScope {
        bindings: inner.bindings,
        free_variable_declarations: inner.free_variable_declarations.push(declaration),
    };
    SpecStack {
        declarations: stack.declarations,
        scopes: stack.scopes.update(stack.scopes.len() - 1, updated),
    }
}

/// The first binding of the name in a vector of bindings.
fn lookup_in_bindings(bindings: &Vec<Binding>, name: &String) -> (result: Option<
    VariableDeclaration,
>)
    ensures
        result == spec_lookup_in_scope(bindings@, name@),
{
    let ghost bindings0 = bindings@;
    proof {
        assert(bindings0.skip(0) =~= bindings0);
    }
    let mut index: usize = 0;
    while index < bindings.len()
        invariant
            0 <= index <= bindings0.len(),
            bindings@ == bindings0,
            spec_lookup_in_scope(bindings0, name@) == spec_lookup_in_scope(
                bindings0.skip(index as int),
                name@,
            ),
        decreases bindings0.len() - index,
    {
        let candidate = &bindings[index];
        proof {
            assert(bindings0.skip(index as int)[0] == bindings0[index as int]);
        }
        if candidate.name.eq(name) {
            return Some(candidate.declaration.clone());
        }
        proof {
            assert(bindings0.skip(index as int).drop_first() =~= bindings0.skip(index as int + 1));
        }
        index += 1;
    }
    proof {
        assert(bindings0.skip(index as int) =~= Seq::<Binding>::empty());
    }
    None
}

impl VariableDeclarationStack {
    /// A stack of one empty scope, with no declarations created yet.
    pub fn new() -> (stack: VariableDeclarationStack)
        ensures
            stack@.declarations == Seq::<VariableDeclaration>::empty(),
            stack@.scopes.len() == 1,
            stack@.scopes[0] == (SpecScope {
                bindings: Seq::<Binding>::empty(),
                free_variable_declarations: Seq::<VariableDeclaration>::empty(),
            }),
    {
        let mut scopes: Vec<Scope> = Vec::new();
        scopes.push(Scope { bindings: Vec::new(), free_variable_declarations: Vec::new() });
        let stack = VariableDeclarationStack { declarations: Vec::new(), scopes };
        proof {
            assert(stack@.declarations =~= Seq::<VariableDeclaration>::empty());
            assert(stack@.scopes[0].bindings =~= Seq::<Binding>::empty());
            assert(stack@.scopes[0].free_variable_declarations =~= Seq::<
                VariableDeclaration,
            >::empty());
            assert(stack@.scopes[0] =~= (SpecScope {
                bindings: Seq::<Binding>::empty(),
                free_variable_declarations: Seq::<VariableDeclaration>::empty(),
            }));
        }
        stack
    }

    /// Opens a new innermost scope.
    pub fn push_scope(&mut self)
        ensures
            final(self)@.declarations == old(self)@.declarations,
            final(self)@.scopes == old(self)@.scopes.push(
                SpecScope {
                    bindings: Seq::<Binding>::empty(),
                    free_variable_declarations: Seq::<VariableDeclaration>::empty(),
                },
            ),
    {
        self.scopes.push(Scope { bindings: Vec::new(), free_variable_declarations: Vec::new() });
        proof {
            assert(self@.scopes =~= old(self)@.scopes.push(
                SpecScope {
                    bindings: Seq::<Binding>::empty(),
                    free_variable_declarations: Seq::<VariableDeclaration>::empty(),
                },
            ));
        }
    }

    /// Closes the innermost scope, discarding its bindings and free pool.
    pub fn pop_scope(&mut self)
        requires
            old(self)@.scopes.len() >= 1,
        ensures
            final(self)@.declarations == old(self)@.declarations,
            final(self)@.scopes == old(self)@.scopes.drop_last(),
    {
        let _ = self.scopes.pop();
        proof {
            assert(self@.scopes =~= old(self)@.scopes.drop_last());
        }
    }

    /// Creates a fresh generated declaration of the given domain and records
    /// it in the registry, without binding it to any name.
    pub fn new_generated_declaration(&mut self, domain: Domain) -> (declaration:
        VariableDeclaration)
        ensures
            declaration == spec_fresh_declaration(old(self)@, DeclarationOrigin::Generated, domain),
            final(self)@.declarations == old(self)@.declarations.push(declaration),
            final(self)@.scopes == old(self)@.scopes,
    {
        let declaration = VariableDeclaration {
            id: self.declarations.len(),
            origin: DeclarationOrigin::Generated,
            domain,
        };
        self.declarations.push(declaration.clone());
        proof {
            assert(self@.scopes =~= old(self)@.scopes);
        }
        declaration
    }

    /// Registers a declaration in the innermost scope's free pool.
    pub fn register_free_variable_declaration(&mut self, declaration: VariableDeclaration)
        requires
            old(self)@.scopes.len() >= 1,
        ensures
            final(self)@ == spec_register_free(old(self)@, declaration),
    {
        let ghost stack0 = self@;
        let ghost goal = spec_register_free(self@, declaration);
        let mut inner = match self.scopes.pop() {
            Some(scope) => scope,
            None => {
                proof {
                    assert(false);
                }
                Scope { bindings: Vec::new(), free_variable_declarations: Vec::new() }
            },
        };
        inner.free_variable_declarations.push(declaration);
        self.scopes.push(inner);
        proof {
            assert(self@.scopes =~= goal.scopes);
            assert(self@ =~= goal);
        }
    }

    /// Resolves a variable name to its declaration: the binding the name
    /// already has in the nearest enclosing scope, or a fresh declaration
    /// bound in the innermost scope.
    pub fn find_or_create(&mut self, name: &String) -> (declaration: VariableDeclaration)
        requires
            old(self)@.scopes.len() >= 1,
        ensures
            ({
                let (resolved, stack) = spec_find_or_create(old(self)@, *name);
                declaration == resolved && final(self)@ == stack
            }),
    {
        let ghost stack0 = self@;
        proof {
            assert(stack0.scopes.subrange(0, stack0.scopes.len() as int) =~= stack0.scopes);
        }
        let mut scope_index: usize = self.scopes.len();
        while scope_index > 0
            invariant
                0 <= scope_index <= stack0.scopes.len(),
                self@ == stack0,
                spec_lookup(stack0.scopes, name@) == spec_lookup(
                    stack0.scopes.subrange(0, scope_index as int),
                    name@,
                ),
            decreases scope_index,
        {
            let ghost prefix = stack0.scopes.subrange(0, scope_index as int);
            let found = lookup_in_bindings(&self.scopes[scope_index - 1].bindings, name);
            proof {
                assert(prefix.last() == stack0.scopes[scope_index - 1]);
            }
            match found {
                Some(declaration) => {
                    return declaration;
                },
                None => {
                    proof {
                        assert(prefix.drop_last() =~= stack0.scopes.subrange(
                            0,
                            scope_index as int - 1,
                        ));
                    }
                    scope_index = scope_index - 1;
                },
            }
        }
        proof {
            assert(stack0.scopes.subrange(0, 0) =~= Seq::<SpecScope>::empty());
        }
        let declaration = VariableDeclaration {
            id: self.declarations.len(),
            origin: DeclarationOrigin::Named(name.clone()),
            domain: Domain::Program,
        };
        self.declarations.push(declaration.clone());
        let mut inner = match self.scopes.pop() {
            Some(scope) => scope,
            None => {
                proof {
                    assert(false);
                }
                Scope { bindings: Vec::new(), free_variable_declarations: Vec::new() }
            },
        };
        inner.bindings.push(Binding { name: name.clone(), declaration: declaration.clone() });
        self.scopes.push(inner);
        proof {
            let (resolved, stack) = spec_find_or_create(stack0, *name);
            assert(self@.scopes =~= stack.scopes);
            assert(self@ =~= stack);
        }
        declaration
    }

    /// Removes and returns the innermost scope's free declarations, leaving
    /// its pool empty; the caller binds them in an enclosing existential
    /// closure so that anonymous variables do not leak into an outer scope.
    pub fn take_free_variable_declarations(&mut self) -> (free: Vec<VariableDeclaration>)
        requires
            old(self)@.scopes.len() >= 1,
        ensures
            free@ == old(self)@.scopes.last().free_variable_declarations,
            final(self)@.declarations == old(self)@.declarations,
            final(self)@.scopes == old(self)@.scopes.update(
                old(self)@.scopes.len() - 1,
                SpecScope {
                    bindings: old(self)@.scopes.last().bindings,
                    free_variable_declarations: Seq::<VariableDeclaration>::empty(),
                },
            ),
    {
        let ghost stack0 = self@;
        let inner = match self.scopes.pop() {
            Some(scope) => scope,
            None => {
                proof {
                    assert(false);
                }
                Scope { bindings: Vec::new(), free_variable_declarations: Vec::new() }
            },
        };
        let Scope { bindings, free_variable_declarations } = inner;
        self.scopes.push(Scope { bindings, free_variable_declarations: Vec::new() });
        proof {
            assert(self@.scopes =~= stack0.scopes.update(
                stack0.scopes.len() - 1,
                SpecScope {
                    bindings: stack0.scopes.last().bindings,
                    free_variable_declarations: Seq::<VariableDeclaration>::empty(),
                },
            ));
        }
        free_variable_declarations
    }
}

} // verus!
