use crate::reporter::{Report, Reporter};
use crate::span::Spanned;
use crate::types::{spec_equate_ok, spec_equate_result, Type};
use vstd::prelude::*;

verus! {

/// A declared variable: its name, and the declared type that later inference
/// steps narrow in place through the context that owns it.
#[derive(Debug)]
pub struct Variable {
    /// The variable's name
    pub name: String,
    /// The declared, then narrowed, type
    pub ty: Type,
}

/// One scope entry, binding a name to a variable in the context's table.
#[derive(Debug)]
pub struct ScopeEntry {
    /// The declared name
    pub name: String,
    /// Index of the declaration in [`TypeInference::variables`]
    pub variable: usize,
}

/// One nested scope: its entries in declaration order. Within a scope the
/// latest declaration of a name wins, so redeclaring overwrites — a
/// documented policy, not an accident.
#[derive(Debug)]
pub struct Scope {
    /// The entries declared in this scope, oldest first
    pub entries: Vec<ScopeEntry>,
}

/// Resolution inside one scope: entries are searched newest-first, so the
/// last declaration of a name wins.
pub open spec fn scope_lookup_in(entries: Seq<ScopeEntry>, name: Seq<char>) -> Option<usize>
    decreases entries.len(),
{
    if entries.len() == 0 {
        None
    } else if entries.last().name@ == name {
        Some(entries.last().variable)
    } else {
        scope_lookup_in(entries.drop_last(), name)
    }
}

/// Resolution across the scope stack: the innermost (last pushed) scope is
/// searched first, so inner declarations shadow outer ones.
pub open spec fn scope_lookup(scopes: Seq<Scope>, name: Seq<char>) -> Option<usize>
    decreases scopes.len(),
{
    if scopes.len() == 0 {
        None
    } else {
        match scope_lookup_in(scopes.last().entries@, name) {
            Some(v) => Some(v),
            None => scope_lookup(scopes.drop_last(), name),
        }
    }
}

/// Mutable state threaded through one compilation unit's inference: the
/// scope stack, the variables it binds, the ambient expected return type,
/// the diagnostic sink, the abort flag, and the type-variable allocator.
#[derive(Debug)]
pub struct TypeInference {
    /// Every variable declared during this compilation, named by index.
    /// Scope entries hold the index, so a declaration outlives the scope it
    /// was made in.
    pub variables: Vec<Variable>,
    /// The scope stack, innermost last
    pub scopes: Vec<Scope>,
    /// The expected return type of the function being inferred, with the
    /// span of its declaration; replaced on function entry, restored on exit
    pub return_type: Option<Spanned<Type>>,
    /// Accumulated diagnostics
    pub reporter: Reporter,
    /// Set as soon as any error is reported: the pipeline must not go on to
    /// code generation, though traversal continues to surface more errors
    pub abort_compilation: bool,
    /// The next fresh type-variable identifier
    pub next_type_variable: u64,
}

impl TypeInference {
    /// Every scope entry points into the variable table.
    pub open spec fn wf(self) -> bool {
        forall|s: int, e: int|
            0 <= s < self.scopes@.len() && 0 <= e < self.scopes@[s].entries@.len()
                ==> (#[trigger] self.scopes@[s].entries@[e]).variable < self.variables@.len()
    }

    /// A fresh context: no scopes, no variables, nothing reported.
    pub fn new() -> (r: TypeInference)
        ensures
            r.variables@.len() == 0,
            r.scopes@.len() == 0,
            r.return_type is None,
            r.reporter.reports@.len() == 0,
            !r.abort_compilation,
            r.next_type_variable == 0,
            r.wf(),
    {
        TypeInference {
            variables: Vec::new(),
            scopes: Vec::new(),
            return_type: None,
            reporter: Reporter::new(),
            abort_compilation: false,
            next_type_variable: 0,
        }
    }

    /// Enter a new innermost scope with no entries yet.
    pub fn push_scope(&mut self)
        ensures
            final(self).scopes@.len() == old(self).scopes@.len() + 1,
            forall|i: int|
                0 <= i < old(self).scopes@.len() ==> final(self).scopes@[i] == old(
                    self,
                ).scopes@[i],
            final(self).scopes@.last().entries@.len() == 0,
            final(self).variables == old(self).variables,
            final(self).return_type == old(self).return_type,
            final(self).reporter == old(self).reporter,
            final(self).abort_compilation == old(self).abort_compilation,
            final(self).next_type_variable == old(self).next_type_variable,
            old(self).wf() ==> final(self).wf(),
    {
        self.scopes.push(Scope { entries: Vec::new() });
    }

    /// Leave the innermost scope. Calls are paired with
    /// [`TypeInference::push_scope`], strictly nested; the entries of the
    /// popped scope are gone, but the variables they bound stay in the
    /// table.
    pub fn pop_scope(&mut self)
        requires
            old(self).scopes@.len() > 0,
        ensures
            final(self).scopes@ == old(self).scopes@.drop_last(),
            final(self).variables == old(self).variables,
            final(self).return_type == old(self).return_type,
            final(self).reporter == old(self).reporter,
            final(self).abort_compilation == old(self).abort_compilation,
            final(self).next_type_variable == old(self).next_type_variable,
            old(self).wf() ==> final(self).wf(),
    {
        let _ = self.scopes.pop();
        proof {
            assert(final(self).scopes@ =~= old(self).scopes@.drop_last());
        }
    }

    /// Declare a name in the innermost scope, binding it to a fresh variable
    /// in the table; returns the variable's index, the handle through which
    /// later inference steps narrow its type in place. Redeclaring a name in
    /// the same scope overwrites the earlier declaration for lookup.
    pub fn declare(&mut self, name: String, ty: Type) -> (id: usize)
        requires
            old(self).scopes@.len() > 0,
        ensures
            id == old(self).variables@.len(),
            final(self).variables@ == old(self).variables@.push(Variable { name, ty }),
            final(self).scopes@.len() == old(self).scopes@.len(),
            forall|i: int|
                0 <= i < old(self).scopes@.len() - 1 ==> final(self).scopes@[i] == old(
                    self,
                ).scopes@[i],
            final(self).scopes@.last().entries@ == old(self).scopes@.last().entries@.push(
                ScopeEntry { name: name, variable: id },
            ),
            scope_lookup(final(self).scopes@, name@) == Some(id),
            final(self).return_type == old(self).return_type,
            final(self).reporter == old(self).reporter,
            final(self).abort_compilation == old(self).abort_compilation,
            final(self).next_type_variable == old(self).next_type_variable,
            old(self).wf() ==> final(self).wf(),
    {
        let id = self.variables.len();
        let entry_name = name.clone();
        self.variables.push(Variable { name, ty });
        let innermost = self.scopes.len() - 1;
        self.scopes[innermost].entries.push(ScopeEntry { name: entry_name, variable: id });
        proof {
            assert(final(self).scopes@.last() == final(self).scopes@[innermost as int]);
            let entries = final(self).scopes@.last().entries@;
            assert(entries.last() == ScopeEntry { name: name, variable: id });
            assert(scope_lookup_in(entries, name@) == Some(id));
        }
        id
    }

    /// Resolve a name, innermost scope first: the index of the variable the
    /// name denotes here, or `None` if no visible scope declares it.
    pub fn lookup(&self, name: &String) -> (r: Option<usize>)
        ensures
            r == scope_lookup(self.scopes@, name@),
            self.wf() && r is Some ==> r->Some_0 < self.variables@.len(),
    {
        let ghost all = self.scopes@;
        let mut s: usize = self.scopes.len();
        proof {
            assert(all.subrange(0, all.len() as int) =~= all);
        }
        while s > 0
            invariant
                s <= all.len(),
                self.scopes@ == all,
                scope_lookup(all, name@) == scope_lookup(all.subrange(0, s as int), name@),
            decreases s,
        {
            s -= 1;
            let ghost outer_prefix = all.subrange(0, s as int);
            let entries = &self.scopes[s].entries;
            proof {
                assert(all.subrange(0, s as int + 1).last() == all[s as int]);
                assert(all.subrange(0, s as int + 1).drop_last() =~= outer_prefix);
            }
            let mut e: usize = entries.len();
            proof {
                assert(entries@.subrange(0, entries@.len() as int) =~= entries@);
            }
            while e > 0
                invariant
                    e <= entries@.len(),
                    entries@ == all[s as int].entries@,
                    s < all.len(),
                    self.scopes@ == all,
                    scope_lookup(all, name@) == scope_lookup(
                        all.subrange(0, s as int + 1),
                        name@,
                    ),
                    scope_lookup_in(all[s as int].entries@, name@) == scope_lookup_in(
                        entries@.subrange(0, e as int),
                        name@,
                    ),
                decreases e,
            {
                e -= 1;
                proof {
                    assert(entries@.subrange(0, e as int + 1).last() == entries@[e as int]);
                    assert(entries@.subrange(0, e as int + 1).drop_last() =~= entries@.subrange(
                        0,
                        e as int,
                    ));
                }
                if entries[e].name == *name {
                    proof {
                        assert(scope_lookup_in(all[s as int].entries@, name@) == Some(
                            entries@[e as int].variable,
                        ));
                        assert(all.subrange(0, s as int + 1).last() == all[s as int]);
                        assert(scope_lookup(all.subrange(0, s as int + 1), name@) == Some(
                            entries@[e as int].variable,
                        ));
                    }
                    return Some(entries[e].variable);
                }
            }
            proof {
                assert(entries@.subrange(0, 0) =~= Seq::<ScopeEntry>::empty());
                assert(scope_lookup_in(all[s as int].entries@, name@) is None);
                assert(scope_lookup(all.subrange(0, s as int + 1), name@) == scope_lookup(
                    outer_prefix,
                    name@,
                ));
            }
        }
        proof {
            assert(all.subrange(0, 0) =~= Seq::<Scope>::empty());
        }
        None
    }

    /// Read a declared variable by the index [`TypeInference::declare`]
    /// returned.
    pub fn variable(&self, id: usize) -> (v: &Variable)
        requires
            id < self.variables@.len(),
        ensures
            *v == self.variables@[id as int],
    {
        &self.variables[id]
    }

    /// Narrow a declared variable's type in place by equating it with
    /// `other`, exactly as [`Type::equate`] would; the verdict and the new
    /// type follow the equating precedence table.
    pub fn equate_variable(&mut self, id: usize, other: Type) -> (r: bool)
        requires
            id < old(self).variables@.len(),
        ensures
            r == spec_equate_ok(old(self).variables@[id as int].ty, other),
            final(self).variables@.len() == old(self).variables@.len(),
            final(self).variables@[id as int].name == old(self).variables@[id as int].name,
            final(self).variables@[id as int].ty == spec_equate_result(
                old(self).variables@[id as int].ty,
                other,
            ),
            forall|j: int|
                0 <= j < old(self).variables@.len() && j != id ==> final(self).variables@[j] == old(
                    self,
                ).variables@[j],
            final(self).scopes == old(self).scopes,
            final(self).return_type == old(self).return_type,
            final(self).reporter == old(self).reporter,
            final(self).abort_compilation == old(self).abort_compilation,
            final(self).next_type_variable == old(self).next_type_variable,
            old(self).wf() ==> final(self).wf(),
    {
        self.variables[id].ty.equate(other)
    }

    /// Allocate a fresh type variable, never handed out before.
    pub fn alloc_type_variable(&mut self) -> (t: Type)
        requires
            old(self).next_type_variable < u64::MAX,
        ensures
            t == Type::TypeVariable(old(self).next_type_variable),
            final(self).next_type_variable == old(self).next_type_variable + 1,
            final(self).variables == old(self).variables,
            final(self).scopes == old(self).scopes,
            final(self).return_type == old(self).return_type,
            final(self).reporter == old(self).reporter,
            final(self).abort_compilation == old(self).abort_compilation,
            old(self).wf() ==> final(self).wf(),
    {
        let id = self.next_type_variable;
        self.next_type_variable = self.next_type_variable + 1;
        Type::TypeVariable(id)
    }

    /// Accumulate one diagnostic and set the abort flag: an error never
    /// stops traversal, but the pipeline must not go on to code generation.
    pub fn report(&mut self, report: Report)
        ensures
            final(self).reporter.reports@ == old(self).reporter.reports@.push(report),
            final(self).abort_compilation,
            final(self).variables == old(self).variables,
            final(self).scopes == old(self).scopes,
            final(self).return_type == old(self).return_type,
            final(self).next_type_variable == old(self).next_type_variable,
            old(self).wf() ==> final(self).wf(),
    {
        self.reporter.report(report);
        self.abort_compilation = true;
    }
}

/// Shadowing: a name declared in an inner scope wins over any outer
/// declaration while the inner scope is on the stack, and popping the inner
/// scope restores resolution to whatever the outer stack said.
pub proof fn lemma_scope_shadowing(outer: Seq<Scope>, inner: Scope, name: Seq<char>)
    requires
        inner.entries@.len() > 0,
        inner.entries@.last().name@ == name,
    ensures
        scope_lookup(outer.push(inner), name) == Some(inner.entries@.last().variable),
        scope_lookup(outer.push(inner).drop_last(), name) == scope_lookup(outer, name),
{
    assert(outer.push(inner).last() == inner);
    assert(outer.push(inner).drop_last() =~= outer);
}

/// Redeclaration in one scope: after appending an entry, lookup resolves to
/// it exactly when its name matches, and otherwise falls through to what the
/// scope said before — the last write wins.
pub proof fn lemma_redeclaration(entries: Seq<ScopeEntry>, entry: ScopeEntry, name: Seq<char>)
    ensures
        entry.name@ == name ==> scope_lookup_in(entries.push(entry), name) == Some(entry.variable),
        entry.name@ != name ==> scope_lookup_in(entries.push(entry), name) == scope_lookup_in(
            entries,
            name,
        ),
{
    assert(entries.push(entry).last() == entry);
    assert(entries.push(entry).drop_last() =~= entries);
}

} // verus!
