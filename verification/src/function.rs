use crate::expression::{
    expected_of, expr_eq, expr_equate_ok, expr_resolved, expr_settled, expr_span, expr_type,
    expr_wf, infer_quiet, lemma_expr_equate_ok_readout, lemma_expr_resolved_compose,
    lemma_expr_settled_readout, lemma_infer_quiet_congruent, lemma_prefix_refl,
    lemma_prefix_trans, type_settled, Expression,
};
use crate::reporter::Report;
use crate::span::{Span, Spanned};
use crate::type_inference::{Scope, TypeInference};
use crate::types::{
    lemma_morphs_congruent, lemma_type_eq_sym, lemma_type_eq_wf, spec_equate_ok, spec_morphs,
    type_eq, type_wf, Type,
};
use vstd::prelude::*;

verus! {

/// One parameter of a function: its name (as written, so the name doubles
/// as the parameter's span) and its type slot, narrowed in place by
/// inference.
#[derive(Debug)]
pub struct Parameter {
    /// The parameter's name
    pub name: Span,
    /// The parameter's type slot
    pub ty: Type,
}

/// A function signature: name, ordered parameters, and the declared return
/// type with the span it was declared at (diagnostics point back to it).
#[derive(Debug)]
pub struct Signature {
    /// The function's name
    pub name: Span,
    /// The parameters, in order
    pub args: Vec<Parameter>,
    /// The declared return type, with where it was declared
    pub return_type: Spanned<Type>,
}

/// A function: its signature and its body.
#[derive(Debug)]
pub struct Function {
    /// The function's signature
    pub signature: Signature,
    /// The function's body
    pub body: Expression,
    /// Where the function was written
    pub span: Span,
}

/// A function that checks cleanly as given: every slot in the body and the
/// parameters is already settled, the declared return type is settled, the
/// infer pass has nothing to complain about under it, and the body's type
/// morphs into it. On such a function inference owes success: not one
/// diagnostic.
pub open spec fn well_typed(f: Function) -> bool {
    &&& infer_quiet(f.body, Some(f.signature.return_type.inner))
    &&& expr_settled(f.body)
    &&& type_settled(f.signature.return_type.inner)
    &&& forall|j: int|
        0 <= j < f.signature.args@.len() ==> type_settled((#[trigger] f.signature.args@[j]).ty)
    &&& spec_morphs(expr_type(f.body), f.signature.return_type.inner)
}

/// Every type slot the function carries — body, parameters, declared return
/// type — is well-formed: no zero width anywhere. Inference preserves this.
pub open spec fn function_wf(f: Function) -> bool {
    &&& expr_wf(f.body)
    &&& type_wf(f.signature.return_type.inner)
    &&& forall|j: int|
        0 <= j < f.signature.args@.len() ==> type_wf((#[trigger] f.signature.args@[j]).ty)
}

impl Function {
    /// Create a new function.
    pub fn new(signature: Signature, body: Expression, span: Span) -> (f: Function)
        ensures
            f.signature == signature,
            f.body == body,
            f.span == span,
    {
        Function { signature, body, span }
    }

    /// Infer and check this function's types, the two phases in order.
    ///
    /// The infer phase saves the ambient expected return type and scope
    /// stack, starts from a fresh frame holding the parameters, and walks
    /// the body top-down. The finish-and-check phase resolves what is left
    /// bottom-up — afterwards every slot in the parameters and the body is
    /// settled — and checks that the body's type morphs into the declared
    /// return type, reporting a mismatch that points at both the body and
    /// the declaration. On exit the caller's scope stack and expected return
    /// type stand exactly as before.
    ///
    /// Diagnostics only accumulate, any new one sets the abort flag, and if
    /// none was added the body's type is known to morph into the declared
    /// return type and the parameters are exactly as they came. Whenever the
    /// finished body's type fails to morph, the last report is that
    /// mismatch, carrying both spans. The run rewrites nothing but type
    /// slots — each one narrows, or is poisoned alongside a report — and on
    /// a [`well_typed`] function it owes success: not one diagnostic.
    pub fn infer_and_check_types(&mut self, type_inference: &mut TypeInference)
        requires
            old(type_inference).wf(),
        ensures
            final(type_inference).wf(),
            final(type_inference).scopes == old(type_inference).scopes,
            final(type_inference).return_type == old(type_inference).return_type,
            old(type_inference).variables@.is_prefix_of(final(type_inference).variables@),
            old(type_inference).reporter.reports@.is_prefix_of(
                final(type_inference).reporter.reports@,
            ),
            final(type_inference).abort_compilation == (old(type_inference).abort_compilation
                || final(type_inference).reporter.reports@.len() > old(
                type_inference,
            ).reporter.reports@.len()),
            final(type_inference).next_type_variable == old(type_inference).next_type_variable,
            expr_settled(final(self).body),
            final(self).signature.args@.len() == old(self).signature.args@.len(),
            forall|i: int|
                0 <= i < final(self).signature.args@.len() ==> type_settled(
                    (#[trigger] final(self).signature.args@[i]).ty,
                ),
            forall|i: int|
                0 <= i < final(self).signature.args@.len() ==> (
                #[trigger] final(self).signature.args@[i]).name == old(
                    self,
                ).signature.args@[i].name,
            final(self).signature.return_type == old(self).signature.return_type,
            final(self).signature.name == old(self).signature.name,
            final(self).span == old(self).span,
            final(type_inference).reporter.reports@.len() == old(
                type_inference,
            ).reporter.reports@.len() ==> spec_morphs(
                expr_type(final(self).body),
                final(self).signature.return_type.inner,
            ),
            final(type_inference).reporter.reports@.len() == old(
                type_inference,
            ).reporter.reports@.len() ==> (forall|i: int|
                0 <= i < old(self).signature.args@.len()
                    ==> #[trigger] final(self).signature.args@[i] == old(
                    self,
                ).signature.args@[i]),
            !spec_morphs(expr_type(final(self).body), final(self).signature.return_type.inner)
                ==> final(type_inference).reporter.reports@.len() > old(
                type_inference,
            ).reporter.reports@.len() && (final(type_inference).reporter.reports@.last() matches
                Report::TypeMismatch { expected, expected_span, got, span } && type_eq(
                expected,
                final(self).signature.return_type.inner,
            ) && expected_span == final(self).signature.return_type.span && type_eq(
                got,
                expr_type(final(self).body),
            ) && span@ == expr_span(final(self).body)),
            expr_resolved(old(self).body, final(self).body),
            well_typed(*old(self)) ==> final(type_inference).reporter.reports@.len() == old(
                type_inference,
            ).reporter.reports@.len(),
            function_wf(*old(self)) ==> function_wf(*final(self)),
    {
        // Save and replace the ambient expected return type with this
        // function's declared one.
        let mut saved_return: Option<Spanned<Type>> = Some(
            Spanned {
                inner: self.signature.return_type.inner.clone(),
                span: self.signature.return_type.span.clone(),
            },
        );
        let ghost exp_clone = saved_return->Some_0.inner;
        let ghost installed_return = saved_return;
        core::mem::swap(&mut type_inference.return_type, &mut saved_return);
        // Snapshot the scope stack and start from a single fresh frame.
        let mut saved_scopes: Vec<Scope> = Vec::new();
        core::mem::swap(&mut type_inference.scopes, &mut saved_scopes);
        type_inference.push_scope();
        proof {
            lemma_prefix_refl(old(type_inference).variables@);
            lemma_prefix_refl(old(type_inference).reporter.reports@);
        }

        let mut i: usize = 0;
        while i < self.signature.args.len()
            invariant
                i <= self.signature.args@.len(),
                *self == *old(self),
                type_inference.wf(),
                type_inference.return_type == installed_return,
                type_inference.scopes@.len() == 1,
                old(type_inference).variables@.is_prefix_of(type_inference.variables@),
                type_inference.reporter == old(type_inference).reporter,
                type_inference.abort_compilation == old(type_inference).abort_compilation,
                type_inference.next_type_variable == old(type_inference).next_type_variable,
            decreases self.signature.args@.len() - i,
        {
            let ghost mid_variables = type_inference.variables@;
            let arg_name = self.signature.args[i].name.text.clone();
            let arg_ty = self.signature.args[i].ty.clone();
            let _ = type_inference.declare(arg_name, arg_ty);
            proof {
                assert(mid_variables.is_prefix_of(type_inference.variables@)) by {
                    assert(type_inference.variables@.subrange(0, mid_variables.len() as int)
                        =~= mid_variables);
                }
                lemma_prefix_trans(
                    old(type_inference).variables@,
                    mid_variables,
                    type_inference.variables@,
                );
            }
            i += 1;
        }

        let ghost pre_body = *type_inference;
        let _ = self.body.infer_types(type_inference);
        type_inference.pop_scope();
        let ghost body_mid = self.body;
        proof {
            lemma_prefix_trans(
                old(type_inference).variables@,
                pre_body.variables@,
                type_inference.variables@,
            );
            lemma_prefix_trans(
                old(type_inference).reporter.reports@,
                pre_body.reporter.reports@,
                type_inference.reporter.reports@,
            );
        }

        // Finish the parameters: every slot still unresolved is reported and
        // poisoned.
        let ghost pre_args = *type_inference;
        let mut i: usize = 0;
        while i < self.signature.args.len()
            invariant
                i <= self.signature.args@.len(),
                self.signature.args@.len() == old(self).signature.args@.len(),
                self.signature.name == old(self).signature.name,
                self.signature.return_type == old(self).signature.return_type,
                self.span == old(self).span,
                forall|j: int|
                    i <= j < self.signature.args@.len() ==> self.signature.args@[j] == old(
                        self,
                    ).signature.args@[j],
                forall|j: int|
                    0 <= j < i ==> type_settled((#[trigger] self.signature.args@[j]).ty),
                self.body == body_mid,
                forall|j: int|
                    0 <= j < i ==> (#[trigger] self.signature.args@[j]).name == old(
                        self,
                    ).signature.args@[j].name,
                type_inference.reporter.reports@.len() == pre_args.reporter.reports@.len()
                    ==> (forall|j: int|
                    0 <= j < i ==> #[trigger] self.signature.args@[j] == old(
                        self,
                    ).signature.args@[j]),
                (forall|j: int|
                    0 <= j < i ==> type_settled(
                        (#[trigger] old(self).signature.args@[j]).ty,
                    )) ==> type_inference.reporter == pre_args.reporter,
                (forall|j: int|
                    0 <= j < old(self).signature.args@.len() ==> type_wf(
                        (#[trigger] old(self).signature.args@[j]).ty,
                    )) ==> (forall|j: int|
                    0 <= j < i ==> type_wf((#[trigger] self.signature.args@[j]).ty)),
                type_inference.wf(),
                type_inference.scopes == pre_args.scopes,
                type_inference.variables == pre_args.variables,
                type_inference.return_type == pre_args.return_type,
                type_inference.next_type_variable == pre_args.next_type_variable,
                pre_args.reporter.reports@.is_prefix_of(type_inference.reporter.reports@),
                type_inference.abort_compilation == (pre_args.abort_compilation
                    || type_inference.reporter.reports@.len()
                    > pre_args.reporter.reports@.len()),
            decreases self.signature.args@.len() - i,
        {
            if matches!(
                self.signature.args[i].ty,
                Type::Wildcard | Type::IntegerWildcard | Type::TypeVariable(_)
            ) {
                let got = self.signature.args[i].ty.clone();
                let sp = self.signature.args[i].name.clone();
                type_inference.report(Report::IncompleteType { got, span: sp });
                self.signature.args[i].ty = Type::Error;
            }
            i += 1;
        }
        proof {
            lemma_prefix_trans(
                old(type_inference).reporter.reports@,
                pre_args.reporter.reports@,
                type_inference.reporter.reports@,
            );
        }

        // Finish the body, then hold its type against the declared return
        // type.
        let ghost pre_finish = *type_inference;
        let return_type = self.body.finish_and_check_types(type_inference);
        let ghost returned = return_type;
        proof {
            lemma_prefix_trans(
                old(type_inference).reporter.reports@,
                pre_finish.reporter.reports@,
                type_inference.reporter.reports@,
            );
        }
        if !return_type.morphs(&self.signature.return_type.inner) {
            let got = return_type;
            let sp = self.body.span();
            type_inference.report(Report::TypeMismatch {
                expected: self.signature.return_type.inner.clone(),
                expected_span: self.signature.return_type.span.clone(),
                got,
                span: sp,
            });
        }

        // Restore the caller's scope stack and expected return type.
        core::mem::swap(&mut type_inference.scopes, &mut saved_scopes);
        core::mem::swap(&mut type_inference.return_type, &mut saved_return);
        proof {
            assert(final(type_inference).wf()) by {
                assert(old(type_inference).variables@.len()
                    <= final(type_inference).variables@.len());
            }
            lemma_morphs_congruent(
                returned,
                expr_type(final(self).body),
                final(self).signature.return_type.inner,
            );
            lemma_expr_resolved_compose(old(self).body, body_mid, final(self).body);
            let inner0 = old(self).signature.return_type.inner;
            if function_wf(*old(self)) {
                lemma_type_eq_wf(exp_clone, old(self).signature.return_type.inner);
                assert(type_wf(exp_clone));
                assert(expr_wf(body_mid));
                assert(expr_wf(final(self).body));
                assert(type_wf(final(self).signature.return_type.inner));
            }
            if well_typed(*old(self)) {
                lemma_type_eq_sym(exp_clone, inner0);
                lemma_infer_quiet_congruent(old(self).body, inner0, exp_clone);
                assert(infer_quiet(old(self).body, expected_of(pre_body)));
                assert(type_settled(exp_clone));
                assert(expr_settled(body_mid));
                lemma_expr_settled_readout(old(self).body);
                assert(spec_equate_ok(expr_type(old(self).body), inner0));
                assert(expr_equate_ok(body_mid, inner0));
                lemma_expr_equate_ok_readout(body_mid, inner0);
                lemma_expr_settled_readout(body_mid);
                assert(spec_morphs(expr_type(body_mid), inner0));
                lemma_morphs_congruent(returned, expr_type(body_mid), inner0);
                assert(final(type_inference).reporter.reports@.len() == old(
                    type_inference,
                ).reporter.reports@.len());
            }
        }
    }
}

impl Clone for Parameter {
    /// Cloning keeps the name and yields a structurally equal type slot.
    fn clone(&self) -> (res: Parameter)
        ensures
            res.name == self.name,
            type_eq(res.ty, self.ty),
    {
        Parameter { name: self.name.clone(), ty: self.ty.clone() }
    }
}

impl Clone for Signature {
    /// A deep copy: same name and arity, parameter by parameter the same
    /// names and structurally equal types, and a structurally equal return
    /// type declared at the same span.
    fn clone(&self) -> (res: Signature)
        ensures
            res.name == self.name,
            res.args@.len() == self.args@.len(),
            forall|i: int|
                0 <= i < self.args@.len() ==> (#[trigger] res.args@[i]).name == self.args@[i].name
                    && type_eq(res.args@[i].ty, self.args@[i].ty),
            type_eq(res.return_type.inner, self.return_type.inner),
            res.return_type.span == self.return_type.span,
    {
        let mut args: Vec<Parameter> = Vec::new();
        let mut i: usize = 0;
        while i < self.args.len()
            invariant
                i <= self.args@.len(),
                args@.len() == i,
                forall|j: int|
                    0 <= j < i ==> (#[trigger] args@[j]).name == self.args@[j].name && type_eq(
                        args@[j].ty,
                        self.args@[j].ty,
                    ),
            decreases self.args@.len() - i,
        {
            args.push(self.args[i].clone());
            i += 1;
        }
        Signature {
            name: self.name.clone(),
            args,
            return_type: Spanned {
                inner: self.return_type.inner.clone(),
                span: self.return_type.span.clone(),
            },
        }
    }
}

impl Clone for Function {
    /// A deep copy, body included: the whole signature — name, every
    /// parameter's name and type, the return type and where it was declared
    /// — is preserved, the copy's body is structurally equal to the
    /// original's, and the copy shares nothing with the original, so later
    /// writes to one never reach the other.
    fn clone(&self) -> (res: Function)
        ensures
            expr_eq(res.body, self.body),
            type_eq(expr_type(res.body), expr_type(self.body)),
            expr_settled(res.body) == expr_settled(self.body),
            res.signature.name == self.signature.name,
            res.signature.args@.len() == self.signature.args@.len(),
            forall|i: int|
                0 <= i < self.signature.args@.len() ==> (#[trigger] res.signature.args@[i]).name
                    == self.signature.args@[i].name && type_eq(
                    res.signature.args@[i].ty,
                    self.signature.args@[i].ty,
                ),
            type_eq(res.signature.return_type.inner, self.signature.return_type.inner),
            res.signature.return_type.span == self.signature.return_type.span,
            res.span == self.span,
    {
        Function {
            signature: self.signature.clone(),
            body: self.body.clone(),
            span: self.span.clone(),
        }
    }
}

impl Clone for ExternFunction {
    /// A deep copy of the declaration.
    fn clone(&self) -> (res: ExternFunction)
        ensures
            res.name == self.name,
            res.signature.name == self.signature.name,
            res.signature.args@.len() == self.signature.args@.len(),
            type_eq(res.signature.return_type.inner, self.signature.return_type.inner),
            res.span == self.span,
    {
        ExternFunction {
            name: self.name.clone(),
            signature: self.signature.clone(),
            span: self.span.clone(),
        }
    }
}

/// An extern function: a signature declared here, a body elsewhere.
#[derive(Debug)]
pub struct ExternFunction {
    /// The extern function's name
    pub name: Span,
    /// The extern function's signature
    pub signature: Signature,
    /// Where the declaration was written
    pub span: Span,
}

/// A module: the root of a compilation unit, holding its functions and its
/// extern function declarations.
#[derive(Debug)]
pub struct Module {
    /// The functions defined in the module
    pub functions: Vec<Function>,
    /// The extern functions the module declares
    pub extern_functions: Vec<ExternFunction>,
}

impl Module {
    /// Infer and check the whole module: every function is fully inferred
    /// and checked — errors accumulate, they never stop traversal — and the
    /// returned context holds the diagnostics and the abort flag, set
    /// exactly when something was reported. If nothing was, every function
    /// body's type morphs into its declared return type.
    pub fn infer_and_check_types(&mut self) -> (ti: TypeInference)
        ensures
            ti.wf(),
            ti.abort_compilation <==> ti.reporter.reports@.len() > 0,
            final(self).functions@.len() == old(self).functions@.len(),
            forall|i: int|
                0 <= i < final(self).functions@.len() ==> expr_settled(
                    (#[trigger] final(self).functions@[i]).body,
                ),
            forall|i: int, j: int|
                0 <= i < final(self).functions@.len()
                    && 0 <= j < final(self).functions@[i].signature.args@.len()
                    ==> type_settled(
                    (#[trigger] final(self).functions@[i].signature.args@[j]).ty,
                ),
            ti.reporter.reports@.len() == 0 ==> forall|i: int|
                0 <= i < final(self).functions@.len() ==> spec_morphs(
                    expr_type((#[trigger] final(self).functions@[i]).body),
                    final(self).functions@[i].signature.return_type.inner,
                ),
            forall|i: int|
                0 <= i < final(self).functions@.len() ==> expr_resolved(
                    old(self).functions@[i].body,
                    (#[trigger] final(self).functions@[i]).body,
                ),
            (forall|i: int|
                0 <= i < old(self).functions@.len() ==> well_typed(
                    #[trigger] old(self).functions@[i],
                )) ==> ti.reporter.reports@.len() == 0,
            (forall|i: int|
                0 <= i < old(self).functions@.len() ==> function_wf(
                    #[trigger] old(self).functions@[i],
                )) ==> (forall|i: int|
                0 <= i < final(self).functions@.len() ==> function_wf(
                    #[trigger] final(self).functions@[i],
                )),
            final(self).extern_functions == old(self).extern_functions,
    {
        let mut ti = TypeInference::new();
        let mut i: usize = 0;
        while i < self.functions.len()
            invariant
                i <= self.functions@.len(),
                self.functions@.len() == old(self).functions@.len(),
                self.extern_functions == old(self).extern_functions,
                ti.wf(),
                ti.abort_compilation <==> ti.reporter.reports@.len() > 0,
                forall|j: int|
                    0 <= j < i ==> expr_settled((#[trigger] self.functions@[j]).body),
                forall|j: int, k: int|
                    0 <= j < i && 0 <= k < self.functions@[j].signature.args@.len()
                        ==> type_settled(
                        (#[trigger] self.functions@[j].signature.args@[k]).ty,
                    ),
                ti.reporter.reports@.len() == 0 ==> forall|j: int|
                    0 <= j < i ==> spec_morphs(
                        expr_type((#[trigger] self.functions@[j]).body),
                        self.functions@[j].signature.return_type.inner,
                    ),
                forall|j: int|
                    i <= j < self.functions@.len() ==> self.functions@[j] == old(
                        self,
                    ).functions@[j],
                forall|j: int|
                    0 <= j < i ==> expr_resolved(
                        old(self).functions@[j].body,
                        (#[trigger] self.functions@[j]).body,
                    ),
                (forall|j: int|
                    0 <= j < old(self).functions@.len() ==> well_typed(
                        #[trigger] old(self).functions@[j],
                    )) ==> ti.reporter.reports@.len() == 0,
                (forall|j: int|
                    0 <= j < old(self).functions@.len() ==> function_wf(
                        #[trigger] old(self).functions@[j],
                    )) ==> (forall|j: int|
                    0 <= j < i ==> function_wf(#[trigger] self.functions@[j])),
            decreases self.functions@.len() - i,
        {
            self.functions[i].infer_and_check_types(&mut ti);
            i += 1;
        }
        ti
    }
}

} // verus!
