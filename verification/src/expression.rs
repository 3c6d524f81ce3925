use crate::reporter::Report;
use crate::span::Span;
use crate::type_inference::TypeInference;
use crate::type_inference::scope_lookup;
use crate::types::{
    lemma_equate_congruent, lemma_equate_narrows, lemma_equate_result_accepts,
    lemma_equate_result_both, lemma_narrowed_refl, lemma_narrowed_trans, lemma_resolved_compose,
    lemma_type_eq_refl,
    lemma_type_eq_sym,
    lemma_equate_preserves_wf, lemma_type_eq_trans, lemma_type_eq_wf, spec_complete,
    spec_equate_ok, spec_equate_result, type_eq, type_narrowed, type_resolved, type_wf, Type,
};
use vstd::prelude::*;

verus! {

/// A literal constant, carrying the type slot that inference resolves: a
/// concrete integer or float type when the literal had a width suffix, the
/// integer wildcard otherwise.
#[derive(Debug)]
pub struct Constant {
    /// The literal's value
    pub value: u128,
    /// The literal's type slot
    pub ty: Type,
    /// Where the literal was written
    pub span: Span,
}

/// A binary operator
#[derive(Clone, Copy, Debug, PartialEq, Eq, Structural)]
pub enum BinaryOp {
    /// Addition
    Add,
    /// Subtraction
    Sub,
    /// Multiplication
    Mul,
    /// Division
    Div,
    /// Remainder
    Mod,
}

/// A braced block: statements in order, the last expression's type giving
/// the block's type. A block introduces a scope of its own.
#[derive(Debug)]
pub struct Block {
    /// The expressions of the block, in source order
    pub expressions: Vec<Expression>,
    /// Where the block was written
    pub span: Span,
}

/// One IR expression. Every type-bearing slot starts as a wildcard or an
/// integer wildcard unless the source pinned it down, and inference narrows
/// the slots in place.
#[derive(Debug)]
pub enum Expression {
    /// A literal constant
    Constant(Constant),
    /// A binary operation over two subexpressions
    BinaryOp(Box<Expression>, BinaryOp, Box<Expression>),
    /// A braced block
    Block(Block),
    /// A return statement: hands its value to the ambient expected return
    /// type, and itself has the never type
    Return(Box<Expression>, Span),
    /// A variable declaration: inserts a binding into the innermost scope;
    /// as an expression it has the unit type
    VariableDeclaration {
        /// The declared name
        name: String,
        /// The declared type, or a wildcard pending inference
        ty: Type,
        /// The variable the declaration was bound to, filled in by inference
        variable: Option<usize>,
        /// Where the declaration was written
        span: Span,
    },
    /// A placeholder for source the front end could not parse; poison, like
    /// the error type
    Error,
}

/// The type an expression denotes, read off its slots: a constant denotes
/// its slot, a binary operation the unification of its operands, a block its
/// last expression (unit when empty), a return statement the never type, a
/// declaration the unit type, and the error placeholder the error type.
pub open spec fn expr_type(e: Expression) -> Type
    decreases e,
{
    match e {
        Expression::Constant(c) => c.ty,
        Expression::BinaryOp(l, _, r) => spec_equate_result(expr_type(*l), expr_type(*r)),
        Expression::Block(b) => block_type(b),
        Expression::Return(_, _) => Type::Never,
        Expression::VariableDeclaration { .. } => Type::Unit,
        Expression::Error => Type::Error,
    }
}

/// The type a block denotes: its last expression's type, or unit when empty.
pub open spec fn block_type(b: Block) -> Type
    decreases b,
{
    if b.expressions@.len() == 0 {
        Type::Unit
    } else {
        expr_type(b.expressions@.last())
    }
}

/// A type slot is settled once finish-and-check has run: no wildcard, no
/// integer wildcard, no type variable is left — only concrete types, or the
/// error type standing in for a slot whose error was already reported.
pub open spec fn type_settled(t: Type) -> bool {
    !(t is Wildcard || t is IntegerWildcard || t is TypeVariable)
}

/// What the backend may assume of a settled slot: it is complete, or it is
/// the error type standing in for an error that was already reported.
pub proof fn lemma_settled_complete(t: Type)
    ensures
        type_settled(t) ==> spec_complete(t) || t is Error,
{
}

/// Every type slot in the expression is settled.
pub open spec fn expr_settled(e: Expression) -> bool
    decreases e,
{
    match e {
        Expression::Constant(c) => type_settled(c.ty),
        Expression::BinaryOp(l, _, r) => expr_settled(*l) && expr_settled(*r),
        Expression::Block(b) => block_settled(b),
        Expression::Return(inner, _) => expr_settled(*inner),
        Expression::VariableDeclaration { ty, .. } => type_settled(ty),
        Expression::Error => true,
    }
}

/// Every type slot in the block is settled.
pub open spec fn block_settled(b: Block) -> bool
    decreases b,
{
    forall|i: int| 0 <= i < b.expressions@.len() ==> expr_settled(#[trigger] b.expressions@[i])
}

/// Structural equality of two expressions: same shape, same values, same
/// names and spans, and structurally equal type slots. This is what a deep
/// copy preserves, and what "finish changed nothing" means.
pub open spec fn expr_eq(a: Expression, b: Expression) -> bool
    decreases a,
{
    match (a, b) {
        (Expression::Constant(c1), Expression::Constant(c2)) => {
            &&& c1.value == c2.value
            &&& type_eq(c1.ty, c2.ty)
            &&& c1.span == c2.span
        },
        (Expression::BinaryOp(l1, op1, r1), Expression::BinaryOp(l2, op2, r2)) => {
            &&& expr_eq(*l1, *l2)
            &&& op1 == op2
            &&& expr_eq(*r1, *r2)
        },
        (Expression::Block(b1), Expression::Block(b2)) => block_eq(b1, b2),
        (Expression::Return(i1, s1), Expression::Return(i2, s2)) => expr_eq(*i1, *i2) && s1 == s2,
        (
            Expression::VariableDeclaration { name: n1, ty: t1, variable: v1, span: s1 },
            Expression::VariableDeclaration { name: n2, ty: t2, variable: v2, span: s2 },
        ) => {
            &&& n1 == n2
            &&& type_eq(t1, t2)
            &&& v1 == v2
            &&& s1 == s2
        },
        (Expression::Error, Expression::Error) => true,
        _ => false,
    }
}

/// Structural equality of two blocks: same span, same length, and
/// structurally equal expressions in the same order.
pub open spec fn block_eq(a: Block, b: Block) -> bool
    decreases a,
{
    &&& a.expressions@.len() == b.expressions@.len()
    &&& forall|i: int|
        0 <= i < a.expressions@.len() ==> expr_eq(#[trigger] a.expressions@[i], b.expressions@[i])
    &&& a.span == b.span
}

/// Structural equality of expressions is reflexive.
pub proof fn lemma_expr_eq_refl(e: Expression)
    ensures
        expr_eq(e, e),
    decreases e,
{
    match e {
        Expression::Constant(c) => lemma_type_eq_refl(c.ty),
        Expression::BinaryOp(l, _, r) => {
            lemma_expr_eq_refl(*l);
            lemma_expr_eq_refl(*r);
        },
        Expression::Block(b) => lemma_block_eq_refl(b),
        Expression::Return(inner, _) => lemma_expr_eq_refl(*inner),
        Expression::VariableDeclaration { ty, .. } => lemma_type_eq_refl(ty),
        Expression::Error => {},
    }
}

/// Structural equality of blocks is reflexive.
pub proof fn lemma_block_eq_refl(b: Block)
    ensures
        block_eq(b, b),
    decreases b,
{
    assert forall|i: int| 0 <= i < b.expressions@.len() implies expr_eq(
        #[trigger] b.expressions@[i],
        b.expressions@[i],
    ) by {
        lemma_expr_eq_refl(b.expressions@[i]);
    }
}

/// The infer pass rewrites nothing but type slots: same shape, values,
/// names, operators and spans, variable bindings only ever filled in, and
/// every slot moved only as [`type_narrowed`] allows — a concrete slot is
/// never rewritten.
pub open spec fn expr_narrowed(a: Expression, b: Expression) -> bool
    decreases a,
{
    match (a, b) {
        (Expression::Constant(c1), Expression::Constant(c2)) => {
            &&& c1.value == c2.value
            &&& type_narrowed(c1.ty, c2.ty)
            &&& c1.span == c2.span
        },
        (Expression::BinaryOp(l1, op1, r1), Expression::BinaryOp(l2, op2, r2)) => {
            &&& expr_narrowed(*l1, *l2)
            &&& op1 == op2
            &&& expr_narrowed(*r1, *r2)
        },
        (Expression::Block(b1), Expression::Block(b2)) => block_narrowed(b1, b2),
        (Expression::Return(i1, s1), Expression::Return(i2, s2)) => expr_narrowed(*i1, *i2) && s1
            == s2,
        (
            Expression::VariableDeclaration { name: n1, ty: t1, variable: v1, span: s1 },
            Expression::VariableDeclaration { name: n2, ty: t2, variable: v2, span: s2 },
        ) => {
            &&& n1 == n2
            &&& type_narrowed(t1, t2)
            &&& (v2 is Some || v2 == v1)
            &&& s1 == s2
        },
        (Expression::Error, Expression::Error) => true,
        _ => false,
    }
}

/// The infer pass over a block rewrites nothing but type slots.
pub open spec fn block_narrowed(a: Block, b: Block) -> bool
    decreases a,
{
    &&& a.expressions@.len() == b.expressions@.len()
    &&& forall|i: int|
        0 <= i < a.expressions@.len() ==> expr_narrowed(
            #[trigger] a.expressions@[i],
            b.expressions@[i],
        )
    &&& a.span == b.span
}

/// A whole inference run rewrites nothing but type slots: it narrows them,
/// or poisons a still-unresolved one to the error type.
pub open spec fn expr_resolved(a: Expression, b: Expression) -> bool
    decreases a,
{
    match (a, b) {
        (Expression::Constant(c1), Expression::Constant(c2)) => {
            &&& c1.value == c2.value
            &&& type_resolved(c1.ty, c2.ty)
            &&& c1.span == c2.span
        },
        (Expression::BinaryOp(l1, op1, r1), Expression::BinaryOp(l2, op2, r2)) => {
            &&& expr_resolved(*l1, *l2)
            &&& op1 == op2
            &&& expr_resolved(*r1, *r2)
        },
        (Expression::Block(b1), Expression::Block(b2)) => block_resolved(b1, b2),
        (Expression::Return(i1, s1), Expression::Return(i2, s2)) => expr_resolved(*i1, *i2) && s1
            == s2,
        (
            Expression::VariableDeclaration { name: n1, ty: t1, variable: v1, span: s1 },
            Expression::VariableDeclaration { name: n2, ty: t2, variable: v2, span: s2 },
        ) => {
            &&& n1 == n2
            &&& type_resolved(t1, t2)
            &&& (v2 is Some || v2 == v1)
            &&& s1 == s2
        },
        (Expression::Error, Expression::Error) => true,
        _ => false,
    }
}

/// A whole inference run over a block rewrites nothing but type slots.
pub open spec fn block_resolved(a: Block, b: Block) -> bool
    decreases a,
{
    &&& a.expressions@.len() == b.expressions@.len()
    &&& forall|i: int|
        0 <= i < a.expressions@.len() ==> expr_resolved(
            #[trigger] a.expressions@[i],
            b.expressions@[i],
        )
    &&& a.span == b.span
}

/// An expression narrows to itself.
pub proof fn lemma_expr_narrowed_refl(e: Expression)
    ensures
        expr_narrowed(e, e),
    decreases e,
{
    match e {
        Expression::Constant(c) => lemma_narrowed_refl(c.ty),
        Expression::BinaryOp(l, _, r) => {
            lemma_expr_narrowed_refl(*l);
            lemma_expr_narrowed_refl(*r);
        },
        Expression::Block(b) => lemma_block_narrowed_refl(b),
        Expression::Return(inner, _) => lemma_expr_narrowed_refl(*inner),
        Expression::VariableDeclaration { ty, .. } => lemma_narrowed_refl(ty),
        Expression::Error => {},
    }
}

/// A block narrows to itself.
pub proof fn lemma_block_narrowed_refl(b: Block)
    ensures
        block_narrowed(b, b),
    decreases b,
{
    assert forall|i: int| 0 <= i < b.expressions@.len() implies expr_narrowed(
        #[trigger] b.expressions@[i],
        b.expressions@[i],
    ) by {
        lemma_expr_narrowed_refl(b.expressions@[i]);
    }
}

/// Two narrowing steps over an expression are one.
pub proof fn lemma_expr_narrowed_trans(a: Expression, b: Expression, c: Expression)
    requires
        expr_narrowed(a, b),
        expr_narrowed(b, c),
    ensures
        expr_narrowed(a, c),
    decreases a,
{
    match (a, b, c) {
        (
            Expression::Constant(c1),
            Expression::Constant(c2),
            Expression::Constant(c3),
        ) => lemma_narrowed_trans(c1.ty, c2.ty, c3.ty),
        (
            Expression::BinaryOp(l1, _, r1),
            Expression::BinaryOp(l2, _, r2),
            Expression::BinaryOp(l3, _, r3),
        ) => {
            lemma_expr_narrowed_trans(*l1, *l2, *l3);
            lemma_expr_narrowed_trans(*r1, *r2, *r3);
        },
        (Expression::Block(b1), Expression::Block(b2), Expression::Block(b3)) => {
            lemma_block_narrowed_trans(b1, b2, b3);
        },
        (
            Expression::Return(i1, _),
            Expression::Return(i2, _),
            Expression::Return(i3, _),
        ) => lemma_expr_narrowed_trans(*i1, *i2, *i3),
        (
            Expression::VariableDeclaration { ty: t1, .. },
            Expression::VariableDeclaration { ty: t2, .. },
            Expression::VariableDeclaration { ty: t3, .. },
        ) => lemma_narrowed_trans(t1, t2, t3),
        _ => {},
    }
}

/// Two narrowing steps over a block are one.
pub proof fn lemma_block_narrowed_trans(a: Block, b: Block, c: Block)
    requires
        block_narrowed(a, b),
        block_narrowed(b, c),
    ensures
        block_narrowed(a, c),
    decreases a,
{
    assert forall|i: int| 0 <= i < a.expressions@.len() implies expr_narrowed(
        #[trigger] a.expressions@[i],
        c.expressions@[i],
    ) by {
        lemma_expr_narrowed_trans(a.expressions@[i], b.expressions@[i], c.expressions@[i]);
    }
}

/// A narrowing step followed by a resolving step is a resolving step: what
/// the two passes do in sequence still only narrows and poisons slots.
pub proof fn lemma_expr_resolved_compose(a: Expression, b: Expression, c: Expression)
    requires
        expr_narrowed(a, b),
        expr_resolved(b, c),
    ensures
        expr_resolved(a, c),
    decreases a,
{
    match (a, b, c) {
        (
            Expression::Constant(c1),
            Expression::Constant(c2),
            Expression::Constant(c3),
        ) => lemma_resolved_compose(c1.ty, c2.ty, c3.ty),
        (
            Expression::BinaryOp(l1, _, r1),
            Expression::BinaryOp(l2, _, r2),
            Expression::BinaryOp(l3, _, r3),
        ) => {
            lemma_expr_resolved_compose(*l1, *l2, *l3);
            lemma_expr_resolved_compose(*r1, *r2, *r3);
        },
        (Expression::Block(b1), Expression::Block(b2), Expression::Block(b3)) => {
            lemma_block_resolved_compose(b1, b2, b3);
        },
        (
            Expression::Return(i1, _),
            Expression::Return(i2, _),
            Expression::Return(i3, _),
        ) => lemma_expr_resolved_compose(*i1, *i2, *i3),
        (
            Expression::VariableDeclaration { ty: t1, .. },
            Expression::VariableDeclaration { ty: t2, .. },
            Expression::VariableDeclaration { ty: t3, .. },
        ) => lemma_resolved_compose(t1, t2, t3),
        _ => {},
    }
}

/// The block version of the composition.
pub proof fn lemma_block_resolved_compose(a: Block, b: Block, c: Block)
    requires
        block_narrowed(a, b),
        block_resolved(b, c),
    ensures
        block_resolved(a, c),
    decreases a,
{
    assert forall|i: int| 0 <= i < a.expressions@.len() implies expr_resolved(
        #[trigger] a.expressions@[i],
        c.expressions@[i],
    ) by {
        lemma_expr_resolved_compose(a.expressions@[i], b.expressions@[i], c.expressions@[i]);
    }
}

/// A settled expression denotes a settled type.
pub proof fn lemma_expr_settled_readout(e: Expression)
    requires
        expr_settled(e),
    ensures
        type_settled(expr_type(e)),
    decreases e,
{
    if e is BinaryOp {
        let l = *e->BinaryOp_0;
        let r = *e->BinaryOp_2;
        lemma_expr_settled_readout(l);
        lemma_expr_settled_readout(r);
    } else if e is Block {
        let b = e->Block_0;
        reveal_with_fuel(expr_type, 2);
        reveal_with_fuel(block_type, 2);
        reveal_with_fuel(expr_settled, 2);
        reveal_with_fuel(block_settled, 2);
        if b.expressions@.len() > 0 {
            lemma_expr_settled_readout(b.expressions@.last());
        }
    }
}

/// Every type slot in the expression is well-formed: no zero width anywhere.
pub open spec fn expr_wf(e: Expression) -> bool
    decreases e,
{
    match e {
        Expression::Constant(c) => type_wf(c.ty),
        Expression::BinaryOp(l, _, r) => expr_wf(*l) && expr_wf(*r),
        Expression::Block(b) => block_wf(b),
        Expression::Return(inner, _) => expr_wf(*inner),
        Expression::VariableDeclaration { ty, .. } => type_wf(ty),
        Expression::Error => true,
    }
}

/// Every type slot in the block is well-formed.
pub open spec fn block_wf(b: Block) -> bool
    decreases b,
{
    forall|i: int| 0 <= i < b.expressions@.len() ==> expr_wf(#[trigger] b.expressions@[i])
}

/// A well-formed expression denotes a well-formed type.
pub proof fn lemma_expr_wf_readout(e: Expression)
    requires
        expr_wf(e),
    ensures
        type_wf(expr_type(e)),
    decreases e,
{
    if e is BinaryOp {
        let l = *e->BinaryOp_0;
        let r = *e->BinaryOp_2;
        lemma_expr_wf_readout(l);
        lemma_expr_wf_readout(r);
        lemma_equate_preserves_wf(expr_type(l), expr_type(r));
    } else if e is Block {
        let b = e->Block_0;
        reveal_with_fuel(expr_type, 2);
        reveal_with_fuel(block_type, 2);
        reveal_with_fuel(expr_wf, 2);
        reveal_with_fuel(block_wf, 2);
        if b.expressions@.len() > 0 {
            lemma_expr_wf_readout(b.expressions@.last());
        }
    }
}

/// The verdict of [`Expression::equate_type`]: whether every slot that
/// determines the expression's type accepts the target under the equating
/// precedence table.
pub open spec fn expr_equate_ok(e: Expression, target: Type) -> bool
    decreases e,
{
    match e {
        Expression::Constant(c) => spec_equate_ok(c.ty, target),
        Expression::BinaryOp(l, _, r) => expr_equate_ok(*l, target) && expr_equate_ok(*r, target),
        Expression::Block(b) => block_equate_ok(b, target),
        Expression::Return(_, _) => true,
        Expression::VariableDeclaration { .. } => spec_equate_ok(Type::Unit, target),
        Expression::Error => true,
    }
}

/// The verdict of [`Block::equate_type`].
pub open spec fn block_equate_ok(b: Block, target: Type) -> bool
    decreases b,
{
    if b.expressions@.len() == 0 {
        spec_equate_ok(Type::Unit, target)
    } else {
        expr_equate_ok(b.expressions@.last(), target)
    }
}

/// The expected return type a context imposes, if any.
pub open spec fn expected_of(ctx: TypeInference) -> Option<Type> {
    match ctx.return_type {
        Some(spanned) => Some(spanned.inner),
        None => None,
    }
}

/// The infer pass runs quietly on this expression: every pair of binary
/// operands unifies, and everything a return statement hands to the ambient
/// expected type is accepted by it. On such input [`Expression::infer_types`]
/// reports nothing.
pub open spec fn infer_quiet(e: Expression, expected: Option<Type>) -> bool
    decreases e,
{
    match e {
        Expression::Constant(_) => true,
        Expression::BinaryOp(l, _, r) => {
            &&& infer_quiet(*l, expected)
            &&& infer_quiet(*r, expected)
            &&& spec_equate_ok(expr_type(*l), expr_type(*r))
        },
        Expression::Block(b) => block_infer_quiet(b, expected),
        Expression::Return(inner, _) => {
            &&& infer_quiet(*inner, expected)
            &&& (expected matches Some(t) ==> expr_equate_ok(*inner, t))
        },
        Expression::VariableDeclaration { .. } => true,
        Expression::Error => true,
    }
}

/// The infer pass runs quietly on every expression of the block.
pub open spec fn block_infer_quiet(b: Block, expected: Option<Type>) -> bool
    decreases b,
{
    forall|i: int|
        0 <= i < b.expressions@.len() ==> infer_quiet(#[trigger] b.expressions@[i], expected)
}

/// Whether the infer pass runs quietly respects structural equality of the
/// expected return type.
pub proof fn lemma_infer_quiet_congruent(e: Expression, t: Type, t2: Type)
    requires
        type_eq(t, t2),
    ensures
        infer_quiet(e, Some(t)) == infer_quiet(e, Some(t2)),
    decreases e,
{
    match e {
        Expression::BinaryOp(l, _, r) => {
            lemma_infer_quiet_congruent(*l, t, t2);
            lemma_infer_quiet_congruent(*r, t, t2);
        },
        Expression::Block(b) => lemma_block_infer_quiet_congruent(b, t, t2),
        Expression::Return(inner, _) => {
            lemma_infer_quiet_congruent(*inner, t, t2);
            lemma_expr_equate_ok_congruent(*inner, t, t2);
        },
        _ => {},
    }
}

/// The block version of the congruence.
pub proof fn lemma_block_infer_quiet_congruent(b: Block, t: Type, t2: Type)
    requires
        type_eq(t, t2),
    ensures
        block_infer_quiet(b, Some(t)) == block_infer_quiet(b, Some(t2)),
    decreases b,
{
    assert forall|i: int| 0 <= i < b.expressions@.len() implies infer_quiet(
        #[trigger] b.expressions@[i],
        Some(t),
    ) == infer_quiet(b.expressions@[i], Some(t2)) by {
        lemma_infer_quiet_congruent(b.expressions@[i], t, t2);
    }
}

/// The source text an expression's span covers; the error placeholder has no
/// source of its own.
pub open spec fn expr_span(e: Expression) -> Seq<char>
    decreases e,
{
    match e {
        Expression::Constant(c) => c.span@,
        Expression::BinaryOp(l, _, _) => expr_span(*l),
        Expression::Block(b) => b.span@,
        Expression::Return(_, sp) => sp@,
        Expression::VariableDeclaration { span, .. } => span@,
        Expression::Error => Seq::empty(),
    }
}

/// A sequence is a prefix of itself.
pub(crate) proof fn lemma_prefix_refl<A>(s: Seq<A>)
    ensures
        s.is_prefix_of(s),
{
    assert(s.subrange(0, s.len() as int) =~= s);
}

/// Being a prefix is transitive.
pub(crate) proof fn lemma_prefix_trans<A>(a: Seq<A>, b: Seq<A>, c: Seq<A>)
    requires
        a.is_prefix_of(b),
        b.is_prefix_of(c),
    ensures
        a.is_prefix_of(c),
{
    assert(a =~= c.subrange(0, a.len() as int)) by {
        assert(forall|i: int|
            0 <= i < a.len() ==> a[i] == b.subrange(0, a.len() as int)[i]);
        assert(forall|i: int|
            0 <= i < b.len() ==> b[i] == c.subrange(0, b.len() as int)[i]);
    }
}

/// The slot-wise equating verdict respects structural equality of the
/// target.
pub proof fn lemma_expr_equate_ok_congruent(e: Expression, t: Type, t2: Type)
    requires
        type_eq(t, t2),
    ensures
        expr_equate_ok(e, t) == expr_equate_ok(e, t2),
    decreases e,
{
    match e {
        Expression::Constant(c) => {
            lemma_type_eq_refl(c.ty);
            lemma_equate_congruent(c.ty, c.ty, t, t2);
        },
        Expression::BinaryOp(l, _, r) => {
            lemma_expr_equate_ok_congruent(*l, t, t2);
            lemma_expr_equate_ok_congruent(*r, t, t2);
        },
        Expression::Block(b) => lemma_block_equate_ok_congruent(b, t, t2),
        Expression::Return(_, _) => {},
        Expression::VariableDeclaration { .. } => {
            lemma_type_eq_refl(Type::Unit);
            lemma_equate_congruent(Type::Unit, Type::Unit, t, t2);
        },
        Expression::Error => {},
    }
}

/// The block-level equating verdict respects structural equality of the
/// target.
pub proof fn lemma_block_equate_ok_congruent(b: Block, t: Type, t2: Type)
    requires
        type_eq(t, t2),
    ensures
        block_equate_ok(b, t) == block_equate_ok(b, t2),
    decreases b,
{
    if b.expressions@.len() == 0 {
        lemma_type_eq_refl(Type::Unit);
        lemma_equate_congruent(Type::Unit, Type::Unit, t, t2);
    } else {
        lemma_expr_equate_ok_congruent(b.expressions@.last(), t, t2);
    }
}

/// When every determining slot of an expression accepts a target, so does
/// the type the expression denotes.
pub proof fn lemma_expr_equate_ok_readout(e: Expression, x: Type)
    requires
        expr_equate_ok(e, x),
    ensures
        spec_equate_ok(expr_type(e), x),
    decreases e,
{
    if e is BinaryOp {
        let l = *e->BinaryOp_0;
        let r = *e->BinaryOp_2;
        assert(expr_equate_ok(l, x) && expr_equate_ok(r, x));
        lemma_expr_equate_ok_readout(l, x);
        lemma_expr_equate_ok_readout(r, x);
        lemma_equate_result_accepts(expr_type(l), expr_type(r), x);
        assert(expr_type(e) == spec_equate_result(expr_type(l), expr_type(r)));
    } else if e is Block {
        let b = e->Block_0;
        reveal_with_fuel(expr_type, 2);
        reveal_with_fuel(block_type, 2);
        assert(block_equate_ok(b, x));
        if b.expressions@.len() > 0 {
            assert(expr_equate_ok(b.expressions@.last(), x));
            lemma_expr_equate_ok_readout(b.expressions@.last(), x);
            assert(expr_type(e) == expr_type(b.expressions@.last()));
        } else {
            assert(expr_type(e) == Type::Unit);
        }
    }
}

impl Expression {

    /// Where this expression was written; a binary operation answers with
    /// its left operand, and the error placeholder with an empty span.
    pub fn span(&self) -> (s: Span)
        ensures
            s@ == expr_span(*self),
        decreases *self,
    {
        match self {
            Expression::Constant(c) => c.span.clone(),
            Expression::BinaryOp(l, _, _) => l.span(),
            Expression::Block(b) => b.span.clone(),
            Expression::Return(_, sp) => sp.clone(),
            Expression::VariableDeclaration { span, .. } => span.clone(),
            Expression::Error => {
                proof {
                    reveal_strlit("");
                }
                Span::new("")
            },
        }
    }

    /// Equate every slot that determines this expression's type with the
    /// target, narrowing literals and declarations in place. A node whose
    /// type no slot determines (a return statement, the error placeholder)
    /// absorbs any target. Nothing is reported here: the caller decides what
    /// a failed verdict means.
    pub fn equate_type(&mut self, target: &Type) -> (r: bool)
        ensures
            r == expr_equate_ok(*old(self), *target),
            r ==> (forall|x: Type|
                (#[trigger] expr_equate_ok(*old(self), x)) && spec_equate_ok(*target, x)
                    ==> expr_equate_ok(*final(self), x)),
            r ==> (forall|x: Type|
                (#[trigger] expr_equate_ok(*final(self), x)) ==> expr_equate_ok(*old(self), x)),
            expr_narrowed(*old(self), *final(self)),
            expr_settled(*old(self)) && type_settled(*target) ==> expr_settled(*final(self)),
            expr_wf(*old(self)) && type_wf(*target) ==> expr_wf(*final(self)),
        decreases *old(self),
    {
        let ghost s0 = *self;
        match self {
            Expression::Constant(c) => {
                let ghost c0 = *c;
                let other = target.clone();
                let ghost other_spec = other;
                proof {
                    lemma_type_eq_refl(c.ty);
                    lemma_equate_congruent(c.ty, c.ty, other, *target);
                }
                let r = c.ty.equate(other);
                proof {
                    assert(s0 == Expression::Constant(c0));
                    lemma_equate_narrows(c0.ty, other_spec);
                    assert(expr_narrowed(s0, Expression::Constant(*c)));
                    if expr_settled(s0) && type_settled(*target) {
                        assert(type_settled(other_spec));
                        assert(expr_settled(Expression::Constant(*c)));
                    }
                    if expr_wf(s0) && type_wf(*target) {
                        lemma_type_eq_wf(other_spec, *target);
                        lemma_equate_preserves_wf(c0.ty, other_spec);
                        assert(expr_wf(Expression::Constant(*c)));
                    }
                    if r {
                        assert forall|x: Type|
                            (#[trigger] expr_equate_ok(s0, x)) && spec_equate_ok(*target, x)
                                implies expr_equate_ok(Expression::Constant(*c), x) by {
                            lemma_type_eq_refl(x);
                            lemma_equate_congruent(other_spec, *target, x, x);
                            lemma_equate_result_accepts(c0.ty, other_spec, x);
                        }
                        assert forall|x: Type|
                            (#[trigger] expr_equate_ok(Expression::Constant(*c), x))
                                implies expr_equate_ok(s0, x) by {
                            lemma_equate_result_both(c0.ty, other_spec, x);
                        }
                    }
                }
                r
            },
            Expression::BinaryOp(l, op, r) => {
                let ghost l0 = *l;
                let ghost r0 = *r;
                let ghost op0 = *op;
                let left_ok = l.equate_type(target);
                let right_ok = r.equate_type(target);
                proof {
                    assert(s0 == Expression::BinaryOp(l0, op0, r0));
                    assert(expr_narrowed(s0, Expression::BinaryOp(*l, op0, *r)));
                    if left_ok && right_ok {
                        assert forall|x: Type|
                            (#[trigger] expr_equate_ok(s0, x)) && spec_equate_ok(*target, x)
                                implies expr_equate_ok(
                                Expression::BinaryOp(*l, op0, *r),
                                x,
                            ) by {
                            assert(expr_equate_ok(*l0, x) && expr_equate_ok(*r0, x));
                        }
                        assert forall|x: Type|
                            (#[trigger] expr_equate_ok(Expression::BinaryOp(*l, op0, *r), x))
                                implies expr_equate_ok(s0, x) by {
                            assert(expr_equate_ok(**final(l), x) && expr_equate_ok(
                                **final(r),
                                x,
                            ));
                        }
                    }
                }
                left_ok && right_ok
            },
            Expression::Block(b) => {
                let ghost b0 = *b;
                let r = b.equate_type(target);
                proof {
                    assert(s0 == Expression::Block(b0));
                    assert(expr_narrowed(s0, Expression::Block(*b)));
                    if r {
                        assert forall|x: Type|
                            (#[trigger] expr_equate_ok(s0, x)) && spec_equate_ok(*target, x)
                                implies expr_equate_ok(Expression::Block(*b), x) by {
                            assert(block_equate_ok(b0, x));
                            assert(block_equate_ok(*b, x));
                        }
                        assert forall|x: Type|
                            (#[trigger] expr_equate_ok(Expression::Block(*b), x))
                                implies expr_equate_ok(s0, x) by {
                            assert(block_equate_ok(*final(b), x));
                            assert(block_equate_ok(b0, x));
                        }
                    }
                }
                r
            },
            Expression::Return(_, _) => {
                proof {
                    lemma_expr_narrowed_refl(s0);
                }
                true
            },
            Expression::VariableDeclaration { .. } => {
                let mut unit_probe = Type::unit();
                let other = target.clone();
                proof {
                    lemma_type_eq_refl(Type::Unit);
                    lemma_equate_congruent(Type::Unit, Type::Unit, other, *target);
                    lemma_expr_narrowed_refl(s0);
                }
                unit_probe.equate(other)
            },
            Expression::Error => {
                proof {
                    lemma_expr_narrowed_refl(s0);
                }
                true
            },
        }
    }


    /// The bottom-up finish-and-check pass: resolve what inference left,
    /// report an incomplete-type error for every slot still holding a
    /// wildcard, an integer wildcard or a type variable, and poison such
    /// slots with the error type. Afterwards every slot in this expression
    /// is settled, and the returned type is exactly what the tree now reads.
    /// Diagnostics only accumulate, and any new one sets the abort flag.
    /// Success is owed: a diagnostic is added exactly when the expression
    /// came in unsettled, and an already-settled expression passes through
    /// structurally unchanged — a slot is poisoned only alongside a report.
    pub fn finish_and_check_types(&mut self, ctx: &mut TypeInference) -> (t: Type)
        requires
            old(ctx).wf(),
        ensures
            final(ctx).wf(),
            final(ctx).scopes == old(ctx).scopes,
            final(ctx).variables == old(ctx).variables,
            final(ctx).return_type == old(ctx).return_type,
            final(ctx).next_type_variable == old(ctx).next_type_variable,
            old(ctx).reporter.reports@.is_prefix_of(final(ctx).reporter.reports@),
            final(ctx).abort_compilation == (old(ctx).abort_compilation
                || final(ctx).reporter.reports@.len() > old(ctx).reporter.reports@.len()),
            expr_settled(*final(self)),
            type_eq(t, expr_type(*final(self))),
            final(ctx).reporter.reports@.len() == old(ctx).reporter.reports@.len()
                <==> expr_settled(*old(self)),
            expr_settled(*old(self)) ==> expr_eq(*final(self), *old(self)) && type_eq(
                t,
                expr_type(*old(self)),
            ),
            expr_resolved(*old(self), *final(self)),
            expr_wf(*old(self)) ==> expr_wf(*final(self)) && type_wf(t),
        decreases *old(self),
    {
        let ghost s0 = *self;
        proof {
            assert(s0 == *old(self));
        }
        match self {
            Expression::Constant(c) => {
                let ghost c0 = *c;
                if matches!(c.ty, Type::Wildcard | Type::IntegerWildcard | Type::TypeVariable(_)) {
                    let got = c.ty.clone();
                    let sp = c.span.clone();
                    ctx.report(Report::IncompleteType { got, span: sp });
                    c.ty = Type::Error;
                } else {
                    proof {
                        lemma_prefix_refl(old(ctx).reporter.reports@);
                        lemma_type_eq_refl(c.ty);
                    }
                }
                proof {
                    assert(s0 == Expression::Constant(c0));
                    assert(ctx.reporter.reports@.len() == old(ctx).reporter.reports@.len()
                        <==> expr_settled(s0));
                    lemma_narrowed_refl(c0.ty);
                    assert(expr_resolved(s0, Expression::Constant(*c)));
                    if expr_settled(s0) {
                        assert(expr_eq(Expression::Constant(*c), s0));
                        assert(type_eq(c.ty, expr_type(s0)));
                    }
                }
                c.ty.clone()
            },
            Expression::BinaryOp(l, op, r) => {
                let ghost l0 = **l;
                let ghost r0 = **r;
                let ghost lb0 = *l;
                let ghost rb0 = *r;
                let ghost op0 = *op;
                let tl = l.finish_and_check_types(ctx);
                let ghost reports_after_left = ctx.reporter.reports@;
                let tr = r.finish_and_check_types(ctx);
                let ghost mid_reports = ctx.reporter.reports@;
                let mut t = tl;
                let ghost tl_spec = t;
                let ghost tr_spec = tr;
                let _ = t.equate(tr);
                proof {
                    assert(s0 == Expression::BinaryOp(lb0, op0, rb0));
                    assert(expr_resolved(s0, Expression::BinaryOp(*final(l), op0, *final(r))));
                    if expr_wf(s0) {
                        lemma_equate_preserves_wf(tl_spec, tr_spec);
                    }
                    assert(expr_settled(s0) == (expr_settled(l0) && expr_settled(r0)));
                    lemma_equate_congruent(
                        tl_spec,
                        expr_type(**final(l)),
                        tr_spec,
                        expr_type(**final(r)),
                    );
                    assert(old(ctx).reporter.reports@.len() <= reports_after_left.len()
                        <= mid_reports.len());
                    assert(ctx.reporter.reports@.len() == old(ctx).reporter.reports@.len()
                        <==> expr_settled(s0));
                    if expr_settled(l0) && expr_settled(r0) {
                        lemma_equate_congruent(tl_spec, expr_type(l0), tr_spec, expr_type(r0));
                        assert(expr_eq(Expression::BinaryOp(*l, op0, *r), s0));
                        assert(type_eq(t, expr_type(s0)));
                    }
                    lemma_prefix_trans(
                        old(ctx).reporter.reports@,
                        mid_reports,
                        ctx.reporter.reports@,
                    );
                }
                t
            },
            Expression::Block(b) => {
                let ghost b0 = *b;
                let t = b.finish_and_check_types(ctx);
                proof {
                    assert(s0 == Expression::Block(b0));
                    assert(expr_resolved(s0, Expression::Block(*final(b))));
                    assert(expr_settled(s0) == block_settled(b0));
                    assert(ctx.reporter.reports@.len() == old(ctx).reporter.reports@.len()
                        <==> expr_settled(s0));
                    if expr_settled(s0) {
                        assert(expr_eq(Expression::Block(*b), s0));
                        assert(type_eq(t, expr_type(s0)));
                    }
                }
                t
            },
            Expression::Return(inner, sp) => {
                let ghost inner0 = *inner;
                let ghost sp0 = *sp;
                let _ = inner.finish_and_check_types(ctx);
                proof {
                    assert(s0 == Expression::Return(inner0, sp0));
                    assert(expr_resolved(s0, Expression::Return(*final(inner), sp0)));
                    assert(expr_settled(s0) == expr_settled(*inner0));
                    assert(ctx.reporter.reports@.len() == old(ctx).reporter.reports@.len()
                        <==> expr_settled(s0));
                    if expr_settled(s0) {
                        assert(expr_eq(Expression::Return(*inner, sp0), s0));
                        assert(type_eq(Type::Never, expr_type(s0)));
                    }
                }
                Type::Never
            },
            Expression::VariableDeclaration { name, ty, variable, span } => {
                let ghost name0 = *name;
                let ghost ty0 = *ty;
                let ghost variable0 = *variable;
                let ghost span0 = *span;
                if matches!(ty, Type::Wildcard | Type::IntegerWildcard | Type::TypeVariable(_)) {
                    let got = ty.clone();
                    let sp = span.clone();
                    ctx.report(Report::IncompleteType { got, span: sp });
                    *ty = Type::Error;
                } else {
                    proof {
                        lemma_prefix_refl(old(ctx).reporter.reports@);
                        lemma_type_eq_refl(*ty);
                    }
                }
                proof {
                    assert(s0 == (Expression::VariableDeclaration {
                        name: name0,
                        ty: ty0,
                        variable: variable0,
                        span: span0,
                    }));
                    assert(ctx.reporter.reports@.len() == old(ctx).reporter.reports@.len()
                        <==> expr_settled(s0));
                    lemma_narrowed_refl(ty0);
                    assert(expr_resolved(s0, *final(self)));
                    if expr_settled(s0) {
                        assert(expr_eq(
                            Expression::VariableDeclaration {
                                name: *name,
                                ty: *ty,
                                variable: *variable,
                                span: *span,
                            },
                            s0,
                        ));
                        assert(type_eq(Type::Unit, expr_type(s0)));
                    }
                }
                Type::unit()
            },
            Expression::Error => {
                proof {
                    lemma_prefix_refl(old(ctx).reporter.reports@);
                    assert(s0 == Expression::Error);
                    assert(expr_eq(Expression::Error, s0));
                    assert(expr_resolved(s0, Expression::Error));
                }
                Type::Error
            },
        }
    }

    /// The top-down infer pass: propagate expected types, assign constant
    /// types, declare bindings, and equate what must agree. Scopes stay
    /// balanced (pushes are paired with pops, and only the innermost scope
    /// gains entries), the expected return type is untouched, variables are
    /// only appended, diagnostics only accumulate, and any new diagnostic
    /// sets the abort flag. Diagnostics are owed both ways: on input the
    /// quiet mirror [`infer_quiet`] accepts, nothing at all is reported, and
    /// on input it rejects, at least one diagnostic is. The pass rewrites
    /// nothing but type slots, and a slot only ever narrows. A constant and
    /// the error placeholder pass through untouched, a declaration binds its
    /// name to a fresh variable holding the declared type, and when no
    /// diagnostic was added the returned type is exactly what the tree read
    /// on entry.
    pub fn infer_types(&mut self, ctx: &mut TypeInference) -> (t: Type)
        requires
            old(ctx).wf(),
            old(ctx).scopes@.len() > 0,
        ensures
            final(ctx).wf(),
            final(ctx).scopes@.len() == old(ctx).scopes@.len(),
            forall|k: int|
                0 <= k < old(ctx).scopes@.len() - 1 ==> final(ctx).scopes@[k] == old(
                    ctx,
                ).scopes@[k],
            final(ctx).return_type == old(ctx).return_type,
            old(ctx).variables@.is_prefix_of(final(ctx).variables@),
            old(ctx).reporter.reports@.is_prefix_of(final(ctx).reporter.reports@),
            final(ctx).abort_compilation == (old(ctx).abort_compilation
                || final(ctx).reporter.reports@.len() > old(ctx).reporter.reports@.len()),
            final(ctx).next_type_variable == old(ctx).next_type_variable,
            final(ctx).reporter.reports@.len() == old(ctx).reporter.reports@.len() ==> type_eq(
                t,
                expr_type(*old(self)),
            ),
            (*old(self)) matches Expression::Constant(c) ==> *final(self) == *old(self)
                && *final(ctx) == *old(ctx) && type_eq(t, c.ty),
            (*old(self)) is Error ==> *final(self) == *old(self) && *final(ctx) == *old(ctx)
                && t == Type::Error,
            (*old(self)) is Return ==> t == Type::Never,
            infer_quiet(*old(self), expected_of(*old(ctx))) ==> final(ctx).reporter == old(
                ctx,
            ).reporter && (forall|x: Type|
                #[trigger] spec_equate_ok(expr_type(*old(self)), x) ==> expr_equate_ok(
                    *final(self),
                    x,
                )) && (forall|x: Type|
                (#[trigger] expr_equate_ok(*final(self), x)) ==> expr_equate_ok(*old(self), x)),
            !infer_quiet(*old(self), expected_of(*old(ctx)))
                ==> final(ctx).reporter.reports@.len() > old(ctx).reporter.reports@.len(),
            expr_narrowed(*old(self), *final(self)),
            expr_settled(*old(self)) && (expected_of(*old(ctx)) matches Some(tv)
                ==> type_settled(tv)) ==> expr_settled(*final(self)) && type_settled(t),
            expr_wf(*old(self)) && (expected_of(*old(ctx)) matches Some(tv) ==> type_wf(tv))
                ==> expr_wf(*final(self)) && type_wf(t),
            (*old(self)) matches Expression::VariableDeclaration { name, ty, variable: _, span }
                ==> ({
                &&& final(ctx).variables@.len() == old(ctx).variables@.len() + 1
                &&& final(ctx).variables@.last().name == name
                &&& type_eq(final(ctx).variables@.last().ty, ty)
                &&& scope_lookup(final(ctx).scopes@, name@)
                    == Some((old(ctx).variables@.len() as usize))
                &&& *final(self) == (Expression::VariableDeclaration {
                    name,
                    ty,
                    variable: Some((old(ctx).variables@.len() as usize)),
                    span,
                })
                &&& t == Type::Unit
                &&& final(ctx).reporter == old(ctx).reporter
            }),
        decreases *old(self),
    {
        let ghost s0 = *self;
        match self {
            Expression::Constant(c) => {
                let ghost c0 = *c;
                let result = c.ty.clone();
                proof {
                    lemma_prefix_refl(old(ctx).reporter.reports@);
                    lemma_prefix_refl(old(ctx).variables@);
                    assert(s0 == Expression::Constant(c0));
                    lemma_expr_narrowed_refl(s0);
                    assert(*final(self) == s0);
                    assert forall|x: Type|
                        #[trigger] spec_equate_ok(expr_type(s0), x) implies expr_equate_ok(
                        *final(self),
                        x,
                    ) by {
                        assert(*final(self) == Expression::Constant(c0));
                    }
                }
                result
            },
            Expression::BinaryOp(l, op, r) => {
                let ghost l0 = **l;
                let ghost r0 = **r;
                let ghost lb0 = *l;
                let ghost rb0 = *r;
                let ghost op0 = *op;
                let tl = l.infer_types(ctx);
                let ghost mid_reports = ctx.reporter.reports@;
                let ghost mid_variables = ctx.variables@;
                let tr = r.infer_types(ctx);
                proof {
                    lemma_prefix_trans(old(ctx).variables@, mid_variables, ctx.variables@);
                    lemma_prefix_trans(old(ctx).reporter.reports@, mid_reports, ctx.reporter.reports@);
                }
                let mut t = tl;
                let ghost tl_spec = t;
                let ghost tr_spec = tr;
                let other = tr.clone();
                let ghost other_spec = other;
                if t.equate(other) {
                    let ghost t_merged = t;
                    let ghost l_mid = **l;
                    let ghost r_mid = **r;
                    let left_ok = l.equate_type(&t);
                    let right_ok = r.equate_type(&t);
                    proof {
                        assert(s0 == Expression::BinaryOp(lb0, op0, rb0));
                        lemma_expr_narrowed_trans(l0, l_mid, **final(l));
                        lemma_expr_narrowed_trans(r0, r_mid, **final(r));
                        assert(expr_narrowed(s0, Expression::BinaryOp(*final(l), op0, *final(r))));
                        if expr_settled(s0) && (expected_of(*old(ctx)) matches Some(tv)
                            ==> type_settled(tv)) {
                            assert(type_settled(tl_spec) && type_settled(tr_spec));
                            assert(type_settled(other_spec));
                            assert(type_settled(t_merged));
                            assert(expr_settled(Expression::BinaryOp(*final(l), op0, *final(r))));
                        }
                        if expr_wf(s0) && (expected_of(*old(ctx)) matches Some(tv) ==> type_wf(
                            tv,
                        )) {
                            assert(type_wf(tl_spec) && type_wf(tr_spec));
                            lemma_type_eq_wf(other_spec, tr_spec);
                            lemma_equate_preserves_wf(tl_spec, other_spec);
                            assert(type_wf(t_merged));
                            assert(expr_wf(Expression::BinaryOp(*final(l), op0, *final(r))));
                        }
                        if ctx.reporter.reports@.len() == old(ctx).reporter.reports@.len() {
                            lemma_type_eq_sym(other_spec, tr_spec);
                            lemma_type_eq_sym(tr_spec, other_spec);
                            lemma_type_eq_trans(other_spec, tr_spec, expr_type(r0));
                            lemma_equate_congruent(
                                tl_spec,
                                expr_type(l0),
                                other_spec,
                                expr_type(r0),
                            );
                            assert(type_eq(t, expr_type(s0)));
                        }
                        if !infer_quiet(s0, expected_of(*old(ctx))) {
                            if infer_quiet(l0, expected_of(*old(ctx))) && infer_quiet(
                                r0,
                                expected_of(*old(ctx)),
                            ) {
                                lemma_type_eq_sym(other_spec, tr_spec);
                                lemma_type_eq_sym(tr_spec, other_spec);
                                lemma_type_eq_trans(other_spec, tr_spec, expr_type(r0));
                                lemma_equate_congruent(
                                    tl_spec,
                                    expr_type(l0),
                                    other_spec,
                                    expr_type(r0),
                                );
                                assert(spec_equate_ok(expr_type(l0), expr_type(r0)));
                                assert(false);
                            }
                        }
                        if infer_quiet(s0, expected_of(*old(ctx))) {
                            assert(infer_quiet(l0, expected_of(*old(ctx))));
                            assert(infer_quiet(r0, expected_of(*old(ctx))));
                            lemma_type_eq_sym(other_spec, tr_spec);
                            lemma_type_eq_sym(tr_spec, other_spec);
                            lemma_type_eq_trans(other_spec, tr_spec, expr_type(r0));
                            lemma_equate_congruent(
                                tl_spec,
                                expr_type(l0),
                                other_spec,
                                expr_type(r0),
                            );
                            let ul = expr_type(l0);
                            let ur = expr_type(r0);
                            let res0 = spec_equate_result(ul, ur);
                            lemma_type_eq_sym(t_merged, res0);
                            lemma_type_eq_refl(ul);
                            lemma_type_eq_refl(ur);
                            if type_eq(ul, ur) {
                                lemma_type_eq_sym(ul, ur);
                            }
                            assert(spec_equate_ok(ul, res0));
                            assert(spec_equate_ok(ur, res0));
                            lemma_equate_congruent(ul, ul, res0, t_merged);
                            lemma_equate_congruent(ur, ur, res0, t_merged);
                            assert(spec_equate_ok(ul, t_merged));
                            assert(spec_equate_ok(ur, t_merged));
                            assert(left_ok);
                            assert(right_ok);
                            assert forall|x: Type|
                                #[trigger] spec_equate_ok(expr_type(s0), x)
                                    implies expr_equate_ok(
                                Expression::BinaryOp(*l, op0, *r),
                                x,
                            ) by {
                                assert(l0 == *lb0 && r0 == *rb0);
                                assert(expr_type(s0) == res0);
                                lemma_equate_result_both(ul, ur, x);
                                assert(expr_equate_ok(l_mid, x) && expr_equate_ok(r_mid, x));
                                lemma_type_eq_refl(x);
                                lemma_equate_congruent(res0, t_merged, x, x);
                                assert(spec_equate_ok(t_merged, x));
                            }
                            assert forall|x: Type|
                                (#[trigger] expr_equate_ok(
                                    Expression::BinaryOp(*final(l), op0, *final(r)),
                                    x,
                                )) implies expr_equate_ok(s0, x) by {
                                assert(expr_equate_ok(**final(l), x) && expr_equate_ok(
                                    **final(r),
                                    x,
                                ));
                                assert(expr_equate_ok(l_mid, x) && expr_equate_ok(r_mid, x));
                                assert(expr_equate_ok(l0, x) && expr_equate_ok(r0, x));
                            }
                        }
                    }
                    t
                } else {
                    proof {
                        assert(s0 == Expression::BinaryOp(lb0, op0, rb0));
                        assert(expr_narrowed(s0, Expression::BinaryOp(*l, op0, *r)));
                        if infer_quiet(s0, expected_of(*old(ctx))) {
                            lemma_type_eq_sym(other_spec, tr_spec);
                            lemma_type_eq_sym(tr_spec, other_spec);
                            lemma_type_eq_trans(other_spec, tr_spec, expr_type(r0));
                            lemma_equate_congruent(
                                tl_spec,
                                expr_type(l0),
                                other_spec,
                                expr_type(r0),
                            );
                            assert(false);
                        }
                    }
                    let sp = l.span();
                    let exp_span = r.span();
                    ctx.report(Report::TypeMismatch {
                        expected: tr,
                        expected_span: exp_span,
                        got: t,
                        span: sp,
                    });
                    Type::Error
                }
            },
            Expression::Block(b) => {
                let ghost b0 = *b;
                let t = b.infer_types(ctx);
                proof {
                    assert(s0 == Expression::Block(b0));
                    assert(expr_narrowed(s0, Expression::Block(*final(b))));
                    if infer_quiet(s0, expected_of(*old(ctx))) {
                        assert(block_infer_quiet(b0, expected_of(*old(ctx))));
                        assert forall|x: Type|
                            #[trigger] spec_equate_ok(expr_type(s0), x) implies expr_equate_ok(
                            *final(self),
                            x,
                        ) by {
                            reveal_with_fuel(expr_type, 2);
                            reveal_with_fuel(block_type, 2);
                            reveal_with_fuel(expr_equate_ok, 2);
                            reveal_with_fuel(block_equate_ok, 2);
                            assert(spec_equate_ok(block_type(b0), x));
                            assert(block_equate_ok(*final(b), x));
                            assert(*final(self) == Expression::Block(*final(b)));
                        }
                        assert forall|x: Type|
                            (#[trigger] expr_equate_ok(*final(self), x)) implies expr_equate_ok(
                            s0,
                            x,
                        ) by {
                            reveal_with_fuel(expr_equate_ok, 2);
                            reveal_with_fuel(block_equate_ok, 2);
                            assert(*final(self) == Expression::Block(*final(b)));
                            assert(block_equate_ok(*final(b), x));
                            assert(block_equate_ok(b0, x));
                        }
                    }
                    if !infer_quiet(s0, expected_of(*old(ctx))) {
                        assert(!block_infer_quiet(b0, expected_of(*old(ctx))));
                    }
                }
                t
            },
            Expression::Return(inner, sp) => {
                let ghost inner0 = *inner;
                let ghost sp0 = *sp;
                let ghost exp0 = expected_of(*old(ctx));
                let t_inner = inner.infer_types(ctx);
                let ghost inner_mid = *inner;
                let expected = match &ctx.return_type {
                    Some(spanned) => Some((spanned.inner.clone(), spanned.span.clone())),
                    None => None,
                };
                match expected {
                    Some((exp_ty, exp_span)) => {
                        proof {
                            if exp0 matches Some(tv) && type_settled(tv) {
                                assert(type_settled(exp_ty));
                            }
                            if exp0 matches Some(tv) && type_wf(tv) {
                                lemma_type_eq_wf(exp_ty, exp0->Some_0);
                                assert(type_wf(exp_ty));
                            }
                            if infer_quiet(s0, exp0) {
                                assert(s0 == Expression::Return(inner0, sp0));
                                assert(exp0 matches Some(tv) && expr_equate_ok(*inner0, tv));
                                lemma_expr_equate_ok_readout(*inner0, exp0->Some_0);
                                lemma_type_eq_sym(exp_ty, exp0->Some_0);
                                lemma_type_eq_refl(expr_type(*inner0));
                                lemma_equate_congruent(
                                    expr_type(*inner0),
                                    expr_type(*inner0),
                                    exp0->Some_0,
                                    exp_ty,
                                );
                                assert(spec_equate_ok(expr_type(*inner0), exp_ty));
                            }
                        }
                        let ghost pre_verdict_reports = ctx.reporter.reports@;
                        let ok = inner.equate_type(&exp_ty);
                        proof {
                            if !infer_quiet(s0, exp0) && infer_quiet(*inner0, exp0) && ok {
                                assert(expr_equate_ok(*inner_mid, exp_ty));
                                assert(expr_equate_ok(*inner0, exp_ty));
                                lemma_expr_equate_ok_congruent(
                                    *inner0,
                                    exp_ty,
                                    exp0->Some_0,
                                );
                                assert(expr_equate_ok(*inner0, exp0->Some_0));
                                assert(false);
                            }
                        }
                        if !ok {
                            let sp_inner = inner.span();
                            ctx.report(Report::TypeMismatch {
                                expected: exp_ty,
                                expected_span: exp_span,
                                got: t_inner,
                                span: sp_inner,
                            });
                        }
                    },
                    None => {},
                }
                proof {
                    assert(s0 == Expression::Return(inner0, sp0));
                    lemma_expr_narrowed_refl(*inner_mid);
                    lemma_expr_narrowed_trans(*inner0, *inner_mid, **final(inner));
                    assert(expr_narrowed(s0, Expression::Return(*final(inner), sp0)));
                    if infer_quiet(s0, exp0) {
                        assert(*final(self) is Return);
                    }
                }
                Type::Never
            },
            Expression::VariableDeclaration { name, ty, variable, span } => {
                let ghost name0 = *name;
                let ghost ty0 = *ty;
                let ghost variable0 = *variable;
                let ghost span0 = *span;
                let id = ctx.declare(name.clone(), ty.clone());
                *variable = Some(id);
                proof {
                    lemma_prefix_refl(old(ctx).reporter.reports@);
                    assert(old(ctx).variables@.is_prefix_of(ctx.variables@)) by {
                        assert(ctx.variables@.subrange(0, old(ctx).variables@.len() as int)
                            =~= old(ctx).variables@);
                    }
                    assert(s0 == (Expression::VariableDeclaration {
                        name: name0,
                        ty: ty0,
                        variable: variable0,
                        span: span0,
                    }));
                    assert(type_eq(Type::Unit, expr_type(s0)));
                    lemma_narrowed_refl(ty0);
                    assert(expr_narrowed(s0, *final(self)));
                    assert forall|x: Type|
                        #[trigger] spec_equate_ok(expr_type(s0), x) implies expr_equate_ok(
                        *final(self),
                        x,
                    ) by {
                        assert((*final(self)) is VariableDeclaration);
                    }
                    assert forall|x: Type|
                        (#[trigger] expr_equate_ok(*final(self), x)) implies expr_equate_ok(
                        s0,
                        x,
                    ) by {
                        assert((*final(self)) is VariableDeclaration);
                    }
                }
                Type::unit()
            },
            Expression::Error => {
                proof {
                    lemma_prefix_refl(old(ctx).reporter.reports@);
                    lemma_prefix_refl(old(ctx).variables@);
                    assert(s0 == Expression::Error);
                    lemma_expr_narrowed_refl(s0);
                    assert forall|x: Type|
                        #[trigger] spec_equate_ok(expr_type(s0), x) implies expr_equate_ok(
                        *final(self),
                        x,
                    ) by {
                        assert(*final(self) == Expression::Error);
                    }
                }
                Type::Error
            },
        }
    }
}

impl Block {
    /// Equate the slot that determines this block's type — its last
    /// expression — with the target; an empty block has the unit type and no
    /// slot to narrow.
    pub fn equate_type(&mut self, target: &Type) -> (r: bool)
        ensures
            r == block_equate_ok(*old(self), *target),
            final(self).expressions@.len() == old(self).expressions@.len(),
            final(self).span == old(self).span,
            r ==> (forall|x: Type|
                (#[trigger] block_equate_ok(*old(self), x)) && spec_equate_ok(*target, x)
                    ==> block_equate_ok(*final(self), x)),
            r ==> (forall|x: Type|
                (#[trigger] block_equate_ok(*final(self), x)) ==> block_equate_ok(
                    *old(self),
                    x,
                )),
            block_narrowed(*old(self), *final(self)),
            block_settled(*old(self)) && type_settled(*target) ==> block_settled(*final(self)),
            block_wf(*old(self)) && type_wf(*target) ==> block_wf(*final(self)),
        decreases *old(self),
    {
        let ghost b0 = *self;
        if self.expressions.len() == 0 {
            let mut unit_probe = Type::unit();
            let other = target.clone();
            proof {
                lemma_type_eq_refl(Type::Unit);
                lemma_equate_congruent(Type::Unit, Type::Unit, other, *target);
                lemma_block_narrowed_refl(b0);
            }
            unit_probe.equate(other)
        } else {
            let last = self.expressions.len() - 1;
            proof {
                assert(decreases_to!(*old(self) => old(self).expressions));
                assert(decreases_to!(old(self).expressions => old(self).expressions@));
                assert(decreases_to!(old(self).expressions@ => old(self).expressions@[last as int]));
            }
            let ghost last0 = self.expressions@[last as int];
            let r = self.expressions[last].equate_type(target);
            proof {
                assert forall|i: int| 0 <= i < b0.expressions@.len() implies expr_narrowed(
                    #[trigger] b0.expressions@[i],
                    final(self).expressions@[i],
                ) by {
                    if i != last {
                        lemma_expr_narrowed_refl(b0.expressions@[i]);
                    }
                }
                if block_settled(b0) && type_settled(*target) {
                    assert forall|i: int| 0 <= i < final(self).expressions@.len()
                        implies expr_settled(#[trigger] final(self).expressions@[i]) by {
                        assert(expr_settled(b0.expressions@[i]));
                    }
                }
                if block_wf(b0) && type_wf(*target) {
                    assert forall|i: int| 0 <= i < final(self).expressions@.len()
                        implies expr_wf(#[trigger] final(self).expressions@[i]) by {
                        assert(expr_wf(b0.expressions@[i]));
                    }
                }
                if r {
                    assert forall|x: Type|
                        (#[trigger] block_equate_ok(*old(self), x)) && spec_equate_ok(*target, x)
                            implies block_equate_ok(*final(self), x) by {
                        assert(expr_equate_ok(last0, x));
                        assert(final(self).expressions@.last() == final(self).expressions@[
                            last as int
                        ]);
                    }
                    assert forall|x: Type|
                        (#[trigger] block_equate_ok(*final(self), x)) implies block_equate_ok(
                        *old(self),
                        x,
                    ) by {
                        assert(final(self).expressions@.last() == final(self).expressions@[
                            last as int
                        ]);
                        assert(expr_equate_ok(final(self).expressions@[last as int], x));
                        assert(expr_equate_ok(last0, x));
                    }
                }
            }
            r
        }
    }

    /// The bottom-up finish-and-check pass over the block's expressions, in
    /// order; afterwards every slot in the block is settled and the returned
    /// type is exactly what the block now reads.
    pub fn finish_and_check_types(&mut self, ctx: &mut TypeInference) -> (t: Type)
        requires
            old(ctx).wf(),
        ensures
            final(ctx).wf(),
            final(ctx).scopes == old(ctx).scopes,
            final(ctx).variables == old(ctx).variables,
            final(ctx).return_type == old(ctx).return_type,
            final(ctx).next_type_variable == old(ctx).next_type_variable,
            old(ctx).reporter.reports@.is_prefix_of(final(ctx).reporter.reports@),
            final(ctx).abort_compilation == (old(ctx).abort_compilation
                || final(ctx).reporter.reports@.len() > old(ctx).reporter.reports@.len()),
            block_settled(*final(self)),
            type_eq(t, block_type(*final(self))),
            final(self).expressions@.len() == old(self).expressions@.len(),
            final(self).span == old(self).span,
            final(ctx).reporter.reports@.len() == old(ctx).reporter.reports@.len()
                <==> block_settled(*old(self)),
            block_settled(*old(self)) ==> block_eq(*final(self), *old(self)) && type_eq(
                t,
                block_type(*old(self)),
            ),
            block_resolved(*old(self), *final(self)),
            block_wf(*old(self)) ==> block_wf(*final(self)) && type_wf(t),
        decreases *old(self),
    {
        let mut t = Type::unit();
        let mut i: usize = 0;
        proof {
            lemma_prefix_refl(old(ctx).reporter.reports@);
        }
        while i < self.expressions.len()
            invariant
                i <= self.expressions@.len(),
                self.expressions@.len() == old(self).expressions@.len(),
                self.span == old(self).span,
                forall|j: int|
                    i <= j < self.expressions@.len() ==> self.expressions@[j] == old(
                        self,
                    ).expressions@[j],
                forall|j: int| 0 <= j < i ==> expr_settled(#[trigger] self.expressions@[j]),
                i > 0 ==> type_eq(t, expr_type(self.expressions@[i - 1])),
                i == 0 ==> t == Type::Unit,
                ctx.reporter.reports@.len() == old(ctx).reporter.reports@.len() <==> (forall|
                    j: int,
                |
                    0 <= j < i ==> expr_settled(#[trigger] old(self).expressions@[j])),
                (forall|j: int| 0 <= j < i ==> expr_settled(#[trigger] old(self).expressions@[j]))
                    ==> (forall|j: int|
                    0 <= j < i ==> expr_eq(
                        #[trigger] self.expressions@[j],
                        old(self).expressions@[j],
                    )) && (i > 0 ==> type_eq(t, expr_type(old(self).expressions@[i - 1]))),
                forall|j: int|
                    0 <= j < i ==> expr_resolved(
                        old(self).expressions@[j],
                        #[trigger] self.expressions@[j],
                    ),
                block_wf(*old(self)) ==> (forall|j: int|
                    0 <= j < i ==> expr_wf(#[trigger] self.expressions@[j])) && type_wf(t),
                ctx.wf(),
                ctx.scopes == old(ctx).scopes,
                ctx.variables == old(ctx).variables,
                ctx.return_type == old(ctx).return_type,
                ctx.next_type_variable == old(ctx).next_type_variable,
                old(ctx).reporter.reports@.is_prefix_of(ctx.reporter.reports@),
                ctx.abort_compilation == (old(ctx).abort_compilation
                    || ctx.reporter.reports@.len() > old(ctx).reporter.reports@.len()),
            decreases self.expressions@.len() - i,
        {
            proof {
                assert(decreases_to!(*old(self) => old(self).expressions));
                assert(decreases_to!(old(self).expressions => old(self).expressions@));
                assert(decreases_to!(old(self).expressions@ => old(self).expressions@[i as int]));
            }
            let ghost mid_reports = ctx.reporter.reports@;
            t = self.expressions[i].finish_and_check_types(ctx);
            proof {
                lemma_prefix_trans(old(ctx).reporter.reports@, mid_reports, ctx.reporter.reports@);
            }
            i += 1;
        }
        t
    }

    /// The top-down infer pass over the block: enter the block's own scope,
    /// infer each expression in order, and leave the scope; the last
    /// expression's type is the block's. The scope stack comes back exactly
    /// as it was; nothing is reported exactly when the quiet mirror accepts
    /// every expression of the block.
    pub fn infer_types(&mut self, ctx: &mut TypeInference) -> (t: Type)
        requires
            old(ctx).wf(),
        ensures
            final(ctx).wf(),
            final(ctx).scopes@ == old(ctx).scopes@,
            final(ctx).return_type == old(ctx).return_type,
            old(ctx).variables@.is_prefix_of(final(ctx).variables@),
            old(ctx).reporter.reports@.is_prefix_of(final(ctx).reporter.reports@),
            final(ctx).abort_compilation == (old(ctx).abort_compilation
                || final(ctx).reporter.reports@.len() > old(ctx).reporter.reports@.len()),
            final(ctx).next_type_variable == old(ctx).next_type_variable,
            final(self).expressions@.len() == old(self).expressions@.len(),
            final(self).span == old(self).span,
            final(ctx).reporter.reports@.len() == old(ctx).reporter.reports@.len() ==> type_eq(
                t,
                block_type(*old(self)),
            ),
            block_infer_quiet(*old(self), expected_of(*old(ctx))) ==> final(ctx).reporter == old(
                ctx,
            ).reporter && (forall|x: Type|
                #[trigger] spec_equate_ok(block_type(*old(self)), x) ==> block_equate_ok(
                    *final(self),
                    x,
                )) && (forall|x: Type|
                (#[trigger] block_equate_ok(*final(self), x)) ==> block_equate_ok(
                    *old(self),
                    x,
                )),
            !block_infer_quiet(*old(self), expected_of(*old(ctx)))
                ==> final(ctx).reporter.reports@.len() > old(ctx).reporter.reports@.len(),
            block_narrowed(*old(self), *final(self)),
            block_settled(*old(self)) && (expected_of(*old(ctx)) matches Some(tv)
                ==> type_settled(tv)) ==> block_settled(*final(self)) && type_settled(t),
            block_wf(*old(self)) && (expected_of(*old(ctx)) matches Some(tv) ==> type_wf(tv))
                ==> block_wf(*final(self)) && type_wf(t),
        decreases *old(self),
    {
        ctx.push_scope();
        let mut t = Type::unit();
        let mut i: usize = 0;
        proof {
            lemma_prefix_refl(old(ctx).reporter.reports@);
            lemma_prefix_refl(old(ctx).variables@);
        }
        while i < self.expressions.len()
            invariant
                i <= self.expressions@.len(),
                self.expressions@.len() == old(self).expressions@.len(),
                self.span == old(self).span,
                forall|j: int|
                    i <= j < self.expressions@.len() ==> self.expressions@[j] == old(
                        self,
                    ).expressions@[j],
                ctx.reporter.reports@.len() == old(ctx).reporter.reports@.len() ==> (i > 0
                    ==> type_eq(t, expr_type(old(self).expressions@[i - 1]))),
                i == 0 ==> t == Type::Unit,
                block_infer_quiet(*old(self), expected_of(*old(ctx))) ==> ctx.reporter == old(
                    ctx,
                ).reporter && (i > 0 ==> (forall|x: Type|
                    #[trigger] spec_equate_ok(expr_type(old(self).expressions@[i - 1]), x)
                        ==> expr_equate_ok(self.expressions@[i - 1], x)) && (forall|x: Type|
                    (#[trigger] expr_equate_ok(self.expressions@[i - 1], x))
                        ==> expr_equate_ok(old(self).expressions@[i - 1], x))),
                (exists|j: int|
                    0 <= j < i && !infer_quiet(
                        #[trigger] old(self).expressions@[j],
                        expected_of(*old(ctx)),
                    )) ==> ctx.reporter.reports@.len() > old(ctx).reporter.reports@.len(),
                forall|j: int|
                    0 <= j < i ==> expr_narrowed(
                        old(self).expressions@[j],
                        #[trigger] self.expressions@[j],
                    ),
                block_settled(*old(self)) && (expected_of(*old(ctx)) matches Some(tv)
                    ==> type_settled(tv)) ==> (forall|j: int|
                    0 <= j < i ==> expr_settled(#[trigger] self.expressions@[j]))
                    && type_settled(t),
                block_wf(*old(self)) && (expected_of(*old(ctx)) matches Some(tv) ==> type_wf(
                    tv,
                )) ==> (forall|j: int| 0 <= j < i ==> expr_wf(#[trigger] self.expressions@[j]))
                    && type_wf(t),
                ctx.wf(),
                ctx.scopes@.len() == old(ctx).scopes@.len() + 1,
                forall|k: int|
                    0 <= k < old(ctx).scopes@.len() ==> ctx.scopes@[k] == old(ctx).scopes@[k],
                ctx.return_type == old(ctx).return_type,
                old(ctx).variables@.is_prefix_of(ctx.variables@),
                old(ctx).reporter.reports@.is_prefix_of(ctx.reporter.reports@),
                ctx.abort_compilation == (old(ctx).abort_compilation
                    || ctx.reporter.reports@.len() > old(ctx).reporter.reports@.len()),
                ctx.next_type_variable == old(ctx).next_type_variable,
            decreases self.expressions@.len() - i,
        {
            proof {
                assert(decreases_to!(*old(self) => old(self).expressions));
                assert(decreases_to!(old(self).expressions => old(self).expressions@));
                assert(decreases_to!(old(self).expressions@ => old(self).expressions@[i as int]));
            }
            let ghost mid_reports = ctx.reporter.reports@;
            let ghost mid_variables = ctx.variables@;
            let ghost exp0 = expected_of(*old(ctx));
            proof {
                if block_infer_quiet(*old(self), exp0) {
                    assert(expected_of(*ctx) == exp0);
                    assert(infer_quiet(old(self).expressions@[i as int], exp0));
                }
            }
            t = self.expressions[i].infer_types(ctx);
            proof {
                lemma_prefix_trans(old(ctx).reporter.reports@, mid_reports, ctx.reporter.reports@);
                lemma_prefix_trans(old(ctx).variables@, mid_variables, ctx.variables@);
            }
            i += 1;
        }
        ctx.pop_scope();
        proof {
            assert(ctx.scopes@ =~= old(ctx).scopes@);
            assert(block_narrowed(*old(self), *final(self)));
            if !block_infer_quiet(*old(self), expected_of(*old(ctx))) {
                let exp = expected_of(*old(ctx));
                assert(exists|j: int|
                    0 <= j < old(self).expressions@.len() && !infer_quiet(
                        #[trigger] old(self).expressions@[j],
                        exp,
                    ));
            }
            if block_infer_quiet(*old(self), expected_of(*old(ctx))) {
                assert forall|x: Type|
                    #[trigger] spec_equate_ok(block_type(*old(self)), x) implies block_equate_ok(
                    *final(self),
                    x,
                ) by {
                    if old(self).expressions@.len() > 0 {
                        let last = old(self).expressions@.len() - 1;
                        assert(block_type(*old(self)) == expr_type(old(self).expressions@[last]));
                        assert(expr_equate_ok(self.expressions@[last], x));
                        assert(final(self).expressions@.last() == self.expressions@[last]);
                    }
                }
                assert forall|x: Type|
                    (#[trigger] block_equate_ok(*final(self), x)) implies block_equate_ok(
                    *old(self),
                    x,
                ) by {
                    if old(self).expressions@.len() > 0 {
                        let last = old(self).expressions@.len() - 1;
                        assert(final(self).expressions@.last() == self.expressions@[last]);
                        assert(expr_equate_ok(self.expressions@[last], x));
                        assert(expr_equate_ok(old(self).expressions@[last], x));
                        assert(old(self).expressions@.last() == old(self).expressions@[last]);
                    }
                }
            }
        }
        t
    }
}

impl Clone for Constant {
    /// Cloning keeps the value and the span, and yields a structurally
    /// equal type slot.
    fn clone(&self) -> (res: Constant)
        ensures
            res.value == self.value,
            type_eq(res.ty, self.ty),
            res.span == self.span,
    {
        Constant { value: self.value, ty: self.ty.clone(), span: self.span.clone() }
    }
}

impl Clone for Expression {
    /// A deep copy: the clone is structurally equal to the original — same
    /// shape, values, names and spans, structurally equal type slots — so
    /// it denotes the same type, covers the same source, and is settled
    /// exactly when the original is. The copy shares nothing: later writes
    /// to one never reach the other.
    fn clone(&self) -> (res: Expression)
        ensures
            expr_eq(res, *self),
            type_eq(expr_type(res), expr_type(*self)),
            expr_settled(res) == expr_settled(*self),
            expr_span(res) == expr_span(*self),
        decreases *self,
    {
        match self {
            Expression::Constant(c) => Expression::Constant(c.clone()),
            Expression::BinaryOp(l, op, r) => {
                let left = Box::new((**l).clone());
                let right = Box::new((**r).clone());
                proof {
                    lemma_equate_congruent(
                        expr_type(*left),
                        expr_type(**l),
                        expr_type(*right),
                        expr_type(**r),
                    );
                }
                Expression::BinaryOp(left, *op, right)
            },
            Expression::Block(b) => Expression::Block(b.clone()),
            Expression::Return(inner, sp) => Expression::Return(
                Box::new((**inner).clone()),
                sp.clone(),
            ),
            Expression::VariableDeclaration { name, ty, variable, span } => {
                Expression::VariableDeclaration {
                    name: name.clone(),
                    ty: ty.clone(),
                    variable: *variable,
                    span: span.clone(),
                }
            },
            Expression::Error => Expression::Error,
        }
    }
}

impl Clone for Block {
    /// A deep copy: the clone is structurally equal to the original,
    /// expression by expression, and shares nothing with it.
    fn clone(&self) -> (res: Block)
        ensures
            block_eq(res, *self),
            res.expressions@.len() == self.expressions@.len(),
            forall|i: int|
                0 <= i < self.expressions@.len() ==> type_eq(
                    expr_type(#[trigger] res.expressions@[i]),
                    expr_type(self.expressions@[i]),
                ) && expr_settled(res.expressions@[i]) == expr_settled(self.expressions@[i]),
            res.span == self.span,
            type_eq(block_type(res), block_type(*self)),
            block_settled(res) == block_settled(*self),
        decreases *self,
    {
        let mut expressions: Vec<Expression> = Vec::new();
        let mut i: usize = 0;
        while i < self.expressions.len()
            invariant
                i <= self.expressions@.len(),
                expressions@.len() == i,
                forall|j: int|
                    0 <= j < i ==> expr_eq(#[trigger] expressions@[j], self.expressions@[j])
                        && type_eq(expr_type(expressions@[j]), expr_type(self.expressions@[j]))
                        && expr_settled(expressions@[j]) == expr_settled(self.expressions@[j]),
            decreases self.expressions@.len() - i,
        {
            proof {
                assert(decreases_to!(*self => self.expressions));
                assert(decreases_to!(self.expressions => self.expressions@));
                assert(decreases_to!(self.expressions@ => self.expressions@[i as int]));
            }
            expressions.push(self.expressions[i].clone());
            i += 1;
        }
        let res = Block { expressions, span: self.span.clone() };
        proof {
            if res.expressions@.len() > 0 {
                assert(res.expressions@.last() == res.expressions@[res.expressions@.len() - 1]);
            } else {
                lemma_type_eq_refl(Type::Unit);
            }
            assert(block_settled(res) == block_settled(*self)) by {
                if block_settled(res) {
                    assert forall|i: int|
                        0 <= i < self.expressions@.len() implies expr_settled(
                        #[trigger] self.expressions@[i],
                    ) by {
                        assert(expr_settled(res.expressions@[i]));
                    }
                }
                if block_settled(*self) {
                    assert forall|i: int|
                        0 <= i < res.expressions@.len() implies expr_settled(
                        #[trigger] res.expressions@[i],
                    ) by {
                        assert(expr_settled(self.expressions@[i]));
                    }
                }
            }
        }
        res
    }
}

} // verus!
