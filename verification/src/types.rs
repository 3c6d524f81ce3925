use crate::span::Span;
use vstd::prelude::*;
use vstd::string::StringExecFns;

verus! {

/// A type: every builtin shape the IR knows, the placeholders that type
/// inference resolves, and a poison value for suppressing cascading
/// diagnostics. Types are plain values compared structurally; they have no
/// identity. Integer, unsigned and float widths are in bytes and are never
/// zero (see [`type_wf`]).
#[derive(Debug)]
pub enum Type {
    /// Signed integer of the given width in bytes (i32 is `Int(4)`)
    Int(u16),
    /// Unsigned integer of the given width in bytes (u8 is `Unsigned(1)`)
    Unsigned(u16),
    /// Floating point number of the given width in bytes
    Float(u16),
    /// Boolean
    Bool,
    /// Character
    Char,
    /// Pointer to a type
    Pointer(Box<Type>),
    /// Function pointer: ordered parameter types and the return type
    FunctionPointer(Vec<Type>, Box<Type>),
    /// Custom (nominal) type, named by the span that wrote it
    Custom(Span),
    /// Never type: holds no value, morphs into anything
    Never,
    /// Unit type: holds exactly one value
    Unit,
    /// Wildcard: a slot no constraint has reached yet
    Wildcard,
    /// Integer wildcard: a numeric literal awaiting a concrete integer type
    IntegerWildcard,
    /// Type variable: an inference-time placeholder named by an identifier
    TypeVariable(u64),
    /// Error type: poison that suppresses cascading diagnostics
    Error,
}

/// Structural equality of two types. Spans of custom types compare by the
/// text they cover; widths and type-variable identifiers compare as numbers.
pub open spec fn type_eq(a: Type, b: Type) -> bool
    decreases a,
{
    match (a, b) {
        (Type::Int(s1), Type::Int(s2)) => s1 == s2,
        (Type::Unsigned(s1), Type::Unsigned(s2)) => s1 == s2,
        (Type::Float(s1), Type::Float(s2)) => s1 == s2,
        (Type::Bool, Type::Bool) => true,
        (Type::Char, Type::Char) => true,
        (Type::Pointer(t1), Type::Pointer(t2)) => type_eq(*t1, *t2),
        (Type::FunctionPointer(p1, r1), Type::FunctionPointer(p2, r2)) => {
            &&& p1@.len() == p2@.len()
            &&& forall|i: int|
                0 <= i < p1@.len() ==> type_eq(#[trigger] p1@[i], p2@[i])
            &&& type_eq(*r1, *r2)
        },
        (Type::Custom(s1), Type::Custom(s2)) => s1@ == s2@,
        (Type::Never, Type::Never) => true,
        (Type::Unit, Type::Unit) => true,
        (Type::Wildcard, Type::Wildcard) => true,
        (Type::IntegerWildcard, Type::IntegerWildcard) => true,
        (Type::TypeVariable(v1), Type::TypeVariable(v2)) => v1 == v2,
        (Type::Error, Type::Error) => true,
        _ => false,
    }
}

/// Structural equality is reflexive.
pub proof fn lemma_type_eq_refl(t: Type)
    ensures
        type_eq(t, t),
    decreases t,
{
    match t {
        Type::Pointer(inner) => lemma_type_eq_refl(*inner),
        Type::FunctionPointer(params, ret) => {
            assert forall|i: int| 0 <= i < params@.len() implies type_eq(
                #[trigger] params@[i],
                params@[i],
            ) by {
                lemma_type_eq_refl(params@[i]);
            }
            lemma_type_eq_refl(*ret);
        },
        _ => {},
    }
}

/// Structural equality is symmetric.
pub proof fn lemma_type_eq_sym(a: Type, b: Type)
    requires
        type_eq(a, b),
    ensures
        type_eq(b, a),
    decreases a,
{
    match (a, b) {
        (Type::Pointer(t1), Type::Pointer(t2)) => lemma_type_eq_sym(*t1, *t2),
        (Type::FunctionPointer(p1, r1), Type::FunctionPointer(p2, r2)) => {
            assert forall|i: int| 0 <= i < p2@.len() implies type_eq(
                #[trigger] p2@[i],
                p1@[i],
            ) by {
                lemma_type_eq_sym(p1@[i], p2@[i]);
            }
            lemma_type_eq_sym(*r1, *r2);
        },
        _ => {},
    }
}

/// Structural equality is transitive.
pub proof fn lemma_type_eq_trans(a: Type, b: Type, c: Type)
    requires
        type_eq(a, b),
        type_eq(b, c),
    ensures
        type_eq(a, c),
    decreases a,
{
    match (a, c) {
        (Type::Pointer(t1), Type::Pointer(t3)) => {
            lemma_type_eq_trans(*t1, *b->Pointer_0, *t3);
        },
        (Type::FunctionPointer(p1, r1), Type::FunctionPointer(p3, r3)) => {
            let p2 = b->FunctionPointer_0;
            let r2 = *b->FunctionPointer_1;
            assert forall|i: int| 0 <= i < p1@.len() implies type_eq(
                #[trigger] p1@[i],
                p3@[i],
            ) by {
                lemma_type_eq_trans(p1@[i], p2@[i], p3@[i]);
            }
            lemma_type_eq_trans(*r1, r2, *r3);
        },
        _ => {},
    }
}

/// Equating respects structural equality on both sides: structurally equal
/// inputs give the same verdict and structurally equal results.
pub proof fn lemma_equate_congruent(a: Type, a2: Type, b: Type, b2: Type)
    requires
        type_eq(a, a2),
        type_eq(b, b2),
    ensures
        spec_equate_ok(a, b) == spec_equate_ok(a2, b2),
        type_eq(spec_equate_result(a, b), spec_equate_result(a2, b2)),
{
    lemma_type_eq_sym(a, a2);
    lemma_type_eq_sym(b, b2);
    if type_eq(a, b) {
        lemma_type_eq_sym(a, b);
        lemma_type_eq_trans(b, a, a2);
        lemma_type_eq_sym(b, a2);
        lemma_type_eq_trans(a2, b, b2);
    }
    if type_eq(a2, b2) {
        lemma_type_eq_sym(a2, b2);
        lemma_type_eq_trans(b2, a2, a);
        lemma_type_eq_sym(b2, a);
        lemma_type_eq_trans(a, b2, b);
    }
}

/// Morphing respects structural equality of its left side.
pub proof fn lemma_morphs_congruent(a: Type, a2: Type, b: Type)
    requires
        type_eq(a, a2),
    ensures
        spec_morphs(a, b) == spec_morphs(a2, b),
{
    lemma_type_eq_sym(a, a2);
    if type_eq(a, b) {
        lemma_type_eq_trans(a2, a, b);
    }
    if type_eq(a2, b) {
        lemma_type_eq_trans(a, a2, b);
    }
}

/// The morphing relation of [`Type::morphs`], as a predicate: never morphs
/// into anything; anything morphs into never, wildcard or error; error morphs
/// into anything; an integer wildcard morphs into (and accepts morphing from)
/// any signed or unsigned integer type; everything else requires structural
/// equality.
pub open spec fn spec_morphs(a: Type, b: Type) -> bool {
    ||| a is Never
    ||| b is Never
    ||| b is Wildcard
    ||| b is Error
    ||| a is Error
    ||| (a is IntegerWildcard && (b is Int || b is Unsigned))
    ||| ((a is Int || a is Unsigned) && b is IntegerWildcard)
    ||| type_eq(a, b)
}

/// Whether [`Type::equate`] succeeds, as a predicate over its two sides.
pub open spec fn spec_equate_ok(a: Type, b: Type) -> bool {
    ||| type_eq(a, b)
    ||| a is Never
    ||| a is Wildcard
    ||| a is Error
    ||| b is Never
    ||| b is Wildcard
    ||| b is Error
    ||| (a is IntegerWildcard && (b is Int || b is Unsigned))
    ||| ((a is Int || a is Unsigned) && b is IntegerWildcard)
}

/// The left side after [`Type::equate`], per its precedence table: equal
/// sides stay untouched; never, wildcard and error on the left are
/// overwritten; never, wildcard and error on the right are accepted without
/// mutation; an integer wildcard is replaced by a concrete integer type; a
/// concrete integer type accepts an integer wildcard without mutation; a
/// failed equate leaves the left side as it was.
pub open spec fn spec_equate_result(a: Type, b: Type) -> Type {
    if type_eq(a, b) {
        a
    } else if a is Never || a is Wildcard || a is Error {
        b
    } else if b is Never || b is Wildcard || b is Error {
        a
    } else if a is IntegerWildcard && (b is Int || b is Unsigned) {
        b
    } else {
        a
    }
}

/// A type is complete when inference has nothing left to resolve in it:
/// exactly the wildcard, the integer wildcard and the error type are
/// incomplete. Type variables count as complete.
pub open spec fn spec_complete(t: Type) -> bool {
    !(t is Wildcard || t is IntegerWildcard || t is Error)
}

/// Well-formedness: every integer, unsigned and float width in the type is
/// non-zero.
pub open spec fn type_wf(t: Type) -> bool
    decreases t,
{
    match t {
        Type::Int(s) => s > 0,
        Type::Unsigned(s) => s > 0,
        Type::Float(s) => s > 0,
        Type::Pointer(inner) => type_wf(*inner),
        Type::FunctionPointer(params, ret) => {
            &&& forall|i: int| 0 <= i < params@.len() ==> type_wf(#[trigger] params@[i])
            &&& type_wf(*ret)
        },
        _ => true,
    }
}

/// The character for one decimal digit.
pub open spec fn digit_char(d: nat) -> char {
    if d == 0 {
        '0'
    } else if d == 1 {
        '1'
    } else if d == 2 {
        '2'
    } else if d == 3 {
        '3'
    } else if d == 4 {
        '4'
    } else if d == 5 {
        '5'
    } else if d == 6 {
        '6'
    } else if d == 7 {
        '7'
    } else if d == 8 {
        '8'
    } else {
        '9'
    }
}

/// The decimal digits of a number, most significant first.
pub open spec fn dec_digits(n: nat) -> Seq<char>
    decreases n,
{
    if n < 10 {
        seq![digit_char(n)]
    } else {
        dec_digits(n / 10).push(digit_char(n % 10))
    }
}

/// How source writes a type: `i32`, `u16`, `f64`, `char*`,
/// `fn(bool, char) -> ()`, the declared name of a custom type, `!`, `()`,
/// `_` for a wildcard, `integer` for an integer wildcard, `$` and the
/// identifier for a type variable, and `<ERROR>` for the poison type.
/// Widths are stored in bytes and written in bits.
pub open spec fn type_text(t: Type) -> Seq<char>
    decreases t,
{
    match t {
        Type::Int(s) => seq!['i'] + dec_digits(8 * s as nat),
        Type::Unsigned(s) => seq!['u'] + dec_digits(8 * s as nat),
        Type::Float(s) => seq!['f'] + dec_digits(8 * s as nat),
        Type::Bool => "bool"@,
        Type::Char => "char"@,
        Type::Pointer(inner) => type_text(*inner) + "*"@,
        Type::FunctionPointer(params, ret) => "fn("@ + params_text(params@) + ") -> "@
            + type_text(*ret),
        Type::Custom(span) => span@,
        Type::Never => "!"@,
        Type::Unit => "()"@,
        Type::Wildcard => "_"@,
        Type::IntegerWildcard => "integer"@,
        Type::TypeVariable(id) => seq!['$'] + dec_digits(id as nat),
        Type::Error => "<ERROR>"@,
    }
}

/// How source writes a parameter list: the types in order, separated by a
/// comma and a space.
pub open spec fn params_text(params: Seq<Type>) -> Seq<char>
    decreases params,
{
    if params.len() == 0 {
        Seq::empty()
    } else if params.len() == 1 {
        type_text(params[0])
    } else {
        params_text(params.drop_last()) + ", "@ + type_text(params.last())
    }
}

/// Write one decimal digit.
fn push_digit(d: u64, out: &mut String)
    requires
        d < 10,
    ensures
        final(out)@ == old(out)@ + seq![digit_char(d as nat)],
{
    proof {
        reveal_strlit("0");
        reveal_strlit("1");
        reveal_strlit("2");
        reveal_strlit("3");
        reveal_strlit("4");
        reveal_strlit("5");
        reveal_strlit("6");
        reveal_strlit("7");
        reveal_strlit("8");
        reveal_strlit("9");
    }
    match d {
        0 => out.append("0"),
        1 => out.append("1"),
        2 => out.append("2"),
        3 => out.append("3"),
        4 => out.append("4"),
        5 => out.append("5"),
        6 => out.append("6"),
        7 => out.append("7"),
        8 => out.append("8"),
        _ => out.append("9"),
    }
    proof {
        assert(final(out)@ =~= old(out)@ + seq![digit_char(d as nat)]);
    }
}

/// Write a number in decimal.
fn push_dec(n: u64, out: &mut String)
    ensures
        final(out)@ == old(out)@ + dec_digits(n as nat),
    decreases n,
{
    if n < 10 {
        push_digit(n, out);
    } else {
        push_dec(n / 10, out);
        push_digit(n % 10, out);
        proof {
            assert(final(out)@ =~= old(out)@ + dec_digits(n as nat));
        }
    }
}

impl Clone for Type {
    /// Cloning a type yields a structurally equal, equally well-formed type.
    fn clone(&self) -> (res: Type)
        ensures
            type_eq(res, *self),
            type_wf(res) == type_wf(*self),
        decreases *self,
    {
        let res = match self {
            Type::Int(s) => Type::Int(*s),
            Type::Unsigned(s) => Type::Unsigned(*s),
            Type::Float(s) => Type::Float(*s),
            Type::Bool => Type::Bool,
            Type::Char => Type::Char,
            Type::Pointer(inner) => Type::Pointer(Box::new((**inner).clone())),
            Type::FunctionPointer(params, ret) => {
                let mut cloned_params: Vec<Type> = Vec::new();
                let mut i: usize = 0;
                while i < params.len()
                    invariant
                        0 <= i <= params@.len(),
                        cloned_params@.len() == i,
                        self == Type::FunctionPointer(*params, *ret),
                        forall|j: int|
                            0 <= j < i ==> type_eq(#[trigger] cloned_params@[j], params@[j]),
                    decreases params@.len() - i,
                {
                    proof {
                        assert(decreases_to!(*self => self->FunctionPointer_0));
                        assert(self->FunctionPointer_0 == *params);
                        assert(decreases_to!(*params => params@));
                        assert(decreases_to!(params@ => params@[i as int]));
                    }
                    cloned_params.push(params[i].clone());
                    i += 1;
                }
                Type::FunctionPointer(cloned_params, Box::new((**ret).clone()))
            },
            Type::Custom(span) => Type::Custom(span.clone()),
            Type::Never => Type::Never,
            Type::Unit => Type::Unit,
            Type::Wildcard => Type::Wildcard,
            Type::IntegerWildcard => Type::IntegerWildcard,
            Type::TypeVariable(v) => Type::TypeVariable(*v),
            Type::Error => Type::Error,
        };
        proof {
            assert(type_eq(res, *self));
            lemma_type_eq_wf(res, *self);
        }
        res
    }
}

impl Type {
    /// Create a new unit type
    pub fn unit() -> (t: Type)
        ensures
            t == Type::Unit,
    {
        Type::Unit
    }

    /// Structural equality with another type
    pub fn same(&self, other: &Type) -> (r: bool)
        ensures
            r == type_eq(*self, *other),
        decreases *self,
    {
        match (self, other) {
            (Type::Int(s1), Type::Int(s2)) => s1 == s2,
            (Type::Unsigned(s1), Type::Unsigned(s2)) => s1 == s2,
            (Type::Float(s1), Type::Float(s2)) => s1 == s2,
            (Type::Bool, Type::Bool) => true,
            (Type::Char, Type::Char) => true,
            (Type::Pointer(t1), Type::Pointer(t2)) => t1.same(t2),
            (Type::FunctionPointer(p1, r1), Type::FunctionPointer(p2, r2)) => {
                if p1.len() != p2.len() {
                    return false;
                }
                let mut i: usize = 0;
                while i < p1.len()
                    invariant
                        0 <= i <= p1@.len(),
                        p1@.len() == p2@.len(),
                        self == Type::FunctionPointer(*p1, *r1),
                        other == Type::FunctionPointer(*p2, *r2),
                        forall|j: int| 0 <= j < i ==> type_eq(#[trigger] p1@[j], p2@[j]),
                    decreases p1@.len() - i,
                {
                    proof {
                        assert(decreases_to!(*self => self->FunctionPointer_0));
                        assert(self->FunctionPointer_0 == *p1);
                        assert(decreases_to!(*p1 => p1@));
                        assert(decreases_to!(p1@ => p1@[i as int]));
                    }
                    if !p1[i].same(&p2[i]) {
                        return false;
                    }
                    i += 1;
                }
                r1.same(r2)
            },
            (Type::Custom(s1), Type::Custom(s2)) => s1.same(s2),
            (Type::Never, Type::Never) => true,
            (Type::Unit, Type::Unit) => true,
            (Type::Wildcard, Type::Wildcard) => true,
            (Type::IntegerWildcard, Type::IntegerWildcard) => true,
            (Type::TypeVariable(v1), Type::TypeVariable(v2)) => v1 == v2,
            (Type::Error, Type::Error) => true,
            _ => false,
        }
    }

    /// Does this type morph into the target type? One-directional,
    /// non-mutating compatibility: used to validate a computed type against a
    /// contextually expected one.
    pub fn morphs(&self, target_type: &Type) -> (r: bool)
        ensures
            r == spec_morphs(*self, *target_type),
    {
        match (self, target_type) {
            (Type::Never, _) => true,
            (Type::Error, _) => true,
            (_, Type::Never) => true,
            (_, Type::Wildcard) => true,
            (_, Type::Error) => true,
            (Type::IntegerWildcard, Type::Int(_)) => true,
            (Type::IntegerWildcard, Type::Unsigned(_)) => true,
            (Type::Int(_), Type::IntegerWildcard) => true,
            (Type::Unsigned(_), Type::IntegerWildcard) => true,
            _ => self.same(target_type),
        }
    }

    /// Is this type complete (nothing left to infer)? Type variables are
    /// considered complete.
    pub fn complete(&self) -> (r: bool)
        ensures
            r == spec_complete(*self),
    {
        !(matches!(self, Type::Wildcard | Type::IntegerWildcard | Type::Error))
    }

    /// Complete this type to be equal to the other type: mutating
    /// unification. Returns whether the two sides were compatible; on failure
    /// nothing is mutated and the caller reports a type mismatch.
    pub fn equate(&mut self, other: Type) -> (r: bool)
        ensures
            r == spec_equate_ok(*old(self), other),
            *final(self) == spec_equate_result(*old(self), other),
            type_wf(*old(self)) && type_wf(other) ==> type_wf(*final(self)),
    {
        if self.same(&other) {
            return true;
        }
        match (&*self, &other) {
            (Type::Never, _) | (Type::Wildcard, _) | (Type::Error, _) => {
                *self = other;
                true
            },
            (_, Type::Never) | (_, Type::Wildcard) | (_, Type::Error) => true,
            (Type::IntegerWildcard, Type::Int(_)) | (Type::IntegerWildcard, Type::Unsigned(_)) => {
                *self = other;
                true
            },
            (Type::Int(_), Type::IntegerWildcard) | (Type::Unsigned(_), Type::IntegerWildcard) => true,
            _ => false,
        }
    }

/// Append this type's source rendering to `out`.
    fn write_text(&self, out: &mut String)
        ensures
            final(out)@ == old(out)@ + type_text(*self),
        decreases *self,
    {
        match self {
            Type::Int(s) => {
                proof {
                    reveal_strlit("i");
                }
                out.append("i");
                push_dec(8 * (*s as u64), out);
                proof {
                    assert(final(out)@ =~= old(out)@ + type_text(*self));
                }
            },
            Type::Unsigned(s) => {
                proof {
                    reveal_strlit("u");
                }
                out.append("u");
                push_dec(8 * (*s as u64), out);
                proof {
                    assert(final(out)@ =~= old(out)@ + type_text(*self));
                }
            },
            Type::Float(s) => {
                proof {
                    reveal_strlit("f");
                }
                out.append("f");
                push_dec(8 * (*s as u64), out);
                proof {
                    assert(final(out)@ =~= old(out)@ + type_text(*self));
                }
            },
            Type::Bool => out.append("bool"),
            Type::Char => out.append("char"),
            Type::Pointer(inner) => {
                inner.write_text(out);
                out.append("*");
                proof {
                    assert(final(out)@ =~= old(out)@ + type_text(*self));
                }
            },
            Type::FunctionPointer(params, ret) => {
                out.append("fn(");
                let ghost base = out@;
                let mut i: usize = 0;
                proof {
                    assert(params@.subrange(0, 0) =~= Seq::<Type>::empty());
                }
                while i < params.len()
                    invariant
                        i <= params@.len(),
                        self == Type::FunctionPointer(*params, *ret),
                        out@ == base + params_text(params@.subrange(0, i as int)),
                    decreases params@.len() - i,
                {
                    proof {
                        assert(decreases_to!(*self => self->FunctionPointer_0));
                        assert(self->FunctionPointer_0 == *params);
                        assert(decreases_to!(*params => params@));
                        assert(decreases_to!(params@ => params@[i as int]));
                    }
                    if i > 0 {
                        out.append(", ");
                    }
                    params[i].write_text(out);
                    proof {
                        let upto = params@.subrange(0, i as int + 1);
                        assert(upto.last() == params@[i as int]);
                        assert(upto.drop_last() =~= params@.subrange(0, i as int));
                        if i == 0 {
                            assert(out@ =~= base + params_text(upto));
                        } else {
                            assert(out@ =~= base + params_text(upto));
                        }
                    }
                    i += 1;
                }
                out.append(") -> ");
                ret.write_text(out);
                proof {
                    assert(params@.subrange(0, params@.len() as int) =~= params@);
                    assert(final(out)@ =~= old(out)@ + type_text(*self));
                }
            },
            Type::Custom(span) => out.append(span.text.as_str()),
            Type::Never => out.append("!"),
            Type::Unit => out.append("()"),
            Type::Wildcard => out.append("_"),
            Type::IntegerWildcard => out.append("integer"),
            Type::TypeVariable(id) => {
                proof {
                    reveal_strlit("$");
                }
                out.append("$");
                push_dec(*id, out);
                proof {
                    assert(final(out)@ =~= old(out)@ + type_text(*self));
                }
            },
            Type::Error => out.append("<ERROR>"),
        }
    }

    /// The type as source writes it: exactly [`type_text`].
    pub fn display_name(&self) -> (r: String)
        ensures
            r@ == type_text(*self),
    {
        let mut out = String::new();
        self.write_text(&mut out);
        proof {
            assert(out@ =~= type_text(*self));
        }
        out
    }
}

/// Absorption: never morphs into anything, anything morphs into never,
/// wildcard and error, and error morphs into anything.
pub proof fn lemma_morphs_absorption(a: Type, b: Type)
    ensures
        spec_morphs(Type::Never, b),
        spec_morphs(a, Type::Never),
        spec_morphs(a, Type::Wildcard),
        spec_morphs(a, Type::Error),
        spec_morphs(Type::Error, b),
{
}

/// Equating is idempotent: a second equate against the same right side
/// returns the same verdict and mutates nothing further.
pub proof fn lemma_equate_idempotent(a: Type, b: Type)
    ensures
        spec_equate_ok(spec_equate_result(a, b), b) == spec_equate_ok(a, b),
        spec_equate_result(spec_equate_result(a, b), b) == spec_equate_result(a, b),
{
    lemma_type_eq_refl(a);
    lemma_type_eq_refl(b);
}

/// An integer wildcard unifies with exactly the signed and unsigned integer
/// family: equating it with an integer type replaces it, while a float,
/// bool, char, pointer, function pointer, custom, unit or type-variable
/// right side fails and mutates nothing.
pub proof fn lemma_integer_wildcard_unifies(b: Type)
    ensures
        (b is Int || b is Unsigned) ==> spec_equate_ok(Type::IntegerWildcard, b)
            && spec_equate_result(Type::IntegerWildcard, b) == b,
        (b is Float || b is Bool || b is Char || b is Pointer || b is FunctionPointer
            || b is Custom || b is Unit || b is TypeVariable) ==> !spec_equate_ok(
            Type::IntegerWildcard,
            b,
        ) && spec_equate_result(Type::IntegerWildcard, b) == Type::IntegerWildcard,
        (b is Int || b is Unsigned) ==> spec_equate_ok(b, Type::IntegerWildcard)
            && spec_equate_result(b, Type::IntegerWildcard) == b,
{
}

/// Structurally equal types are well-formed together: equal widths are
/// zero together.
pub proof fn lemma_type_eq_wf(a: Type, b: Type)
    requires
        type_eq(a, b),
    ensures
        type_wf(a) == type_wf(b),
    decreases a,
{
    match (a, b) {
        (Type::Pointer(t1), Type::Pointer(t2)) => lemma_type_eq_wf(*t1, *t2),
        (Type::FunctionPointer(p1, r1), Type::FunctionPointer(p2, r2)) => {
            assert forall|i: int| 0 <= i < p1@.len() implies type_wf(#[trigger] p1@[i])
                == type_wf(p2@[i]) by {
                lemma_type_eq_wf(p1@[i], p2@[i]);
            }
            if type_wf(a) {
                assert forall|i: int| 0 <= i < p2@.len() implies type_wf(
                    #[trigger] p2@[i],
                ) by {
                    assert(type_wf(p1@[i]));
                }
            }
            if type_wf(b) {
                assert forall|i: int| 0 <= i < p1@.len() implies type_wf(
                    #[trigger] p1@[i],
                ) by {
                    assert(type_wf(p2@[i]));
                }
            }
            lemma_type_eq_wf(*r1, *r2);
        },
        _ => {},
    }
}

/// Equating preserves well-formedness: the result is one of the two sides,
/// so no zero width can appear that neither side had.
pub proof fn lemma_equate_preserves_wf(a: Type, b: Type)
    requires
        type_wf(a),
        type_wf(b),
    ensures
        type_wf(spec_equate_result(a, b)),
{
}

/// The unification of two types accepts whatever both sides accept: the
/// result of an equate is always one of the two sides.
pub proof fn lemma_equate_result_accepts(a: Type, b: Type, x: Type)
    ensures
        spec_equate_ok(a, x) && spec_equate_ok(b, x) ==> spec_equate_ok(
            spec_equate_result(a, b),
            x,
        ),
{
}

/// Whatever the unification of two compatible types accepts, each of the
/// two sides accepts as well.
pub proof fn lemma_equate_result_both(a: Type, b: Type, x: Type)
    requires
        spec_equate_ok(a, b),
        spec_equate_ok(spec_equate_result(a, b), x),
    ensures
        spec_equate_ok(a, x),
        spec_equate_ok(b, x),
{
    if type_eq(a, b) {
        lemma_type_eq_sym(a, b);
        lemma_type_eq_refl(x);
        lemma_equate_congruent(a, b, x, x);
        lemma_equate_congruent(b, a, x, x);
    }
}

/// What equating a slot in place can make of it: a structurally equal type;
/// anything, where the slot held a wildcard, the error type or the never
/// type (equating overwrites those with whatever arrives); one of the
/// integer family, where it held an integer wildcard. A concrete slot is
/// never rewritten into an unrelated type: a bool stays a bool, whatever
/// happens around it.
pub open spec fn type_narrowed(a: Type, b: Type) -> bool {
    ||| type_eq(a, b)
    ||| a is Wildcard
    ||| a is Error
    ||| a is Never
    ||| (a is IntegerWildcard && (b is Int || b is Unsigned))
}

/// What a whole inference run can make of a slot: narrow it as equating
/// does, or — where it was still unresolved — poison it to the error type
/// alongside a reported diagnostic.
pub open spec fn type_resolved(a: Type, b: Type) -> bool {
    ||| type_narrowed(a, b)
    ||| ((a is Wildcard || a is IntegerWildcard || a is TypeVariable) && b is Error)
}

/// A slot narrows to itself.
pub proof fn lemma_narrowed_refl(a: Type)
    ensures
        type_narrowed(a, a),
{
    lemma_type_eq_refl(a);
}

/// Narrowing composes: two narrowing steps are one.
pub proof fn lemma_narrowed_trans(a: Type, b: Type, c: Type)
    requires
        type_narrowed(a, b),
        type_narrowed(b, c),
    ensures
        type_narrowed(a, c),
{
    if type_eq(a, b) && type_eq(b, c) {
        lemma_type_eq_trans(a, b, c);
    }
}

/// A narrowing step followed by a resolving step is a resolving step.
pub proof fn lemma_resolved_compose(a: Type, b: Type, c: Type)
    requires
        type_narrowed(a, b),
        type_resolved(b, c),
    ensures
        type_resolved(a, c),
{
    if type_eq(a, b) && type_eq(b, c) {
        lemma_type_eq_trans(a, b, c);
    }
}

/// Equating narrows the left side: whatever the table leaves there is a
/// narrowing of what was there.
pub proof fn lemma_equate_narrows(a: Type, x: Type)
    ensures
        type_narrowed(a, spec_equate_result(a, x)),
{
    lemma_type_eq_refl(a);
}

/// Completeness is false exactly for the wildcard, the integer wildcard and
/// the error type; every other variant, type variables included, is
/// complete.
pub proof fn lemma_complete_characterization(t: Type)
    ensures
        spec_complete(t) <==> !(t is Wildcard || t is IntegerWildcard || t is Error),
        t is TypeVariable ==> spec_complete(t),
{
}

} // verus!
