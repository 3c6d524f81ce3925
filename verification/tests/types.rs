use orco::span::Span;
use orco::types::Type;

fn char_ptr_ptr() -> Type {
    Type::Pointer(Box::new(Type::Pointer(Box::new(Type::Char))))
}

#[test]
fn morphs_priority_table() {
    // never morphs into anything; anything morphs into never, wildcard, error
    assert!(Type::Never.morphs(&Type::Bool));
    assert!(Type::Never.morphs(&Type::Custom(Span::new("Custom"))));
    assert!(Type::Bool.morphs(&Type::Never));
    assert!(Type::Bool.morphs(&Type::Wildcard));
    assert!(Type::Bool.morphs(&Type::Error));
    // error morphs into anything
    assert!(Type::Error.morphs(&Type::Int(4)));
    // the integer wildcard morphs into, and accepts, the integer family
    assert!(Type::IntegerWildcard.morphs(&Type::Int(8)));
    assert!(Type::IntegerWildcard.morphs(&Type::Unsigned(2)));
    assert!(Type::Int(8).morphs(&Type::IntegerWildcard));
    assert!(Type::Unsigned(1).morphs(&Type::IntegerWildcard));
    assert!(!Type::IntegerWildcard.morphs(&Type::Float(4)));
    assert!(!Type::IntegerWildcard.morphs(&Type::Bool));
    // otherwise, structural equality
    assert!(Type::Int(4).morphs(&Type::Int(4)));
    assert!(!Type::Int(4).morphs(&Type::Unsigned(4)));
    assert!(!Type::Int(4).morphs(&Type::Int(8)));
    assert!(char_ptr_ptr().morphs(&char_ptr_ptr()));
    assert!(!char_ptr_ptr().morphs(&Type::Pointer(Box::new(Type::Char))));
    assert!(Type::Custom(Span::new("Custom")).morphs(&Type::Custom(Span::new("Custom"))));
    assert!(!Type::Custom(Span::new("Custom")).morphs(&Type::Custom(Span::new("Other"))));
    assert!(Type::unit().morphs(&Type::Unit));
    assert!(Type::FunctionPointer(vec![Type::Bool], Box::new(Type::Unit))
        .morphs(&Type::FunctionPointer(vec![Type::Bool], Box::new(Type::Unit))));
    assert!(!Type::FunctionPointer(vec![Type::Bool], Box::new(Type::Unit))
        .morphs(&Type::FunctionPointer(vec![Type::Char], Box::new(Type::Unit))));
}

#[test]
fn equate_idempotent_once_equal() {
    let mut t = Type::IntegerWildcard;
    assert!(t.equate(Type::Int(4)));
    assert!(t.same(&Type::Int(4)));
    // both sides equal now: a second equate returns the same verdict and
    // mutates nothing further
    assert!(t.equate(Type::Int(4)));
    assert!(t.same(&Type::Int(4)));

    let mut failed = Type::Bool;
    assert!(!failed.equate(Type::Char));
    assert!(failed.same(&Type::Bool));
    assert!(!failed.equate(Type::Char));
    assert!(failed.same(&Type::Bool));
}

#[test]
fn equate_precedence() {
    // never, wildcard and error on the left are overwritten
    let mut t = Type::Wildcard;
    assert!(t.equate(Type::Bool));
    assert!(t.same(&Type::Bool));
    let mut t = Type::Never;
    assert!(t.equate(Type::Int(4)));
    assert!(t.same(&Type::Int(4)));
    let mut t = Type::Error;
    assert!(t.equate(Type::Char));
    assert!(t.same(&Type::Char));
    // never, wildcard and error on the right are accepted without mutation
    let mut t = Type::Bool;
    assert!(t.equate(Type::Never));
    assert!(t.same(&Type::Bool));
    assert!(t.equate(Type::Wildcard));
    assert!(t.same(&Type::Bool));
    assert!(t.equate(Type::Error));
    assert!(t.same(&Type::Bool));
}

#[test]
fn integer_wildcard_unifies_only_with_integers() {
    // replaced by a concrete integer or unsigned type
    let mut t = Type::IntegerWildcard;
    assert!(t.equate(Type::Int(2)));
    assert!(t.same(&Type::Int(2)));
    let mut t = Type::IntegerWildcard;
    assert!(t.equate(Type::Unsigned(8)));
    assert!(t.same(&Type::Unsigned(8)));
    // a concrete integer accepts an integer wildcard without mutation
    let mut t = Type::Int(4);
    assert!(t.equate(Type::IntegerWildcard));
    assert!(t.same(&Type::Int(4)));
    // never with float, bool, char, pointer, function pointer, custom,
    // unit, or a type variable
    let rejected = vec![
        Type::Float(4),
        Type::Bool,
        Type::Char,
        Type::Pointer(Box::new(Type::Char)),
        Type::FunctionPointer(vec![], Box::new(Type::Unit)),
        Type::Custom(Span::new("Custom")),
        Type::Unit,
        Type::TypeVariable(0),
    ];
    for other in rejected {
        let mut t = Type::IntegerWildcard;
        assert!(!t.equate(other));
        assert!(t.same(&Type::IntegerWildcard));
    }
}

#[test]
fn complete_characterization() {
    assert!(!Type::Wildcard.complete());
    assert!(!Type::IntegerWildcard.complete());
    assert!(!Type::Error.complete());
    assert!(Type::Int(4).complete());
    assert!(Type::Unsigned(1).complete());
    assert!(Type::Float(8).complete());
    assert!(Type::Bool.complete());
    assert!(Type::Char.complete());
    assert!(Type::Pointer(Box::new(Type::Wildcard)).complete());
    assert!(Type::FunctionPointer(vec![], Box::new(Type::Unit)).complete());
    assert!(Type::Custom(Span::new("Custom")).complete());
    assert!(Type::Never.complete());
    assert!(Type::Unit.complete());
    assert!(Type::TypeVariable(3).complete());
}

#[test]
fn display_names() {
    assert_eq!(Type::Int(4).display_name(), "i32");
    assert_eq!(Type::Int(16).display_name(), "i128");
    assert_eq!(Type::Unsigned(2).display_name(), "u16");
    assert_eq!(Type::Float(8).display_name(), "f64");
    assert_eq!(Type::Bool.display_name(), "bool");
    assert_eq!(Type::Char.display_name(), "char");
    assert_eq!(Type::Pointer(Box::new(Type::Char)).display_name(), "char*");
    assert_eq!(char_ptr_ptr().display_name(), "char**");
    assert_eq!(
        Type::FunctionPointer(vec![Type::Bool, Type::Char], Box::new(Type::Unit)).display_name(),
        "fn(bool, char) -> ()"
    );
    assert_eq!(Type::FunctionPointer(vec![], Box::new(Type::Never)).display_name(), "fn() -> !");
    assert_eq!(Type::Custom(Span::new("Custom")).display_name(), "Custom");
    assert_eq!(Type::Never.display_name(), "!");
    assert_eq!(Type::unit().display_name(), "()");
    assert_eq!(Type::Wildcard.display_name(), "_");
    assert_eq!(Type::IntegerWildcard.display_name(), "integer");
    assert_eq!(Type::TypeVariable(10).display_name(), "$10");
    assert_eq!(Type::Error.display_name(), "<ERROR>");
}
