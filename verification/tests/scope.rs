use orco::reporter::Report;
use orco::span::Span;
use orco::type_inference::TypeInference;
use orco::types::Type;

#[test]
fn shadowing() {
    let mut ti = TypeInference::new();
    ti.push_scope();
    let outer = ti.declare("x".to_string(), Type::Bool);
    ti.push_scope();
    let inner = ti.declare("x".to_string(), Type::Int(4));
    // the inner declaration shadows the outer one
    assert_eq!(ti.lookup(&"x".to_string()), Some(inner));
    assert!(ti.variable(inner).ty.same(&Type::Int(4)));
    ti.pop_scope();
    // popping the inner scope restores the outer declaration
    assert_eq!(ti.lookup(&"x".to_string()), Some(outer));
    assert!(ti.variable(outer).ty.same(&Type::Bool));
}

#[test]
fn redeclaration_overwrites() {
    let mut ti = TypeInference::new();
    ti.push_scope();
    let _first = ti.declare("x".to_string(), Type::Bool);
    let second = ti.declare("x".to_string(), Type::Char);
    // in one scope, the last declaration wins
    assert_eq!(ti.lookup(&"x".to_string()), Some(second));
}

#[test]
fn lookup_missing_name() {
    let mut ti = TypeInference::new();
    ti.push_scope();
    let _ = ti.declare("x".to_string(), Type::Bool);
    assert_eq!(ti.lookup(&"y".to_string()), None);
}

#[test]
fn narrow_variable_in_place() {
    let mut ti = TypeInference::new();
    ti.push_scope();
    let id = ti.declare("x".to_string(), Type::Wildcard);
    assert!(ti.equate_variable(id, Type::Int(4)));
    assert!(ti.variable(id).ty.same(&Type::Int(4)));
    // a concrete type rejects an incompatible narrowing and keeps its value
    assert!(!ti.equate_variable(id, Type::Bool));
    assert!(ti.variable(id).ty.same(&Type::Int(4)));
}

#[test]
fn type_variable_allocator_is_fresh() {
    let mut ti = TypeInference::new();
    let a = ti.alloc_type_variable();
    let b = ti.alloc_type_variable();
    assert!(a.same(&Type::TypeVariable(0)));
    assert!(b.same(&Type::TypeVariable(1)));
    assert!(!a.same(&b));
}

#[test]
fn reporting_sets_abort_flag() {
    let mut ti = TypeInference::new();
    assert!(!ti.abort_compilation);
    assert_eq!(ti.reporter.len(), 0);
    ti.report(Report::UnresolvedSymbol { name: "puts".to_string(), span: Span::new("puts") });
    assert!(ti.abort_compilation);
    assert_eq!(ti.reporter.len(), 1);
    match &ti.reporter.reports[0] {
        Report::UnresolvedSymbol { name, span } => {
            assert_eq!(name, "puts");
            assert_eq!(span.text, "puts");
        }
        _ => panic!("expected an unresolved symbol report"),
    }
}
