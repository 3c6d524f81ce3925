use orco::expression::{BinaryOp, Block, Constant, Expression};
use orco::function::{ExternFunction, Function, Module, Parameter, Signature};
use orco::reporter::Report;
use orco::span::{Span, Spanned};
use orco::types::Type;
use orco::Crate;

fn constant(value: u128, ty: Type, text: &str) -> Expression {
    Expression::Constant(Constant { value, ty, span: Span::new(text) })
}

fn block(expressions: Vec<Expression>, text: &str) -> Expression {
    Expression::Block(Block { expressions, span: Span::new(text) })
}

fn signature(name: &str, args: Vec<Parameter>, return_type: Type, return_text: &str) -> Signature {
    Signature { name: Span::new(name), args, return_type: Spanned::new(return_type, Span::new(return_text)) }
}

fn module_of(function: Function) -> Module {
    Module { functions: vec![function], extern_functions: vec![] }
}

#[test]
fn end_to_end_inference() {
    // main(argc: u32, argv: char**) -> i32 { return 42; }
    let args = vec![
        Parameter { name: Span::new("argc"), ty: Type::Unsigned(4) },
        Parameter {
            name: Span::new("argv"),
            ty: Type::Pointer(Box::new(Type::Pointer(Box::new(Type::Char)))),
        },
    ];
    let body = block(
        vec![Expression::Return(
            Box::new(constant(42, Type::IntegerWildcard, "42")),
            Span::new("return 42;"),
        )],
        "{ return 42; }",
    );
    let function = Function::new(
        signature("main", args, Type::Int(4), "i32"),
        body,
        Span::new("main(argc: u32, argv: char**) -> i32 { return 42; }"),
    );
    let mut krate = Crate { root: module_of(function) };
    let ti = krate.root.infer_and_check_types();

    // finish-and-check passed with zero diagnostics
    assert_eq!(ti.reporter.len(), 0);
    assert!(!ti.abort_compilation);

    let f = &krate.root.functions[0];
    assert_eq!(f.signature.name.text, "main");
    assert_eq!(f.signature.args.len(), 2);
    assert_eq!(f.signature.args[0].name.text, "argc");
    assert!(f.signature.args[0].ty.same(&Type::Unsigned(4)));
    assert_eq!(f.signature.args[1].name.text, "argv");
    assert!(f.signature.args[1].ty.same(&Type::Pointer(Box::new(Type::Pointer(Box::new(
        Type::Char
    ))))));
    assert!(f.signature.return_type.inner.same(&Type::Int(4)));
    // the unsuffixed literal started as an integer wildcard and was resolved
    // to i32 through the return-type expectation
    match &f.body {
        Expression::Block(b) => {
            assert_eq!(b.expressions.len(), 1);
            match &b.expressions[0] {
                Expression::Return(inner, _) => match &**inner {
                    Expression::Constant(c) => {
                        assert_eq!(c.value, 42);
                        assert!(c.ty.same(&Type::Int(4)));
                    }
                    other => panic!("expected a constant, got {:?}", other),
                },
                other => panic!("expected a return, got {:?}", other),
            }
        }
        other => panic!("expected a block body, got {:?}", other),
    }
}

#[test]
fn return_type_mismatch() {
    // a function declared to return i32 whose body's final expression has
    // type bool: exactly one mismatch, pointing at the body and at the
    // declared return type, and the abort flag is set
    let body = block(vec![constant(1, Type::Bool, "true")], "{ true }");
    let function = Function::new(signature("f", vec![], Type::Int(4), "i32"), body, Span::new("f"));
    let mut module = module_of(function);
    let ti = module.infer_and_check_types();

    assert!(ti.abort_compilation);
    assert_eq!(ti.reporter.len(), 1);
    match &ti.reporter.reports[0] {
        Report::TypeMismatch { expected, expected_span, got, span } => {
            assert!(expected.same(&Type::Int(4)));
            assert!(got.same(&Type::Bool));
            assert_eq!(span.text, "{ true }");
            assert_eq!(expected_span.text, "i32");
        }
        other => panic!("expected a type mismatch, got {:?}", other),
    }
}

#[test]
fn return_statement_mismatch() {
    // f() -> i32 { return true; }: the return statement equates its value
    // against the ambient expected return type and reports the conflict
    let body = block(
        vec![Expression::Return(
            Box::new(constant(1, Type::Bool, "true")),
            Span::new("return true;"),
        )],
        "{ return true; }",
    );
    let function = Function::new(signature("f", vec![], Type::Int(4), "i32"), body, Span::new("f"));
    let mut module = module_of(function);
    let ti = module.infer_and_check_types();

    assert!(ti.abort_compilation);
    assert_eq!(ti.reporter.len(), 1);
    match &ti.reporter.reports[0] {
        Report::TypeMismatch { expected, got, span, .. } => {
            assert!(expected.same(&Type::Int(4)));
            assert!(got.same(&Type::Bool));
            assert_eq!(span.text, "true");
        }
        other => panic!("expected a type mismatch, got {:?}", other),
    }
}

#[test]
fn binary_operands_unify() {
    // f() -> i32 { return 1 + 2; }: both literals end as i32
    let sum = Expression::BinaryOp(
        Box::new(constant(1, Type::IntegerWildcard, "1")),
        BinaryOp::Add,
        Box::new(constant(2, Type::IntegerWildcard, "2")),
    );
    let body = block(
        vec![Expression::Return(Box::new(sum), Span::new("return 1 + 2;"))],
        "{ return 1 + 2; }",
    );
    let function = Function::new(signature("f", vec![], Type::Int(4), "i32"), body, Span::new("f"));
    let mut module = module_of(function);
    let ti = module.infer_and_check_types();
    assert_eq!(ti.reporter.len(), 0);

    match &module.functions[0].body {
        Expression::Block(b) => match &b.expressions[0] {
            Expression::Return(inner, _) => match &**inner {
                Expression::BinaryOp(l, _, r) => {
                    match &**l {
                        Expression::Constant(c) => assert!(c.ty.same(&Type::Int(4))),
                        other => panic!("expected a constant, got {:?}", other),
                    }
                    match &**r {
                        Expression::Constant(c) => assert!(c.ty.same(&Type::Int(4))),
                        other => panic!("expected a constant, got {:?}", other),
                    }
                }
                other => panic!("expected a binary op, got {:?}", other),
            },
            other => panic!("expected a return, got {:?}", other),
        },
        other => panic!("expected a block body, got {:?}", other),
    }
}

#[test]
fn binary_operand_mismatch() {
    // f() -> bool { 1 + true }: the operands fail to unify (one mismatch),
    // and the unresolved literal is reported as incomplete at finish
    let sum = Expression::BinaryOp(
        Box::new(constant(1, Type::IntegerWildcard, "1")),
        BinaryOp::Add,
        Box::new(constant(1, Type::Bool, "true")),
    );
    let body = block(vec![sum], "{ 1 + true }");
    let function =
        Function::new(signature("f", vec![], Type::Bool, "bool"), body, Span::new("f"));
    let mut module = module_of(function);
    let ti = module.infer_and_check_types();

    assert!(ti.abort_compilation);
    assert_eq!(ti.reporter.len(), 2);
    assert!(matches!(&ti.reporter.reports[0], Report::TypeMismatch { .. }));
    match &ti.reporter.reports[1] {
        Report::IncompleteType { got, span } => {
            assert!(got.same(&Type::IntegerWildcard));
            assert_eq!(span.text, "1");
        }
        other => panic!("expected an incomplete type, got {:?}", other),
    }
}

#[test]
fn incomplete_parameter_is_reported_and_poisoned() {
    // f(x: _) -> () {}: the wildcard parameter survives inference, so
    // finish-and-check reports it and poisons the slot
    let args = vec![Parameter { name: Span::new("x"), ty: Type::Wildcard }];
    let body = block(vec![], "{}");
    let function = Function::new(signature("f", args, Type::Unit, "()"), body, Span::new("f"));
    let mut module = module_of(function);
    let ti = module.infer_and_check_types();

    assert!(ti.abort_compilation);
    assert_eq!(ti.reporter.len(), 1);
    match &ti.reporter.reports[0] {
        Report::IncompleteType { got, span } => {
            assert!(got.same(&Type::Wildcard));
            assert_eq!(span.text, "x");
        }
        other => panic!("expected an incomplete type, got {:?}", other),
    }
    assert!(module.functions[0].signature.args[0].ty.same(&Type::Error));
}

#[test]
fn declarations_enter_scope_and_report_wildcards() {
    // f() -> () { let x: i32; let y; }: the typed declaration is bound and
    // settled, the untyped one is reported as incomplete and poisoned
    let body = block(
        vec![
            Expression::VariableDeclaration {
                name: "x".to_string(),
                ty: Type::Int(4),
                variable: None,
                span: Span::new("let x: i32;"),
            },
            Expression::VariableDeclaration {
                name: "y".to_string(),
                ty: Type::Wildcard,
                variable: None,
                span: Span::new("let y;"),
            },
        ],
        "{ let x: i32; let y; }",
    );
    let function = Function::new(signature("f", vec![], Type::Unit, "()"), body, Span::new("f"));
    let mut module = module_of(function);
    let ti = module.infer_and_check_types();

    assert_eq!(ti.reporter.len(), 1);
    assert!(matches!(&ti.reporter.reports[0], Report::IncompleteType { .. }));
    match &module.functions[0].body {
        Expression::Block(b) => {
            match &b.expressions[0] {
                Expression::VariableDeclaration { ty, variable, .. } => {
                    assert!(ty.same(&Type::Int(4)));
                    assert!(variable.is_some());
                }
                other => panic!("expected a declaration, got {:?}", other),
            }
            match &b.expressions[1] {
                Expression::VariableDeclaration { ty, .. } => {
                    assert!(ty.same(&Type::Error));
                }
                other => panic!("expected a declaration, got {:?}", other),
            }
        }
        other => panic!("expected a block body, got {:?}", other),
    }
    // the declarations are still in the context's variable table
    assert_eq!(ti.variables.len(), 2);
    assert_eq!(ti.variables[0].name, "x");
    assert_eq!(ti.variables[1].name, "y");
}

#[test]
fn errors_accumulate_across_functions() {
    // two bad functions: both are reported, traversal never stops early
    let first = Function::new(
        signature("f", vec![], Type::Int(4), "i32"),
        block(vec![constant(1, Type::Bool, "true")], "{ true }"),
        Span::new("f"),
    );
    let second = Function::new(
        signature("g", vec![], Type::Bool, "bool"),
        block(vec![constant(0, Type::Unit, "()")], "{ () }"),
        Span::new("g"),
    );
    let mut module = Module { functions: vec![first, second], extern_functions: vec![] };
    let ti = module.infer_and_check_types();
    assert!(ti.abort_compilation);
    assert_eq!(ti.reporter.len(), 2);
}

#[test]
fn function_clone_deep_copies_the_body() {
    let body = block(vec![constant(3, Type::Int(4), "3")], "{ 3 }");
    let function =
        Function::new(signature("f", vec![], Type::Int(4), "i32"), body, Span::new("f"));
    let copy = function.clone();
    assert_eq!(copy.signature.name.text, "f");
    match (&function.body, &copy.body) {
        (Expression::Block(original), Expression::Block(cloned)) => {
            assert_eq!(original.expressions.len(), cloned.expressions.len());
            assert_eq!(original.span.text, cloned.span.text);
        }
        _ => panic!("expected block bodies"),
    }
}

#[test]
fn extern_functions_are_kept() {
    let declaration = ExternFunction {
        name: Span::new("puts"),
        signature: signature(
            "puts",
            vec![Parameter { name: Span::new("s"), ty: Type::Pointer(Box::new(Type::Char)) }],
            Type::Int(4),
            "i32",
        ),
        span: Span::new("extern fn puts(s: char*) -> i32;"),
    };
    let mut module = Module { functions: vec![], extern_functions: vec![declaration.clone()] };
    let ti = module.infer_and_check_types();
    assert_eq!(ti.reporter.len(), 0);
    assert_eq!(module.extern_functions.len(), 1);
    assert_eq!(module.extern_functions[0].name.text, "puts");
}
