use std::rc::Rc;
use typed_expr::ast::{Expr, ExprKind, Ident, Name, Number, Span, Stmt, StmtKind};
use typed_expr::builtin::{builtins, BuiltinFunc};
use typed_expr::context::Context;
use typed_expr::typeck::{infer_type, typeck_stmt, TypeContext, TypeErrorKind};
use typed_expr::types::{same_type, Type};
use typed_expr::util::unescape;
use typed_expr::value::{Value, ValueContext};
use typed_expr::vm::{evaluate, evaluate_stmt, evaluate_type, VmError, VmErrorKind};

fn at(start: usize, end: usize) -> Span {
    Span::from_byte_offsets(start, end)
}

fn ex(kind: ExprKind) -> Expr {
    Expr::new((kind, at(0, 1)))
}

fn ex_at(kind: ExprKind, span: Span) -> Expr {
    Expr::new((kind, span))
}

fn var(name: &str) -> Expr {
    ex(ExprKind::Var(Ident::new(name, at(0, 1))))
}

fn var_at(name: &str, span: Span) -> Expr {
    ex_at(ExprKind::Var(Ident::new(name, span)), span)
}

fn num(n: i64) -> Expr {
    ex(ExprKind::NumberLiteral(Number(n)))
}

fn text(s: &str) -> Expr {
    ex(ExprKind::StringLiteral(s.to_string()))
}

fn tuple(es: Vec<Expr>) -> Expr {
    ex(ExprKind::Tuple(es))
}

fn call(f: Expr, a: Expr) -> Expr {
    ex(ExprKind::Call(Box::new(f), Box::new(a)))
}

fn closure(param: &str, ty: Option<Expr>, body: Expr) -> Expr {
    ex(ExprKind::Closure(Ident::new(param, at(0, 1)), ty.map(Box::new), Rc::new(body)))
}

fn record(fields: Vec<(&str, Expr)>) -> Expr {
    ex(ExprKind::RecordValue(
        fields.into_iter().map(|(n, e)| (Ident::new(n, at(0, 1)), e)).collect(),
    ))
}

fn field(e: Expr, name: &str) -> Expr {
    ex(ExprKind::RecordFieldAccess(Box::new(e), Ident::new(name, at(0, 1))))
}

fn let_stmt(name: &str, e: Expr) -> Stmt {
    Stmt::new((StmtKind::Let(Ident::new(name, at(0, 1)), Box::new(e)), at(0, 1)))
}

fn value_text(v: &Value) -> String {
    v.to_text()
}

fn eval_text(e: &Expr) -> String {
    match evaluate(e, &ValueContext::default()) {
        Ok(v) => value_text(&v),
        Err(err) => panic!("evaluation failed: {}", err.message),
    }
}

fn eval_err(e: &Expr) -> VmError {
    match evaluate(e, &ValueContext::default()) {
        Ok(v) => panic!("expected a failure, got {}", value_text(&v)),
        Err(err) => err,
    }
}

fn func(a: Type, b: Type) -> Type {
    Type::Func(Box::new(a), Box::new(b))
}

#[test]
fn extend_keeps_other_names_and_the_original() {
    let c: Context<i64> = Context::empty();
    let c1 = c.extend(Name::new("a"), 1);
    let c2 = c1.extend(Name::new("b"), 2);
    assert_eq!(c2.lookup(&Name::new("a")), Some(&1));
    assert_eq!(c2.lookup(&Name::new("b")), Some(&2));
    assert_eq!(c1.lookup(&Name::new("b")), None);
    assert_eq!(c.lookup(&Name::new("a")), None);
    let other = c1.extend(Name::new("b"), 3);
    assert_eq!(other.lookup(&Name::new("b")), Some(&3));
    assert_eq!(c2.lookup(&Name::new("b")), Some(&2));
}

#[test]
fn later_binding_shadows_earlier() {
    let c: Context<i64> = Context::empty();
    let c2 = c.extend(Name::new("n"), 1).extend(Name::new("n"), 2);
    assert_eq!(c2.lookup(&Name::new("n")), Some(&2));
}

#[test]
fn empty_tuple_is_nil() {
    assert!(matches!(evaluate(&tuple(vec![]), &ValueContext::default()), Ok(Value::Nil)));
    assert_eq!(infer_type(&tuple(vec![]), &TypeContext::default()).ok(), Some(Type::Nil));
}

#[test]
fn singleton_tuple_is_its_element() {
    assert!(matches!(
        evaluate(&tuple(vec![num(7)]), &ValueContext::default()),
        Ok(Value::Number(Number(7)))
    ));
    assert_eq!(infer_type(&tuple(vec![text("s")]), &TypeContext::default()).ok(), Some(Type::String_));
}

#[test]
fn pair_is_a_tuple() {
    assert_eq!(eval_text(&tuple(vec![num(1), text("a")])), "(1, \"a\")");
    assert_eq!(
        infer_type(&tuple(vec![num(1), text("a")]), &TypeContext::default()).ok(),
        Some(Type::Tuple(vec![Type::Number, Type::String_]))
    );
}

#[test]
fn parentheses_change_nothing() {
    let e = tuple(vec![num(3), num(4)]);
    let p = ex(ExprKind::Parenthesized(Box::new(tuple(vec![num(3), num(4)]))));
    assert_eq!(eval_text(&p), eval_text(&e));
    assert_eq!(
        infer_type(&p, &TypeContext::default()).ok(),
        infer_type(&e, &TypeContext::default()).ok()
    );
    let bad = ex(ExprKind::Parenthesized(Box::new(var("nope"))));
    assert_eq!(infer_type(&bad, &TypeContext::default()).err().map(|d| d.len()), Some(1));
}

#[test]
fn two_unbound_variables_give_two_diagnostics() {
    let e = tuple(vec![var_at("a", at(1, 2)), var_at("b", at(4, 5))]);
    let errors = infer_type(&e, &TypeContext::default()).err().expect("errors");
    assert_eq!(errors.len(), 2);
    assert!(matches!(errors[0].kind, TypeErrorKind::UndeclaredVariable));
    assert!(matches!(errors[1].kind, TypeErrorKind::UndeclaredVariable));
    assert_eq!(errors[0].span, at(1, 2));
    assert_eq!(errors[1].span, at(4, 5));
    assert_eq!(errors[0].message, "Undeclared variable a");
}

fn context_with_f() -> TypeContext {
    let f_type = func(Type::Number, Type::String_);
    TypeContext::default().bind(&Name::new("f"), f_type, Value::Nil)
}

#[test]
fn application_with_the_right_argument() {
    let tc = context_with_f();
    assert_eq!(infer_type(&call(var("f"), num(1)), &tc).ok(), Some(Type::String_));
}

#[test]
fn application_with_the_wrong_argument() {
    let tc = context_with_f();
    let e = ex(ExprKind::Call(Box::new(var("f")), Box::new(ex_at(ExprKind::StringLiteral("x".to_string()), at(2, 5)))));
    let errors = infer_type(&e, &tc).err().expect("errors");
    assert_eq!(errors.len(), 1);
    match &errors[0].kind {
        TypeErrorKind::Mismatch(expected, found) => {
            assert_eq!(*expected, Type::Number);
            assert_eq!(*found, Type::String_);
        }
        other => panic!("unexpected {:?}", other),
    }
    assert_eq!(errors[0].span, at(2, 5));
    assert_eq!(errors[0].message, "expected Number, found String");
}

#[test]
fn applying_a_non_function() {
    let errors = infer_type(&call(num(1), num(2)), &TypeContext::default()).err().expect("errors");
    assert_eq!(errors.len(), 1);
    assert!(matches!(errors[0].kind, TypeErrorKind::NotAFunction(Type::Number)));
    assert!(matches!(eval_err(&call(num(1), num(2))).kind, VmErrorKind::NotAFunction));
}

#[test]
fn record_field_access() {
    let r = record(vec![("x", num(1)), ("y", text("a"))]);
    assert!(matches!(
        evaluate(&field(r, "x"), &ValueContext::default()),
        Ok(Value::Number(Number(1)))
    ));
    let r2 = record(vec![("x", num(1))]);
    assert_eq!(eval_err(&field(r2, "y")).kind, VmErrorKind::MissingField);
    let r3 = record(vec![("x", num(1))]);
    let errors = infer_type(&field(r3, "y"), &TypeContext::default()).err().expect("errors");
    assert!(matches!(errors[0].kind, TypeErrorKind::NoSuchField));
    assert_eq!(eval_err(&field(num(3), "x")).kind, VmErrorKind::NotARecord);
}

#[test]
fn record_values_and_types_render() {
    let r = record(vec![("x", num(1)), ("y", text("a"))]);
    assert_eq!(eval_text(&r), "{x=1, y=\"a\"}");
    let t = infer_type(&record(vec![("x", num(1)), ("y", text("a"))]), &TypeContext::default()).ok().expect("type");
    assert_eq!(t.to_text(), "{x: Number, y: String}");
}

#[test]
fn let_then_pair() {
    let block = ex(ExprKind::Block(vec![let_stmt("x", num(5))], Some(Box::new(tuple(vec![var("x"), var("x")])))));
    assert_eq!(
        infer_type(&block, &TypeContext::default()).ok(),
        Some(Type::Tuple(vec![Type::Number, Type::Number]))
    );
    match evaluate(&block, &ValueContext::default()) {
        Ok(Value::Tuple(vs)) => {
            assert_eq!(vs.len(), 2);
            assert!(matches!(vs[0], Value::Number(Number(5))));
            assert!(matches!(vs[1], Value::Number(Number(5))));
        }
        _ => panic!("expected a pair"),
    }
}

#[test]
fn block_without_tail_is_nil() {
    let block = ex(ExprKind::Block(vec![let_stmt("x", num(5))], None));
    assert_eq!(infer_type(&block, &TypeContext::default()).ok(), Some(Type::Nil));
    assert_eq!(eval_text(&block), "nil");
}

#[test]
fn fn_builds_function_types() {
    let e = call(call(var("Fn"), var("Number")), var("String"));
    match evaluate(&e, &ValueContext::default()) {
        Ok(Value::Type(t)) => assert_eq!(t, func(Type::Number, Type::String_)),
        _ => panic!("expected a type"),
    }
    let ann = call(call(var("Fn"), var("Number")), var("String"));
    let c = closure("g", Some(ann), var("g"));
    let expected = func(func(Type::Number, Type::String_), func(Type::Number, Type::String_));
    assert_eq!(infer_type(&c, &TypeContext::default()).ok(), Some(expected));
}

#[test]
fn fn_rejects_a_non_type() {
    let e = call(var("Fn"), num(3));
    assert_eq!(eval_err(&e).kind, VmErrorKind::NotAType);
    let errors = infer_type(&e, &TypeContext::default()).err().expect("errors");
    assert!(matches!(&errors[0].kind, TypeErrorKind::Mismatch(Type::Type, Type::Number)));
    assert!(matches!(
        BuiltinFunc::Fn.call(&Value::Number(Number(1))),
        Err(VmError { kind: VmErrorKind::NotAType, .. })
    ));
}

#[test]
fn closure_with_annotation() {
    let c = closure("x", Some(var("Number")), tuple(vec![var("x"), text("s")]));
    assert_eq!(
        infer_type(&c, &TypeContext::default()).ok(),
        Some(func(Type::Number, Type::Tuple(vec![Type::Number, Type::String_])))
    );
    let applied = call(closure("x", Some(var("Number")), tuple(vec![var("x"), var("x")])), num(2));
    assert_eq!(eval_text(&applied), "(2, 2)");
}

#[test]
fn closure_without_annotation_is_rejected() {
    let c = closure("x", None, var("x"));
    let errors = infer_type(&c, &TypeContext::default()).err().expect("errors");
    assert_eq!(errors.len(), 1);
    assert!(matches!(errors[0].kind, TypeErrorKind::CannotInferParameter));
    assert_eq!(eval_text(&c), "[Function]");
}

#[test]
fn annotation_that_is_not_a_type() {
    let c = closure("x", Some(num(1)), var("x"));
    let errors = infer_type(&c, &TypeContext::default()).err().expect("errors");
    assert_eq!(errors.len(), 1);
    assert!(matches!(errors[0].kind, TypeErrorKind::NotAType(Type::Number)));
}

#[test]
fn annotation_with_a_type_parameter() {
    let inner = closure("y", Some(var("T")), var("y"));
    let outer = closure("T", Some(var("Type")), inner);
    match infer_type(&outer, &TypeContext::default()) {
        Ok(Type::Func(a, b)) => {
            assert_eq!(*a, Type::Type);
            match *b {
                Type::Func(p, q) => {
                    assert!(same_type(&p, &q));
                    assert!(matches!(*p, Type::Param(..)));
                }
                other => panic!("unexpected {:?}", other),
            }
        }
        other => panic!("unexpected {:?}", other),
    }
}

#[test]
fn closures_capture_their_context() {
    let make = closure("x", Some(var("Number")), closure("y", Some(var("String")), tuple(vec![var("x"), var("y")])));
    let e = call(call(make, num(4)), text("q"));
    assert_eq!(eval_text(&e), "(4, \"q\")");
}

#[test]
fn unknown_variable_at_runtime() {
    let err = eval_err(&var("missing"));
    assert_eq!(err.kind, VmErrorKind::UnknownVariable);
    assert_eq!(err.message, "Unknown variable missing");
}

#[test]
fn tuple_field_access() {
    let e = ex(ExprKind::TupleFieldAccess(Box::new(tuple(vec![num(1), text("b")])), 1));
    assert_eq!(eval_text(&e), "\"b\"");
    assert_eq!(infer_type(&e, &TypeContext::default()).ok(), Some(Type::String_));
    let out = ex(ExprKind::TupleFieldAccess(Box::new(tuple(vec![num(1), text("b")])), 2));
    assert_eq!(eval_err(&out).kind, VmErrorKind::TupleTooShort);
    let errors = infer_type(&out, &TypeContext::default()).err().expect("errors");
    assert!(matches!(errors[0].kind, TypeErrorKind::TupleTooShort));
    let not_tuple = ex(ExprKind::TupleFieldAccess(Box::new(num(1)), 0));
    assert_eq!(eval_err(&not_tuple).kind, VmErrorKind::NotATuple);
}

#[test]
fn type_literals() {
    let tt = ex(ExprKind::TupleType(vec![var("Number"), var("String")]));
    match evaluate_type(&tt, &ValueContext::default()) {
        Ok(t) => assert_eq!(t.to_text(), "(Number, String)"),
        Err(e) => panic!("{}", e.message),
    }
    assert_eq!(infer_type(&tt, &TypeContext::default()).ok(), Some(Type::Type));
    let bad = ex(ExprKind::TupleType(vec![var("Number"), num(2)]));
    let errors = infer_type(&bad, &TypeContext::default()).err().expect("errors");
    assert!(matches!(errors[0].kind, TypeErrorKind::NotAType(Type::Number)));
    assert_eq!(eval_err(&bad).kind, VmErrorKind::NotAType);
    let rt = ex(ExprKind::RecordType(vec![(Ident::new("a", at(0, 1)), var("Number"))]));
    match evaluate_type(&rt, &ValueContext::default()) {
        Ok(t) => assert_eq!(t.to_text(), "{a: Number}"),
        Err(e) => panic!("{}", e.message),
    }
    assert!(matches!(evaluate_type(&num(1), &ValueContext::default()), Err(VmError { kind: VmErrorKind::NotAType, .. })));
    assert_eq!(eval_text(&ex(ExprKind::NilType)), "Nil");
    assert_eq!(infer_type(&ex(ExprKind::Nil), &TypeContext::default()).ok(), Some(Type::Nil));
}

#[test]
fn statements_extend_contexts() {
    let s = let_stmt("k", num(9));
    let tc = typeck_stmt(&s, &TypeContext::default()).ok().expect("checks");
    assert_eq!(tc.lookup(&Name::new("k")), Some(Type::Number));
    let vc = evaluate_stmt(&s, &ValueContext::default()).ok().expect("runs");
    assert!(matches!(vc.lookup(&Name::new("k")), Some(Value::Number(Number(9)))));
    let bad = let_stmt("k", var("zzz"));
    assert_eq!(typeck_stmt(&bad, &TypeContext::default()).err().map(|e| e.len()), Some(1));
    assert_eq!(evaluate_stmt(&bad, &ValueContext::default()).err().map(|e| e.kind), Some(VmErrorKind::UnknownVariable));
}

#[test]
fn default_contexts_agree() {
    let list = builtins();
    assert_eq!(list.len(), 4);
    let tc = TypeContext::default();
    let vc = ValueContext::default();
    for (name, ty, _) in list.iter() {
        assert_eq!(tc.lookup(&Name::new(name)).as_ref(), Some(ty));
        assert!(vc.lookup(&Name::new(name)).is_some());
    }
    assert_eq!(
        tc.lookup(&Name::new("Fn")),
        Some(func(Type::Type, func(Type::Type, Type::Type)))
    );
}

#[test]
fn numbers_and_strings_render() {
    assert_eq!(eval_text(&num(0)), "0");
    assert_eq!(eval_text(&num(-120)), "-120");
    assert_eq!(eval_text(&num(i64::MIN)), "-9223372036854775808");
    assert_eq!(eval_text(&num(i64::MAX)), "9223372036854775807");
    assert_eq!(eval_text(&text("a\"b\\c\n")), "\"a\\\"b\\\\c\\n\"");
    assert_eq!(eval_text(&var("Fn")), "[Builtin]");
    assert_eq!(func(Type::Number, Type::Type).to_text(), "Fn(Number)(Type)");
    assert_eq!(Type::Error.to_text(), "TypeError");
}

#[test]
fn unescape_replaces_escapes() {
    assert_eq!(unescape("a\\nb"), "a\nb");
    assert_eq!(unescape("\\t\\r\\\\"), "\t\r\\");
    assert_eq!(unescape("\\q"), "q");
    assert_eq!(unescape("end\\"), "end");
    assert_eq!(unescape(""), "");
    assert_eq!(unescape("plain"), "plain");
}

#[test]
fn deep_application_stops() {
    // a closure that applies its argument to itself never finishes
    let self_apply = closure("x", None, call(var("x"), var("x")));
    let omega = call(self_apply, closure("x", None, call(var("x"), var("x"))));
    assert_eq!(eval_err(&omega).kind, VmErrorKind::TooDeep);
}

#[test]
fn argument_of_error_type_adds_nothing() {
    let tc = context_with_f();
    let errors = infer_type(&call(var("f"), var("nope")), &tc).err().expect("errors");
    assert_eq!(errors.len(), 1);
    let errors = infer_type(&call(var("nope"), num(1)), &tc).err().expect("errors");
    assert_eq!(errors.len(), 1);
}

#[test]
fn record_types_ignore_field_order() {
    let xy = Type::Record(vec![(Name::new("x"), Type::Number), (Name::new("y"), Type::String_)]);
    let yx = Type::Record(vec![(Name::new("y"), Type::String_), (Name::new("x"), Type::Number)]);
    assert_eq!(xy, yx);
    let xz = Type::Record(vec![(Name::new("x"), Type::Number), (Name::new("z"), Type::String_)]);
    assert_ne!(xy, xz);
    let ann = ex(ExprKind::RecordType(vec![
        (Ident::new("x", at(0, 1)), var("Number")),
        (Ident::new("y", at(0, 1)), var("String")),
    ]));
    let f = closure("r", Some(ann), field(var("r"), "y"));
    let arg = record(vec![("y", text("a")), ("x", num(1))]);
    assert_eq!(infer_type(&call(f, arg), &TypeContext::default()).ok(), Some(Type::String_));
}

#[test]
fn failing_annotation_evaluation_is_reported() {
    let rec_ty = ex(ExprKind::RecordType(vec![(Ident::new("t", at(0, 1)), var("Type"))]));
    let inner = closure("x", Some(field(var("r"), "t")), var("x"));
    let outer = closure("r", Some(rec_ty), inner);
    let errors = infer_type(&outer, &TypeContext::default()).err().expect("errors");
    assert_eq!(errors.len(), 1);
    assert!(matches!(errors[0].kind, TypeErrorKind::EvaluationFailed(VmErrorKind::NotARecord)));
}

#[test]
fn let_inside_a_closure_body_checks() {
    let rec_ty = ex(ExprKind::RecordType(vec![(Ident::new("a", at(0, 1)), var("Number"))]));
    let body = ex(ExprKind::Block(vec![let_stmt("v", field(var("r"), "a"))], Some(Box::new(var("v")))));
    let f = closure("r", Some(rec_ty), body);
    let t = infer_type(&f, &TypeContext::default()).ok().expect("checks");
    assert_eq!(t.to_text(), "Fn({a: Number})(Number)");
    let applied = call(f, record(vec![("a", num(8))]));
    assert_eq!(eval_text(&applied), "8");
}

#[test]
fn tuple_messages_quote_the_arity() {
    let out = ex(ExprKind::TupleFieldAccess(Box::new(tuple(vec![num(1), num(2)])), 4));
    assert_eq!(eval_err(&out).message, "expected a tuple with at least 5 elements, found one with only 2");
    let errors = infer_type(&out, &TypeContext::default()).err().expect("errors");
    assert_eq!(errors[0].message, "expected a tuple with at least 5 elements, found one with only 2");
    let six = ex(ExprKind::TupleFieldAccess(Box::new(tuple(vec![num(1), num(2)])), 5));
    let errors = infer_type(&six, &TypeContext::default()).err().expect("errors");
    assert_eq!(errors.len(), 1);
    assert_eq!(errors[0].message, "expected a tuple with at least 6 elements, found one with only 2");
    let not_tuple = ex(ExprKind::TupleFieldAccess(Box::new(num(1)), 0));
    assert_eq!(eval_err(&not_tuple).message, "expected a tuple with at least 1 elements, found 1");
}

#[test]
fn failure_messages_name_what_failed() {
    let missing = field(record(vec![("x", num(1))]), "y");
    assert_eq!(eval_err(&missing).message, "record {x=1} doesn't have a field named y");
    assert_eq!(eval_err(&field(num(3), "x")).message, "expected a record with a field named x, found 3");
    assert_eq!(eval_err(&call(num(1), num(2))).message, "expected a function, found 1");
    assert_eq!(eval_err(&call(var("Fn"), num(3))).message, "expected a type, found 3");
    let second = call(call(var("Fn"), var("Number")), text("x"));
    let err = eval_err(&second);
    assert_eq!(err.kind, VmErrorKind::NotAType);
    assert_eq!(err.message, "expected a type, found \"x\"");
    match evaluate_type(&num(1), &ValueContext::default()) {
        Err(e) => assert_eq!(e.message, "expected a type, found 1"),
        Ok(_) => panic!("expected a failure"),
    }
    let c = closure("x", None, var("x"));
    let errors = infer_type(&c, &TypeContext::default()).err().expect("errors");
    assert_eq!(errors[0].message, "Cannot infer the type of x");
    let errors = infer_type(&call(num(1), num(2)), &TypeContext::default()).err().expect("errors");
    assert_eq!(errors[0].message, "expected a function, found a value of type Number");
}

#[test]
fn repeated_record_fields_keep_the_last() {
    let r = record(vec![("x", num(1)), ("y", num(2)), ("x", text("z"))]);
    assert_eq!(eval_text(&r), "{x=\"z\", y=2}");
    let r = record(vec![("x", num(1)), ("y", num(2)), ("x", text("z"))]);
    let t = infer_type(&r, &TypeContext::default()).ok().expect("type");
    assert_eq!(t.to_text(), "{x: String, y: Number}");
}

#[test]
fn control_characters_are_escaped() {
    assert_eq!(eval_text(&text("a\0b\u{1}c\u{1f}\u{7f}")), "\"a\\0b\\u{1}c\\u{1f}\\u{7f}\"");
    assert_eq!(eval_text(&text("\u{1b}")), format!("{:?}", "\u{1b}"));
    assert_eq!(eval_text(&text("\0\t")), format!("{:?}", "\0\t"));
}
