//! The type checker.
use crate::ast::{Expr, ExprKind, Ident, Name, Span, Stmt, StmtKind};
use crate::builtin::{builtins, builtins_model};
use crate::context::{Context, lemma_put_field_unique, put_field, unique_names, lemma_lookup_model, lookup_in, model_of};
use crate::types::{
    ParamDepth, Type, TypeM, put_type_field, field_type, fields_view, lemma_types_view, same_type, type_eq,
    types_view,
};
use crate::value::{Value, ValueContext, ValueM, lemma_env_view};
use crate::vm::{Env, MAX_CALL_DEPTH, VmErrorKind, VmErrorM, eval, evaluate, text_with_name, tuple_type_of};
use crate::render::{
    arity_message, arity_text, nat_text, push_nat, push_type, push_value, type_text, value_message,
    value_text,
};
use vstd::prelude::*;

verus! {

/// Why a program was rejected.
#[derive(Debug)]
pub enum TypeErrorKind {
    UndeclaredVariable,
    /// A closure parameter without a type annotation.
    CannotInferParameter,
    /// A type was expected; the expression has the type given.
    NotAType(Type),
    /// The callee of an application has the type given.
    NotAFunction(Type),
    /// The argument of an application: the type expected, then the type found.
    Mismatch(Type, Type),
    /// A record field that the record's type does not have.
    NoSuchField,
    /// A tuple element past the end of the tuple's type.
    TupleTooShort,
    /// Evaluating a type expression failed, for the reason given.
    EvaluationFailed(VmErrorKind),
}

pub enum TypeErrorKindM {
    UndeclaredVariable,
    CannotInferParameter,
    NotAType(TypeM),
    NotAFunction(TypeM),
    Mismatch(TypeM, TypeM),
    NoSuchField,
    TupleTooShort,
    EvaluationFailed(VmErrorKind),
}

impl View for TypeErrorKind {
    type V = TypeErrorKindM;

    open spec fn view(&self) -> TypeErrorKindM {
        match self {
            TypeErrorKind::UndeclaredVariable => TypeErrorKindM::UndeclaredVariable,
            TypeErrorKind::CannotInferParameter => TypeErrorKindM::CannotInferParameter,
            TypeErrorKind::NotAType(t) => TypeErrorKindM::NotAType(t@),
            TypeErrorKind::NotAFunction(t) => TypeErrorKindM::NotAFunction(t@),
            TypeErrorKind::Mismatch(a, b) => TypeErrorKindM::Mismatch(a@, b@),
            TypeErrorKind::NoSuchField => TypeErrorKindM::NoSuchField,
            TypeErrorKind::TupleTooShort => TypeErrorKindM::TupleTooShort,
            TypeErrorKind::EvaluationFailed(k) => TypeErrorKindM::EvaluationFailed(*k),
        }
    }
}

/// A diagnostic: what went wrong, a message for people, and where.
#[derive(Debug)]
pub struct TypeError {
    pub kind: TypeErrorKind,
    pub message: String,
    pub span: Span,
}

/// A diagnostic's model: its kind and where.
pub struct Diag {
    pub kind: TypeErrorKindM,
    pub message: Seq<char>,
    pub span: Span,
}

impl View for TypeError {
    type V = Diag;

    open spec fn view(&self) -> Diag {
        Diag { kind: self.kind@, message: self.message@, span: self.span }
    }
}

pub open spec fn diags_view(s: Seq<TypeError>) -> Seq<Diag> {
    s.map_values(|e: TypeError| e@)
}

pub open spec fn diag(kind: TypeErrorKindM, message: Seq<char>, span: Span) -> Seq<Diag> {
    seq![Diag { kind, message, span }]
}

/// What checking sees of a type context.
pub struct TcM {
    /// Each name's type, oldest first.
    pub types: Seq<(Seq<char>, TypeM)>,
    /// Each name's value, oldest first: a closure parameter stands for
    /// itself, as a type parameter.
    pub values: Env,
    /// How many closure parameters are bound.
    pub level: u32,
}

pub open spec fn next_level(l: u32) -> u32 {
    if l == u32::MAX {
        0
    } else {
        (l + 1) as u32
    }
}

/// `tc` with `name` bound to a type and a value.
pub open spec fn tc_bind(tc: TcM, name: Seq<char>, t: TypeM, v: ValueM) -> TcM {
    TcM { types: tc.types.push((name, t)), values: tc.values.push((name, v)), level: tc.level }
}

/// `tc` with the closure parameter `name` of type `t` bound.
pub open spec fn tc_bind_param(tc: TcM, name: Seq<char>, t: TypeM) -> TcM {
    TcM {
        types: tc.types.push((name, t)),
        values: tc.values.push((name, ValueM::Type(TypeM::Param(name, tc.level)))),
        level: next_level(tc.level),
    }
}

/// The type of `e` under `tc`, and the diagnostics found on the way, in
/// order. After a diagnostic the type is `Error`, which causes no other.
pub open spec fn infer(e: Expr, tc: TcM) -> (TypeM, Seq<Diag>)
    decreases e, 0nat,
{
    match e.kind {
        ExprKind::Nil => (TypeM::Nil, Seq::empty()),
        ExprKind::NilType => (TypeM::Type, Seq::empty()),
        ExprKind::NumberLiteral(_) => (TypeM::Number, Seq::empty()),
        ExprKind::StringLiteral(_) => (TypeM::Str, Seq::empty()),
        ExprKind::RecordValue(fs) => {
            let (ts, ds) = infer_fields(fs@, tc);
            (TypeM::Record(ts), ds)
        },
        ExprKind::RecordType(fs) => (TypeM::Type, check_type_fields(fs@, tc)),
        ExprKind::RecordFieldAccess(b, id) => {
            let (bt, ds) = infer(*b, tc);
            match bt {
                TypeM::Record(fs) => match lookup_in(fs, id.name@) {
                    Some(t) => (t, ds),
                    None => (
                        TypeM::Error,
                        ds + diag(
                            TypeErrorKindM::NoSuchField,
                            "record has no field named "@ + id.name@,
                            id.span,
                        ),
                    ),
                },
                TypeM::Error => (TypeM::Error, ds),
                _ => (
                    TypeM::Error,
                    ds + diag(
                        TypeErrorKindM::NoSuchField,
                        "expected a record with a field named "@ + id.name@
                            + ", found a value of type "@ + type_text(bt),
                        id.span,
                    ),
                ),
            }
        },
        ExprKind::Tuple(es) => {
            let (ts, ds) = infer_list(es@, tc);
            (tuple_type_of(ts), ds)
        },
        ExprKind::TupleType(es) => (TypeM::Type, check_type_list(es@, tc)),
        ExprKind::TupleFieldAccess(b, i) => {
            let (bt, ds) = infer(*b, tc);
            match bt {
                TypeM::Tuple(ts) => if i < ts.len() {
                    (ts[i as int], ds)
                } else {
                    (
                        TypeM::Error,
                        ds + diag(
                            TypeErrorKindM::TupleTooShort,
                            arity_text(i as nat) + ", found one with only "@ + nat_text(ts.len()),
                            e.span,
                        ),
                    )
                },
                TypeM::Error => (TypeM::Error, ds),
                _ => (
                    TypeM::Error,
                    ds + diag(
                        TypeErrorKindM::TupleTooShort,
                        arity_text(i as nat) + ", found a value of type "@ + type_text(bt),
                        e.span,
                    ),
                ),
            }
        },
        ExprKind::Block(ss, tail) => {
            let (tc2, ds) = infer_stmts(ss@, tc);
            match tail {
                Some(t) => {
                    let (tt, ds2) = infer(*t, tc2);
                    (tt, ds + ds2)
                },
                None => (TypeM::Nil, ds),
            }
        },
        ExprKind::Var(id) => match lookup_in(tc.types, id.name@) {
            Some(t) => (t, Seq::empty()),
            None => (
                TypeM::Error,
                diag(TypeErrorKindM::UndeclaredVariable, "Undeclared variable "@ + id.name@, id.span),
            ),
        },
        ExprKind::Closure(id, ann, body) => match ann {
            None => (
                TypeM::Error,
                diag(
                    TypeErrorKindM::CannotInferParameter,
                    "Cannot infer the type of "@ + id.name@,
                    id.span,
                ),
            ),
            Some(a) => {
                let (pt, ds1) = annotation_type(*a, tc);
                let (bt, ds2) = infer(*body, tc_bind_param(tc, id.name@, pt));
                (TypeM::Func(Box::new(pt), Box::new(bt)), ds1 + ds2)
            },
        },
        ExprKind::Call(f, a) => {
            let (ft, ds1) = infer(*f, tc);
            let (at, ds2) = infer(*a, tc);
            match ft {
                TypeM::Func(i, o) => if type_eq(*i, at) || at == TypeM::Error || *i == TypeM::Error {
                    (*o, ds1 + ds2)
                } else {
                    (TypeM::Error, ds1 + ds2 + diag(TypeErrorKindM::Mismatch(*i, at), mismatch_text(*i, at), a.span))
                },
                TypeM::Error => (TypeM::Error, ds1 + ds2),
                _ => (
                    TypeM::Error,
                    ds1 + ds2 + diag(
                        TypeErrorKindM::NotAFunction(ft),
                        "expected a function, found a value of type "@ + type_text(ft),
                        f.span,
                    ),
                ),
            }
        },
        ExprKind::Parenthesized(x) => infer(*x, tc),
    }
}

/// The type that a parameter annotation denotes: the annotation must check
/// as a type without diagnostics, and is then evaluated.
pub open spec fn annotation_type(a: Expr, tc: TcM) -> (TypeM, Seq<Diag>)
    decreases a, 1nat,
{
    let (at, ds) = infer(a, tc);
    if ds.len() > 0 {
        (TypeM::Error, ds)
    } else {
        match at {
            TypeM::Type => match eval(a, tc.values, MAX_CALL_DEPTH as nat) {
                Ok(ValueM::Type(t)) => (t, Seq::empty()),
                Ok(v) => (
                    TypeM::Error,
                    diag(
                        TypeErrorKindM::EvaluationFailed(VmErrorKind::NotAType),
                        "a type expression evaluated to a value that is not a type: "@
                            + value_text(v),
                        a.span,
                    ),
                ),
                Err(err) => (
                    TypeM::Error,
                    diag(
                        TypeErrorKindM::EvaluationFailed(err.kind),
                        "evaluating a type expression failed: "@ + err.message,
                        a.span,
                    ),
                ),
            },
            TypeM::Error => (TypeM::Error, Seq::empty()),
            _ => (TypeM::Error, diag(TypeErrorKindM::NotAType(at), not_a_type_text(at), a.span)),
        }
    }
}

pub open spec fn not_a_type_text(t: TypeM) -> Seq<char> {
    "expected a type, found a value of type "@ + type_text(t)
}

pub open spec fn mismatch_text(expected: TypeM, found: TypeM) -> Seq<char> {
    "expected "@ + type_text(expected) + ", found "@ + type_text(found)
}

/// Diagnostics for an expression that must denote a type.
pub open spec fn must_be_type(t: TypeM, span: Span) -> Seq<Diag> {
    match t {
        TypeM::Type => Seq::empty(),
        TypeM::Error => Seq::empty(),
        _ => diag(TypeErrorKindM::NotAType(t), not_a_type_text(t), span),
    }
}

pub open spec fn infer_list(es: Seq<Expr>, tc: TcM) -> (Seq<TypeM>, Seq<Diag>)
    decreases es, 0nat,
{
    if es.len() == 0 {
        (Seq::empty(), Seq::empty())
    } else {
        let (ts, ds) = infer_list(es.subrange(0, es.len() - 1), tc);
        let (t, d) = infer(es[es.len() - 1], tc);
        (ts.push(t), ds + d)
    }
}

pub open spec fn infer_fields(fs: Seq<(Ident, Expr)>, tc: TcM) -> (
    Seq<(Seq<char>, TypeM)>,
    Seq<Diag>,
)
    decreases fs, 0nat,
{
    if fs.len() == 0 {
        (Seq::empty(), Seq::empty())
    } else {
        let (ts, ds) = infer_fields(fs.subrange(0, fs.len() - 1), tc);
        let (t, d) = infer(fs[fs.len() - 1].1, tc);
        (put_field(ts, fs[fs.len() - 1].0.name@, t), ds + d)
    }
}

pub open spec fn check_type_list(es: Seq<Expr>, tc: TcM) -> Seq<Diag>
    decreases es, 0nat,
{
    if es.len() == 0 {
        Seq::empty()
    } else {
        let e = es[es.len() - 1];
        let (t, d) = infer(e, tc);
        check_type_list(es.subrange(0, es.len() - 1), tc) + d + must_be_type(t, e.span)
    }
}

pub open spec fn check_type_fields(fs: Seq<(Ident, Expr)>, tc: TcM) -> Seq<Diag>
    decreases fs, 0nat,
{
    if fs.len() == 0 {
        Seq::empty()
    } else {
        let e = fs[fs.len() - 1].1;
        let (t, d) = infer(e, tc);
        check_type_fields(fs.subrange(0, fs.len() - 1), tc) + d + must_be_type(t, e.span)
    }
}

/// The binding that a `let` adds while checking: the value of the bound
/// expression when it checks without diagnostics and evaluates. Inside a
/// closure body the parameters have no values yet, so evaluation may fail
/// there on a correct program: that is no diagnostic, and the value is then
/// the `Error` type, which a later annotation takes without a new one.
pub open spec fn let_binding(e: Expr, tc: TcM) -> (TypeM, ValueM, Seq<Diag>)
    decreases e, 1nat,
{
    let (t, ds) = infer(e, tc);
    if ds.len() > 0 {
        (t, ValueM::Type(TypeM::Error), ds)
    } else {
        match eval(e, tc.values, MAX_CALL_DEPTH as nat) {
            Ok(v) => (t, v, ds),
            Err(_) => (t, ValueM::Type(TypeM::Error), ds),
        }
    }
}

pub open spec fn infer_stmts(ss: Seq<Stmt>, tc: TcM) -> (TcM, Seq<Diag>)
    decreases ss, 0nat,
{
    if ss.len() == 0 {
        (tc, Seq::empty())
    } else {
        let (tc1, ds) = infer_stmts(ss.subrange(0, ss.len() - 1), tc);
        match ss[ss.len() - 1].kind {
            StmtKind::Let(id, e) => {
                let (t, v, d) = let_binding(*e, tc1);
                (tc_bind(tc1, id.name@, t, v), ds + d)
            },
        }
    }
}


/// A context for checking: each name's type, and its value where checking
/// knows one, so that type annotations can depend on earlier bindings.
#[derive(Debug)]
pub struct TypeContext {
    pub types: Context<Type>,
    pub values: ValueContext,
    pub level: u32,
}

impl TypeContext {
    pub open spec fn model(&self) -> TcM {
        TcM { types: model_of(self.types.entries()), values: self.values.env(), level: self.level }
    }

    /// A context without bindings.
    pub fn empty() -> (r: TypeContext)
        ensures
            r.model() == (TcM { types: Seq::empty(), values: Seq::empty(), level: 0 }),
    {
        let r = TypeContext { types: Context::empty(), values: Context::empty(), level: 0 };
        proof {
            assert(model_of(r.types.entries()) =~= Seq::empty());
            lemma_env_view(r.values.head);
            assert(r.values.env() =~= Seq::empty());
        }
        r
    }

    /// Binds `name` to a type and a value.
    pub fn bind(&self, name: &Name, ty: Type, value: Value) -> (r: TypeContext)
        ensures
            r.model() == tc_bind(self.model(), name@, ty@, value@),
    {
        let ghost t = ty@;
        let types = self.types.extend(name.clone(), ty);
        let values = self.values.bind(name.clone(), value);
        proof {
            assert(model_of(types.entries()) =~= model_of(self.types.entries()).push((name@, t)));
        }
        TypeContext { types, values, level: self.level }
    }

    /// Binds the closure parameter `name` of type `ty`; its value is a
    /// placeholder that stands for the parameter.
    pub fn bind_param(&self, name: &Name, ty: Type) -> (r: TypeContext)
        ensures
            r.model() == tc_bind_param(self.model(), name@, ty@),
    {
        let placeholder = Value::Type(Type::Param(name.clone(), ParamDepth(self.level)));
        let r = self.bind(name, ty, placeholder);
        let level = if self.level == u32::MAX {
            0
        } else {
            self.level + 1
        };
        TypeContext { types: r.types, values: r.values, level }
    }

    /// The values of the bindings, for evaluating type expressions.
    pub fn as_value_context(&self) -> (r: ValueContext)
        ensures
            r.env() == self.model().values,
    {
        self.values.clone()
    }

    /// The type most recently bound to `name`.
    pub fn lookup(&self, name: &Name) -> (r: Option<Type>)
        ensures
            match r {
                Some(t) => lookup_in(self.model().types, name@) == Some(t@),
                None => lookup_in(self.model().types, name@) is None,
            },
    {
        proof {
            lemma_lookup_model(self.types.entries(), name@);
        }
        match self.types.lookup(name) {
            Some(t) => Some(t.clone()),
            None => None,
        }
    }
}

/// The bindings of the primitives, in the order they are listed.
pub open spec fn default_tc() -> TcM {
    TcM {
        types: builtins_model().map_values(|b: (Seq<char>, TypeM, ValueM)| (b.0, b.1)),
        values: builtins_model().map_values(|b: (Seq<char>, TypeM, ValueM)| (b.0, b.2)),
        level: 0,
    }
}

impl Default for TypeContext {
    /// Every primitive, with its type and its value.
    fn default() -> (r: TypeContext)
        ensures
            r.model() == default_tc(),
    {
        let list = builtins();
        let mut tc = TypeContext::empty();
        let mut i: usize = 0;
        proof {
            assert(default_tc().types.subrange(0, 0) =~= Seq::empty());
            assert(default_tc().values.subrange(0, 0) =~= Seq::empty());
        }
        while i < list.len()
            invariant
                i <= list@.len(),
                list@.len() == builtins_model().len(),
                forall|j: int|
                    0 <= j < list@.len() ==> (#[trigger] list@[j]).0@ == builtins_model()[j].0
                        && list@[j].1@ == builtins_model()[j].1 && list@[j].2@
                        == builtins_model()[j].2,
                tc.model() == (TcM {
                    types: default_tc().types.subrange(0, i as int),
                    values: default_tc().values.subrange(0, i as int),
                    level: 0,
                }),
            decreases list@.len() - i,
        {
            let entry = &list[i];
            tc = tc.bind(&Name::new(entry.0), entry.1.clone(), entry.2.clone());
            proof {
                assert(tc.model().types =~= default_tc().types.subrange(0, i + 1));
                assert(tc.model().values =~= default_tc().values.subrange(0, i + 1));
            }
            i = i + 1;
        }
        proof {
            assert(default_tc().types.subrange(0, list@.len() as int) =~= default_tc().types);
            assert(default_tc().values.subrange(0, list@.len() as int) =~= default_tc().values);
        }
        tc
    }
}

impl Default for Context<Value> {
    /// Every primitive, with its value.
    fn default() -> (r: Context<Value>)
        ensures
            r.env() == default_tc().values,
    {
        let tc = TypeContext::default();
        tc.values
    }
}


/// Collects the diagnostics of one checking pass. A pass owns its
/// collector, so passes can neither overlap nor nest.
pub struct ErrorContext {
    pub errors: Vec<TypeError>,
}

impl ErrorContext {
    pub open spec fn diags(&self) -> Seq<Diag> {
        diags_view(self.errors@)
    }

    pub fn new() -> (r: ErrorContext)
        ensures
            r.diags() == Seq::<Diag>::empty(),
    {
        let r = ErrorContext { errors: Vec::new() };
        proof {
            assert(r.diags() =~= Seq::<Diag>::empty());
        }
        r
    }

    /// Records a diagnostic; gives the type that stands in after it.
    pub fn emit(&mut self, kind: TypeErrorKind, message: String, span: Span) -> (r: Type)
        ensures
            final(self).diags() == old(self).diags() + diag(kind@, message@, span),
            r@ == TypeM::Error,
    {
        let ghost k = kind@;
        let ghost msg = message@;
        self.errors.push(TypeError { kind, message, span });
        proof {
            assert(self.diags() =~= old(self).diags() + diag(k, msg, span));
        }
        Type::Error
    }

    pub fn count(&self) -> (r: usize)
        ensures
            r == self.diags().len(),
    {
        self.errors.len()
    }
}

/// The value computed by a pass when it recorded no diagnostic, and the
/// diagnostics otherwise.
pub fn collect_type_errors<T>(value: T, errors: ErrorContext) -> (r: Result<T, Vec<TypeError>>)
    ensures
        errors.diags().len() == 0 ==> r == Ok::<T, Vec<TypeError>>(value),
        errors.diags().len() > 0 ==> r is Err && diags_view(r->Err_0@) == errors.diags(),
{
    if errors.errors.len() == 0 {
        Ok(value)
    } else {
        Err(errors.errors)
    }
}

/// `prefix` followed by the text of `t`.
fn type_message(prefix: &str, t: &Type) -> (r: String)
    ensures
        r@ == prefix@ + type_text(t@),
{
    let mut m = String::from_str(prefix);
    push_type(&mut m, t);
    m
}

/// A message for an argument of type `found` where `expected` was required.
fn mismatch_message(expected: &Type, found: &Type) -> (r: String)
    ensures
        r@ == "expected "@ + type_text(expected@) + ", found "@ + type_text(found@),
{
    let mut m = type_message("expected ", expected);
    m.append(", found ");
    push_type(&mut m, found);
    m
}

/// Checks one expression, recording diagnostics in `errs`.
#[verifier::spinoff_prover]
#[verifier::rlimit(80)]
fn infer_in(expr: &Expr, tc: &TypeContext, errs: &mut ErrorContext) -> (r: Type)
    ensures
        r@ == infer(*expr, tc.model()).0,
        final(errs).diags() == old(errs).diags() + infer(*expr, tc.model()).1,
    decreases expr, 0nat,
{
    let ghost d0 = errs.diags();
    let ghost m = tc.model();
    match &expr.kind {
        ExprKind::Nil => {
            assert(errs.diags() =~= d0 + Seq::<Diag>::empty());
            Type::Nil
        },
        ExprKind::NilType => {
            assert(errs.diags() =~= d0 + Seq::<Diag>::empty());
            Type::Type
        },
        ExprKind::NumberLiteral(_) => {
            assert(errs.diags() =~= d0 + Seq::<Diag>::empty());
            Type::Number
        },
        ExprKind::StringLiteral(_) => {
            assert(errs.diags() =~= d0 + Seq::<Diag>::empty());
            Type::String_
        },
        ExprKind::RecordValue(fs) => Type::Record(infer_fields_in(fs, tc, errs)),
        ExprKind::RecordType(fs) => {
            check_type_fields_in(fs, tc, errs);
            Type::Type
        },
        ExprKind::RecordFieldAccess(b, id) => {
            let bt = infer_in(b, tc, errs);
            let ghost d1 = errs.diags();
            match bt {
                Type::Record(fs) => match field_type(&fs, &id.name) {
                    Some(t) => {
                        assert(errs.diags() =~= d1 + Seq::<Diag>::empty());
                        t
                    },
                    None => errs.emit(
                        TypeErrorKind::NoSuchField,
                        text_with_name("record has no field named ", &id.name),
                        id.span,
                    ),
                },
                Type::Error => Type::Error,
                other => {
                    let mut m = text_with_name("expected a record with a field named ", &id.name);
                    m.append(", found a value of type ");
                    push_type(&mut m, &other);
                    errs.emit(TypeErrorKind::NoSuchField, m, id.span)
                },
            }
        },
        ExprKind::Tuple(es) => {
            let ts = infer_list_in(es, tc, errs);
            proof {
                lemma_types_view(ts@);
            }
            if ts.len() == 0 {
                Type::Nil
            } else if ts.len() == 1 {
                let mut ts = ts;
                ts.pop().unwrap()
            } else {
                Type::Tuple(ts)
            }
        },
        ExprKind::TupleType(es) => {
            check_type_list_in(es, tc, errs);
            Type::Type
        },
        ExprKind::TupleFieldAccess(b, i) => {
            let bt = infer_in(b, tc, errs);
            match bt {
                Type::Tuple(ts) => {
                    proof {
                        lemma_types_view(ts@);
                    }
                    if *i < ts.len() {
                        ts[*i].clone()
                    } else {
                        let mut m = arity_message(*i);
                        m.append(", found one with only ");
                        push_nat(&mut m, ts.len() as u128);
                        errs.emit(TypeErrorKind::TupleTooShort, m, expr.span)
                    }
                },
                Type::Error => Type::Error,
                other => {
                    let mut m = arity_message(*i);
                    m.append(", found a value of type ");
                    push_type(&mut m, &other);
                    errs.emit(TypeErrorKind::TupleTooShort, m, expr.span)
                },
            }
        },
        ExprKind::Block(ss, tail) => {
            let tc2 = infer_stmts_in(ss, tc, errs);
            match tail {
                Some(t) => {
                    let ghost d1 = errs.diags();
                    let r = infer_in(t, &tc2, errs);
                    assert(errs.diags() =~= d0 + (d1.subrange(d0.len() as int, d1.len() as int)
                        + infer(**t, tc2.model()).1));
                    r
                },
                None => Type::Nil,
            }
        },
        ExprKind::Var(id) => match tc.lookup(&id.name) {
            Some(t) => {
                assert(errs.diags() =~= d0 + Seq::<Diag>::empty());
                t
            },
            None => errs.emit(
                TypeErrorKind::UndeclaredVariable,
                text_with_name("Undeclared variable ", &id.name),
                id.span,
            ),
        },
        ExprKind::Closure(id, ann, body) => match ann {
            None => errs.emit(
                TypeErrorKind::CannotInferParameter,
                text_with_name("Cannot infer the type of ", &id.name),
                id.span,
            ),
            Some(a) => {
                let pt = annotation_type_in(a, tc, errs);
                let ghost d1 = errs.diags();
                let tc2 = tc.bind_param(&id.name, pt.clone());
                let bt = infer_in(&**body, &tc2, errs);
                assert(errs.diags() =~= d0 + (d1.subrange(d0.len() as int, d1.len() as int)
                    + infer(**body, tc2.model()).1));
                Type::Func(Box::new(pt), Box::new(bt))
            },
        },
        ExprKind::Call(f, a) => {
            let ft = infer_in(f, tc, errs);
            let ghost d1 = errs.diags();
            let at = infer_in(a, tc, errs);
            let ghost d2 = errs.diags();
            assert(d2 =~= d0 + (infer(**f, m).1 + infer(**a, m).1));
            match ft {
                Type::Func(i, o) => {
                    if same_type(&i, &at) || matches!(at, Type::Error) || matches!(*i, Type::Error)
                    {
                        *o
                    } else {
                        let message = mismatch_message(&i, &at);
                        let r = errs.emit(TypeErrorKind::Mismatch(*i, at), message, a.span);
                        assert(errs.diags() =~= d0 + (infer(**f, m).1 + infer(**a, m).1 + diag(
                            infer(*expr, m).1.last().kind,
                            infer(*expr, m).1.last().message,
                            a.span,
                        )));
                        r
                    }
                },
                Type::Error => Type::Error,
                _ => {
                    let ghost fm = ft@;
                    let message = type_message("expected a function, found a value of type ", &ft);
                    let r = errs.emit(TypeErrorKind::NotAFunction(ft), message, f.span);
                    assert(errs.diags() =~= d0 + (infer(**f, m).1 + infer(**a, m).1 + diag(
                        TypeErrorKindM::NotAFunction(fm),
                        "expected a function, found a value of type "@ + type_text(fm),
                        f.span,
                    )));
                    r
                },
            }
        },
        ExprKind::Parenthesized(x) => infer_in(x, tc, errs),
    }
}


fn annotation_type_in(a: &Expr, tc: &TypeContext, errs: &mut ErrorContext) -> (r: Type)
    ensures
        r@ == annotation_type(*a, tc.model()).0,
        final(errs).diags() == old(errs).diags() + annotation_type(*a, tc.model()).1,
    decreases a, 1nat,
{
    let ghost d0 = errs.diags();
    let before = errs.count();
    let at = infer_in(a, tc, errs);
    if errs.count() > before {
        return Type::Error;
    }
    assert(infer(*a, tc.model()).1 =~= Seq::<Diag>::empty());
    match at {
        Type::Type => match evaluate(a, &tc.as_value_context()) {
            Ok(Value::Type(t)) => t,
            Ok(v) => errs.emit(
                TypeErrorKind::EvaluationFailed(VmErrorKind::NotAType),
                value_message("a type expression evaluated to a value that is not a type: ", &v),
                a.span,
            ),
            Err(e) => {
                let mut m = String::from_str("evaluating a type expression failed: ");
                m.append(e.message.as_str());
                errs.emit(TypeErrorKind::EvaluationFailed(e.kind), m, a.span)
            },
        },
        Type::Error => Type::Error,
        _ => {
            let message = type_message("expected a type, found a value of type ", &at);
            errs.emit(TypeErrorKind::NotAType(at), message, a.span)
        },
    }
}

fn must_be_type_in(t: Type, span: Span, errs: &mut ErrorContext)
    ensures
        final(errs).diags() == old(errs).diags() + must_be_type(t@, span),
{
    match t {
        Type::Type => {
            assert(errs.diags() =~= old(errs).diags() + Seq::<Diag>::empty());
        },
        Type::Error => {
            assert(errs.diags() =~= old(errs).diags() + Seq::<Diag>::empty());
        },
        _ => {
            let message = type_message("expected a type, found a value of type ", &t);
            errs.emit(TypeErrorKind::NotAType(t), message, span);
        },
    }
}

fn infer_list_in(es: &Vec<Expr>, tc: &TypeContext, errs: &mut ErrorContext) -> (r: Vec<Type>)
    ensures
        types_view(r@) == infer_list(es@, tc.model()).0,
        final(errs).diags() == old(errs).diags() + infer_list(es@, tc.model()).1,
    decreases es, 0nat,
{
    let ghost m = tc.model();
    let ghost d0 = errs.diags();
    let mut out: Vec<Type> = Vec::new();
    let mut i: usize = 0;
    proof {
        assert(es@.subrange(0, 0) =~= Seq::<Expr>::empty());
        assert(errs.diags() =~= d0 + Seq::<Diag>::empty());
    }
    while i < es.len()
        invariant
            i <= es@.len(),
            m == tc.model(),
            types_view(out@) == infer_list(es@.subrange(0, i as int), m).0,
            errs.diags() == d0 + infer_list(es@.subrange(0, i as int), m).1,
        decreases es@.len() - i,
    {
        proof {
            assert(decreases_to!(*es => es[i as int]));
            let sub = es@.subrange(0, i + 1);
            assert(sub.subrange(0, i as int) =~= es@.subrange(0, i as int));
        }
        let ghost d1 = errs.diags();
        let t = infer_in(&es[i], tc, errs);
        let ghost old_out = out@;
        out.push(t);
        proof {
            assert(out@.subrange(0, out@.len() - 1) =~= old_out);
            assert(errs.diags() =~= d0 + infer_list(es@.subrange(0, i + 1), m).1);
        }
        i = i + 1;
    }
    proof {
        assert(es@.subrange(0, es@.len() as int) =~= es@);
    }
    out
}

fn infer_fields_in(fs: &Vec<(Ident, Expr)>, tc: &TypeContext, errs: &mut ErrorContext) -> (r: Vec<
    (Name, Type),
>)
    ensures
        fields_view(r@) == infer_fields(fs@, tc.model()).0,
        final(errs).diags() == old(errs).diags() + infer_fields(fs@, tc.model()).1,
    decreases fs, 0nat,
{
    let ghost m = tc.model();
    let ghost d0 = errs.diags();
    let mut out: Vec<(Name, Type)> = Vec::new();
    let mut i: usize = 0;
    proof {
        assert(fs@.subrange(0, 0) =~= Seq::<(Ident, Expr)>::empty());
        assert(errs.diags() =~= d0 + Seq::<Diag>::empty());
    }
    while i < fs.len()
        invariant
            i <= fs@.len(),
            m == tc.model(),
            fields_view(out@) == infer_fields(fs@.subrange(0, i as int), m).0,
            errs.diags() == d0 + infer_fields(fs@.subrange(0, i as int), m).1,
        decreases fs@.len() - i,
    {
        proof {
            assert(decreases_to!(*fs => fs[i as int]));
            assert(decreases_to!(fs[i as int] => fs[i as int].1));
            let sub = fs@.subrange(0, i + 1);
            assert(sub.subrange(0, i as int) =~= fs@.subrange(0, i as int));
        }
        let f = &fs[i];
        let t = infer_in(&f.1, tc, errs);
        put_type_field(&mut out, f.0.name.clone(), t);
        proof {
            assert(errs.diags() =~= d0 + infer_fields(fs@.subrange(0, i + 1), m).1);
        }
        i = i + 1;
    }
    proof {
        assert(fs@.subrange(0, fs@.len() as int) =~= fs@);
    }
    out
}

fn check_type_list_in(es: &Vec<Expr>, tc: &TypeContext, errs: &mut ErrorContext)
    ensures
        final(errs).diags() == old(errs).diags() + check_type_list(es@, tc.model()),
    decreases es, 0nat,
{
    let ghost m = tc.model();
    let ghost d0 = errs.diags();
    let mut i: usize = 0;
    proof {
        assert(es@.subrange(0, 0) =~= Seq::<Expr>::empty());
        assert(errs.diags() =~= d0 + Seq::<Diag>::empty());
    }
    while i < es.len()
        invariant
            i <= es@.len(),
            m == tc.model(),
            errs.diags() == d0 + check_type_list(es@.subrange(0, i as int), m),
        decreases es@.len() - i,
    {
        proof {
            assert(decreases_to!(*es => es[i as int]));
            let sub = es@.subrange(0, i + 1);
            assert(sub.subrange(0, i as int) =~= es@.subrange(0, i as int));
        }
        let t = infer_in(&es[i], tc, errs);
        must_be_type_in(t, es[i].span, errs);
        proof {
            assert(errs.diags() =~= d0 + check_type_list(es@.subrange(0, i + 1), m));
        }
        i = i + 1;
    }
    proof {
        assert(es@.subrange(0, es@.len() as int) =~= es@);
    }
}

fn check_type_fields_in(fs: &Vec<(Ident, Expr)>, tc: &TypeContext, errs: &mut ErrorContext)
    ensures
        final(errs).diags() == old(errs).diags() + check_type_fields(fs@, tc.model()),
    decreases fs, 0nat,
{
    let ghost m = tc.model();
    let ghost d0 = errs.diags();
    let mut i: usize = 0;
    proof {
        assert(fs@.subrange(0, 0) =~= Seq::<(Ident, Expr)>::empty());
        assert(errs.diags() =~= d0 + Seq::<Diag>::empty());
    }
    while i < fs.len()
        invariant
            i <= fs@.len(),
            m == tc.model(),
            errs.diags() == d0 + check_type_fields(fs@.subrange(0, i as int), m),
        decreases fs@.len() - i,
    {
        proof {
            assert(decreases_to!(*fs => fs[i as int]));
            assert(decreases_to!(fs[i as int] => fs[i as int].1));
            let sub = fs@.subrange(0, i + 1);
            assert(sub.subrange(0, i as int) =~= fs@.subrange(0, i as int));
        }
        let f = &fs[i];
        let t = infer_in(&f.1, tc, errs);
        must_be_type_in(t, f.1.span, errs);
        proof {
            assert(errs.diags() =~= d0 + check_type_fields(fs@.subrange(0, i + 1), m));
        }
        i = i + 1;
    }
    proof {
        assert(fs@.subrange(0, fs@.len() as int) =~= fs@);
    }
}

fn let_binding_in(e: &Expr, tc: &TypeContext, errs: &mut ErrorContext) -> (r: (Type, Value))
    ensures
        r.0@ == let_binding(*e, tc.model()).0,
        r.1@ == let_binding(*e, tc.model()).1,
        final(errs).diags() == old(errs).diags() + let_binding(*e, tc.model()).2,
    decreases e, 1nat,
{
    let before = errs.count();
    let t = infer_in(e, tc, errs);
    if errs.count() > before {
        return (t, Value::Type(Type::Error));
    }
    assert(infer(*e, tc.model()).1 =~= Seq::<Diag>::empty());
    match evaluate(e, &tc.as_value_context()) {
        Ok(v) => (t, v),
        Err(_) => (t, Value::Type(Type::Error)),
    }
}

fn infer_stmts_in(ss: &Vec<Stmt>, tc: &TypeContext, errs: &mut ErrorContext) -> (r: TypeContext)
    ensures
        r.model() == infer_stmts(ss@, tc.model()).0,
        final(errs).diags() == old(errs).diags() + infer_stmts(ss@, tc.model()).1,
    decreases ss, 0nat,
{
    let ghost m = tc.model();
    let ghost d0 = errs.diags();
    let mut c = TypeContext {
        types: tc.types.clone(),
        values: tc.values.clone(),
        level: tc.level,
    };
    let mut i: usize = 0;
    proof {
        assert(ss@.subrange(0, 0) =~= Seq::<Stmt>::empty());
        assert(errs.diags() =~= d0 + Seq::<Diag>::empty());
    }
    while i < ss.len()
        invariant
            i <= ss@.len(),
            m == tc.model(),
            c.model() == infer_stmts(ss@.subrange(0, i as int), m).0,
            errs.diags() == d0 + infer_stmts(ss@.subrange(0, i as int), m).1,
        decreases ss@.len() - i,
    {
        proof {
            assert(decreases_to!(*ss => ss[i as int]));
            let sub = ss@.subrange(0, i + 1);
            assert(sub.subrange(0, i as int) =~= ss@.subrange(0, i as int));
        }
        match &ss[i].kind {
            StmtKind::Let(id, e) => {
                proof {
                    assert(decreases_to!(ss[i as int] => ss[i as int].kind));
                }
                let (t, v) = let_binding_in(e, &c, errs);
                c = c.bind(&id.name, t, v);
            },
        }
        proof {
            assert(errs.diags() =~= d0 + infer_stmts(ss@.subrange(0, i + 1), m).1);
        }
        i = i + 1;
    }
    proof {
        assert(ss@.subrange(0, ss@.len() as int) =~= ss@);
    }
    c
}

/// The type of `expr` under `ctx`, or every diagnostic found.
pub fn infer_type(expr: &Expr, ctx: &TypeContext) -> (r: Result<Type, Vec<TypeError>>)
    ensures
        infer(*expr, ctx.model()).1.len() == 0 ==> r is Ok && r->Ok_0@ == infer(
            *expr,
            ctx.model(),
        ).0,
        infer(*expr, ctx.model()).1.len() > 0 ==> r is Err && diags_view(r->Err_0@) == infer(
            *expr,
            ctx.model(),
        ).1,
{
    let mut errs = ErrorContext::new();
    let t = infer_in(expr, ctx, &mut errs);
    proof {
        assert(errs.diags() =~= infer(*expr, ctx.model()).1);
    }
    collect_type_errors(t, errs)
}

/// The context after checking one statement, or every diagnostic found.
pub fn typeck_stmt(stmt: &Stmt, ctx: &TypeContext) -> (r: Result<TypeContext, Vec<TypeError>>)
    ensures
        infer_stmts(seq![*stmt], ctx.model()).1.len() == 0 ==> r is Ok && r->Ok_0.model()
            == infer_stmts(seq![*stmt], ctx.model()).0,
        infer_stmts(seq![*stmt], ctx.model()).1.len() > 0 ==> r is Err && diags_view(r->Err_0@)
            == infer_stmts(seq![*stmt], ctx.model()).1,
{
    let mut errs = ErrorContext::new();
    let c = match &stmt.kind {
        StmtKind::Let(id, e) => {
            let (t, v) = let_binding_in(e, ctx, &mut errs);
            ctx.bind(&id.name, t, v)
        },
    };
    proof {
        let s = seq![*stmt];
        assert(s.subrange(0, 0) =~= Seq::<Stmt>::empty());
        assert(infer_stmts(s.subrange(0, 0), ctx.model()) == (ctx.model(), Seq::<Diag>::empty()));
        assert(s[s.len() - 1] == *stmt);
        assert(errs.diags() =~= infer_stmts(s, ctx.model()).1);
    }
    collect_type_errors(c, errs)
}


/// Parentheses do not change the type of an expression, nor its diagnostics.
pub proof fn law_paren_infer(e: Expr, span: Span, tc: TcM)
    ensures
        infer(Expr { kind: ExprKind::Parenthesized(Box::new(e)), span }, tc) == infer(e, tc),
{
}

/// Checking a pair of two variables that are both unbound reports both:
/// two diagnostics from one pass.
pub proof fn law_independent_errors_batch(e: Expr, tc: TcM)
    requires
        e.kind is Tuple,
        e.kind->Tuple_0@.len() == 2,
        e.kind->Tuple_0@[0].kind is Var,
        e.kind->Tuple_0@[1].kind is Var,
        lookup_in(tc.types, e.kind->Tuple_0@[0].kind->Var_0.name@) is None,
        lookup_in(tc.types, e.kind->Tuple_0@[1].kind->Var_0.name@) is None,
    ensures
        infer(e, tc).1 == undeclared(e.kind->Tuple_0@[0].kind->Var_0) + undeclared(
            e.kind->Tuple_0@[1].kind->Var_0,
        ),
{
    let es = e.kind->Tuple_0@;
    let d0 = undeclared(es[0].kind->Var_0);
    let d1 = undeclared(es[1].kind->Var_0);
    assert(infer(es[0], tc) == (TypeM::Error, d0));
    assert(infer(es[1], tc) == (TypeM::Error, d1));
    let p1 = es.subrange(0, 1);
    assert(p1.subrange(0, 0) =~= Seq::<Expr>::empty());
    assert(p1[0] == es[0]);
    assert(infer_list(p1.subrange(0, 0), tc).1 == Seq::<Diag>::empty());
    assert(infer_list(p1, tc).1 =~= d0);
    assert(es.subrange(0, 1) =~= p1);
    assert(infer_list(es, tc).1 =~= d0 + d1);
}

/// The one diagnostic for an unbound variable: it names the variable.
pub open spec fn undeclared(id: Ident) -> Seq<Diag> {
    diag(TypeErrorKindM::UndeclaredVariable, "Undeclared variable "@ + id.name@, id.span)
}

/// Under a context where `f` has type `Number -> String`, applying `f` to a
/// number checks as `String`, and applying it to a string reports that a
/// `Number` was expected where a `String` was found.
pub proof fn law_application_checks_argument(call: Expr, tc: TcM)
    requires
        call.kind is Call,
        call.kind->Call_0.kind is Var,
        lookup_in(tc.types, call.kind->Call_0.kind->Var_0.name@) == Some(
            TypeM::Func(Box::new(TypeM::Number), Box::new(TypeM::Str)),
        ),
    ensures
        call.kind->Call_1.kind is NumberLiteral ==> infer(call, tc) == (
            TypeM::Str,
            Seq::<Diag>::empty(),
        ),
        call.kind->Call_1.kind is StringLiteral ==> infer(call, tc) == (
            TypeM::Error,
            diag(
                TypeErrorKindM::Mismatch(TypeM::Number, TypeM::Str),
                "expected Number, found String"@,
                call.kind->Call_1.span,
            ),
        ),
{
    let a = *call.kind->Call_1;
    let f = *call.kind->Call_0;
    let ft = TypeM::Func(Box::new(TypeM::Number), Box::new(TypeM::Str));
    assert(infer(f, tc) == (ft, Seq::<Diag>::empty()));
    if a.kind is NumberLiteral {
        assert(infer(a, tc) == (TypeM::Number, Seq::<Diag>::empty()));
        assert(infer(call, tc).1 =~= Seq::<Diag>::empty());
    }
    if a.kind is StringLiteral {
        assert(infer(a, tc) == (TypeM::Str, Seq::<Diag>::empty()));
        assert(TypeM::Number != TypeM::Str);
        reveal_strlit("expected ");
        reveal_strlit("Number");
        reveal_strlit(", found ");
        reveal_strlit("String");
        reveal_strlit("expected Number, found String");
        assert(mismatch_text(TypeM::Number, TypeM::Str) =~= "expected Number, found String"@);
        assert(infer(call, tc).1 =~= diag(
            TypeErrorKindM::Mismatch(TypeM::Number, TypeM::Str),
            "expected Number, found String"@,
            a.span,
        ));
    }
}


/// An annotation that checks as a type and evaluates to the type `t` makes
/// `t` the parameter's type: the closure's type is a function from `t`.
pub proof fn law_annotation_gives_parameter_type(e: Expr, tc: TcM, t: TypeM)
    requires
        e.kind is Closure,
        e.kind->Closure_1 is Some,
        infer(*e.kind->Closure_1->Some_0, tc) == (TypeM::Type, Seq::<Diag>::empty()),
        eval(*e.kind->Closure_1->Some_0, tc.values, MAX_CALL_DEPTH as nat) == Ok::<
            ValueM,
            VmErrorM,
        >(ValueM::Type(t)),
    ensures
        infer(e, tc).0 == TypeM::Func(
            Box::new(t),
            Box::new(
                infer(
                    *e.kind->Closure_2,
                    tc_bind_param(tc, e.kind->Closure_0.name@, t),
                ).0,
            ),
        ),
{
    let a = *e.kind->Closure_1->Some_0;
    assert(annotation_type(a, tc) == (t, Seq::<Diag>::empty()));
}

} // verus!

verus! {

/// The type inferred for a record literal has no two fields of one name.
pub proof fn law_record_literal_type_unique(fs: Seq<(Ident, Expr)>, tc: TcM)
    ensures
        unique_names(infer_fields(fs, tc).0),
    decreases fs.len(),
{
    if fs.len() > 0 {
        let t = fs.subrange(0, fs.len() - 1);
        law_record_literal_type_unique(t, tc);
        lemma_put_field_unique(
            infer_fields(t, tc).0,
            fs[fs.len() - 1].0.name@,
            infer(fs[fs.len() - 1].1, tc).0,
        );
    }
}

} // verus!
