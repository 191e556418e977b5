//! The evaluator.
use crate::ast::{Expr, ExprKind, Ident, Name, Span, Stmt, StmtKind};
use crate::builtin::apply_builtin;
use crate::context::{lemma_put_field_unique, lookup_in, put_field, unique_names};
use crate::types::{put_type_field, Type, TypeM, lemma_types_view, types_view, fields_view};
use crate::render::{value_message, value_text};
use crate::value::{
    put_value_field,
    Value, ValueContext, ValueM, element_of, field_of, lemma_values_view, outcome, value_fields_view,
    values_view,
};
use std::rc::Rc;
use vstd::prelude::*;

verus! {

/// Why evaluation stopped.
#[derive(Clone, Copy, Debug, PartialEq, Eq, Structural)]
pub enum VmErrorKind {
    /// A variable that no binding in scope names.
    UnknownVariable,
    /// Field access on a value that is not a record.
    NotARecord,
    /// Field access naming a field that the record lacks.
    MissingField,
    /// Element access on a value that is not a tuple.
    NotATuple,
    /// Element access past the end of a tuple.
    TupleTooShort,
    /// Application of a value that is neither a closure nor a primitive.
    NotAFunction,
    /// A type was required and another value was found.
    NotAType,
    /// Closure applications nested deeper than the evaluator follows.
    TooDeep,
}

/// A failure of evaluation: its kind and a message for people.
#[derive(Debug)]
pub struct VmError {
    pub kind: VmErrorKind,
    pub message: String,
}

/// What a failure of evaluation means: its kind and its message.
pub struct VmErrorM {
    pub kind: VmErrorKind,
    pub message: Seq<char>,
}

pub open spec fn failure(kind: VmErrorKind, message: Seq<char>) -> VmErrorM {
    VmErrorM { kind, message }
}

impl View for VmError {
    type V = VmErrorM;

    open spec fn view(&self) -> VmErrorM {
        VmErrorM { kind: self.kind, message: self.message@ }
    }
}

impl VmError {
    pub fn new(kind: VmErrorKind, message: String) -> (r: VmError)
        ensures
            r.kind == kind,
            r.message@ == message@,
    {
        VmError { kind, message }
    }
}

/// `prefix` followed by a name.
pub fn text_with_name(prefix: &str, name: &Name) -> (r: String)
    ensures
        r@ == prefix@ + name@,
{
    let mut s = String::from_str(prefix);
    s.append(name.as_str());
    s
}


/// The deepest nesting of closure applications that evaluation follows;
/// past it evaluation stops with `TooDeep`. A limit, not a meaning: a result
/// reached within it is the result under any larger limit.
pub const MAX_CALL_DEPTH: u64 = 1000;

/// Bindings of names to value models, oldest first.
pub type Env = Seq<(Seq<char>, ValueM)>;

/// A tuple of values: none is nil, one is that value itself.
pub open spec fn tuple_of(vs: Seq<ValueM>) -> ValueM {
    if vs.len() == 0 {
        ValueM::Nil
    } else if vs.len() == 1 {
        vs[0]
    } else {
        ValueM::Tuple(vs)
    }
}

/// A tuple of types: none is `Nil`, one is that type itself.
pub open spec fn tuple_type_of(ts: Seq<TypeM>) -> TypeM {
    if ts.len() == 0 {
        TypeM::Nil
    } else if ts.len() == 1 {
        ts[0]
    } else {
        TypeM::Tuple(ts)
    }
}

/// What `e` evaluates to under `env`, following at most `fuel` nested
/// closure applications.
pub open spec fn eval(e: Expr, env: Env, fuel: nat) -> Result<ValueM, VmErrorM>
    decreases fuel, e,
{
    match e.kind {
        ExprKind::Nil => Ok(ValueM::Nil),
        ExprKind::NilType => Ok(ValueM::Type(TypeM::Nil)),
        ExprKind::RecordValue(fs) => match eval_fields(fs@, env, fuel) {
            Ok(vs) => Ok(ValueM::Record(vs)),
            Err(k) => Err(k),
        },
        ExprKind::RecordType(fs) => match eval_type_fields(fs@, env, fuel) {
            Ok(ts) => Ok(ValueM::Type(TypeM::Record(ts))),
            Err(k) => Err(k),
        },
        ExprKind::RecordFieldAccess(b, id) => match eval(*b, env, fuel) {
            Ok(v) => field_of(v, id.name@),
            Err(k) => Err(k),
        },
        ExprKind::Tuple(es) => match eval_list(es@, env, fuel) {
            Ok(vs) => Ok(tuple_of(vs)),
            Err(k) => Err(k),
        },
        ExprKind::TupleType(es) => match eval_type_list(es@, env, fuel) {
            Ok(ts) => Ok(ValueM::Type(tuple_type_of(ts))),
            Err(k) => Err(k),
        },
        ExprKind::TupleFieldAccess(b, i) => match eval(*b, env, fuel) {
            Ok(v) => element_of(v, i as int),
            Err(k) => Err(k),
        },
        ExprKind::Block(ss, tail) => match eval_stmts(ss@, env, fuel) {
            Ok(env2) => match tail {
                Some(t) => eval(*t, env2, fuel),
                None => Ok(ValueM::Nil),
            },
            Err(k) => Err(k),
        },
        ExprKind::Var(id) => match lookup_in(env, id.name@) {
            Some(v) => Ok(v),
            None => Err(failure(VmErrorKind::UnknownVariable, "Unknown variable "@ + id.name@)),
        },
        ExprKind::Closure(id, _, body) => Ok(ValueM::Closure(id.name@, *body, env)),
        ExprKind::Call(f, a) => match eval(*f, env, fuel) {
            Err(k) => Err(k),
            Ok(fv) => match eval(*a, env, fuel) {
                Err(k) => Err(k),
                Ok(av) => match fv {
                    ValueM::Closure(p, body, captured) => if fuel == 0 {
                        Err(failure(VmErrorKind::TooDeep, "closure applications nested too deeply"@))
                    } else {
                        eval(body, captured.push((p, av)), (fuel - 1) as nat)
                    },
                    ValueM::Builtin(b) => apply_builtin(b, av),
                    _ => Err(
                        failure(
                            VmErrorKind::NotAFunction,
                            "expected a function, found "@ + value_text(fv),
                        ),
                    ),
                },
            },
        },
        ExprKind::NumberLiteral(n) => Ok(ValueM::Number(n.0)),
        ExprKind::StringLiteral(s) => Ok(ValueM::Str(s@)),
        ExprKind::Parenthesized(x) => eval(*x, env, fuel),
    }
}

/// Evaluates `e` and requires a type value.
pub open spec fn eval_type(e: Expr, env: Env, fuel: nat) -> Result<TypeM, VmErrorM> {
    match eval(e, env, fuel) {
        Ok(ValueM::Type(t)) => Ok(t),
        Ok(v) => Err(failure(VmErrorKind::NotAType, "expected a type, found "@ + value_text(v))),
        Err(k) => Err(k),
    }
}

/// Evaluates expressions left to right, stopping at the first failure.
pub open spec fn eval_list(es: Seq<Expr>, env: Env, fuel: nat) -> Result<
    Seq<ValueM>,
    VmErrorM,
>
    decreases fuel, es,
{
    if es.len() == 0 {
        Ok(Seq::empty())
    } else {
        match eval_list(es.subrange(0, es.len() - 1), env, fuel) {
            Err(k) => Err(k),
            Ok(vs) => match eval(es[es.len() - 1], env, fuel) {
                Err(k) => Err(k),
                Ok(v) => Ok(vs.push(v)),
            },
        }
    }
}

/// Evaluates type expressions left to right, stopping at the first failure
/// or the first value that is not a type.
pub open spec fn eval_type_list(es: Seq<Expr>, env: Env, fuel: nat) -> Result<
    Seq<TypeM>,
    VmErrorM,
>
    decreases fuel, es,
{
    if es.len() == 0 {
        Ok(Seq::empty())
    } else {
        match eval_type_list(es.subrange(0, es.len() - 1), env, fuel) {
            Err(k) => Err(k),
            Ok(ts) => match eval(es[es.len() - 1], env, fuel) {
                Err(k) => Err(k),
                Ok(ValueM::Type(t)) => Ok(ts.push(t)),
                Ok(v) => Err(failure(VmErrorKind::NotAType, "expected a type, found "@ + value_text(v))),
            },
        }
    }
}

/// Evaluates record fields left to right, stopping at the first failure.
pub open spec fn eval_fields(fs: Seq<(Ident, Expr)>, env: Env, fuel: nat) -> Result<
    Seq<(Seq<char>, ValueM)>,
    VmErrorM,
>
    decreases fuel, fs,
{
    if fs.len() == 0 {
        Ok(Seq::empty())
    } else {
        match eval_fields(fs.subrange(0, fs.len() - 1), env, fuel) {
            Err(k) => Err(k),
            Ok(vs) => match eval(fs[fs.len() - 1].1, env, fuel) {
                Err(k) => Err(k),
                Ok(v) => Ok(put_field(vs, fs[fs.len() - 1].0.name@, v)),
            },
        }
    }
}

/// Evaluates record-type fields left to right, stopping at the first failure
/// or the first value that is not a type.
pub open spec fn eval_type_fields(fs: Seq<(Ident, Expr)>, env: Env, fuel: nat) -> Result<
    Seq<(Seq<char>, TypeM)>,
    VmErrorM,
>
    decreases fuel, fs,
{
    if fs.len() == 0 {
        Ok(Seq::empty())
    } else {
        match eval_type_fields(fs.subrange(0, fs.len() - 1), env, fuel) {
            Err(k) => Err(k),
            Ok(ts) => match eval(fs[fs.len() - 1].1, env, fuel) {
                Err(k) => Err(k),
                Ok(ValueM::Type(t)) => Ok(put_field(ts, fs[fs.len() - 1].0.name@, t)),
                Ok(v) => Err(failure(VmErrorKind::NotAType, "expected a type, found "@ + value_text(v))),
            },
        }
    }
}

/// The bindings after running statements left to right.
pub open spec fn eval_stmts(ss: Seq<Stmt>, env: Env, fuel: nat) -> Result<Env, VmErrorM>
    decreases fuel, ss,
{
    if ss.len() == 0 {
        Ok(env)
    } else {
        match eval_stmts(ss.subrange(0, ss.len() - 1), env, fuel) {
            Err(k) => Err(k),
            Ok(env2) => match ss[ss.len() - 1].kind {
                StmtKind::Let(id, e) => match eval(*e, env2, fuel) {
                    Err(k) => Err(k),
                    Ok(v) => Ok(env2.push((id.name@, v))),
                },
            },
        }
    }
}


/// Running one statement.
pub open spec fn eval_stmt(s: Stmt, env: Env, fuel: nat) -> Result<Env, VmErrorM> {
    match s.kind {
        StmtKind::Let(id, e) => match eval(*e, env, fuel) {
            Err(k) => Err(k),
            Ok(v) => Ok(env.push((id.name@, v))),
        },
    }
}

proof fn lemma_eval_list_stuck(es: Seq<Expr>, env: Env, fuel: nat, i: int, j: int)
    requires
        0 <= i <= j <= es.len(),
        eval_list(es.subrange(0, i), env, fuel) is Err,
    ensures
        eval_list(es.subrange(0, j), env, fuel) == eval_list(es.subrange(0, i), env, fuel),
    decreases j - i,
{
    if j > i {
        lemma_eval_list_stuck(es, env, fuel, i, j - 1);
        assert(es.subrange(0, j).subrange(0, j - 1) =~= es.subrange(0, j - 1));
    }
}

proof fn lemma_eval_type_list_stuck(es: Seq<Expr>, env: Env, fuel: nat, i: int, j: int)
    requires
        0 <= i <= j <= es.len(),
        eval_type_list(es.subrange(0, i), env, fuel) is Err,
    ensures
        eval_type_list(es.subrange(0, j), env, fuel) == eval_type_list(
            es.subrange(0, i),
            env,
            fuel,
        ),
    decreases j - i,
{
    if j > i {
        lemma_eval_type_list_stuck(es, env, fuel, i, j - 1);
        assert(es.subrange(0, j).subrange(0, j - 1) =~= es.subrange(0, j - 1));
    }
}

proof fn lemma_eval_fields_stuck(fs: Seq<(Ident, Expr)>, env: Env, fuel: nat, i: int, j: int)
    requires
        0 <= i <= j <= fs.len(),
        eval_fields(fs.subrange(0, i), env, fuel) is Err,
    ensures
        eval_fields(fs.subrange(0, j), env, fuel) == eval_fields(fs.subrange(0, i), env, fuel),
    decreases j - i,
{
    if j > i {
        lemma_eval_fields_stuck(fs, env, fuel, i, j - 1);
        assert(fs.subrange(0, j).subrange(0, j - 1) =~= fs.subrange(0, j - 1));
    }
}

proof fn lemma_eval_type_fields_stuck(
    fs: Seq<(Ident, Expr)>,
    env: Env,
    fuel: nat,
    i: int,
    j: int,
)
    requires
        0 <= i <= j <= fs.len(),
        eval_type_fields(fs.subrange(0, i), env, fuel) is Err,
    ensures
        eval_type_fields(fs.subrange(0, j), env, fuel) == eval_type_fields(
            fs.subrange(0, i),
            env,
            fuel,
        ),
    decreases j - i,
{
    if j > i {
        lemma_eval_type_fields_stuck(fs, env, fuel, i, j - 1);
        assert(fs.subrange(0, j).subrange(0, j - 1) =~= fs.subrange(0, j - 1));
    }
}

proof fn lemma_eval_stmts_stuck(ss: Seq<Stmt>, env: Env, fuel: nat, i: int, j: int)
    requires
        0 <= i <= j <= ss.len(),
        eval_stmts(ss.subrange(0, i), env, fuel) is Err,
    ensures
        eval_stmts(ss.subrange(0, j), env, fuel) == eval_stmts(ss.subrange(0, i), env, fuel),
    decreases j - i,
{
    if j > i {
        lemma_eval_stmts_stuck(ss, env, fuel, i, j - 1);
        assert(ss.subrange(0, j).subrange(0, j - 1) =~= ss.subrange(0, j - 1));
    }
}

fn eval_list_in(es: &Vec<Expr>, ctx: &ValueContext, fuel: u64) -> (r: Result<
    Vec<Value>,
    VmError,
>)
    ensures
        match r {
            Ok(vs) => eval_list(es@, ctx.env(), fuel as nat) == Ok::<Seq<ValueM>, VmErrorM>(
                values_view(vs@),
            ),
            Err(e) => eval_list(es@, ctx.env(), fuel as nat) == Err::<Seq<ValueM>, VmErrorM>(e@),
        },
    decreases fuel, es,
{
    let ghost env = ctx.env();
    let mut out: Vec<Value> = Vec::new();
    let mut i: usize = 0;
    proof {
        assert(es@.subrange(0, 0) =~= Seq::<Expr>::empty());
    }
    while i < es.len()
        invariant
            i <= es@.len(),
            env == ctx.env(),
            eval_list(es@.subrange(0, i as int), env, fuel as nat) == Ok::<
                Seq<ValueM>,
                VmErrorM,
            >(values_view(out@)),
        decreases es@.len() - i,
    {
        proof {
            assert(decreases_to!(*es => es[i as int]));
            let sub = es@.subrange(0, i + 1);
            assert(sub.subrange(0, i as int) =~= es@.subrange(0, i as int));
        }
        match evaluate_in(&es[i], ctx, fuel) {
            Err(e) => {
                proof {
                    lemma_eval_list_stuck(es@, env, fuel as nat, i + 1, es@.len() as int);
                    assert(es@.subrange(0, es@.len() as int) =~= es@);
                }
                return Err(e);
            },
            Ok(v) => {
                let ghost old_out = out@;
                out.push(v);
                proof {
                    assert(out@.subrange(0, out@.len() - 1) =~= old_out);
                }
            },
        }
        i = i + 1;
    }
    proof {
        assert(es@.subrange(0, es@.len() as int) =~= es@);
    }
    Ok(out)
}

fn eval_type_list_in(es: &Vec<Expr>, ctx: &ValueContext, fuel: u64) -> (r: Result<
    Vec<Type>,
    VmError,
>)
    ensures
        match r {
            Ok(ts) => eval_type_list(es@, ctx.env(), fuel as nat) == Ok::<
                Seq<TypeM>,
                VmErrorM,
            >(types_view(ts@)),
            Err(e) => eval_type_list(es@, ctx.env(), fuel as nat) == Err::<
                Seq<TypeM>,
                VmErrorM,
            >(e@),
        },
    decreases fuel, es,
{
    let ghost env = ctx.env();
    let mut out: Vec<Type> = Vec::new();
    let mut i: usize = 0;
    proof {
        assert(es@.subrange(0, 0) =~= Seq::<Expr>::empty());
    }
    while i < es.len()
        invariant
            i <= es@.len(),
            env == ctx.env(),
            eval_type_list(es@.subrange(0, i as int), env, fuel as nat) == Ok::<
                Seq<TypeM>,
                VmErrorM,
            >(types_view(out@)),
        decreases es@.len() - i,
    {
        proof {
            assert(decreases_to!(*es => es[i as int]));
            let sub = es@.subrange(0, i + 1);
            assert(sub.subrange(0, i as int) =~= es@.subrange(0, i as int));
        }
        let r = evaluate_in(&es[i], ctx, fuel);
        let t = match r {
            Err(e) => {
                proof {
                    lemma_eval_type_list_stuck(es@, env, fuel as nat, i + 1, es@.len() as int);
                    assert(es@.subrange(0, es@.len() as int) =~= es@);
                }
                return Err(e);
            },
            Ok(Value::Type(t)) => t,
            Ok(v) => {
                proof {
                    lemma_eval_type_list_stuck(es@, env, fuel as nat, i + 1, es@.len() as int);
                    assert(es@.subrange(0, es@.len() as int) =~= es@);
                }
                return Err(
                    VmError::new(VmErrorKind::NotAType, value_message("expected a type, found ", &v)),
                );
            },
        };
        let ghost old_out = out@;
        out.push(t);
        proof {
            assert(out@.subrange(0, out@.len() - 1) =~= old_out);
        }
        i = i + 1;
    }
    proof {
        assert(es@.subrange(0, es@.len() as int) =~= es@);
    }
    Ok(out)
}

fn eval_fields_in(fs: &Vec<(Ident, Expr)>, ctx: &ValueContext, fuel: u64) -> (r: Result<
    Vec<(Name, Value)>,
    VmError,
>)
    ensures
        match r {
            Ok(vs) => eval_fields(fs@, ctx.env(), fuel as nat) == Ok::<
                Seq<(Seq<char>, ValueM)>,
                VmErrorM,
            >(value_fields_view(vs@)),
            Err(e) => eval_fields(fs@, ctx.env(), fuel as nat) == Err::<
                Seq<(Seq<char>, ValueM)>,
                VmErrorM,
            >(e@),
        },
    decreases fuel, fs,
{
    let ghost env = ctx.env();
    let mut out: Vec<(Name, Value)> = Vec::new();
    let mut i: usize = 0;
    proof {
        assert(fs@.subrange(0, 0) =~= Seq::<(Ident, Expr)>::empty());
    }
    while i < fs.len()
        invariant
            i <= fs@.len(),
            env == ctx.env(),
            eval_fields(fs@.subrange(0, i as int), env, fuel as nat) == Ok::<
                Seq<(Seq<char>, ValueM)>,
                VmErrorM,
            >(value_fields_view(out@)),
        decreases fs@.len() - i,
    {
        proof {
            assert(decreases_to!(*fs => fs[i as int]));
            assert(decreases_to!(fs[i as int] => fs[i as int].1));
            let sub = fs@.subrange(0, i + 1);
            assert(sub.subrange(0, i as int) =~= fs@.subrange(0, i as int));
        }
        let f = &fs[i];
        match evaluate_in(&f.1, ctx, fuel) {
            Err(e) => {
                proof {
                    lemma_eval_fields_stuck(fs@, env, fuel as nat, i + 1, fs@.len() as int);
                    assert(fs@.subrange(0, fs@.len() as int) =~= fs@);
                }
                return Err(e);
            },
            Ok(v) => {
                put_value_field(&mut out, f.0.name.clone(), v);
            },
        }
        i = i + 1;
    }
    proof {
        assert(fs@.subrange(0, fs@.len() as int) =~= fs@);
    }
    Ok(out)
}

fn eval_type_fields_in(fs: &Vec<(Ident, Expr)>, ctx: &ValueContext, fuel: u64) -> (r: Result<
    Vec<(Name, Type)>,
    VmError,
>)
    ensures
        match r {
            Ok(ts) => eval_type_fields(fs@, ctx.env(), fuel as nat) == Ok::<
                Seq<(Seq<char>, TypeM)>,
                VmErrorM,
            >(fields_view(ts@)),
            Err(e) => eval_type_fields(fs@, ctx.env(), fuel as nat) == Err::<
                Seq<(Seq<char>, TypeM)>,
                VmErrorM,
            >(e@),
        },
    decreases fuel, fs,
{
    let ghost env = ctx.env();
    let mut out: Vec<(Name, Type)> = Vec::new();
    let mut i: usize = 0;
    proof {
        assert(fs@.subrange(0, 0) =~= Seq::<(Ident, Expr)>::empty());
    }
    while i < fs.len()
        invariant
            i <= fs@.len(),
            env == ctx.env(),
            eval_type_fields(fs@.subrange(0, i as int), env, fuel as nat) == Ok::<
                Seq<(Seq<char>, TypeM)>,
                VmErrorM,
            >(fields_view(out@)),
        decreases fs@.len() - i,
    {
        proof {
            assert(decreases_to!(*fs => fs[i as int]));
            assert(decreases_to!(fs[i as int] => fs[i as int].1));
            let sub = fs@.subrange(0, i + 1);
            assert(sub.subrange(0, i as int) =~= fs@.subrange(0, i as int));
        }
        let f = &fs[i];
        let r = evaluate_in(&f.1, ctx, fuel);
        let t = match r {
            Err(e) => {
                proof {
                    lemma_eval_type_fields_stuck(fs@, env, fuel as nat, i + 1, fs@.len() as int);
                    assert(fs@.subrange(0, fs@.len() as int) =~= fs@);
                }
                return Err(e);
            },
            Ok(Value::Type(t)) => t,
            Ok(v) => {
                proof {
                    lemma_eval_type_fields_stuck(fs@, env, fuel as nat, i + 1, fs@.len() as int);
                    assert(fs@.subrange(0, fs@.len() as int) =~= fs@);
                }
                return Err(
                    VmError::new(VmErrorKind::NotAType, value_message("expected a type, found ", &v)),
                );
            },
        };
        put_type_field(&mut out, f.0.name.clone(), t);
        i = i + 1;
    }
    proof {
        assert(fs@.subrange(0, fs@.len() as int) =~= fs@);
    }
    Ok(out)
}

fn eval_stmts_in(ss: &Vec<Stmt>, ctx: &ValueContext, fuel: u64) -> (r: Result<
    ValueContext,
    VmError,
>)
    ensures
        match r {
            Ok(c) => eval_stmts(ss@, ctx.env(), fuel as nat) == Ok::<Env, VmErrorM>(c.env()),
            Err(e) => eval_stmts(ss@, ctx.env(), fuel as nat) == Err::<Env, VmErrorM>(e@),
        },
    decreases fuel, ss,
{
    let ghost env = ctx.env();
    let mut c = ctx.clone();
    let mut i: usize = 0;
    proof {
        assert(ss@.subrange(0, 0) =~= Seq::<Stmt>::empty());
    }
    while i < ss.len()
        invariant
            i <= ss@.len(),
            env == ctx.env(),
            eval_stmts(ss@.subrange(0, i as int), env, fuel as nat) == Ok::<Env, VmErrorM>(
                c.env(),
            ),
        decreases ss@.len() - i,
    {
        proof {
            assert(decreases_to!(*ss => ss[i as int]));
            let sub = ss@.subrange(0, i + 1);
            assert(sub.subrange(0, i as int) =~= ss@.subrange(0, i as int));
        }
        match &ss[i].kind {
            StmtKind::Let(id, e) => {
                proof {
                    assert(decreases_to!(ss[i as int] => ss[i as int].kind));
                }
                match evaluate_in(e, &c, fuel) {
                    Err(err) => {
                        proof {
                            lemma_eval_stmts_stuck(ss@, env, fuel as nat, i + 1, ss@.len() as int);
                            assert(ss@.subrange(0, ss@.len() as int) =~= ss@);
                        }
                        return Err(err);
                    },
                    Ok(v) => {
                        c = c.bind(id.name.clone(), v);
                    },
                }
            },
        }
        i = i + 1;
    }
    proof {
        assert(ss@.subrange(0, ss@.len() as int) =~= ss@);
    }
    Ok(c)
}

/// Evaluates `expr` under `ctx`, following at most `fuel` nested closure
/// applications.
#[verifier::spinoff_prover]
#[verifier::rlimit(60)]
pub fn evaluate_in(expr: &Expr, ctx: &ValueContext, fuel: u64) -> (r: Result<Value, VmError>)
    ensures
        outcome(r) == eval(*expr, ctx.env(), fuel as nat),
    decreases fuel, expr,
{
    match &expr.kind {
        ExprKind::Nil => Ok(Value::Nil),
        ExprKind::NilType => Ok(Value::Type(Type::Nil)),
        ExprKind::RecordValue(fs) => match eval_fields_in(fs, ctx, fuel) {
            Ok(vs) => Ok(Value::Record(vs)),
            Err(e) => Err(e),
        },
        ExprKind::RecordType(fs) => match eval_type_fields_in(fs, ctx, fuel) {
            Ok(ts) => Ok(Value::Type(Type::Record(ts))),
            Err(e) => Err(e),
        },
        ExprKind::RecordFieldAccess(b, id) => match evaluate_in(b, ctx, fuel) {
            Ok(v) => v.access_record_field(&id.name),
            Err(e) => Err(e),
        },
        ExprKind::Tuple(es) => match eval_list_in(es, ctx, fuel) {
            Ok(vs) => {
                proof {
                    lemma_values_view(vs@);
                }
                if vs.len() == 0 {
                    Ok(Value::Nil)
                } else if vs.len() == 1 {
                    let mut vs = vs;
                    Ok(vs.pop().unwrap())
                } else {
                    Ok(Value::Tuple(vs))
                }
            },
            Err(e) => Err(e),
        },
        ExprKind::TupleType(es) => match eval_type_list_in(es, ctx, fuel) {
            Ok(ts) => {
                proof {
                    lemma_types_view(ts@);
                }
                if ts.len() == 0 {
                    Ok(Value::Type(Type::Nil))
                } else if ts.len() == 1 {
                    let mut ts = ts;
                    Ok(Value::Type(ts.pop().unwrap()))
                } else {
                    Ok(Value::Type(Type::Tuple(ts)))
                }
            },
            Err(e) => Err(e),
        },
        ExprKind::TupleFieldAccess(b, i) => match evaluate_in(b, ctx, fuel) {
            Ok(v) => v.access_tuple_field(*i),
            Err(e) => Err(e),
        },
        ExprKind::Block(ss, tail) => match eval_stmts_in(ss, ctx, fuel) {
            Ok(c) => match tail {
                Some(t) => evaluate_in(t, &c, fuel),
                None => Ok(Value::Nil),
            },
            Err(e) => Err(e),
        },
        ExprKind::Var(id) => match ctx.lookup_value(&id.name) {
            Some(v) => Ok(v),
            None => Err(
                VmError::new(
                    VmErrorKind::UnknownVariable,
                    text_with_name("Unknown variable ", &id.name),
                ),
            ),
        },
        ExprKind::Closure(id, _, body) => Ok(
            Value::Closure(id.name.clone(), Rc::clone(body), ctx.clone()),
        ),
        ExprKind::Call(f, a) => {
            let fv = match evaluate_in(f, ctx, fuel) {
                Ok(v) => v,
                Err(e) => return Err(e),
            };
            let av = match evaluate_in(a, ctx, fuel) {
                Ok(v) => v,
                Err(e) => return Err(e),
            };
            match fv {
                Value::Closure(p, body, captured) => {
                    if fuel == 0 {
                        Err(
                            VmError::new(
                                VmErrorKind::TooDeep,
                                String::from_str("closure applications nested too deeply"),
                            ),
                        )
                    } else {
                        let inner = captured.bind(p, av);
                        evaluate_in(&*body, &inner, fuel - 1)
                    }
                },
                Value::BuiltinFunc(b) => b.call(&av),
                other => Err(
                    VmError::new(
                        VmErrorKind::NotAFunction,
                        value_message("expected a function, found ", &other),
                    ),
                ),
            }
        },
        ExprKind::NumberLiteral(n) => Ok(Value::Number(*n)),
        ExprKind::StringLiteral(s) => Ok(Value::String_(s.clone())),
        ExprKind::Parenthesized(x) => evaluate_in(x, ctx, fuel),
    }
}

/// Evaluates `expr` under `ctx`.
pub fn evaluate(expr: &Expr, ctx: &ValueContext) -> (r: Result<Value, VmError>)
    ensures
        outcome(r) == eval(*expr, ctx.env(), MAX_CALL_DEPTH as nat),
{
    evaluate_in(expr, ctx, MAX_CALL_DEPTH)
}

/// Evaluates `expr` under `ctx` and requires a type.
pub fn evaluate_type(expr: &Expr, ctx: &ValueContext) -> (r: Result<Type, VmError>)
    ensures
        match r {
            Ok(t) => eval_type(*expr, ctx.env(), MAX_CALL_DEPTH as nat) == Ok::<
                TypeM,
                VmErrorM,
            >(t@),
            Err(e) => eval_type(*expr, ctx.env(), MAX_CALL_DEPTH as nat) == Err::<
                TypeM,
                VmErrorM,
            >(e@),
        },
{
    match evaluate(expr, ctx) {
        Ok(Value::Type(t)) => Ok(t),
        Ok(v) => Err(VmError::new(VmErrorKind::NotAType, value_message("expected a type, found ", &v))),
        Err(e) => Err(e),
    }
}

/// Runs a statement, giving the extended context.
pub fn evaluate_stmt(stmt: &Stmt, ctx: &ValueContext) -> (r: Result<ValueContext, VmError>)
    ensures
        match r {
            Ok(c) => eval_stmt(*stmt, ctx.env(), MAX_CALL_DEPTH as nat) == Ok::<
                Env,
                VmErrorM,
            >(c.env()),
            Err(e) => eval_stmt(*stmt, ctx.env(), MAX_CALL_DEPTH as nat) == Err::<
                Env,
                VmErrorM,
            >(e@),
        },
{
    match &stmt.kind {
        StmtKind::Let(id, e) => match evaluate(e, ctx) {
            Ok(v) => Ok(ctx.bind(id.name.clone(), v)),
            Err(err) => Err(err),
        },
    }
}


/// A tuple literal without elements evaluates to nil, and one with a single
/// element evaluates to what that element does.
pub proof fn law_tuple_collapse(e: Expr, env: Env, fuel: nat)
    requires
        e.kind is Tuple,
    ensures
        e.kind->Tuple_0@.len() == 0 ==> eval(e, env, fuel) == Ok::<ValueM, VmErrorM>(
            ValueM::Nil,
        ),
        e.kind->Tuple_0@.len() == 1 ==> eval(e, env, fuel) == eval(
            e.kind->Tuple_0@[0],
            env,
            fuel,
        ),
{
    let es = e.kind->Tuple_0@;
    assert(eval(e, env, fuel) == match eval_list(es, env, fuel) {
        Ok(vs) => Ok(tuple_of(vs)),
        Err(k) => Err::<ValueM, VmErrorM>(k),
    });
    if es.len() == 0 {
        assert(eval_list(es, env, fuel) == Ok::<Seq<ValueM>, VmErrorM>(Seq::empty()));
    }
    if es.len() == 1 {
        assert(es.subrange(0, 0) =~= Seq::<Expr>::empty());
        assert(eval_list(es.subrange(0, 0), env, fuel) == Ok::<Seq<ValueM>, VmErrorM>(
            Seq::empty(),
        ));
        match eval(es[0], env, fuel) {
            Ok(v) => {
                assert(eval_list(es, env, fuel) == Ok::<Seq<ValueM>, VmErrorM>(
                    Seq::<ValueM>::empty().push(v),
                ));
            },
            Err(k) => {
                assert(eval_list(es, env, fuel) == Err::<Seq<ValueM>, VmErrorM>(k));
            },
        }
    }
}

/// Parentheses do not change what an expression evaluates to.
pub proof fn law_paren_eval(e: Expr, span: Span, env: Env, fuel: nat)
    ensures
        eval(Expr { kind: ExprKind::Parenthesized(Box::new(e)), span }, env, fuel) == eval(
            e,
            env,
            fuel,
        ),
{
}

} // verus!

verus! {

/// Whether a result is the failure of running out of call depth.
pub open spec fn too_deep<A>(r: Result<A, VmErrorM>) -> bool {
    r is Err && r->Err_0.kind == VmErrorKind::TooDeep
}

/// The depth limit only ever cuts evaluation short: a result other than
/// `TooDeep` stays the same under any larger limit.
pub proof fn law_more_depth_same_result(e: Expr, env: Env, f1: nat, f2: nat)
    requires
        f1 <= f2,
        !too_deep(eval(e, env, f1)),
    ensures
        eval(e, env, f2) == eval(e, env, f1),
    decreases f1, e,
{
    match e.kind {
        ExprKind::RecordValue(fs) => lemma_fields_depth(fs@, env, f1, f2),
        ExprKind::RecordType(fs) => lemma_type_fields_depth(fs@, env, f1, f2),
        ExprKind::RecordFieldAccess(b, _) => law_more_depth_same_result(*b, env, f1, f2),
        ExprKind::Tuple(es) => lemma_list_depth(es@, env, f1, f2),
        ExprKind::TupleType(es) => lemma_type_list_depth(es@, env, f1, f2),
        ExprKind::TupleFieldAccess(b, _) => law_more_depth_same_result(*b, env, f1, f2),
        ExprKind::Block(ss, tail) => {
            lemma_stmts_depth(ss@, env, f1, f2);
            match eval_stmts(ss@, env, f1) {
                Ok(env2) => match tail {
                    Some(t) => law_more_depth_same_result(*t, env2, f1, f2),
                    None => {},
                },
                Err(_) => {},
            }
        },
        ExprKind::Call(f, a) => {
            law_more_depth_same_result(*f, env, f1, f2);
            if eval(*f, env, f1) is Ok {
                law_more_depth_same_result(*a, env, f1, f2);
                if eval(*a, env, f1) is Ok {
                    let av = eval(*a, env, f1)->Ok_0;
                    match eval(*f, env, f1)->Ok_0 {
                        ValueM::Closure(p, body, captured) => {
                            if f1 > 0 {
                                law_more_depth_same_result(
                                    body,
                                    captured.push((p, av)),
                                    (f1 - 1) as nat,
                                    (f2 - 1) as nat,
                                );
                            }
                        },
                        _ => {},
                    }
                }
            }
        },
        ExprKind::Parenthesized(x) => law_more_depth_same_result(*x, env, f1, f2),
        _ => {},
    }
}

proof fn lemma_list_depth(es: Seq<Expr>, env: Env, f1: nat, f2: nat)
    requires
        f1 <= f2,
        !too_deep(eval_list(es, env, f1)),
    ensures
        eval_list(es, env, f2) == eval_list(es, env, f1),
    decreases f1, es,
{
    if es.len() > 0 {
        lemma_list_depth(es.subrange(0, es.len() - 1), env, f1, f2);
        if eval_list(es.subrange(0, es.len() - 1), env, f1) is Ok {
            law_more_depth_same_result(es[es.len() - 1], env, f1, f2);
        }
    }
}

proof fn lemma_type_list_depth(es: Seq<Expr>, env: Env, f1: nat, f2: nat)
    requires
        f1 <= f2,
        !too_deep(eval_type_list(es, env, f1)),
    ensures
        eval_type_list(es, env, f2) == eval_type_list(es, env, f1),
    decreases f1, es,
{
    if es.len() > 0 {
        lemma_type_list_depth(es.subrange(0, es.len() - 1), env, f1, f2);
        if eval_type_list(es.subrange(0, es.len() - 1), env, f1) is Ok {
            law_more_depth_same_result(es[es.len() - 1], env, f1, f2);
        }
    }
}

proof fn lemma_fields_depth(fs: Seq<(Ident, Expr)>, env: Env, f1: nat, f2: nat)
    requires
        f1 <= f2,
        !too_deep(eval_fields(fs, env, f1)),
    ensures
        eval_fields(fs, env, f2) == eval_fields(fs, env, f1),
    decreases f1, fs,
{
    if fs.len() > 0 {
        lemma_fields_depth(fs.subrange(0, fs.len() - 1), env, f1, f2);
        if eval_fields(fs.subrange(0, fs.len() - 1), env, f1) is Ok {
            law_more_depth_same_result(fs[fs.len() - 1].1, env, f1, f2);
        }
    }
}

proof fn lemma_type_fields_depth(fs: Seq<(Ident, Expr)>, env: Env, f1: nat, f2: nat)
    requires
        f1 <= f2,
        !too_deep(eval_type_fields(fs, env, f1)),
    ensures
        eval_type_fields(fs, env, f2) == eval_type_fields(fs, env, f1),
    decreases f1, fs,
{
    if fs.len() > 0 {
        lemma_type_fields_depth(fs.subrange(0, fs.len() - 1), env, f1, f2);
        if eval_type_fields(fs.subrange(0, fs.len() - 1), env, f1) is Ok {
            law_more_depth_same_result(fs[fs.len() - 1].1, env, f1, f2);
        }
    }
}

proof fn lemma_stmts_depth(ss: Seq<Stmt>, env: Env, f1: nat, f2: nat)
    requires
        f1 <= f2,
        !too_deep(eval_stmts(ss, env, f1)),
    ensures
        eval_stmts(ss, env, f2) == eval_stmts(ss, env, f1),
    decreases f1, ss,
{
    if ss.len() > 0 {
        lemma_stmts_depth(ss.subrange(0, ss.len() - 1), env, f1, f2);
        match eval_stmts(ss.subrange(0, ss.len() - 1), env, f1) {
            Ok(env2) => match ss[ss.len() - 1].kind {
                StmtKind::Let(_, e) => law_more_depth_same_result(*e, env2, f1, f2),
            },
            Err(_) => {},
        }
    }
}

} // verus!

verus! {

/// Applying a closure evaluates its body in the captured bindings extended
/// with the parameter bound to the argument; short of the depth limit the
/// body's result is the same as evaluating it on its own.
pub proof fn law_closure_application(
    e: Expr,
    env: Env,
    fuel: nat,
    p: Seq<char>,
    body: Expr,
    captured: Env,
    arg: ValueM,
)
    requires
        e.kind is Call,
        eval(*e.kind->Call_0, env, fuel) == Ok::<ValueM, VmErrorM>(
            ValueM::Closure(p, body, captured),
        ),
        eval(*e.kind->Call_1, env, fuel) == Ok::<ValueM, VmErrorM>(arg),
        !too_deep(eval(e, env, fuel)),
    ensures
        eval(e, env, fuel) == eval(body, captured.push((p, arg)), fuel),
{
    law_more_depth_same_result(body, captured.push((p, arg)), (fuel - 1) as nat, fuel);
}

} // verus!

verus! {

/// A record value built from a literal has no two fields of one name; a
/// repeated name keeps the last value given for it.
pub proof fn law_record_value_fields_unique(fs: Seq<(Ident, Expr)>, env: Env, fuel: nat)
    requires
        eval_fields(fs, env, fuel) is Ok,
    ensures
        unique_names(eval_fields(fs, env, fuel)->Ok_0),
    decreases fs.len(),
{
    if fs.len() > 0 {
        let t = fs.subrange(0, fs.len() - 1);
        law_record_value_fields_unique(t, env, fuel);
        let v = eval(fs[fs.len() - 1].1, env, fuel)->Ok_0;
        lemma_put_field_unique(eval_fields(t, env, fuel)->Ok_0, fs[fs.len() - 1].0.name@, v);
    }
}

/// A record type built from a literal has no two fields of one name.
pub proof fn law_record_type_fields_unique(fs: Seq<(Ident, Expr)>, env: Env, fuel: nat)
    requires
        eval_type_fields(fs, env, fuel) is Ok,
    ensures
        unique_names(eval_type_fields(fs, env, fuel)->Ok_0),
    decreases fs.len(),
{
    if fs.len() > 0 {
        let t = fs.subrange(0, fs.len() - 1);
        law_record_type_fields_unique(t, env, fuel);
        let v = eval(fs[fs.len() - 1].1, env, fuel)->Ok_0->Type_0;
        lemma_put_field_unique(eval_type_fields(t, env, fuel)->Ok_0, fs[fs.len() - 1].0.name@, v);
    }
}

} // verus!
