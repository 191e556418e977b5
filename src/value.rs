//! Runtime values, and their mathematical model.
use crate::ast::{Expr, Name, Number};
use crate::builtin::{BuiltinFunc, BuiltinM};
use crate::render::{
    arity_message, arity_text, nat_text, push_nat, push_value, value_message, value_text,
};
use crate::context::{
    Context, Node, field_index, lemma_field_index, put_field, lemma_lookup_model, lookup_in, model_of, node_entries, tail};
use crate::types::{Type, TypeM};
use crate::vm::{VmError, VmErrorKind, VmErrorM, failure, text_with_name};
use std::rc::Rc;
use vstd::prelude::*;

verus! {

/// A value produced by evaluation.
#[derive(Debug)]
pub enum Value {
    Nil,
    /// Fields in the order first written; names are unique, a repeated name
    /// keeping the last value given for it.
    Record(Vec<(Name, Value)>),
    /// Two or more elements.
    Tuple(Vec<Value>),
    /// Parameter, body, and the context captured where the closure was made.
    Closure(Name, Rc<Expr>, Context<Value>),
    BuiltinFunc(BuiltinFunc),
    Number(Number),
    String_(String),
    /// A type, reified so that type expressions evaluate like any other.
    Type(Type),
}

/// The bindings of a value context.
pub type ValueContext = Context<Value>;

/// What a value means.
pub enum ValueM {
    Nil,
    Record(Seq<(Seq<char>, ValueM)>),
    Tuple(Seq<ValueM>),
    Closure(Seq<char>, Expr, Seq<(Seq<char>, ValueM)>),
    Builtin(BuiltinM),
    Number(i64),
    Str(Seq<char>),
    Type(TypeM),
}

impl View for Value {
    type V = ValueM;

    open spec fn view(&self) -> ValueM
        decreases self,
    {
        match self {
            Value::Nil => ValueM::Nil,
            Value::Record(fs) => ValueM::Record(value_fields_view(fs@)),
            Value::Tuple(vs) => ValueM::Tuple(values_view(vs@)),
            Value::Closure(n, body, ctx) => ValueM::Closure(n@, **body, env_view(ctx.head)),
            Value::BuiltinFunc(b) => ValueM::Builtin(b@),
            Value::Number(n) => ValueM::Number(n.0),
            Value::String_(s) => ValueM::Str(s@),
            Value::Type(t) => ValueM::Type(t@),
        }
    }
}

pub open spec fn values_view(s: Seq<Value>) -> Seq<ValueM>
    decreases s,
{
    if s.len() == 0 {
        Seq::empty()
    } else {
        values_view(s.subrange(0, s.len() - 1)).push(s[s.len() - 1].view())
    }
}

pub open spec fn value_fields_view(s: Seq<(Name, Value)>) -> Seq<(Seq<char>, ValueM)>
    decreases s,
{
    if s.len() == 0 {
        Seq::empty()
    } else {
        value_fields_view(s.subrange(0, s.len() - 1)).push(
            (s[s.len() - 1].0@, s[s.len() - 1].1.view()),
        )
    }
}

/// The model of the bindings reachable from a node, oldest first.
pub open spec fn env_view(n: Option<Rc<Node<Value>>>) -> Seq<(Seq<char>, ValueM)>
    decreases n,
{
    match n {
        None => Seq::empty(),
        Some(node) => env_view(node.next).push((node.name@, node.item.view())),
    }
}

pub proof fn lemma_values_view(s: Seq<Value>)
    ensures
        values_view(s).len() == s.len(),
        forall|i: int| 0 <= i < s.len() ==> #[trigger] values_view(s)[i] == s[i]@,
    decreases s.len(),
{
    if s.len() > 0 {
        let t = s.subrange(0, s.len() - 1);
        lemma_values_view(t);
        assert(values_view(s) == values_view(t).push(s[s.len() - 1]@));
        assert forall|i: int| 0 <= i < s.len() implies #[trigger] values_view(s)[i] == s[i]@ by {
            if i < s.len() - 1 {
                assert(t[i] == s[i]);
            }
        }
    }
}

pub proof fn lemma_value_fields_view(s: Seq<(Name, Value)>)
    ensures
        value_fields_view(s).len() == s.len(),
        forall|i: int|
            0 <= i < s.len() ==> #[trigger] value_fields_view(s)[i] == (s[i].0@, s[i].1@),
    decreases s.len(),
{
    if s.len() > 0 {
        let t = s.subrange(0, s.len() - 1);
        lemma_value_fields_view(t);
        assert(value_fields_view(s) == value_fields_view(t).push(
            (s[s.len() - 1].0@, s[s.len() - 1].1@),
        ));
        assert forall|i: int| 0 <= i < s.len() implies #[trigger] value_fields_view(s)[i] == (
            s[i].0@,
            s[i].1@,
        ) by {
            if i < s.len() - 1 {
                assert(t[i] == s[i]);
            }
        }
    }
}

/// The model of a value context is the model of each of its bindings.
pub proof fn lemma_env_view(n: Option<Rc<Node<Value>>>)
    ensures
        env_view(n) == model_of(node_entries(n)),
    decreases n,
{
    match n {
        None => {
            assert(model_of(node_entries(n)) =~= Seq::empty());
        },
        Some(node) => {
            lemma_env_view(tail(n));
            assert(model_of(node_entries(n)) =~= model_of(node_entries(tail(n))).push(
                (node.name@, node.item@),
            ));
        },
    }
}

impl Context<Value> {
    /// The bindings' models, oldest first.
    pub open spec fn env(&self) -> Seq<(Seq<char>, ValueM)> {
        env_view(self.head)
    }

    /// Extends with `name` bound to `value`.
    pub fn bind(&self, name: Name, value: Value) -> (r: Self)
        ensures
            r.env() == self.env().push((name@, value@)),
    {
        let ghost entry = (name@, value@);
        let r = self.extend(name, value);
        proof {
            lemma_env_view(self.head);
            lemma_env_view(r.head);
            assert(model_of(r.entries()) =~= model_of(self.entries()).push(entry));
        }
        r
    }

    /// A copy of the value most recently bound to `name`.
    pub fn lookup_value(&self, name: &Name) -> (r: Option<Value>)
        ensures
            match r {
                Some(v) => lookup_in(self.env(), name@) == Some(v@),
                None => lookup_in(self.env(), name@) is None,
            },
    {
        proof {
            lemma_env_view(self.head);
            lemma_lookup_model(self.entries(), name@);
        }
        match self.lookup(name) {
            Some(v) => Some(v.clone()),
            None => None,
        }
    }
}

/// The result of an evaluation step, as a model.
pub open spec fn outcome(r: Result<Value, VmError>) -> Result<ValueM, VmErrorM> {
    match r {
        Ok(v) => Ok(v@),
        Err(e) => Err(e@),
    }
}

/// The field `name` of a record value (its last field of that name).
pub open spec fn field_of(v: ValueM, name: Seq<char>) -> Result<ValueM, VmErrorM> {
    match v {
        ValueM::Record(fs) => match lookup_in(fs, name) {
            Some(x) => Ok(x),
            None => Err(
                failure(
                    VmErrorKind::MissingField,
                    "record "@ + value_text(v) + " doesn't have a field named "@ + name,
                ),
            ),
        },
        _ => Err(
            failure(
                VmErrorKind::NotARecord,
                "expected a record with a field named "@ + name + ", found "@ + value_text(v),
            ),
        ),
    }
}

/// Element `i` of a tuple value.
pub open spec fn element_of(v: ValueM, i: int) -> Result<ValueM, VmErrorM> {
    match v {
        ValueM::Tuple(vs) => if 0 <= i < vs.len() {
            Ok(vs[i])
        } else {
            Err(
                failure(
                    VmErrorKind::TupleTooShort,
                    arity_text(i as nat) + ", found one with only "@ + nat_text(vs.len()),
                ),
            )
        },
        _ => Err(
            failure(VmErrorKind::NotATuple, arity_text(i as nat) + ", found "@ + value_text(v)),
        ),
    }
}

/// Binds the field `name` to `v`, replacing a field of that name in place.
pub fn put_value_field(fs: &mut Vec<(Name, Value)>, name: Name, v: Value)
    ensures
        value_fields_view(final(fs)@) == put_field(value_fields_view(old(fs)@), name@, v@),
{
    let ghost s = value_fields_view(fs@);
    proof {
        lemma_value_fields_view(fs@);
        lemma_field_index(s, name@);
        assert(s.subrange(0, s.len() as int) =~= s);
    }
    let mut i: usize = fs.len();
    while i > 0
        invariant
            i <= fs@.len(),
            fs@ == old(fs)@,
            s == value_fields_view(fs@),
            s.len() == fs@.len(),
            forall|j: int| 0 <= j < fs@.len() ==> #[trigger] s[j] == (fs@[j].0@, fs@[j].1@),
            field_index(s, name@) == field_index(s.subrange(0, i as int), name@),
        decreases i,
    {
        let ghost p = s.subrange(0, i as int);
        proof {
            assert(p.subrange(0, p.len() - 1) =~= s.subrange(0, i - 1));
        }
        if fs[i - 1].0.same(&name) {
            let ghost entry = (name@, v@);
            fs.set(i - 1, (name, v));
            proof {
                lemma_value_fields_view(fs@);
                assert(value_fields_view(fs@) =~= s.update(i - 1, entry));
            }
            return;
        }
        i = i - 1;
    }
    let ghost entry = (name@, v@);
    fs.push((name, v));
    proof {
        lemma_value_fields_view(fs@);
        assert(value_fields_view(fs@) =~= s.push(entry));
    }
}

impl Clone for Value {
    fn clone(&self) -> (r: Self)
        ensures
            r@ == self@,
        decreases self,
    {
        match self {
            Value::Nil => Value::Nil,
            Value::Record(fs) => {
                let mut out: Vec<(Name, Value)> = Vec::new();
                let mut i: usize = 0;
                proof {
                    assert(decreases_to!(*self => *fs));
                }
                while i < fs.len()
                    invariant
                        decreases_to!(*self => *fs),
                        i <= fs@.len(),
                        out@.len() == i,
                        forall|j: int|
                            0 <= j < i ==> (#[trigger] out@[j]).0@ == fs@[j].0@ && out@[j].1@
                                == fs@[j].1@,
                    decreases fs@.len() - i,
                {
                    proof {
                        assert(decreases_to!(*fs => fs[i as int]));
                        assert(decreases_to!(fs[i as int] => fs[i as int].1));
                    }
                    let f = &fs[i];
                    out.push((f.0.clone(), f.1.clone()));
                    i = i + 1;
                }
                proof {
                    lemma_value_fields_view(fs@);
                    lemma_value_fields_view(out@);
                    assert(value_fields_view(out@) =~= value_fields_view(fs@));
                }
                Value::Record(out)
            },
            Value::Tuple(vs) => {
                let mut out: Vec<Value> = Vec::new();
                let mut i: usize = 0;
                proof {
                    assert(decreases_to!(*self => *vs));
                }
                while i < vs.len()
                    invariant
                        decreases_to!(*self => *vs),
                        i <= vs@.len(),
                        out@.len() == i,
                        forall|j: int| 0 <= j < i ==> (#[trigger] out@[j])@ == vs@[j]@,
                    decreases vs@.len() - i,
                {
                    proof {
                        assert(decreases_to!(*vs => vs[i as int]));
                    }
                    out.push(vs[i].clone());
                    i = i + 1;
                }
                proof {
                    lemma_values_view(vs@);
                    lemma_values_view(out@);
                    assert(values_view(out@) =~= values_view(vs@));
                }
                Value::Tuple(out)
            },
            Value::Closure(n, body, ctx) => Value::Closure(n.clone(), Rc::clone(body), ctx.clone()),
            Value::BuiltinFunc(b) => Value::BuiltinFunc(b.clone()),
            Value::Number(n) => Value::Number(*n),
            Value::String_(s) => Value::String_(s.clone()),
            Value::Type(t) => Value::Type(t.clone()),
        }
    }
}

impl Value {
    /// The type that a type value carries.
    pub fn as_type(&self) -> (r: Option<Type>)
        ensures
            match self@ {
                ValueM::Type(t) => r is Some && r->0@ == t,
                _ => r is None,
            },
    {
        match self {
            Value::Type(t) => Some(t.clone()),
            _ => None,
        }
    }

    /// The field `name` of a record.
    pub fn access_record_field(&self, name: &Name) -> (r: Result<Value, VmError>)
        ensures
            outcome(r) == field_of(self@, name@),
    {
        match self {
            Value::Record(fs) => {
                proof {
                    lemma_value_fields_view(fs@);
                    assert(value_fields_view(fs@).subrange(0, fs@.len() as int) =~= value_fields_view(fs@));
                }
                let mut i: usize = fs.len();
                while i > 0
                    invariant
                        i <= fs@.len(),
                        self@ == ValueM::Record(value_fields_view(fs@)),
                        value_fields_view(fs@).len() == fs@.len(),
                        forall|j: int|
                            0 <= j < fs@.len() ==> #[trigger] value_fields_view(fs@)[j] == (
                                fs@[j].0@,
                                fs@[j].1@,
                            ),
                        lookup_in(value_fields_view(fs@), name@) == lookup_in(
                            value_fields_view(fs@).subrange(0, i as int),
                            name@,
                        ),
                    decreases i,
                {
                    let ghost s = value_fields_view(fs@).subrange(0, i as int);
                    proof {
                        assert(s.subrange(0, s.len() - 1) =~= value_fields_view(fs@).subrange(
                            0,
                            i - 1,
                        ));
                    }
                    if fs[i - 1].0.same(name) {
                        return Ok(fs[i - 1].1.clone());
                    }
                    i = i - 1;
                }
                let mut m = value_message("record ", self);
                m.append(" doesn't have a field named ");
                m.append(name.as_str());
                Err(VmError::new(VmErrorKind::MissingField, m))
            },
            _ => {
                let mut m = text_with_name("expected a record with a field named ", name);
                m.append(", found ");
                push_value(&mut m, self);
                Err(VmError::new(VmErrorKind::NotARecord, m))
            },
        }
    }

    /// Element `index` of a tuple.
    pub fn access_tuple_field(&self, index: usize) -> (r: Result<Value, VmError>)
        ensures
            outcome(r) == element_of(self@, index as int),
    {
        match self {
            Value::Tuple(vs) => {
                proof {
                    lemma_values_view(vs@);
                }
                if index < vs.len() {
                    Ok(vs[index].clone())
                } else {
                    let mut m = arity_message(index);
                    m.append(", found one with only ");
                    push_nat(&mut m, vs.len() as u128);
                    Err(VmError::new(VmErrorKind::TupleTooShort, m))
                }
            },
            _ => {
                let mut m = arity_message(index);
                m.append(", found ");
                push_value(&mut m, self);
                Err(VmError::new(VmErrorKind::NotATuple, m))
            },
        }
    }
}

} // verus!
