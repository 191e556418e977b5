//! Primitive values seeded into every default context.
use crate::types::{Type, TypeM};
use crate::value::{Value, ValueM, outcome};
use crate::render::{value_message, value_text};
use crate::vm::{VmError, VmErrorKind, VmErrorM, failure};
use vstd::prelude::*;

verus! {

/// A primitive function. Functions of several arguments are curried: the
/// first application yields another primitive.
#[derive(Debug)]
pub enum BuiltinFunc {
    /// The function-type former: given an input type, yields `FnFrom` of it.
    Fn,
    /// `Fn` applied to an input type: given an output type, yields the type
    /// of functions between the two.
    FnFrom(Type),
}

pub enum BuiltinM {
    Fn,
    FnFrom(TypeM),
}

impl View for BuiltinFunc {
    type V = BuiltinM;

    open spec fn view(&self) -> BuiltinM {
        match self {
            BuiltinFunc::Fn => BuiltinM::Fn,
            BuiltinFunc::FnFrom(t) => BuiltinM::FnFrom(t@),
        }
    }
}

impl Clone for BuiltinFunc {
    fn clone(&self) -> (r: Self)
        ensures
            r@ == self@,
    {
        match self {
            BuiltinFunc::Fn => BuiltinFunc::Fn,
            BuiltinFunc::FnFrom(t) => BuiltinFunc::FnFrom(t.clone()),
        }
    }
}


/// Applies a primitive to an argument; every primitive takes a type.
pub open spec fn apply_builtin(b: BuiltinM, arg: ValueM) -> Result<ValueM, VmErrorM> {
    match arg {
        ValueM::Type(t) => match b {
            BuiltinM::Fn => Ok(ValueM::Builtin(BuiltinM::FnFrom(t))),
            BuiltinM::FnFrom(input) => Ok(ValueM::Type(TypeM::Func(Box::new(input), Box::new(t)))),
        },
        _ => Err(failure(VmErrorKind::NotAType, "expected a type, found "@ + value_text(arg))),
    }
}

impl BuiltinFunc {
    /// Invokes the primitive on one argument.
    pub fn call(&self, arg: &Value) -> (r: Result<Value, VmError>)
        ensures
            outcome(r) == apply_builtin(self@, arg@),
    {
        match arg.as_type() {
            Some(t) => match self {
                BuiltinFunc::Fn => Ok(Value::BuiltinFunc(BuiltinFunc::FnFrom(t))),
                BuiltinFunc::FnFrom(input) => Ok(
                    Value::Type(Type::Func(Box::new(input.clone()), Box::new(t))),
                ),
            },
            None => Err(
                VmError::new(VmErrorKind::NotAType, value_message("expected a type, found ", arg)),
            ),
        }
    }
}

/// Wraps a primitive as a value.
pub fn builtin_func(f: BuiltinFunc) -> (r: Value)
    ensures
        r@ == ValueM::Builtin(f@),
{
    Value::BuiltinFunc(f)
}

/// The primitives: name, type and value of each, names unique.
pub open spec fn builtins_model() -> Seq<(Seq<char>, TypeM, ValueM)> {
    seq![
        ("Type"@, TypeM::Type, ValueM::Type(TypeM::Type)),
        ("Number"@, TypeM::Type, ValueM::Type(TypeM::Number)),
        ("String"@, TypeM::Type, ValueM::Type(TypeM::Str)),
        (
            "Fn"@,
            TypeM::Func(
                Box::new(TypeM::Type),
                Box::new(TypeM::Func(Box::new(TypeM::Type), Box::new(TypeM::Type))),
            ),
            ValueM::Builtin(BuiltinM::Fn),
        ),
    ]
}

pub fn builtins() -> (r: Vec<(&'static str, Type, Value)>)
    ensures
        r@.len() == builtins_model().len(),
        forall|i: int|
            0 <= i < r@.len() ==> (#[trigger] r@[i]).0@ == builtins_model()[i].0 && r@[i].1@
                == builtins_model()[i].1 && r@[i].2@ == builtins_model()[i].2,
{
    assert(Type::Type@ == TypeM::Type);
    let to_type = Type::Func(Box::new(Type::Type), Box::new(Type::Type));
    assert(to_type@ == TypeM::Func(Box::new(TypeM::Type), Box::new(TypeM::Type)));
    let fn_type = Type::Func(Box::new(Type::Type), Box::new(to_type));
    assert(fn_type@ == builtins_model()[3].1);
    let r = vec![
        ("Type", Type::Type, Value::Type(Type::Type)),
        ("Number", Type::Type, Value::Type(Type::Number)),
        ("String", Type::Type, Value::Type(Type::String_)),
        (
            "Fn",
            fn_type,
            builtin_func(BuiltinFunc::Fn),
        ),
    ];
    proof {
        assert(r@[0].0@ == builtins_model()[0].0);
        assert(r@[1].0@ == builtins_model()[1].0);
        assert(r@[2].0@ == builtins_model()[2].0);
        assert(r@[3].0@ == builtins_model()[3].0);
    }
    r
}


/// `Fn` applied to two type values yields the type of functions from the
/// first to the second.
pub proof fn law_fn_builds_function_type(input: TypeM, output: TypeM)
    ensures
        apply_builtin(BuiltinM::Fn, ValueM::Type(input)) == Ok::<ValueM, VmErrorM>(
            ValueM::Builtin(BuiltinM::FnFrom(input)),
        ),
        apply_builtin(BuiltinM::FnFrom(input), ValueM::Type(output)) == Ok::<
            ValueM,
            VmErrorM,
        >(ValueM::Type(TypeM::Func(Box::new(input), Box::new(output)))),
{
}

} // verus!
