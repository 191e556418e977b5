//! Types, and their mathematical model.
use crate::ast::Name;
use crate::context::{field_index, lemma_field_index, lookup_in, put_field};
use vstd::prelude::*;

verus! {

/// The position of a closure parameter among the parameters in scope where
/// it was bound; placeholders for parameters compare by it.
#[derive(Clone, Copy, Debug, PartialEq, Eq, Structural)]
pub struct ParamDepth(pub u32);

/// A type, as inferred by the checker and as carried by type values.
#[derive(Debug)]
pub enum Type {
    Nil,
    /// Field names are unique: checking and evaluation bind fields with
    /// `put_type_field`, which replaces a field of the same name.
    Record(Vec<(Name, Type)>),
    Tuple(Vec<Type>),
    Func(Box<Type>, Box<Type>),
    Number,
    String_,
    /// A closure parameter that stands for a type.
    Param(Name, ParamDepth),
    /// The type of types.
    Type,
    /// Stands in after a reported failure, so that it causes no other.
    Error,
}

/// What a type means: names as character sequences.
pub enum TypeM {
    Nil,
    Record(Seq<(Seq<char>, TypeM)>),
    Tuple(Seq<TypeM>),
    Func(Box<TypeM>, Box<TypeM>),
    Number,
    Str,
    Param(Seq<char>, u32),
    Type,
    Error,
}

impl View for Type {
    type V = TypeM;

    open spec fn view(&self) -> TypeM
        decreases self,
    {
        match self {
            Type::Nil => TypeM::Nil,
            Type::Record(fs) => TypeM::Record(fields_view(fs@)),
            Type::Tuple(ts) => TypeM::Tuple(types_view(ts@)),
            Type::Func(a, b) => TypeM::Func(Box::new((**a).view()), Box::new((**b).view())),
            Type::Number => TypeM::Number,
            Type::String_ => TypeM::Str,
            Type::Param(n, d) => TypeM::Param(n@, d.0),
            Type::Type => TypeM::Type,
            Type::Error => TypeM::Error,
        }
    }
}

pub open spec fn types_view(s: Seq<Type>) -> Seq<TypeM>
    decreases s,
{
    if s.len() == 0 {
        Seq::empty()
    } else {
        types_view(s.subrange(0, s.len() - 1)).push(s[s.len() - 1].view())
    }
}

pub open spec fn fields_view(s: Seq<(Name, Type)>) -> Seq<(Seq<char>, TypeM)>
    decreases s,
{
    if s.len() == 0 {
        Seq::empty()
    } else {
        fields_view(s.subrange(0, s.len() - 1)).push(
            (s[s.len() - 1].0@, s[s.len() - 1].1.view()),
        )
    }
}

pub proof fn lemma_types_view(s: Seq<Type>)
    ensures
        types_view(s).len() == s.len(),
        forall|i: int| 0 <= i < s.len() ==> #[trigger] types_view(s)[i] == s[i]@,
    decreases s.len(),
{
    if s.len() > 0 {
        let t = s.subrange(0, s.len() - 1);
        lemma_types_view(t);
        assert(types_view(s) == types_view(t).push(s[s.len() - 1]@));
        assert forall|i: int| 0 <= i < s.len() implies #[trigger] types_view(s)[i] == s[i]@ by {
            if i < s.len() - 1 {
                assert(t[i] == s[i]);
            }
        }
    }
}

pub proof fn lemma_fields_view(s: Seq<(Name, Type)>)
    ensures
        fields_view(s).len() == s.len(),
        forall|i: int|
            0 <= i < s.len() ==> #[trigger] fields_view(s)[i] == (s[i].0@, s[i].1@),
    decreases s.len(),
{
    if s.len() > 0 {
        let t = s.subrange(0, s.len() - 1);
        lemma_fields_view(t);
        assert(fields_view(s) == fields_view(t).push((s[s.len() - 1].0@, s[s.len() - 1].1@)));
        assert forall|i: int| 0 <= i < s.len() implies #[trigger] fields_view(s)[i] == (
            s[i].0@,
            s[i].1@,
        ) by {
            if i < s.len() - 1 {
                assert(t[i] == s[i]);
            }
        }
    }
}

/// Binds the field `name` to `v`, replacing a field of that name in place.
pub fn put_type_field(fs: &mut Vec<(Name, Type)>, name: Name, v: Type)
    ensures
        fields_view(final(fs)@) == put_field(fields_view(old(fs)@), name@, v@),
{
    let ghost s = fields_view(fs@);
    proof {
        lemma_fields_view(fs@);
        lemma_field_index(s, name@);
        assert(s.subrange(0, s.len() as int) =~= s);
    }
    let mut i: usize = fs.len();
    while i > 0
        invariant
            i <= fs@.len(),
            fs@ == old(fs)@,
            s == fields_view(fs@),
            s.len() == fs@.len(),
            forall|j: int| 0 <= j < fs@.len() ==> #[trigger] s[j] == (fs@[j].0@, fs@[j].1@),
            field_index(s, name@) == field_index(s.subrange(0, i as int), name@),
        decreases i,
    {
        let ghost p = s.subrange(0, i as int);
        proof {
            assert(p.subrange(0, p.len() - 1) =~= s.subrange(0, i - 1));
        }
        if fs[i - 1].0.same(&name) {
            let ghost entry = (name@, v@);
            fs.set(i - 1, (name, v));
            proof {
                lemma_fields_view(fs@);
                assert(fields_view(fs@) =~= s.update(i - 1, entry));
            }
            return;
        }
        i = i - 1;
    }
    let ghost entry = (name@, v@);
    fs.push((name, v));
    proof {
        lemma_fields_view(fs@);
        assert(fields_view(fs@) =~= s.push(entry));
    }
}

impl Clone for Type {
    fn clone(&self) -> (r: Self)
        ensures
            r@ == self@,
        decreases self,
    {
        match self {
            Type::Nil => Type::Nil,
            Type::Record(fs) => {
                let mut out: Vec<(Name, Type)> = Vec::new();
                let mut i: usize = 0;
                proof {
                    assert(decreases_to!(*self => *fs));
                }
                while i < fs.len()
                    invariant
                        decreases_to!(*self => *fs),
                        i <= fs@.len(),
                        out@.len() == i,
                        forall|j: int|
                            0 <= j < i ==> (#[trigger] out@[j]).0@ == fs@[j].0@ && out@[j].1@
                                == fs@[j].1@,
                    decreases fs@.len() - i,
                {
                    proof {
                        assert(decreases_to!(*fs => fs[i as int]));
                        assert(decreases_to!(fs[i as int] => fs[i as int].1));
                        assert(decreases_to!(*self => fs[i as int].1));
                    }
                    let f = &fs[i];
                    out.push((f.0.clone(), f.1.clone()));
                    i = i + 1;
                }
                proof {
                    lemma_fields_view(fs@);
                    lemma_fields_view(out@);
                    assert(fields_view(out@) =~= fields_view(fs@));
                }
                Type::Record(out)
            },
            Type::Tuple(ts) => {
                let mut out: Vec<Type> = Vec::new();
                let mut i: usize = 0;
                proof {
                    assert(decreases_to!(*self => *ts));
                }
                while i < ts.len()
                    invariant
                        decreases_to!(*self => *ts),
                        i <= ts@.len(),
                        out@.len() == i,
                        forall|j: int| 0 <= j < i ==> (#[trigger] out@[j])@ == ts@[j]@,
                    decreases ts@.len() - i,
                {
                    proof {
                        assert(decreases_to!(*ts => ts[i as int]));
                        assert(decreases_to!(*self => ts[i as int]));
                    }
                    out.push(ts[i].clone());
                    i = i + 1;
                }
                proof {
                    lemma_types_view(ts@);
                    lemma_types_view(out@);
                    assert(types_view(out@) =~= types_view(ts@));
                }
                Type::Tuple(out)
            },
            Type::Func(a, b) => Type::Func(Box::new((**a).clone()), Box::new((**b).clone())),
            Type::Number => Type::Number,
            Type::String_ => Type::String_,
            Type::Param(n, d) => Type::Param(n.clone(), *d),
            Type::Type => Type::Type,
            Type::Error => Type::Error,
        }
    }
}

/// Equality of types: records are compared as mappings from field names to
/// types (field order does not matter, names being unique), everything else
/// structurally.
pub open spec fn type_eq(a: TypeM, b: TypeM) -> bool
    decreases a,
{
    match a {
        TypeM::Record(fa) => match b {
            TypeM::Record(fb) => fa.len() == fb.len() && fields_within(fa, fb),
            _ => false,
        },
        TypeM::Tuple(ta) => match b {
            TypeM::Tuple(tb) => ta.len() == tb.len() && elems_eq(ta, tb),
            _ => false,
        },
        TypeM::Func(a1, b1) => match b {
            TypeM::Func(a2, b2) => type_eq(*a1, *a2) && type_eq(*b1, *b2),
            _ => false,
        },
        _ => a == b,
    }
}

/// Each field of `fa` is a field of `fb` with an equal type.
pub open spec fn fields_within(fa: Seq<(Seq<char>, TypeM)>, fb: Seq<(Seq<char>, TypeM)>) -> bool
    decreases fa,
{
    if fa.len() == 0 {
        true
    } else {
        fields_within(fa.subrange(0, fa.len() - 1), fb) && match lookup_in(
            fb,
            fa[fa.len() - 1].0,
        ) {
            Some(t) => type_eq(fa[fa.len() - 1].1, t),
            None => false,
        }
    }
}

/// Elementwise equality of the first `ta.len()` types.
pub open spec fn elems_eq(ta: Seq<TypeM>, tb: Seq<TypeM>) -> bool
    decreases ta,
{
    if ta.len() == 0 {
        true
    } else {
        elems_eq(ta.subrange(0, ta.len() - 1), tb) && type_eq(ta[ta.len() - 1], tb[ta.len() - 1])
    }
}

/// The type of the last field named `name`.
pub fn field_type(fs: &Vec<(Name, Type)>, name: &Name) -> (r: Option<Type>)
    ensures
        match r {
            Some(t) => lookup_in(fields_view(fs@), name@) == Some(t@),
            None => lookup_in(fields_view(fs@), name@) is None,
        },
{
    proof {
        lemma_fields_view(fs@);
        assert(fields_view(fs@).subrange(0, fs@.len() as int) =~= fields_view(fs@));
    }
    let mut i: usize = fs.len();
    while i > 0
        invariant
            i <= fs@.len(),
            fields_view(fs@).len() == fs@.len(),
            forall|j: int|
                0 <= j < fs@.len() ==> #[trigger] fields_view(fs@)[j] == (fs@[j].0@, fs@[j].1@),
            lookup_in(fields_view(fs@), name@) == lookup_in(
                fields_view(fs@).subrange(0, i as int),
                name@,
            ),
        decreases i,
    {
        let ghost s = fields_view(fs@).subrange(0, i as int);
        proof {
            assert(s.subrange(0, s.len() - 1) =~= fields_view(fs@).subrange(0, i - 1));
        }
        if fs[i - 1].0.same(name) {
            return Some(fs[i - 1].1.clone());
        }
        i = i - 1;
    }
    None
}

/// Decides `type_eq`.
pub fn same_type(a: &Type, b: &Type) -> (r: bool)
    ensures
        r == type_eq(a@, b@),
    decreases a,
{
    match (a, b) {
        (Type::Record(fa), Type::Record(fb)) => {
            proof {
                lemma_fields_view(fa@);
                lemma_fields_view(fb@);
                assert(decreases_to!(*a => *fa));
            }
            if fa.len() != fb.len() {
                return false;
            }
            let ghost va = fields_view(fa@);
            let ghost vb = fields_view(fb@);
            proof {
                assert(va.subrange(0, 0) =~= Seq::<(Seq<char>, TypeM)>::empty());
            }
            let mut i: usize = 0;
            while i < fa.len()
                invariant
                    decreases_to!(*a => *fa),
                    i <= fa@.len(),
                    fa@.len() == fb@.len(),
                    va == fields_view(fa@),
                    vb == fields_view(fb@),
                    va.len() == fa@.len(),
                    forall|j: int|
                        0 <= j < fa@.len() ==> #[trigger] va[j] == (fa@[j].0@, fa@[j].1@),
                    a@ == TypeM::Record(va),
                    b@ == TypeM::Record(vb),
                    fields_within(va.subrange(0, i as int), vb),
                decreases fa@.len() - i,
            {
                proof {
                    assert(decreases_to!(*fa => fa[i as int]));
                    assert(decreases_to!(fa[i as int] => fa[i as int].1));
                    let p = va.subrange(0, i + 1);
                    assert(p.subrange(0, p.len() - 1) =~= va.subrange(0, i as int));
                }
                let ok = match field_type(fb, &fa[i].0) {
                    Some(t) => same_type(&fa[i].1, &t),
                    None => false,
                };
                if !ok {
                    proof {
                        lemma_fields_within_prefix(va, vb, i + 1, va.len() as int);
                        assert(va.subrange(0, va.len() as int) =~= va);
                    }
                    return false;
                }
                i = i + 1;
            }
            proof {
                assert(va.subrange(0, va.len() as int) =~= va);
            }
            true
        },
        (Type::Tuple(ta), Type::Tuple(tb)) => {
            proof {
                lemma_types_view(ta@);
                lemma_types_view(tb@);
                assert(decreases_to!(*a => *ta));
            }
            if ta.len() != tb.len() {
                return false;
            }
            let ghost va = types_view(ta@);
            let ghost vb = types_view(tb@);
            proof {
                assert(va.subrange(0, 0) =~= Seq::<TypeM>::empty());
            }
            let mut i: usize = 0;
            while i < ta.len()
                invariant
                    decreases_to!(*a => *ta),
                    i <= ta@.len(),
                    ta@.len() == tb@.len(),
                    va == types_view(ta@),
                    vb == types_view(tb@),
                    va.len() == ta@.len(),
                    vb.len() == tb@.len(),
                    forall|j: int| 0 <= j < ta@.len() ==> #[trigger] va[j] == ta@[j]@,
                    forall|j: int| 0 <= j < tb@.len() ==> #[trigger] vb[j] == tb@[j]@,
                    a@ == TypeM::Tuple(va),
                    b@ == TypeM::Tuple(vb),
                    elems_eq(va.subrange(0, i as int), vb),
                decreases ta@.len() - i,
            {
                proof {
                    assert(decreases_to!(*ta => ta[i as int]));
                    let p = va.subrange(0, i + 1);
                    assert(p.subrange(0, p.len() - 1) =~= va.subrange(0, i as int));
                }
                if !same_type(&ta[i], &tb[i]) {
                    proof {
                        lemma_elems_eq_prefix(va, vb, i + 1, va.len() as int);
                        assert(va.subrange(0, va.len() as int) =~= va);
                    }
                    return false;
                }
                i = i + 1;
            }
            proof {
                assert(va.subrange(0, va.len() as int) =~= va);
            }
            true
        },
        (Type::Func(a1, b1), Type::Func(a2, b2)) => same_type(a1, a2) && same_type(b1, b2),
        (Type::Nil, Type::Nil) => true,
        (Type::Number, Type::Number) => true,
        (Type::String_, Type::String_) => true,
        (Type::Param(n1, d1), Type::Param(n2, d2)) => d1.0 == d2.0 && n1.same(n2),
        (Type::Type, Type::Type) => true,
        (Type::Error, Type::Error) => true,
        _ => false,
    }
}

proof fn lemma_fields_within_prefix(
    fa: Seq<(Seq<char>, TypeM)>,
    fb: Seq<(Seq<char>, TypeM)>,
    i: int,
    j: int,
)
    requires
        0 <= i <= j <= fa.len(),
        !fields_within(fa.subrange(0, i), fb),
    ensures
        !fields_within(fa.subrange(0, j), fb),
    decreases j - i,
{
    if j > i {
        lemma_fields_within_prefix(fa, fb, i, j - 1);
        assert(fa.subrange(0, j).subrange(0, j - 1) =~= fa.subrange(0, j - 1));
    }
}

proof fn lemma_elems_eq_prefix(ta: Seq<TypeM>, tb: Seq<TypeM>, i: int, j: int)
    requires
        0 <= i <= j <= ta.len(),
        !elems_eq(ta.subrange(0, i), tb),
    ensures
        !elems_eq(ta.subrange(0, j), tb),
    decreases j - i,
{
    if j > i {
        lemma_elems_eq_prefix(ta, tb, i, j - 1);
        assert(ta.subrange(0, j).subrange(0, j - 1) =~= ta.subrange(0, j - 1));
        assert(ta.subrange(0, j)[j - 1] == ta[j - 1]);
    }
}

impl PartialEq for Type {
    fn eq(&self, other: &Type) -> (r: bool) {
        same_type(self, other)
    }
}

impl vstd::std_specs::cmp::PartialEqSpecImpl for Type {
    open spec fn obeys_eq_spec() -> bool {
        true
    }

    open spec fn eq_spec(&self, other: &Type) -> bool {
        type_eq(self@, other@)
    }
}

} // verus!
