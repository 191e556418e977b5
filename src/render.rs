//! Text for types and values, as shown to people.
use crate::types::{Type, TypeM, fields_view, lemma_fields_view, lemma_types_view, types_view};
use crate::util::push_char;
use crate::value::{
    Value, ValueM, lemma_value_fields_view, lemma_values_view, value_fields_view, values_view,
};
use vstd::prelude::*;

verus! {

pub open spec fn digit(d: nat) -> char {
    if d == 0 { '0' } else if d == 1 { '1' } else if d == 2 { '2' } else if d == 3 { '3' }
    else if d == 4 { '4' } else if d == 5 { '5' } else if d == 6 { '6' } else if d == 7 { '7' }
    else if d == 8 { '8' } else { '9' }
}

/// Decimal digits of `n`, most significant first.
pub open spec fn nat_text(n: nat) -> Seq<char>
    decreases n,
{
    if n < 10 {
        seq![digit(n)]
    } else {
        nat_text(n / 10).push(digit(n % 10))
    }
}

/// Decimal text of `n`, with a minus sign when negative.
pub open spec fn int_text(n: int) -> Seq<char> {
    if n < 0 {
        seq!['-'] + nat_text((-n) as nat)
    } else {
        nat_text(n as nat)
    }
}

pub open spec fn hex_digit(d: nat) -> char {
    if d < 10 {
        digit(d)
    } else if d == 10 {
        'a'
    } else if d == 11 {
        'b'
    } else if d == 12 {
        'c'
    } else if d == 13 {
        'd'
    } else if d == 14 {
        'e'
    } else {
        'f'
    }
}

/// Whether `c` is an ASCII control character other than those with a
/// letter escape.
pub open spec fn other_control(c: char) -> bool {
    ((c as u32) < 0x20 || (c as u32) == 0x7f) && c != '\0' && c != '\n' && c != '\r' && c != '\t'
}

/// `\u{..}` with the code of a character below 256, in lower-case hex.
pub open spec fn unicode_escape(n: nat) -> Seq<char> {
    if n < 16 {
        seq!['\\', 'u', '{', hex_digit(n), '}']
    } else {
        seq!['\\', 'u', '{', hex_digit(n / 16), hex_digit(n % 16), '}']
    }
}

/// How one character of a string is written inside quotes, as in a Rust
/// string literal shown with `{:?}`, for every ASCII character.
pub open spec fn quoted_char(c: char) -> Seq<char> {
    if c == '"' {
        seq!['\\', '"']
    } else if c == '\\' {
        seq!['\\', '\\']
    } else if c == '\n' {
        seq!['\\', 'n']
    } else if c == '\r' {
        seq!['\\', 'r']
    } else if c == '\t' {
        seq!['\\', 't']
    } else if c == '\0' {
        seq!['\\', '0']
    } else if other_control(c) {
        unicode_escape(c as u32 as nat)
    } else {
        seq![c]
    }
}

pub open spec fn quoted_body(s: Seq<char>) -> Seq<char>
    decreases s.len(),
{
    if s.len() == 0 {
        Seq::empty()
    } else {
        quoted_body(s.subrange(0, s.len() - 1)) + quoted_char(s[s.len() - 1])
    }
}

/// A string as a quoted literal.
pub open spec fn quoted(s: Seq<char>) -> Seq<char> {
    seq!['"'] + quoted_body(s) + seq!['"']
}

/// The text of a type: `Nil`, `Number`, `String`, `Type`, `TypeError`,
/// `Fn(a)(b)`, `(a, b)`, `{x: a, y: b}`, or a parameter's name.
pub open spec fn type_text(t: TypeM) -> Seq<char>
    decreases t,
{
    match t {
        TypeM::Nil => "Nil"@,
        TypeM::Record(fs) => "{"@ + type_fields_text(fs) + "}"@,
        TypeM::Tuple(ts) => "("@ + types_text(ts) + ")"@,
        TypeM::Func(a, b) => "Fn("@ + type_text(*a) + ")("@ + type_text(*b) + ")"@,
        TypeM::Number => "Number"@,
        TypeM::Str => "String"@,
        TypeM::Param(n, _) => n,
        TypeM::Type => "Type"@,
        TypeM::Error => "TypeError"@,
    }
}

/// Texts of types joined by `, `.
pub open spec fn types_text(ts: Seq<TypeM>) -> Seq<char>
    decreases ts,
{
    if ts.len() == 0 {
        Seq::empty()
    } else if ts.len() == 1 {
        type_text(ts[0])
    } else {
        types_text(ts.subrange(0, ts.len() - 1)) + ", "@ + type_text(ts[ts.len() - 1])
    }
}

/// Record type fields as `name: type`, joined by `, `.
pub open spec fn type_fields_text(fs: Seq<(Seq<char>, TypeM)>) -> Seq<char>
    decreases fs,
{
    if fs.len() == 0 {
        Seq::empty()
    } else if fs.len() == 1 {
        fs[0].0 + ": "@ + type_text(fs[0].1)
    } else {
        type_fields_text(fs.subrange(0, fs.len() - 1)) + ", "@ + fs[fs.len() - 1].0 + ": "@
            + type_text(fs[fs.len() - 1].1)
    }
}

/// The text of a value: `nil`, numbers in decimal, strings quoted, `(a, b)`,
/// `{x=a, y=b}`, `[Function]`, `[Builtin]`, or the text of a type.
pub open spec fn value_text(v: ValueM) -> Seq<char>
    decreases v,
{
    match v {
        ValueM::Nil => "nil"@,
        ValueM::Record(fs) => "{"@ + value_fields_text(fs) + "}"@,
        ValueM::Tuple(vs) => "("@ + values_text(vs) + ")"@,
        ValueM::Closure(..) => "[Function]"@,
        ValueM::Builtin(_) => "[Builtin]"@,
        ValueM::Number(n) => int_text(n as int),
        ValueM::Str(s) => quoted(s),
        ValueM::Type(t) => type_text(t),
    }
}

/// Texts of values joined by `, `.
pub open spec fn values_text(vs: Seq<ValueM>) -> Seq<char>
    decreases vs,
{
    if vs.len() == 0 {
        Seq::empty()
    } else if vs.len() == 1 {
        value_text(vs[0])
    } else {
        values_text(vs.subrange(0, vs.len() - 1)) + ", "@ + value_text(vs[vs.len() - 1])
    }
}

/// Record fields as `name=value`, joined by `, `.
pub open spec fn value_fields_text(fs: Seq<(Seq<char>, ValueM)>) -> Seq<char>
    decreases fs,
{
    if fs.len() == 0 {
        Seq::empty()
    } else if fs.len() == 1 {
        fs[0].0 + "="@ + value_text(fs[0].1)
    } else {
        value_fields_text(fs.subrange(0, fs.len() - 1)) + ", "@ + fs[fs.len() - 1].0 + "="@
            + value_text(fs[fs.len() - 1].1)
    }
}

fn push_str(out: &mut String, s: &str)
    ensures
        final(out)@ == old(out)@ + s@,
{
    out.append(s);
}

pub fn push_nat(out: &mut String, n: u128)
    ensures
        final(out)@ == old(out)@ + nat_text(n as nat),
    decreases n,
{
    if n >= 10 {
        push_nat(out, n / 10);
    }
    let d = n % 10;
    let c = if d == 0 { '0' } else if d == 1 { '1' } else if d == 2 { '2' } else if d == 3 { '3' }
        else if d == 4 { '4' } else if d == 5 { '5' } else if d == 6 { '6' } else if d == 7 { '7' }
        else if d == 8 { '8' } else { '9' };
    push_char(out, c);
    proof {
        if n >= 10 {
            assert(final(out)@ =~= old(out)@ + nat_text(n as nat));
        } else {
            assert(final(out)@ =~= old(out)@ + nat_text(n as nat));
        }
    }
}

/// The start of a message asking for a tuple with an element at `index`.
pub open spec fn arity_text(index: nat) -> Seq<char> {
    "expected a tuple with at least "@ + nat_text(index + 1) + " elements"@
}

pub fn arity_message(index: usize) -> (r: String)
    ensures
        r@ == arity_text(index as nat),
{
    let mut m = String::from_str("expected a tuple with at least ");
    push_nat(&mut m, index as u128 + 1);
    m.append(" elements");
    m
}

/// `prefix` followed by the text of `v`.
pub fn value_message(prefix: &str, v: &Value) -> (r: String)
    ensures
        r@ == prefix@ + value_text(v@),
{
    let mut m = String::from_str(prefix);
    push_value(&mut m, v);
    m
}

/// Appends the decimal text of `n`.
pub fn push_int(out: &mut String, n: i64)
    ensures
        final(out)@ == old(out)@ + int_text(n as int),
{
    if n < 0 {
        push_char(out, '-');
        let m: u64 = if n == i64::MIN {
            9223372036854775808u64
        } else {
            (-n) as u64
        };
        let ghost mid = out@;
        push_nat(out, m as u128);
        proof {
            assert(out@ =~= old(out)@ + int_text(n as int));
        }
    } else {
        push_nat(out, n as u128);
    }
}

fn hex_char(d: u32) -> (r: char)
    requires
        d < 16,
    ensures
        r == hex_digit(d as nat),
{
    if d == 0 { '0' } else if d == 1 { '1' } else if d == 2 { '2' } else if d == 3 { '3' }
    else if d == 4 { '4' } else if d == 5 { '5' } else if d == 6 { '6' } else if d == 7 { '7' }
    else if d == 8 { '8' } else if d == 9 { '9' } else if d == 10 { 'a' } else if d == 11 { 'b' }
    else if d == 12 { 'c' } else if d == 13 { 'd' } else if d == 14 { 'e' } else { 'f' }
}

/// Appends `s` as a quoted literal.
pub fn push_quoted(out: &mut String, s: &str)
    ensures
        final(out)@ == old(out)@ + quoted(s@),
{
    broadcast use vstd::string::group_string_axioms;

    let ghost start = out@;
    push_char(out, '"');
    for c in it: s.chars()
        invariant
            it.seq() == s@,
            out@ == start + seq!['"'] + quoted_body(s@.subrange(0, it.index() as int)),
    {
        proof {
            let p = s@.subrange(0, it.index() + 1);
            assert(p.subrange(0, p.len() - 1) =~= s@.subrange(0, it.index() as int));
        }
        let ghost before = out@;
        if c == '"' {
            push_char(out, '\\');
            push_char(out, '"');
        } else if c == '\\' {
            push_char(out, '\\');
            push_char(out, '\\');
        } else if c == '\n' {
            push_char(out, '\\');
            push_char(out, 'n');
        } else if c == '\r' {
            push_char(out, '\\');
            push_char(out, 'r');
        } else if c == '\t' {
            push_char(out, '\\');
            push_char(out, 't');
        } else if c == '\0' {
            push_char(out, '\\');
            push_char(out, '0');
        } else if (c as u32) < 0x20 || (c as u32) == 0x7f {
            let n = c as u32;
            push_char(out, '\\');
            push_char(out, 'u');
            push_char(out, '{');
            if n >= 16 {
                push_char(out, hex_char(n / 16));
            }
            push_char(out, hex_char(n % 16));
            push_char(out, '}');
        } else {
            push_char(out, c);
        }
        proof {
            assert(out@ =~= before + quoted_char(c));
            assert(out@ =~= start + seq!['"'] + quoted_body(s@.subrange(0, it.index() + 1)));
        }
    }
    proof {
        assert(s@.subrange(0, s@.len() as int) =~= s@);
    }
    push_char(out, '"');
    proof {
        assert(out@ =~= old(out)@ + quoted(s@));
    }
}


/// Appends the text of a type.
pub fn push_type(out: &mut String, t: &Type)
    ensures
        final(out)@ == old(out)@ + type_text(t@),
    decreases t,
{
    let ghost start = out@;
    match t {
        Type::Nil => push_str(out, "Nil"),
        Type::Record(fs) => {
            push_str(out, "{");
            proof {
                lemma_fields_view(fs@);
                assert(fields_view(fs@).subrange(0, 0) =~= Seq::empty());
                assert(decreases_to!(*t => *fs));
            }
            let mut i: usize = 0;
            while i < fs.len()
                invariant
                    decreases_to!(*t => *fs),
                    i <= fs@.len(),
                    fields_view(fs@).len() == fs@.len(),
                    forall|j: int|
                        0 <= j < fs@.len() ==> #[trigger] fields_view(fs@)[j] == (
                            fs@[j].0@,
                            fs@[j].1@,
                        ),
                    out@ == start + "{"@ + type_fields_text(fields_view(fs@).subrange(0, i as int)),
                decreases fs@.len() - i,
            {
                proof {
                    assert(decreases_to!(*fs => fs[i as int]));
                    assert(decreases_to!(fs[i as int] => fs[i as int].1));
                    let p = fields_view(fs@).subrange(0, i + 1);
                    assert(p.subrange(0, p.len() - 1) =~= fields_view(fs@).subrange(0, i as int));
                }
                let ghost before = out@;
                if i > 0 {
                    push_str(out, ", ");
                }
                push_str(out, fs[i].0.as_str());
                push_str(out, ": ");
                push_type(out, &fs[i].1);
                proof {
                    assert(out@ =~= start + "{"@ + type_fields_text(
                        fields_view(fs@).subrange(0, i + 1),
                    ));
                }
                i = i + 1;
            }
            push_str(out, "}");
            proof {
                assert(fields_view(fs@).subrange(0, fs@.len() as int) =~= fields_view(fs@));
                assert(out@ =~= start + type_text(t@));
            }
        },
        Type::Tuple(ts) => {
            push_str(out, "(");
            proof {
                lemma_types_view(ts@);
                assert(types_view(ts@).subrange(0, 0) =~= Seq::empty());
                assert(decreases_to!(*t => *ts));
            }
            let mut i: usize = 0;
            while i < ts.len()
                invariant
                    decreases_to!(*t => *ts),
                    i <= ts@.len(),
                    types_view(ts@).len() == ts@.len(),
                    forall|j: int| 0 <= j < ts@.len() ==> #[trigger] types_view(ts@)[j] == ts@[j]@,
                    out@ == start + "("@ + types_text(types_view(ts@).subrange(0, i as int)),
                decreases ts@.len() - i,
            {
                proof {
                    assert(decreases_to!(*ts => ts[i as int]));
                    let p = types_view(ts@).subrange(0, i + 1);
                    assert(p.subrange(0, p.len() - 1) =~= types_view(ts@).subrange(0, i as int));
                }
                if i > 0 {
                    push_str(out, ", ");
                }
                push_type(out, &ts[i]);
                proof {
                    assert(out@ =~= start + "("@ + types_text(types_view(ts@).subrange(0, i + 1)));
                }
                i = i + 1;
            }
            push_str(out, ")");
            proof {
                assert(types_view(ts@).subrange(0, ts@.len() as int) =~= types_view(ts@));
                assert(out@ =~= start + type_text(t@));
            }
        },
        Type::Func(a, b) => {
            push_str(out, "Fn(");
            push_type(out, a);
            push_str(out, ")(");
            push_type(out, b);
            push_str(out, ")");
            proof {
                assert(out@ =~= start + type_text(t@));
            }
        },
        Type::Number => push_str(out, "Number"),
        Type::String_ => push_str(out, "String"),
        Type::Param(n, _) => push_str(out, n.as_str()),
        Type::Type => push_str(out, "Type"),
        Type::Error => push_str(out, "TypeError"),
    }
}

/// Appends the text of a value.
pub fn push_value(out: &mut String, v: &Value)
    ensures
        final(out)@ == old(out)@ + value_text(v@),
    decreases v,
{
    let ghost start = out@;
    match v {
        Value::Nil => push_str(out, "nil"),
        Value::Record(fs) => {
            push_str(out, "{");
            proof {
                lemma_value_fields_view(fs@);
                assert(value_fields_view(fs@).subrange(0, 0) =~= Seq::empty());
                assert(decreases_to!(*v => *fs));
            }
            let mut i: usize = 0;
            while i < fs.len()
                invariant
                    decreases_to!(*v => *fs),
                    i <= fs@.len(),
                    value_fields_view(fs@).len() == fs@.len(),
                    forall|j: int|
                        0 <= j < fs@.len() ==> #[trigger] value_fields_view(fs@)[j] == (
                            fs@[j].0@,
                            fs@[j].1@,
                        ),
                    out@ == start + "{"@ + value_fields_text(
                        value_fields_view(fs@).subrange(0, i as int),
                    ),
                decreases fs@.len() - i,
            {
                proof {
                    assert(decreases_to!(*fs => fs[i as int]));
                    assert(decreases_to!(fs[i as int] => fs[i as int].1));
                    let p = value_fields_view(fs@).subrange(0, i + 1);
                    assert(p.subrange(0, p.len() - 1) =~= value_fields_view(fs@).subrange(
                        0,
                        i as int,
                    ));
                }
                if i > 0 {
                    push_str(out, ", ");
                }
                push_str(out, fs[i].0.as_str());
                push_str(out, "=");
                push_value(out, &fs[i].1);
                proof {
                    assert(out@ =~= start + "{"@ + value_fields_text(
                        value_fields_view(fs@).subrange(0, i + 1),
                    ));
                }
                i = i + 1;
            }
            push_str(out, "}");
            proof {
                assert(value_fields_view(fs@).subrange(0, fs@.len() as int) =~= value_fields_view(
                    fs@,
                ));
                assert(out@ =~= start + value_text(v@));
            }
        },
        Value::Tuple(vs) => {
            push_str(out, "(");
            proof {
                lemma_values_view(vs@);
                assert(values_view(vs@).subrange(0, 0) =~= Seq::empty());
                assert(decreases_to!(*v => *vs));
            }
            let mut i: usize = 0;
            while i < vs.len()
                invariant
                    decreases_to!(*v => *vs),
                    i <= vs@.len(),
                    values_view(vs@).len() == vs@.len(),
                    forall|j: int| 0 <= j < vs@.len() ==> #[trigger] values_view(vs@)[j] == vs@[j]@,
                    out@ == start + "("@ + values_text(values_view(vs@).subrange(0, i as int)),
                decreases vs@.len() - i,
            {
                proof {
                    assert(decreases_to!(*vs => vs[i as int]));
                    let p = values_view(vs@).subrange(0, i + 1);
                    assert(p.subrange(0, p.len() - 1) =~= values_view(vs@).subrange(0, i as int));
                }
                if i > 0 {
                    push_str(out, ", ");
                }
                push_value(out, &vs[i]);
                proof {
                    assert(out@ =~= start + "("@ + values_text(values_view(vs@).subrange(0, i + 1)));
                }
                i = i + 1;
            }
            push_str(out, ")");
            proof {
                assert(values_view(vs@).subrange(0, vs@.len() as int) =~= values_view(vs@));
                assert(out@ =~= start + value_text(v@));
            }
        },
        Value::Closure(..) => push_str(out, "[Function]"),
        Value::BuiltinFunc(_) => push_str(out, "[Builtin]"),
        Value::Number(n) => push_int(out, n.0),
        Value::String_(s) => push_quoted(out, s.as_str()),
        Value::Type(t) => push_type(out, t),
    }
}

impl Type {
    /// The text of this type.
    pub fn to_text(&self) -> (r: String)
        ensures
            r@ == type_text(self@),
    {
        let mut out = String::new();
        push_type(&mut out, self);
        proof {
            assert(out@ =~= type_text(self@));
        }
        out
    }
}

impl Value {
    /// The text of this value.
    pub fn to_text(&self) -> (r: String)
        ensures
            r@ == value_text(self@),
    {
        let mut out = String::new();
        push_value(&mut out, self);
        proof {
            assert(out@ =~= value_text(self@));
        }
        out
    }
}

} // verus!
