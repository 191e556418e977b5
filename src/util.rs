//! Text helpers.
use vstd::prelude::*;

verus! {

/// Relies on `String::push`: appends one character.
#[verifier::external_body]
pub(crate) fn push_char(s: &mut String, c: char)
    ensures
        final(s)@ == old(s)@.push(c),
{
    s.push(c)
}

/// The character that an escape `\c` stands for.
pub open spec fn escaped(c: char) -> char {
    if c == 'n' {
        '\n'
    } else if c == 'r' {
        '\r'
    } else if c == 't' {
        '\t'
    } else {
        c
    }
}

/// Reading `s` left to right: the text produced so far, and whether a
/// backslash is waiting for the character it escapes.
pub open spec fn unescape_state(s: Seq<char>) -> (Seq<char>, bool)
    decreases s.len(),
{
    if s.len() == 0 {
        (Seq::empty(), false)
    } else {
        let (out, escaping) = unescape_state(s.subrange(0, s.len() - 1));
        let c = s[s.len() - 1];
        if !escaping && c == '\\' {
            (out, true)
        } else if escaping {
            (out.push(escaped(c)), false)
        } else {
            (out.push(c), false)
        }
    }
}

/// `s` with each backslash escape replaced by the character it stands for;
/// a backslash at the very end is dropped.
pub open spec fn unescaped(s: Seq<char>) -> Seq<char> {
    unescape_state(s).0
}

pub fn unescape(s: &str) -> (r: String)
    ensures
        r@ == unescaped(s@),
{
    broadcast use vstd::string::group_string_axioms;

    let mut escaping = false;
    let mut output = String::new();
    for c in it: s.chars()
        invariant
            it.seq() == s@,
            (output@, escaping) == unescape_state(s@.subrange(0, it.index() as int)),
    {
        proof {
            let p = s@.subrange(0, it.index() + 1);
            assert(p.subrange(0, p.len() - 1) =~= s@.subrange(0, it.index() as int));
        }
        if !escaping && c == '\\' {
            escaping = true;
        } else {
            let e = if escaping {
                if c == 'n' {
                    '\n'
                } else if c == 'r' {
                    '\r'
                } else if c == 't' {
                    '\t'
                } else {
                    c
                }
            } else {
                c
            };
            push_char(&mut output, e);
            escaping = false;
        }
    }
    proof {
        assert(s@.subrange(0, s@.len() as int) =~= s@);
    }
    output
}

} // verus!
