//! Persistent, structurally shared environments.
use crate::ast::Name;
use std::rc::Rc;
use vstd::prelude::*;

verus! {

/// One binding, and the bindings made before it.
#[derive(Debug)]
pub struct Node<T> {
    pub name: Name,
    pub item: T,
    pub next: Option<Rc<Node<T>>>,
}

/// An append-only list of bindings, newest first. Extending shares every
/// existing node, so a context stays valid and unchanged after any number
/// of extensions of it.
#[derive(Debug)]
pub struct Context<T> {
    pub head: Option<Rc<Node<T>>>,
}

/// The bindings reachable from a node, oldest first.
pub open spec fn node_entries<T>(n: Option<Rc<Node<T>>>) -> Seq<(Seq<char>, T)>
    decreases n,
{
    match n {
        None => Seq::empty(),
        Some(node) => node_entries(node.next).push((node.name@, node.item)),
    }
}

/// The bindings made before the newest one.
pub open spec fn tail<T>(n: Option<Rc<Node<T>>>) -> Option<Rc<Node<T>>> {
    match n {
        None => None,
        Some(node) => node.next,
    }
}

/// The most recent binding of `name` in `s`, whose last element is newest.
pub open spec fn lookup_in<T>(s: Seq<(Seq<char>, T)>, name: Seq<char>) -> Option<T>
    decreases s.len(),
{
    if s.len() == 0 {
        None
    } else if s[s.len() - 1].0 == name {
        Some(s[s.len() - 1].1)
    } else {
        lookup_in(s.subrange(0, s.len() - 1), name)
    }
}

/// Bindings with each item replaced by its model.
pub open spec fn model_of<T: View>(s: Seq<(Seq<char>, T)>) -> Seq<(Seq<char>, T::V)> {
    s.map_values(|p: (Seq<char>, T)| (p.0, p.1@))
}

pub proof fn lemma_lookup_model<T: View>(s: Seq<(Seq<char>, T)>, name: Seq<char>)
    ensures
        lookup_in(model_of(s), name) == match lookup_in(s, name) {
            Some(v) => Some(v@),
            None => None::<T::V>,
        },
    decreases s.len(),
{
    if s.len() > 0 {
        let t = s.subrange(0, s.len() - 1);
        assert(model_of(s).subrange(0, s.len() - 1) =~= model_of(t));
        lemma_lookup_model(t, name);
    }
}

impl<T> Context<T> {
    /// The bindings, oldest first.
    pub open spec fn entries(&self) -> Seq<(Seq<char>, T)> {
        node_entries(self.head)
    }

    /// A context without bindings.
    pub fn empty() -> (r: Self)
        ensures
            r.entries() == Seq::<(Seq<char>, T)>::empty(),
    {
        Context { head: None }
    }

    /// A new context that adds `name` bound to `item`, sharing this one.
    pub fn extend(&self, name: Name, item: T) -> (r: Self)
        ensures
            r.entries() == self.entries().push((name@, item)),
    {
        let next = match &self.head {
            Some(n) => Some(Rc::clone(n)),
            None => None,
        };
        Context { head: Some(Rc::new(Node { name, item, next })) }
    }

    /// The item of the most recent binding of `name`.
    pub fn lookup(&self, name: &Name) -> (r: Option<&T>)
        ensures
            match r {
                Some(v) => lookup_in(self.entries(), name@) == Some(*v),
                None => lookup_in(self.entries(), name@) is None,
            },
    {
        let mut cur: &Option<Rc<Node<T>>> = &self.head;
        while cur.is_some()
            invariant
                lookup_in(self.entries(), name@) == lookup_in(node_entries(*cur), name@),
            decreases node_entries(*cur).len(),
        {
            let node: &Rc<Node<T>> = cur.as_ref().unwrap();
            proof {
                let s = node_entries(*cur);
                assert(s.subrange(0, s.len() - 1) =~= node_entries(node.next));
            }
            if node.name.same(name) {
                return Some(&node.item);
            }
            cur = &node.next;
        }
        None
    }
}

impl<T> Clone for Context<T> {
    /// Shares the same bindings.
    fn clone(&self) -> (r: Self)
        ensures
            r == *self,
    {
        match &self.head {
            Some(n) => Context { head: Some(Rc::clone(n)) },
            None => Context { head: None },
        }
    }
}

/// Extending with another name leaves an earlier binding visible, and the
/// context extended is unchanged by either extension.
pub proof fn law_extend_keeps_other_names<T>(
    c: Context<T>,
    n1: Seq<char>,
    v1: T,
    n2: Seq<char>,
    v2: T,
)
    requires
        n1 != n2,
    ensures
        lookup_in(c.entries().push((n1, v1)).push((n2, v2)), n1) == Some(v1),
        lookup_in(c.entries().push((n1, v1)).push((n2, v2)), n2) == Some(v2),
        c.entries().push((n1, v1)).push((n2, v2)).subrange(0, c.entries().len() as int)
            == c.entries(),
{
    let s = c.entries().push((n1, v1)).push((n2, v2));
    assert(s.subrange(0, s.len() - 1) =~= c.entries().push((n1, v1)));
    assert(lookup_in(c.entries().push((n1, v1)), n1) == Some(v1));
    assert(s.subrange(0, c.entries().len() as int) =~= c.entries());
}

/// A later binding of a name hides an earlier one.
pub proof fn law_extend_shadows<T>(c: Context<T>, n: Seq<char>, v1: T, v2: T)
    ensures
        lookup_in(c.entries().push((n, v1)).push((n, v2)), n) == Some(v2),
{
}

} // verus!

verus! {

/// Where the last binding of `name` in `s` stands, or -1.
pub open spec fn field_index<T>(s: Seq<(Seq<char>, T)>, name: Seq<char>) -> int
    decreases s.len(),
{
    if s.len() == 0 {
        -1
    } else if s[s.len() - 1].0 == name {
        s.len() - 1
    } else {
        field_index(s.subrange(0, s.len() - 1), name)
    }
}

/// `s` with `name` bound to `x`: an existing field of that name is replaced
/// in place, as in a map, and a new name is added at the end.
pub open spec fn put_field<T>(s: Seq<(Seq<char>, T)>, name: Seq<char>, x: T) -> Seq<
    (Seq<char>, T),
> {
    let i = field_index(s, name);
    if i < 0 {
        s.push((name, x))
    } else {
        s.update(i, (name, x))
    }
}

/// No two fields share a name.
pub open spec fn unique_names<T>(s: Seq<(Seq<char>, T)>) -> bool {
    forall|i: int, j: int| 0 <= i < j < s.len() ==> s[i].0 != s[j].0
}

pub proof fn lemma_field_index<T>(s: Seq<(Seq<char>, T)>, name: Seq<char>)
    ensures
        -1 <= field_index(s, name) < s.len(),
        field_index(s, name) >= 0 ==> s[field_index(s, name)].0 == name,
        field_index(s, name) < 0 ==> forall|j: int| 0 <= j < s.len() ==> s[j].0 != name,
    decreases s.len(),
{
    if s.len() > 0 {
        let t = s.subrange(0, s.len() - 1);
        lemma_field_index(t, name);
        if s[s.len() - 1].0 != name {
            assert forall|j: int| 0 <= j < t.len() implies t[j] == s[j] by {}
        }
    }
}

/// Binding a field keeps names unique.
pub proof fn lemma_put_field_unique<T>(s: Seq<(Seq<char>, T)>, name: Seq<char>, x: T)
    requires
        unique_names(s),
    ensures
        unique_names(put_field(s, name, x)),
{
    lemma_field_index(s, name);
    let r = put_field(s, name, x);
    assert forall|i: int, j: int| 0 <= i < j < r.len() implies r[i].0 != r[j].0 by {
        if field_index(s, name) >= 0 {
            assert(r[i].0 == s[i].0 && r[j].0 == s[j].0);
        }
    }
}

} // verus!
