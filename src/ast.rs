//! Syntax tree consumed by the checker and the evaluator.
use std::rc::Rc;
use vstd::prelude::*;

verus! {

/// A half-open range of byte offsets into the source text.
#[derive(Clone, Copy, Debug, PartialEq, Eq, Structural)]
pub struct Span {
    pub start: u32,
    pub end: u32,
}

impl Span {
    /// Builds a span from two byte offsets; both must fit in 32 bits and
    /// the start may not lie after the end.
    pub fn from_byte_offsets(start: usize, end: usize) -> (r: Span)
        requires
            start <= end,
            end <= u32::MAX,
        ensures
            r.start == start,
            r.end == end,
    {
        Span { start: start as u32, end: end as u32 }
    }
}

/// An identifier's text.
#[derive(Debug)]
pub struct Name(pub String);

impl View for Name {
    type V = Seq<char>;

    open spec fn view(&self) -> Seq<char> {
        self.0@
    }
}

impl Clone for Name {
    fn clone(&self) -> (r: Self)
        ensures
            r == *self,
    {
        Name(self.0.clone())
    }
}

impl Name {
    pub fn new(s: &str) -> (r: Name)
        ensures
            r@ == s@,
    {
        Name(String::from_str(s))
    }

    pub fn as_str(&self) -> (r: &str)
        ensures
            r@ == self@,
    {
        self.0.as_str()
    }

    /// Compares two names by their text.
    pub fn same(&self, other: &Name) -> (r: bool)
        ensures
            r == (self@ == other@),
    {
        self.0 == other.0
    }
}

/// An integer literal.
#[derive(Clone, Copy, Debug, PartialEq, Eq, Structural)]
pub struct Number(pub i64);

/// An identifier together with where it was written.
#[derive(Debug)]
pub struct Ident {
    pub name: Name,
    pub span: Span,
}

impl Clone for Ident {
    fn clone(&self) -> (r: Self)
        ensures
            r == *self,
    {
        Ident { name: self.name.clone(), span: self.span }
    }
}

impl Ident {
    pub fn new(name: &str, span: Span) -> (r: Ident)
        ensures
            r.name@ == name@,
            r.span == span,
    {
        Ident { name: Name::new(name), span }
    }
}

/// An expression node and its source span.
#[derive(Debug)]
pub struct Expr {
    pub kind: ExprKind,
    pub span: Span,
}

impl Expr {
    pub fn new(parts: (ExprKind, Span)) -> (r: Expr)
        ensures
            r.kind == parts.0,
            r.span == parts.1,
    {
        let (kind, span) = parts;
        Expr { kind, span }
    }
}

/// The shapes of expressions.
#[derive(Debug)]
pub enum ExprKind {
    /// The empty value `nil`.
    Nil,
    /// The type of `nil`.
    NilType,
    /// `{a = e, ...}`: field names are unique within a literal.
    RecordValue(Vec<(Ident, Expr)>),
    /// `{a: t, ...}`: a record type whose fields are type expressions.
    RecordType(Vec<(Ident, Expr)>),
    RecordFieldAccess(Box<Expr>, Ident),
    /// `(e, ...)`: no element is nil, one element is that element.
    Tuple(Vec<Expr>),
    TupleType(Vec<Expr>),
    TupleFieldAccess(Box<Expr>, usize),
    /// Statements, then an optional trailing expression giving the value.
    Block(Vec<Stmt>, Option<Box<Expr>>),
    Var(Ident),
    /// Parameter, optional parameter type, and a body shared by every
    /// closure value made from this node.
    Closure(Ident, Option<Box<Expr>>, Rc<Expr>),
    Call(Box<Expr>, Box<Expr>),
    NumberLiteral(Number),
    StringLiteral(String),
    Parenthesized(Box<Expr>),
}

/// A statement node and its source span.
#[derive(Debug)]
pub struct Stmt {
    pub kind: StmtKind,
    pub span: Span,
}

impl Stmt {
    pub fn new(parts: (StmtKind, Span)) -> (r: Stmt)
        ensures
            r.kind == parts.0,
            r.span == parts.1,
    {
        let (kind, span) = parts;
        Stmt { kind, span }
    }
}

#[derive(Debug)]
pub enum StmtKind {
    /// Binds a name for the rest of the enclosing block.
    Let(Ident, Box<Expr>),
}

/// One line given to an interactive session.
#[derive(Debug)]
pub struct ReplLine {
    pub kind: ReplLineKind,
    pub span: Span,
}

#[derive(Debug)]
pub enum ReplLineKind {
    /// Like a block expression, without the braces around it.
    Block(Vec<Stmt>, Option<Expr>),
}

} // verus!
