//! The expression model the rewriter works on.
//!
//! Scripts are parsed by the host pipeline; the rewriter only needs to see a
//! few expression shapes exactly (meta-property accesses, member accesses,
//! literals) and to traverse everything else generically. `Expr` models those
//! shapes; any other node kind is carried as `Other` with its child
//! expressions. `ExprView` is the mathematical image of a tree, used by every
//! contract.

use vstd::prelude::*;

verus! {

/// A numeric literal appearing as a computed member key.
///
/// Only the facts the matcher reads are kept: whether the literal has zero
/// fractional part, and if so its value as an index. The grammar never
/// produces a negative literal (a minus sign is a separate unary node).
#[derive(Debug, Clone, Copy, PartialEq, Eq)]
pub enum NumLit {
    /// A whole-number literal with value `n`.
    Whole(usize),
    /// A numeric literal with a nonzero fractional part.
    NonWhole,
}

/// The property part of a member access: `obj.name` or `obj[key]`.
#[derive(Debug, PartialEq)]
pub enum MemberProp {
    Ident(String),
    Computed(Box<Expr>),
}

/// An expression tree.
#[derive(Debug, PartialEq)]
pub enum Expr {
    /// The meta-property `import.meta`.
    ImportMeta,
    /// An identifier.
    Ident(String),
    /// A string literal.
    Str(String),
    /// A numeric literal.
    Num(NumLit),
    /// A member access: object and property.
    Member(Box<Expr>, MemberProp),
    /// An array literal.
    Array(Vec<Expr>),
    /// An object literal of identifier keys and value expressions.
    Object(Vec<(String, Expr)>),
    /// A call: callee and arguments.
    Call(Box<Expr>, Vec<Expr>),
    /// Any other node kind, with its child expressions.
    Other(Vec<Expr>),
}

/// The mathematical image of a `MemberProp`.
#[verifier::ext_equal]
pub ghost enum MemberPropView {
    Ident(Seq<char>),
    Computed(Box<ExprView>),
}

/// The mathematical image of an `Expr`.
#[verifier::ext_equal]
pub ghost enum ExprView {
    ImportMeta,
    Ident(Seq<char>),
    Str(Seq<char>),
    Num(NumLit),
    Member(Box<ExprView>, MemberPropView),
    Array(Seq<ExprView>),
    Object(Seq<(Seq<char>, ExprView)>),
    Call(Box<ExprView>, Seq<ExprView>),
    Other(Seq<ExprView>),
}

/// The image of a `MemberProp` under `expr_view`.
pub open spec fn member_prop_view(p: MemberProp) -> MemberPropView
    decreases p,
{
    match p {
        MemberProp::Ident(name) => MemberPropView::Ident(name@),
        MemberProp::Computed(key) => MemberPropView::Computed(Box::new(expr_view(*key))),
    }
}

/// The mathematical image of an expression tree.
pub open spec fn expr_view(e: Expr) -> ExprView
    decreases e,
{
    match e {
        Expr::ImportMeta => ExprView::ImportMeta,
        Expr::Ident(name) => ExprView::Ident(name@),
        Expr::Str(value) => ExprView::Str(value@),
        Expr::Num(num) => ExprView::Num(num),
        Expr::Member(obj, prop) => ExprView::Member(
            Box::new(expr_view(*obj)),
            member_prop_view(prop),
        ),
        Expr::Array(elems) => ExprView::Array(expr_view_seq(elems@)),
        Expr::Object(props) => ExprView::Object(prop_view_seq(props@)),
        Expr::Call(callee, args) => ExprView::Call(
            Box::new(expr_view(*callee)),
            expr_view_seq(args@),
        ),
        Expr::Other(children) => ExprView::Other(expr_view_seq(children@)),
    }
}

/// The elementwise image of a sequence of expressions.
pub open spec fn expr_view_seq(s: Seq<Expr>) -> Seq<ExprView>
    decreases s,
{
    if s.len() == 0 {
        Seq::<ExprView>::empty()
    } else {
        expr_view_seq(s.subrange(0, s.len() - 1)).push(expr_view(s[s.len() - 1]))
    }
}

/// The elementwise image of a sequence of object-literal properties.
pub open spec fn prop_view_seq(s: Seq<(String, Expr)>) -> Seq<(Seq<char>, ExprView)>
    decreases s,
{
    if s.len() == 0 {
        Seq::<(Seq<char>, ExprView)>::empty()
    } else {
        prop_view_seq(s.subrange(0, s.len() - 1)).push(
            (s[s.len() - 1].0@, expr_view(s[s.len() - 1].1)),
        )
    }
}

/// `expr_view_seq` maps a sequence elementwise.
pub proof fn lemma_expr_view_seq(s: Seq<Expr>)
    ensures
        expr_view_seq(s).len() == s.len(),
        forall|i: int| 0 <= i < s.len() ==> expr_view_seq(s)[i] == expr_view(s[i]),
    decreases s.len(),
{
    if s.len() > 0 {
        lemma_expr_view_seq(s.subrange(0, s.len() - 1));
        assert(forall|i: int|
            0 <= i < s.len() - 1 ==> s.subrange(0, s.len() - 1)[i] == s[i]);
    }
}

/// `prop_view_seq` maps a sequence elementwise.
pub proof fn lemma_prop_view_seq(s: Seq<(String, Expr)>)
    ensures
        prop_view_seq(s).len() == s.len(),
        forall|i: int| 0 <= i < s.len()
            ==> prop_view_seq(s)[i] == (s[i].0@, expr_view(s[i].1)),
    decreases s.len(),
{
    if s.len() > 0 {
        lemma_prop_view_seq(s.subrange(0, s.len() - 1));
        assert(forall|i: int|
            0 <= i < s.len() - 1 ==> s.subrange(0, s.len() - 1)[i] == s[i]);
    }
}

impl View for MemberProp {
    type V = MemberPropView;

    open spec fn view(&self) -> MemberPropView {
        member_prop_view(*self)
    }
}

impl View for Expr {
    type V = ExprView;

    open spec fn view(&self) -> ExprView {
        expr_view(*self)
    }
}

} // verus!
