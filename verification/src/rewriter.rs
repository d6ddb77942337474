//! The single-pass, depth-first, pre-order rewrite.
//!
//! At each node the classification is consulted in priority order; the first
//! matching rule that resolves replaces the node, and traversal does not
//! descend into the replacement. A special-looking access that fails to
//! resolve (absent kind, out-of-range index, or a numeric key with a nonzero
//! fractional part) is left verbatim, whole: traversal does not descend into
//! it either, so the special root below it survives untouched. Everything
//! else is traversed by recursing into child expressions.

use vstd::prelude::*;

use crate::ast::{
    Expr, ExprView, MemberProp, MemberPropView, NumLit, expr_view, expr_view_seq,
    lemma_expr_view_seq, lemma_prop_view_seq, prop_view_seq,
};
use crate::builder::{
    get_grouped_expr, get_resource_expr, get_resources_expr, grouped_view, list_view, single_view,
};
use crate::catalog::{DescView, MinimalResourceInfo, cat_view, filter_kind, of_kind};
use crate::matcher::{ClassView, Classification, classify, classify_view};

verus! {

/// What one pass of the rewrite makes of `e` against catalog `cat`.
pub open spec fn rewrite_view(cat: Seq<DescView>, e: ExprView) -> ExprView
    decreases e, 1int,
{
    match classify_view(e) {
        ClassView::NotSpecial => rewrite_children_view(cat, e),
        ClassView::WholeCollection => grouped_view(cat),
        ClassView::ByKind(k) => if of_kind(cat, k).len() > 0 {
            list_view(of_kind(cat, k))
        } else {
            e
        },
        ClassView::IndexInCollection(num) => match num {
            NumLit::Whole(n) => if n < cat.len() {
                single_view(cat[n as int])
            } else {
                e
            },
            NumLit::NonWhole => e,
        },
        ClassView::IndexInKind(k, num) => match num {
            NumLit::Whole(n) => if n < of_kind(cat, k).len() {
                single_view(of_kind(cat, k)[n as int])
            } else {
                e
            },
            NumLit::NonWhole => e,
        },
    }
}

/// The rewrite applied to each child expression of `e`, `e`'s own node kept.
pub open spec fn rewrite_children_view(cat: Seq<DescView>, e: ExprView) -> ExprView
    decreases e, 0int,
{
    match e {
        ExprView::Member(obj, prop) => ExprView::Member(
            Box::new(rewrite_view(cat, *obj)),
            match prop {
                MemberPropView::Ident(name) => MemberPropView::Ident(name),
                MemberPropView::Computed(key) => MemberPropView::Computed(
                    Box::new(rewrite_view(cat, *key)),
                ),
            },
        ),
        ExprView::Array(elems) => ExprView::Array(rewrite_seq_view(cat, elems)),
        ExprView::Object(props) => ExprView::Object(rewrite_props_view(cat, props)),
        ExprView::Call(callee, args) => ExprView::Call(
            Box::new(rewrite_view(cat, *callee)),
            rewrite_seq_view(cat, args),
        ),
        ExprView::Other(children) => ExprView::Other(rewrite_seq_view(cat, children)),
        _ => e,
    }
}

/// The rewrite applied to each element of a sequence.
pub open spec fn rewrite_seq_view(cat: Seq<DescView>, s: Seq<ExprView>) -> Seq<ExprView>
    decreases s, 0int,
{
    if s.len() == 0 {
        Seq::<ExprView>::empty()
    } else {
        rewrite_seq_view(cat, s.subrange(0, s.len() - 1)).push(
            rewrite_view(cat, s[s.len() - 1]),
        )
    }
}

/// The rewrite applied to each object-literal property value.
pub open spec fn rewrite_props_view(
    cat: Seq<DescView>,
    s: Seq<(Seq<char>, ExprView)>,
) -> Seq<(Seq<char>, ExprView)>
    decreases s, 0int,
{
    if s.len() == 0 {
        Seq::<(Seq<char>, ExprView)>::empty()
    } else {
        rewrite_props_view(cat, s.subrange(0, s.len() - 1)).push(
            (s[s.len() - 1].0, rewrite_view(cat, s[s.len() - 1].1)),
        )
    }
}

/// `rewrite_seq_view` maps a sequence elementwise.
pub proof fn lemma_rewrite_seq_view(cat: Seq<DescView>, s: Seq<ExprView>)
    ensures
        rewrite_seq_view(cat, s).len() == s.len(),
        forall|i: int| 0 <= i < s.len()
            ==> rewrite_seq_view(cat, s)[i] == rewrite_view(cat, s[i]),
    decreases s.len(),
{
    if s.len() > 0 {
        lemma_rewrite_seq_view(cat, s.subrange(0, s.len() - 1));
        assert(forall|i: int|
            0 <= i < s.len() - 1 ==> s.subrange(0, s.len() - 1)[i] == s[i]);
    }
}

/// `rewrite_props_view` maps a sequence elementwise.
pub proof fn lemma_rewrite_props_view(cat: Seq<DescView>, s: Seq<(Seq<char>, ExprView)>)
    ensures
        rewrite_props_view(cat, s).len() == s.len(),
        forall|i: int| 0 <= i < s.len()
            ==> rewrite_props_view(cat, s)[i] == (s[i].0, rewrite_view(cat, s[i].1)),
    decreases s.len(),
{
    if s.len() > 0 {
        lemma_rewrite_props_view(cat, s.subrange(0, s.len() - 1));
        assert(forall|i: int|
            0 <= i < s.len() - 1 ==> s.subrange(0, s.len() - 1)[i] == s[i]);
    }
}

/// One rewrite pass over an owned expression.
pub fn rewrite_expr(resources: &Vec<MinimalResourceInfo>, e: Expr) -> (r: Expr)
    ensures
        expr_view(r) == rewrite_view(cat_view(resources@), expr_view(e)),
    decreases e, 1int,
{
    let cls = classify(&e);
    match cls {
        Classification::NotSpecial => rewrite_children(resources, e),
        Classification::WholeCollection => get_grouped_expr(resources),
        Classification::ByKind(k) => {
            let filtered = filter_kind(resources, &k);
            if filtered.len() > 0 {
                get_resources_expr(&filtered)
            } else {
                e
            }
        },
        Classification::IndexInCollection(num) => match num {
            NumLit::Whole(n) => if n < resources.len() {
                get_resource_expr(&resources[n])
            } else {
                e
            },
            NumLit::NonWhole => e,
        },
        Classification::IndexInKind(k, num) => match num {
            NumLit::Whole(n) => {
                let filtered = filter_kind(resources, &k);
                if n < filtered.len() {
                    get_resource_expr(&filtered[n])
                } else {
                    e
                }
            },
            NumLit::NonWhole => e,
        },
    }
}

/// One rewrite pass applied to each child of an owned expression.
fn rewrite_children(resources: &Vec<MinimalResourceInfo>, e: Expr) -> (r: Expr)
    ensures
        expr_view(r) == rewrite_children_view(cat_view(resources@), expr_view(e)),
    decreases e, 0int,
{
    let ghost cat = cat_view(resources@);
    match e {
        Expr::Member(obj, prop) => {
            let new_obj = Box::new(rewrite_expr(resources, *obj));
            let new_prop = match prop {
                MemberProp::Ident(name) => MemberProp::Ident(name),
                MemberProp::Computed(key) => MemberProp::Computed(
                    Box::new(rewrite_expr(resources, *key)),
                ),
            };
            let r = Expr::Member(new_obj, new_prop);
            proof {
                reveal_with_fuel(expr_view, 2);
                reveal_with_fuel(crate::ast::member_prop_view, 2);
                assert(expr_view(r) == rewrite_children_view(cat, expr_view(e)));
            }
            r
        },
        Expr::Array(elems) => {
            let new_elems = rewrite_vec(resources, elems);
            let r = Expr::Array(new_elems);
            proof {
                lemma_expr_view_seq(r->Array_0@);
                lemma_expr_view_seq(e->Array_0@);
                lemma_rewrite_seq_view(cat, expr_view_seq(e->Array_0@));
                assert(expr_view_seq(r->Array_0@) =~= rewrite_seq_view(
                    cat,
                    expr_view_seq(e->Array_0@),
                ));
            }
            r
        },
        Expr::Object(props) => {
            let new_props = rewrite_props(resources, props);
            let r = Expr::Object(new_props);
            proof {
                lemma_prop_view_seq(r->Object_0@);
                lemma_prop_view_seq(e->Object_0@);
                lemma_rewrite_props_view(cat, prop_view_seq(e->Object_0@));
                assert(prop_view_seq(r->Object_0@) =~= rewrite_props_view(
                    cat,
                    prop_view_seq(e->Object_0@),
                ));
            }
            r
        },
        Expr::Call(callee, args) => {
            let new_callee = Box::new(rewrite_expr(resources, *callee));
            let new_args = rewrite_vec(resources, args);
            let r = Expr::Call(new_callee, new_args);
            proof {
                lemma_expr_view_seq(r->Call_1@);
                lemma_expr_view_seq(e->Call_1@);
                lemma_rewrite_seq_view(cat, expr_view_seq(e->Call_1@));
                assert(expr_view_seq(r->Call_1@) =~= rewrite_seq_view(
                    cat,
                    expr_view_seq(e->Call_1@),
                ));
            }
            r
        },
        Expr::Other(children) => {
            let new_children = rewrite_vec(resources, children);
            let r = Expr::Other(new_children);
            proof {
                lemma_expr_view_seq(r->Other_0@);
                lemma_expr_view_seq(e->Other_0@);
                lemma_rewrite_seq_view(cat, expr_view_seq(e->Other_0@));
                assert(expr_view_seq(r->Other_0@) =~= rewrite_seq_view(
                    cat,
                    expr_view_seq(e->Other_0@),
                ));
            }
            r
        },
        Expr::ImportMeta => Expr::ImportMeta,
        Expr::Ident(name) => Expr::Ident(name),
        Expr::Str(value) => Expr::Str(value),
        Expr::Num(num) => Expr::Num(num),
    }
}

/// One rewrite pass applied to each element of an owned vector.
fn rewrite_vec(resources: &Vec<MinimalResourceInfo>, v: Vec<Expr>) -> (r: Vec<Expr>)
    ensures
        r@.len() == v@.len(),
        forall|i: int| 0 <= i < v@.len() ==> expr_view(r@[i]) == rewrite_view(
            cat_view(resources@),
            expr_view(v@[i]),
        ),
    decreases v@, 0int,
{
    let mut rest = v;
    if let Some(last) = rest.pop() {
        let last_r = rewrite_expr(resources, last);
        let mut r = rewrite_vec(resources, rest);
        r.push(last_r);
        r
    } else {
        rest
    }
}

/// The rewrite pass over one script's trees, holding the catalog snapshot.
pub struct ImportMetaVisitor {
    /// The catalog: one descriptor per artifact, in encounter order.
    pub resources: Vec<MinimalResourceInfo>,
}

impl ImportMetaVisitor {
    /// Rewrites an expression in place.
    pub fn visit_mut_expr(&self, expr: &mut Expr)
        ensures
            expr_view(*final(expr)) == rewrite_view(
                cat_view(self.resources@),
                expr_view(*old(expr)),
            ),
    {
        let mut taken = Expr::ImportMeta;
        core::mem::swap(expr, &mut taken);
        let rewritten = rewrite_expr(&self.resources, taken);
        *expr = rewritten;
    }
}

/// One rewrite pass applied to each property value of an owned vector.
fn rewrite_props(
    resources: &Vec<MinimalResourceInfo>,
    v: Vec<(String, Expr)>,
) -> (r: Vec<(String, Expr)>)
    ensures
        r@.len() == v@.len(),
        forall|i: int| 0 <= i < v@.len() ==> r@[i].0@ == v@[i].0@ && expr_view(r@[i].1)
            == rewrite_view(cat_view(resources@), expr_view(v@[i].1)),
    decreases v@, 0int,
{
    let mut rest = v;
    if let Some(last) = rest.pop() {
        let last_r = (last.0, rewrite_expr(resources, last.1));
        let mut r = rewrite_props(resources, rest);
        r.push(last_r);
        r
    } else {
        rest
    }
}

} // verus!
