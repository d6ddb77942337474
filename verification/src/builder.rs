//! Construction of the replacement literal expressions.
//!
//! Every produced literal holds plain string data only. The grouped form is a
//! call `Object.assign([...], { kind: [...], ... })`: an array of all
//! descriptors merged with one property per kind present, so the value is both
//! array-indexable (catalog order) and property-indexable by kind name. Kind
//! properties appear in order of first occurrence in the catalog.

use vstd::prelude::*;

use crate::ast::{
    Expr, ExprView, MemberProp, MemberPropView, expr_view, expr_view_seq, lemma_expr_view_seq,
    lemma_prop_view_seq, prop_view_seq,
};
use crate::catalog::{
    DescView, MinimalResourceInfo, cat_view, filter_kind, kinds_view, of_kind,
};

verus! {

/// The replacement for a single descriptor: `{ name: ..., type: ... }`.
pub open spec fn single_view(d: DescView) -> ExprView {
    ExprView::Object(
        seq![("name"@, ExprView::Str(d.name)), ("type"@, ExprView::Str(d.kind))],
    )
}

/// `single_view` of each descriptor, in order.
pub open spec fn singles_view(ds: Seq<DescView>) -> Seq<ExprView> {
    ds.map_values(|d: DescView| single_view(d))
}

/// The replacement for a descriptor sequence: an array literal.
pub open spec fn list_view(ds: Seq<DescView>) -> ExprView {
    ExprView::Array(singles_view(ds))
}

/// One object-literal property per kind present in `cat`, each kind once, in
/// order of first occurrence: the kind's name and its descriptor array.
pub open spec fn kind_props_view(cat: Seq<DescView>) -> Seq<(Seq<char>, ExprView)> {
    kinds_view(cat).map_values(|k: Seq<char>| (k, list_view(of_kind(cat, k))))
}

/// The replacement for the whole collection:
/// `Object.assign([all descriptors], { kind: [...], ... })`.
pub open spec fn grouped_view(cat: Seq<DescView>) -> ExprView {
    ExprView::Call(
        Box::new(
            ExprView::Member(
                Box::new(ExprView::Ident("Object"@)),
                MemberPropView::Ident("assign"@),
            ),
        ),
        seq![list_view(cat), ExprView::Object(kind_props_view(cat))],
    )
}

/// The views of a sequence of strings.
pub open spec fn strs_view(ks: Seq<String>) -> Seq<Seq<char>> {
    ks.map_values(|s: String| s@)
}

/// Builds the object literal standing for one descriptor.
pub fn get_resource_expr(resource: &MinimalResourceInfo) -> (r: Expr)
    ensures
        expr_view(r) == single_view(resource@),
{
    let mut props: Vec<(String, Expr)> = Vec::new();
    props.push(("name".to_owned(), Expr::Str(resource.name.clone())));
    props.push(("type".to_owned(), Expr::Str(resource.resource_type.clone())));
    let r = Expr::Object(props);
    proof {
        lemma_prop_view_seq(r->Object_0@);
        assert(prop_view_seq(r->Object_0@) =~= single_view(resource@)->Object_0);
        assert(expr_view(r) =~= single_view(resource@));
    }
    r
}

/// Builds the array literal standing for a descriptor sequence, in order.
pub fn get_resources_expr(resources: &Vec<MinimalResourceInfo>) -> (r: Expr)
    ensures
        expr_view(r) == list_view(cat_view(resources@)),
{
    let mut elems: Vec<Expr> = Vec::new();
    let mut i: usize = 0;
    while i < resources.len()
        invariant
            i <= resources.len(),
            elems@.len() == i,
            forall|j: int| 0 <= j < i ==> expr_view(elems@[j]) == single_view(resources@[j]@),
        decreases resources.len() - i,
    {
        elems.push(get_resource_expr(&resources[i]));
        i = i + 1;
    }
    let r = Expr::Array(elems);
    proof {
        lemma_expr_view_seq(r->Array_0@);
        assert(expr_view_seq(r->Array_0@) =~= singles_view(cat_view(resources@)));
        assert(expr_view(r) =~= list_view(cat_view(resources@)));
    }
    r
}

/// Whether some string in `ks` has the view of `s`.
fn contains_str(ks: &Vec<String>, s: &String) -> (r: bool)
    ensures
        r == strs_view(ks@).contains(s@),
{
    let mut i: usize = 0;
    while i < ks.len()
        invariant
            i <= ks.len(),
            forall|j: int| 0 <= j < i ==> ks@[j]@ != s@,
        decreases ks.len() - i,
    {
        if ks[i] == *s {
            proof {
                assert(strs_view(ks@)[i as int] == s@);
            }
            return true;
        }
        i = i + 1;
    }
    false
}

/// The kind names present, in order of first occurrence, each once.
pub fn kinds_vec(resources: &Vec<MinimalResourceInfo>) -> (r: Vec<String>)
    ensures
        strs_view(r@) == kinds_view(cat_view(resources@)),
{
    let mut kinds: Vec<String> = Vec::new();
    let mut i: usize = 0;
    while i < resources.len()
        invariant
            i <= resources.len(),
            strs_view(kinds@) == kinds_view(cat_view(resources@).subrange(0, i as int)),
        decreases resources.len() - i,
    {
        let ghost pre = cat_view(resources@).subrange(0, i as int);
        if !contains_str(&kinds, &resources[i].resource_type) {
            kinds.push(resources[i].resource_type.clone());
        }
        proof {
            let post = cat_view(resources@).subrange(0, i + 1 as int);
            assert(post.drop_last() =~= pre);
            assert(post.last() == resources@[i as int]@);
            assert(strs_view(kinds@) =~= kinds_view(post));
        }
        i = i + 1;
    }
    proof {
        assert(cat_view(resources@).subrange(0, resources@.len() as int) =~= cat_view(
            resources@,
        ));
    }
    kinds
}

/// Builds the grouped replacement for the whole collection.
pub fn get_grouped_expr(resources: &Vec<MinimalResourceInfo>) -> (r: Expr)
    ensures
        expr_view(r) == grouped_view(cat_view(resources@)),
{
    let ghost cat = cat_view(resources@);
    let kinds = kinds_vec(resources);
    let mut props: Vec<(String, Expr)> = Vec::new();
    let mut i: usize = 0;
    while i < kinds.len()
        invariant
            i <= kinds.len(),
            strs_view(kinds@) == kinds_view(cat),
            cat == cat_view(resources@),
            props@.len() == i,
            forall|j: int| 0 <= j < i ==> props@[j].0@ == kinds@[j]@ && expr_view(props@[j].1)
                == list_view(of_kind(cat, kinds@[j]@)),
        decreases kinds.len() - i,
    {
        let filtered = filter_kind(resources, &kinds[i]);
        props.push((kinds[i].clone(), get_resources_expr(&filtered)));
        proof {
            assert(strs_view(kinds@)[i as int] == kinds@[i as int]@);
        }
        i = i + 1;
    }
    let callee = Expr::Member(
        Box::new(Expr::Ident("Object".to_owned())),
        MemberProp::Ident("assign".to_owned()),
    );
    let mut args: Vec<Expr> = Vec::new();
    args.push(get_resources_expr(resources));
    args.push(Expr::Object(props));
    let r = Expr::Call(Box::new(callee), args);
    proof {
        reveal_with_fuel(expr_view, 3);
        lemma_prop_view_seq(args@[1]->Object_0@);
        lemma_expr_view_seq(r->Call_1@);
        assert(prop_view_seq(args@[1]->Object_0@) =~= kind_props_view(cat)) by {
            assert(forall|j: int| 0 <= j < kinds_view(cat).len()
                ==> #[trigger] kind_props_view(cat)[j] == (
                kinds_view(cat)[j],
                list_view(of_kind(cat, kinds_view(cat)[j])),
            ));
            assert(forall|j: int| 0 <= j < kinds@.len() ==> #[trigger] strs_view(kinds@)[j]
                == kinds@[j]@);
        }
        assert(expr_view_seq(r->Call_1@) =~= grouped_view(cat)->Call_1);
        assert(expr_view(r) =~= grouped_view(cat));
    }
    r
}

} // verus!
