//! The stated laws of the rewrite, each proved once and for all.
//!
//! The input shapes are written down as view constructors (`root_view`,
//! `by_kind_view`, ...), and each law is an equation on `rewrite_view`.

use vstd::prelude::*;

use crate::ast::ExprView;
use crate::ast::MemberPropView;
use crate::ast::NumLit;
use crate::builder::{
    grouped_view, kind_props_view, list_view, single_view, singles_view,
};
use crate::catalog::{DescView, kinds_view, of_kind};
use crate::matcher::{ClassView, classify_view, is_by_kind_shape, is_special_root};
use crate::rewriter::{
    lemma_rewrite_props_view, lemma_rewrite_seq_view, rewrite_children_view, rewrite_props_view,
    rewrite_seq_view, rewrite_view,
};

verus! {

/// The special root: `import.meta.resources`.
pub open spec fn root_view() -> ExprView {
    ExprView::Member(
        Box::new(ExprView::ImportMeta),
        MemberPropView::Ident("resources"@),
    )
}

/// `import.meta.resources.<k>`.
pub open spec fn by_kind_view(k: Seq<char>) -> ExprView {
    ExprView::Member(Box::new(root_view()), MemberPropView::Ident(k))
}

/// `import.meta.resources[<num>]`.
pub open spec fn index_view(num: NumLit) -> ExprView {
    ExprView::Member(
        Box::new(root_view()),
        MemberPropView::Computed(Box::new(ExprView::Num(num))),
    )
}

/// `import.meta.resources.<k>[<num>]`.
pub open spec fn index_in_kind_view(k: Seq<char>, num: NumLit) -> ExprView {
    ExprView::Member(
        Box::new(by_kind_view(k)),
        MemberPropView::Computed(Box::new(ExprView::Num(num))),
    )
}

/// For a kind present in the catalog, `import.meta.resources.<k>` becomes the
/// array of exactly that kind's descriptors, in their relative catalog order.
pub proof fn lemma_rewrite_by_kind(cat: Seq<DescView>, k: Seq<char>)
    requires
        of_kind(cat, k).len() > 0,
    ensures
        rewrite_view(cat, by_kind_view(k)) == list_view(of_kind(cat, k)),
        list_view(of_kind(cat, k))->Array_0.len() == of_kind(cat, k).len(),
        forall|i: int| 0 <= i < of_kind(cat, k).len()
            ==> list_view(of_kind(cat, k))->Array_0[i] == single_view(of_kind(cat, k)[i]),
        forall|i: int| 0 <= i < of_kind(cat, k).len() ==> (#[trigger] of_kind(cat, k)[i]).kind
            == k,
{
    assert(classify_view(by_kind_view(k)) == ClassView::ByKind(k));
    assert forall|i: int| 0 <= i < of_kind(cat, k).len() implies (#[trigger] of_kind(
        cat,
        k,
    )[i]).kind == k by {
        cat.lemma_filter_pred(|d: DescView| d.kind == k, i);
    }
}

/// For a kind absent from the catalog, `import.meta.resources.<k>` is left
/// unchanged.
pub proof fn lemma_rewrite_by_kind_absent(cat: Seq<DescView>, k: Seq<char>)
    requires
        of_kind(cat, k).len() == 0,
    ensures
        rewrite_view(cat, by_kind_view(k)) == by_kind_view(k),
{
    assert(classify_view(by_kind_view(k)) == ClassView::ByKind(k));
}

/// For `n` within the catalog, `import.meta.resources[n]` becomes the
/// descriptor at catalog position `n`.
pub proof fn lemma_rewrite_index(cat: Seq<DescView>, n: usize)
    requires
        n < cat.len(),
    ensures
        rewrite_view(cat, index_view(NumLit::Whole(n))) == single_view(cat[n as int]),
{
    assert(classify_view(index_view(NumLit::Whole(n))) == ClassView::IndexInCollection(
        NumLit::Whole(n),
    ));
}

/// For `n` past the catalog's end, or for a numeric key with a nonzero
/// fractional part, `import.meta.resources[...]` is left unchanged.
pub proof fn lemma_rewrite_index_unresolved(cat: Seq<DescView>, num: NumLit)
    requires
        num matches NumLit::Whole(n) ==> n >= cat.len(),
    ensures
        rewrite_view(cat, index_view(num)) == index_view(num),
{
    assert(classify_view(index_view(num)) == ClassView::IndexInCollection(num));
}

/// For `n` within the kind's descriptors, `import.meta.resources.<k>[n]`
/// becomes the descriptor at position `n` within that kind.
pub proof fn lemma_rewrite_index_in_kind(cat: Seq<DescView>, k: Seq<char>, n: usize)
    requires
        n < of_kind(cat, k).len(),
    ensures
        rewrite_view(cat, index_in_kind_view(k, NumLit::Whole(n))) == single_view(
            of_kind(cat, k)[n as int],
        ),
{
    assert(classify_view(index_in_kind_view(k, NumLit::Whole(n))) == ClassView::IndexInKind(
        k,
        NumLit::Whole(n),
    ));
}

/// For `n` past the kind's end, or for a numeric key with a nonzero
/// fractional part, `import.meta.resources.<k>[...]` is left unchanged.
pub proof fn lemma_rewrite_index_in_kind_unresolved(
    cat: Seq<DescView>,
    k: Seq<char>,
    num: NumLit,
)
    requires
        num matches NumLit::Whole(n) ==> n >= of_kind(cat, k).len(),
    ensures
        rewrite_view(cat, index_in_kind_view(k, num)) == index_in_kind_view(k, num),
{
    assert(classify_view(index_in_kind_view(k, num)) == ClassView::IndexInKind(k, num));
}

/// The kind names of a catalog: a kind occurs among them exactly when some
/// descriptor has it, and no kind occurs twice.
pub proof fn lemma_kinds_view(cat: Seq<DescView>)
    ensures
        forall|k: Seq<char>| #[trigger] kinds_view(cat).contains(k) <==> of_kind(cat, k).len()
            > 0,
        forall|i: int, j: int| 0 <= i < j < kinds_view(cat).len() ==> kinds_view(cat)[i]
            != kinds_view(cat)[j],
    decreases cat.len(),
{
    reveal(Seq::filter);
    if cat.len() == 0 {
        assert(forall|k: Seq<char>| !(#[trigger] kinds_view(cat).contains(k)));
    } else {
        let rest = cat.drop_last();
        lemma_kinds_view(rest);
        let last = cat.last();
        let ks_rest = kinds_view(rest);
        let ks = kinds_view(cat);
        assert(ks == (if ks_rest.contains(last.kind) {
            ks_rest
        } else {
            ks_rest.push(last.kind)
        }));
        assert forall|k: Seq<char>| #[trigger]
            kinds_view(cat).contains(k) <==> of_kind(cat, k).len() > 0 by {
            reveal(Seq::filter);
            assert(of_kind(cat, k) == (if last.kind == k {
                of_kind(rest, k).push(last)
            } else {
                of_kind(rest, k)
            }));
            if of_kind(cat, k).len() > 0 {
                if last.kind == k {
                    if ks_rest.contains(k) {
                        let i = choose|i: int|
                            0 <= i < ks_rest.len() && ks_rest[i] == k;
                        assert(ks[i] == k);
                    } else {
                        assert(ks == ks_rest.push(k));
                        assert(ks[ks.len() - 1] == k);
                    }
                    assert(ks.contains(k));
                } else {
                    assert(of_kind(rest, k).len() > 0);
                    assert(ks_rest.contains(k));
                    let i = choose|i: int| 0 <= i < ks_rest.len() && ks_rest[i] == k;
                    assert(ks[i] == k);
                    assert(ks.contains(k));
                }
            }
            if ks.contains(k) {
                let i = choose|i: int| 0 <= i < ks.len() && ks[i] == k;
                if ks_rest.contains(last.kind) {
                    assert(ks_rest.contains(k));
                    assert(of_kind(rest, k).len() > 0);
                } else if i < ks_rest.len() {
                    assert(ks_rest[i] == k);
                    assert(ks_rest.contains(k));
                    assert(of_kind(rest, k).len() > 0);
                } else {
                    assert(k == last.kind);
                }
                assert(of_kind(cat, k).len() > 0);
            }
        }
        assert forall|i: int, j: int| 0 <= i < j < ks.len() implies ks[i] != ks[j] by {
            if ks_rest.contains(last.kind) {
                assert(ks_rest[i] != ks_rest[j]);
            } else if j < ks_rest.len() {
                assert(ks_rest[i] != ks_rest[j]);
            } else {
                assert(ks[i] == ks_rest[i]);
                assert(ks[j] == last.kind);
                assert(!ks_rest.contains(last.kind));
                assert(ks_rest[i] != last.kind);
            }
        }
    }
}

/// `import.meta.resources` alone becomes the grouped form: an array of every
/// descriptor in catalog order, merged with one property per kind present
/// (each kind once), holding that kind's descriptor array.
pub proof fn lemma_rewrite_whole_collection(cat: Seq<DescView>)
    ensures
        rewrite_view(cat, root_view()) == grouped_view(cat),
        grouped_view(cat)->Call_1[0] == list_view(cat),
        list_view(cat)->Array_0 == singles_view(cat),
        singles_view(cat).len() == cat.len(),
        forall|i: int| 0 <= i < cat.len() ==> singles_view(cat)[i] == single_view(cat[i]),
        grouped_view(cat)->Call_1[1] == ExprView::Object(kind_props_view(cat)),
        kind_props_view(cat).len() == kinds_view(cat).len(),
        forall|j: int| 0 <= j < kinds_view(cat).len() ==> kind_props_view(cat)[j] == (
            kinds_view(cat)[j],
            list_view(of_kind(cat, kinds_view(cat)[j])),
        ),
        forall|k: Seq<char>| #[trigger] kinds_view(cat).contains(k) <==> of_kind(cat, k).len()
            > 0,
        forall|i: int, j: int| 0 <= i < j < kinds_view(cat).len() ==> kinds_view(cat)[i]
            != kinds_view(cat)[j],
{
    assert(is_special_root(root_view()));
    assert(classify_view(root_view()) == ClassView::WholeCollection);
    lemma_kinds_view(cat);
}

/// The replacement for one descriptor contains no special form: a second
/// rewrite leaves it unchanged.
pub proof fn lemma_single_fixed(cat: Seq<DescView>, d: DescView)
    ensures
        rewrite_view(cat, single_view(d)) == single_view(d),
{
    let s = single_view(d);
    assert(classify_view(s) == ClassView::NotSpecial);
    let props = s->Object_0;
    lemma_rewrite_props_view(cat, props);
    assert(rewrite_view(cat, ExprView::Str(d.name)) == ExprView::Str(d.name));
    assert(rewrite_view(cat, ExprView::Str(d.kind)) == ExprView::Str(d.kind));
    assert(rewrite_props_view(cat, props) =~= props);
}

/// The replacement for a descriptor sequence contains no special form: a
/// second rewrite leaves it unchanged.
pub proof fn lemma_list_fixed(cat: Seq<DescView>, ds: Seq<DescView>)
    ensures
        rewrite_view(cat, list_view(ds)) == list_view(ds),
{
    let l = list_view(ds);
    assert(classify_view(l) == ClassView::NotSpecial);
    let elems = singles_view(ds);
    lemma_rewrite_seq_view(cat, elems);
    assert forall|i: int| 0 <= i < elems.len() implies rewrite_view(cat, elems[i])
        == elems[i] by {
        lemma_single_fixed(cat, ds[i]);
    }
    assert(rewrite_seq_view(cat, elems) =~= elems);
}

/// The grouped replacement contains no special form: a second rewrite leaves
/// it unchanged.
pub proof fn lemma_grouped_fixed(cat: Seq<DescView>)
    ensures
        rewrite_view(cat, grouped_view(cat)) == grouped_view(cat),
{
    let g = grouped_view(cat);
    assert(classify_view(g) == ClassView::NotSpecial);
    let callee = ExprView::Member(
        Box::new(ExprView::Ident("Object"@)),
        MemberPropView::Ident("assign"@),
    );
    assert(classify_view(callee) == ClassView::NotSpecial);
    assert(rewrite_view(cat, ExprView::Ident("Object"@)) == ExprView::Ident("Object"@));
    assert(rewrite_view(cat, callee) == callee);
    let args = g->Call_1;
    lemma_rewrite_seq_view(cat, args);
    lemma_list_fixed(cat, cat);
    let kp = kind_props_view(cat);
    assert(classify_view(ExprView::Object(kp)) == ClassView::NotSpecial);
    lemma_rewrite_props_view(cat, kp);
    assert forall|j: int| 0 <= j < kp.len() implies rewrite_view(cat, kp[j].1) == kp[j].1 by {
        assert(kp[j] == (
            kinds_view(cat)[j],
            list_view(of_kind(cat, kinds_view(cat)[j])),
        ));
        lemma_list_fixed(cat, of_kind(cat, kinds_view(cat)[j]));
    }
    assert(rewrite_props_view(cat, kp) =~= kp);
    assert(rewrite_view(cat, ExprView::Object(kp)) == ExprView::Object(kp));
    assert(rewrite_seq_view(cat, args) =~= args);
    assert(rewrite_children_view(cat, g) == g);
}

/// The rewrite never produces the special root, keeps `import.meta` and
/// numeric literals exactly, and yields a by-kind shape only by leaving one
/// unchanged.
pub proof fn lemma_rewrite_shape(cat: Seq<DescView>, x: ExprView)
    ensures
        x is ImportMeta ==> rewrite_view(cat, x) == x,
        rewrite_view(cat, x) is ImportMeta ==> x is ImportMeta,
        x is Num ==> rewrite_view(cat, x) == x,
        rewrite_view(cat, x) is Num ==> x is Num,
        !is_special_root(rewrite_view(cat, x)),
        is_by_kind_shape(rewrite_view(cat, x)) ==> rewrite_view(cat, x) == x,
    decreases x,
{
    let r = rewrite_view(cat, x);
    match classify_view(x) {
        ClassView::WholeCollection => {
            assert(r == grouped_view(cat));
        },
        ClassView::ByKind(_k) => {},
        ClassView::IndexInCollection(_num) => {},
        ClassView::IndexInKind(_k, _num) => {},
        ClassView::NotSpecial => {
            assert(r == rewrite_children_view(cat, x));
            match x {
                ExprView::Member(obj, prop) => {
                    lemma_rewrite_shape(cat, *obj);
                    let robj = rewrite_view(cat, *obj);
                    if is_special_root(r) {
                        assert(robj is ImportMeta);
                        assert(*obj is ImportMeta);
                        match prop {
                            MemberPropView::Ident(name) => {
                                assert(is_special_root(x));
                            },
                            MemberPropView::Computed(_key) => {},
                        }
                        assert(false);
                    }
                    if is_by_kind_shape(r) {
                        assert(is_special_root(robj));
                        assert(false);
                    }
                },
                _ => {},
            }
        },
    }
}

/// Re-running the rewrite over already-rewritten output changes nothing: no
/// special form survives resolution, and an unresolved form fails to resolve
/// again the same way.
pub proof fn lemma_rewrite_idempotent(cat: Seq<DescView>, e: ExprView)
    ensures
        rewrite_view(cat, rewrite_view(cat, e)) == rewrite_view(cat, e),
    decreases e,
{
    let r = rewrite_view(cat, e);
    match classify_view(e) {
        ClassView::WholeCollection => {
            lemma_grouped_fixed(cat);
        },
        ClassView::ByKind(k) => {
            if of_kind(cat, k).len() > 0 {
                lemma_list_fixed(cat, of_kind(cat, k));
            }
        },
        ClassView::IndexInCollection(num) => {
            if num matches NumLit::Whole(n) && n < cat.len() {
                lemma_single_fixed(cat, cat[num->Whole_0 as int]);
            }
        },
        ClassView::IndexInKind(k, num) => {
            if num matches NumLit::Whole(n) && n < of_kind(cat, k).len() {
                lemma_single_fixed(cat, of_kind(cat, k)[num->Whole_0 as int]);
            }
        },
        ClassView::NotSpecial => {
            assert(r == rewrite_children_view(cat, e));
            match e {
                ExprView::Member(obj, prop) => {
                    lemma_rewrite_shape(cat, *obj);
                    let robj = rewrite_view(cat, *obj);
                    match prop {
                        MemberPropView::Ident(name) => {
                            if is_special_root(r) {
                                assert(*obj is ImportMeta);
                                assert(is_special_root(e));
                                assert(false);
                            }
                            assert(classify_view(r) == ClassView::NotSpecial);
                            lemma_rewrite_idempotent(cat, *obj);
                            assert(rewrite_view(cat, r) == rewrite_children_view(cat, r));
                            assert(rewrite_view(cat, r) == r);
                        },
                        MemberPropView::Computed(key) => {
                            lemma_rewrite_shape(cat, *key);
                            let rkey = rewrite_view(cat, *key);
                            if is_by_kind_shape(robj) && rkey is Num {
                                assert(robj == *obj);
                                assert(*key is Num);
                                assert(rkey == *key);
                                assert(classify_view(e) is IndexInKind);
                                assert(false);
                            }
                            assert(classify_view(r) == ClassView::NotSpecial);
                            lemma_rewrite_idempotent(cat, *obj);
                            lemma_rewrite_idempotent(cat, *key);
                            assert(rewrite_view(cat, r) == rewrite_children_view(cat, r));
                            assert(rewrite_view(cat, r) == r);
                        },
                    }
                },
                ExprView::Array(elems) => {
                    assert(classify_view(r) == ClassView::NotSpecial);
                    lemma_rewrite_seq_view(cat, elems);
                    let relems = rewrite_seq_view(cat, elems);
                    lemma_rewrite_seq_view(cat, relems);
                    assert forall|i: int| 0 <= i < relems.len() implies rewrite_view(
                        cat,
                        relems[i],
                    ) == relems[i] by {
                        lemma_rewrite_idempotent(cat, elems[i]);
                    }
                    assert(rewrite_seq_view(cat, relems) =~= relems);
                    assert(rewrite_view(cat, r) == rewrite_children_view(cat, r));
                    assert(rewrite_view(cat, r) == r);
                },
                ExprView::Object(props) => {
                    assert(classify_view(r) == ClassView::NotSpecial);
                    lemma_rewrite_props_view(cat, props);
                    let rprops = rewrite_props_view(cat, props);
                    lemma_rewrite_props_view(cat, rprops);
                    assert forall|i: int| 0 <= i < rprops.len() implies rewrite_view(
                        cat,
                        rprops[i].1,
                    ) == rprops[i].1 by {
                        lemma_rewrite_idempotent(cat, props[i].1);
                    }
                    assert(rewrite_props_view(cat, rprops) =~= rprops);
                    assert(rewrite_view(cat, r) == rewrite_children_view(cat, r));
                    assert(rewrite_view(cat, r) == r);
                },
                ExprView::Call(callee, args) => {
                    assert(classify_view(r) == ClassView::NotSpecial);
                    lemma_rewrite_idempotent(cat, *callee);
                    lemma_rewrite_seq_view(cat, args);
                    let rargs = rewrite_seq_view(cat, args);
                    lemma_rewrite_seq_view(cat, rargs);
                    assert forall|i: int| 0 <= i < rargs.len() implies rewrite_view(
                        cat,
                        rargs[i],
                    ) == rargs[i] by {
                        lemma_rewrite_idempotent(cat, args[i]);
                    }
                    assert(rewrite_seq_view(cat, rargs) =~= rargs);
                    assert(rewrite_view(cat, r) == rewrite_children_view(cat, r));
                    assert(rewrite_view(cat, r) == r);
                },
                ExprView::Other(children) => {
                    assert(classify_view(r) == ClassView::NotSpecial);
                    lemma_rewrite_seq_view(cat, children);
                    let rc = rewrite_seq_view(cat, children);
                    lemma_rewrite_seq_view(cat, rc);
                    assert forall|i: int| 0 <= i < rc.len() implies rewrite_view(cat, rc[i])
                        == rc[i] by {
                        lemma_rewrite_idempotent(cat, children[i]);
                    }
                    assert(rewrite_seq_view(cat, rc) =~= rc);
                    assert(rewrite_view(cat, r) == rewrite_children_view(cat, r));
                    assert(rewrite_view(cat, r) == r);
                },
                _ => {
                    assert(r == e);
                },
            }
        },
    }
}

} // verus!
