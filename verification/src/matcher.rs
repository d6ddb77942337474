//! Syntactic classification of the recognized access shapes.
//!
//! Matching is purely syntactic: no evaluation, no type inference. The
//! recognized family is rooted at the member access `import.meta.resources`
//! (the special root). A computed key counts as an index shape exactly when
//! it is a numeric literal; whether the literal is a whole number in range is
//! resolved later, by the rewriter.

use vstd::prelude::*;

use crate::ast::{Expr, ExprView, MemberProp, MemberPropView, NumLit, expr_view};

verus! {

/// Which recognized access shape an expression is.
#[derive(Debug, PartialEq)]
pub enum Classification {
    /// Not one of the recognized shapes.
    NotSpecial,
    /// The special root itself: `import.meta.resources`.
    WholeCollection,
    /// `import.meta.resources.<kind>`.
    ByKind(String),
    /// `import.meta.resources[<numeric literal>]`.
    IndexInCollection(NumLit),
    /// `import.meta.resources.<kind>[<numeric literal>]`.
    IndexInKind(String, NumLit),
}

/// The mathematical image of a `Classification`.
#[verifier::ext_equal]
pub ghost enum ClassView {
    NotSpecial,
    WholeCollection,
    ByKind(Seq<char>),
    IndexInCollection(NumLit),
    IndexInKind(Seq<char>, NumLit),
}

impl View for Classification {
    type V = ClassView;

    open spec fn view(&self) -> ClassView {
        match self {
            Classification::NotSpecial => ClassView::NotSpecial,
            Classification::WholeCollection => ClassView::WholeCollection,
            Classification::ByKind(k) => ClassView::ByKind(k@),
            Classification::IndexInCollection(n) => ClassView::IndexInCollection(*n),
            Classification::IndexInKind(k, n) => ClassView::IndexInKind(k@, *n),
        }
    }
}

/// `e` is the special root: a non-computed access of `resources` on `import.meta`.
pub open spec fn is_special_root(e: ExprView) -> bool {
    match e {
        ExprView::Member(obj, prop) => *obj == ExprView::ImportMeta && prop
            == MemberPropView::Ident("resources"@),
        _ => false,
    }
}

/// `e` is a non-computed access of some kind name on the special root.
pub open spec fn is_by_kind_shape(e: ExprView) -> bool {
    match e {
        ExprView::Member(obj, prop) => is_special_root(*obj) && prop matches
            MemberPropView::Ident(_),
        _ => false,
    }
}

/// The kind name of a by-kind shape.
pub open spec fn by_kind_name(e: ExprView) -> Seq<char>
    recommends
        is_by_kind_shape(e),
{
    e->Member_1->Ident_0
}

/// The classification of `e`, by shape alone.
pub open spec fn classify_view(e: ExprView) -> ClassView {
    if is_special_root(e) {
        ClassView::WholeCollection
    } else {
        match e {
            ExprView::Member(obj, prop) => {
                if is_special_root(*obj) {
                    match prop {
                        MemberPropView::Ident(k) => ClassView::ByKind(k),
                        MemberPropView::Computed(key) => match *key {
                            ExprView::Num(n) => ClassView::IndexInCollection(n),
                            _ => ClassView::NotSpecial,
                        },
                    }
                } else if is_by_kind_shape(*obj) {
                    match prop {
                        MemberPropView::Computed(key) => match *key {
                            ExprView::Num(n) => ClassView::IndexInKind(by_kind_name(*obj), n),
                            _ => ClassView::NotSpecial,
                        },
                        _ => ClassView::NotSpecial,
                    }
                } else {
                    ClassView::NotSpecial
                }
            },
            _ => ClassView::NotSpecial,
        }
    }
}

/// `expr` is the special root `import.meta.resources`.
pub fn is_resources_import_meta(expr: &Expr) -> (r: bool)
    ensures
        r == is_special_root(expr@),
{
    proof {
        reveal_with_fuel(expr_view, 2);
    }
    match expr {
        Expr::Member(obj, MemberProp::Ident(name)) => match &**obj {
            Expr::ImportMeta => *name == "resources".to_owned(),
            _ => false,
        },
        _ => false,
    }
}

/// Classifies `expr` against the recognized access shapes.
pub fn classify(expr: &Expr) -> (r: Classification)
    ensures
        r@ == classify_view(expr@),
{
    proof {
        reveal_with_fuel(expr_view, 4);
    }
    if is_resources_import_meta(expr) {
        return Classification::WholeCollection;
    }
    match expr {
        Expr::Member(obj, prop) => {
            if is_resources_import_meta(obj) {
                match prop {
                    MemberProp::Ident(k) => Classification::ByKind(k.clone()),
                    MemberProp::Computed(key) => match &**key {
                        Expr::Num(n) => Classification::IndexInCollection(*n),
                        _ => Classification::NotSpecial,
                    },
                }
            } else {
                match &**obj {
                    Expr::Member(inner_obj, MemberProp::Ident(k)) => {
                        if is_resources_import_meta(inner_obj) {
                            match prop {
                                MemberProp::Computed(key) => match &**key {
                                    Expr::Num(n) => Classification::IndexInKind(k.clone(), *n),
                                    _ => Classification::NotSpecial,
                                },
                                _ => Classification::NotSpecial,
                            }
                        } else {
                            Classification::NotSpecial
                        }
                    },
                    _ => Classification::NotSpecial,
                }
            }
        },
        _ => Classification::NotSpecial,
    }
}

} // verus!
