//! The finalize-artifacts stage.
//!
//! The host pipeline decodes, parses and regenerates scripts; this module
//! holds the stage's decisions over plain values: take one catalog snapshot
//! of all artifacts, then rewrite every script artifact's parsed trees
//! against that shared snapshot, leaving every other artifact untouched.

use vstd::prelude::*;

use crate::ast::{Expr, expr_view};
use crate::catalog::{DescView, MinimalResourceInfo, cat_view};
use crate::rewriter::{ImportMetaVisitor, rewrite_expr, rewrite_view};

verus! {

/// A parsed script: its top-level expression trees, in source order.
#[derive(Debug, PartialEq)]
pub struct Module {
    pub body: Vec<Expr>,
}

/// One artifact as this stage sees it: name, kind, and parsed content.
#[derive(Debug, PartialEq)]
pub struct Resource {
    /// The artifact's name.
    pub name: String,
    /// The string form of the artifact's kind.
    pub resource_type: String,
    /// The artifact's parsed content.
    pub module: Module,
}

/// The descriptor an artifact contributes to the catalog.
pub open spec fn desc_view(r: Resource) -> DescView {
    DescView { name: r.name@, kind: r.resource_type@ }
}

/// The catalog snapshot of an artifact sequence, in encounter order.
pub open spec fn snapshot_view(rs: Seq<Resource>) -> Seq<DescView> {
    rs.map_values(|r: Resource| desc_view(r))
}

/// Every tree of `m1` is the rewrite of the matching tree of `m0`.
pub open spec fn rewritten_module(cat: Seq<DescView>, m0: Module, m1: Module) -> bool {
    &&& m1.body@.len() == m0.body@.len()
    &&& forall|j: int| 0 <= j < m0.body@.len() ==> expr_view(m1.body@[j]) == rewrite_view(
        cat,
        expr_view(m0.body@[j]),
    )
}

/// How one artifact leaves the stage: name and kind kept; a script's trees
/// rewritten against the catalog, any other artifact untouched.
pub open spec fn finalized_resource(cat: Seq<DescView>, r0: Resource, r1: Resource) -> bool {
    &&& r1.name@ == r0.name@
    &&& r1.resource_type@ == r0.resource_type@
    &&& if r0.resource_type@ == "js"@ {
        rewritten_module(cat, r0.module, r1.module)
    } else {
        r1.module == r0.module
    }
}

/// Builds the catalog: one descriptor per artifact, in encounter order.
pub fn snapshot(resources: &Vec<Resource>) -> (r: Vec<MinimalResourceInfo>)
    ensures
        cat_view(r@) == snapshot_view(resources@),
{
    let mut out: Vec<MinimalResourceInfo> = Vec::new();
    let mut i: usize = 0;
    while i < resources.len()
        invariant
            i <= resources.len(),
            out@.len() == i,
            forall|j: int| 0 <= j < i ==> out@[j]@ == desc_view(resources@[j]),
        decreases resources.len() - i,
    {
        out.push(
            MinimalResourceInfo {
                name: resources[i].name.clone(),
                resource_type: resources[i].resource_type.clone(),
            },
        );
        i = i + 1;
    }
    proof {
        assert(cat_view(out@) =~= snapshot_view(resources@));
    }
    out
}

/// The stage as a plugin of the host pipeline.
#[derive(Debug, PartialEq)]
pub struct FarmPluginResourcesImportMeta {}

impl FarmPluginResourcesImportMeta {
    /// Builds the plugin; it carries no configuration.
    pub fn new() -> (r: Self) {
        FarmPluginResourcesImportMeta {  }
    }

    /// The plugin's name.
    pub fn name(&self) -> (r: &'static str)
        ensures
            r@ == "FarmPluginResourcesImportMeta"@,
    {
        "FarmPluginResourcesImportMeta"
    }

    /// The plugin's priority in the host pipeline.
    pub fn priority(&self) -> (r: i32)
        ensures
            r == 101,
    {
        101
    }

    /// Rewrites every script artifact against one shared catalog snapshot of
    /// all artifacts, in place; non-script artifacts pass through unmodified.
    pub fn finalize_resources(&self, resources: &mut Vec<Resource>)
        ensures
            final(resources)@.len() == old(resources)@.len(),
            forall|i: int| 0 <= i < old(resources)@.len() ==> finalized_resource(
                snapshot_view(old(resources)@),
                old(resources)@[i],
                final(resources)@[i],
            ),
    {
        let ghost orig = resources@;
        let ghost cat = snapshot_view(orig);
        let catalog = snapshot(resources);
        let visitor = ImportMetaVisitor { resources: catalog };
        let mut out: Vec<Resource> = Vec::new();
        while resources.len() > 0
            invariant
                out@.len() + resources@.len() == orig.len(),
                resources@ =~= orig.subrange(out@.len() as int, orig.len() as int),
                forall|i: int| 0 <= i < out@.len() ==> finalized_resource(
                    cat,
                    orig[i],
                    out@[i],
                ),
                cat_view(visitor.resources@) == cat,
            decreases resources.len(),
        {
            let ghost k = out@.len() as int;
            let r = resources.remove(0);
            proof {
                assert(r == orig[k]);
                assert(resources@ =~= orig.subrange(k + 1, orig.len() as int));
            }
            if r.resource_type == "js".to_owned() {
                let Resource { name, resource_type, module } = r;
                let mut module = module;
                visit_mut_module(&visitor, &mut module);
                out.push(Resource { name, resource_type, module });
            } else {
                out.push(r);
            }
        }
        *resources = out;
    }
}

/// Rewrites every tree of a parsed script in place.
pub fn visit_mut_module(visitor: &ImportMetaVisitor, module: &mut Module)
    ensures
        rewritten_module(cat_view(visitor.resources@), *old(module), *final(module)),
{
    let ghost orig = old(module).body@;
    let mut body: Vec<Expr> = Vec::new();
    core::mem::swap(&mut module.body, &mut body);
    let mut out: Vec<Expr> = Vec::new();
    while body.len() > 0
        invariant
            out@.len() + body@.len() == orig.len(),
            body@ =~= orig.subrange(out@.len() as int, orig.len() as int),
            forall|j: int| 0 <= j < out@.len() ==> expr_view(out@[j]) == rewrite_view(
                cat_view(visitor.resources@),
                expr_view(orig[j]),
            ),
        decreases body.len(),
    {
        let ghost k = out@.len() as int;
        let e = body.remove(0);
        proof {
            assert(e == orig[k]);
            assert(body@ =~= orig.subrange(k + 1, orig.len() as int));
        }
        out.push(rewrite_expr(&visitor.resources, e));
    }
    module.body = out;
}

} // verus!
