use farm_plugin_resources_import_meta::{
    Expr, FarmPluginResourcesImportMeta, MemberProp, Module, NumLit, Resource,
};
use farm_plugin_resources_import_meta::plugin::snapshot;

fn resource(name: &str, kind: &str, body: Vec<Expr>) -> Resource {
    Resource {
        name: name.to_string(),
        resource_type: kind.to_string(),
        module: Module { body },
    }
}

fn root_expr() -> Expr {
    Expr::Member(
        Box::new(Expr::ImportMeta),
        MemberProp::Ident("resources".to_string()),
    )
}

fn index_expr(n: usize) -> Expr {
    Expr::Member(
        Box::new(root_expr()),
        MemberProp::Computed(Box::new(Expr::Num(NumLit::Whole(n)))),
    )
}

fn single(name: &str, kind: &str) -> Expr {
    Expr::Object(vec![
        ("name".to_string(), Expr::Str(name.to_string())),
        ("type".to_string(), Expr::Str(kind.to_string())),
    ])
}

#[test]
fn plugin_name_and_priority() {
    let plugin = FarmPluginResourcesImportMeta::new();
    assert_eq!(plugin.name(), "FarmPluginResourcesImportMeta");
    assert_eq!(plugin.priority(), 101);
}

#[test]
fn snapshot_takes_every_artifact_in_order() {
    let resources = vec![
        resource("a.js", "js", vec![]),
        resource("b.css", "css", vec![]),
    ];
    let catalog = snapshot(&resources);
    assert_eq!(catalog.len(), 2);
    assert_eq!(catalog[0].name, "a.js");
    assert_eq!(catalog[0].resource_type, "js");
    assert_eq!(catalog[1].name, "b.css");
    assert_eq!(catalog[1].resource_type, "css");
}

#[test]
fn finalize_rewrites_scripts_against_full_catalog() {
    let plugin = FarmPluginResourcesImportMeta::new();
    let mut resources = vec![
        resource("a.js", "js", vec![index_expr(1)]),
        resource("b.css", "css", vec![index_expr(0)]),
    ];
    plugin.finalize_resources(&mut resources);
    assert_eq!(resources.len(), 2);
    // The script's tree is rewritten against the catalog of all artifacts,
    // so index 1 resolves to the stylesheet's descriptor.
    assert_eq!(resources[0].name, "a.js");
    assert_eq!(resources[0].module.body, vec![single("b.css", "css")]);
    // The non-script artifact passes through unmodified.
    assert_eq!(resources[1].name, "b.css");
    assert_eq!(resources[1].module.body, vec![index_expr(0)]);
}

#[test]
fn finalize_on_empty_collection_does_nothing() {
    let plugin = FarmPluginResourcesImportMeta::new();
    let mut resources: Vec<Resource> = Vec::new();
    plugin.finalize_resources(&mut resources);
    assert!(resources.is_empty());
}
