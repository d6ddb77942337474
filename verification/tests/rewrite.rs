use farm_plugin_resources_import_meta::{
    Classification, Expr, ImportMetaVisitor, MemberProp, MinimalResourceInfo, NumLit,
};
use farm_plugin_resources_import_meta::builder::{
    get_grouped_expr, get_resource_expr, get_resources_expr, kinds_vec,
};
use farm_plugin_resources_import_meta::catalog::filter_kind;
use farm_plugin_resources_import_meta::matcher::{classify, is_resources_import_meta};
use farm_plugin_resources_import_meta::rewriter::rewrite_expr;

fn info(name: &str, kind: &str) -> MinimalResourceInfo {
    MinimalResourceInfo { name: name.to_string(), resource_type: kind.to_string() }
}

/// The example catalog: a.js (js), b.css (css), c.js (js).
fn catalog() -> Vec<MinimalResourceInfo> {
    vec![info("a.js", "js"), info("b.css", "css"), info("c.js", "js")]
}

fn root() -> Expr {
    Expr::Member(
        Box::new(Expr::ImportMeta),
        MemberProp::Ident("resources".to_string()),
    )
}

fn by_kind(kind: &str) -> Expr {
    Expr::Member(Box::new(root()), MemberProp::Ident(kind.to_string()))
}

fn index(num: NumLit) -> Expr {
    Expr::Member(
        Box::new(root()),
        MemberProp::Computed(Box::new(Expr::Num(num))),
    )
}

fn index_in_kind(kind: &str, num: NumLit) -> Expr {
    Expr::Member(
        Box::new(by_kind(kind)),
        MemberProp::Computed(Box::new(Expr::Num(num))),
    )
}

fn single(name: &str, kind: &str) -> Expr {
    Expr::Object(vec![
        ("name".to_string(), Expr::Str(name.to_string())),
        ("type".to_string(), Expr::Str(kind.to_string())),
    ])
}

fn rewrite(e: Expr) -> Expr {
    rewrite_expr(&catalog(), e)
}

#[test]
fn by_kind_present_becomes_array() {
    let expected = Expr::Array(vec![single("a.js", "js"), single("c.js", "js")]);
    assert_eq!(rewrite(by_kind("js")), expected);
}

#[test]
fn by_kind_css_becomes_array() {
    let expected = Expr::Array(vec![single("b.css", "css")]);
    assert_eq!(rewrite(by_kind("css")), expected);
}

#[test]
fn index_in_range_becomes_descriptor() {
    assert_eq!(rewrite(index(NumLit::Whole(1))), single("b.css", "css"));
}

#[test]
fn index_zero_becomes_first_descriptor() {
    assert_eq!(rewrite(index(NumLit::Whole(0))), single("a.js", "js"));
}

#[test]
fn index_in_kind_becomes_descriptor() {
    assert_eq!(
        rewrite(index_in_kind("js", NumLit::Whole(1))),
        single("c.js", "js")
    );
}

#[test]
fn absent_kind_left_unchanged() {
    assert_eq!(rewrite(by_kind("html")), by_kind("html"));
}

#[test]
fn out_of_range_index_left_unchanged() {
    assert_eq!(rewrite(index(NumLit::Whole(5))), index(NumLit::Whole(5)));
}

#[test]
fn non_whole_index_left_unchanged() {
    assert_eq!(rewrite(index(NumLit::NonWhole)), index(NumLit::NonWhole));
}

#[test]
fn out_of_range_index_in_kind_left_unchanged() {
    assert_eq!(
        rewrite(index_in_kind("js", NumLit::Whole(2))),
        index_in_kind("js", NumLit::Whole(2))
    );
}

#[test]
fn non_whole_index_in_kind_left_unchanged() {
    assert_eq!(
        rewrite(index_in_kind("js", NumLit::NonWhole)),
        index_in_kind("js", NumLit::NonWhole)
    );
}

fn grouped() -> Expr {
    Expr::Call(
        Box::new(Expr::Member(
            Box::new(Expr::Ident("Object".to_string())),
            MemberProp::Ident("assign".to_string()),
        )),
        vec![
            Expr::Array(vec![
                single("a.js", "js"),
                single("b.css", "css"),
                single("c.js", "js"),
            ]),
            Expr::Object(vec![
                (
                    "js".to_string(),
                    Expr::Array(vec![single("a.js", "js"), single("c.js", "js")]),
                ),
                (
                    "css".to_string(),
                    Expr::Array(vec![single("b.css", "css")]),
                ),
            ]),
        ],
    )
}

#[test]
fn whole_collection_becomes_grouped() {
    assert_eq!(rewrite(root()), grouped());
}

#[test]
fn traversal_reaches_nested_expressions() {
    let input = Expr::Call(
        Box::new(Expr::Ident("f".to_string())),
        vec![Expr::Other(vec![by_kind("css")])],
    );
    let expected = Expr::Call(
        Box::new(Expr::Ident("f".to_string())),
        vec![Expr::Other(vec![Expr::Array(vec![single("b.css", "css")])])],
    );
    assert_eq!(rewrite(input), expected);
}

#[test]
fn unresolved_access_is_not_descended_into() {
    // The special root below an unresolved access survives untouched.
    let input = Expr::Call(
        Box::new(Expr::Ident("f".to_string())),
        vec![index(NumLit::Whole(5)), by_kind("html")],
    );
    let expected = Expr::Call(
        Box::new(Expr::Ident("f".to_string())),
        vec![index(NumLit::Whole(5)), by_kind("html")],
    );
    assert_eq!(rewrite(input), expected);
}

#[test]
fn non_numeric_computed_key_recurses_into_root() {
    // `import.meta.resources[x]` is not an index shape: the inner root is
    // rewritten to the grouped form, the access around it kept.
    let input = Expr::Member(
        Box::new(root()),
        MemberProp::Computed(Box::new(Expr::Ident("x".to_string()))),
    );
    let expected = Expr::Member(
        Box::new(grouped()),
        MemberProp::Computed(Box::new(Expr::Ident("x".to_string()))),
    );
    assert_eq!(rewrite(input), expected);
}

#[test]
fn further_access_on_by_kind_recurses_into_it() {
    // `import.meta.resources.js.foo` is not a recognized shape itself; the
    // by-kind access inside it is rewritten, the outer access kept.
    let input = Expr::Member(
        Box::new(by_kind("js")),
        MemberProp::Ident("foo".to_string()),
    );
    let expected = Expr::Member(
        Box::new(Expr::Array(vec![single("a.js", "js"), single("c.js", "js")])),
        MemberProp::Ident("foo".to_string()),
    );
    assert_eq!(rewrite(input), expected);
}

#[test]
fn absent_kind_index_left_unchanged() {
    assert_eq!(
        rewrite(index_in_kind("html", NumLit::Whole(0))),
        index_in_kind("html", NumLit::Whole(0))
    );
}

fn mixed_program() -> Expr {
    Expr::Other(vec![
        root(),
        by_kind("js"),
        by_kind("html"),
        index(NumLit::Whole(1)),
        index(NumLit::Whole(5)),
        index_in_kind("js", NumLit::NonWhole),
    ])
}

#[test]
fn rewrite_is_idempotent_on_example() {
    let once = rewrite(mixed_program());
    let twice = rewrite(rewrite(mixed_program()));
    assert_eq!(once, twice);
}

#[test]
fn empty_catalog_leaves_kind_and_index_unchanged() {
    let empty: Vec<MinimalResourceInfo> = Vec::new();
    assert_eq!(rewrite_expr(&empty, by_kind("js")), by_kind("js"));
    assert_eq!(
        rewrite_expr(&empty, index(NumLit::Whole(0))),
        index(NumLit::Whole(0))
    );
}

#[test]
fn empty_catalog_grouped_form() {
    let empty: Vec<MinimalResourceInfo> = Vec::new();
    let expected = Expr::Call(
        Box::new(Expr::Member(
            Box::new(Expr::Ident("Object".to_string())),
            MemberProp::Ident("assign".to_string()),
        )),
        vec![Expr::Array(vec![]), Expr::Object(vec![])],
    );
    assert_eq!(rewrite_expr(&empty, root()), expected);
}

#[test]
fn visitor_rewrites_in_place() {
    let visitor = ImportMetaVisitor { resources: catalog() };
    let mut e = by_kind("js");
    visitor.visit_mut_expr(&mut e);
    assert_eq!(
        e,
        Expr::Array(vec![single("a.js", "js"), single("c.js", "js")])
    );
}

#[test]
fn classify_recognizes_each_shape() {
    assert_eq!(classify(&root()), Classification::WholeCollection);
    assert_eq!(
        classify(&by_kind("js")),
        Classification::ByKind("js".to_string())
    );
    assert_eq!(
        classify(&index(NumLit::Whole(2))),
        Classification::IndexInCollection(NumLit::Whole(2))
    );
    assert_eq!(
        classify(&index_in_kind("css", NumLit::NonWhole)),
        Classification::IndexInKind("css".to_string(), NumLit::NonWhole)
    );
    assert_eq!(
        classify(&Expr::Ident("resources".to_string())),
        Classification::NotSpecial
    );
    // `other.resources` is not the special root.
    let not_root = Expr::Member(
        Box::new(Expr::Ident("other".to_string())),
        MemberProp::Ident("resources".to_string()),
    );
    assert_eq!(classify(&not_root), Classification::NotSpecial);
}

#[test]
fn is_resources_import_meta_matches_root_only() {
    assert!(is_resources_import_meta(&root()));
    assert!(!is_resources_import_meta(&Expr::ImportMeta));
    assert!(!is_resources_import_meta(&by_kind("js")));
    let wrong_prop = Expr::Member(
        Box::new(Expr::ImportMeta),
        MemberProp::Ident("assets".to_string()),
    );
    assert!(!is_resources_import_meta(&wrong_prop));
}

#[test]
fn get_resource_expr_builds_single() {
    assert_eq!(get_resource_expr(&info("a.js", "js")), single("a.js", "js"));
}

#[test]
fn get_resources_expr_builds_list_in_order() {
    assert_eq!(
        get_resources_expr(&catalog()),
        Expr::Array(vec![
            single("a.js", "js"),
            single("b.css", "css"),
            single("c.js", "js"),
        ])
    );
}

#[test]
fn get_grouped_expr_builds_merged_form() {
    assert_eq!(get_grouped_expr(&catalog()), grouped());
}

#[test]
fn filter_kind_keeps_order_and_kind() {
    let filtered = filter_kind(&catalog(), &"js".to_string());
    assert_eq!(filtered, vec![info("a.js", "js"), info("c.js", "js")]);
    let none = filter_kind(&catalog(), &"html".to_string());
    assert_eq!(none, Vec::<MinimalResourceInfo>::new());
}

#[test]
fn kinds_vec_is_first_occurrence_order_without_repeats() {
    assert_eq!(
        kinds_vec(&catalog()),
        vec!["js".to_string(), "css".to_string()]
    );
    let mixed = vec![
        info("x.css", "css"),
        info("y.js", "js"),
        info("z.css", "css"),
    ];
    assert_eq!(
        kinds_vec(&mixed),
        vec!["css".to_string(), "js".to_string()]
    );
}
