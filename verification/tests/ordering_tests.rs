//! Item ordering, grouping and the module tree builder.
use rhai_autodocs::export::{options, ItemsOrder};
use rhai_autodocs::doc_item::DocItem;
use rhai_autodocs::function::{Metadata, Param};
use rhai_autodocs::item::Item;
use rhai_autodocs::module::{
    generate_module_documentation_inner, group_functions, ModuleMetadata,
};

fn param(name: &str, ty: &str) -> Param {
    Param { name: Some(name.to_string()), ty: Some(ty.to_string()) }
}

fn meta(name: &str, params: Vec<Param>, return_type: Option<&str>, docs: Option<Vec<&str>>) -> Metadata {
    Metadata {
        access: "public".to_string(),
        base_hash: 0,
        full_hash: 0,
        name: name.to_string(),
        namespace: "global".to_string(),
        num_params: params.len(),
        params: Some(params),
        signature: String::new(),
        return_type: return_type.map(|s| s.to_string()),
        doc_comments: docs.map(|ds| ds.into_iter().map(|d| d.to_string()).collect()),
    }
}

fn module_of(functions: Vec<Metadata>) -> ModuleMetadata {
    ModuleMetadata { doc: None, functions: Some(functions), custom_types: None, modules: None }
}

#[test]
fn alphabetical_order_sorts_by_name() {
    let opts = options();
    let fns = vec![
        meta("zeta", vec![], None, Some(vec!["/// z doc"])),
        meta("alpha", vec![], None, Some(vec!["/// a doc"])),
        meta("mid", vec![], None, Some(vec!["/// m doc"])),
    ];
    let doc = generate_module_documentation_inner(&opts, None, "global", &module_of(fns)).unwrap();
    let names: Vec<&str> = doc.items.iter().map(|i| i.name()).collect();
    assert_eq!(names, vec!["alpha", "mid", "zeta"]);
}

#[test]
fn alphabetical_order_is_stable_for_equal_names() {
    let order = ItemsOrder::Alphabetical;
    let a1 = Item::new_function(
        &vec![meta("same", vec![], Some("INT"), Some(vec!["/// first"]))],
        "same",
        &options(),
    )
    .unwrap()
    .unwrap();
    let a2 = Item::new_function(
        &vec![meta("same", vec![], None, Some(vec!["/// second"]))],
        "same",
        &options(),
    )
    .unwrap()
    .unwrap();
    let b = Item::new_function(
        &vec![meta("aaa", vec![], None, Some(vec!["/// b"]))],
        "aaa",
        &options(),
    )
    .unwrap()
    .unwrap();
    let ordered = order.order_items(vec![a1, a2, b]);
    assert_eq!(ordered.len(), 3);
    assert_eq!(ordered[0].name(), "aaa");
    // the two tied items keep their discovery order
    assert_eq!(ordered[1].signatures(), "fn same() -> int");
    assert_eq!(ordered[2].signatures(), "fn same()");
}

#[test]
fn by_index_mode_orders_by_directive() {
    let opts = options().order_items_with(ItemsOrder::ByIndex);
    let fns = vec![
        meta("second", vec![], None, Some(vec!["/// doc", "/// # rhai-autodocs:index:2"])),
        meta("first", vec![], None, Some(vec!["/// doc", "/// # rhai-autodocs:index:1"])),
    ];
    let doc = generate_module_documentation_inner(&opts, None, "global", &module_of(fns)).unwrap();
    let names: Vec<&str> = doc.items.iter().map(|i| i.name()).collect();
    assert_eq!(names, vec!["first", "second"]);
}

#[test]
fn by_index_mode_missing_directive_is_an_error() {
    let opts = options().order_items_with(ItemsOrder::ByIndex);
    let fns = vec![meta("lonely", vec![], None, Some(vec!["/// documented, no directive"]))];
    let err = generate_module_documentation_inner(&opts, None, "global", &module_of(fns))
        .unwrap_err();
    assert!(err.message().contains("lonely"));
}

#[test]
fn by_index_mode_duplicate_indices_are_an_error() {
    let opts = options().order_items_with(ItemsOrder::ByIndex);
    let fns = vec![
        meta("one", vec![], None, Some(vec!["/// # rhai-autodocs:index:1"])),
        meta("two", vec![], None, Some(vec!["/// # rhai-autodocs:index:1"])),
    ];
    assert!(generate_module_documentation_inner(&opts, None, "global", &module_of(fns)).is_err());
}

#[test]
fn by_index_mode_out_of_range_index_is_an_error() {
    let opts = options().order_items_with(ItemsOrder::ByIndex);
    let fns = vec![meta("one", vec![], None, Some(vec!["/// # rhai-autodocs:index:7"]))];
    assert!(generate_module_documentation_inner(&opts, None, "global", &module_of(fns)).is_err());
}

#[test]
fn undocumented_items_are_dropped_silently() {
    let opts = options();
    let fns = vec![
        meta("documented", vec![], None, Some(vec!["/// doc"])),
        meta("hidden", vec![], None, None),
    ];
    let doc = generate_module_documentation_inner(&opts, None, "global", &module_of(fns)).unwrap();
    assert_eq!(doc.items.len(), 1);
    assert_eq!(doc.items[0].name(), "documented");
}

#[test]
fn overloads_group_under_one_item() {
    let opts = options();
    let fns = vec![
        meta("my_func", vec![param("a", "INT")], None, Some(vec!["/// doc 1"])),
        meta("my_func", vec![], None, None),
    ];
    let doc = generate_module_documentation_inner(&opts, None, "global", &module_of(fns)).unwrap();
    assert_eq!(doc.items.len(), 1);
    let item = &doc.items[0];
    assert_eq!(item.name(), "my_func");
    assert_eq!(item.signatures(), "fn my_func(a: int)\nfn my_func()");
    let sections = item.sections();
    assert_eq!(sections.len(), 1);
    assert_eq!(sections[0].name, "Description");
    assert_eq!(sections[0].body, "doc 1\n");
}

#[test]
fn accessors_group_by_normalized_name() {
    let fns = vec![
        meta("get$speed", vec![param("x", "MyType")], Some("INT"), Some(vec!["/// doc"])),
        meta("set$speed", vec![param("x", "MyType"), param("v", "INT")], None, None),
        meta("other", vec![], None, None),
    ];
    let groups = group_functions(&fns);
    assert_eq!(groups.len(), 2);
    assert_eq!(groups[0].0, "MyType.speed");
    assert_eq!(groups[0].1.len(), 2);
    assert_eq!(groups[1].0, "other");
}

#[test]
fn anonymous_functions_are_ignored() {
    let opts = options();
    let item = Item::new_function(
        &vec![meta("anon$0", vec![], None, Some(vec!["/// doc"]))],
        "anon$0",
        &opts,
    )
    .unwrap();
    assert!(item.is_none());
}

#[test]
fn module_tree_builder_namespaces() {
    let opts = options();
    let sub = ModuleMetadata {
        doc: Some("/// inner module".to_string()),
        functions: Some(vec![meta("inner_fn", vec![], None, Some(vec!["/// doc"]))]),
        custom_types: None,
        modules: None,
    };
    let root = ModuleMetadata {
        doc: None,
        functions: None,
        custom_types: None,
        modules: Some(vec![("my_module".to_string(), sub)]),
    };
    let doc = generate_module_documentation_inner(&opts, None, "global", &root).unwrap();
    assert_eq!(doc.name, "global");
    assert_eq!(doc.namespace, "global");
    assert_eq!(doc.sub_modules.len(), 1);
    let child = &doc.sub_modules[0];
    assert_eq!(child.name, "my_module");
    assert_eq!(child.namespace, "global/my_module");
    assert_eq!(child.documentation, "inner module");
    assert_eq!(child.items.len(), 1);
}

#[test]
fn doc_item_lineage_orders_alphabetically_too() {
    let make = |name: &str| {
        DocItem::new_function(
            &vec![meta(name, vec![], None, Some(vec!["/// doc"]))],
            name,
            &options(),
        )
        .unwrap()
        .unwrap()
    };
    let ordered = rhai_autodocs::module::options::ItemsOrder::Alphabetical.order_items(vec![
        make("zeta"),
        make("alpha"),
    ]);
    assert_eq!(ordered[0].name(), "alpha");
    assert_eq!(ordered[1].name(), "zeta");
    assert_eq!(ordered[0].index(), 0);
}

#[test]
fn custom_types_become_items() {
    let opts = options();
    let metadata = ModuleMetadata {
        doc: None,
        functions: None,
        custom_types: Some(vec![rhai_autodocs::custom_types::CustomTypesMetadata {
            type_path: "my::Thing".to_string(),
            display_name: "Thing".to_string(),
            doc_comments: Some(vec!["/// a custom thing".to_string()]),
        }]),
        modules: None,
    };
    let doc = generate_module_documentation_inner(&opts, None, "global", &metadata).unwrap();
    assert_eq!(doc.items.len(), 1);
    assert_eq!(doc.items[0].name(), "Thing");
    assert_eq!(doc.items[0].heading_id(), "type-Thing");
    assert_eq!(doc.items[0].index(), 0);
}

#[test]
fn by_index_items_with_equal_indices_keep_discovery_order() {
    let opts = options().order_items_with(ItemsOrder::ByIndex);
    let a = Item::new_function(
        &vec![meta("first_seen", vec![], Some("INT"), Some(vec!["/// # rhai-autodocs:index:1"]))],
        "first_seen",
        &opts,
    )
    .unwrap()
    .unwrap();
    let b = Item::new_function(
        &vec![meta("second_seen", vec![], None, Some(vec!["/// # rhai-autodocs:index:1"]))],
        "second_seen",
        &opts,
    )
    .unwrap()
    .unwrap();
    let ordered = ItemsOrder::ByIndex.order_items(vec![a, b]);
    assert_eq!(ordered[0].name(), "first_seen");
    assert_eq!(ordered[1].name(), "second_seen");
}

#[test]
fn by_index_custom_type_without_directive_is_an_error() {
    let opts = options().order_items_with(ItemsOrder::ByIndex);
    let metadata = ModuleMetadata {
        doc: None,
        functions: None,
        custom_types: Some(vec![rhai_autodocs::custom_types::CustomTypesMetadata {
            type_path: "my::Thing".to_string(),
            display_name: "Thing".to_string(),
            doc_comments: Some(vec!["/// documented, no directive".to_string()]),
        }]),
        modules: None,
    };
    let err = generate_module_documentation_inner(&opts, None, "global", &metadata).unwrap_err();
    assert!(err.message().contains("Thing"));
}

#[test]
fn undocumented_custom_types_are_dropped() {
    let opts = options();
    let metadata = ModuleMetadata {
        doc: None,
        functions: None,
        custom_types: Some(vec![rhai_autodocs::custom_types::CustomTypesMetadata {
            type_path: "my::Thing".to_string(),
            display_name: "Thing".to_string(),
            doc_comments: None,
        }]),
        modules: None,
    };
    let doc = generate_module_documentation_inner(&opts, None, "global", &metadata).unwrap();
    assert_eq!(doc.items.len(), 0);
}
