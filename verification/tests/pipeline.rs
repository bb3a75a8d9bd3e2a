//! The full pipeline: JSON decoding, engine export and the function-group
//! ordering lineage.
use rhai_autodocs::export::{options, ItemsOrder};
use rhai_autodocs::item::Item;
use rhai_autodocs::json::JsonValue;
use rhai_autodocs::function::{Metadata, Param};
use rhai_autodocs::module::{documentation_from_json, ModuleMetadata};
use rhai_autodocs::options::FunctionOrder;

fn meta(name: &str, docs: Option<Vec<&str>>) -> Metadata {
    Metadata {
        access: "public".to_string(),
        base_hash: 0,
        full_hash: 0,
        name: name.to_string(),
        namespace: "global".to_string(),
        num_params: 0,
        params: Some(Vec::<Param>::new()),
        signature: String::new(),
        return_type: None,
        doc_comments: docs.map(|ds| ds.into_iter().map(|d| d.to_string()).collect()),
    }
}

#[test]
fn documentation_from_json_builds_a_tree() {
    let json = r#"{
        "doc": "/// root docs",
        "functions": [
            {
                "access": "public",
                "baseHash": 1,
                "fullHash": 2,
                "name": "add",
                "namespace": "global",
                "numParams": 2,
                "params": [
                    {"name": "a", "type": "INT"},
                    {"name": "b", "type": "INT"}
                ],
                "signature": "add(a: i64, b: i64) -> i64",
                "returnType": "INT",
                "docComments": ["/// Adds two integers."]
            }
        ],
        "modules": {
            "inner": {
                "doc": "/// inner docs"
            }
        }
    }"#;
    let doc = documentation_from_json(json, &options()).unwrap();
    assert_eq!(doc.name, "global");
    assert_eq!(doc.documentation, "root docs");
    assert_eq!(doc.items.len(), 1);
    assert_eq!(doc.items[0].name(), "add");
    assert_eq!(doc.items[0].signatures(), "fn add(a: int, b: int) -> int");
    assert_eq!(doc.sub_modules.len(), 1);
    assert_eq!(doc.sub_modules[0].name, "inner");
    assert_eq!(doc.sub_modules[0].namespace, "global/inner");
    assert_eq!(doc.sub_modules[0].documentation, "inner docs");
}

#[test]
fn documentation_from_json_rejects_bad_text() {
    assert!(documentation_from_json("this is not json", &options()).is_err());
}

#[test]
fn documentation_from_json_rejects_bad_shape() {
    assert!(documentation_from_json("[1, 2, 3]", &options()).is_err());
    assert!(documentation_from_json(r#"{"functions": 7}"#, &options()).is_err());
    assert!(documentation_from_json(r#"{"doc": 7}"#, &options()).is_err());
}

#[test]
fn decode_accepts_missing_optional_fields() {
    let doc = documentation_from_json("{}", &options()).unwrap();
    assert_eq!(doc.name, "global");
    assert_eq!(doc.items.len(), 0);
    assert_eq!(doc.sub_modules.len(), 0);
    assert_eq!(doc.documentation, "");
}

#[test]
fn export_from_an_empty_engine() {
    let engine = rhai::Engine::new();
    let doc = options().include_standard_packages(false).export(&engine).unwrap();
    assert_eq!(doc.name, "global");
    assert_eq!(doc.namespace, "global");
}

#[test]
fn function_order_alphabetical_sorts_groups() {
    let groups = vec![
        ("zeta".to_string(), vec![meta("zeta", None)]),
        ("alpha".to_string(), vec![meta("alpha", None)]),
    ];
    let ordered = FunctionOrder::Alphabetical.order_function_groups(groups).unwrap();
    assert_eq!(ordered[0].0, "alpha");
    assert_eq!(ordered[1].0, "zeta");
}

#[test]
fn function_order_by_index_places_groups() {
    let groups = vec![
        ("second".to_string(), vec![meta("second", Some(vec!["/// # rhai-autodocs:index:2"]))]),
        ("first".to_string(), vec![meta("first", Some(vec!["/// # rhai-autodocs:index:1"]))]),
    ];
    let ordered = FunctionOrder::ByIndex.order_function_groups(groups).unwrap();
    assert_eq!(ordered[0].0, "first");
    assert_eq!(ordered[1].0, "second");
}

#[test]
fn function_order_by_index_missing_directive_is_an_error() {
    let groups = vec![("plain".to_string(), vec![meta("plain", Some(vec!["/// doc only"]))])];
    let err = FunctionOrder::ByIndex.order_function_groups(groups).unwrap_err();
    assert!(err.message().contains("plain"));
}

#[test]
fn builders_carry_their_settings() {
    let d = rhai_autodocs::generate::docusaurus()
        .with_slug("/docs/api/")
        .rename_root_module("my_module");
    assert_eq!(d.slug.as_deref(), Some("/docs/api/"));
    assert_eq!(d.module_name.as_deref(), Some("my_module"));
    let g = rhai_autodocs::generate::docusaurus_glossary().with_slug("/glossary");
    assert_eq!(g.slug.as_deref(), Some("/glossary"));
    let _ = rhai_autodocs::generate::mdbook();
    let o = rhai_autodocs::module::options::options()
        .include_standard_packages(true)
        .for_markdown_processor(rhai_autodocs::module::options::MarkdownProcessor::MdBook);
    assert!(o.include_standard_packages);
    assert!(matches!(o.markdown_processor, rhai_autodocs::module::options::MarkdownProcessor::MdBook));
}

#[test]
fn fmt_sections_rust_wraps_in_details() {
    let out = rhai_autodocs::options::SectionFormat::Rust
        .fmt_sections("my_fn", "body text".to_string());
    assert_eq!(
        out,
        "\n<details>\n<summary markdown=\"span\"> details </summary>\n\nbody text\n</details>\n",
    );
}

#[test]
fn fmt_sections_tabs_builds_tab_blocks() {
    let out = rhai_autodocs::options::SectionFormat::Tabs
        .fmt_sections("my_fn", "intro\n# Args\ndetails".to_string());
    let mut expected = String::new();
    expected.push_str("<div class=\"tab\">\n");
    expected.push_str(
        "<button class=\"tablinks\" onclick=\"openTab(event, 'my_fn-description')\">description</button>\n",
    );
    expected.push_str("                    ");
    expected.push_str("\n<button class=\"tablinks\" onclick=\"openTab(event, 'my_fn-Args')\">Args</button>\n");
    expected.push_str("                        ");
    expected.push_str("</div>");
    expected.push_str("<div id=\"my_fn-description\" style=\"display: block;\" class=\"tabcontent active\">");
    expected.push_str("intro");
    expected.push_str("</div><div id=\"my_fn-Args\" class=\"tabcontent\">");
    expected.push_str("details");
    expected.push_str("</div>");
    assert_eq!(out, expected);
}

#[test]
fn alphabetical_order_ignores_discovery_order_for_distinct_names() {
    let make = |name: &str| {
        Item::new_function(&vec![meta(name, Some(vec!["/// doc"]))], name, &options())
            .unwrap()
            .unwrap()
    };
    let one = ItemsOrder::Alphabetical.order_items(vec![make("b"), make("a"), make("c")]);
    let two = ItemsOrder::Alphabetical.order_items(vec![make("c"), make("b"), make("a")]);
    let names_one: Vec<&str> = one.iter().map(|i| i.name()).collect();
    let names_two: Vec<&str> = two.iter().map(|i| i.name()).collect();
    assert_eq!(names_one, vec!["a", "b", "c"]);
    assert_eq!(names_one, names_two);
}

#[test]
fn decode_rejects_malformed_function_record() {
    let value = JsonValue::Obj(vec![(
        "functions".to_string(),
        JsonValue::Arr(vec![JsonValue::Obj(vec![("name".to_string(), JsonValue::Num(3))])]),
    )]);
    assert!(ModuleMetadata::decode(&value).is_err());
}
