//! Signature synthesis and type-name resolution.
use rhai_autodocs::function::{def_type_name, is_operator, remove_result, Definition, Metadata, Param};

fn param(name: &str, ty: &str) -> Param {
    Param { name: Some(name.to_string()), ty: Some(ty.to_string()) }
}

fn meta(name: &str, params: Vec<Param>, return_type: Option<&str>, docs: Option<Vec<&str>>) -> Metadata {
    Metadata {
        access: "public".to_string(),
        base_hash: 0,
        full_hash: 0,
        name: name.to_string(),
        namespace: "global".to_string(),
        num_params: params.len(),
        params: Some(params),
        signature: String::new(),
        return_type: return_type.map(|s| s.to_string()),
        doc_comments: docs.map(|ds| ds.into_iter().map(|d| d.to_string()).collect()),
    }
}

#[test]
fn test_remove_result() {
    assert_eq!("Cache", remove_result("Result<Cache, Box<EvalAltResult>>"));
    assert_eq!("Cache", remove_result("Result<Cache,Box<EvalAltResult>>"));
    assert_eq!("&mut Cache", remove_result("Result<&mut Cache, Box<EvalAltResult>>"));
    assert_eq!("Cache", remove_result("Result<Cache, Box<rhai::EvalAltResult>>"));
    assert_eq!("Cache", remove_result("Result<Cache,Box<rhai::EvalAltResult>>"));
    assert_eq!("Stuff", remove_result("EngineResult<Stuff>"));
    assert_eq!("Stuff", remove_result("RhaiResultOf<Stuff>"));
    assert_eq!("Stuff", remove_result("rhai::RhaiResultOf<Stuff>"));
}

#[test]
fn plain_function_signature() {
    let m = meta("add", vec![param("a", "INT"), param("b", "INT")], Some("INT"), None);
    let def = m.generate_function_definition();
    assert_eq!(def.display(), "fn add(a: int, b: int) -> int");
    assert_eq!(def.type_to_str(), "fn");
    assert_eq!(def.name(), "add");
}

#[test]
fn getter_signature() {
    let m = meta("get$age", vec![param("x", "MyType")], None, None);
    let def = m.generate_function_definition();
    match &def {
        Definition::Get { target, index, return_type } => {
            assert_eq!(target.ty, "MyType");
            assert_eq!(index.name, "age");
            assert!(return_type.is_none());
        },
        _ => panic!("expected a getter"),
    }
    assert_eq!(def.display(), "get MyType.age");
    assert_eq!(def.type_to_str(), "get/set");
    assert_eq!(def.name(), "MyType.age");
}

#[test]
fn setter_signature() {
    let m = meta("set$age", vec![param("x", "MyType"), param("v", "INT")], None, None);
    let def = m.generate_function_definition();
    assert_eq!(def.display(), "set MyType.age = int");
    assert_eq!(def.name(), "MyType.age");
}

#[test]
fn operator_signature() {
    assert!(is_operator("=="));
    assert!(is_operator("in"));
    assert!(!is_operator("add"));
    let m = meta("==", vec![param("a", "INT"), param("b", "INT")], Some("bool"), None);
    let def = m.generate_function_definition();
    assert_eq!(def.display(), "op int == int -> bool");
    assert_eq!(def.type_to_str(), "op");
}

#[test]
fn indexer_signatures() {
    let g = meta("index$get$", vec![param("x", "MyType"), param("i", "INT")], Some("INT"), None);
    assert_eq!(g.generate_function_definition().display(), "index get MyType[i: int] -> int");
    assert_eq!(g.generate_function_definition().type_to_str(), "index get/set");
    let s = meta(
        "index$set$",
        vec![param("x", "MyType"), param("i", "INT"), param("v", "INT")],
        None,
        None,
    );
    assert_eq!(s.generate_function_definition().display(), "index set MyType[i: int] = int");
}

#[test]
fn missing_parameter_slots_render_unknown() {
    let m = meta("==", vec![], None, None);
    assert_eq!(m.generate_function_definition().display(), "op ? == ?");
}

#[test]
fn type_name_substitutions() {
    assert_eq!(def_type_name("INT"), Some("int".to_string()));
    assert_eq!(def_type_name("i64"), Some("int".to_string()));
    assert_eq!(def_type_name("FLOAT"), Some("float".to_string()));
    assert_eq!(def_type_name("f64"), Some("float".to_string()));
    assert_eq!(def_type_name("Dynamic"), Some("?".to_string()));
    assert_eq!(def_type_name("ImmutableString"), Some("String".to_string()));
    assert_eq!(def_type_name("&str"), Some("String".to_string()));
    assert_eq!(def_type_name("&mut Cache"), Some("Cache".to_string()));
    assert_eq!(def_type_name("my::mod::Thing"), Some("Thing".to_string()));
    assert_eq!(def_type_name("Result<Cache, Box<EvalAltResult>>"), Some("Cache".to_string()));
    assert_eq!(def_type_name("()"), None);
    assert_eq!(def_type_name("Iterator<Item=INT>"), Some("Iterator<int>".to_string()));
}

#[test]
fn heading_ids_follow_the_kind() {
    let opts = rhai_autodocs::export::options();
    let f = meta("add", vec![param("a", "INT")], None, Some(vec!["/// doc"]));
    let item = rhai_autodocs::item::Item::new_function(&vec![f], "add", &opts)
        .unwrap()
        .unwrap();
    assert_eq!(item.heading_id(), "fn-add");
    let g = meta("get$age", vec![param("x", "MyType")], None, Some(vec!["/// doc"]));
    let item = rhai_autodocs::item::Item::new_function(&vec![g], "MyType.age", &opts)
        .unwrap()
        .unwrap();
    assert_eq!(item.heading_id(), "getset-MyType.age");
}
