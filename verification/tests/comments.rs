//! Comment cleanup and section extraction.
use rhai_autodocs::doc_item::{DocItem, Section};
use rhai_autodocs::item::Item;

#[test]
fn doc_item_test_remove_test_code_simple() {
    assert_eq!(
        DocItem::remove_test_code(
            r#"
# Not removed.
```
fn my_func(a: int) -> () {}
do stuff ...
# Please hide this.
do something else ...
# Also this.
```
# Not removed either.
"#,
        ),
        r#"
# Not removed.
```
fn my_func(a: int) -> () {}
do stuff ...
do something else ...
```
# Not removed either."#,
    )
}

#[test]
fn doc_item_test_remove_test_code_multiple_blocks() {
    assert_eq!(
        DocItem::remove_test_code(
            r#"
```ignore
block 1
# Please hide this.
```

# A title

```
block 2
# Please hide this.
john
doe
# To hide.
```
"#,
        ),
        r#"
```ignore
block 1
```

# A title

```
block 2
john
doe
```"#,
    )
}

#[test]
fn doc_item_test_remove_test_code_with_rhai_map() {
    assert_eq!(
        DocItem::remove_test_code(
            r#"
```rhai
#{
    "a": 1,
    "b": 2,
    "c": 3,
};
# Please hide this.
```

# A title

```
# Please hide this.
let map = #{
    "hello": "world"
# To hide.
};
# To hide.
```
"#,
        ),
        r#"
```rhai
#{
    "a": 1,
    "b": 2,
    "c": 3,
};
```

# A title

```
let map = #{
    "hello": "world"
};
```"#,
    )
}

#[test]
fn item_test_remove_test_code_simple() {
    assert_eq!(
        Item::remove_test_code(
            r"
# Not removed.
```
fn my_func(a: int) -> () {}
do stuff ...
# Please hide this.
do something else ...
# Also this.
```
# Not removed either.
",
        ),
        r"
# Not removed.
```
fn my_func(a: int) -> () {}
do stuff ...
do something else ...
```
# Not removed either.",
    );
}

#[test]
fn item_test_remove_test_code_multiple_blocks() {
    assert_eq!(
        Item::remove_test_code(
            r"
```ignore
block 1
# Please hide this.
```

# A title

```
block 2
# Please hide this.
john
doe
# To hide.
```
",
        ),
        r"
```ignore
block 1
```

# A title

```
block 2
john
doe
```",
    );
}

#[test]
fn item_test_remove_test_code_with_rhai_map() {
    assert_eq!(
        Item::remove_test_code(
            r#"
```rhai
#{
    "a": 1,
    "b": 2,
    "c": 3,
};
# Please hide this.
```

# A title

```
# Please hide this.
let map = #{
    "hello": "world"
};
# To hide.
```
"#,
        ),
        r#"
```rhai
#{
    "a": 1,
    "b": 2,
    "c": 3,
};
```

# A title

```
let map = #{
    "hello": "world"
};
```"#,
    );
}

#[test]
fn extract_three_sections_round_trip() {
    let sections = Section::extract_sections("intro text\n# Args\n* a - first\n# Return\n* sum\n");
    assert_eq!(sections.len(), 3);
    assert_eq!(sections[0].name, "Description");
    assert_eq!(sections[0].body, "intro text\n");
    assert_eq!(sections[1].name, "Args");
    assert_eq!(sections[1].body, "* a - first\n");
    assert_eq!(sections[2].name, "Return");
    assert_eq!(sections[2].body, "* sum\n");
}

#[test]
fn extract_is_idempotent_on_extracted_body() {
    let first = Section::extract_sections("hello\nworld");
    assert_eq!(first.len(), 1);
    assert_eq!(first[0].name, "Description");
    assert_eq!(first[0].body, "hello\nworld\n");
    let again = Section::extract_sections(&first[0].body);
    assert_eq!(again.len(), 1);
    assert_eq!(again[0].name, "Description");
    assert_eq!(again[0].body, first[0].body);
}

#[test]
fn extract_never_splits_inside_fence() {
    let sections = Section::extract_sections("```\n# hidden sample line\ncode\n```\ntail\n");
    assert_eq!(sections.len(), 1);
    assert_eq!(sections[0].name, "Description");
    assert_eq!(sections[0].body, "```\ncode\n```\ntail\n");
}

#[test]
fn extract_heading_on_first_line_skips_empty_description() {
    let sections = Section::extract_sections("# Args\nsomething\n");
    assert_eq!(sections.len(), 1);
    assert_eq!(sections[0].name, "Args");
    assert_eq!(sections[0].body, "something\n");
}

#[test]
fn extract_strips_directive_lines() {
    let sections = Section::extract_sections("text\n# rhai-autodocs:index:3\nmore\n");
    assert_eq!(sections.len(), 1);
    assert_eq!(sections[0].name, "Description");
    assert_eq!(sections[0].body, "text\nmore\n");
}

#[test]
fn extract_heading_marker_mid_line_opens_a_section() {
    let sections = Section::extract_sections("intro\nsee # Note\ntext\n");
    assert_eq!(sections.len(), 2);
    assert_eq!(sections[0].name, "Description");
    assert_eq!(sections[0].body, "intro\n");
    assert_eq!(sections[1].name, "Note");
    assert_eq!(sections[1].body, "text\n");
}

#[test]
fn extract_double_hash_heading_uses_text_after_marker() {
    let sections = Section::extract_sections("intro\n## Sub\ntext\n");
    assert_eq!(sections.len(), 2);
    assert_eq!(sections[1].name, "Sub");
}

#[test]
fn extract_indented_fence_still_toggles() {
    let sections = Section::extract_sections("   ```rhai\n# hidden\n   ```\n# After\ntail\n");
    assert_eq!(sections.len(), 2);
    assert_eq!(sections[0].name, "Description");
    assert_eq!(sections[0].body, "   ```rhai\n   ```\n");
    assert_eq!(sections[1].name, "After");
    assert_eq!(sections[1].body, "tail\n");
}

#[test]
fn find_index_rejects_signed_value() {
    let dc = vec!["/// # rhai-autodocs:index:+5".to_string()];
    assert!(DocItem::find_index(&dc).is_err());
}

#[test]
fn fmt_doc_comments_strips_markers() {
    assert_eq!(
        DocItem::fmt_doc_comments("/// hello\n///world\n/** block **/".to_string()),
        "hello\nworld\n block ",
    );
}

#[test]
fn format_comments_pipeline() {
    let dc = vec![
        "/// first line".to_string(),
        "/// # rhai-autodocs:index:1".to_string(),
        "/// last line".to_string(),
    ];
    assert_eq!(DocItem::format_comments(&dc), "first line\n\nlast line");
}

#[test]
fn find_index_reads_directive() {
    let dc = vec!["/// doc".to_string(), "/// # rhai-autodocs:index:12".to_string()];
    assert_eq!(DocItem::find_index(&dc).unwrap(), Some(12));
}

#[test]
fn find_index_without_directive_is_none() {
    let dc = vec!["/// doc".to_string()];
    assert_eq!(DocItem::find_index(&dc).unwrap(), None);
}

#[test]
fn find_index_rejects_malformed_value() {
    let dc = vec!["/// # rhai-autodocs:index:one".to_string()];
    assert!(DocItem::find_index(&dc).is_err());
}
