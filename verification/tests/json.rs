use rusty_unsplash::Json;

fn text(s: &str) -> Json {
    Json::Text(s.to_string())
}

#[test]
fn parse_reads_null() {
    assert_eq!(Json::parse("null"), Some(Json::Null));
}

#[test]
fn parse_reads_truth_values() {
    assert_eq!(Json::parse("true"), Some(Json::Bool(true)));
    assert_eq!(Json::parse("false"), Some(Json::Bool(false)));
}

#[test]
fn parse_reads_integers() {
    assert_eq!(Json::parse("0"), Some(Json::Number(Some(0))));
    assert_eq!(Json::parse("42"), Some(Json::Number(Some(42))));
    assert_eq!(Json::parse("-7"), Some(Json::Number(Some(-7))));
    assert_eq!(
        Json::parse("9223372036854775807"),
        Some(Json::Number(Some(i64::MAX)))
    );
    assert_eq!(
        Json::parse("-9223372036854775808"),
        Some(Json::Number(Some(i64::MIN)))
    );
}

#[test]
fn parse_keeps_no_value_for_other_numbers() {
    assert_eq!(Json::parse("1.5"), Some(Json::Number(None)));
    assert_eq!(Json::parse("1.0"), Some(Json::Number(None)));
    assert_eq!(Json::parse("1e2"), Some(Json::Number(None)));
    assert_eq!(Json::parse("9223372036854775808"), Some(Json::Number(None)));
    assert_eq!(Json::parse("18446744073709551615"), Some(Json::Number(None)));
}

#[test]
fn parse_reads_text() {
    assert_eq!(Json::parse("\"\""), Some(text("")));
    assert_eq!(Json::parse("\"full\""), Some(text("full")));
    assert_eq!(Json::parse("\"a\\\"b\\n\""), Some(text("a\"b\n")));
    assert_eq!(Json::parse("\"\\u00e9\""), Some(text("é")));
}

#[test]
fn parse_reads_arrays_in_order() {
    assert_eq!(Json::parse("[]"), Some(Json::Array(vec![])));
    assert_eq!(
        Json::parse("[1, \"two\", null, [true]]"),
        Some(Json::Array(vec![
            Json::Number(Some(1)),
            text("two"),
            Json::Null,
            Json::Array(vec![Json::Bool(true)]),
        ]))
    );
}

#[test]
fn parse_reads_objects() {
    assert_eq!(Json::parse("{}"), Some(Json::Object(vec![])));
    let doc = Json::parse("{\"a\": 1, \"b\": {\"c\": \"d\"}}").unwrap();
    assert_eq!(doc.get("a"), Some(&Json::Number(Some(1))));
    assert_eq!(
        doc.get("b"),
        Some(&Json::Object(vec![("c".to_string(), text("d"))]))
    );
    assert_eq!(doc.get("c"), None);
}

#[test]
fn parse_keeps_every_entry_of_an_object() {
    let doc = Json::parse("{\"x\": 1, \"y\": 2, \"z\": 3}").unwrap();
    match doc {
        Json::Object(entries) => {
            assert_eq!(entries.len(), 3);
            assert!(entries.contains(&("x".to_string(), Json::Number(Some(1)))));
            assert!(entries.contains(&("y".to_string(), Json::Number(Some(2)))));
            assert!(entries.contains(&("z".to_string(), Json::Number(Some(3)))));
        }
        other => panic!("not an object: {:?}", other),
    }
}

#[test]
fn parse_refuses_what_is_not_json() {
    assert_eq!(Json::parse(""), None);
    assert_eq!(Json::parse("   "), None);
    assert_eq!(Json::parse("{"), None);
    assert_eq!(Json::parse("[1, 2"), None);
    assert_eq!(Json::parse("{\"a\" 1}"), None);
    assert_eq!(Json::parse("<html></html>"), None);
    assert_eq!(Json::parse("nul"), None);
    assert_eq!(Json::parse("'single'"), None);
}

#[test]
fn parse_refuses_text_after_the_document() {
    assert_eq!(Json::parse("[] []"), None);
    assert_eq!(Json::parse("{} x"), None);
    assert_eq!(Json::parse("1 2"), None);
}

#[test]
fn parse_allows_space_around_the_document() {
    assert_eq!(Json::parse("  [ ]\n"), Some(Json::Array(vec![])));
}

#[test]
fn get_finds_the_first_entry_of_a_key() {
    let doc = Json::Object(vec![
        ("k".to_string(), Json::Number(Some(1))),
        ("k".to_string(), Json::Number(Some(2))),
    ]);
    assert_eq!(doc.get("k"), Some(&Json::Number(Some(1))));
}

#[test]
fn get_finds_nothing_outside_objects() {
    assert_eq!(Json::Null.get("k"), None);
    assert_eq!(text("k").get("k"), None);
    assert_eq!(Json::Array(vec![text("k")]).get("k"), None);
}

#[test]
fn get_tells_keys_apart_exactly() {
    let doc = Json::Object(vec![("self".to_string(), Json::Bool(true))]);
    assert_eq!(doc.get("self"), Some(&Json::Bool(true)));
    assert_eq!(doc.get("sel"), None);
    assert_eq!(doc.get("selfs"), None);
    assert_eq!(doc.get("Self"), None);
    assert_eq!(doc.get(""), None);
}

#[test]
fn optional_treats_null_as_missing() {
    let doc = Json::Object(vec![
        ("a".to_string(), Json::Null),
        ("b".to_string(), Json::Bool(false)),
    ]);
    assert_eq!(doc.optional("a"), None);
    assert_eq!(doc.optional("b"), Some(&Json::Bool(false)));
    assert_eq!(doc.optional("c"), None);
    assert_eq!(doc.optional_copy("b"), Some(Json::Bool(false)));
    assert_eq!(doc.optional_copy("a"), None);
}

#[test]
fn text_wants_text() {
    let doc = Json::parse("{\"a\": \"x\", \"b\": 1, \"c\": null}").unwrap();
    assert_eq!(doc.text("a"), Some("x".to_string()));
    assert_eq!(doc.text("b"), None);
    assert_eq!(doc.text("c"), None);
    assert_eq!(doc.text("d"), None);
}

#[test]
fn optional_text_allows_missing_and_null() {
    let doc = Json::parse("{\"a\": \"x\", \"b\": 1, \"c\": null}").unwrap();
    assert_eq!(doc.optional_text("a"), Some(Some("x".to_string())));
    assert_eq!(doc.optional_text("b"), None);
    assert_eq!(doc.optional_text("c"), Some(None));
    assert_eq!(doc.optional_text("d"), Some(None));
}

#[test]
fn integer_wants_an_integer() {
    let doc = Json::parse("{\"a\": 12, \"b\": 1.5, \"c\": \"12\", \"d\": -3}").unwrap();
    assert_eq!(doc.integer("a"), Some(12));
    assert_eq!(doc.integer("b"), None);
    assert_eq!(doc.integer("c"), None);
    assert_eq!(doc.integer("d"), Some(-3));
    assert_eq!(doc.integer("e"), None);
}

#[test]
fn flag_wants_a_truth_value() {
    let doc = Json::parse("{\"a\": true, \"b\": 0, \"c\": \"true\"}").unwrap();
    assert_eq!(doc.flag("a"), Some(true));
    assert_eq!(doc.flag("b"), None);
    assert_eq!(doc.flag("c"), None);
    assert_eq!(doc.flag("d"), None);
}

#[test]
fn nullable_items_wants_an_array() {
    let doc = Json::parse("{\"a\": [1, null, \"x\"], \"b\": null, \"c\": {}}").unwrap();
    assert_eq!(
        doc.nullable_items("a"),
        Some(vec![Some(Json::Number(Some(1))), None, Some(text("x"))])
    );
    assert_eq!(doc.nullable_items("b"), None);
    assert_eq!(doc.nullable_items("c"), None);
    assert_eq!(doc.nullable_items("d"), None);
}

#[test]
fn unless_null_keeps_everything_but_null() {
    assert_eq!(Json::Null.unless_null(), None);
    assert_eq!(Json::Bool(false).unless_null(), Some(Json::Bool(false)));
    assert_eq!(Json::Array(vec![]).unless_null(), Some(Json::Array(vec![])));
}

#[test]
fn clone_copies_the_whole_tree() {
    let doc = Json::parse("{\"a\": [1, {\"b\": null}], \"c\": \"d\", \"e\": 2.5}").unwrap();
    let copy = doc.clone();
    assert_eq!(copy, doc);
}

#[test]
fn is_object_tells_objects() {
    assert!(Json::Object(vec![]).is_object());
    assert!(!Json::Array(vec![]).is_object());
    assert!(!Json::Null.is_object());
}

#[test]
fn parse_refuses_a_document_nested_too_deep() {
    let deep = format!("{}{}", "[".repeat(200), "]".repeat(200));
    assert_eq!(Json::parse(&deep), None);
    let fine = format!("{}{}", "[".repeat(100), "]".repeat(100));
    assert!(Json::parse(&fine).is_some());
}

#[test]
fn from_value_copies_each_kind_of_node() {
    let mut map = serde_json::Map::new();
    map.insert("t".to_string(), serde_json::Value::String("x".to_string()));
    map.insert("n".to_string(), serde_json::Value::Null);
    let value = serde_json::Value::Array(vec![
        serde_json::Value::Bool(true),
        serde_json::Value::Number(serde_json::Number::from(-5i64)),
        serde_json::Value::Number(serde_json::Number::from(u64::MAX)),
        serde_json::Value::Object(map),
    ]);
    let copy = Json::from_value(&value);
    match copy {
        Json::Array(items) => {
            assert_eq!(items.len(), 4);
            assert_eq!(items[0], Json::Bool(true));
            assert_eq!(items[1], Json::Number(Some(-5)));
            assert_eq!(items[2], Json::Number(None));
            assert_eq!(items[3].get("t"), Some(&text("x")));
            assert_eq!(items[3].get("n"), Some(&Json::Null));
        }
        other => panic!("not an array: {:?}", other),
    }
}
