use docsynth::document::GenValue;
use docsynth::generator::generate;
use docsynth::json::JsonNode;
use docsynth::params::{args_ok, parse_u32, Params};
use docsynth::schema::SchemaError;

fn obj(entries: Vec<(&str, JsonNode)>) -> JsonNode {
    JsonNode::Object(entries.into_iter().map(|(k, v)| (k.to_string(), v)).collect())
}

fn typed(t: &str) -> JsonNode {
    obj(vec![("type", JsonNode::Text(t.to_string()))])
}

fn schema_of(props: Vec<(&str, JsonNode)>) -> JsonNode {
    obj(vec![("properties", obj(props))])
}

fn strings(args: Vec<&str>) -> Vec<String> {
    args.into_iter().map(|s| s.to_string()).collect()
}

#[test]
fn unsupported_type_names_field_and_tag() {
    let schema = schema_of(vec![("a", typed("unknown"))]);
    let r = generate(&schema, 1);
    assert_eq!(
        r.unwrap_err(),
        SchemaError::UnsupportedType { field: "a".to_string(), tag: "unknown".to_string() }
    );
}

#[test]
fn missing_type_names_field() {
    let schema = schema_of(vec![("a", obj(vec![]))]);
    let r = generate(&schema, 1);
    assert_eq!(r.unwrap_err(), SchemaError::MissingType { field: "a".to_string() });
}

#[test]
fn missing_properties_is_shape_error() {
    let schema = obj(vec![("type", JsonNode::Text("object".to_string()))]);
    let r = generate(&schema, 1);
    assert_eq!(r.unwrap_err(), SchemaError::SchemaShape);
}

#[test]
fn non_object_type_tag_is_missing_type() {
    let schema = schema_of(vec![("a", obj(vec![("type", JsonNode::Other)]))]);
    let r = generate(&schema, 1);
    assert_eq!(r.unwrap_err(), SchemaError::MissingType { field: "a".to_string() });
}

#[test]
fn nested_defect_found_depth_first() {
    let schema = schema_of(vec![(
        "a",
        schema_with_object_tag(vec![("b", typed("bad"))]),
    )]);
    let r = generate(&schema, 1);
    assert_eq!(
        r.unwrap_err(),
        SchemaError::UnsupportedType { field: "b".to_string(), tag: "bad".to_string() }
    );
}

#[test]
fn nested_object_without_properties_is_shape_error() {
    let schema = schema_of(vec![("a", typed("object"))]);
    let r = generate(&schema, 1);
    assert_eq!(r.unwrap_err(), SchemaError::SchemaShape);
}

#[test]
fn schema_defect_reported_even_for_zero_count() {
    let schema = schema_of(vec![("a", typed("unknown"))]);
    let r = generate(&schema, 0);
    assert!(r.is_err());
}

#[test]
fn nested_schema_one_document() {
    let schema = schema_of(vec![
        ("x", typed("integer")),
        ("y", schema_with_object_tag(vec![("z", typed("boolean"))])),
    ]);
    let docs = generate(&schema, 1).unwrap();
    assert_eq!(docs.len(), 1);
    let fields = &docs[0].fields;
    assert_eq!(fields.len(), 2);
    assert_eq!(fields[0].name, "x");
    assert!(matches!(fields[0].value, GenValue::Integer(_)));
    assert_eq!(fields[1].name, "y");
    match &fields[1].value {
        GenValue::Object(inner) => {
            assert_eq!(inner.len(), 1);
            assert_eq!(inner[0].name, "z");
            assert!(matches!(inner[0].value, GenValue::Boolean(_)));
        }
        other => panic!("expected nested object, got {:?}", other),
    }
}

fn schema_with_object_tag(props: Vec<(&str, JsonNode)>) -> JsonNode {
    obj(vec![
        ("type", JsonNode::Text("object".to_string())),
        ("properties", obj(props)),
    ])
}

#[test]
fn count_zero_yields_empty() {
    let schema = schema_of(vec![("a", typed("integer"))]);
    let docs = generate(&schema, 0).unwrap();
    assert_eq!(docs.len(), 0);
}

#[test]
fn count_is_honored() {
    let schema = schema_of(vec![("a", typed("integer"))]);
    let docs = generate(&schema, 5).unwrap();
    assert_eq!(docs.len(), 5);
}

#[test]
fn generated_strings_are_ten_alphanumeric_chars() {
    let schema = schema_of(vec![("s", typed("string"))]);
    let docs = generate(&schema, 3).unwrap();
    for doc in &docs {
        match &doc.fields[0].value {
            GenValue::Text(s) => {
                assert_eq!(s.chars().count(), 10);
                assert!(s.chars().all(|c| c.is_ascii_alphanumeric()));
            }
            other => panic!("expected text, got {:?}", other),
        }
    }
}

#[test]
fn all_scalar_kinds_have_declared_kind() {
    let schema = schema_of(vec![
        ("i", typed("integer")),
        ("n", typed("number")),
        ("b", typed("boolean")),
        ("s", typed("string")),
    ]);
    let docs = generate(&schema, 1).unwrap();
    let fields = &docs[0].fields;
    assert_eq!(fields.len(), 4);
    assert!(matches!(fields[0].value, GenValue::Integer(_)));
    assert!(matches!(fields[1].value, GenValue::Number { .. }));
    assert!(matches!(fields[2].value, GenValue::Boolean(_)));
    assert!(matches!(fields[3].value, GenValue::Text(_)));
}

#[test]
fn field_order_follows_schema_order() {
    let schema = schema_of(vec![
        ("c", typed("integer")),
        ("b", typed("integer")),
        ("a", typed("integer")),
    ]);
    let docs = generate(&schema, 1).unwrap();
    let names: Vec<&str> = docs[0].fields.iter().map(|f| f.name.as_str()).collect();
    assert_eq!(names, vec!["c", "b", "a"]);
}

#[test]
fn two_documents_differ_somewhere() {
    let schema = schema_of(vec![("s", typed("string")), ("t", typed("string"))]);
    let docs = generate(&schema, 2).unwrap();
    let text_of = |v: &GenValue| match v {
        GenValue::Text(s) => s.clone(),
        other => panic!("expected text, got {:?}", other),
    };
    let first: Vec<String> = docs[0].fields.iter().map(|f| text_of(&f.value)).collect();
    let second: Vec<String> = docs[1].fields.iter().map(|f| text_of(&f.value)).collect();
    assert_ne!(first, second);
}

#[test]
fn duplicate_property_name_keeps_one_field_last_wins() {
    let schema = schema_of(vec![("a", typed("integer")), ("a", typed("boolean"))]);
    let docs = generate(&schema, 1).unwrap();
    let fields = &docs[0].fields;
    assert_eq!(fields.len(), 1);
    assert_eq!(fields[0].name, "a");
    assert!(matches!(fields[0].value, GenValue::Boolean(_)));
}

#[test]
fn parse_u32_reads_decimal() {
    assert_eq!(parse_u32("0"), Some(0));
    assert_eq!(parse_u32("100"), Some(100));
    assert_eq!(parse_u32("4294967295"), Some(u32::MAX));
}

#[test]
fn parse_u32_rejects_bad_text() {
    assert_eq!(parse_u32(""), None);
    assert_eq!(parse_u32("12a"), None);
    assert_eq!(parse_u32("-1"), None);
    assert_eq!(parse_u32("4294967296"), None);
}

#[test]
fn params_default_count_is_100() {
    let args = strings(vec!["prog"]);
    let params = Params::parse(&args);
    assert_eq!(params.count, 100);
    assert!(params.schema_from_file.is_none());
    assert!(params.output_file.is_none());
}

#[test]
fn params_reads_flags_at_even_positions() {
    let args = strings(vec![
        "prog",
        "pad",
        "--count",
        "7",
        "--schema-from-file",
        "schema.json",
        "--output-file",
        "out.txt",
    ]);
    let params = Params::parse(&args);
    assert_eq!(params.count, 7);
    assert_eq!(params.schema_from_file.as_deref(), Some("schema.json"));
    assert_eq!(params.output_file.as_deref(), Some("out.txt"));
}

#[test]
fn params_last_flag_wins() {
    let args = strings(vec!["prog", "pad", "--count", "7", "--count", "9"]);
    let params = Params::parse(&args);
    assert_eq!(params.count, 9);
}

#[test]
fn args_ok_rejects_unparseable_count() {
    let bad = strings(vec!["prog", "pad", "--count", "abc"]);
    assert!(!args_ok(&bad));
    let good = strings(vec!["prog", "pad", "--count", "42"]);
    assert!(args_ok(&good));
}
