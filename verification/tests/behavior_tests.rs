use json_to_xml::error::ConversionError;
use json_to_xml::generate_xml::{
    convert, json_to_xml, json_to_xml_with_root, json_to_xml_with_version, make_version_comment,
};
use json_to_xml::json_utils::json_keys_to_lowercase;
use json_to_xml::json_value::{JsonNumber, JsonValue};
use json_to_xml::manifest::version_from_manifest;
use json_to_xml::text::capitalize_word;
use json_to_xml::xml_utils::XmlEmitter;

#[test]
fn exact_document_for_small_input() {
    let xml = json_to_xml("{\"a\": \"b\"}").unwrap();
    assert_eq!(
        xml,
        "<?xml version=\"1.0\" encoding=\"UTF-8\"?>\n<!--Generated with json_to_xml unknown version-->\n<A>b</A>"
    );
}

#[test]
fn capitalization_is_idempotent_on_samples() {
    assert_eq!(capitalize_word("hello"), "Hello");
    assert_eq!(capitalize_word("Hello"), "Hello");
    assert_eq!(capitalize_word(capitalize_word("items").as_str()), "Items");
    assert_eq!(capitalize_word(""), "");
    assert_eq!(capitalize_word("@id"), "@id");
    assert_eq!(capitalize_word("x9"), "X9");
}

#[test]
fn empty_object_never_renders_as_open_close_pair() {
    let xml = json_to_xml("{\"empty\": {}, \"list\": []}").unwrap();
    assert!(xml.contains("<Empty/>"));
    assert!(!xml.contains("<Empty></Empty>"));
    assert!(xml.contains("<List>"));
    assert!(xml.contains("</List>"));
    assert!(!xml.contains("<List/>"));
}

#[test]
fn null_yields_fixed_none_tag() {
    let xml = json_to_xml("{\"value\": null}").unwrap();
    assert!(xml.contains("<Value>"));
    assert!(xml.contains("<None/>"));
    assert!(xml.contains("</Value>"));
    let other = json_to_xml("{\"age\": null}").unwrap();
    assert!(other.contains("<None/>"));
    let in_array = json_to_xml("{\"xs\": [null, 1]}").unwrap();
    assert!(in_array.contains("<XsItem>"));
    assert!(in_array.contains("<None/>"));
    assert!(in_array.contains("</XsItem>"));
}

#[test]
fn attribute_extraction_strips_marker() {
    let json = "{\"@id\":\"42\",\"name\":\"Alice\"}";
    let xml = json_to_xml_with_root(json, "Person").unwrap();
    assert!(xml.contains("<Person id=\"42\">"));
    assert!(xml.contains("<Name>Alice</Name>"));
    assert!(!xml.contains("@id"));
}

#[test]
fn no_top_level_attribute_no_root_wrapper() {
    let xml = json_to_xml("{\"item\": \"value\"}").unwrap();
    assert!(!xml.contains("<Root"));
    assert!(!xml.contains("</Root>"));
    assert!(xml.contains("<Item>value</Item>"));
}

#[test]
fn non_string_attribute_values_are_dropped_silently() {
    let xml = json_to_xml_with_root("{\"@n\": 7, \"a\": \"b\"}", "R").unwrap();
    assert!(xml.contains("<R>"));
    assert!(!xml.contains("n=\"7\""));
    assert!(xml.contains("<A>b</A>"));
    assert!(xml.contains("</R>"));
}

#[test]
fn numeric_formatting_integer_and_float() {
    let xml = json_to_xml("{\"age\": 99, \"price\": 99.5}").unwrap();
    assert!(xml.contains("<Age>99</Age>"));
    assert!(xml.contains("<Price>99.5</Price>"));
    let neg = json_to_xml("{\"t\": -5}").unwrap();
    assert!(neg.contains("<T>-5</T>"));
    let big = json_to_xml("{\"b\": 18446744073709551615}").unwrap();
    assert!(big.contains("<B>18446744073709551615</B>"));
    let truth = json_to_xml("{\"f\": false, \"t\": true}").unwrap();
    assert!(truth.contains("<F>false</F>"));
    assert!(truth.contains("<T>true</T>"));
}

#[test]
fn text_and_attribute_content_is_escaped() {
    let xml = json_to_xml("{\"a\": \"x<y&z>'h\\\"w\"}").unwrap();
    assert!(xml.contains("<A>x&lt;y&amp;z&gt;&apos;h&quot;w</A>"));
    let attr = json_to_xml_with_root("{\"@a\": \"x\\\"y\", \"b\": \"c\"}", "R").unwrap();
    assert!(attr.contains("a=\"x&quot;y\""));
}

#[test]
fn empty_string_value_keeps_tags_adjacent() {
    let xml = json_to_xml("{\"s\": \"\"}").unwrap();
    assert!(xml.contains("<S></S>"));
}

#[test]
fn mixed_array_is_wrapped_by_parent_tag() {
    let xml = json_to_xml("{\"data\": [\"A\", 123, {\"x\": \"y\"}]}").unwrap();
    assert!(xml.contains("<Data>"));
    assert!(xml.contains("</Data>"));
    assert!(xml.contains("<DataItem><X>y</X></DataItem>") || xml.contains("<X>y</X>"));
    assert!(!xml.contains("<DataItemItem>"));
}

#[test]
fn invalid_json_is_a_parse_error() {
    let r = json_to_xml("{ not json");
    assert!(r.is_err());
    assert!(matches!(r.unwrap_err(), ConversionError::InputParse(_)));
}

#[test]
fn depth_past_ceiling_is_rejected_atomically() {
    let mut v = JsonValue::Null;
    let mut i = 0;
    while i < 200 {
        v = JsonValue::Object(vec![("a".to_string(), v)]);
        i += 1;
    }
    let r = convert(&v, "Root", "note");
    assert!(matches!(r.unwrap_err(), ConversionError::DepthExceeded));
}

#[test]
fn depth_within_ceiling_succeeds() {
    let mut v = JsonValue::String("leaf".to_string());
    let mut i = 0;
    while i < 50 {
        v = JsonValue::Object(vec![("a".to_string(), v)]);
        i += 1;
    }
    let xml = convert(&v, "Root", "note").unwrap();
    assert!(xml.contains("leaf"));
    assert!(xml.contains("<!--note-->"));
}

#[test]
fn convert_renders_caller_supplied_comment() {
    let v = JsonValue::Number(JsonNumber::Int(7));
    let xml = convert(&v, "Root", "my comment").unwrap();
    assert!(xml.contains("<!--my comment-->"));
    assert!(xml.contains("7"));
    assert!(xml.contains("<?xml version=\"1.0\" encoding=\"UTF-8\"?>"));
}

#[test]
fn version_comment_format() {
    assert_eq!(
        make_version_comment("0.1.7"),
        "Generated with json_to_xml 0.1.7"
    );
    let xml = json_to_xml_with_version("{\"a\": \"b\"}", "Root", "9.9.9").unwrap();
    assert!(xml.contains("<!--Generated with json_to_xml 9.9.9-->"));
}

#[test]
fn manifest_version_from_dependency_string() {
    let toml = "[dependencies]\njson_to_xml = \"0.1.7\"\n";
    assert_eq!(version_from_manifest(toml).unwrap(), "0.1.7");
}

#[test]
fn manifest_version_from_dependency_table() {
    let toml = "[dependencies.json_to_xml]\nversion = \"0.2.0\"\n";
    assert_eq!(version_from_manifest(toml).unwrap(), "0.2.0");
}

#[test]
fn manifest_version_package_fallback() {
    let toml = "[package]\nname = \"demo\"\nversion = \"1.2.3\"\n";
    assert_eq!(version_from_manifest(toml).unwrap(), "1.2.3");
}

#[test]
fn manifest_without_version_is_an_error() {
    let r = version_from_manifest("[package]\nname = \"demo\"\n");
    assert!(matches!(r.unwrap_err(), ConversionError::Toml(_)));
    let bad = version_from_manifest("= not toml at all =");
    assert!(matches!(bad.unwrap_err(), ConversionError::Toml(_)));
}

#[test]
fn error_messages_name_their_kind() {
    assert_eq!(
        ConversionError::InputParse("bad".to_string()).message(),
        "JSON error: bad"
    );
    assert_eq!(
        ConversionError::DepthExceeded.message(),
        "nesting depth exceeds the ceiling"
    );
}

#[test]
fn keys_to_lowercase_matches_documented_example() {
    let input = JsonValue::Object(vec![
        (
            "FooBar".to_string(),
            JsonValue::Object(vec![
                ("@KeyName".to_string(), JsonValue::String("value".to_string())),
                (
                    "NestedObject".to_string(),
                    JsonValue::Object(vec![(
                        "SomeKey".to_string(),
                        JsonValue::String("value".to_string()),
                    )]),
                ),
            ]),
        ),
        (
            "AnotherField".to_string(),
            JsonValue::String("value".to_string()),
        ),
    ]);
    let expected = JsonValue::Object(vec![
        (
            "fooBar".to_string(),
            JsonValue::Object(vec![
                ("__KeyName".to_string(), JsonValue::String("value".to_string())),
                (
                    "nestedObject".to_string(),
                    JsonValue::Object(vec![(
                        "someKey".to_string(),
                        JsonValue::String("value".to_string()),
                    )]),
                ),
            ]),
        ),
        (
            "anotherField".to_string(),
            JsonValue::String("value".to_string()),
        ),
    ]);
    assert_eq!(json_keys_to_lowercase(&input), expected);
}

#[test]
fn emitter_renders_events_directly() {
    let mut em = XmlEmitter::new();
    em.write_start_tag("A", &vec![("k".to_string(), "v".to_string())]);
    em.write_content("t");
    em.write_end_tag("A");
    assert_eq!(em.finish(), "<A k=\"v\">t</A>");
}

#[test]
fn emitter_indents_nested_tags() {
    let mut em = XmlEmitter::new();
    let no_attrs: Vec<(String, String)> = vec![];
    em.write_start_tag("A", &no_attrs);
    em.write_start_tag("B", &no_attrs);
    em.write_content("x");
    em.write_end_tag("B");
    em.write_empty_tag("C", &no_attrs);
    em.write_end_tag("A");
    assert_eq!(em.finish(), "<A>\n  <B>x</B>\n  <C/>\n</A>");
}

#[test]
fn emitter_declaration_and_comment() {
    let mut em = XmlEmitter::new();
    em.write_declaration("1.1", None);
    em.write_comment("a<b");
    assert_eq!(em.finish(), "<?xml version=\"1.1\"?>\n<!--a&lt;b-->");
}

#[test]
fn top_level_primitive_renders_bare() {
    let xml = json_to_xml("\"hello\"").unwrap();
    assert!(xml.ends_with("-->hello"));
}
