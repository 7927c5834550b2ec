use i18n_editor::json::{json_pretty, json_text, parse_json, Json};

#[test]
fn reads_a_document() {
    let json = parse_json(r#"{"a":[1,true,null,"x"],"b":{"c":"d"}}"#).unwrap();
    let items = json.get("a").unwrap().as_array().unwrap();
    assert_eq!(items.len(), 4);
    assert!(matches!(items[0], Json::Number(_)));
    assert!(matches!(items[1], Json::Bool(true)));
    assert!(matches!(items[2], Json::Null));
    assert_eq!(items[3].as_text().unwrap(), "x");
    assert_eq!(json.get("b").unwrap().get_text("c").unwrap(), "d");
    assert!(json.get("c").is_none());
    assert!(items[3].get("a").is_none());
    assert!(items[3].as_array().is_none());
    assert!(json.as_text().is_none());
    assert!(json.get_text("a").is_none());
}

#[test]
fn a_broken_document_is_an_error() {
    assert!(parse_json("").unwrap_err().contains("EOF"));
    assert!(parse_json("{} x").is_err());
}

#[test]
fn writes_compact_text() {
    let text = r#"{"a":[1,-2,1.5,true,null,"x\n\"中"],"b":{}}"#;
    assert_eq!(json_text(&parse_json(text).unwrap()), text);
    assert_eq!(json_text(&Json::Array(vec![Json::Number(7u64.into()), Json::Null])), "[7,null]");
}

#[test]
fn later_member_counts() {
    let json = Json::Object(vec![
        ("a".to_string(), Json::Text("1".to_string())),
        ("a".to_string(), Json::Text("2".to_string())),
    ]);
    assert_eq!(json.get_text("a").unwrap(), "2");
    assert_eq!(json_text(&json), r#"{"a":"2"}"#);
    let text = |name: &str, t: &str| (name.to_string(), Json::Text(t.to_string()));
    let json = Json::Object(vec![
        text("b", "1"), text("a", "2"), text("b", "3"), text("c", "4"), text("b", "5"),
    ]);
    assert_eq!(json_text(&json), r#"{"a":"2","b":"5","c":"4"}"#);
    assert_eq!(json_pretty(&json), "{\n  \"a\": \"2\",\n  \"b\": \"5\",\n  \"c\": \"4\"\n}");
}

#[test]
fn writes_indented_text() {
    let json = parse_json(r#"{"a":["b"]}"#).unwrap();
    assert_eq!(json_pretty(&json), "{\n  \"a\": [\n    \"b\"\n  ]\n}");
}

#[test]
fn an_object_of_texts_reads_back() {
    let json = Json::Object(vec![
        ("k\u{0}".to_string(), Json::Text("\u{2028}\\\"\t".to_string())),
        ("".to_string(), Json::Text("".to_string())),
    ]);
    let back = parse_json(&json_text(&json)).unwrap();
    assert_eq!(back.get_text("k\u{0}").unwrap(), "\u{2028}\\\"\t");
    assert_eq!(back.get_text("").unwrap(), "");
}
