use i18n_editor::table::{
    keys, load_table, parse_table, progress, shown_progress, table_text, Progress, Table,
};

fn table(pairs: &[(&str, &str)]) -> Table {
    let mut t = Table::new();
    for (k, v) in pairs {
        t.insert(k.to_string(), v.to_string());
    }
    t
}

#[test]
fn keys_keep_insertion_order() {
    let mut t = table(&[("b", "1"), ("a", "2")]);
    t.insert("b".into(), "3".into());
    assert_eq!(keys(&t), vec!["b", "a"]);
    assert_eq!(keys(&Table::new()), Vec::<String>::new());
}

#[test]
fn counts_translated_entries() {
    let t = table(&[("a", "x"), ("b", ""), ("c", " \u{3000}\n"), ("d", " y ")]);
    assert_eq!(progress(&t), Progress { total: 4, done: 2, missing: 2 });
    assert_eq!(progress(&Table::new()), Progress { total: 0, done: 0, missing: 0 });
}

#[test]
fn table_file_is_indented_json() {
    let t = table(&[("b", "二"), ("a", "\"\n")]);
    assert_eq!(table_text(&t), "{\n  \"b\": \"二\",\n  \"a\": \"\\\"\\n\"\n}\n");
    assert_eq!(table_text(&Table::new()), "{}\n");
}

#[test]
fn saved_table_loads_unchanged() {
    let t = table(&[("z", "一"), ("a", ""), ("m", "\u{2028}\u{0}\\ \"x\"\r\n"), ("", "\u{10ffff}")]);
    let text = table_text(&t);
    let back = load_table(Some(&text)).unwrap();
    assert_eq!(back, t);
    assert_eq!(keys(&back), keys(&t));
    assert_eq!(table_text(&back), text);
}

#[test]
fn missing_file_is_an_empty_table() {
    assert!(load_table(None).unwrap().is_empty());
}

#[test]
fn broken_table_is_an_error() {
    assert!(load_table(Some("[]")).is_err());
    assert!(load_table(Some("")).is_err());
    assert!(parse_table("{\"a\": 1}").unwrap_err().contains("invalid type"));
}

#[test]
fn later_duplicate_counts_in_a_file() {
    let t = parse_table("{\"a\":\"1\",\"b\":\"2\",\"a\":\"3\"}").unwrap();
    assert_eq!(t, table(&[("a", "3"), ("b", "2")]));
    assert_eq!(keys(&t), vec!["a", "b"]);
}

#[test]
fn an_unreadable_table_counts_as_empty() {
    assert_eq!(shown_progress(None), Progress { total: 0, done: 0, missing: 0 });
    let t = table(&[("a", "x"), ("b", "")]);
    assert_eq!(shown_progress(Some(&t)), Progress { total: 2, done: 1, missing: 1 });
}
