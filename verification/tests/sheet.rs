use i18n_editor::json::parse_json;
use i18n_editor::sheet::{
    available, cell_text, cell_texts, fetch, grid_of, has_ordered_braces, parse, sheet_from,
    sheet_of, FetchError, SheetError,
};

#[test]
fn parses_gviz_payload() {
    let body = r#"/*O_o*/
google.visualization.Query.setResponse({"table":{"cols":[],"rows":[
{"c":[{"v":"Key"},{"v":"Korean"},{"v":"English"}]},
{"c":[{"v":"Default"},{"v":"기본"},{"v":"Default"}]},
{"c":[{"v":"ModBranch"},{"v":"모드 분기"},{"v":"Mod Branch"}]}
]}});"#;
    let sheet = parse(body, "JALib").unwrap();
    assert_eq!(sheet.languages, vec!["Korean", "English"]);
    assert_eq!(sheet.rows.len(), 2);
    assert_eq!(sheet.rows[0].key, "Default");
    assert_eq!(sheet.rows[1].key, "ModBranch");
    assert_eq!(sheet.reference(&sheet.rows[1]), "Mod Branch");
    // An empty cell is no error.
    let sparse = r#"{"table":{"rows":[{"c":[{"v":"Key"},{"v":"English"}]},{"c":[{"v":"K"},null]}]}}"#;
    let sheet = parse(sparse, "JALib").unwrap();
    assert_eq!(sheet.rows[0].key, "K");
    assert_eq!(sheet.reference(&sheet.rows[0]), "");
}

#[test]
fn cells_as_text() {
    let text = |s: &str| cell_text(&parse_json(s).unwrap());
    assert_eq!(text("null"), "");
    assert_eq!(text("{}"), "");
    assert_eq!(text("[]"), "");
    assert_eq!(text(r#"{"v":null}"#), "");
    assert_eq!(text(r#"{"v":"x\ny"}"#), "x\ny");
    assert_eq!(text(r#"{"v":3.0}"#), "3.0");
    assert_eq!(text(r#"{"v":12}"#), "12");
    assert_eq!(text(r#"{"v":false}"#), "false");
    assert_eq!(text(r#"{"v":[1,"a"]}"#), r#"[1,"a"]"#);
    let row = parse_json(r#"{"c":[{"v":"a"},null]}"#).unwrap();
    assert_eq!(cell_texts(&row), vec!["a", ""]);
    assert_eq!(cell_texts(&parse_json(r#"{"c":3}"#).unwrap()), Vec::<String>::new());
}

#[test]
fn rows_and_columns_without_a_name_are_left_out() {
    let s = |x: &[&str]| x.iter().map(|t| t.to_string()).collect::<Vec<_>>();
    let grid = vec![
        s(&["Key", "Korean", " ", "English", "Korean"]),
        s(&["a", "1", "2", "3", "4"]),
        s(&["  ", "x"]),
        s(&[]),
        s(&["b", "5"]),
    ];
    let sheet = sheet_from(&grid, "M");
    assert_eq!(sheet.mod_id, "M");
    assert_eq!(sheet.languages, vec!["Korean", "English", "Korean"]);
    assert_eq!(sheet.rows.len(), 2);
    let values: Vec<(&str, &str)> =
        sheet.rows[0].values.iter().map(|(k, v)| (k.as_str(), v.as_str())).collect();
    assert_eq!(values, vec![("Korean", "4"), ("English", "3")]);
    assert_eq!(sheet.reference(&sheet.rows[0]), "3");
    assert_eq!(sheet.rows[1].key, "b");
    assert_eq!(sheet.rows[1].values["Korean"], "");
    assert_eq!(sheet.reference(&sheet.rows[1]), "");
}

#[test]
fn reference_falls_back_to_any_language() {
    let body = r#"{"table":{"rows":[
        {"c":[{"v":"Key"},{"v":"English"},{"v":"Japanese"},{"v":"Korean"}]},
        {"c":[{"v":"K"},{"v":""},{"v":"j"},{"v":"k"}]}]}}"#;
    let sheet = parse(body, "JALib").unwrap();
    assert_eq!(sheet.reference(&sheet.rows[0]), "j");
}

#[test]
fn unreadable_replies() {
    assert!(matches!(parse("no braces", "M"), Err(SheetError::NoStart)));
    assert!(matches!(parse("}", "M"), Err(SheetError::NoStart)));
    assert!(matches!(parse("{", "M"), Err(SheetError::NoEnd)));
    assert!(matches!(parse("({x})", "M"), Err(SheetError::Json(_))));
    assert!(matches!(parse("}{", "M"), Err(SheetError::Json(_))));
    assert!(matches!(parse("{}", "M"), Err(SheetError::NoRows)));
    assert!(matches!(parse(r#"{"table":{"rows":{}}}"#, "M"), Err(SheetError::NoRows)));
    assert!(matches!(parse(r#"{"table":{"rows":[]}}"#, "M"), Err(SheetError::Empty)));
    assert_eq!(parse("{}", "M").unwrap_err().message(), "响应里没有 table.rows");
    assert_eq!(SheetError::Json(String::new()).message(), "解析 gviz JSON 失败");
    assert!(!has_ordered_braces("} {"));
    assert!(has_ordered_braces("}{"));
    assert!(has_ordered_braces("{ }"));
    assert!(has_ordered_braces("} }"));
}

#[test]
fn header_alone_is_an_empty_sheet() {
    let json = parse_json(r#"{"table":{"rows":[{"c":[{"v":"Key"}]}]}}"#).unwrap();
    let sheet = sheet_of(&json, "M").unwrap();
    assert!(sheet.languages.is_empty() && sheet.rows.is_empty());
    let json = parse_json(r#"{"table":{"rows":[{}]}}"#).unwrap();
    assert_eq!(grid_of(&json).unwrap(), vec![Vec::<String>::new()]);
    assert!(sheet_of(&json, "M").unwrap().languages.is_empty());
}

#[test]
fn only_sheets_can_be_fetched() {
    assert_eq!(available(), "JALib, JipperResourcePack");
    assert!(fetch("JALib").unwrap().ends_with("&gid=1716850936"));
    let e = fetch("BetterCalibration").unwrap_err();
    assert!(matches!(e, FetchError::LocalOnly));
    assert_eq!(
        e.message("BetterCalibration"),
        "BetterCalibration 没有云端表格（上游未配置 Gid），只能本地编辑后用 push 上传"
    );
    let e = fetch("x").unwrap_err();
    assert!(matches!(e, FetchError::Unknown));
    assert_eq!(e.message("x"), "未知模组：x（可用：JALib, JipperResourcePack）");
}

#[test]
fn copies_are_equal() {
    let body = r#"{"table":{"rows":[
        {"c":[{"v":"Key"},{"v":"Korean"},{"v":"English"}]},
        {"c":[{"v":"K"},{"v":"k"},{"v":"e"}]}]}}"#;
    let sheet = parse(body, "JALib").unwrap();
    let copy = sheet.clone();
    assert_eq!(copy.mod_id, sheet.mod_id);
    assert_eq!(copy.languages, sheet.languages);
    assert_eq!(copy.rows.len(), 1);
    assert_eq!(copy.rows[0].key, "K");
    let values: Vec<(&str, &str)> =
        copy.rows[0].values.iter().map(|(k, v)| (k.as_str(), v.as_str())).collect();
    assert_eq!(values, vec![("Korean", "k"), ("English", "e")]);
}

#[test]
fn what_wraps_the_document_does_not_matter() {
    let document = r#"{"table":{"rows":[{"c":[{"v":"Key"},{"v":"English"}]},{"c":[{"v":"K"},{"v":"t"}]}]}}"#;
    let bare = parse(document, "JALib").unwrap();
    let wrapped = parse(&format!("}} x({document}); {{ {{"), "JALib").unwrap();
    assert_eq!(wrapped.languages, bare.languages);
    assert_eq!(wrapped.rows[0].key, bare.rows[0].key);
    assert_eq!(wrapped.rows[0].values, bare.rows[0].values);
}

#[test]
fn rows_share_their_languages() {
    let s = |x: &[&str]| x.iter().map(|t| t.to_string()).collect::<Vec<_>>();
    let grid = vec![
        s(&["Key", "B", "A", "", "B", "C"]),
        s(&["k", "1"]),
        s(&["l", "1", "2", "3", "4", "5"]),
    ];
    let sheet = sheet_from(&grid, "M");
    for row in &sheet.rows {
        assert_eq!(row.values.keys().collect::<Vec<_>>(), vec!["B", "A", "C"]);
    }
}
