use i18n_editor::http::{
    get_json, get_request, get_text, json_request, ping, proxy_of, put_request, send_json,
    HttpError, Reply, Route, Verb,
};

fn answer(status: i32, text: &str) -> Reply {
    Reply::Text { status, text: text.to_string() }
}

#[test]
fn proxies() {
    assert!(matches!(proxy_of(None), Route::Direct));
    assert!(matches!(proxy_of(Some("  ")), Route::Direct));
    match proxy_of(Some(" http://127.0.0.1:7897 ")) {
        Route::Through(p) => assert_eq!(p, minreq::Proxy::new("127.0.0.1:7897").unwrap()),
        _ => panic!(),
    }
    match proxy_of(Some(" https://x ")) {
        Route::Unreadable { url, error } => {
            assert_eq!(url, "https://x");
            assert!(!error.is_empty());
        }
        _ => panic!(),
    }
    assert!(matches!(proxy_of(Some("host:port")), Route::Unreadable { .. }));
}

#[test]
fn read_requests() {
    let r = get_request("u", None, &vec![("A".to_string(), "b".to_string())], "1.2");
    assert_eq!((r.verb, r.url.as_str(), r.timeout_secs), (Verb::Get, "u", 45));
    assert_eq!(
        r.headers,
        vec![("User-Agent".to_string(), "i18n-editor/1.2".to_string()), ("A".to_string(), "b".to_string())]
    );
    assert!(r.body.is_none());
    let r = json_request("u", Some("p:1"), None, "1");
    assert_eq!(r.headers.len(), 2);
    assert_eq!(r.headers[1], ("Accept".to_string(), "application/vnd.github+json".to_string()));
    assert!(matches!(r.route, Route::Through(_)));
    let r = json_request("u", None, Some("t"), "1");
    assert_eq!(r.headers[2], ("Authorization".to_string(), "token t".to_string()));
}

#[test]
fn write_requests() {
    let r = put_request("u", None, "t", "{}");
    assert_eq!(r.verb, Verb::Put);
    assert_eq!(r.body.as_deref(), Some("{}"));
    let headers: Vec<(&str, &str)> =
        r.headers.iter().map(|(k, v)| (k.as_str(), v.as_str())).collect();
    assert_eq!(
        headers,
        vec![
            ("User-Agent", "i18n-editor"),
            ("Authorization", "token t"),
            ("Accept", "application/vnd.github+json"),
            ("Content-Type", "application/json; charset=utf-8"),
        ]
    );
}

#[test]
fn good_replies() {
    assert_eq!(get_text(answer(200, "x")).unwrap(), "x");
    assert_eq!(send_json(answer(299, "")).unwrap(), "");
    assert!(ping(answer(204, "")).is_ok());
    assert!(get_json(answer(200, "[]")).unwrap().as_array().unwrap().is_empty());
}

#[test]
fn bad_replies() {
    let e = get_text(answer(404, " not found \n")).unwrap_err();
    assert_eq!(e.message("U"), "HTTP 404：U\n  not found");
    let e = get_text(answer(300, &"中".repeat(400))).unwrap_err();
    match &e {
        HttpError::Status { status, snippet } => {
            assert_eq!((*status, snippet.chars().count()), (300, 300));
        }
        _ => panic!(),
    }
    assert!(get_text(answer(199, "")).is_err());
    assert_eq!(ping(answer(-1, "")).unwrap_err().message("U"), "HTTP -1：U\n  ");
    assert_eq!(get_text(Reply::Failed("e".into())).unwrap_err().message("U"), "e：U");
    assert_eq!(
        send_json(Reply::NotText("e".into())).unwrap_err().message("U"),
        "响应不是合法 UTF-8（U）：e"
    );
    match get_json(answer(200, "{")) {
        Err(HttpError::Json(e)) => {
            assert_eq!(HttpError::Json(e.clone()).message("U"), format!("解析 JSON 失败（U）：{e}"));
        }
        _ => panic!(),
    }
}
