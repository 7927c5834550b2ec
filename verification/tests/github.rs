use i18n_editor::config::State;
use i18n_editor::github::{
    commit_label, contents_url, continue_write, encoded, raw_url, read_file, read_request, remote_file, short_sha,
    start_write, upload_body, user_request, verify_token, write_file, LoginError, ReadError, RemoteFile,
};
use i18n_editor::http::{HttpError, Reply, Verb};
use i18n_editor::json::{parse_json, Json};

fn answer(status: i32, text: &str) -> Reply {
    Reply::Text { status, text: text.to_string() }
}

fn document(content: &str, sha: Option<&str>) -> Json {
    let mut fields = vec![("content".to_string(), Json::Text(content.to_string()))];
    if let Some(s) = sha {
        fields.push(("sha".to_string(), Json::Text(s.to_string())));
    }
    Json::Object(fields)
}

#[test]
fn read_addresses() {
    assert_eq!(
        contents_url("o/r", "main", "data/x.json"),
        "https://api.github.com/repos/o/r/contents/data/x.json?ref=main"
    );
    let state = State { repo: None, branch: Some("b".into()), token: Some(" t ".into()), proxy: None };
    let r = read_request(&state, None, "p", "1");
    assert_eq!(r.url, "https://api.github.com/repos/FYWanye/JongyeolModsI18n/contents/p?ref=b");
    assert_eq!(r.headers[2].1, "token t");
    assert_eq!(read_request(&state, Some("e"), "p", "1").headers[2].1, "token e");
    assert_eq!(
        raw_url(&state, "JALib"),
        "https://raw.githubusercontent.com/FYWanye/JongyeolModsI18n/b/data/JALib.ChineseSimplified.json"
    );
}

#[test]
fn reads_a_file() {
    let file = remote_file(&document("5Lit\n5paH\n", Some("abc"))).unwrap();
    assert_eq!(file.text, "中文");
    assert_eq!(file.sha.as_deref(), Some("abc"));
    assert!(remote_file(&document("", None)).unwrap().sha.is_none());
}

#[test]
fn unreadable_files() {
    assert!(matches!(remote_file(&Json::Null), Err(ReadError::NoContent)));
    let number = parse_json(r#"{"content":1}"#).unwrap();
    assert!(matches!(remote_file(&number), Err(ReadError::NoContent)));
    assert!(matches!(remote_file(&document("5Li", None)), Err(ReadError::Base64(_))));
    let words = String::from_utf8(vec![0xff]).unwrap_err().to_string();
    assert!(matches!(remote_file(&document("/w==", None)), Err(ReadError::NotText(e)) if e == words));
    assert_eq!(ReadError::NoContent.message("u"), "响应里没有 content 字段");
    assert_eq!(ReadError::Base64(String::new()).message("u"), "解码 base64 失败");
    assert_eq!(ReadError::NotText(String::new()).message("u"), "文件不是合法 UTF-8");
    assert_eq!(ReadError::Http(HttpError::Failed("e".into())).message("u"), "e：u");
}

#[test]
fn a_missing_file_is_no_error() {
    assert!(read_file(answer(404, "{\"message\":\"Not Found\"}")).unwrap().is_none());
    assert!(read_file(answer(404, "")).unwrap().is_none());
    let file = read_file(answer(200, r#"{"content":"eA==","sha":"s"}"#)).unwrap().unwrap();
    assert_eq!(file.text, "x");
}

#[test]
fn only_the_status_says_that_a_file_is_missing() {
    assert!(read_file(answer(500, "HTTP 404")).is_err());
    assert!(read_file(answer(502, "upstream said HTTP 404")).is_err());
    assert!(read_file(answer(200, "HTTP 404")).is_err());
    assert!(read_file(answer(4040, "")).is_err());
    assert!(read_file(Reply::Failed("HTTP 404".into())).is_err());
    assert!(read_file(Reply::NotText("HTTP 404".into())).is_err());
    match read_file(answer(500, " x ")) {
        Err(ReadError::Http(HttpError::Status { status, snippet })) => {
            assert_eq!((status, snippet.as_str()), (500, "x"));
        }
        _ => panic!(),
    }
}

#[test]
fn an_upload_reads_back() {
    let text = "{\n  \"键\": \"值\"\n}\n";
    let content = encoded(text);
    assert_eq!(encoded("hello"), "aGVsbG8=");
    let mut broken = String::new();
    for (i, c) in content.chars().enumerate() {
        if i % 5 == 0 {
            broken.push('\n');
        }
        broken.push(c);
    }
    assert_eq!(remote_file(&document(&broken, None)).unwrap().text, text);
}

#[test]
fn upload_document() {
    let body = upload_body("m", "x", "main", Some("s"));
    assert_eq!(body, r#"{"branch":"main","content":"eA==","message":"m","sha":"s"}"#);
    let body = upload_body("m\"", "", "b", None);
    let back = parse_json(&body).unwrap();
    assert_eq!(back.get_text("message").unwrap(), "m\"");
    assert_eq!(back.get_text("content").unwrap(), "");
    assert!(back.get("sha").is_none());
}

#[test]
fn write_request_names_the_file_it_replaces() {
    let state = State::default();
    let current = Some(RemoteFile { text: "old".into(), sha: Some("f00".into()) });
    let r = write_file(&state, "t", "data/a.json", "new", "msg", &current);
    assert_eq!(r.verb, Verb::Put);
    assert_eq!(r.url, "https://api.github.com/repos/FYWanye/JongyeolModsI18n/contents/data/a.json");
    let body = parse_json(r.body.as_deref().unwrap()).unwrap();
    assert_eq!(body.get_text("sha").unwrap(), "f00");
    assert_eq!(body.get_text("branch").unwrap(), "main");
    assert_eq!(remote_file(&body).unwrap().text, "new");
    let r = write_file(&state, "t", "p", "new", "msg", &None);
    assert!(parse_json(r.body.as_deref().unwrap()).unwrap().get("sha").is_none());
}

#[test]
fn a_write_needs_a_token() {
    let mut state = State::default();
    let e = start_write(&state, None, "p", "1").err().unwrap();
    assert_eq!(
        e.message(),
        "没有配置 GitHub 令牌：请先执行 `i18n-editor auth <token>`，或设置环境变量 GITHUB_TOKEN"
    );
    state.token = Some("t".into());
    let start = start_write(&state, Some("e "), "p", "1").ok().unwrap();
    assert_eq!(start.token, "e");
    assert_eq!(start.read.headers[2].1, "token e");
    assert_eq!(start.read.url, "https://api.github.com/repos/FYWanye/JongyeolModsI18n/contents/p?ref=main");
}

#[test]
fn commit_labels() {
    assert_eq!(commit_label(r#"{"commit":{"sha":"0123456789"}}"#).as_deref(), Some("0123456"));
    assert_eq!(commit_label(r#"{"commit":{"sha":"01"}}"#).as_deref(), Some("01"));
    assert_eq!(commit_label(r#"{"commit":{}}"#).as_deref(), Some("?"));
    assert_eq!(commit_label("{}").as_deref(), Some("?"));
    assert_eq!(commit_label("oops").as_deref(), Some("?"));
    assert_eq!(commit_label(r#"{"commit":{"sha":"中文中"}}"#), None);
    assert_eq!(short_sha("a中文x").as_deref(), Some("a中文"));
    assert_eq!(short_sha("1234567").as_deref(), Some("1234567"));
}

#[test]
fn tokens_are_checked() {
    let mut state = State::default();
    let e = user_request(&state, Some(" "), "1").err().unwrap();
    assert_eq!(e.message(), "没有可用的令牌（配置或 GITHUB_TOKEN 均为空）");
    state.token = Some("t".into());
    let r = user_request(&state, None, "1").ok().unwrap();
    assert_eq!(r.url, "https://api.github.com/user");
    assert_eq!(r.headers[1], ("Authorization".to_string(), "token t".to_string()));
    assert_eq!(verify_token(answer(200, r#"{"login":"me"}"#)).unwrap(), "me");
    let e = verify_token(answer(401, "Bad credentials")).unwrap_err();
    assert_eq!(e.message(), "HTTP 401：https://api.github.com/user\n  Bad credentials");
    match verify_token(answer(200, "x")) {
        Err(LoginError::Json(e)) => {
            assert_eq!(LoginError::Json(e.clone()).message(), format!("解析用户信息失败：{e}"));
        }
        _ => panic!(),
    }
    assert_eq!(verify_token(answer(200, "{}")).unwrap_err().message(), "响应里没有 login");
}

#[test]
fn nothing_is_written_after_a_failed_read() {
    let state = State::default();
    let go_on = |reply| continue_write(&state, "t", "p", "new", "m", reply);
    assert!(go_on(answer(500, "x")).is_err());
    assert!(go_on(Reply::Failed("x".into())).is_err());
    assert!(go_on(answer(200, "{}")).is_err());
    let fresh = go_on(answer(404, "")).ok().unwrap();
    assert_eq!(fresh.verb, Verb::Put);
    assert!(parse_json(fresh.body.as_deref().unwrap()).unwrap().get("sha").is_none());
    let update = go_on(answer(200, r#"{"content":"eA==","sha":"s"}"#)).ok().unwrap();
    let body = parse_json(update.body.as_deref().unwrap()).unwrap();
    assert_eq!(body.get_text("sha").unwrap(), "s");
}
