//! Requests and replies: which headers and proxy a request goes out with, and what a reply means.
//! Sending is left to the caller.

use vstd::prelude::*;

use crate::edit::pair_views;
use crate::json::{json_document, parse_json, Json, JsonTree};
use crate::text::{signed_decimal, signed_text, trim, trimmed};

verus! {

broadcast use vstd::seq::group_seq_axioms;

/// How long a request may take, in seconds.
pub const TIMEOUT_SECS: u64 = 45;

/// How many characters of the text of a failed reply are shown.
pub const SNIPPET_CHARS: usize = 300;

/// The settings of a proxy, of the outside crate.
#[verifier::external_type_specification]
#[verifier::external_body]
pub struct ExProxy(minreq::Proxy);

/// What `minreq::Proxy::new` makes of an address: the settings, or the text of the error.
pub uninterp spec fn proxy_settings(url: Seq<char>) -> Result<minreq::Proxy, Seq<char>>;

/// `minreq::Proxy::new`: the settings that `url` stands for, or the text of the error.
#[verifier::external_body]
fn proxy_from_url(url: &str) -> (r: Result<minreq::Proxy, String>)
    ensures
        match r {
            Ok(proxy) => proxy_settings(url@) == Ok::<minreq::Proxy, Seq<char>>(proxy),
            Err(e) => proxy_settings(url@) == Err::<minreq::Proxy, Seq<char>>(e@),
        },
{
    minreq::Proxy::new(url).map_err(|e| e.to_string())
}

/// The way a request takes.
pub enum Route {
    /// Without a proxy.
    Direct,
    /// Through this proxy.
    Through(minreq::Proxy),
    /// Without a proxy, because the address of the proxy cannot be read.
    Unreadable { url: String, error: String },
}

/// The way a request takes, as a mathematical value.
pub enum RouteView {
    Direct,
    Through(minreq::Proxy),
    Unreadable(Seq<char>, Seq<char>),
}

impl View for Route {
    type V = RouteView;

    open spec fn view(&self) -> RouteView {
        match self {
            Route::Direct => RouteView::Direct,
            Route::Through(proxy) => RouteView::Through(*proxy),
            Route::Unreadable { url, error } => RouteView::Unreadable(url@, error@),
        }
    }
}

/// The way that a request takes when the proxy is set to `proxy`: a blank setting means none.
pub open spec fn route_for(proxy: Option<Seq<char>>) -> RouteView {
    match proxy {
        None => RouteView::Direct,
        Some(p) => if trimmed(p).len() == 0 {
            RouteView::Direct
        } else {
            match proxy_settings(trimmed(p)) {
                Ok(settings) => RouteView::Through(settings),
                Err(e) => RouteView::Unreadable(trimmed(p), e),
            }
        },
    }
}

/// The view of a text that may be missing.
pub open spec fn opt_str(s: Option<&str>) -> Option<Seq<char>> {
    match s {
        Some(t) => Some(t@),
        None => None,
    }
}

/// The way that a request takes when the proxy is set to `proxy`.
pub fn proxy_of(proxy: Option<&str>) -> (r: Route)
    ensures
        r@ == route_for(opt_str(proxy)),
{
    let url = match proxy {
        Some(p) => trim(p),
        None => {
            return Route::Direct;
        },
    };
    if url.is_empty() {
        return Route::Direct;
    }
    match proxy_from_url(url) {
        Ok(parsed) => Route::Through(parsed),
        Err(error) => Route::Unreadable { url: url.to_owned(), error },
    }
}

/// What is done with the address.
#[derive(Debug, Clone, Copy, PartialEq, Eq, Structural)]
pub enum Verb {
    Get,
    Put,
}

/// A request to send.
pub struct Request {
    pub verb: Verb,
    pub url: String,
    /// The headers, in the order in which they are set.
    pub headers: Vec<(String, String)>,
    pub timeout_secs: u64,
    pub body: Option<String>,
    pub route: Route,
}

/// A request as a mathematical value.
pub struct RequestView {
    pub verb: Verb,
    pub url: Seq<char>,
    pub headers: Seq<(Seq<char>, Seq<char>)>,
    pub timeout_secs: u64,
    pub body: Option<Seq<char>>,
    pub route: RouteView,
}

impl View for Request {
    type V = RequestView;

    open spec fn view(&self) -> RequestView {
        RequestView {
            verb: self.verb,
            url: self.url@,
            headers: pair_views(self.headers@),
            timeout_secs: self.timeout_secs,
            body: crate::text::opt_view(self.body),
            route: self.route@,
        }
    }
}

/// The request that reads `url`, as a mathematical value.
pub open spec fn get_request_view(
    url: Seq<char>,
    proxy: Option<Seq<char>>,
    headers: Seq<(Seq<char>, Seq<char>)>,
    version: Seq<char>,
) -> RequestView {
    RequestView {
        verb: Verb::Get,
        url,
        headers: seq![("User-Agent"@, "i18n-editor/"@ + version)] + headers,
        timeout_secs: TIMEOUT_SECS,
        body: None,
        route: route_for(proxy),
    }
}

/// The request that reads `url`; `version` is that of the editor.
pub fn get_request(
    url: &str,
    proxy: Option<&str>,
    headers: &Vec<(String, String)>,
    version: &str,
) -> (r: Request)
    ensures
        r@ == get_request_view(url@, opt_str(proxy), pair_views(headers@), version@),
{
    let mut all: Vec<(String, String)> = Vec::new();
    all.push(("User-Agent".to_owned(), "i18n-editor/".to_owned().concat(version)));
    let mut i: usize = 0;
    while i < headers.len()
        invariant
            i <= headers@.len(),
            all@.len() == i + 1,
            pair_views(all@)[0] == ("User-Agent"@, "i18n-editor/"@ + version@),
            forall|k: int|
                0 <= k < i ==> (#[trigger] pair_views(headers@)[k]) == pair_views(all@)[k + 1],
        decreases headers@.len() - i,
    {
        let ghost before = all@;
        all.push((headers[i].0.clone(), headers[i].1.clone()));
        assert(forall|k: int| 0 <= k < before.len() ==> pair_views(before)[k] == pair_views(all@)[k]);
        i = i + 1;
    }
    assert(pair_views(all@) =~= seq![("User-Agent"@, "i18n-editor/"@ + version@)] + pair_views(
        headers@,
    ));
    Request {
        verb: Verb::Get,
        url: url.to_owned(),
        headers: all,
        timeout_secs: TIMEOUT_SECS,
        body: None,
        route: proxy_of(proxy),
    }
}

/// The headers of a read through the programming interface.
pub open spec fn api_headers(token: Option<Seq<char>>) -> Seq<(Seq<char>, Seq<char>)> {
    match token {
        None => seq![("Accept"@, "application/vnd.github+json"@)],
        Some(t) => seq![
            ("Accept"@, "application/vnd.github+json"@),
            ("Authorization"@, "token "@ + t),
        ],
    }
}

/// The request that reads the JSON document at `url`, with `token` where there is one.
pub fn json_request(url: &str, proxy: Option<&str>, token: Option<&str>, version: &str) -> (r:
    Request)
    ensures
        r@ == get_request_view(url@, opt_str(proxy), api_headers(opt_str(token)), version@),
{
    let mut headers: Vec<(String, String)> = Vec::new();
    headers.push(("Accept".to_owned(), "application/vnd.github+json".to_owned()));
    if let Some(t) = token {
        headers.push(("Authorization".to_owned(), "token ".to_owned().concat(t)));
    }
    assert(pair_views(headers@) =~= api_headers(opt_str(token)));
    get_request(url, proxy, &headers, version)
}

/// The request that sends `body` to `url`, as a mathematical value.
pub open spec fn put_request_view(
    url: Seq<char>,
    proxy: Option<Seq<char>>,
    token: Seq<char>,
    body: Seq<char>,
) -> RequestView {
    RequestView {
        verb: Verb::Put,
        url,
        headers: seq![
            ("User-Agent"@, "i18n-editor"@),
            ("Authorization"@, "token "@ + token),
            ("Accept"@, "application/vnd.github+json"@),
            ("Content-Type"@, "application/json; charset=utf-8"@),
        ],
        timeout_secs: TIMEOUT_SECS,
        body: Some(body),
        route: route_for(proxy),
    }
}

/// The request that sends the JSON text `body` to `url`.
pub fn put_request(url: &str, proxy: Option<&str>, token: &str, body: &str) -> (r: Request)
    ensures
        r@ == put_request_view(url@, opt_str(proxy), token@, body@),
{
    let mut headers: Vec<(String, String)> = Vec::new();
    headers.push(("User-Agent".to_owned(), "i18n-editor".to_owned()));
    headers.push(("Authorization".to_owned(), "token ".to_owned().concat(token)));
    headers.push(("Accept".to_owned(), "application/vnd.github+json".to_owned()));
    headers.push(("Content-Type".to_owned(), "application/json; charset=utf-8".to_owned()));
    assert(pair_views(headers@) =~= put_request_view(
        url@,
        opt_str(proxy),
        token@,
        body@,
    ).headers);
    Request {
        verb: Verb::Put,
        url: url.to_owned(),
        headers,
        timeout_secs: TIMEOUT_SECS,
        body: Some(body.to_owned()),
        route: proxy_of(proxy),
    }
}

/// What came back of a request.
#[derive(Debug)]
pub enum Reply {
    /// No reply; this is the error.
    Failed(String),
    /// A reply that is no text; this is the error.
    NotText(String),
    /// A reply with its status and text.
    Text { status: i32, text: String },
}

/// Why a request brought nothing.
#[derive(Debug)]
pub enum HttpError {
    /// There was no reply.
    Failed(String),
    /// The reply is no text.
    NotText(String),
    /// The status of the reply says that it failed; with the start of its text.
    Status { status: i32, snippet: String },
    /// The text of the reply is no JSON document.
    Json(String),
}

/// What came back of a request, as a mathematical value.
pub enum ReplyView {
    Failed(Seq<char>),
    NotText(Seq<char>),
    Text(i32, Seq<char>),
}

/// Why a request brought nothing, as a mathematical value.
pub enum HttpFault {
    Failed(Seq<char>),
    NotText(Seq<char>),
    Status(i32, Seq<char>),
    Json(Seq<char>),
}

impl View for Reply {
    type V = ReplyView;

    open spec fn view(&self) -> ReplyView {
        match self {
            Reply::Failed(e) => ReplyView::Failed(e@),
            Reply::NotText(e) => ReplyView::NotText(e@),
            Reply::Text { status, text } => ReplyView::Text(*status, text@),
        }
    }
}

impl View for HttpError {
    type V = HttpFault;

    open spec fn view(&self) -> HttpFault {
        match self {
            HttpError::Failed(e) => HttpFault::Failed(e@),
            HttpError::NotText(e) => HttpFault::NotText(e@),
            HttpError::Status { status, snippet } => HttpFault::Status(*status, snippet@),
            HttpError::Json(e) => HttpFault::Json(e@),
        }
    }
}

/// The start of a text, white space at its ends aside.
pub open spec fn snippet_of(text: Seq<char>) -> Seq<char> {
    let t = trimmed(text);
    if t.len() <= SNIPPET_CHARS {
        t
    } else {
        t.take(SNIPPET_CHARS as int)
    }
}

/// The text that a reply brings: one with a status from 200 to 299 is good.
pub open spec fn text_in(reply: ReplyView) -> Result<Seq<char>, HttpFault> {
    match reply {
        ReplyView::Failed(e) => Err(HttpFault::Failed(e)),
        ReplyView::NotText(e) => Err(HttpFault::NotText(e)),
        ReplyView::Text(status, text) => if 200 <= status < 300 {
            Ok(text)
        } else {
            Err(HttpFault::Status(status, snippet_of(text)))
        },
    }
}

/// A result as a mathematical value.
pub open spec fn text_result(r: Result<String, HttpError>) -> Result<Seq<char>, HttpFault> {
    match r {
        Ok(text) => Ok(text@),
        Err(e) => Err(e@),
    }
}

/// The text that the reply to a read brings.
pub fn get_text(reply: Reply) -> (r: Result<String, HttpError>)
    ensures
        text_result(r) == text_in(reply@),
{
    match reply {
        Reply::Failed(e) => Err(HttpError::Failed(e)),
        Reply::NotText(e) => Err(HttpError::NotText(e)),
        Reply::Text { status, text } => {
            if 200 <= status && status < 300 {
                Ok(text)
            } else {
                let t = trim(text.as_str());
                let n = t.unicode_len();
                let snippet = if n <= SNIPPET_CHARS {
                    t.to_owned()
                } else {
                    t.substring_char(0, SNIPPET_CHARS).to_owned()
                };
                assert(snippet@ =~= snippet_of(text@));
                Err(HttpError::Status { status, snippet })
            }
        },
    }
}

/// The text that the reply to a write brings.
pub fn send_json(reply: Reply) -> (r: Result<String, HttpError>)
    ensures
        text_result(r) == text_in(reply@),
{
    get_text(reply)
}

/// The document that a reply brings.
pub open spec fn document_in(reply: ReplyView) -> Result<JsonTree, HttpFault> {
    match text_in(reply) {
        Err(e) => Err(e),
        Ok(text) => match json_document(text) {
            Err(e) => Err(HttpFault::Json(e)),
            Ok(document) => Ok(document),
        },
    }
}

/// The JSON document that the reply to a read brings.
pub fn get_json(reply: Reply) -> (r: Result<Json, HttpError>)
    ensures
        match r {
            Ok(json) => document_in(reply@) == Ok::<JsonTree, HttpFault>(json.tree()),
            Err(e) => document_in(reply@) == Err::<JsonTree, HttpFault>(e@),
        },
{
    match get_text(reply) {
        Ok(text) => match parse_json(text.as_str()) {
            Ok(json) => Ok(json),
            Err(e) => Err(HttpError::Json(e)),
        },
        Err(e) => Err(e),
    }
}

/// Whether the reply to a read shows that the address can be reached.
pub fn ping(reply: Reply) -> (r: Result<(), HttpError>)
    ensures
        match r {
            Ok(_) => text_in(reply@) is Ok,
            Err(e) => text_in(reply@) == Err::<Seq<char>, HttpFault>(e@),
        },
{
    match get_text(reply) {
        Ok(_) => Ok(()),
        Err(e) => Err(e),
    }
}

/// What went wrong with `url`, in words.
pub open spec fn http_message(fault: HttpFault, url: Seq<char>) -> Seq<char> {
    match fault {
        HttpFault::Failed(e) => e + "："@ + url,
        HttpFault::NotText(e) => "响应不是合法 UTF-8（"@ + url + "）："@ + e,
        HttpFault::Status(status, snippet) => "HTTP "@ + signed_decimal(status as int) + "："@ + url
            + "\n  "@ + snippet,
        HttpFault::Json(e) => "解析 JSON 失败（"@ + url + "）："@ + e,
    }
}

impl HttpError {
    /// What went wrong with `url`, in words.
    pub fn message(&self, url: &str) -> (r: String)
        ensures
            r@ == http_message(self@, url@),
    {
        match self {
            HttpError::Failed(e) => e.clone().concat("：").concat(url),
            HttpError::NotText(e) => "响应不是合法 UTF-8（".to_owned().concat(url).concat(
                "）：",
            ).concat(e.as_str()),
            HttpError::Status { status, snippet } => "HTTP ".to_owned().concat(
                signed_text(*status).as_str(),
            ).concat("：").concat(url).concat("\n  ").concat(snippet.as_str()),
            HttpError::Json(e) => "解析 JSON 失败（".to_owned().concat(url).concat("）：").concat(
                e.as_str(),
            ),
        }
    }
}

} // verus!
