//! Reading and writing files of the repository through GitHub's contents interface.

use vstd::prelude::*;
use vstd::utf8::{decode_utf8, encode_utf8, is_char_boundary, valid_utf8};

use crate::codec::{
    base64_bytes, base64_decode, base64_encode, base64_letters, base64_text, text_from_utf8,
    utf8_error,
};
use crate::config;
use crate::config::{
    effective_token, github_token, raw_address, value_or, State, DEFAULT_BRANCH, DEFAULT_REPO,
};
use crate::http::{
    api_headers, document_in, get_json, get_request, get_request_view, get_text, http_message,
    json_request, opt_str, put_request, put_request_view, text_in, HttpError, HttpFault, Reply,
    ReplyView, Request, RequestView,
};
use crate::json::{
    compact_text, field, json_document, json_text, members, parse_json, reads_as, subfield, text_of,
    Json, JsonTree,
};
use crate::edit::pair_views;
use crate::text::{opt_view, visible, whitespace, without_whitespace};

verus! {

broadcast use {vstd::seq::group_seq_axioms, vstd::map::group_map_axioms};

/// The status of a reply that says that there is no such file.
pub const NOT_FOUND: i32 = 404;

/// A file of the repository, with the fingerprint that an update has to name.
#[derive(Debug)]
pub struct RemoteFile {
    pub text: String,
    pub sha: Option<String>,
}

/// A file of the repository as a mathematical value.
pub struct RemoteView {
    pub text: Seq<char>,
    pub sha: Option<Seq<char>>,
}

impl View for RemoteFile {
    type V = RemoteView;

    open spec fn view(&self) -> RemoteView {
        RemoteView { text: self.text@, sha: opt_view(self.sha) }
    }
}

/// Why a file could not be read.
#[derive(Debug)]
pub enum ReadError {
    /// The request brought nothing.
    Http(HttpError),
    /// The reply has no content.
    NoContent,
    /// The content is no base64.
    Base64(String),
    /// The content is no text.
    NotText(String),
}

/// Why a file could not be read, as a mathematical value.
pub enum ReadFault {
    Http(HttpFault),
    NoContent,
    Base64(Seq<char>),
    NotText(Seq<char>),
}

impl View for ReadError {
    type V = ReadFault;

    open spec fn view(&self) -> ReadFault {
        match self {
            ReadError::Http(e) => ReadFault::Http(e@),
            ReadError::NoContent => ReadFault::NoContent,
            ReadError::Base64(e) => ReadFault::Base64(e@),
            ReadError::NotText(e) => ReadFault::NotText(e@),
        }
    }
}

/// The address at which the contents of `path` are read.
pub open spec fn contents_address(repo: Seq<char>, branch: Seq<char>, path: Seq<char>) -> Seq<
    char,
> {
    "https://api.github.com/repos/"@ + repo + "/contents/"@ + path + "?ref="@ + branch
}

/// The address at which the contents of `path` are read.
pub fn contents_url(repo: &str, branch: &str, path: &str) -> (r: String)
    ensures
        r@ == contents_address(repo@, branch@, path@),
{
    "https://api.github.com/repos/".to_owned().concat(repo).concat("/contents/").concat(
        path,
    ).concat("?ref=").concat(branch)
}

/// The address at which `path` is read with the settings `state`.
pub open spec fn read_address(state: config::StateView, path: Seq<char>) -> Seq<char> {
    contents_address(
        value_or(state.repo, DEFAULT_REPO@),
        value_or(state.branch, DEFAULT_BRANCH@),
        path,
    )
}

/// The request that reads `path`; `variable` is the token of the environment, and `version` that
/// of the editor.
pub fn read_request(state: &State, variable: Option<&str>, path: &str, version: &str) -> (r:
    Request)
    ensures
        r@ == get_request_view(
            read_address(state@, path@),
            state@.proxy,
            api_headers(effective_token(opt_str(variable), state@.token)),
            version@,
        ),
{
    let url = contents_url(state.repo().as_str(), state.branch().as_str(), path);
    let token = github_token(variable, state);
    let proxy = match &state.proxy {
        Some(p) => Some(p.as_str()),
        None => None,
    };
    let bearer = match &token {
        Some(t) => Some(t.as_str()),
        None => None,
    };
    json_request(url.as_str(), proxy, bearer, version)
}

/// The file in a document of the contents interface: its `content`, which is base64 with white
/// space in between, and its `sha`.
pub open spec fn file_in(document: JsonTree) -> Result<RemoteView, ReadFault> {
    match text_of(field(document, "content"@)) {
        None => Err(ReadFault::NoContent),
        Some(content) => match base64_bytes(visible(content)) {
            Err(e) => Err(ReadFault::Base64(e)),
            Ok(bytes) => if valid_utf8(bytes) {
                Ok(RemoteView { text: decode_utf8(bytes), sha: text_of(field(document, "sha"@)) })
            } else {
                Err(ReadFault::NotText(utf8_error(bytes)))
            },
        },
    }
}

/// The file in a document of the contents interface.
pub fn remote_file(document: &Json) -> (r: Result<RemoteFile, ReadError>)
    ensures
        match r {
            Ok(file) => file_in(document.tree()) == Ok::<RemoteView, ReadFault>(file@),
            Err(e) => file_in(document.tree()) == Err::<RemoteView, ReadFault>(e@),
        },
{
    let content = match document.get_text("content") {
        Some(content) => content,
        None => {
            return Err(ReadError::NoContent);
        },
    };
    let cleaned = without_whitespace(content.as_str());
    let bytes = match base64_decode(cleaned.as_str()) {
        Ok(bytes) => bytes,
        Err(e) => {
            return Err(ReadError::Base64(e));
        },
    };
    match text_from_utf8(bytes) {
        Ok(text) => {
            let sha = match document.get_text("sha") {
                Some(sha) => Some(sha.clone()),
                None => None,
            };
            Ok(RemoteFile { text, sha })
        },
        Err(e) => Err(ReadError::NotText(e)),
    }
}

/// What the reply to a read brings: a file; none, where its status says that there is no such file;
/// or the error.
pub open spec fn read_in(reply: ReplyView) -> Result<Option<RemoteView>, ReadFault> {
    match document_in(reply) {
        Ok(document) => match file_in(document) {
            Ok(file) => Ok(Some(file)),
            Err(e) => Err(e),
        },
        Err(HttpFault::Status(status, snippet)) => if status == NOT_FOUND {
            Ok(None)
        } else {
            Err(ReadFault::Http(HttpFault::Status(status, snippet)))
        },
        Err(e) => Err(ReadFault::Http(e)),
    }
}

/// Whether a reply says that there is no such file.
pub open spec fn says_missing(reply: ReplyView) -> bool {
    reply matches ReplyView::Text(status, _) && status == NOT_FOUND
}

/// A result as a mathematical value.
pub open spec fn read_result(r: Result<Option<RemoteFile>, ReadError>) -> Result<
    Option<RemoteView>,
    ReadFault,
> {
    match r {
        Ok(Some(file)) => Ok(Some(file@)),
        Ok(None) => Ok(None),
        Err(e) => Err(e@),
    }
}

/// What the reply to [`read_request`] brings. A file that does not exist yet is no error, and
/// nothing else is taken for one: there is no file if and only if the status says so.
pub fn read_file(reply: Reply) -> (r: Result<Option<RemoteFile>, ReadError>)
    ensures
        read_result(r) == read_in(reply@),
        (r matches Ok(None)) <==> says_missing(reply@),
{
    match get_json(reply) {
        Ok(document) => match remote_file(&document) {
            Ok(file) => Ok(Some(file)),
            Err(e) => Err(e),
        },
        Err(HttpError::Status { status, snippet }) => if status == NOT_FOUND {
            Ok(None)
        } else {
            Err(ReadError::Http(HttpError::Status { status, snippet }))
        },
        Err(e) => Err(ReadError::Http(e)),
    }
}

/// The document that a write sends: the message of the commit, the base64 content, the branch, and
/// the fingerprint of the file that it replaces, where there is one.
pub open spec fn upload_tree(
    message: Seq<char>,
    content: Seq<char>,
    branch: Seq<char>,
    sha: Option<Seq<char>>,
) -> JsonTree {
    let fields = Map::<Seq<char>, JsonTree>::empty().insert(
        "message"@,
        JsonTree::Text(message),
    ).insert("content"@, JsonTree::Text(content)).insert("branch"@, JsonTree::Text(branch));
    JsonTree::Object(
        match sha {
            Some(s) => fields.insert("sha"@, JsonTree::Text(s)),
            None => fields,
        },
    )
}

/// Whether reading gives back `text` from every document whose content is `content`, however it is
/// broken into lines.
pub open spec fn reads_back(content: Seq<char>, text: Seq<char>) -> bool {
    forall|document: JsonTree, stored: Seq<char>|
        #![trigger field(document, "content"@), visible(stored)]
        field(document, "content"@) == Some(JsonTree::Text(stored)) && visible(stored) == content
            ==> file_in(document) == Ok::<RemoteView, ReadFault>(
            RemoteView { text, sha: text_of(field(document, "sha"@)) },
        )
}

/// The content that stands for `text` in the contents interface.
pub fn encoded(text: &str) -> (r: String)
    requires
        encode_utf8(text@).len() <= usize::MAX / 4,
    ensures
        r@ == base64_text(encode_utf8(text@)),
        visible(r@) == r@,
        reads_back(r@, text@),
{
    broadcast use {
        vstd::utf8::encode_utf8_valid_utf8,
        vstd::utf8::encode_utf8_decode_utf8,
    };

    let r = base64_encode(text.as_bytes());
    proof {
        lemma_visible(r@);
    }
    r
}

proof fn lemma_visible(s: Seq<char>)
    requires
        base64_letters(s),
    ensures
        visible(s) == s,
    decreases s.len(),
{
    if s.len() > 0 {
        assert(base64_letters(s.drop_last()));
        lemma_visible(s.drop_last());
        let c = s[s.len() - 1];
        assert(!whitespace(c));
        assert(s.drop_last().push(s.last()) =~= s);
    }
}

/// Adds the text `value` under `name` to the members of an object.
fn add_text(fields: &mut Vec<(String, Json)>, name: &str, value: &str)
    ensures
        members(final(fields)@) == members(old(fields)@).insert(name@, JsonTree::Text(value@)),
{
    let ghost before = fields@;
    fields.push((name.to_owned(), Json::Text(value.to_owned())));
    assert(fields@.drop_last() =~= before);
    assert(fields@.last().1.tree() == JsonTree::Text(value@));
}

/// The text that a write sends.
pub fn upload_body(message: &str, text: &str, branch: &str, sha: Option<&str>) -> (r: String)
    requires
        encode_utf8(text@).len() <= usize::MAX / 4,
    ensures
        reads_as(
            r@,
            upload_tree(message@, base64_text(encode_utf8(text@)), branch@, opt_str(sha)),
        ),
        r@ == compact_text(
            upload_tree(message@, base64_text(encode_utf8(text@)), branch@, opt_str(sha)),
        ),
        reads_back(base64_text(encode_utf8(text@)), text@),
{
    let content = encoded(text);
    let ghost tree = upload_tree(message@, content@, branch@, opt_str(sha));
    let mut fields: Vec<(String, Json)> = Vec::new();
    add_text(&mut fields, "message", message);
    add_text(&mut fields, "content", content.as_str());
    add_text(&mut fields, "branch", branch);
    if let Some(s) = sha {
        add_text(&mut fields, "sha", s);
    }
    let document = Json::Object(fields);
    assert(document.tree() == tree);
    json_text(&document)
}

/// The words for a missing token when it is to be checked.
pub const NO_TOKEN: &'static str = "没有可用的令牌（配置或 GITHUB_TOKEN 均为空）";

/// The words for a missing token when a file is to be written.
pub const NO_UPLOAD_TOKEN: &'static str =
    "没有配置 GitHub 令牌：请先执行 `i18n-editor auth <token>`，或设置环境变量 GITHUB_TOKEN";

/// Why a write is not even started.
#[derive(Debug)]
pub enum WriteError {
    /// There is no token.
    NoToken,
}

impl WriteError {
    /// Why a write is not started, in words.
    pub fn message(&self) -> (r: String)
        ensures
            r@ == NO_UPLOAD_TOKEN@,
    {
        NO_UPLOAD_TOKEN.to_owned()
    }
}

/// The start of a write.
pub struct WriteStart {
    /// The token to write with.
    pub token: String,
    /// The request that asks for the file that is to be replaced.
    pub read: Request,
}

/// Starts a write of `path`, which needs a token: the file as it is has to be read first.
pub fn start_write(state: &State, variable: Option<&str>, path: &str, version: &str) -> (r: Result<
    WriteStart,
    WriteError,
>)
    ensures
        match effective_token(opt_str(variable), state@.token) {
            Some(token) => r matches Ok(start) && start.token@ == token && start.read@
                == get_request_view(
                read_address(state@, path@),
                state@.proxy,
                api_headers(Some(token)),
                version@,
            ),
            None => r matches Err(WriteError::NoToken),
        },
{
    match github_token(variable, state) {
        Some(token) => Ok(WriteStart { token, read: read_request(state, variable, path, version) }),
        None => Err(WriteError::NoToken),
    }
}

/// The address to which `path` is written.
pub open spec fn write_address(repo: Seq<char>, path: Seq<char>) -> Seq<char> {
    "https://api.github.com/repos/"@ + repo + "/contents/"@ + path
}

/// The fingerprint of a file, where there is one.
pub open spec fn sha_of(file: Option<RemoteView>) -> Option<Seq<char>> {
    match file {
        Some(f) => f.sha,
        None => None,
    }
}

/// A file that may be missing, as a mathematical value.
pub open spec fn file_view(file: Option<RemoteFile>) -> Option<RemoteView> {
    match file {
        Some(f) => Some(f@),
        None => None,
    }
}

/// The document that a write of `text` over `current` sends.
pub open spec fn write_document(
    state: config::StateView,
    text: Seq<char>,
    message: Seq<char>,
    current: Option<RemoteView>,
) -> JsonTree {
    upload_tree(
        message,
        base64_text(encode_utf8(text)),
        value_or(state.branch, DEFAULT_BRANCH@),
        sha_of(current),
    )
}

/// The request that writes `text` to `path`, as a mathematical value.
pub open spec fn write_request_view(
    state: config::StateView,
    token: Seq<char>,
    path: Seq<char>,
    text: Seq<char>,
    message: Seq<char>,
    current: Option<RemoteView>,
) -> RequestView {
    put_request_view(
        write_address(value_or(state.repo, DEFAULT_REPO@), path),
        state.proxy,
        token,
        compact_text(write_document(state, text, message, current)),
    )
}

/// The request that writes `text` to `path`: it updates the file `current`, or makes a new one
/// where there is none.
pub fn write_file(
    state: &State,
    token: &str,
    path: &str,
    text: &str,
    message: &str,
    current: &Option<RemoteFile>,
) -> (r: Request)
    requires
        encode_utf8(text@).len() <= usize::MAX / 4,
    ensures
        r@ == write_request_view(
            state@,
            token@,
            path@,
            text@,
            message@,
            file_view(*current),
        ),
        reads_as(
            compact_text(write_document(state@, text@, message@, file_view(*current))),
            write_document(state@, text@, message@, file_view(*current)),
        ),
        reads_back(base64_text(encode_utf8(text@)), text@),
{
    let sha = match current {
        Some(file) => match &file.sha {
            Some(s) => Some(s.as_str()),
            None => None,
        },
        None => None,
    };
    let body = upload_body(message, text, state.branch().as_str(), sha);
    let url = "https://api.github.com/repos/".to_owned().concat(state.repo().as_str()).concat(
        "/contents/",
    ).concat(path);
    let proxy = match &state.proxy {
        Some(p) => Some(p.as_str()),
        None => None,
    };
    put_request(url.as_str(), proxy, token, body.as_str())
}

/// Goes on with a write once the file as it is was asked for: `reply` is the reply to the read of
/// [`start_write`]. Where that brings an error, nothing is written.
pub fn continue_write(
    state: &State,
    token: &str,
    path: &str,
    text: &str,
    message: &str,
    reply: Reply,
) -> (r: Result<Request, ReadError>)
    requires
        encode_utf8(text@).len() <= usize::MAX / 4,
    ensures
        match read_in(reply@) {
            Ok(current) => r matches Ok(request) && request@ == write_request_view(
                state@,
                token@,
                path@,
                text@,
                message@,
                current,
            ) && reads_as(
                compact_text(write_document(state@, text@, message@, current)),
                write_document(state@, text@, message@, current),
            ),
            Err(fault) => r matches Err(e) && e@ == fault,
        },
{
    match read_file(reply) {
        Ok(current) => Ok(write_file(state, token, path, text, message, &current)),
        Err(e) => Err(e),
    }
}

/// The fingerprint of the commit in the text of a reply.
pub open spec fn commit_in(text: Seq<char>) -> Option<Seq<char>> {
    match json_document(text) {
        Ok(document) => text_of(subfield(field(document, "commit"@), "sha"@)),
        Err(_) => None,
    }
}

/// Whether `label` is made of the first seven bytes of `sha`, or of all where there are fewer.
pub open spec fn shortened(sha: Seq<char>, label: Seq<char>) -> bool {
    if encode_utf8(sha).len() <= 7 {
        label == sha
    } else {
        encode_utf8(label) == encode_utf8(sha).subrange(0, 7)
    }
}

/// The first seven bytes of `sha`, or all where there are fewer; none where they end inside a
/// character.
pub fn short_sha(sha: &str) -> (r: Option<String>)
    ensures
        match r {
            Some(label) => shortened(sha@, label@),
            None => encode_utf8(sha@).len() > 7 && !is_char_boundary(encode_utf8(sha@), 7),
        },
{
    if sha.as_bytes().len() <= 7 {
        Some(sha.to_owned())
    } else if sha.is_char_boundary(7) {
        let parts = sha.split_at(7);
        Some(parts.0.to_owned())
    } else {
        None
    }
}

/// The short name of the commit in the text of the reply to a write; a question mark where the
/// reply names none, and none where a fingerprint cannot be cut after seven bytes.
pub fn commit_label(text: &str) -> (r: Option<String>)
    ensures
        match commit_in(text@) {
            Some(sha) => match r {
                Some(label) => shortened(sha, label@),
                None => encode_utf8(sha).len() > 7 && !is_char_boundary(encode_utf8(sha), 7),
            },
            None => r matches Some(label) && label@ == "?"@,
        },
{
    let document = match parse_json(text) {
        Ok(document) => document,
        Err(_) => {
            return Some("?".to_owned());
        },
    };
    match document.get("commit") {
        Some(commit) => match commit.get_text("sha") {
            Some(sha) => short_sha(sha.as_str()),
            None => Some("?".to_owned()),
        },
        None => Some("?".to_owned()),
    }
}

/// Why a token could not be checked.
#[derive(Debug)]
pub enum LoginError {
    /// There is no token.
    NoToken,
    /// The request brought nothing.
    Http(HttpError),
    /// The reply is no JSON document.
    Json(String),
    /// The reply names no user.
    NoLogin,
}

/// Why a token could not be checked, as a mathematical value.
pub enum LoginFault {
    NoToken,
    Http(HttpFault),
    Json(Seq<char>),
    NoLogin,
}

impl View for LoginError {
    type V = LoginFault;

    open spec fn view(&self) -> LoginFault {
        match self {
            LoginError::NoToken => LoginFault::NoToken,
            LoginError::Http(e) => LoginFault::Http(e@),
            LoginError::Json(e) => LoginFault::Json(e@),
            LoginError::NoLogin => LoginFault::NoLogin,
        }
    }
}

/// The headers of the request that asks for the user of a token.
pub open spec fn user_headers(token: Seq<char>) -> Seq<(Seq<char>, Seq<char>)> {
    seq![("Authorization"@, "token "@ + token), ("Accept"@, "application/vnd.github+json"@)]
}

/// The request that asks for the user of the token.
pub fn user_request(state: &State, variable: Option<&str>, version: &str) -> (r: Result<
    Request,
    LoginError,
>)
    ensures
        match effective_token(opt_str(variable), state@.token) {
            Some(token) => r matches Ok(request) && request@ == get_request_view(
                "https://api.github.com/user"@,
                state@.proxy,
                user_headers(token),
                version@,
            ),
            None => r matches Err(LoginError::NoToken),
        },
{
    let token = match github_token(variable, state) {
        Some(token) => token,
        None => {
            return Err(LoginError::NoToken);
        },
    };
    let mut headers: Vec<(String, String)> = Vec::new();
    headers.push(("Authorization".to_owned(), "token ".to_owned().concat(token.as_str())));
    headers.push(("Accept".to_owned(), "application/vnd.github+json".to_owned()));
    assert(pair_views(headers@) =~= user_headers(token@));
    let proxy = match &state.proxy {
        Some(p) => Some(p.as_str()),
        None => None,
    };
    Ok(get_request("https://api.github.com/user", proxy, &headers, version))
}

/// The user that a reply names.
pub open spec fn login_in(reply: ReplyView) -> Result<Seq<char>, LoginFault> {
    match text_in(reply) {
        Err(e) => Err(LoginFault::Http(e)),
        Ok(text) => match json_document(text) {
            Err(e) => Err(LoginFault::Json(e)),
            Ok(document) => match text_of(field(document, "login"@)) {
                Some(login) => Ok(login),
                None => Err(LoginFault::NoLogin),
            },
        },
    }
}

/// The user that the reply to [`user_request`] names.
pub fn verify_token(reply: Reply) -> (r: Result<String, LoginError>)
    ensures
        match r {
            Ok(login) => login_in(reply@) == Ok::<Seq<char>, LoginFault>(login@),
            Err(e) => login_in(reply@) == Err::<Seq<char>, LoginFault>(e@),
        },
{
    let text = match get_text(reply) {
        Ok(text) => text,
        Err(e) => {
            return Err(LoginError::Http(e));
        },
    };
    let document = match parse_json(text.as_str()) {
        Ok(document) => document,
        Err(e) => {
            return Err(LoginError::Json(e));
        },
    };
    match document.get_text("login") {
        Some(login) => Ok(login.clone()),
        None => Err(LoginError::NoLogin),
    }
}

/// The raw address of the table of `mod_id`.
pub fn raw_url(state: &State, mod_id: &str) -> (r: String)
    ensures
        r@ == raw_address(
            value_or(state@.repo, DEFAULT_REPO@),
            value_or(state@.branch, DEFAULT_BRANCH@),
            mod_id@,
        ),
{
    config::raw_url(state.repo().as_str(), state.branch().as_str(), mod_id)
}

impl ReadError {
    /// What went wrong with `url`, in words.
    pub open spec fn says(self, url: Seq<char>) -> Seq<char> {
        match self {
            ReadError::Http(e) => http_message(e@, url),
            ReadError::NoContent => "响应里没有 content 字段"@,
            ReadError::Base64(_) => "解码 base64 失败"@,
            ReadError::NotText(_) => "文件不是合法 UTF-8"@,
        }
    }

    /// What went wrong with `url`, in words.
    pub fn message(&self, url: &str) -> (r: String)
        ensures
            r@ == self.says(url@),
    {
        match self {
            ReadError::Http(e) => e.message(url),
            ReadError::NoContent => "响应里没有 content 字段".to_owned(),
            ReadError::Base64(_) => "解码 base64 失败".to_owned(),
            ReadError::NotText(_) => "文件不是合法 UTF-8".to_owned(),
        }
    }
}

impl LoginError {
    /// What went wrong, in words.
    pub open spec fn says(self) -> Seq<char> {
        match self {
            LoginError::NoToken => NO_TOKEN@,
            LoginError::Http(e) => http_message(e@, "https://api.github.com/user"@),
            LoginError::Json(e) => "解析用户信息失败："@ + e@,
            LoginError::NoLogin => "响应里没有 login"@,
        }
    }

    /// What went wrong, in words.
    pub fn message(&self) -> (r: String)
        ensures
            r@ == self.says(),
    {
        match self {
            LoginError::NoToken => NO_TOKEN.to_owned(),
            LoginError::Http(e) => e.message("https://api.github.com/user"),
            LoginError::Json(e) => "解析用户信息失败：".to_owned().concat(e.as_str()),
            LoginError::NoLogin => "响应里没有 login".to_owned(),
        }
    }
}

} // verus!
