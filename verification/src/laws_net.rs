//! Laws of requests, replies and the files of the repository.

use vstd::prelude::*;
use vstd::utf8::encode_utf8;

use crate::codec::{base64_bytes, base64_text};
use crate::config::{StateView, DEFAULT_BRANCH, DEFAULT_REPO};
use crate::github::{
    commit_in, contents_address, file_in, login_in, read_in, shortened, upload_tree, user_headers,
    write_address, write_document, write_request_view, LoginFault, ReadFault, RemoteView,
};
use crate::http::{
    api_headers, document_in, get_request_view, proxy_settings, put_request_view, route_for,
    text_in, HttpFault, ReplyView, RouteView, Verb,
};
use crate::json::{field, json_document, members, subfield, text_of, Json, JsonTree};
use crate::laws_sync::all_white;
use crate::laws_text::law_trim_is_unique;
use crate::text::{trimmed, visible, whitespace};

verus! {

broadcast use {vstd::seq::group_seq_axioms, vstd::map::group_map_axioms};

/// A reply is good exactly where its status is from 200 to 299, and then it brings its text as it
/// is; every other reply brings the error that it stands for.
pub proof fn law_text_in(status: i32, text: Seq<char>, words: Seq<char>)
    ensures
        200 <= status <= 299 ==> text_in(ReplyView::Text(status, text)) == Ok::<
            Seq<char>,
            HttpFault,
        >(text),
        status < 200 || status > 299 ==> (text_in(ReplyView::Text(status, text)) matches Err(
            HttpFault::Status(s, _),
        ) && s == status),
        text_in(ReplyView::Failed(words)) == Err::<Seq<char>, HttpFault>(HttpFault::Failed(words)),
        text_in(ReplyView::NotText(words)) == Err::<Seq<char>, HttpFault>(
            HttpFault::NotText(words),
        ),
{
}

/// What is shown of the text of a failed reply is its start, without the white space around the
/// text: all of it up to 300 characters.
pub proof fn law_snippet(status: i32, text: Seq<char>)
    requires
        status < 200 || status > 299,
    ensures
        text_in(ReplyView::Text(status, text)) matches Err(HttpFault::Status(_, shown))
            && shown.is_prefix_of(trimmed(text)) && shown.len() == if trimmed(text).len() <= 300 {
            trimmed(text).len()
        } else {
            300
        },
{
    assert(trimmed(text).take(trimmed(text).len() as int) =~= trimmed(text));
}

/// The document of a reply is that of its text, where the reply is good and the text is one.
pub proof fn law_document_in(status: i32, text: Seq<char>, document: JsonTree, words: Seq<char>)
    ensures
        200 <= status <= 299 && json_document(text) == Ok::<JsonTree, Seq<char>>(document)
            ==> document_in(ReplyView::Text(status, text)) == Ok::<JsonTree, HttpFault>(document),
        200 <= status <= 299 && json_document(text) == Err::<JsonTree, Seq<char>>(words)
            ==> document_in(ReplyView::Text(status, text)) == Err::<JsonTree, HttpFault>(
            HttpFault::Json(words),
        ),
        status < 200 || status > 299 ==> document_in(ReplyView::Text(status, text)) is Err,
{
}

/// A request goes through the proxy whose address is set, white space around it aside, and goes
/// directly exactly where none or a blank one is set.
pub proof fn law_route(before: Seq<char>, url: Seq<char>, after: Seq<char>, value: Seq<char>)
    ensures
        route_for(None) is Direct,
        route_for(Some(value)) is Direct <==> all_white(value),
        all_white(before) && all_white(after) && url.len() > 0 && !whitespace(url.first())
            && !whitespace(url.last()) ==> route_for(Some(before + url + after))
            == match proxy_settings(url) {
            Ok(proxy) => RouteView::Through(proxy),
            Err(e) => RouteView::Unreadable(url, e),
        },
{
    crate::laws::law_blank(value);
    if all_white(before) && all_white(after) && url.len() > 0 && !whitespace(url.first())
        && !whitespace(url.last()) {
        law_trim_is_unique(before, url, after);
    }
}

/// A read asks for its address and sends its headers after the name of the editor; a write sends
/// its body to its address under the token. Both take the route of the proxy and the same time.
pub proof fn law_requests(
    url: Seq<char>,
    proxy: Option<Seq<char>>,
    headers: Seq<(Seq<char>, Seq<char>)>,
    version: Seq<char>,
    token: Seq<char>,
    body: Seq<char>,
)
    ensures
        ({
            let read = get_request_view(url, proxy, headers, version);
            let write = put_request_view(url, proxy, token, body);
            let bearer = ("Authorization"@, "token "@ + token);
            &&& read.verb == Verb::Get && write.verb == Verb::Put
            &&& read.url == url && write.url == url
            &&& read.body is None && write.body == Some(body)
            &&& read.route == route_for(proxy) && write.route == route_for(proxy)
            &&& read.timeout_secs == 45 && write.timeout_secs == 45
            &&& read.headers.len() == headers.len() + 1
            &&& read.headers.skip(1) == headers
            &&& write.headers.contains(bearer)
        }),
{
    let read = get_request_view(url, proxy, headers, version);
    assert(read.headers.skip(1) =~= headers);
    let write = put_request_view(url, proxy, token, body);
    assert(write.headers[1] == ("Authorization"@, "token "@ + token));
}

/// A token is sent exactly where there is one, and as it is.
pub proof fn law_token_header(token: Seq<char>, i: int)
    ensures
        api_headers(Some(token)).contains(("Authorization"@, "token "@ + token)),
        user_headers(token).contains(("Authorization"@, "token "@ + token)),
        0 <= i < api_headers(None).len() ==> api_headers(None)[i].0 != "Authorization"@,
{
    reveal_strlit("Authorization");
    reveal_strlit("Accept");
    assert("Accept"@.len() != "Authorization"@.len());
    assert(api_headers(Some(token))[1] == ("Authorization"@, "token "@ + token));
    assert(user_headers(token)[0] == ("Authorization"@, "token "@ + token));
}

/// A file is written at the address at which it is read, which besides names the branch.
pub proof fn law_addresses(repo: Seq<char>, branch: Seq<char>, path: Seq<char>)
    ensures
        contents_address(repo, branch, path) == write_address(repo, path) + "?ref="@ + branch,
{
}

/// What a write sends names the message, the content, the branch, and the fingerprint of the file
/// it replaces exactly where there is one.
pub proof fn law_upload_document(
    message: Seq<char>,
    content: Seq<char>,
    branch: Seq<char>,
    sha: Option<Seq<char>>,
)
    ensures
        text_of(field(upload_tree(message, content, branch, sha), "message"@)) == Some(message),
        text_of(field(upload_tree(message, content, branch, sha), "content"@)) == Some(content),
        text_of(field(upload_tree(message, content, branch, sha), "branch"@)) == Some(branch),
        text_of(field(upload_tree(message, content, branch, sha), "sha"@)) == sha,
        sha is None ==> field(upload_tree(message, content, branch, sha), "sha"@) is None,
{
    reveal_strlit("message");
    reveal_strlit("content");
    reveal_strlit("branch");
    reveal_strlit("sha");
    assert("message"@[0] == 'm' && "content"@[0] == 'c');
    assert("branch"@.len() == 6 && "sha"@.len() == 3 && "message"@.len() == 7 && "content"@.len()
        == 7);
}

/// A write goes to the repository and the branch of the settings, carries the text, and names the
/// fingerprint of the file that it replaces.
pub proof fn law_write(
    state: StateView,
    token: Seq<char>,
    path: Seq<char>,
    text: Seq<char>,
    message: Seq<char>,
    current: Option<RemoteView>,
)
    ensures
        ({
            let document = write_document(state, text, message, current);
            let request = write_request_view(state, token, path, text, message, current);
            &&& text_of(field(document, "content"@)) == Some(base64_text(encode_utf8(text)))
            &&& text_of(field(document, "message"@)) == Some(message)
            &&& text_of(field(document, "branch"@)) == Some(
                match state.branch {
                    Some(branch) => branch,
                    None => DEFAULT_BRANCH@,
                },
            )
            &&& text_of(field(document, "sha"@)) == match current {
                Some(file) => file.sha,
                None => None,
            }
            &&& request.verb == Verb::Put
            &&& request.url == write_address(
                match state.repo {
                    Some(repo) => repo,
                    None => DEFAULT_REPO@,
                },
                path,
            )
            &&& request.headers.contains(("Authorization"@, "token "@ + token))
            &&& request.route == route_for(state.proxy)
        }),
{
    law_upload_document(
        message,
        base64_text(encode_utf8(text)),
        match state.branch {
            Some(branch) => branch,
            None => DEFAULT_BRANCH@,
        },
        match current {
            Some(file) => file.sha,
            None => None,
        },
    );
    let request = write_request_view(state, token, path, text, message, current);
    assert(request.headers[1] == ("Authorization"@, "token "@ + token));
}

/// The file in a document is read from the text under `content`, white space aside, and has the
/// fingerprint under `sha`; a document without such a text has none.
pub proof fn law_file(document: JsonTree)
    ensures
        file_in(document) == Err::<RemoteView, ReadFault>(ReadFault::NoContent) <==> text_of(
            field(document, "content"@),
        ) is None,
        text_of(field(document, "content"@)) matches Some(content) ==> (base64_bytes(
            visible(content),
        ) is Err ==> file_in(document) is Err),
        file_in(document) matches Ok(file) ==> file.sha == text_of(field(document, "sha"@)) && (
        text_of(field(document, "content"@)) matches Some(content) && base64_bytes(
            visible(content),
        ) is Ok),
{
}

/// A file is missing exactly where the status is 404; a good reply brings the file of its document;
/// everything else is an error.
pub proof fn law_read(status: i32, text: Seq<char>, words: Seq<char>)
    ensures
        read_in(ReplyView::Text(status, text)) == Ok::<Option<RemoteView>, ReadFault>(None)
            <==> status == 404,
        status != 404 && (status < 200 || status > 299) ==> read_in(
            ReplyView::Text(status, text),
        ) is Err,
        200 <= status <= 299 ==> (json_document(text) matches Ok(document) ==> (file_in(
            document,
        ) matches Ok(file) ==> read_in(ReplyView::Text(status, text)) == Ok::<
            Option<RemoteView>,
            ReadFault,
        >(Some(file)))),
        read_in(ReplyView::Failed(words)) is Err,
        read_in(ReplyView::NotText(words)) is Err,
{
}

/// The short name of a commit is the fingerprint where that has at most seven bytes, and else its
/// first seven.
pub proof fn law_short_name(sha: Seq<char>, label: Seq<char>)
    requires
        shortened(sha, label),
    ensures
        encode_utf8(sha).len() <= 7 ==> label == sha,
        encode_utf8(sha).len() > 7 ==> encode_utf8(label).len() == 7 && encode_utf8(
            label,
        ).is_prefix_of(encode_utf8(sha)),
{
}

/// The commit of a reply is the text under `sha` under `commit`.
pub proof fn law_commit(text: Seq<char>, document: JsonTree)
    ensures
        json_document(text) is Err ==> commit_in(text) is None,
        json_document(text) == Ok::<JsonTree, Seq<char>>(document) ==> commit_in(text) == text_of(
            subfield(field(document, "commit"@), "sha"@),
        ),
{
}

/// A token is good exactly where the reply is and names a user, and then it is that user.
pub proof fn law_login(status: i32, text: Seq<char>, login: Seq<char>)
    ensures
        login_in(ReplyView::Text(status, text)) == Ok::<Seq<char>, LoginFault>(login) <==> 200
            <= status <= 299 && (json_document(text) matches Ok(document) && text_of(
            field(document, "login"@),
        ) == Some(login)),
{
}

/// Of two members of an object with one name the later counts, and each name is kept.
pub proof fn law_members(ms: Seq<(String, Json)>, member: (String, Json), name: Seq<char>)
    ensures
        field(JsonTree::Object(members(ms.push(member))), name) == if name == member.0@ {
            Some(member.1.tree())
        } else {
            field(JsonTree::Object(members(ms)), name)
        },
{
    assert(ms.push(member).drop_last() =~= ms);
}

} // verus!
