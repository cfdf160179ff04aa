//! What a request is answered with: the route that its path takes, the call
//! that an API path names, the lines of a request's head, and the heads of
//! the responses.

use vstd::prelude::*;
use crate::chars::append_chars;
use crate::chars::from_chars;
use crate::chars::pieces_view;
use crate::chars::split;
use crate::chars::split_chars;
use crate::chars::to_chars;
use crate::chars::trim_chars;
use crate::chars::trimmed;
use crate::framing::text_bytes;
use crate::http::content_type_of;
use crate::http::get_content_type;
use crate::http::is_text;
use crate::json::json_encode;
use crate::json::json_text;
use crate::json::natural_text;
use crate::json::push_natural;
use crate::text::natural_within;
use crate::text::parse_usize;
use crate::text::str_equal;
use crate::textmap::TextMap;
use crate::value::MatchJsonType;

verus! {

/// Where a request goes, with text as sequences of characters.
pub enum RouteView {
    Api { category: Seq<char>, function: Seq<char> },
    File { path: Seq<char>, content_type: Seq<char> },
}

/// Where a request goes: to a function of the API, or to a file that is sent
/// under a content type.
#[derive(Clone, Debug, PartialEq)]
pub enum Route {
    Api { category: String, function: String },
    File { path: String, content_type: String },
}

impl View for Route {
    type V = RouteView;

    open spec fn view(&self) -> RouteView {
        match self {
            Route::Api { category, function } => RouteView::Api {
                category: category@,
                function: function@,
            },
            Route::File { path, content_type } => RouteView::File {
                path: path@,
                content_type: content_type@,
            },
        }
    }
}

/// The path of the file that a request names: the request's path below the
/// root directory, and the login page for the path `/`.
pub open spec fn full_path(root: Seq<char>, path: Seq<char>) -> Seq<char> {
    if path == "/"@ {
        root + "/login.html"@
    } else {
        root + path
    }
}

/// The ending of a file's name: what stands between the first and the second
/// `.` of its path, or `undefined` where the path holds no `.`.
pub open spec fn file_type_of(path: Seq<char>) -> Seq<char> {
    if split(path, '.').len() >= 2 {
        split(path, '.')[1]
    } else {
        "undefined"@
    }
}

/// Where a request for `path` goes. Where the fifth part of the full path
/// between its slashes is `api`, the two parts after it name the category
/// and the function of an API call, and without them the request goes
/// nowhere. Any other request goes to the file of the full path.
pub open spec fn route_of(root: Seq<char>, path: Seq<char>) -> Option<RouteView> {
    let full = full_path(root, path);
    let parts = split(full, '/');
    if parts.len() > 4 && parts[4] == "api"@ {
        if parts.len() < 7 {
            None
        } else {
            Some(RouteView::Api { category: parts[5], function: parts[6] })
        }
    } else {
        Some(RouteView::File { path: full, content_type: content_type_of(file_type_of(full)) })
    }
}

/// Finds where a request for `path` goes, with the files below `root`.
pub fn route(root: &str, path: &str) -> (found: Option<Route>)
    ensures
        found is Some <==> route_of(root@, path@) is Some,
        found is Some ==> found->Some_0@ == route_of(root@, path@)->Some_0,
{
    let mut full = to_chars(root);
    if str_equal(path, "/") {
        let page = to_chars("/login.html");
        full.extend_from_slice(page.as_slice());
    } else {
        let rest = to_chars(path);
        full.extend_from_slice(rest.as_slice());
    }
    assert(full@ =~= full_path(root@, path@));
    let parts = split_chars(full.as_slice(), '/');
    if parts.len() > 4 {
        assert(pieces_view(parts@)[4] == parts@[4]@);
        if is_text(parts[4].as_slice(), "api") {
            if parts.len() < 7 {
                return None;
            }
            assert(pieces_view(parts@)[5] == parts@[5]@);
            assert(pieces_view(parts@)[6] == parts@[6]@);
            return Some(
                Route::Api {
                    category: from_chars(parts[5].as_slice()),
                    function: from_chars(parts[6].as_slice()),
                },
            );
        }
    }
    let names = split_chars(full.as_slice(), '.');
    let file_type = if names.len() >= 2 {
        assert(pieces_view(names@)[1] == names@[1]@);
        from_chars(names[1].as_slice())
    } else {
        from_chars(to_chars("undefined").as_slice())
    };
    let content_type = get_content_type(file_type.as_str()).to_owned();
    Some(Route::File { path: from_chars(full.as_slice()), content_type })
}

/// The functions of the API.
#[derive(Clone, Copy, Debug, PartialEq, Eq, Structural)]
pub enum ApiCall {
    Logon,
    AutoLogon,
    AuthUser,
    NotFound,
}

/// The function that a category and a name stand for.
pub open spec fn api_call_of(category: Seq<char>, function: Seq<char>) -> ApiCall {
    if category == "login"@ {
        if function == "logon"@ {
            ApiCall::Logon
        } else if function == "auto_logon"@ {
            ApiCall::AutoLogon
        } else {
            ApiCall::NotFound
        }
    } else if category == "auth"@ && function == "auth_user"@ {
        ApiCall::AuthUser
    } else {
        ApiCall::NotFound
    }
}

/// Picks the function of the API that a category and a name stand for.
pub fn execute_api_call(category: &str, function: &str) -> (call: ApiCall)
    ensures
        call == api_call_of(category@, function@),
{
    if str_equal(category, "login") {
        if str_equal(function, "logon") {
            ApiCall::Logon
        } else if str_equal(function, "auto_logon") {
            ApiCall::AutoLogon
        } else {
            ApiCall::NotFound
        }
    } else if str_equal(category, "auth") {
        if str_equal(function, "auth_user") {
            ApiCall::AuthUser
        } else {
            ApiCall::NotFound
        }
    } else {
        ApiCall::NotFound
    }
}

/// What a line of a request's head says, with text as sequences of characters.
pub enum HeaderView {
    End,
    Header(Seq<char>, Seq<char>),
    Malformed,
}

/// What a line of a request's head says: that the head ends, or a header by
/// name and value, or nothing that can be read.
#[derive(Clone, Debug, PartialEq)]
pub enum HeaderLine {
    End,
    Header(String, String),
    Malformed,
}

impl View for HeaderLine {
    type V = HeaderView;

    open spec fn view(&self) -> HeaderView {
        match self {
            HeaderLine::End => HeaderView::End,
            HeaderLine::Header(name, value) => HeaderView::Header(name@, value@),
            HeaderLine::Malformed => HeaderView::Malformed,
        }
    }
}

/// What a line says. White space at its start and end does not count. A line
/// without content ends the head. Of any other line the text before the
/// first `:` is the name, and the text between the first and the second `:`,
/// without the white space around it, the value. A line without `:` is
/// malformed.
pub open spec fn header_of(line: Seq<char>) -> HeaderView {
    let content = trimmed(line);
    if content.len() == 0 {
        HeaderView::End
    } else if split(content, ':').len() < 2 {
        HeaderView::Malformed
    } else {
        HeaderView::Header(split(content, ':')[0], trimmed(split(content, ':')[1]))
    }
}

/// Reads one line of a request's head.
pub fn read_http_headers(line: &str) -> (header: HeaderLine)
    ensures
        header@ == header_of(line@),
{
    let chars = to_chars(line);
    let content = trim_chars(chars.as_slice());
    if content.len() == 0 {
        return HeaderLine::End;
    }
    let parts = split_chars(content.as_slice(), ':');
    if parts.len() < 2 {
        return HeaderLine::Malformed;
    }
    assert(pieces_view(parts@)[0] == parts@[0]@);
    assert(pieces_view(parts@)[1] == parts@[1]@);
    let value = trim_chars(parts[1].as_slice());
    HeaderLine::Header(from_chars(parts[0].as_slice()), from_chars(value.as_slice()))
}

/// The length that a `Content-Length` header gives, if it is a decimal number
/// that a length can hold.
pub fn content_length(value: &str) -> (length: Option<usize>)
    ensures
        length is Some <==> natural_within(text_bytes(value@), usize::MAX as int) is Some,
        length is Some ==> length->Some_0 as int == natural_within(
            text_bytes(value@),
            usize::MAX as int,
        )->Some_0,
{
    parse_usize(value.as_bytes())
}

/// The head of the response that sends a file.
pub open spec fn file_head(content_type: Seq<char>, length: nat) -> Seq<char> {
    "HTTP/1.1 200 OK\r\nContent-Type: "@ + content_type + "\r\nContent-Length: "@ + natural_text(
        length,
    ) + "\r\n\r\n"@
}

/// The head of the response that sends JSON text.
pub open spec fn json_head(length: nat) -> Seq<char> {
    "HTTP/1.1 200 Ok\r\nContent-Type: application/json\r\nContent-Length: "@ + natural_text(length)
        + "\r\n\r\n"@
}

/// The head of the response to a request for what is not there.
pub open spec fn not_found_head(length: nat) -> Seq<char> {
    "HTTP/1.1 404 Not Found\r\nContent-Length: "@ + natural_text(length) + "\r\n\r\n"@
}

/// Appends the decimal text of a length and the empty line that ends a head.
fn end_head(head: &mut String, length: usize)
    ensures
        final(head)@ == old(head)@ + natural_text(length as nat) + "\r\n\r\n"@,
{
    let mut digits: Vec<char> = Vec::new();
    push_natural(&mut digits, length as u64);
    assert(digits@ =~= natural_text(length as nat));
    append_chars(head, digits.as_slice());
    let end = to_chars("\r\n\r\n");
    append_chars(head, end.as_slice());
}

/// Writes the head of the response that sends a file of `length` bytes under
/// `content_type`.
pub fn send_http_response(content_type: &str, length: usize) -> (head: String)
    ensures
        head@ == file_head(content_type@, length as nat),
{
    let mut head = String::new();
    append_chars(&mut head, to_chars("HTTP/1.1 200 OK\r\nContent-Type: ").as_slice());
    append_chars(&mut head, to_chars(content_type).as_slice());
    append_chars(&mut head, to_chars("\r\nContent-Length: ").as_slice());
    end_head(&mut head, length);
    assert(head@ =~= file_head(content_type@, length as nat));
    head
}

/// Writes the head of the response to a request for what is not there, with
/// a page of `length` bytes.
pub fn send_404(length: usize) -> (head: String)
    ensures
        head@ == not_found_head(length as nat),
{
    let mut head = String::new();
    append_chars(&mut head, to_chars("HTTP/1.1 404 Not Found\r\nContent-Length: ").as_slice());
    end_head(&mut head, length);
    assert(head@ =~= not_found_head(length as nat));
    head
}

/// Writes rows of values as the response that sends them: the head, which
/// counts the bytes of the JSON text, and the JSON text.
pub fn api_send_response_json<T: MatchJsonType>(database_response: &Vec<TextMap<Option<T>>>) -> (response:
    (String, String))
    requires
        forall|i: int| 0 <= i < database_response@.len() ==> (#[trigger] database_response@[i]).wf(),
    ensures
        response.1@ == json_text(database_response@),
        response.0@ == json_head(text_bytes(response.1@).len()),
{
    let json = json_encode(database_response);
    let length: usize = json.as_str().as_bytes().len();
    let mut head = String::new();
    append_chars(
        &mut head,
        to_chars("HTTP/1.1 200 Ok\r\nContent-Type: application/json\r\nContent-Length: ").as_slice(),
    );
    end_head(&mut head, length);
    assert(head@ =~= json_head(text_bytes(json@).len()));
    (head, json)
}

} // verus!
