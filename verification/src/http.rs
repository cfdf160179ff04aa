//! The request line of an HTTP request, the `Accept` header, query strings
//! and content types.

use vstd::prelude::*;
use crate::chars::chars_equal;
use crate::chars::from_chars;
use crate::chars::pieces_view;
use crate::chars::split;
use crate::chars::split_chars;
use crate::chars::split_words;
use crate::chars::to_chars;
use crate::chars::trim_chars;
use crate::chars::trimmed;
use crate::chars::words;
use crate::text::str_equal;
use crate::textmap::TextMap;

verus! {

/// Takes the white space from the start and the end of the line that was
/// read as the first of a request.
pub fn read_request_line(line: &str) -> (request_line: String)
    ensures
        request_line@ == trimmed(line@),
{
    let chars = to_chars(line);
    let content = trim_chars(chars.as_slice());
    from_chars(content.as_slice())
}

/// The content types that a handler answers with.
#[derive(Clone, Copy, Debug, PartialEq, Eq, Structural)]
pub enum ContentType {
    ApplicationJson,
}

/// The method of a request.
#[derive(Clone, Copy, Debug, PartialEq, Eq, Structural)]
pub enum Method {
    GET,
    POST,
    Undefined,
}

/// A request line, with text as sequences of characters.
pub struct RequestLineView {
    pub empty: bool,
    pub method: Method,
    pub path: Seq<char>,
    pub query_string: Option<Seq<char>>,
    pub protocol: Seq<char>,
}

/// The first line of a request.
#[derive(Clone, Debug, PartialEq)]
pub struct RequestLine {
    pub empty: bool,
    pub method: Method,
    pub path: String,
    pub query_string: Option<String>,
    pub protocol: String,
}

impl View for RequestLine {
    type V = RequestLineView;

    open spec fn view(&self) -> RequestLineView {
        RequestLineView {
            empty: self.empty,
            method: self.method,
            path: self.path@,
            query_string: match self.query_string {
                Some(q) => Some(q@),
                None => None,
            },
            protocol: self.protocol@,
        }
    }
}

/// The request line that stands for a line without content.
pub open spec fn empty_line() -> RequestLineView {
    RequestLineView {
        empty: true,
        method: Method::Undefined,
        path: Seq::empty(),
        query_string: None,
        protocol: Seq::empty(),
    }
}

impl RequestLine {
    /// The request line that stands for a line without content.
    pub fn empty() -> (line: RequestLine)
        ensures
            line@ == empty_line(),
    {
        RequestLine {
            empty: true,
            method: Method::Undefined,
            path: String::new(),
            query_string: None,
            protocol: String::new(),
        }
    }
}

/// The method that a word names.
pub open spec fn method_of(word: Seq<char>) -> Method {
    if word == "GET"@ {
        Method::GET
    } else if word == "POST"@ {
        Method::POST
    } else {
        Method::Undefined
    }
}

/// Whether the characters are those of the string.
pub fn is_text(chars: &[char], text: &str) -> (same: bool)
    ensures
        same == (chars@ == text@),
{
    let other = to_chars(text);
    chars_equal(chars, other.as_slice())
}

/// Whether `pair` holds a name and a value: an `=` stands between them.
pub open spec fn is_pair(pair: Seq<char>) -> bool {
    split(pair, '=').len() >= 2
}

/// Whether each part of `query` between two `&` holds a name and a value.
pub open spec fn is_query(query: Seq<char>) -> bool {
    forall|i: int| 0 <= i < split(query, '&').len() ==> is_pair(#[trigger] split(query, '&')[i])
}

/// The names of the first `count` pairs, each with its value: the text
/// before the pair's first `=` and the text between its first and its second.
/// A later pair takes the place of an earlier one of its name.
pub open spec fn pairs_map(pairs: Seq<Seq<char>>, count: int) -> Map<Seq<char>, Seq<char>>
    decreases count,
{
    if count <= 0 {
        Map::empty()
    } else {
        pairs_map(pairs, count - 1).insert(
            split(pairs[count - 1], '=')[0],
            split(pairs[count - 1], '=')[1],
        )
    }
}

/// The names and values of a query string.
pub open spec fn query_map(query: Seq<char>) -> Map<Seq<char>, Seq<char>> {
    pairs_map(split(query, '&'), split(query, '&').len() as int)
}

/// A map of strings as a map of their characters.
pub open spec fn strings_view(map: TextMap<String>) -> Map<Seq<char>, Seq<char>> {
    Map::new(|k: Seq<char>| map@.contains_key(k), |k: Seq<char>| map@[k]@)
}

/// Reads a query string, if each of its parts holds a name and a value.
pub fn read_query(query: &[char]) -> (result: Option<TextMap<String>>)
    ensures
        result is Some <==> is_query(query@),
        result is Some ==> result->Some_0.wf() && strings_view(result->Some_0) == query_map(
            query@,
        ),
{
    let pairs = split_chars(query, '&');
    let ghost parts = split(query@, '&');
    let mut map: TextMap<String> = TextMap::new();
    let mut i: usize = 0;
    assert(strings_view(map) =~= pairs_map(parts, 0));
    while i < pairs.len()
        invariant
            i <= pairs@.len(),
            parts == split(query@, '&'),
            pieces_view(pairs@) == parts,
            map.wf(),
            strings_view(map) == pairs_map(parts, i as int),
            forall|k: int| 0 <= k < i ==> is_pair(#[trigger] parts[k]),
        decreases pairs@.len() - i,
    {
        assert(parts[i as int] == pairs@[i as int]@);
        let sides = split_chars(pairs[i].as_slice(), '=');
        if sides.len() < 2 {
            assert(!is_pair(parts[i as int]));
            return None;
        }
        assert(pieces_view(sides@)[0] == sides@[0]@);
        assert(pieces_view(sides@)[1] == sides@[1]@);
        let name = from_chars(sides[0].as_slice());
        let value = from_chars(sides[1].as_slice());
        let ghost before = map;
        map.insert(name, value);
        assert(strings_view(map) =~= strings_view(before).insert(name@, value@));
        i += 1;
    }
    Some(map)
}

/// Whether `query_string` can be converted: each of its parts between two
/// `&` holds a name and a value.
pub fn is_query_string(query_string: &str) -> (accepted: bool)
    ensures
        accepted == is_query(query_string@),
{
    let chars = to_chars(query_string);
    read_query(chars.as_slice()).is_some()
}

/// Converts a query string into its names and values.
pub fn convert_query_string(query_string: String) -> (map: TextMap<String>)
    requires
        is_query(query_string@),
    ensures
        map.wf(),
        strings_view(map) == query_map(query_string@),
{
    let chars = to_chars(query_string.as_str());
    match read_query(chars.as_slice()) {
        Some(map) => map,
        None => TextMap::new(),
    }
}

/// What a request line says. A line without content gives the empty request
/// line. Any other line must hold three words: the method, the target and the
/// protocol. The path is the target up to its first `?`; no query string is
/// kept. The query string of a `GET` request must be one that can be
/// converted. A line that does not meet this gives nothing.
pub open spec fn request_line_of(line: Seq<char>) -> Option<RequestLineView> {
    if line.len() == 0 {
        Some(empty_line())
    } else if words(line).len() < 3 {
        None
    } else {
        let target = split(words(line)[1], '?');
        let method = method_of(words(line)[0]);
        if method == Method::GET && target.len() >= 2 && !is_query(target[1]) {
            None
        } else {
            Some(
                RequestLineView {
                    empty: false,
                    method,
                    path: target[0],
                    query_string: None,
                    protocol: words(line)[2],
                },
            )
        }
    }
}

/// Reads a request line, if it is one.
pub fn read_request_parts(request_line: &str) -> (result: Option<RequestLine>)
    ensures
        result is Some <==> request_line_of(request_line@) is Some,
        result is Some ==> result->Some_0@ == request_line_of(request_line@)->Some_0,
{
    let chars = to_chars(request_line);
    if chars.len() == 0 {
        return Some(RequestLine::empty());
    }
    let parts = split_words(chars.as_slice());
    if parts.len() < 3 {
        return None;
    }
    assert(pieces_view(parts@)[0] == parts@[0]@);
    assert(pieces_view(parts@)[1] == parts@[1]@);
    assert(pieces_view(parts@)[2] == parts@[2]@);
    let method = if is_text(parts[0].as_slice(), "GET") {
        Method::GET
    } else if is_text(parts[0].as_slice(), "POST") {
        Method::POST
    } else {
        Method::Undefined
    };
    let target = split_chars(parts[1].as_slice(), '?');
    assert(pieces_view(target@)[0] == target@[0]@);
    if method == Method::GET && target.len() >= 2 {
        assert(pieces_view(target@)[1] == target@[1]@);
        if read_query(target[1].as_slice()).is_none() {
            return None;
        }
    }
    Some(
        RequestLine {
            empty: false,
            method,
            path: from_chars(target[0].as_slice()),
            query_string: None,
            protocol: from_chars(parts[2].as_slice()),
        },
    )
}

/// Whether `request_line` is a request line.
pub fn is_request_line(request_line: &str) -> (accepted: bool)
    ensures
        accepted == request_line_of(request_line@) is Some,
{
    read_request_parts(request_line).is_some()
}

/// Reads a request line.
pub fn parse_request_line(request_line: String) -> (line: RequestLine)
    requires
        request_line_of(request_line@) is Some,
    ensures
        line@ == request_line_of(request_line@)->Some_0,
{
    match read_request_parts(request_line.as_str()) {
        Some(line) => line,
        None => RequestLine::empty(),
    }
}

/// The name of a media type and its preference: the text before the first
/// `;`, and of what follows up to the next `;` the text between its first and
/// its second `=`. The preference is empty where no `=` follows, and `1.0`
/// where no `;` does.
pub open spec fn preference_of(media_type: Seq<char>) -> (Seq<char>, Seq<char>) {
    let parts = split(media_type, ';');
    if parts.len() < 2 {
        (parts[0], "1.0"@)
    } else if split(parts[1], '=').len() < 2 {
        (parts[0], Seq::empty())
    } else {
        (parts[0], split(parts[1], '=')[1])
    }
}

/// The first `count` media types, each with its preference. A later one
/// takes the place of an earlier one of its name.
pub open spec fn preferences(media_types: Seq<Seq<char>>, count: int) -> Map<Seq<char>, Seq<char>>
    decreases count,
{
    if count <= 0 {
        Map::empty()
    } else {
        preferences(media_types, count - 1).insert(
            preference_of(media_types[count - 1]).0,
            preference_of(media_types[count - 1]).1,
        )
    }
}

/// The media types of an `Accept` header, which stand between its commas,
/// each with its preference.
pub open spec fn accept_of(header: Seq<char>) -> Map<Seq<char>, Seq<char>> {
    preferences(split(header, ','), split(header, ',').len() as int)
}

/// Reads the value of an `Accept` header into its media types and their
/// preferences.
pub fn parse_header_accept(head_string: &str) -> (media_types: TextMap<String>)
    ensures
        media_types.wf(),
        strings_view(media_types) == accept_of(head_string@),
{
    let chars = to_chars(head_string);
    let listed = split_chars(chars.as_slice(), ',');
    let ghost types = split(head_string@, ',');
    let mut map: TextMap<String> = TextMap::new();
    let mut i: usize = 0;
    assert(strings_view(map) =~= preferences(types, 0));
    while i < listed.len()
        invariant
            i <= listed@.len(),
            pieces_view(listed@) == types,
            map.wf(),
            strings_view(map) == preferences(types, i as int),
        decreases listed@.len() - i,
    {
        assert(types[i as int] == listed@[i as int]@);
        let parts = split_chars(listed[i].as_slice(), ';');
        assert(pieces_view(parts@)[0] == parts@[0]@);
        let name = from_chars(parts[0].as_slice());
        let preference = if parts.len() < 2 {
            from_chars(to_chars("1.0").as_slice())
        } else {
            assert(pieces_view(parts@)[1] == parts@[1]@);
            let sides = split_chars(parts[1].as_slice(), '=');
            if sides.len() < 2 {
                String::new()
            } else {
                assert(pieces_view(sides@)[1] == sides@[1]@);
                from_chars(sides[1].as_slice())
            }
        };
        let ghost before = map;
        map.insert(name, preference);
        assert(strings_view(map) =~= strings_view(before).insert(name@, preference@));
        i += 1;
    }
    map
}

/// The content type of a file by the ending of its name.
pub open spec fn content_type_of(file_type: Seq<char>) -> Seq<char> {
    if file_type == "png"@ {
        "image/png"@
    } else if file_type == "ico"@ {
        "image/x-icon"@
    } else if file_type == "css"@ {
        "text/css"@
    } else if file_type == "js"@ {
        "application/javascript"@
    } else {
        "*/*"@
    }
}

/// The content type of a file by the ending of its name.
pub fn get_content_type(file_type: &str) -> (content_type: &str)
    ensures
        content_type@ == content_type_of(file_type@),
{
    if str_equal(file_type, "png") {
        "image/png"
    } else if str_equal(file_type, "ico") {
        "image/x-icon"
    } else if str_equal(file_type, "css") {
        "text/css"
    } else if str_equal(file_type, "js") {
        "application/javascript"
    } else {
        "*/*"
    }
}

} // verus!
