//! The head and the body of a request: what is read from the client's, and what is sent to a
//! server.

use vstd::prelude::*;
use vstd::string::*;

use crate::json;
use crate::json::{Json, Object, Parsed, Tree};
use crate::proxy::body;
use crate::proxy::body::{
    is_thinking_signature_error, strip_thinking_blocks, try_transform_request_body, Shape,
};
use crate::proxy::headers;
use crate::proxy::headers::merge_custom_headers_into_log;
use crate::text;
use crate::text::{append_text, concat2, contains, decode, str_eq, strip_prefix, trim};
use crate::translate::chat;

verus! {

/// Headers, by their names in lower case.
pub type Headers = Vec<(String, Vec<u8>)>;

/// The names and values of headers.
pub open spec fn header_views(headers: Seq<(String, Vec<u8>)>) -> Seq<(Seq<char>, Seq<u8>)> {
    headers.map_values(|h: (String, Vec<u8>)| (h.0@, h.1@))
}

/// The byte may stand in a header value that is text.
pub open spec fn is_visible(b: u8) -> bool {
    b == 9 || 32 <= b < 127
}

/// The text of a header value, where it is one: a tab and the visible characters of ASCII
/// are.
pub open spec fn value_text(bytes: Seq<u8>) -> Option<Seq<char>> {
    if forall|i: int| 0 <= i < bytes.len() ==> is_visible(#[trigger] bytes[i]) {
        Some(bytes.map_values(|b: u8| b as char))
    } else {
        None
    }
}

/// Visible bytes are the text that they encode.
proof fn lemma_visible_is_text(bytes: Seq<u8>)
    requires
        forall|i: int| 0 <= i < bytes.len() ==> is_visible(#[trigger] bytes[i]),
    ensures
        vstd::utf8::valid_utf8(bytes),
        vstd::utf8::decode_utf8(bytes) == bytes.map_values(|b: u8| b as char),
{
    let chars = bytes.map_values(|b: u8| b as char);
    assert forall|i: int| 0 <= i < chars.len() implies (#[trigger] chars[i]) as u32 == bytes[i]
        && (chars[i] as u32) < 128 by {
        assert(is_visible(bytes[i]));
    }
    assert(vstd::utf8::is_ascii_chars(chars));
    vstd::utf8::is_ascii_chars_encode_utf8(chars);
    assert(vstd::utf8::encode_utf8(chars) =~= bytes);
    vstd::utf8::encode_utf8_valid_utf8(chars);
    vstd::utf8::encode_utf8_decode_utf8(chars);
}

/// The text of a header value, where it is one.
pub fn header_text(bytes: &[u8]) -> (r: Option<&str>)
    ensures
        json::str_opt(r) == value_text(bytes@),
{
    for i in 0..bytes.len()
        invariant
            forall|j: int| 0 <= j < i ==> is_visible(#[trigger] bytes@[j]),
    {
        let b: u8 = bytes[i];
        if !(b == 9 || (32 <= b && b < 127)) {
            assert(!is_visible(bytes@[i as int]));
            return None;
        }
    }
    proof {
        lemma_visible_is_text(bytes@);
    }
    decode(bytes)
}

/// The first value of a header.
pub open spec fn first_value(headers: Seq<(Seq<char>, Seq<u8>)>, name: Seq<char>) -> Option<
    Seq<u8>,
>
    decreases headers.len(),
{
    if headers.len() == 0 {
        None
    } else if headers[0].0 == name {
        Some(headers[0].1)
    } else {
        first_value(headers.skip(1), name)
    }
}

/// The text of the first value of a header.
pub open spec fn text_of(headers: Seq<(Seq<char>, Seq<u8>)>, name: Seq<char>) -> Option<Seq<char>> {
    match first_value(headers, name) {
        Some(bytes) => value_text(bytes),
        None => None,
    }
}

/// The text of the first value of a header.
pub fn get_text<'a>(headers: &'a Headers, name: &str) -> (r: Option<&'a str>)
    ensures
        json::str_opt(r) == text_of(header_views(headers@), name@),
{
    let ghost all = header_views(headers@);
    assert(all.skip(0) =~= all);
    for i in 0..headers.len()
        invariant
            all == header_views(headers@),
            first_value(all, name@) == first_value(all.skip(i as int), name@),
    {
        let ghost rest = all.skip(i as int);
        assert(rest[0] == (headers@[i as int].0@, headers@[i as int].1@));
        assert(rest.skip(1) =~= all.skip(i + 1));
        if str_eq(headers[i].0.as_str(), name) {
            return header_text(headers[i].1.as_slice());
        }
    }
    None
}

/// The key that a request is sent with: the header `x-api-key`, else the bearer token.
pub open spec fn key_of(headers: Seq<(Seq<char>, Seq<u8>)>) -> Option<Seq<char>> {
    match text_of(headers, "x-api-key"@) {
        Some(key) => Some(key),
        None => match text_of(headers, "authorization"@) {
            Some(value) => if "Bearer "@.is_prefix_of(value) {
                Some(value.skip("Bearer "@.len() as int))
            } else {
                None
            },
            None => None,
        },
    }
}

/// Reads the key that a request is sent with.
pub fn client_key(headers: &Headers) -> (r: Option<String>)
    ensures
        chat::text_opt(r) == key_of(header_views(headers@)),
{
    match get_text(headers, "x-api-key") {
        Some(key) => Some(key.to_owned()),
        None => match get_text(headers, "authorization") {
            Some(value) => match strip_prefix(value, "Bearer ") {
                Some(key) => {
                    assert(value@.skip("Bearer "@.len() as int) =~= key@);
                    assert(value@.subrange(0, "Bearer "@.len() as int) =~= "Bearer "@);
                    Some(key.to_owned())
                },
                None => None,
            },
            None => None,
        },
    }
}

/// The user agent of a request, trimmed; one without is called `(empty)`.
pub open spec fn agent_of(headers: Seq<(Seq<char>, Seq<u8>)>) -> Seq<char> {
    match text_of(headers, "user-agent"@) {
        Some(value) => if text::trimmed(value).len() > 0 {
            text::trimmed(value)
        } else {
            "(empty)"@
        },
        None => "(empty)"@,
    }
}

/// Reads the user agent of a request.
pub fn user_agent(headers: &Headers) -> (r: String)
    ensures
        r@ == agent_of(header_views(headers@)),
{
    match get_text(headers, "user-agent") {
        Some(value) => {
            let agent = trim(value);
            proof {
                reveal_strlit("");
                if agent@.len() == 0 {
                    assert(agent@ =~= ""@);
                }
            }
            if str_eq(agent, "") {
                "(empty)".to_owned()
            } else {
                agent.to_owned()
            }
        },
        None => "(empty)".to_owned(),
    }
}

/// The answer is a stream of events.
pub open spec fn streams_events(headers: Seq<(Seq<char>, Seq<u8>)>) -> bool {
    text_of(headers, "content-type"@) matches Some(value) && text::find(
        value,
        "text/event-stream"@,
    ) is Some
}

/// Whether an answer is a stream of events.
pub fn is_event_stream(headers: &Headers) -> (r: bool)
    ensures
        r == streams_events(header_views(headers@)),
{
    match get_text(headers, "content-type") {
        Some(value) => contains(value, "text/event-stream"),
        None => false,
    }
}

/// A header that is not handed on: it names the client's key, or belongs to its connection.
pub open spec fn is_withheld(name: Seq<char>) -> bool {
    name == "x-api-key"@ || name == "authorization"@ || name == "host"@ || name
        == "content-length"@
}

/// The headers that are handed on.
pub open spec fn handed_on(headers: Seq<(Seq<char>, Seq<u8>)>) -> Seq<(Seq<char>, Seq<u8>)>
    decreases headers.len(),
{
    if headers.len() == 0 {
        Seq::empty()
    } else if is_withheld(headers.last().0) {
        handed_on(headers.drop_last())
    } else {
        handed_on(headers.drop_last()).push(headers.last())
    }
}

/// The headers that a server is sent, before its custom headers: those of the client, with
/// the server's key in place of the client's.
pub open spec fn sent_headers(headers: Seq<(Seq<char>, Seq<u8>)>, key: Seq<char>) -> Seq<
    (Seq<char>, Seq<u8>),
> {
    handed_on(headers).push(("x-api-key"@, vstd::utf8::encode_utf8(key))).push(
        ("authorization"@, vstd::utf8::encode_utf8("Bearer "@ + key)),
    )
}

fn push_header(out: &mut Headers, name: &str, value: &str)
    ensures
        header_views(final(out)@) == header_views(old(out)@).push(
            (name@, vstd::utf8::encode_utf8(value@)),
        ),
{
    let mut bytes: Vec<u8> = Vec::new();
    append_text(&mut bytes, value);
    assert(bytes@ =~= vstd::utf8::encode_utf8(value@));
    out.push((name.to_owned(), bytes));
    assert(header_views(out@) =~= header_views(old(out)@).push(
        (name@, vstd::utf8::encode_utf8(value@)),
    ));
}

/// The headers that a server is sent, before its custom headers, which override them.
pub fn headers_to_send(headers: &Headers, key: &str) -> (r: Headers)
    ensures
        header_views(r@) == sent_headers(header_views(headers@), key@),
{
    let mut out: Headers = Vec::new();
    let ghost all = header_views(headers@);
    assert(header_views(out@) =~= handed_on(all.take(0)));
    for i in 0..headers.len()
        invariant
            all == header_views(headers@),
            header_views(out@) == handed_on(all.take(i as int)),
    {
        let ghost more = all.take(i + 1);
        assert(more.drop_last() =~= all.take(i as int));
        assert(more.last() == (headers@[i as int].0@, headers@[i as int].1@));
        let name = headers[i].0.as_str();
        if !(str_eq(name, "x-api-key") || str_eq(name, "authorization") || str_eq(name, "host")
            || str_eq(name, "content-length")) {
            let ghost before = out@;
            out.push((headers[i].0.clone(), vstd::slice::slice_to_vec(headers[i].1.as_slice())));
            assert(header_views(out@) =~= header_views(before).push(more.last()));
        }
    }
    assert(all.take(all.len() as int) =~= all);
    push_header(&mut out, "x-api-key", key);
    let bearer = concat2("Bearer ", key);
    push_header(&mut out, "authorization", bearer.as_str());
    out
}

/// A header that the log does not show as the client sent it.
pub open spec fn is_unlogged(name: Seq<char>) -> bool {
    name == "host"@ || name == "content-length"@ || name == "x-api-key"@
}

/// The headers of the client that the log shows: those whose value is text. Of several with
/// one name the last is shown.
pub open spec fn logged(headers: Seq<(Seq<char>, Seq<u8>)>) -> Map<Seq<char>, Tree>
    decreases headers.len(),
{
    if headers.len() == 0 {
        Map::empty()
    } else {
        let rest = logged(headers.drop_last());
        let (name, value) = headers.last();
        match value_text(value) {
            Some(text) => if is_unlogged(name) {
                rest
            } else {
                rest.insert(name, Tree::Str(text))
            },
            None => rest,
        }
    }
}

/// The headers that the log shows of an attempt: those of the client, with the key of the
/// server, and its custom headers, which override others.
pub open spec fn logged_attempt(
    headers: Seq<(Seq<char>, Seq<u8>)>,
    key: Seq<char>,
    custom: Option<Tree>,
) -> Map<Seq<char>, Tree> {
    logged(headers).insert("x-api-key"@, Tree::Str(key)).insert(
        "authorization"@,
        Tree::Str("Bearer "@ + key),
    ).union_prefer_right(headers::custom_texts(custom))
}

/// The headers that the log shows of an attempt at a server.
pub fn headers_to_log(headers: &Headers, key: &str, custom: Option<&Json>) -> (r: Object)
    ensures
        r@ == logged_attempt(header_views(headers@), key@, json::view_opt(custom)),
{
    let mut out = Object::new();
    let ghost all = header_views(headers@);
    assert(out@ =~= logged(all.take(0)));
    for i in 0..headers.len()
        invariant
            all == header_views(headers@),
            out@ == logged(all.take(i as int)),
    {
        let ghost more = all.take(i + 1);
        assert(more.drop_last() =~= all.take(i as int));
        assert(more.last() == (headers@[i as int].0@, headers@[i as int].1@));
        let name = headers[i].0.as_str();
        if !(str_eq(name, "host") || str_eq(name, "content-length") || str_eq(
            name,
            "x-api-key",
        )) {
            if let Some(value) = header_text(headers[i].1.as_slice()) {
                out.insert(headers[i].0.clone(), Json::text(value));
            }
        }
    }
    assert(all.take(all.len() as int) =~= all);
    out.insert("x-api-key".to_owned(), Json::text(key));
    let bearer = concat2("Bearer ", key);
    out.insert("authorization".to_owned(), Json::text(bearer.as_str()));
    merge_custom_headers_into_log(&mut out, custom);
    out
}

/// The body that the log shows of an attempt: the real one if that is switched on and it is
/// JSON, else an empty object.
pub fn body_to_log(log_request_body: bool, body: &[u8]) -> (r: Option<Json>)
    ensures
        json::view_owned(r) == (if log_request_body {
            match json::parsed(body@) {
                Parsed::Doc(doc) => Some(doc),
                Parsed::Malformed(_) => None,
            }
        } else {
            Some(Tree::Obj(Map::empty()))
        }),
{
    if !log_request_body {
        return Some(Json::Object(Object::new()));
    }
    match Json::from_slice(body) {
        Ok(doc) => Some(doc),
        Err(_) => None,
    }
}

/// The body without the thinking blocks of its assistant messages, where it has some.
pub open spec fn stripped(body: Seq<u8>) -> Option<Seq<u8>> {
    match json::parsed(body) {
        Parsed::Doc(doc) => match body::without_thinking(doc) {
            Some(doc) => Some(body::doc_bytes(doc)),
            None => None,
        },
        Parsed::Malformed(_) => None,
    }
}

/// The bytes, where there are some.
pub open spec fn bytes_opt(bytes: Option<Vec<u8>>) -> Option<Seq<u8>> {
    match bytes {
        Some(bytes) => Some(bytes@),
        None => None,
    }
}

/// The body as a server is sent it: shaped for the server; on any attempt after the first
/// without thinking blocks, whose signatures are bound to the account that produced them.
/// `None` where it is to get a system prompt that it cannot hold.
pub open spec fn body_for(body: Seq<u8>, shape: Shape, first_attempt: bool) -> Option<Seq<u8>> {
    let shaped = match json::parsed(body) {
        Parsed::Doc(doc) => if body::merges_prompt(shape) && !body::can_hold_prompt(doc) {
            None
        } else {
            Some(body::doc_bytes(body::shaped(doc, shape)))
        },
        Parsed::Malformed(_) => Some(body),
    };
    match shaped {
        Some(bytes) => if !first_attempt && stripped(bytes) is Some {
            stripped(bytes)
        } else {
            Some(bytes)
        },
        None => None,
    }
}

/// The body that a server is sent.
pub fn body_to_send(
    body: &[u8],
    model_mappings: &Json,
    system_prompt: Option<&str>,
    request_path: &str,
    remove_thinking: bool,
    first_attempt: bool,
) -> (r: Option<Vec<u8>>)
    ensures
        bytes_opt(r) == body_for(
            body@,
            (Shape {
                mappings: model_mappings@,
                prompt: json::str_opt(system_prompt),
                path: request_path@,
                remove_thinking,
            }),
            first_attempt,
        ),
{
    match try_transform_request_body(
        body,
        model_mappings,
        system_prompt,
        request_path,
        remove_thinking,
    ) {
        Some(bytes) => {
            if first_attempt {
                return Some(bytes);
            }
            match strip_thinking_blocks(bytes.as_slice()) {
                Some(sanitized) => Some(sanitized),
                None => Some(bytes),
            }
        },
        None => None,
    }
}

/// The body that a server is sent again after an error about the signature of a thinking
/// block; `None` where the error is another, or the body has no such blocks.
pub fn body_to_resend(error_body: &[u8], sent_body: &[u8]) -> (r: Option<Vec<u8>>)
    ensures
        bytes_opt(r) == (if body::speaks_of_thinking(error_body@) {
            stripped(sent_body@)
        } else {
            None
        }),
{
    if is_thinking_signature_error(error_body) {
        strip_thinking_blocks(sent_body)
    } else {
        None
    }
}

proof fn lemma_handed_on(headers: Seq<(Seq<char>, Seq<u8>)>)
    ensures
        forall|i: int|
            0 <= i < handed_on(headers).len() ==> !is_withheld((#[trigger] handed_on(headers)[i]).0)
                && headers.contains(handed_on(headers)[i]),
    decreases headers.len(),
{
    if headers.len() > 0 {
        lemma_handed_on(headers.drop_last());
        let earlier = handed_on(headers.drop_last());
        assert forall|i: int| 0 <= i < handed_on(headers).len() implies !is_withheld(
            (#[trigger] handed_on(headers)[i]).0,
        ) && headers.contains(handed_on(headers)[i]) by {
            if i < earlier.len() {
                assert(handed_on(headers)[i] == earlier[i]);
                let j = choose|j: int|
                    0 <= j < headers.drop_last().len() && headers.drop_last()[j] == earlier[i];
                assert(headers[j] == earlier[i]);
            } else {
                assert(headers[headers.len() - 1] == handed_on(headers)[i]);
            }
        }
    }
}

/// A server never sees the client's key, nor the headers of the client's connection: every
/// header that it is sent names its own key or is one of the client's other headers.
pub proof fn law_client_key_is_withheld(headers: Seq<(Seq<char>, Seq<u8>)>, key: Seq<char>)
    ensures
        forall|i: int|
            0 <= i < sent_headers(headers, key).len() ==> {
                let (name, value) = #[trigger] sent_headers(headers, key)[i];
                ||| name == "x-api-key"@ && value == vstd::utf8::encode_utf8(key)
                ||| name == "authorization"@ && value == vstd::utf8::encode_utf8("Bearer "@ + key)
                ||| !is_withheld(name) && headers.contains((name, value))
            },
{
    lemma_handed_on(headers);
    assert forall|i: int| 0 <= i < sent_headers(headers, key).len() implies {
        let (name, value) = #[trigger] sent_headers(headers, key)[i];
        ||| name == "x-api-key"@ && value == vstd::utf8::encode_utf8(key)
        ||| name == "authorization"@ && value == vstd::utf8::encode_utf8("Bearer "@ + key)
        ||| !is_withheld(name) && headers.contains((name, value))
    } by {
        let kept = handed_on(headers);
        if i < kept.len() {
            assert(sent_headers(headers, key)[i] == kept[i]);
        }
    }
}

} // verus!
