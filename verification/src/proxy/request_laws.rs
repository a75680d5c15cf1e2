//! What is read from the head of a request, and what a server is sent of it.

use vstd::prelude::*;

use crate::json;
use crate::json::{Parsed, Tree};
use crate::proxy::body;
use crate::proxy::body::{BlockRule, Shape};
use crate::proxy::request;
use crate::text;

verus! {

/// Of several headers with one name the first is read; without one, nothing is.
pub proof fn law_first_header_is_read(
    headers: Seq<(Seq<char>, Seq<u8>)>,
    name: Seq<char>,
    i: int,
)
    ensures
        0 <= i < headers.len() && headers[i].0 == name && (forall|j: int|
            0 <= j < i ==> (#[trigger] headers[j]).0 != name) ==> request::first_value(
            headers,
            name,
        ) == Some(headers[i].1),
        (forall|j: int| 0 <= j < headers.len() ==> (#[trigger] headers[j]).0 != name)
            ==> request::first_value(headers, name) is None,
    decreases headers.len(),
{
    if headers.len() > 0 {
        let rest = headers.skip(1);
        law_first_header_is_read(rest, name, i - 1);
        if 0 < i < headers.len() && headers[i].0 == name && (forall|j: int|
            0 <= j < i ==> (#[trigger] headers[j]).0 != name) {
            assert(headers[0].0 != name);
            assert(rest[i - 1] == headers[i]);
            assert forall|j: int| 0 <= j < i - 1 implies (#[trigger] rest[j]).0 != name by {
                assert(headers[j + 1].0 != name);
            }
        }
        if forall|j: int| 0 <= j < headers.len() ==> (#[trigger] headers[j]).0 != name {
            assert(headers[0].0 != name);
            assert forall|j: int| 0 <= j < rest.len() implies (#[trigger] rest[j]).0 != name by {
                assert(headers[j + 1].0 != name);
            }
        }
    }
}

/// A value is text where each of its bytes is a tab or a visible character of ASCII, and then
/// each byte is its character.
pub proof fn law_visible_values_are_text(bytes: Seq<u8>)
    ensures
        request::value_text(bytes) is Some <==> forall|i: int|
            0 <= i < bytes.len() ==> (#[trigger] bytes[i] == 9 || 32 <= bytes[i] <= 126),
        request::value_text(bytes) matches Some(s) ==> s.len() == bytes.len() && forall|i: int|
            0 <= i < bytes.len() ==> #[trigger] s[i] == bytes[i] as char,
{
    if request::value_text(bytes) is Some {
        assert forall|i: int| 0 <= i < bytes.len() implies (#[trigger] bytes[i] == 9 || 32
            <= bytes[i] <= 126) by {
            assert(request::is_visible(bytes[i]));
        }
    }
}

/// The key of a request is its `x-api-key`, whatever else it holds; without one, what stands
/// behind `Bearer ` in its authorization, and nothing else.
pub proof fn law_key_is_found(headers: Seq<(Seq<char>, Seq<u8>)>, key: Seq<char>)
    ensures
        request::key_of(headers) == Some(key) <==> request::text_of(headers, "x-api-key"@) == Some(
            key,
        ) || (request::text_of(headers, "x-api-key"@) is None && request::text_of(
            headers,
            "authorization"@,
        ) == Some("Bearer "@ + key)),
{
    let bearer = "Bearer "@;
    assert((bearer + key).skip(bearer.len() as int) =~= key);
    assert(bearer.is_prefix_of(bearer + key));
    if let Some(value) = request::text_of(headers, "authorization"@) {
        if bearer.is_prefix_of(value) {
            assert(bearer + value.skip(bearer.len() as int) =~= value);
        }
    }
}

/// A user agent is never empty and has no white space around it; it is the client's, trimmed,
/// where that leaves something.
pub proof fn law_agent_is_named(headers: Seq<(Seq<char>, Seq<u8>)>)
    ensures
        request::agent_of(headers) == match request::text_of(headers, "user-agent"@) {
            Some(value) if text::trimmed(value) != Seq::<char>::empty() => text::trimmed(value),
            _ => "(empty)"@,
        },
{
    if let Some(value) = request::text_of(headers, "user-agent"@) {
        if text::trimmed(value).len() == 0 {
            assert(text::trimmed(value) =~= Seq::<char>::empty());
        }
    }
}

/// An answer is a stream of events where its content type says so, whatever parameters stand
/// around it.
pub proof fn law_event_streams_are_told(headers: Seq<(Seq<char>, Seq<u8>)>)
    ensures
        request::streams_events(headers) <==> (request::text_of(headers, "content-type"@) matches
            Some(value) && exists|i: int| #[trigger]
            text::occurs_at(value, "text/event-stream"@, i)),
{
    if let Some(value) = request::text_of(headers, "content-type"@) {
        text::lemma_find_from(value, "text/event-stream"@, 0);
    }
}

/// The header names a key, or belongs to a connection.
pub open spec fn is_the_clients_own(name: Seq<char>) -> bool {
    name == "x-api-key"@ || name == "authorization"@ || name == "host"@ || name
        == "content-length"@
}

/// The client's headers are handed on one by one, in their order, but for those that name its
/// key or belong to its connection; behind them the server's own key stands, in both forms.
pub proof fn law_headers_are_handed_on(
    headers: Seq<(Seq<char>, Seq<u8>)>,
    header: (Seq<char>, Seq<u8>),
    key: Seq<char>,
)
    ensures
        request::handed_on(Seq::empty()) == Seq::<(Seq<char>, Seq<u8>)>::empty(),
        request::handed_on(headers.push(header)) == if is_the_clients_own(header.0) {
            request::handed_on(headers)
        } else {
            request::handed_on(headers).push(header)
        },
        request::sent_headers(headers, key) == request::handed_on(headers) + seq![
            ("x-api-key"@, vstd::utf8::encode_utf8(key)),
            ("authorization"@, vstd::utf8::encode_utf8("Bearer "@ + key)),
        ],
{
    assert(headers.push(header).drop_last() =~= headers);
    assert(request::sent_headers(headers, key) =~= request::handed_on(headers) + seq![
        ("x-api-key"@, vstd::utf8::encode_utf8(key)),
        ("authorization"@, vstd::utf8::encode_utf8("Bearer "@ + key)),
    ]);
}

/// The log shows the client's headers one by one, a later one in place of an earlier of its
/// name; not those whose value is no text, nor the client's key or connection.
pub proof fn law_headers_are_logged(
    headers: Seq<(Seq<char>, Seq<u8>)>,
    header: (Seq<char>, Seq<u8>),
)
    ensures
        request::logged(Seq::empty()) == Map::<Seq<char>, Tree>::empty(),
        request::logged(headers.push(header)) == match request::value_text(header.1) {
            Some(text) if header.0 != "host"@ && header.0 != "content-length"@ && header.0
                != "x-api-key"@ => request::logged(headers).insert(header.0, Tree::Str(text)),
            _ => request::logged(headers),
        },
{
    assert(headers.push(header).drop_last() =~= headers);
}

/// The log shows the server's key, in both forms, and its custom headers above all.
pub proof fn law_log_shows_the_servers_key(
    headers: Seq<(Seq<char>, Seq<u8>)>,
    key: Seq<char>,
    custom: Option<Tree>,
    name: Seq<char>,
)
    ensures
        Tree::Obj(request::logged_attempt(headers, key, custom)).get(name) == match custom {
            Some(Tree::Obj(m)) if m.dom().contains(name) && m[name] is Str => Some(m[name]),
            _ => if name == "authorization"@ {
                Some(Tree::Str("Bearer "@ + key))
            } else if name == "x-api-key"@ {
                Some(Tree::Str(key))
            } else {
                Tree::Obj(request::logged(headers)).get(name)
            },
        },
{
    reveal_strlit("authorization");
    reveal_strlit("x-api-key");
    assert("authorization"@.len() == 13 && "x-api-key"@.len() == 9);
}

/// A body that is no JSON is sent as it came. Other bodies are shaped for the server, and from
/// the second attempt on, without thinking, whose signatures another account cannot read.
/// Nothing is sent where the request is to get a prompt and is neither an object nor null.
pub proof fn law_body_is_prepared(bytes: Seq<u8>, shape: Shape)
    ensures
        json::parsed(bytes) is Malformed ==> request::body_for(bytes, shape, true) == Some(bytes)
            && request::body_for(bytes, shape, false) == Some(bytes),
        json::parsed(bytes) matches Parsed::Doc(doc) ==> {
            let wants = shape.prompt is Some && (shape.path == "/v1/messages"@ || shape.path
                == "/v1/chat/completions"@ || shape.path == "/v1/responses"@);
            let shaped = body::doc_bytes(body::shaped(doc, shape));
            if wants && !(doc is Obj) && !(doc is Null) {
                request::body_for(bytes, shape, true) is None && request::body_for(
                    bytes,
                    shape,
                    false,
                ) is None
            } else {
                &&& request::body_for(bytes, shape, true) == Some(shaped)
                &&& request::body_for(bytes, shape, false) == match json::parsed(shaped) {
                    Parsed::Doc(again) if body::without_thinking(again) is Some => Some(
                        body::doc_bytes(body::kept_request(BlockRule::Thinking, again)),
                    ),
                    _ => Some(shaped),
                }
            }
        },
{
}

} // verus!
