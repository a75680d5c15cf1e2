//! What holds of a request and its answer at the border between two protocols.

use vstd::prelude::*;

use crate::ids;
use crate::json;
use crate::json::{Parsed, Tree};
use crate::proxy::body;
use crate::proxy::seam;
use crate::proxy::seam::Passage;
use crate::text;
use crate::translate;
use crate::translate::chat;
use crate::translate::chat_sse_event_laws as events;
use crate::translate::keys;
use crate::translate::responses;
use crate::translate::steps::Outcome;
use crate::translate::{ClientProtocol, Context};

verus! {

/// Two paths are those of other protocols, and no other path is.
pub proof fn law_paths_tell_the_protocol(path: Seq<char>)
    ensures
        translate::protocol_of_path(path) == ClientProtocol::ChatCompletions <==> path
            == "/v1/chat/completions"@,
        translate::protocol_of_path(path) == ClientProtocol::Responses <==> path
            == "/v1/responses"@,
{
    reveal_strlit("/v1/chat/completions");
    reveal_strlit("/v1/responses");
    assert("/v1/chat/completions"@.len() == 20 && "/v1/responses"@.len() == 13);
}

/// In every protocol an error says its type and its message, under the same names; each
/// protocol has its own marks around them.
pub proof fn law_errors_say_what_they_are(
    protocol: ClientProtocol,
    error_type: Seq<char>,
    message: Seq<char>,
)
    ensures
        ({
            let body = translate::envelope(protocol, error_type, message);
            &&& events::inner(body, "error"@, "type"@) == Some(Tree::Str(error_type))
            &&& events::inner(body, "error"@, "message"@) == Some(Tree::Str(message))
            &&& translate::error_detail(body, "type"@) == Some(error_type)
            &&& translate::error_detail(body, "message"@) == Some(message)
            &&& body.get("type"@) == if protocol == ClientProtocol::Anthropic {
                Some(Tree::Str("error"@))
            } else {
                None
            }
            &&& body.get("object"@) == if protocol == ClientProtocol::Responses {
                Some(Tree::Str("error"@))
            } else {
                None
            }
            &&& protocol != ClientProtocol::Anthropic ==> events::inner(body, "error"@, "param"@) == Some(
                Tree::Null,
            ) && events::inner(body, "error"@, "code"@) == Some(Tree::Null)
            &&& protocol == ClientProtocol::Anthropic ==> events::inner(body, "error"@, "param"@) is None
                && events::inner(body, "error"@, "code"@) is None
        }),
{
    keys::lemma_words();
}

/// The type and the message of an upstream error are those under its `error`. A body that says
/// no message is shown as it is, trimmed, and one without a type is called an `api_error`.
pub proof fn law_upstream_errors_are_read(upstream: Seq<u8>)
    ensures
        json::parsed(upstream) matches Parsed::Doc(doc) ==> (events::inner(
            doc,
            "error"@,
            "message"@,
        ) matches Some(Tree::Str(s)) ==> translate::upstream_error_message(upstream) == s) && (
        events::inner(doc, "error"@, "type"@) matches Some(Tree::Str(s)) ==> translate::upstream_error_type(
            upstream,
        ) == s),
        !(json::parsed(upstream) matches Parsed::Doc(doc) && events::inner(
            doc,
            "error"@,
            "message"@,
        ) matches Some(Tree::Str(s))) ==> translate::upstream_error_message(upstream)
            == text::trimmed(text::lossy_text(upstream)),
        !(json::parsed(upstream) matches Parsed::Doc(doc) && events::inner(
            doc,
            "error"@,
            "type"@,
        ) matches Some(Tree::Str(s))) ==> translate::upstream_error_type(upstream)
            == "api_error"@,
{
}

/// The arguments of a call that are the text of an object are that object; everything else,
/// blank text among it, stands for no arguments.
pub proof fn law_arguments_are_read(raw: Seq<char>, other: Option<Tree>)
    ensures
        text::trimmed(raw).len() > 0 ==> (json::parsed(vstd::utf8::encode_utf8(raw)) matches
            Parsed::Doc(Tree::Obj(m)) ==> translate::input_of_arguments(Some(Tree::Str(raw)))
            == Tree::Obj(m)),
        text::trimmed(raw).len() == 0 || !(json::parsed(vstd::utf8::encode_utf8(raw)) matches
            Parsed::Doc(Tree::Obj(m))) ==> translate::input_of_arguments(Some(Tree::Str(raw)))
            == Tree::Obj(Map::<Seq<char>, Tree>::empty()),
        !(other matches Some(Tree::Str(s))) ==> translate::input_of_arguments(other) == Tree::Obj(
            Map::<Seq<char>, Tree>::empty(),
        ),
{
}

/// The input of a call is written as the text of its object, and as `{}` where it holds
/// nothing.
pub proof fn law_arguments_are_written(input: Option<Tree>)
    ensures
        input matches Some(Tree::Obj(m)) && m != Map::<Seq<char>, Tree>::empty()
            ==> translate::arguments_of_input(input) == json::json_text(input->0),
        !(input matches Some(Tree::Obj(m)) && m != Map::<Seq<char>, Tree>::empty())
            ==> translate::arguments_of_input(input) == "{}"@,
        input is Some && input->0 is Obj ==> translate::input_object(input) == input->0,
        !(input is Some && input->0 is Obj) ==> translate::input_object(input) == Tree::Obj(
            Map::<Seq<char>, Tree>::empty(),
        ),
{
    if let Some(Tree::Obj(m)) = input {
        if m =~= Map::<Seq<char>, Tree>::empty() {
            assert(m == Map::<Seq<char>, Tree>::empty());
        }
    }
}

/// What the answer will need is remembered as the client gave it: its protocol, its model, and
/// whether it asked for a report of usage, which only a literal `true` does.
pub proof fn law_the_clients_wishes_are_kept(
    protocol: ClientProtocol,
    src: Tree,
    tool: Option<Seq<char>>,
)
    ensures
        ({
            let context = translate::context_of(protocol, src, tool);
            &&& context.protocol == protocol
            &&& context.json_schema_tool == tool
            &&& context.include_usage <==> events::inner(src, "stream_options"@, "include_usage"@) == Some(
                Tree::Bool(true),
            )
            &&& match src.get("model"@) {
                Some(Tree::Str(model)) => context.client_model == Some(model),
                _ => context.client_model is None,
            }
        }),
{
}

/// A request of the relay's own protocol is not touched; one of another is put into it by that
/// protocol's rules, and a refusal is passed on in its own words.
pub proof fn law_each_protocol_has_its_rules(src: Tree)
    ensures
        translate::translated(ClientProtocol::Anthropic, src) == Outcome::Done(
            (src, None::<Seq<char>>),
        ),
        translate::translated(ClientProtocol::ChatCompletions, src) == chat::request(src),
        match responses::request(src) {
            Outcome::Done(out) => translate::translated(ClientProtocol::Responses, src)
                == Outcome::Done((out, None::<Seq<char>>)),
            Outcome::Refused(m) => translate::translated(ClientProtocol::Responses, src)
                == Outcome::<(Tree, Option<Seq<char>>)>::Refused(m),
        },
{
}

/// Only the answers to other protocols are touched, and a stream of events is put into the
/// client's protocol as it comes, but not one that comes with an error.
pub proof fn law_answers_pass_as_they_are(
    protocol: ClientProtocol,
    status: u16,
    event_stream: bool,
)
    ensures
        seam::passage(protocol, status, event_stream) == Passage::Untouched <==> protocol
            == ClientProtocol::Anthropic,
        seam::passage(protocol, status, event_stream) == Passage::Stream <==> protocol
            != ClientProtocol::Anthropic && event_stream && 200 <= status <= 299,
        seam::succeeds(status) <==> status / 100 == 2,
{
}

/// A successful answer that is JSON is told in the client's protocol, under the model that the
/// client asked for; one that is not is passed on as it is.
pub proof fn law_successes_are_told_in_the_clients_protocol(
    context: Context,
    status: u16,
    upstream: Seq<u8>,
    bytes: Option<Seq<u8>>,
)
    requires
        seam::reshapes(context, status, upstream, bytes),
        200 <= status < 300,
        context.protocol != ClientProtocol::Anthropic,
    ensures
        json::parsed(upstream) is Malformed ==> bytes is None,
        context.protocol == ClientProtocol::ChatCompletions ==> (json::parsed(upstream) matches
            Parsed::Doc(message) ==> bytes == Some(
            body::doc_bytes(
                chat::response(message, context.json_schema_tool, context.client_model),
            ),
        )),
        context.protocol == ClientProtocol::Responses ==> (json::parsed(upstream) matches
            Parsed::Doc(message) ==> exists|ids: Seq<Seq<char>>| #[trigger]
            ids::are_random_ids(ids) && bytes == Some(
                body::doc_bytes(responses::response(message, context.client_model, ids)),
            )),
{
}

/// An error is told in the envelope of the client's protocol, with the type and the message
/// that the server gave.
pub proof fn law_errors_are_told_in_the_clients_protocol(
    context: Context,
    status: u16,
    upstream: Seq<u8>,
    bytes: Option<Seq<u8>>,
)
    requires
        seam::reshapes(context, status, upstream, bytes),
        status < 200 || status >= 300,
        context.protocol != ClientProtocol::Anthropic,
    ensures
        exists|told: Tree|
            bytes == Some(#[trigger] body::doc_bytes(told)) && events::inner(told, "error"@, "message"@)
                == Some(Tree::Str(translate::upstream_error_message(upstream))) && events::inner(
                told,
                "error"@,
                "type"@,
            ) == Some(Tree::Str(translate::upstream_error_type(upstream))) && (told.get("object"@)
                is Some <==> context.protocol == ClientProtocol::Responses),
{
    let told = translate::envelope(
        context.protocol,
        translate::upstream_error_type(upstream),
        translate::upstream_error_message(upstream),
    );
    law_errors_say_what_they_are(
        context.protocol,
        translate::upstream_error_type(upstream),
        translate::upstream_error_message(upstream),
    );
    assert(bytes == Some(body::doc_bytes(told)));
}

/// Headers are left out one by one, by their name, and the others keep their order.
pub proof fn law_headers_are_left_out_by_name(
    headers: Seq<(Seq<char>, Seq<u8>)>,
    header: (Seq<char>, Seq<u8>),
    name: Seq<char>,
)
    ensures
        seam::without_header(Seq::empty(), name) == Seq::<(Seq<char>, Seq<u8>)>::empty(),
        seam::without_header(headers.push(header), name) == if header.0 == name {
            seam::without_header(headers, name)
        } else {
            seam::without_header(headers, name).push(header)
        },
{
    assert(headers.push(header).drop_last() =~= headers);
}

proof fn lemma_header_is_gone(headers: Seq<(Seq<char>, Seq<u8>)>, name: Seq<char>, other: Seq<char>)
    ensures
        forall|i: int|
            0 <= i < seam::without_header(headers, name).len() ==> (
            #[trigger] seam::without_header(headers, name)[i]).0 != name,
        (forall|i: int| 0 <= i < headers.len() ==> (#[trigger] headers[i]).0 != other) ==> (forall|
            i: int,
        |
            0 <= i < seam::without_header(headers, name).len() ==> (
            #[trigger] seam::without_header(headers, name)[i]).0 != other),
    decreases headers.len(),
{
    if headers.len() > 0 {
        let rest = headers.drop_last();
        lemma_header_is_gone(rest, name, other);
        assert(headers.last() == headers[headers.len() - 1]);
        if forall|i: int| 0 <= i < headers.len() ==> (#[trigger] headers[i]).0 != other {
            assert forall|i: int| 0 <= i < rest.len() implies (#[trigger] rest[i]).0 != other by {
                assert(headers[i].0 != other);
            }
            assert(headers[headers.len() - 1].0 != other);
        }
        let before = seam::without_header(rest, name);
        let after = seam::without_header(headers, name);
        assert forall|i: int| 0 <= i < after.len() implies (#[trigger] after[i]).0 != name by {
            if i < before.len() {
                assert(after[i] == before[i]);
            }
        }
        if forall|i: int| 0 <= i < headers.len() ==> (#[trigger] headers[i]).0 != other {
            assert forall|i: int| 0 <= i < after.len() implies (#[trigger] after[i]).0 != other by {
                if i < before.len() {
                    assert(after[i] == before[i]);
                }
            }
        }
    }
}

/// A reshaped answer never says the length of the body that it had. A new body says that it
/// is JSON, once; where the body is kept, so is what it says of its type.
pub proof fn law_headers_fit_the_new_body(headers: Seq<(Seq<char>, Seq<u8>)>, new_body: bool)
    ensures
        ({
            let after = seam::reshaped_headers(headers, new_body);
            let json = ("content-type"@, vstd::utf8::encode_utf8("application/json"@));
            &&& forall|i: int|
                0 <= i < after.len() ==> (#[trigger] after[i]).0 != "content-length"@
            &&& new_body ==> after.len() > 0 && after.last() == json
            &&& new_body ==> forall|i: int|
                0 <= i < after.len() - 1 ==> (#[trigger] after[i]).0 != "content-type"@
            &&& !new_body ==> after == seam::without_header(headers, "content-length"@)
        }),
{
    reveal_strlit("content-length");
    reveal_strlit("content-type");
    assert("content-length"@.len() == 14 && "content-type"@.len() == 12);
    let kept = seam::without_header(headers, "content-length"@);
    lemma_header_is_gone(headers, "content-length"@, "content-type"@);
    lemma_header_is_gone(kept, "content-type"@, "content-length"@);
    let after = seam::reshaped_headers(headers, new_body);
    if new_body {
        let bare = seam::without_header(kept, "content-type"@);
        assert forall|i: int| 0 <= i < after.len() implies (#[trigger] after[i]).0
            != "content-length"@ by {
            if i < bare.len() {
                assert(after[i] == bare[i]);
            }
        }
        assert forall|i: int| 0 <= i < after.len() - 1 implies (#[trigger] after[i]).0
            != "content-type"@ by {
            assert(after[i] == bare[i]);
        }
    }
}

} // verus!
