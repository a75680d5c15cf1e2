//! Server-sent events: the framing of a byte stream into JSON documents, and of
//! JSON documents into a byte stream.

use vstd::prelude::*;
use vstd::slice::*;

use crate::json;
use crate::json::{Json, Parsed, Tree};
use crate::text;
use crate::text::{append_text, bytes_start_with, is_utf8};

verus! {

/// The empty line that ends an event.
pub open spec fn gap() -> Seq<u8> {
    seq![10u8, 10u8]
}

/// What a line that carries a document starts with.
pub open spec fn data_prefix() -> Seq<u8> {
    vstd::utf8::encode_utf8("data: "@)
}

/// A line without the carriage return before its line feed.
pub open spec fn without_return(line: Seq<u8>) -> Seq<u8> {
    if line.len() > 0 && line.last() == 13 {
        line.drop_last()
    } else {
        line
    }
}

/// The document that a line carries, if any.
pub open spec fn line_documents(line: Seq<u8>) -> Seq<Tree> {
    if data_prefix().is_prefix_of(line) {
        match json::parsed(line.skip(data_prefix().len() as int)) {
            Parsed::Doc(t) => seq![t],
            Parsed::Malformed(_) => Seq::empty(),
        }
    } else {
        Seq::empty()
    }
}

/// The documents that the lines of a text carry.
pub open spec fn text_documents(s: Seq<u8>) -> Seq<Tree>
    decreases s.len(),
{
    match text::find(s, seq![10u8]) {
        Some(i) => if 0 <= i < s.len() {
            line_documents(without_return(s.take(i))) + text_documents(s.skip(i + 1))
        } else {
            Seq::empty()
        },
        None => line_documents(s),
    }
}

/// The documents that an event carries; none where it is not valid UTF-8.
pub open spec fn event_documents(event: Seq<u8>) -> Seq<Tree> {
    if vstd::utf8::valid_utf8(event) {
        text_documents(event)
    } else {
        Seq::empty()
    }
}

/// The documents that the complete events at the start of a buffer carry.
pub open spec fn documents(buffer: Seq<u8>) -> Seq<Tree>
    decreases buffer.len(),
{
    match text::find(buffer, gap()) {
        Some(i) => if 0 <= i && i + 2 <= buffer.len() {
            event_documents(buffer.take(i)) + documents(buffer.skip(i + 2))
        } else {
            Seq::empty()
        },
        None => Seq::empty(),
    }
}

/// What follows the complete events of a buffer.
pub open spec fn remainder(buffer: Seq<u8>) -> Seq<u8>
    decreases buffer.len(),
{
    match text::find(buffer, gap()) {
        Some(i) => if 0 <= i && i + 2 <= buffer.len() {
            remainder(buffer.skip(i + 2))
        } else {
            buffer
        },
        None => buffer,
    }
}

/// The documents of a buffer at the end of a stream: those of its complete events, and those
/// of a last event that lacks its empty line.
pub open spec fn flushed(buffer: Seq<u8>) -> Seq<Tree> {
    documents(buffer) + event_documents(remainder(buffer))
}

/// An empty buffer holds nothing to flush.
pub proof fn lemma_nothing_to_flush()
    ensures
        flushed(Seq::empty()).len() == 0,
{
    let none = Seq::<u8>::empty();
    text::lemma_find_from(none, gap(), 0);
    text::lemma_find_from(none, seq![10u8], 0);
    reveal_strlit("data: ");
    assert("data: "@.len() == 6);
    assert(data_prefix().len() > 0);
    assert(event_documents(none).len() == 0);
}

/// Where a text ends is no matter to what is found in it.
proof fn lemma_find_extends(a: Seq<u8>, b: Seq<u8>, pat: Seq<u8>)
    requires
        text::find(a, pat) is Some,
    ensures
        text::find(a + b, pat) == text::find(a, pat),
{
    let i = text::find(a, pat)->0;
    text::lemma_find_from(a, pat, 0);
    text::lemma_find_from(a + b, pat, 0);
    assert((a + b).subrange(i, i + pat.len()) =~= a.subrange(i, i + pat.len()));
    assert(text::occurs_at(a + b, pat, i));
    let j = text::find(a + b, pat)->0;
    if j < i {
        assert((a + b).subrange(j, j + pat.len()) =~= a.subrange(j, j + pat.len()));
        assert(text::occurs_at(a, pat, j));
    }
}

/// Chunk boundaries are no matter: what a buffer leaves over, with the next chunk
/// behind it, holds the documents that follow.
pub proof fn lemma_documents_concat(a: Seq<u8>, b: Seq<u8>)
    ensures
        documents(a + b) == documents(a) + documents(remainder(a) + b),
        remainder(a + b) == remainder(remainder(a) + b),
    decreases a.len(),
{
    text::lemma_find_from(a, gap(), 0);
    match text::find(a, gap()) {
        Some(i) => {
            lemma_find_extends(a, b, gap());
            assert((a + b).take(i) =~= a.take(i));
            assert((a + b).skip(i + 2) =~= a.skip(i + 2) + b);
            lemma_documents_concat(a.skip(i + 2), b);
            assert(documents(a + b) =~= documents(a) + documents(remainder(a) + b));
        },
        None => {
            assert(documents(a + b) =~= documents(a) + documents(remainder(a) + b));
        },
    }
}

/// The byte offset of the first `\n\n` at or after `from`.
pub fn find_double_newline(buf: &Vec<u8>, from: usize) -> (r: Option<usize>)
    requires
        from <= buf@.len(),
    ensures
        match r {
            Some(i) => from <= i && i + 2 <= buf@.len() && text::find(
                buf@.skip(from as int),
                gap(),
            ) == Some(i - from),
            None => text::find(buf@.skip(from as int), gap()) is None,
        },
{
    let ghost rest = buf@.skip(from as int);
    proof {
        text::lemma_find_from(rest, gap(), 0);
    }
    if buf.len() < 2 {
        return None;
    }
    let end: usize = buf.len() - 1;
    let mut i: usize = from;
    while i < end
        invariant
            from <= i,
            end == buf@.len() - 1,
            rest == buf@.skip(from as int),
            forall|j: int| 0 <= j < i - from ==> !text::occurs_at(rest, gap(), j),
            match text::find(rest, gap()) {
                Some(at) => 0 <= at && text::occurs_at(rest, gap(), at) && forall|j: int|
                    0 <= j < at ==> !text::occurs_at(rest, gap(), j),
                None => forall|j: int| 0 <= j ==> !text::occurs_at(rest, gap(), j),
            },
        decreases end - i,
    {
        if buf[i] == 10 && buf[i + 1] == 10 {
            assert(rest.subrange(i - from, i - from + 2) =~= gap());
            assert(text::occurs_at(rest, gap(), i - from));
            return Some(i);
        }
        assert(!text::occurs_at(rest, gap(), i - from)) by {
            if text::occurs_at(rest, gap(), i - from) {
                let found = rest.subrange(i - from, i - from + 2);
                assert(found[0] == buf@[i as int]);
                assert(found[1] == buf@[i + 1]);
            }
        }
        i = i + 1;
    }
    None
}

/// Adds the document that a line carries, if any.
fn push_line_documents(line: &[u8], docs: &mut Vec<Json>)
    ensures
        json::values_view(final(docs)@) == json::values_view(old(docs)@) + line_documents(line@),
{
    let prefix = "data: ".as_bytes();
    let ghost before = docs@;
    if bytes_start_with(line, prefix) {
        let payload = slice_subrange(line, prefix.len(), line.len());
        assert(payload@ =~= line@.skip(data_prefix().len() as int));
        match Json::from_slice(payload) {
            Ok(doc) => {
                docs.push(doc);
                assert(json::values_view(docs@) =~= json::values_view(before) + seq![doc@]);
            },
            Err(_) => {
                assert(json::values_view(docs@) =~= json::values_view(before)
                    + Seq::<Tree>::empty());
            },
        }
    } else {
        assert(json::values_view(docs@) =~= json::values_view(before) + Seq::<Tree>::empty());
    }
}

/// The byte offset of the first line feed at or after `from`.
fn find_newline(s: &[u8], from: usize) -> (r: Option<usize>)
    requires
        from <= s@.len(),
    ensures
        match r {
            Some(i) => from <= i < s@.len() && text::find(s@.skip(from as int), seq![10u8]) == Some(
                i - from,
            ),
            None => text::find(s@.skip(from as int), seq![10u8]) is None,
        },
{
    let ghost rest = s@.skip(from as int);
    proof {
        text::lemma_find_from(rest, seq![10u8], 0);
    }
    let mut i: usize = from;
    while i < s.len()
        invariant
            from <= i <= s@.len(),
            rest == s@.skip(from as int),
            forall|j: int| 0 <= j < i - from ==> !text::occurs_at(rest, seq![10u8], j),
            match text::find(rest, seq![10u8]) {
                Some(at) => 0 <= at && text::occurs_at(rest, seq![10u8], at) && forall|j: int|
                    0 <= j < at ==> !text::occurs_at(rest, seq![10u8], j),
                None => forall|j: int| 0 <= j ==> !text::occurs_at(rest, seq![10u8], j),
            },
        decreases s.len() - i,
    {
        if s[i] == 10 {
            assert(rest.subrange(i - from, i - from + 1) =~= seq![10u8]);
            assert(text::occurs_at(rest, seq![10u8], i - from));
            return Some(i);
        }
        assert(!text::occurs_at(rest, seq![10u8], i - from)) by {
            if text::occurs_at(rest, seq![10u8], i - from) {
                assert(rest.subrange(i - from, i - from + 1)[0] == s@[i as int]);
            }
        }
        i = i + 1;
    }
    None
}

/// Adds the documents that an event carries.
fn push_event_documents(event: &[u8], docs: &mut Vec<Json>)
    ensures
        json::values_view(final(docs)@) == json::values_view(old(docs)@) + event_documents(event@),
{
    let ghost before = json::values_view(docs@);
    if !is_utf8(event) {
        assert(before =~= before + Seq::<Tree>::empty());
        return;
    }
    let mut from: usize = 0;
    let len: usize = event.len();
    assert(event@.skip(0) =~= event@);
    loop
        invariant_except_break
            len == event@.len(),
            from <= event@.len(),
            json::values_view(docs@) + text_documents(event@.skip(from as int)) == before
                + text_documents(event@),
        ensures
            json::values_view(docs@) == before + text_documents(event@),
        decreases event@.len() - from,
    {
        let ghost so_far = json::values_view(docs@);
        let ghost rest = event@.skip(from as int);
        match find_newline(event, from) {
            Some(i) => {
                let end: usize = if i > from && event[i - 1] == 13 {
                    i - 1
                } else {
                    i
                };
                let line = slice_subrange(event, from, end);
                assert(line@ =~= without_return(rest.take(i - from)));
                push_line_documents(line, docs);
                assert(rest.skip(i - from + 1) =~= event@.skip(i + 1));
                assert(so_far + (line_documents(line@) + text_documents(event@.skip(i + 1))) =~= (
                so_far + line_documents(line@)) + text_documents(event@.skip(i + 1)));
                from = i + 1;
            },
            None => {
                let line = slice_subrange(event, from, len);
                assert(line@ =~= rest);
                push_line_documents(line, docs);
                break;
            },
        }
    }
}

/// Takes the complete events out of a buffer: the documents that they carry, in
/// order. What follows them stays in the buffer.
pub fn take_documents(buffer: &mut Vec<u8>) -> (docs: Vec<Json>)
    ensures
        json::values_view(docs@) == documents(old(buffer)@),
        final(buffer)@ == remainder(old(buffer)@),
{
    let mut docs: Vec<Json> = Vec::new();
    let mut from: usize = 0;
    let len: usize = buffer.len();
    assert(buffer@.skip(0) =~= buffer@);
    assert(json::values_view(docs@) + documents(buffer@) =~= documents(buffer@));
    loop
        invariant
            len == buffer@.len(),
            buffer@ == old(buffer)@,
            from <= buffer@.len(),
            json::values_view(docs@) + documents(buffer@.skip(from as int)) == documents(buffer@),
            remainder(buffer@.skip(from as int)) == remainder(buffer@),
        ensures
            from <= buffer@.len(),
            buffer@ == old(buffer)@,
            json::values_view(docs@) == documents(buffer@),
            buffer@.skip(from as int) == remainder(buffer@),
        decreases buffer@.len() - from,
    {
        let ghost so_far = json::values_view(docs@);
        let ghost rest = buffer@.skip(from as int);
        match find_double_newline(buffer, from) {
            Some(i) => {
                let event = slice_subrange(buffer.as_slice(), from, i);
                assert(event@ =~= rest.take(i - from));
                push_event_documents(event, &mut docs);
                assert(rest.skip(i - from + 2) =~= buffer@.skip(i + 2));
                assert(so_far + (event_documents(event@) + documents(buffer@.skip(i + 2))) =~= (
                so_far + event_documents(event@)) + documents(buffer@.skip(i + 2)));
                from = i + 2;
            },
            None => {
                assert(so_far + Seq::<Tree>::empty() =~= so_far);
                break;
            },
        }
    }
    let rest = buffer.split_off(from);
    *buffer = rest;
    assert(buffer@ =~= remainder(old(buffer)@));
    docs
}

/// Takes all events out of a buffer, a last one without its empty line among them: the
/// documents that they carry, in order.
pub fn flush_documents(buffer: Vec<u8>) -> (docs: Vec<Json>)
    ensures
        json::values_view(docs@) == flushed(buffer@),
{
    let mut rest = buffer;
    let mut docs = take_documents(&mut rest);
    push_event_documents(rest.as_slice(), &mut docs);
    docs
}

/// The event that carries a document.
pub open spec fn data_event(t: Tree) -> Seq<u8> {
    data_prefix() + vstd::utf8::encode_utf8(json::json_text(t)) + vstd::utf8::encode_utf8(
        "\n\n"@,
    )
}

/// No line ends in these bytes.
pub open spec fn on_one_line(bytes: Seq<u8>) -> bool {
    forall|i: int| 0 <= i < bytes.len() ==> #[trigger] bytes[i] != 10
}

/// The bytes are one event and no more: a line of data, and the empty line behind it.
pub open spec fn is_frame(bytes: Seq<u8>) -> bool {
    &&& bytes.len() >= 2
    &&& data_prefix().is_prefix_of(bytes)
    &&& on_one_line(bytes.take(bytes.len() - 2))
    &&& bytes.skip(bytes.len() - 2) == gap()
}

/// The line of a frame.
pub open spec fn line_of(frame: Seq<u8>) -> Seq<u8> {
    frame.take(frame.len() - 2)
}

/// A scalar other than a line feed is written without a line feed.
proof fn lemma_scalar_on_one_line(c: u32)
    requires
        c != 10,
    ensures
        on_one_line(vstd::utf8::encode_scalar(c)),
{
    if vstd::utf8::has_width_1_encoding(c) {
        assert((c & 0x7F) as u8 != 10) by (bit_vector)
            requires
                c <= 0x7F,
                c != 10,
        ;
    } else {
        assert(0xC0u8 | ((c >> 6) & 0x1F) as u8 != 10) by (bit_vector);
        assert(0xE0u8 | ((c >> 12) & 0x0F) as u8 != 10) by (bit_vector);
        assert(0xF0u8 | ((c >> 18) & 0x7) as u8 != 10) by (bit_vector);
        assert(0x80u8 | (c & 0x3F) as u8 != 10) by (bit_vector);
        assert(0x80u8 | ((c >> 6) & 0x3F) as u8 != 10) by (bit_vector);
        assert(0x80u8 | ((c >> 12) & 0x3F) as u8 != 10) by (bit_vector);
    }
}

proof fn lemma_char_on_one_line(c: char)
    requires
        c != '\n',
    ensures
        on_one_line(vstd::utf8::encode_scalar(c as u32)),
{
    lemma_scalar_on_one_line(c as u32);
}

/// A text without a line feed is written without one.
proof fn lemma_text_on_one_line(s: Seq<char>)
    requires
        forall|i: int| 0 <= i < s.len() ==> #[trigger] s[i] != '\n',
    ensures
        on_one_line(vstd::utf8::encode_utf8(s)),
    decreases s.len(),
{
    if s.len() > 0 {
        assert(s[0] != '\n');
        lemma_char_on_one_line(s[0]);
        let rest = s.drop_first();
        assert forall|i: int| 0 <= i < rest.len() implies #[trigger] rest[i] != '\n' by {
            assert(rest[i] == s[i + 1]);
        }
        lemma_text_on_one_line(rest);
    }
}

/// A line of data with the empty line behind it is a frame.
pub proof fn lemma_frame(text: Seq<char>)
    requires
        forall|i: int| 0 <= i < text.len() ==> #[trigger] text[i] != '\n',
    ensures
        is_frame(
            data_prefix() + vstd::utf8::encode_utf8(text) + vstd::utf8::encode_utf8("\n\n"@),
        ),
{
    reveal_strlit("data: ");
    reveal_strlit("\n\n");
    lemma_text_on_one_line("data: "@);
    lemma_text_on_one_line(text);
    vstd::utf8::is_ascii_chars_encode_utf8("\n\n"@);
    assert(vstd::utf8::encode_utf8("\n\n"@) =~= gap());
    let line = data_prefix() + vstd::utf8::encode_utf8(text);
    let frame = line + gap();
    assert(frame.take(frame.len() - 2) =~= line);
    assert(frame.skip(frame.len() - 2) =~= gap());
}

/// Adds the event that carries a document.
pub fn push_data_event(doc: &Json, out: &mut Vec<u8>)
    ensures
        final(out)@ == old(out)@ + data_event(doc@),
        is_frame(data_event(doc@)),
{
    let text = doc.to_text();
    proof {
        lemma_frame(text@);
    }
    append_text(out, "data: ");
    append_text(out, text.as_str());
    append_text(out, "\n\n");
    assert(out@ =~= old(out)@ + data_event(doc@));
}

/// Parts, joined.
pub open spec fn joined(parts: Seq<Seq<u8>>) -> Seq<u8>
    decreases parts.len(),
{
    if parts.len() == 0 {
        Seq::empty()
    } else {
        joined(parts.drop_last()) + parts.last()
    }
}

/// Each of these is a frame.
pub open spec fn all_frames(frames: Seq<Seq<u8>>) -> bool {
    forall|i: int| 0 <= i < frames.len() ==> is_frame(#[trigger] frames[i])
}

/// The bytes are frames and nothing else.
pub open spec fn is_framed(bytes: Seq<u8>) -> bool {
    exists|frames: Seq<Seq<u8>>| #[trigger] joined(frames) == bytes && all_frames(frames)
}

/// The complete events at the start of a buffer, each without the empty line behind it.
pub open spec fn events_in(buffer: Seq<u8>) -> Seq<Seq<u8>>
    decreases buffer.len(),
{
    match text::find(buffer, gap()) {
        Some(i) => if 0 <= i && i + 2 <= buffer.len() {
            seq![buffer.take(i)] + events_in(buffer.skip(i + 2))
        } else {
            Seq::empty()
        },
        None => Seq::empty(),
    }
}

/// What a buffer leaves over, with the next chunk behind it, holds the events that follow.
proof fn lemma_events_in_concat(a: Seq<u8>, b: Seq<u8>)
    ensures
        events_in(a + b) == events_in(a) + events_in(remainder(a) + b),
    decreases a.len(),
{
    text::lemma_find_from(a, gap(), 0);
    match text::find(a, gap()) {
        Some(i) => {
            lemma_find_extends(a, b, gap());
            assert((a + b).take(i) =~= a.take(i));
            assert((a + b).skip(i + 2) =~= a.skip(i + 2) + b);
            lemma_events_in_concat(a.skip(i + 2), b);
        },
        None => {},
    }
    assert(events_in(a + b) =~= events_in(a) + events_in(remainder(a) + b));
}

/// A frame is read as one event.
proof fn lemma_one_frame_is_one_event(frame: Seq<u8>)
    requires
        is_frame(frame),
    ensures
        events_in(frame) == seq![line_of(frame)],
        remainder(frame).len() == 0,
{
    let n = frame.len() - 2;
    text::lemma_find_from(frame, gap(), 0);
    assert(frame.subrange(n, n + 2) =~= frame.skip(n));
    assert(text::occurs_at(frame, gap(), n));
    assert forall|j: int| 0 <= j < n implies !text::occurs_at(frame, gap(), j) by {
        assert(frame.take(n)[j] != 10);
        if text::occurs_at(frame, gap(), j) {
            assert(frame.subrange(j, j + 2)[0] == 10);
        }
    }
    assert(text::find(frame, gap()) == Some(n));
    let none = frame.skip(n + 2);
    assert(none =~= Seq::empty());
    text::lemma_find_from(none, gap(), 0);
    assert(events_in(none) =~= Seq::empty());
    assert(remainder(none) == none);
    assert(remainder(frame) == remainder(none));
    assert(seq![line_of(frame)] + events_in(none) =~= seq![line_of(frame)]);
}

/// A client that reads frames off a stream finds as many events as there are frames, each with
/// its line, and nothing is left over.
pub proof fn law_frames_are_events(frames: Seq<Seq<u8>>)
    requires
        all_frames(frames),
    ensures
        events_in(joined(frames)) == frames.map_values(|frame: Seq<u8>| line_of(frame)),
        remainder(joined(frames)).len() == 0,
    decreases frames.len(),
{
    let lines = frames.map_values(|frame: Seq<u8>| line_of(frame));
    if frames.len() > 0 {
        let fewer = frames.drop_last();
        assert forall|i: int| 0 <= i < fewer.len() implies is_frame(#[trigger] fewer[i]) by {
            assert(fewer[i] == frames[i]);
        }
        law_frames_are_events(fewer);
        let last = frames.last();
        assert(is_frame(frames[frames.len() - 1]));
        lemma_one_frame_is_one_event(last);
        lemma_events_in_concat(joined(fewer), last);
        lemma_documents_concat(joined(fewer), last);
        assert(remainder(joined(fewer)) + last =~= last);
        assert(lines =~= fewer.map_values(|frame: Seq<u8>| line_of(frame)).push(line_of(last)));
    } else {
        text::lemma_find_from(Seq::<u8>::empty(), gap(), 0);
        assert(events_in(joined(frames)) =~= lines);
    }
}

} // verus!
