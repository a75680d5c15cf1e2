//! What is read out of a stream of events.

use vstd::prelude::*;

use crate::json;
use crate::json::{Parsed, Tree};
use crate::text;
use crate::translate::sse;

verus! {

/// What the bytes hold, where they are JSON.
pub open spec fn document_in(payload: Seq<u8>) -> Seq<Tree> {
    match json::parsed(payload) {
        Parsed::Doc(t) => seq![t],
        Parsed::Malformed(_) => Seq::empty(),
    }
}

/// The bytes `data: `.
pub open spec fn data_mark() -> Seq<u8> {
    seq![100u8, 97, 116, 97, 58, 32]
}

proof fn lemma_data_mark()
    ensures
        sse::data_prefix() == data_mark(),
{
    reveal_strlit("data: ");
    let chars = "data: "@;
    assert(chars =~= seq!['d', 'a', 't', 'a', ':', ' ']);
    assert forall|i: int| 0 <= i < chars.len() implies (#[trigger] chars[i] as u32) < 128 by {}
    assert(vstd::utf8::is_ascii_chars(chars));
    vstd::utf8::is_ascii_chars_encode_utf8(chars);
    assert(sse::data_prefix() =~= data_mark());
}

proof fn lemma_first_line(line: Seq<u8>, rest: Seq<u8>)
    requires
        sse::on_one_line(line),
    ensures
        text::find(line + seq![10u8] + rest, seq![10u8]) == Some(line.len() as int),
{
    let s = line + seq![10u8] + rest;
    let feed = seq![10u8];
    text::lemma_find_from(s, feed, 0);
    assert(s.subrange(line.len() as int, (line.len() + 1) as int) =~= feed);
    assert(text::occurs_at(s, feed, line.len() as int));
    assert forall|j: int| 0 <= j < line.len() implies !text::occurs_at(s, feed, j) by {
        assert(s.subrange(j, j + 1)[0] == line[j]);
        assert(line[j] != 10);
    }
}

/// Lines are read one by one. A line of data holds the document behind its mark, and nothing
/// where that is no JSON; it may end with a carriage return. Lines of another kind, comments
/// and names of events among them, hold nothing.
pub proof fn law_lines_are_read_one_by_one(payload: Seq<u8>, line: Seq<u8>, rest: Seq<u8>)
    requires
        sse::on_one_line(payload),
        payload.len() > 0 ==> payload.last() != 13,
        sse::on_one_line(line),
        !data_mark().is_prefix_of(line),
    ensures
        sse::text_documents(data_mark() + payload + seq![10u8] + rest) == document_in(payload)
            + sse::text_documents(rest),
        sse::text_documents(data_mark() + payload + seq![13u8, 10u8] + rest) == document_in(payload)
            + sse::text_documents(rest),
        sse::text_documents(data_mark() + payload) == document_in(payload),
        sse::text_documents(line + seq![10u8] + rest) == sse::text_documents(rest),
{
    lemma_data_mark();
    let full = data_mark() + payload;
    assert(full.skip(data_mark().len() as int) =~= payload);
    assert(data_mark().is_prefix_of(full));
    assert forall|i: int| 0 <= i < full.len() implies #[trigger] full[i] != 10 by {
        if i >= 6 {
            assert(payload[i - 6] != 10);
        }
    }
    assert(full.last() != 13);
    lemma_first_line(full, rest);
    let a = full + seq![10u8] + rest;
    assert(a.take(full.len() as int) =~= full);
    assert(a.skip((full.len() + 1) as int) =~= rest);

    let returned = full.push(13u8);
    assert forall|i: int| 0 <= i < returned.len() implies #[trigger] returned[i] != 10 by {
        if i < full.len() {
            assert(full[i] != 10);
        }
    }
    lemma_first_line(returned, rest);
    let b = full + seq![13u8, 10u8] + rest;
    assert(b =~= returned + seq![10u8] + rest);
    assert(b.take(returned.len() as int) =~= returned);
    assert(b.skip((returned.len() + 1) as int) =~= rest);
    assert(returned.drop_last() =~= full);

    text::lemma_find_from(full, seq![10u8], 0);
    if text::find(full, seq![10u8]) is Some {
        let at = text::find(full, seq![10u8])->0;
        assert(full.subrange(at, at + 1)[0] == full[at]);
    }

    lemma_first_line(line, rest);
    let c = line + seq![10u8] + rest;
    assert(c.take(line.len() as int) =~= line);
    assert(c.skip((line.len() + 1) as int) =~= rest);
    let bare = sse::without_return(line);
    if data_mark().is_prefix_of(bare) {
        assert forall|i: int| 0 <= i < data_mark().len() implies data_mark()[i] == line[i] by {
            assert(bare[i] == line[i]);
        }
        assert(line.subrange(0, data_mark().len() as int) =~= data_mark());
        assert(data_mark().is_prefix_of(line));
    }
    assert(Seq::<Tree>::empty() + sse::text_documents(rest) =~= sse::text_documents(rest));
}

/// Two line feeds.
pub open spec fn two_feeds() -> Seq<u8> {
    seq![10u8, 10u8]
}

/// Two line feeds stand here.
pub open spec fn fed_twice(s: Seq<u8>, i: int) -> bool {
    s[i] == 10 && s[i + 1] == 10
}

/// Nowhere in the bytes does one line feed follow another, and they do not end with one.
pub open spec fn is_one_event(event: Seq<u8>) -> bool {
    &&& event.len() > 0 ==> event.last() != 10
    &&& forall|i: int| 0 <= i < event.len() - 1 ==> !#[trigger] fed_twice(event, i)
}

proof fn lemma_gap_here(s: Seq<u8>, i: int)
    requires
        0 <= i,
        i + 2 <= s.len(),
    ensures
        text::occurs_at(s, two_feeds(), i) <==> fed_twice(s, i),
{
    let two = s.subrange(i, i + 2);
    assert(two[0] == s[i] && two[1] == s[i + 1]);
    if fed_twice(s, i) {
        assert(two =~= two_feeds());
    }
}

proof fn lemma_first_gap(s: Seq<u8>, n: int)
    requires
        0 <= n,
        n + 2 <= s.len(),
        fed_twice(s, n),
        forall|i: int| 0 <= i < n ==> !#[trigger] fed_twice(s, i),
    ensures
        text::find(s, two_feeds()) == Some(n),
{
    text::lemma_find_from(s, two_feeds(), 0);
    lemma_gap_here(s, n);
    assert(text::occurs_at(s, two_feeds(), n));
    match text::find(s, two_feeds()) {
        Some(at) => {
            assert(!(n < at));
            lemma_gap_here(s, at);
            assert(fed_twice(s, at));
        },
        None => {
            assert(false);
        },
    }
}

proof fn lemma_first_event(event: Seq<u8>, rest: Seq<u8>)
    requires
        is_one_event(event),
    ensures
        text::find(event + two_feeds() + rest, two_feeds()) == Some(event.len() as int),
{
    let n = event.len() as int;
    let s = event + two_feeds() + rest;
    assert(s[n] == 10 && s[n + 1] == 10);
    assert(fed_twice(s, n));
    assert forall|i: int| 0 <= i < n implies !#[trigger] fed_twice(s, i) by {
        assert(s[i] == event[i]);
        if i < n - 1 {
            assert(s[i + 1] == event[i + 1]);
            assert(!fed_twice(event, i));
        }
    }
    lemma_first_gap(s, n);
}

proof fn lemma_unfinished_event(event: Seq<u8>)
    requires
        is_one_event(event),
    ensures
        text::find(event, two_feeds()) is None,
{
    text::lemma_find_from(event, two_feeds(), 0);
    if let Some(j) = text::find(event, two_feeds()) {
        lemma_gap_here(event, j);
        assert(fed_twice(event, j));
    }
}

/// Events are read one by one, each when its empty line has come; one that is no valid UTF-8
/// holds nothing, and the others are not touched by it. What follows the last empty line is
/// kept until more comes, and read as an event of its own where nothing more does.
pub proof fn law_events_are_read_one_by_one(event: Seq<u8>, rest: Seq<u8>)
    requires
        is_one_event(event),
    ensures
        sse::documents(event + two_feeds() + rest) == sse::flushed(event) + sse::documents(rest),
        sse::remainder(event + two_feeds() + rest) == sse::remainder(rest),
        sse::documents(event) == Seq::<Tree>::empty(),
        sse::remainder(event) == event,
        vstd::utf8::valid_utf8(event) ==> sse::flushed(event) == sse::text_documents(event),
        !vstd::utf8::valid_utf8(event) ==> sse::flushed(event) == Seq::<Tree>::empty(),
{
    lemma_first_event(event, rest);
    lemma_unfinished_event(event);
    let s = event + two_feeds() + rest;
    let n = event.len() as int;
    assert(sse::gap() =~= two_feeds());
    assert(s.take(n) =~= event);
    assert(s.skip(n + 2) =~= rest);
    let own = sse::event_documents(event);
    assert(Seq::<Tree>::empty() + own =~= own);
}

} // verus!
