//! The custom headers of a server.

use vstd::prelude::*;

use crate::json;
use crate::json::{Json, Object, Tree};
use crate::text;
use crate::text::{is_before, str_eq};

verus! {

/// The members that are strings.
pub open spec fn text_members(m: Map<Seq<char>, Tree>) -> Map<Seq<char>, Tree> {
    Map::new(|k: Seq<char>| m.dom().contains(k) && m[k] is Str, |k: Seq<char>| m[k])
}

/// The members of the custom headers that are strings.
pub open spec fn custom_texts(custom: Option<Tree>) -> Map<Seq<char>, Tree> {
    match custom {
        Some(Tree::Obj(m)) => text_members(m),
        _ => Map::empty(),
    }
}

/// Merges custom headers into the map of logged headers, so that the log reflects what was
/// actually sent upstream: custom headers override existing entries.
pub fn merge_custom_headers_into_log(log_headers: &mut Object, custom_headers: Option<&Json>)
    ensures
        final(log_headers)@ == old(log_headers)@.union_prefer_right(
            custom_texts(json::view_opt(custom_headers)),
        ),
{
    match custom_headers {
        Some(Json::Object(o)) => {
            let members = o.members();
            let ghost start = log_headers@;
            let ghost mut done: Map<Seq<char>, Tree> = Map::empty();
            assert(start.union_prefer_right(done) =~= start);
            assert(done =~= text_members(json::entries_view(members@.take(0))));
            for i in 0..members.len()
                invariant
                    json::distinct_keys(members@),
                    log_headers@ == start.union_prefer_right(done),
                    done == text_members(json::entries_view(members@.take(i as int))),
            {
                let ghost part = members@.take(i as int);
                let ghost more = members@.take(i + 1);
                assert(more.drop_last() =~= part);
                proof {
                    assert(json::distinct_keys(part));
                    json::lemma_entries_view_dom(part, members@[i as int].0@);
                    if json::entries_view(part).dom().contains(members@[i as int].0@) {
                        let j = choose|j: int|
                            0 <= j < part.len() && (#[trigger] part[j]).0@ == members@[i as int].0@;
                        assert(members@[j].0@ == members@[i as int].0@);
                    }
                }
                if let Json::String(s) = &members[i].1 {
                    log_headers.insert(members[i].0.clone(), Json::String(s.clone()));
                    proof {
                        done = done.insert(members@[i as int].0@, members@[i as int].1@);
                    }
                    assert(log_headers@ =~= start.union_prefer_right(done));
                }
                assert(done =~= text_members(json::entries_view(more)));
            }
            assert(members@.take(members@.len() as int) =~= members@);
        },
        _ => {
            assert(log_headers@ =~= log_headers@.union_prefer_right(Map::empty()));
        },
    }
}

/// The byte may stand in the name of a header: a letter, a digit or one of the marks
/// ``!#$%&'*+-.^_`|~``.
pub open spec fn is_name_byte(b: u8) -> bool {
    b == 33 || (35 <= b <= 39) || b == 42 || b == 43 || b == 45 || b == 46 || (48 <= b <= 57) || (65
        <= b <= 90) || (94 <= b <= 122) || b == 124 || b == 126
}

/// The byte as it stands in a normalized name: a letter in lower case.
pub open spec fn normal_byte(b: u8) -> u8 {
    if 65 <= b <= 90 {
        (b + 32) as u8
    } else {
        b
    }
}

/// The normalized name of a header, where the bytes are one.
pub open spec fn header_name(bytes: Seq<u8>) -> Option<Seq<char>> {
    if 1 <= bytes.len() <= 65535 && forall|i: int|
        0 <= i < bytes.len() ==> is_name_byte(#[trigger] bytes[i]) {
        Some(bytes.map_values(|b: u8| normal_byte(b) as char))
    } else {
        None
    }
}

/// `reqwest::header::HeaderName::from_bytes`, written with `as_str`. A name has 1 to 65535
/// bytes, each of those that may stand in one, and is put into lower case.
#[verifier::external_body]
fn parse_header_name(bytes: &[u8]) -> (r: Option<String>)
    ensures
        match r {
            Some(name) => header_name(bytes@) == Some(name@),
            None => header_name(bytes@) is None,
        },
{
    match reqwest::header::HeaderName::from_bytes(bytes) {
        Ok(name) => Some(name.as_str().to_string()),
        Err(_) => None,
    }
}

/// The byte may stand in the value of a header.
pub open spec fn is_value_byte(b: u8) -> bool {
    b == 9 || (b >= 32 && b != 127)
}

/// The text is the value of a header.
pub open spec fn is_header_value(s: Seq<char>) -> bool {
    forall|i: int|
        0 <= i < vstd::utf8::encode_utf8(s).len() ==> is_value_byte(
            #[trigger] vstd::utf8::encode_utf8(s)[i],
        )
}

/// `reqwest::header::HeaderValue::from_str`: whether the text is accepted as a value. Every
/// byte but a control character other than a tab is.
#[verifier::external_body]
fn accepts_header_value(s: &str) -> (r: bool)
    ensures
        r == is_header_value(s@),
{
    reqwest::header::HeaderValue::from_str(s).is_ok()
}

/// The header that a member stands for, if it stands for one: its normalized name and its
/// text.
pub open spec fn header_of(key: Seq<char>, value: Tree) -> Option<(Seq<char>, Seq<char>)> {
    match (header_name(vstd::utf8::encode_utf8(key)), value) {
        (Some(name), Tree::Str(text)) => if is_header_value(text) {
            Some((name, text))
        } else {
            None
        },
        _ => None,
    }
}

/// The member stands for a header of this name.
pub open spec fn names_header(m: Map<Seq<char>, Tree>, key: Seq<char>, name: Seq<char>) -> bool {
    m.dom().contains(key) && (header_of(key, m[key]) matches Some(h) && h.0 == name)
}

/// The custom headers send this header: of the members for its name, the last one in the
/// order of their keys holds this text.
pub open spec fn sends_header(custom: Option<Tree>, name: Seq<char>, text: Seq<char>) -> bool {
    custom matches Some(Tree::Obj(m)) && exists|key: Seq<char>| #[trigger]
        is_last(m, key, name) && header_of(key, m[key]) == Some((name, text))
}

/// The member is the last one, in the order of their keys, that stands for a header of this
/// name.
pub open spec fn is_last(m: Map<Seq<char>, Tree>, key: Seq<char>, name: Seq<char>) -> bool {
    names_header(m, key, name) && forall|other: Seq<char>| #[trigger]
        names_header(m, other, name) ==> other == key || text::before(other, key)
}

/// A member that stands for a header.
struct Candidate {
    key: String,
    name: String,
    text: String,
}

/// The header that a member stands for, if it stands for one.
fn read_header(key: &str, value: &Json) -> (r: Option<Candidate>)
    ensures
        match r {
            Some(c) => c.key@ == key@ && header_of(key@, value@) == Some((c.name@, c.text@)),
            None => header_of(key@, value@) is None,
        },
{
    if let Json::String(s) = value {
        if accepts_header_value(s.as_str()) {
            if let Some(name) = parse_header_name(key.as_bytes()) {
                return Some(Candidate { key: key.to_owned(), name, text: s.clone() });
            }
        }
    }
    None
}

/// The position of the candidate for this name.
fn find_name(found: &Vec<Candidate>, name: &str) -> (r: Option<usize>)
    ensures
        match r {
            Some(n) => n < found@.len() && found@[n as int].name@ == name@,
            None => forall|n: int| 0 <= n < found@.len() ==> (#[trigger] found@[n]).name@ != name@,
        },
{
    for n in 0..found.len()
        invariant
            forall|k: int| 0 <= k < n ==> (#[trigger] found@[k]).name@ != name@,
    {
        if str_eq(found[n].name.as_str(), name) {
            return Some(n);
        }
    }
    None
}

/// Each candidate is the last of the first `i` members that stand for its header, no two
/// have one name, and no name is missing.
spec fn settled(found: Seq<Candidate>, members: Seq<(String, Json)>, i: int) -> bool {
    &&& forall|n: int|
        0 <= n < found.len() ==> is_settled(#[trigger] found[n], members, i)
    &&& forall|n: int, k: int|
        0 <= n < k < found.len() ==> (#[trigger] found[n]).name@ != (#[trigger] found[k]).name@
    &&& forall|j: int|
        0 <= j < i ==> (header_of((#[trigger] members[j]).0@, members[j].1@) matches Some(h)
            ==> exists|n: int| 0 <= n < found.len() && (#[trigger] found[n]).name@ == h.0)
}

spec fn is_settled(c: Candidate, members: Seq<(String, Json)>, i: int) -> bool {
    &&& exists|j: int|
        0 <= j < i && (#[trigger] members[j]).0@ == c.key@ && header_of(
            members[j].0@,
            members[j].1@,
        ) == Some((c.name@, c.text@))
    &&& forall|j: int|
        0 <= j < i ==> (header_of((#[trigger] members[j]).0@, members[j].1@) matches Some(h)
            ==> h.0 != c.name@ || members[j].0@ == c.key@ || text::before(members[j].0@, c.key@))
}

/// A member that stands for no header changes nothing.
proof fn lemma_none(found: Seq<Candidate>, members: Seq<(String, Json)>, i: int)
    requires
        0 <= i < members.len(),
        settled(found, members, i),
        header_of(members[i].0@, members[i].1@) is None,
    ensures
        settled(found, members, i + 1),
{
    assert forall|n: int| 0 <= n < found.len() implies is_settled(
        #[trigger] found[n],
        members,
        i + 1,
    ) by {
        assert(is_settled(found[n], members, i));
    }
}

/// A member for a new name is a new candidate.
proof fn lemma_new(found: Seq<Candidate>, members: Seq<(String, Json)>, i: int, c: Candidate)
    requires
        0 <= i < members.len(),
        settled(found, members, i),
        members[i].0@ == c.key@,
        header_of(members[i].0@, members[i].1@) == Some((c.name@, c.text@)),
        forall|n: int| 0 <= n < found.len() ==> (#[trigger] found[n]).name@ != c.name@,
    ensures
        settled(found.push(c), members, i + 1),
{
    let after = found.push(c);
    assert forall|n: int| 0 <= n < after.len() implies is_settled(
        #[trigger] after[n],
        members,
        i + 1,
    ) by {
        if n < found.len() {
            assert(after[n] == found[n]);
            assert(is_settled(found[n], members, i));
        }
    }
    assert forall|j: int| 0 <= j < i + 1 implies (header_of(
        (#[trigger] members[j]).0@,
        members[j].1@,
    ) matches Some(h) ==> exists|n: int|
        0 <= n < after.len() && (#[trigger] after[n]).name@ == h.0) by {
        if header_of(members[j].0@, members[j].1@) is Some {
            let h = header_of(members[j].0@, members[j].1@)->0;
            if j < i {
                let n = choose|n: int| 0 <= n < found.len() && (#[trigger] found[n]).name@ == h.0;
                assert(after[n].name@ == h.0);
            } else {
                assert(after[found.len() as int].name@ == h.0);
            }
        }
    }
}

/// A member for a name that has a candidate: the one with the later key stays.
proof fn lemma_later(
    found: Seq<Candidate>,
    members: Seq<(String, Json)>,
    i: int,
    c: Candidate,
    n: int,
)
    requires
        json::distinct_keys(members),
        0 <= i < members.len(),
        settled(found, members, i),
        members[i].0@ == c.key@,
        header_of(members[i].0@, members[i].1@) == Some((c.name@, c.text@)),
        0 <= n < found.len(),
        found[n].name@ == c.name@,
    ensures
        text::before(found[n].key@, c.key@) ==> settled(found.update(n, c), members, i + 1),
        !text::before(found[n].key@, c.key@) ==> settled(found, members, i + 1),
{
    let own = found[n];
    assert(is_settled(own, members, i));
    let from = choose|j: int|
        0 <= j < i && (#[trigger] members[j]).0@ == own.key@ && header_of(
            members[j].0@,
            members[j].1@,
        ) == Some((own.name@, own.text@));
    assert(members[from].0@ != members[i].0@);
    text::lemma_before_total(own.key@, c.key@);
    let after = if text::before(own.key@, c.key@) {
        found.update(n, c)
    } else {
        found
    };
    assert forall|k: int| 0 <= k < after.len() implies is_settled(
        #[trigger] after[k],
        members,
        i + 1,
    ) by {
        assert(is_settled(found[k], members, i));
        if k != n {
            assert(after[k] == found[k]);
            assert(found[k].name@ != c.name@);
        } else if text::before(own.key@, c.key@) {
            assert forall|j: int| 0 <= j < i + 1 implies (header_of(
                (#[trigger] members[j]).0@,
                members[j].1@,
            ) matches Some(h) ==> h.0 != c.name@ || members[j].0@ == c.key@ || text::before(
                members[j].0@,
                c.key@,
            )) by {
                if j < i && text::before(members[j].0@, own.key@) {
                    text::lemma_before_goes_through(members[j].0@, own.key@, c.key@);
                }
            }
        }
    }
    assert forall|j: int| 0 <= j < i + 1 implies (header_of(
        (#[trigger] members[j]).0@,
        members[j].1@,
    ) matches Some(h) ==> exists|k: int|
        0 <= k < after.len() && (#[trigger] after[k]).name@ == h.0) by {
        if header_of(members[j].0@, members[j].1@) is Some {
            let h = header_of(members[j].0@, members[j].1@)->0;
            if j < i {
                let k = choose|k: int| 0 <= k < found.len() && (#[trigger] found[k]).name@ == h.0;
                assert(after[k].name@ == h.0);
            } else {
                assert(after[n].name@ == h.0);
            }
        }
    }
    assert forall|k: int, l: int| 0 <= k < l < after.len() implies (#[trigger] after[k]).name@ != (
    #[trigger] after[l]).name@ by {
        assert(found[k].name@ != found[l].name@);
    }
}

/// The candidates among all members are the headers that are sent.
proof fn lemma_settled_are_sent(found: Seq<Candidate>, members: Seq<(String, Json)>)
    requires
        json::distinct_keys(members),
        settled(found, members, members.len() as int),
    ensures
        ({
            let custom = Some(Tree::Obj(json::entries_view(members)));
            &&& forall|n: int|
                0 <= n < found.len() ==> sends_header(
                    custom,
                    (#[trigger] found[n]).name@,
                    found[n].text@,
                )
            &&& forall|name: Seq<char>, text: Seq<char>| #[trigger]
                sends_header(custom, name, text) ==> exists|n: int|
                    0 <= n < found.len() && (#[trigger] found[n]).name@ == name && found[n].text@
                        == text
        }),
{
    let m = json::entries_view(members);
    let custom = Some(Tree::Obj(m));
    assert forall|key: Seq<char>, name: Seq<char>| #[trigger] names_header(m, key, name) implies exists|
        j: int,
    |
        0 <= j < members.len() && (#[trigger] members[j]).0@ == key && header_of(
            members[j].0@,
            members[j].1@,
        ) == Some((name, (m[key])->Str_0)) by {
        json::lemma_entries_view_dom(members, key);
        let j = choose|j: int| 0 <= j < members.len() && (#[trigger] members[j]).0@ == key;
        json::lemma_entries_view_at(members, j);
    }
    assert forall|n: int| 0 <= n < found.len() implies sends_header(
        custom,
        (#[trigger] found[n]).name@,
        found[n].text@,
    ) by {
        let c = found[n];
        assert(is_settled(c, members, members.len() as int));
        let j = choose|j: int|
            0 <= j < members.len() && (#[trigger] members[j]).0@ == c.key@ && header_of(
                members[j].0@,
                members[j].1@,
            ) == Some((c.name@, c.text@));
        json::lemma_entries_view_at(members, j);
        assert(names_header(m, c.key@, c.name@));
        assert(is_last(m, c.key@, c.name@));
    }
    assert forall|name: Seq<char>, text: Seq<char>| #[trigger]
        sends_header(custom, name, text) implies exists|n: int|
        0 <= n < found.len() && (#[trigger] found[n]).name@ == name && found[n].text@ == text by {
        let key = choose|key: Seq<char>| #[trigger]
            is_last(m, key, name) && header_of(key, m[key]) == Some((name, text));
        assert(names_header(m, key, name));
        let j = choose|j: int|
            0 <= j < members.len() && (#[trigger] members[j]).0@ == key && header_of(
                members[j].0@,
                members[j].1@,
            ) == Some((name, (m[key])->Str_0));
        let n = choose|n: int| 0 <= n < found.len() && (#[trigger] found[n]).name@ == name;
        let c = found[n];
        assert(sends_header(custom, c.name@, c.text@));
        let own = choose|own: Seq<char>| #[trigger]
            is_last(m, own, name) && header_of(own, m[own]) == Some((name, c.text@));
        assert(names_header(m, own, name));
        if own != key {
            text::lemma_before_once(own, key);
        }
    }
}

/// The headers that custom headers stand for, by normalized name: the members that are
/// strings and whose name and value are ones of a header. Of members for one name the last
/// in the order of their keys counts. They override any header with the same name.
pub fn custom_headers_to_send(custom_headers: Option<&Json>) -> (r: Vec<(String, String)>)
    ensures
        forall|i: int, j: int|
            0 <= i < j < r@.len() ==> (#[trigger] r@[i]).0@ != (#[trigger] r@[j]).0@,
        forall|i: int|
            0 <= i < r@.len() ==> sends_header(
                json::view_opt(custom_headers),
                (#[trigger] r@[i]).0@,
                r@[i].1@,
            ),
        forall|name: Seq<char>, text: Seq<char>| #[trigger]
            sends_header(json::view_opt(custom_headers), name, text) ==> exists|i: int|
                0 <= i < r@.len() && (#[trigger] r@[i]).0@ == name && r@[i].1@ == text,
{
    let mut out: Vec<(String, String)> = Vec::new();
    if let Some(Json::Object(o)) = custom_headers {
        let members = o.members();
        let mut found: Vec<Candidate> = Vec::new();
        for i in 0..members.len()
            invariant
                json::distinct_keys(members@),
                settled(found@, members@, i as int),
        {
            match read_header(members[i].0.as_str(), &members[i].1) {
                None => {
                    proof {
                        lemma_none(found@, members@, i as int);
                    }
                },
                Some(c) => match find_name(&found, c.name.as_str()) {
                    None => {
                        proof {
                            lemma_new(found@, members@, i as int, c);
                        }
                        found.push(c);
                    },
                    Some(n) => {
                        proof {
                            lemma_later(found@, members@, i as int, c, n as int);
                        }
                        if is_before(found[n].key.as_str(), c.key.as_str()) {
                            found.set(n, c);
                        }
                    },
                },
            }
        }
        proof {
            lemma_settled_are_sent(found@, members@);
        }
        for n in 0..found.len()
            invariant
                out@.len() == n,
                forall|k: int|
                    0 <= k < n ==> (#[trigger] out@[k]).0@ == found@[k].name@ && out@[k].1@
                        == found@[k].text@,
        {
            out.push((found[n].name.clone(), found[n].text.clone()));
        }
        assert forall|name: Seq<char>, text: Seq<char>| #[trigger]
            sends_header(json::view_opt(custom_headers), name, text) implies exists|i: int|
            0 <= i < out@.len() && (#[trigger] out@[i]).0@ == name && out@[i].1@ == text by {
            let n = choose|n: int|
                0 <= n < found@.len() && (#[trigger] found@[n]).name@ == name && found@[n].text@
                    == text;
            assert(out@[n].0@ == name);
        }
    }
    out
}

} // verus!
