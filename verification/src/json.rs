//! JSON documents: the value type that the translators read and build, its
//! mathematical model, and the bridge to `serde_json`.

use vstd::prelude::*;

use crate::text::str_eq;

verus! {

/// A JSON number as `serde_json` holds it: an integer between `i64::MIN` and
/// `u64::MAX`, or a finite floating-point number.
#[verifier::external_type_specification]
#[verifier::external_body]
pub struct ExNumber(serde_json::Number);

/// A JSON document as `serde_json` holds it.
#[verifier::external_type_specification]
#[verifier::external_body]
pub struct ExValue(serde_json::Value);

/// The mathematical model of a JSON document.
pub enum Tree {
    Null,
    Bool(bool),
    Int(int),
    Float(serde_json::Number),
    Str(Seq<char>),
    Arr(Seq<Tree>),
    Obj(Map<Seq<char>, Tree>),
}

/// A JSON document.
#[derive(Debug)]
pub enum Json {
    Null,
    Bool(bool),
    Number(serde_json::Number),
    String(String),
    Array(Vec<Json>),
    Object(Object),
}

/// The members of a JSON object. No key occurs twice.
#[derive(Debug)]
pub struct Object {
    entries: Vec<(String, Json)>,
}

/// The integer that a JSON number holds; `None` for a floating-point number.
pub uninterp spec fn integer_value(n: serde_json::Number) -> Option<int>;

/// The document that a `serde_json::Value` holds.
pub uninterp spec fn contents(v: serde_json::Value) -> Tree;

/// An error of `serde_json`.
#[verifier::external_type_specification]
#[verifier::external_body]
pub struct ExError(serde_json::Error);

/// What a reader makes of a text.
pub enum Parsed {
    /// The text is JSON and holds this document.
    Doc(Tree),
    /// The text is not JSON, and this message says why.
    Malformed(Seq<char>),
}

/// What `serde_json::from_slice` reads from a text.
pub uninterp spec fn parsed(bytes: Seq<u8>) -> Parsed;

/// The message of an error.
pub uninterp spec fn error_message(e: serde_json::Error) -> Seq<char>;

/// The compact text that `serde_json::to_string` writes for a document.
pub uninterp spec fn json_text(t: Tree) -> Seq<char>;

/// The key that `serde_json` keeps for raw values: an object that starts with it
/// is not read as an object.
pub open spec fn reserved_key() -> Seq<char> {
    "$serde_json::private::RawValue"@
}

/// The document nests at most `depth` levels deep, holds no floating-point number
/// and does not use the reserved key.
pub open spec fn plain(t: Tree, depth: nat) -> bool
    decreases depth,
{
    match t {
        Tree::Float(_) => false,
        Tree::Arr(s) => depth > 0 && forall|i: int|
            0 <= i < s.len() ==> plain(#[trigger] s[i], (depth - 1) as nat),
        Tree::Obj(m) => depth > 0 && forall|k: Seq<char>| #[trigger]
            m.dom().contains(k) ==> k != reserved_key() && plain(m[k], (depth - 1) as nat),
        _ => true,
    }
}

/// The document nests at most `depth` levels deep and does not use the reserved key.
pub open spec fn readable(t: Tree, depth: nat) -> bool
    decreases depth,
{
    match t {
        Tree::Arr(s) => depth > 0 && forall|i: int|
            0 <= i < s.len() ==> readable(#[trigger] s[i], (depth - 1) as nat),
        Tree::Obj(m) => depth > 0 && forall|k: Seq<char>| #[trigger]
            m.dom().contains(k) ==> k != reserved_key() && readable(m[k], (depth - 1) as nat),
        _ => true,
    }
}

/// The documents are the same down to `depth` levels, but for the values of their
/// floating-point numbers.
pub open spec fn alike(a: Tree, b: Tree, depth: nat) -> bool
    decreases depth,
{
    match (a, b) {
        (Tree::Float(_), Tree::Float(_)) => true,
        (Tree::Arr(s), Tree::Arr(t)) => depth > 0 && s.len() == t.len() && forall|i: int|
            0 <= i < s.len() ==> alike(#[trigger] s[i], t[i], (depth - 1) as nat),
        (Tree::Obj(m), Tree::Obj(n)) => depth > 0 && m.dom() == n.dom() && forall|k: Seq<char>|
            #[trigger] m.dom().contains(k) ==> alike(m[k], n[k], (depth - 1) as nat),
        _ => a == b,
    }
}

/// A document without floating-point numbers is like no other but itself.
pub proof fn lemma_alike_plain(a: Tree, b: Tree, depth: nat)
    requires
        alike(a, b, depth),
        plain(a, depth),
    ensures
        a == b,
    decreases depth,
{
    match (a, b) {
        (Tree::Arr(s), Tree::Arr(t)) => {
            assert forall|i: int| 0 <= i < s.len() implies s[i] == t[i] by {
                assert(plain(s[i], (depth - 1) as nat));
                lemma_alike_plain(s[i], t[i], (depth - 1) as nat);
            }
            assert(s =~= t);
        },
        (Tree::Obj(m), Tree::Obj(n)) => {
            assert forall|k: Seq<char>| #[trigger] m.dom().contains(k) implies m[k] == n[k] by {
                lemma_alike_plain(m[k], n[k], (depth - 1) as nat);
            }
            assert(m =~= n);
        },
        _ => {},
    }
}

/// The model of a number.
pub open spec fn number_view(n: serde_json::Number) -> Tree {
    match integer_value(n) {
        Some(i) => Tree::Int(i),
        None => Tree::Float(n),
    }
}

/// The models of a sequence of documents.
pub open spec fn values_view(s: Seq<Json>) -> Seq<Tree>
    decreases s,
{
    Seq::new(
        s.len(),
        |i: int|
            if 0 <= i < s.len() {
                s[i].view()
            } else {
                Tree::Null
            },
    )
}

/// The mapping that a sequence of members stands for.
pub open spec fn entries_view(s: Seq<(String, Json)>) -> Map<Seq<char>, Tree>
    decreases s,
{
    if s.len() == 0 {
        Map::empty()
    } else {
        entries_view(s.drop_last()).insert(s.last().0@, s.last().1.view())
    }
}

impl Json {
    /// The model of this document.
    pub open spec fn view(&self) -> Tree
        decreases self,
    {
        match self {
            Json::Null => Tree::Null,
            Json::Bool(b) => Tree::Bool(*b),
            Json::Number(n) => number_view(*n),
            Json::String(s) => Tree::Str(s@),
            Json::Array(a) => Tree::Arr(values_view(a@)),
            Json::Object(o) => Tree::Obj(o.view()),
        }
    }
}

impl Object {
    /// The mapping from keys to members.
    pub closed spec fn view(&self) -> Map<Seq<char>, Tree>
        decreases self,
    {
        entries_view(self.entries@)
    }

    #[verifier::type_invariant]
    spec fn keys_are_distinct(self) -> bool {
        distinct_keys(self.entries@)
    }
}

/// No key occurs twice.
pub open spec fn distinct_keys<T>(s: Seq<(String, T)>) -> bool {
    forall|i: int, j: int| 0 <= i < j < s.len() ==> (#[trigger] s[i]).0@ != (#[trigger] s[j]).0@
}

/// `serde_json::Number::as_i64`: the integer that the number holds, where it
/// holds one and that one fits in an `i64`.
#[verifier::external_body]
fn number_as_i64(n: &serde_json::Number) -> (r: Option<i64>)
    ensures
        match integer_value(*n) {
            Some(i) => if i64::MIN <= i <= i64::MAX { r == Some(i as i64) } else { r is None },
            None => r is None,
        },
{
    n.as_i64()
}

/// `serde_json::Number::as_u64`: the integer that the number holds, where it
/// holds one and that one fits in a `u64`.
#[verifier::external_body]
fn number_as_u64(n: &serde_json::Number) -> (r: Option<u64>)
    ensures
        match integer_value(*n) {
            Some(i) => if 0 <= i <= u64::MAX { r == Some(i as u64) } else { r is None },
            None => r is None,
        },
{
    n.as_u64()
}

/// `serde_json::Number::from(i64)`: the number that holds this integer.
#[verifier::external_body]
fn number_from_i64(n: i64) -> (r: serde_json::Number)
    ensures
        integer_value(r) == Some(n as int),
{
    serde_json::Number::from(n)
}

/// `serde_json::Number::from(u64)`: the number that holds this integer.
#[verifier::external_body]
fn number_from_u64(n: u64) -> (r: serde_json::Number)
    ensures
        integer_value(r) == Some(n as int),
{
    serde_json::Number::from(n)
}

/// `serde_json::Number::clone`: the same number.
#[verifier::external_body]
fn number_clone(n: &serde_json::Number) -> (r: serde_json::Number)
    ensures
        r == *n,
{
    n.clone()
}

/// One level of a `serde_json::Value`, with its variant told apart.
enum Node {
    Null,
    Bool(bool),
    Number(serde_json::Number),
    String(String),
    Array(Vec<serde_json::Value>),
    Object(Vec<(String, serde_json::Value)>),
}

/// The documents that a sequence of `serde_json` values hold.
spec fn items_contents(s: Seq<serde_json::Value>) -> Seq<Tree> {
    s.map_values(|v: serde_json::Value| contents(v))
}

/// The mapping that a sequence of `serde_json` members stands for.
spec fn members_contents(s: Seq<(String, serde_json::Value)>) -> Map<Seq<char>, Tree>
    decreases s.len(),
{
    if s.len() == 0 {
        Map::empty()
    } else {
        members_contents(s.drop_last()).insert(s.last().0@, contents(s.last().1))
    }
}

/// The document that one level with its children stands for.
spec fn node_contents(n: Node) -> Tree {
    match n {
        Node::Null => Tree::Null,
        Node::Bool(b) => Tree::Bool(b),
        Node::Number(n) => number_view(n),
        Node::String(s) => Tree::Str(s@),
        Node::Array(a) => Tree::Arr(items_contents(a@)),
        Node::Object(m) => Tree::Obj(members_contents(m@)),
    }
}

/// Matches on the variants of `serde_json::Value` and moves their fields out;
/// the members of an object come as pairs, each key once.
#[verifier::external_body]
fn open_value(v: serde_json::Value) -> (r: Node)
    ensures
        node_contents(r) == contents(v),
        r matches Node::Object(m) ==> distinct_keys(m@),
{
    match v {
        serde_json::Value::Null => Node::Null,
        serde_json::Value::Bool(b) => Node::Bool(b),
        serde_json::Value::Number(n) => Node::Number(n),
        serde_json::Value::String(s) => Node::String(s),
        serde_json::Value::Array(a) => Node::Array(a),
        serde_json::Value::Object(m) => Node::Object(m.into_iter().collect()),
    }
}

proof fn lemma_members_contents_finite(s: Seq<(String, serde_json::Value)>)
    ensures
        members_contents(s).dom().finite(),
    decreases s.len(),
{
    if s.len() > 0 {
        lemma_members_contents_finite(s.drop_last());
    }
}

/// Every member of a list with distinct keys is in the mapping.
proof fn lemma_members_contents_at(s: Seq<(String, serde_json::Value)>, i: int)
    requires
        distinct_keys(s),
        0 <= i < s.len(),
    ensures
        members_contents(s).dom().contains(s[i].0@),
        members_contents(s)[s[i].0@] == contents(s[i].1),
    decreases s.len(),
{
    if i < s.len() - 1 {
        assert(distinct_keys(s.drop_last()));
        lemma_members_contents_at(s.drop_last(), i);
    }
}

/// The document that a `serde_json::Value` holds.
fn from_serde(v: serde_json::Value) -> (r: Json)
    ensures
        r@ == contents(v),
    decreases contents(v),
{
    match open_value(v) {
        Node::Null => Json::Null,
        Node::Bool(b) => Json::Bool(b),
        Node::Number(n) => Json::Number(n),
        Node::String(s) => Json::String(s),
        Node::Array(a) => {
            let ghost items = a@;
            let mut out: Vec<Json> = Vec::new();
            for x in it: a
                invariant
                    it.seq() == items,
                    contents(v) == Tree::Arr(items_contents(items)),
                    out@.len() == it.index(),
                    values_view(out@) == items_contents(items.take(it.index() as int)),
            {
                let ghost done = out@;
                let ghost i = it.index() as int;
                assert(items_contents(items)[i] == contents(x));
                assert(decreases_to!(contents(v) => contents(v)->Arr_0));
                assert(decreases_to!(contents(v)->Arr_0 => contents(v)->Arr_0[i]));
                out.push(from_serde(x));
                assert(values_view(out@) =~= values_view(done).push(contents(x)));
                assert(items_contents(items.take(i + 1)) =~= items_contents(items.take(i)).push(
                    contents(x),
                ));
            }
            assert(items.take(items.len() as int) =~= items);
            Json::Array(out)
        },
        Node::Object(m) => {
            let ghost members = m@;
            let mut out: Vec<(String, Json)> = Vec::new();
            proof {
                lemma_members_contents_finite(members);
            }
            for x in it: m
                invariant
                    it.seq() == members,
                    distinct_keys(members),
                    contents(v) == Tree::Obj(members_contents(members)),
                    members_contents(members).dom().finite(),
                    out@.len() == it.index(),
                    forall|j: int|
                        0 <= j < out@.len() ==> (#[trigger] out@[j]).0@ == members[j].0@,
                    entries_view(out@) == members_contents(members.take(it.index() as int)),
            {
                let ghost done = out@;
                let ghost i = it.index() as int;
                let (key, item) = x;
                proof {
                    lemma_members_contents_at(members, i);
                }
                assert(decreases_to!(contents(v) => contents(v)->Obj_0));
                assert(decreases_to!(contents(v)->Obj_0 => contents(v)->Obj_0[key@]));
                out.push((key, from_serde(item)));
                assert(out@.drop_last() =~= done);
                assert(members.take(i + 1).drop_last() =~= members.take(i));
            }
            assert(members.take(members.len() as int) =~= members);
            assert(distinct_keys(out@));
            Json::Object(Object { entries: out })
        },
    }
}

/// Builds the variant of `serde_json::Value` from its fields. Where an object is
/// built, `serde_json::Map` collects the members.
#[verifier::external_body]
fn close_value(n: Node) -> (r: serde_json::Value)
    requires
        n matches Node::Object(m) ==> distinct_keys(m@),
    ensures
        contents(r) == node_contents(n),
{
    match n {
        Node::Null => serde_json::Value::Null,
        Node::Bool(b) => serde_json::Value::Bool(b),
        Node::Number(n) => serde_json::Value::Number(n),
        Node::String(s) => serde_json::Value::String(s),
        Node::Array(a) => serde_json::Value::Array(a),
        Node::Object(m) => serde_json::Value::Object(m.into_iter().collect()),
    }
}

/// The `serde_json::Value` that holds this document.
fn to_serde(v: &Json) -> (r: serde_json::Value)
    ensures
        contents(r) == v@,
    decreases v,
{
    match v {
        Json::Null => close_value(Node::Null),
        Json::Bool(b) => close_value(Node::Bool(*b)),
        Json::Number(n) => close_value(Node::Number(number_clone(n))),
        Json::String(s) => close_value(Node::String(s.clone())),
        Json::Array(a) => {
            let mut out: Vec<serde_json::Value> = Vec::new();
            for i in 0..a.len()
                invariant
                    out@.len() == i,
                    forall|j: int| 0 <= j < i ==> contents(#[trigger] out@[j]) == a@[j]@,
                    decreases_to!(v => a@),
            {
                assert(decreases_to!(a@ => a@[i as int]));
                out.push(to_serde(&a[i]));
            }
            assert(items_contents(out@) =~= values_view(a@));
            close_value(Node::Array(out))
        },
        Json::Object(o) => {
            proof {
                use_type_invariant(o);
            }
            let mut out: Vec<(String, serde_json::Value)> = Vec::new();
            for i in 0..o.entries.len()
                invariant
                    out@.len() == i,
                    forall|j: int|
                        0 <= j < i ==> (#[trigger] out@[j]).0@ == o.entries@[j].0@,
                    members_contents(out@) == entries_view(o.entries@.take(i as int)),
                    decreases_to!(v => o.entries@),
            {
                assert(decreases_to!(o.entries@ => o.entries@[i as int]));
                assert(decreases_to!(o.entries@[i as int] => o.entries@[i as int].1));
                let ghost done = out@;
                let entry = &o.entries[i];
                out.push((entry.0.clone(), to_serde(&entry.1)));
                assert(out@.drop_last() =~= done);
                assert(o.entries@.take(i + 1).drop_last() =~= o.entries@.take(i as int));
            }
            assert(o.entries@.take(o.entries@.len() as int) =~= o.entries@);
            assert(distinct_keys(out@));
            close_value(Node::Object(out))
        },
    }
}

/// `serde_json::from_slice::<serde_json::Value>`. The text `{}` is an object
/// without members.
#[verifier::external_body]
fn serde_from_slice(bytes: &[u8]) -> (r: Result<serde_json::Value, serde_json::Error>)
    ensures
        match r {
            Ok(v) => parsed(bytes@) == Parsed::Doc(contents(v)),
            Err(e) => parsed(bytes@) == Parsed::Malformed(error_message(e)),
        },
        bytes@ == seq![123u8, 125u8] ==> r is Ok && contents(r->Ok_0) == Tree::Obj(Map::empty()),
{
    serde_json::from_slice(bytes)
}

/// `serde_json::Error::to_string`: the message of the error.
#[verifier::external_body]
fn serde_error_message(e: &serde_json::Error) -> (r: String)
    ensures
        r@ == error_message(*e),
{
    e.to_string()
}

/// `serde_json::to_string` of a `serde_json::Value`. Writing to memory a document
/// whose keys are strings does not fail. The text of an object starts with a
/// brace, that of one without members is `{}`, and what is written for a plain
/// document that nests less than 128 levels deep is read back as that document. Where the
/// document holds floating-point numbers, these may be read back as others, or not at all
/// at the end of their range; the rest is read back as it was. The text is compact, and the
/// control characters of strings are escaped in it, so it has no line feed.
#[verifier::external_body]
fn serde_to_string(v: &serde_json::Value) -> (r: Result<String, serde_json::Error>)
    ensures
        r is Ok,
        r->Ok_0@ == json_text(contents(*v)),
        contents(*v) is Obj ==> r->Ok_0@.len() > 0 && r->Ok_0@[0] == '{',
        contents(*v) == Tree::Obj(Map::empty()) ==> r->Ok_0@ == "{}"@,
        plain(contents(*v), 127) ==> parsed(vstd::utf8::encode_utf8(r->Ok_0@)) == Parsed::Doc(
            contents(*v),
        ),
        readable(contents(*v), 127) ==> (parsed(
            vstd::utf8::encode_utf8(r->Ok_0@),
        ) matches Parsed::Doc(again) ==> alike(again, contents(*v), 127)),
        forall|i: int| 0 <= i < r->Ok_0@.len() ==> #[trigger] r->Ok_0@[i] != '\n',
{
    serde_json::to_string(v)
}

impl Json {
    /// Reads a document from JSON text; the error is the reader's message.
    pub fn from_slice(bytes: &[u8]) -> (r: Result<Json, String>)
        ensures
            match r {
                Ok(v) => parsed(bytes@) == Parsed::Doc(v@),
                Err(e) => parsed(bytes@) == Parsed::Malformed(e@),
            },
            bytes@ == seq![123u8, 125u8] ==> r is Ok && r->Ok_0@ == Tree::Obj(Map::empty()),
    {
        match serde_from_slice(bytes) {
            Ok(v) => Ok(from_serde(v)),
            Err(e) => Err(serde_error_message(&e)),
        }
    }

    /// The compact JSON text of this document.
    pub fn to_text(&self) -> (r: String)
        ensures
            r@ == json_text(self@),
            self@ is Obj ==> r@.len() > 0 && r@[0] == '{',
            self@ == Tree::Obj(Map::empty()) ==> r@ == "{}"@,
            plain(self@, 127) ==> parsed(vstd::utf8::encode_utf8(r@)) == Parsed::Doc(
                self@,
            ),
            readable(self@, 127) ==> (parsed(vstd::utf8::encode_utf8(r@)) matches Parsed::Doc(again)
                ==> alike(again, self@, 127)),
            forall|i: int| 0 <= i < r@.len() ==> #[trigger] r@[i] != '\n',
    {
        match serde_to_string(&to_serde(self)) {
            Ok(text) => text,
            Err(_) => String::new(),
        }
    }
}

impl Tree {
    /// The member under `key`, where this is an object that has one.
    pub open spec fn get(self, key: Seq<char>) -> Option<Tree> {
        match self {
            Tree::Obj(m) => if m.dom().contains(key) {
                Some(m[key])
            } else {
                None
            },
            _ => None,
        }
    }

    /// The text, where this is a string.
    pub open spec fn as_str(self) -> Option<Seq<char>> {
        match self {
            Tree::Str(s) => Some(s),
            _ => None,
        }
    }

    /// The truth value, where this is one.
    pub open spec fn as_bool(self) -> Option<bool> {
        match self {
            Tree::Bool(b) => Some(b),
            _ => None,
        }
    }

    /// The integer, where this is one that fits in an `i64`.
    pub open spec fn as_i64(self) -> Option<i64> {
        match self {
            Tree::Int(i) => if i64::MIN <= i <= i64::MAX {
                Some(i as i64)
            } else {
                None
            },
            _ => None,
        }
    }

    /// The integer, where this is one that fits in a `u64`.
    pub open spec fn as_u64(self) -> Option<u64> {
        match self {
            Tree::Int(i) => if 0 <= i <= u64::MAX {
                Some(i as u64)
            } else {
                None
            },
            _ => None,
        }
    }
}

/// The member under `key` of the document, where there is one.
pub open spec fn get_in(t: Option<Tree>, key: Seq<char>) -> Option<Tree> {
    match t {
        Some(t) => t.get(key),
        None => None,
    }
}

/// The text of the document, where there is one and it is a string.
pub open spec fn str_in(t: Option<Tree>) -> Option<Seq<char>> {
    match t {
        Some(t) => t.as_str(),
        None => None,
    }
}

/// The model of a document that may be absent.
pub open spec fn view_opt(v: Option<&Json>) -> Option<Tree> {
    match v {
        Some(v) => Some(v@),
        None => None,
    }
}

/// The model of a document that may be absent.
pub open spec fn view_owned(v: Option<Json>) -> Option<Tree> {
    match v {
        Some(v) => Some(v@),
        None => None,
    }
}

/// The text under `key`, where there is one; `default` elsewhere.
pub open spec fn str_or(t: Tree, key: Seq<char>, default: Seq<char>) -> Seq<char> {
    match str_in(t.get(key)) {
        Some(s) => s,
        None => default,
    }
}

/// The integer under `key`, where there is one that fits in an `i64`.
pub open spec fn int_in(t: Option<Tree>, key: Seq<char>) -> Option<i64> {
    match get_in(t, key) {
        Some(v) => v.as_i64(),
        None => None,
    }
}

/// The integer under `key`, where there is one that fits in an `i64`; zero
/// elsewhere.
pub open spec fn int_or_zero(t: Option<Tree>, key: Seq<char>) -> i64 {
    match int_in(t, key) {
        Some(n) => n,
        None => 0,
    }
}

/// The model of a text that may be absent.
pub open spec fn str_opt(v: Option<&str>) -> Option<Seq<char>> {
    match v {
        Some(v) => Some(v@),
        None => None,
    }
}

/// A key is in the mapping exactly where a member has it.
pub proof fn lemma_entries_view_dom(s: Seq<(String, Json)>, key: Seq<char>)
    ensures
        entries_view(s).dom().contains(key) <==> exists|i: int|
            0 <= i < s.len() && (#[trigger] s[i]).0@ == key,
    decreases s.len(),
{
    if s.len() > 0 {
        lemma_entries_view_dom(s.drop_last(), key);
        if s.last().0@ == key {
            assert(s[s.len() - 1].0@ == key);
        }
        if exists|i: int| 0 <= i < s.drop_last().len() && (#[trigger] s.drop_last()[i]).0@ == key {
            let i = choose|i: int|
                0 <= i < s.drop_last().len() && (#[trigger] s.drop_last()[i]).0@ == key;
            assert(s[i].0@ == key);
        }
        if exists|i: int| 0 <= i < s.len() && (#[trigger] s[i]).0@ == key {
            let i = choose|i: int| 0 <= i < s.len() && (#[trigger] s[i]).0@ == key;
            if i < s.len() - 1 {
                assert(s.drop_last()[i].0@ == key);
            }
        }
    }
}

/// Every member of a list with distinct keys is in the mapping.
pub proof fn lemma_entries_view_at(s: Seq<(String, Json)>, i: int)
    requires
        distinct_keys(s),
        0 <= i < s.len(),
    ensures
        entries_view(s).dom().contains(s[i].0@),
        entries_view(s)[s[i].0@] == s[i].1@,
    decreases s.len(),
{
    if i < s.len() - 1 {
        assert(distinct_keys(s.drop_last()));
        lemma_entries_view_at(s.drop_last(), i);
    }
}

impl Object {
    /// The object without members.
    pub fn new() -> (r: Object)
        ensures
            r@ == Map::<Seq<char>, Tree>::empty(),
    {
        Object { entries: Vec::new() }
    }

    /// Whether the object has no member.
    pub fn is_empty(&self) -> (r: bool)
        ensures
            r == (self@ =~= Map::<Seq<char>, Tree>::empty()),
    {
        proof {
            if self.entries@.len() > 0 {
                use_type_invariant(self);
                lemma_entries_view_at(self.entries@, 0);
            }
        }
        self.entries.len() == 0
    }

    /// The place of a key among the members.
    fn position(&self, key: &str) -> (r: Option<usize>)
        ensures
            match r {
                Some(i) => i < self.entries@.len() && self.entries@[i as int].0@ == key@,
                None => forall|i: int|
                    0 <= i < self.entries@.len() ==> (#[trigger] self.entries@[i]).0@ != key@,
            },
    {
        for i in 0..self.entries.len()
            invariant
                forall|j: int| 0 <= j < i ==> (#[trigger] self.entries@[j]).0@ != key@,
        {
            if str_eq(self.entries[i].0.as_str(), key) {
                return Some(i);
            }
        }
        None
    }

    /// The member under `key`.
    pub fn get(&self, key: &str) -> (r: Option<&Json>)
        ensures
            view_opt(r) == Tree::Obj(self@).get(key@),
    {
        proof {
            use_type_invariant(self);
            lemma_entries_view_dom(self.entries@, key@);
        }
        match self.position(key) {
            Some(i) => {
                proof {
                    lemma_entries_view_at(self.entries@, i as int);
                }
                Some(&self.entries[i].1)
            },
            None => None,
        }
    }

    /// The members, each key once, in no particular order.
    pub fn members(&self) -> (r: Vec<(String, Json)>)
        ensures
            distinct_keys(r@),
            entries_view(r@) == self@,
    {
        let copy = self.clone();
        proof {
            use_type_invariant(&copy);
        }
        copy.entries
    }

    /// Puts a member under `key`, in place of the one that was there.
    pub fn insert(&mut self, key: String, value: Json)
        ensures
            final(self)@ == old(self)@.insert(key@, value@),
    {
        proof {
            use_type_invariant(&*self);
            lemma_entries_view_dom(self.entries@, key@);
        }
        let at = self.position(key.as_str());
        let mut entries: Vec<(String, Json)> = Vec::new();
        std::mem::swap(&mut entries, &mut self.entries);
        let ghost before = entries@;
        match at {
            Some(i) => {
                let removed = entries.remove(i);
                proof {
                    lemma_entries_view_remove(before, i as int);
                }
                assert(distinct_keys(entries@));
                assert(!entries_view(entries@).dom().contains(key@)) by {
                    lemma_entries_view_dom(entries@, key@);
                }
            },
            None => {},
        }
        let ghost rest = entries@;
        entries.push((key, value));
        assert(entries@.drop_last() =~= rest);
        assert(distinct_keys(entries@)) by {
            lemma_entries_view_dom(rest, key@);
        }
        assert(entries_view(entries@) =~= entries_view(before).insert(key@, value@));
        self.entries = entries;
    }

    /// Takes the member under `key` out.
    pub fn remove(&mut self, key: &str)
        ensures
            final(self)@ == old(self)@.remove(key@),
    {
        proof {
            use_type_invariant(&*self);
            lemma_entries_view_dom(self.entries@, key@);
        }
        let at = self.position(key);
        match at {
            Some(i) => {
                let mut entries: Vec<(String, Json)> = Vec::new();
                std::mem::swap(&mut entries, &mut self.entries);
                let ghost before = entries@;
                let removed = entries.remove(i);
                proof {
                    lemma_entries_view_remove(before, i as int);
                }
                assert(distinct_keys(entries@));
                self.entries = entries;
            },
            None => {
                assert(self@ =~= old(self)@.remove(key@));
            },
        }
    }

    /// This object with one more member.
    pub fn with(self, key: &str, value: Json) -> (r: Object)
        ensures
            r@ == self@.insert(key@, value@),
    {
        let mut out = self;
        out.insert(key.to_owned(), value);
        out
    }
}

/// Taking one member out of a list with distinct keys takes its key out of the
/// mapping.
proof fn lemma_entries_view_remove(s: Seq<(String, Json)>, i: int)
    requires
        distinct_keys(s),
        0 <= i < s.len(),
    ensures
        entries_view(s.remove(i)) == entries_view(s).remove(s[i].0@),
        distinct_keys(s.remove(i)),
    decreases s.len(),
{
    let key = s[i].0@;
    assert(distinct_keys(s.remove(i)));
    if i == s.len() - 1 {
        assert(s.remove(i) =~= s.drop_last());
        lemma_entries_view_dom(s.drop_last(), key);
        assert(entries_view(s).remove(key) =~= entries_view(s.drop_last()));
    } else {
        assert(distinct_keys(s.drop_last()));
        lemma_entries_view_remove(s.drop_last(), i);
        assert(s.remove(i).drop_last() =~= s.drop_last().remove(i));
        assert(s.remove(i).last() == s.last());
        assert(s.last().0@ != key);
        assert(entries_view(s.remove(i)) =~= entries_view(s).remove(key));
    }
}

impl Json {
    /// The member under `key`, where this is an object that has one.
    pub fn get(&self, key: &str) -> (r: Option<&Json>)
        ensures
            view_opt(r) == self@.get(key@),
    {
        match self {
            Json::Object(o) => o.get(key),
            _ => None,
        }
    }

    /// The text, where this is a string.
    pub fn as_str(&self) -> (r: Option<&str>)
        ensures
            str_opt(r) == self@.as_str(),
    {
        match self {
            Json::String(s) => Some(s.as_str()),
            _ => None,
        }
    }

    /// The text under `key`, where there is one.
    pub fn get_str(&self, key: &str) -> (r: Option<&str>)
        ensures
            str_opt(r) == str_in(self@.get(key@)),
    {
        match self.get(key) {
            Some(v) => v.as_str(),
            None => None,
        }
    }

    /// Whether the text under `type` is this one.
    pub fn has_type(&self, kind: &str) -> (r: bool)
        ensures
            r == (str_in(self@.get("type"@)) == Some(kind@)),
    {
        match self.get_str("type") {
            Some(s) => str_eq(s, kind),
            None => false,
        }
    }

    /// The text under `key`, where there is one; `default` elsewhere.
    pub fn str_or<'a>(&'a self, key: &str, default: &'a str) -> (r: &'a str)
        ensures
            r@ == str_or(self@, key@, default@),
    {
        match self.get_str(key) {
            Some(s) => s,
            None => default,
        }
    }

    /// The truth value, where this is one.
    pub fn as_bool(&self) -> (r: Option<bool>)
        ensures
            r == self@.as_bool(),
    {
        match self {
            Json::Bool(b) => Some(*b),
            _ => None,
        }
    }

    /// The integer, where this is one that fits in an `i64`.
    pub fn as_i64(&self) -> (r: Option<i64>)
        ensures
            r == self@.as_i64(),
    {
        match self {
            Json::Number(n) => number_as_i64(n),
            _ => None,
        }
    }

    /// The integer, where this is one that fits in a `u64`.
    pub fn as_u64(&self) -> (r: Option<u64>)
        ensures
            r == self@.as_u64(),
    {
        match self {
            Json::Number(n) => number_as_u64(n),
            _ => None,
        }
    }

    /// The items, where this is an array.
    pub fn as_array(&self) -> (r: Option<&Vec<Json>>)
        ensures
            match r {
                Some(a) => self@ == Tree::Arr(values_view(a@)),
                None => !(self@ is Arr),
            },
    {
        match self {
            Json::Array(a) => Some(a),
            _ => None,
        }
    }

    /// The members, where this is an object.
    pub fn as_object(&self) -> (r: Option<&Object>)
        ensures
            match r {
                Some(o) => self@ == Tree::Obj(o@),
                None => !(self@ is Obj),
            },
    {
        match self {
            Json::Object(o) => Some(o),
            _ => None,
        }
    }

    /// Whether this is `null`.
    pub fn is_null(&self) -> (r: bool)
        ensures
            r == (self@ is Null),
    {
        match self {
            Json::Null => true,
            _ => false,
        }
    }

    /// The string that holds `s`.
    pub fn text(s: &str) -> (r: Json)
        ensures
            r@ == Tree::Str(s@),
    {
        Json::String(s.to_owned())
    }

    /// The number that holds `n`.
    pub fn from_i64(n: i64) -> (r: Json)
        ensures
            r@ == Tree::Int(n as int),
    {
        Json::Number(number_from_i64(n))
    }

    /// The number that holds `n`.
    pub fn from_u64(n: u64) -> (r: Json)
        ensures
            r@ == Tree::Int(n as int),
    {
        Json::Number(number_from_u64(n))
    }
}

impl Clone for Json {
    fn clone(&self) -> (r: Json)
        ensures
            r@ == self@,
        decreases self,
    {
        match self {
            Json::Null => Json::Null,
            Json::Bool(b) => Json::Bool(*b),
            Json::Number(n) => Json::Number(number_clone(n)),
            Json::String(s) => Json::String(s.clone()),
            Json::Array(a) => Json::Array(clone_items(a)),
            Json::Object(o) => Json::Object(o.clone()),
        }
    }
}

impl Clone for Object {
    fn clone(&self) -> (r: Object)
        ensures
            r@ == self@,
        decreases self,
    {
        proof {
            use_type_invariant(self);
        }
        let mut out: Vec<(String, Json)> = Vec::new();
        for i in 0..self.entries.len()
            invariant
                out@.len() == i,
                forall|j: int| 0 <= j < i ==> (#[trigger] out@[j]).0@ == self.entries@[j].0@,
                entries_view(out@) == entries_view(self.entries@.take(i as int)),
                decreases_to!(self => self.entries@),
        {
            assert(decreases_to!(self.entries@ => self.entries@[i as int]));
            assert(decreases_to!(self.entries@[i as int] => self.entries@[i as int].1));
            let ghost done = out@;
            let entry = &self.entries[i];
            out.push((entry.0.clone(), entry.1.clone()));
            assert(out@.drop_last() =~= done);
            assert(self.entries@.take(i + 1).drop_last() =~= self.entries@.take(i as int));
        }
        assert(self.entries@.take(self.entries@.len() as int) =~= self.entries@);
        assert(distinct_keys(out@));
        Object { entries: out }
    }
}

/// The integer under `key`, where there is one that fits in an `i64`.
pub fn opt_int(v: Option<&Json>, key: &str) -> (r: Option<i64>)
    ensures
        r == int_in(view_opt(v), key@),
{
    match v {
        Some(v) => match v.get(key) {
            Some(n) => n.as_i64(),
            None => None,
        },
        None => None,
    }
}

/// The integer under `key`, where there is one that fits in an `i64`; zero
/// elsewhere.
pub fn opt_int_or_zero(v: Option<&Json>, key: &str) -> (r: i64)
    ensures
        r == int_or_zero(view_opt(v), key@),
{
    match opt_int(v, key) {
        Some(n) => n,
        None => 0,
    }
}

/// A copy of a list of documents.
pub fn clone_items(a: &Vec<Json>) -> (r: Vec<Json>)
    ensures
        values_view(r@) == values_view(a@),
    decreases a,
{
    let mut out: Vec<Json> = Vec::new();
    for i in 0..a.len()
        invariant
            out@.len() == i,
            forall|j: int| 0 <= j < i ==> (#[trigger] out@[j])@ == a@[j]@,
            decreases_to!(a => a@),
    {
        assert(decreases_to!(a@ => a@[i as int]));
        out.push(a[i].clone());
    }
    assert(values_view(out@) =~= values_view(a@));
    out
}

} // verus!
