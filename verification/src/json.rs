//! JSON: documents to be sent, and the reading of documents that came in.
use vstd::prelude::*;
use vstd::string::*;

use crate::random::byte_hex;
use crate::text;
use crate::text::{i64_text, str_eq, u64_text};

verus! {

/// A JSON document to be sent. The members of an object stand in the order in
/// which they are written.
#[derive(Debug)]
pub enum Json {
    Null,
    Bool(bool),
    Int(i64),
    Unsigned(u64),
    Text(String),
    List(Vec<Json>),
    Object(Vec<(String, Json)>),
}

/// What a document holds.
pub enum JsonView {
    Null,
    Bool(bool),
    Int(int),
    Text(Seq<char>),
    List(Seq<JsonView>),
    Object(Seq<(Seq<char>, JsonView)>),
}

impl View for Json {
    type V = JsonView;

    open spec fn view(&self) -> JsonView
        decreases self,
    {
        match self {
            Json::Null => JsonView::Null,
            Json::Bool(b) => JsonView::Bool(*b),
            Json::Int(n) => JsonView::Int(*n as int),
            Json::Unsigned(n) => JsonView::Int(*n as int),
            Json::Text(s) => JsonView::Text(s@),
            Json::List(items) => JsonView::List(
                Seq::new(
                    items@.len(),
                    |i: int|
                        if 0 <= i < items@.len() {
                            items@[i].view()
                        } else {
                            JsonView::Null
                        },
                ),
            ),
            Json::Object(members) => JsonView::Object(
                Seq::new(
                    members@.len(),
                    |i: int|
                        if 0 <= i < members@.len() {
                            (members@[i].0@, members@[i].1.view())
                        } else {
                            (Seq::empty(), JsonView::Null)
                        },
                ),
            ),
        }
    }
}

/// What the items of a list hold.
pub open spec fn items_view(items: Seq<Json>) -> Seq<JsonView> {
    items.map_values(|j: Json| j@)
}

/// What the members of an object hold.
pub open spec fn members_view(members: Seq<(String, Json)>) -> Seq<(Seq<char>, JsonView)> {
    members.map_values(|m: (String, Json)| (m.0@, m.1@))
}

/// A list holds what its items hold, an object what its members hold.
pub proof fn lemma_json_views(j: Json)
    ensures
        match j {
            Json::List(items) => j@ == JsonView::List(items_view(items@)),
            Json::Object(members) => j@ == JsonView::Object(members_view(members@)),
            _ => true,
        },
{
    match j {
        Json::List(items) => {
            if let JsonView::List(v) = j@ {
                assert(v =~= items_view(items@));
            }
        },
        Json::Object(members) => {
            if let JsonView::Object(v) = j@ {
                assert forall|i: int| 0 <= i < v.len() implies v[i] == members_view(members@)[i] by {
                    reveal_with_fuel(<Json as View>::view, 2);
                }
                assert(v =~= members_view(members@));
            }
        },
        _ => {},
    }
}

/// The value of the first member with this name.
pub open spec fn member_value(members: Seq<(Seq<char>, JsonView)>, key: Seq<char>) -> Option<JsonView>
    decreases members.len(),
{
    if members.len() == 0 {
        None
    } else if members[0].0 == key {
        Some(members[0].1)
    } else {
        member_value(members.skip(1), key)
    }
}

impl Json {
    /// The value of a member of an object.
    pub fn get(&self, key: &str) -> (r: Option<&Json>)
        ensures
            match self@ {
                JsonView::Object(members) => match r {
                    Some(j) => member_value(members, key@) == Some(j@),
                    None => member_value(members, key@) is None,
                },
                _ => r is None,
            },
    {
        proof {
            lemma_json_views(*self);
        }
        match self {
            Json::Object(members) => {
                let ghost views = members_view(members@);
                let mut i: usize = 0;
                assert(views.skip(0) =~= views);
                while i < members.len()
                    invariant
                        i <= members.len(),
                        views == members_view(members@),
                        self@ == JsonView::Object(views),
                        member_value(views, key@) == member_value(views.skip(i as int), key@),
                    decreases members.len() - i,
                {
                    assert(views.skip(i as int)[0] == views[i as int]);
                    if str_eq(members[i].0.as_str(), key) {
                        return Some(&members[i].1);
                    }
                    assert(views.skip(i as int).skip(1) =~= views.skip(i + 1));
                    i += 1;
                }
                None
            },
            _ => None,
        }
    }

    /// The item of a list at a place.
    pub fn at(&self, i: usize) -> (r: Option<&Json>)
        ensures
            match self@ {
                JsonView::List(items) => match r {
                    Some(j) => i < items.len() && items[i as int] == j@,
                    None => i >= items.len(),
                },
                _ => r is None,
            },
    {
        match self {
            Json::List(items) => if i < items.len() {
                Some(&items[i])
            } else {
                None
            },
            _ => None,
        }
    }

    /// The text of a text.
    pub fn as_str(&self) -> (r: Option<&str>)
        ensures
            match self@ {
                JsonView::Text(s) => r is Some && r->0@ == s,
                _ => r is None,
            },
    {
        match self {
            Json::Text(s) => Some(s.as_str()),
            _ => None,
        }
    }

    /// The integer of a number.
    pub fn as_i64(&self) -> (r: Option<i64>)
        ensures
            match self@ {
                JsonView::Int(n) => if i64::MIN <= n <= i64::MAX {
                    r is Some && r->0 == n
                } else {
                    r is None
                },
                _ => r is None,
            },
    {
        match self {
            Json::Int(n) => Some(*n),
            Json::Unsigned(n) => if *n <= 0x7fff_ffff_ffff_ffff {
                Some(*n as i64)
            } else {
                None
            },
            _ => None,
        }
    }
}

// ---------------------------------------------------------------------------
// Building
// ---------------------------------------------------------------------------

/// The members of an object; none of anything else.
pub open spec fn members_of(j: JsonView) -> Seq<(Seq<char>, JsonView)> {
    match j {
        JsonView::Object(members) => members,
        _ => Seq::empty(),
    }
}

/// The items of a list; none of anything else.
pub open spec fn items_of(j: JsonView) -> Seq<JsonView> {
    match j {
        JsonView::List(items) => items,
        _ => Seq::empty(),
    }
}

/// The object without members.
pub open spec fn no_members() -> JsonView {
    JsonView::Object(Seq::empty())
}

/// The list without items.
pub open spec fn no_items() -> JsonView {
    JsonView::List(Seq::empty())
}

impl JsonView {
    /// An object with one more member.
    pub open spec fn with(self, key: Seq<char>, value: JsonView) -> JsonView {
        JsonView::Object(members_of(self).push((key, value)))
    }

    /// An object with one more text.
    pub open spec fn text(self, key: Seq<char>, value: Seq<char>) -> JsonView {
        self.with(key, JsonView::Text(value))
    }

    /// An object with one more text, where there is one.
    pub open spec fn opt_text(self, key: Seq<char>, value: Option<Seq<char>>) -> JsonView {
        match value {
            Some(s) => self.text(key, s),
            None => self,
        }
    }

    /// A list with one more item.
    pub open spec fn and(self, item: JsonView) -> JsonView {
        JsonView::List(items_of(self).push(item))
    }
}

/// The value of a member of an object.
pub open spec fn field(j: JsonView, key: Seq<char>) -> Option<JsonView> {
    member_value(members_of(j), key)
}

proof fn lemma_pushed_member(
    members: Seq<(Seq<char>, JsonView)>,
    key: Seq<char>,
    value: JsonView,
    wanted: Seq<char>,
)
    ensures
        member_value(members.push((key, value)), wanted) == (match member_value(members, wanted) {
            Some(v) => Some(v),
            None => if key == wanted {
                Some(value)
            } else {
                None
            },
        }),
    decreases members.len(),
{
    let more = members.push((key, value));
    if members.len() == 0 {
        assert(more.skip(1).len() == 0);
        assert(member_value(more.skip(1), wanted) is None);
    } else {
        assert(more.skip(1) =~= members.skip(1).push((key, value)));
        lemma_pushed_member(members.skip(1), key, value, wanted);
    }
}

/// A member that is put behind others has its value, unless one of them has its name.
pub broadcast proof fn lemma_field_of_with(j: JsonView, key: Seq<char>, value: JsonView, wanted: Seq<char>)
    ensures
        #[trigger] field(j.with(key, value), wanted) == (match field(j, wanted) {
            Some(v) => Some(v),
            None => if key == wanted {
                Some(value)
            } else {
                None
            },
        }),
{
    lemma_pushed_member(members_of(j), key, value, wanted);
}

/// The object without members has none of any name.
pub broadcast proof fn lemma_field_of_nothing(wanted: Seq<char>)
    ensures
        #[trigger] field(no_members(), wanted) is None,
{
}

pub broadcast group group_fields {
    lemma_field_of_with,
    lemma_field_of_nothing,
}

/// A text.
pub fn text_value(s: &str) -> (r: Json)
    ensures
        r@ == JsonView::Text(s@),
{
    Json::Text(s.to_owned())
}

/// A number.
pub fn number(n: u64) -> (r: Json)
    ensures
        r@ == JsonView::Int(n as int),
{
    Json::Unsigned(n)
}

/// An object without members.
pub fn object() -> (r: Json)
    ensures
        r@ == no_members(),
{
    let members: Vec<(String, Json)> = Vec::new();
    let r = Json::Object(members);
    proof {
        lemma_json_views(r);
        assert(members_view(members@) =~= Seq::empty());
    }
    r
}

/// A list without items.
pub fn list() -> (r: Json)
    ensures
        r@ == no_items(),
{
    let items: Vec<Json> = Vec::new();
    let r = Json::List(items);
    proof {
        lemma_json_views(r);
        assert(items_view(items@) =~= Seq::empty());
    }
    r
}

impl Json {
    /// An object with one more member.
    pub fn with(self, key: &str, value: Json) -> (r: Json)
        requires
            self@ is Object,
        ensures
            r@ == self@.with(key@, value@),
    {
        proof {
            lemma_json_views(self);
        }
        match self {
            Json::Object(members) => {
                let mut all = members;
                all.push((key.to_owned(), value));
                let r = Json::Object(all);
                proof {
                    lemma_json_views(r);
                    assert(members_view(all@) =~= members_view(members@).push((key@, value@)));
                }
                r
            },
            other => other,
        }
    }

    /// An object with one more text.
    pub fn text(self, key: &str, value: &str) -> (r: Json)
        requires
            self@ is Object,
        ensures
            r@ == self@.text(key@, value@),
    {
        self.with(key, text_value(value))
    }

    /// An object with one more text, where there is one.
    pub fn opt_text(self, key: &str, value: Option<&str>) -> (r: Json)
        requires
            self@ is Object,
        ensures
            r@ == self@.opt_text(key@, crate::types::opt_str(value)),
    {
        match value {
            Some(s) => self.text(key, s),
            None => self,
        }
    }

    /// A list with one more item.
    pub fn and(self, item: Json) -> (r: Json)
        requires
            self@ is List,
        ensures
            r@ == self@.and(item@),
    {
        proof {
            lemma_json_views(self);
        }
        match self {
            Json::List(items) => {
                let mut all = items;
                all.push(item);
                let r = Json::List(all);
                proof {
                    lemma_json_views(r);
                    assert(items_view(all@) =~= items_view(items@).push(item@));
                }
                r
            },
            other => other,
        }
    }
}

// ---------------------------------------------------------------------------
// Writing
// ---------------------------------------------------------------------------

/// How a character is written inside a JSON string literal: quote, backslash and
/// the five control characters with a letter of their own behind a backslash, the
/// other control characters below the space by their number, the rest as it is.
pub open spec fn json_char(c: char) -> Seq<char> {
    if c == '"' {
        seq!['\\', '"']
    } else if c == '\\' {
        seq!['\\', '\\']
    } else if c == '\u{8}' {
        seq!['\\', 'b']
    } else if c == '\t' {
        seq!['\\', 't']
    } else if c == '\n' {
        seq!['\\', 'n']
    } else if c == '\u{c}' {
        seq!['\\', 'f']
    } else if c == '\r' {
        seq!['\\', 'r']
    } else if (c as u32) < 0x20 {
        seq!['\\', 'u', '0', '0'] + byte_hex(c as u32 as int)
    } else {
        seq![c]
    }
}

/// The characters of a text as they are written inside a JSON string literal.
pub open spec fn json_chars(s: Seq<char>) -> Seq<char>
    decreases s.len(),
{
    if s.len() == 0 {
        Seq::empty()
    } else {
        json_chars(s.drop_last()) + json_char(s.last())
    }
}

/// A text as a JSON string literal, quotes and escapes included.
pub open spec fn json_quoted(s: Seq<char>) -> Seq<char> {
    "\""@ + json_chars(s) + "\""@
}

/// `serde_json::to_string` on a string: its characters between two quotes, those
/// that a JSON string literal cannot hold as they are written as escapes.
/// Serializing a string cannot fail.
#[verifier::external_body]
pub(crate) fn quote(s: &str) -> (r: String)
    ensures
        r@ == json_quoted(s@),
{
    serde_json::to_string(s).unwrap_or_default()
}

/// A document in its shortest form, without white space.
pub open spec fn json_text(j: JsonView) -> Seq<char>
    decreases j,
{
    match j {
        JsonView::Null => "null"@,
        JsonView::Bool(b) => if b {
            "true"@
        } else {
            "false"@
        },
        JsonView::Int(n) => text::int_text(n),
        JsonView::Text(s) => json_quoted(s),
        JsonView::List(items) => "["@ + items_text(items) + "]"@,
        JsonView::Object(members) => "{"@ + members_text(members) + "}"@,
    }
}

/// The items of a list with commas between them.
pub open spec fn items_text(items: Seq<JsonView>) -> Seq<char>
    decreases items,
{
    if items.len() == 0 {
        Seq::empty()
    } else if items.len() == 1 {
        json_text(items[0])
    } else {
        items_text(items.subrange(0, items.len() - 1)) + ","@ + json_text(items[items.len() - 1])
    }
}

/// The members of an object with commas between them.
pub open spec fn members_text(members: Seq<(Seq<char>, JsonView)>) -> Seq<char>
    decreases members,
{
    if members.len() == 0 {
        Seq::empty()
    } else if members.len() == 1 {
        json_quoted(members[0].0) + ":"@ + json_text(members[0].1)
    } else {
        let last = members[members.len() - 1];
        members_text(members.subrange(0, members.len() - 1)) + ","@ + (json_quoted(last.0) + ":"@ + json_text(last.1))
    }
}

fn write_into(j: &Json, out: &mut String)
    ensures
        final(out)@ == old(out)@ + json_text(j@),
    decreases j,
{
    proof {
        lemma_json_views(*j);
    }
    match j {
        Json::Null => out.append("null"),
        Json::Bool(b) => if *b {
            out.append("true")
        } else {
            out.append("false")
        },
        Json::Int(n) => out.append(i64_text(*n).as_str()),
        Json::Unsigned(n) => out.append(u64_text(*n).as_str()),
        Json::Text(s) => out.append(quote(s.as_str()).as_str()),
        Json::List(items) => {
            out.append("[");
            let ghost views = items_view(items@);
            let ghost start = out@;
            let mut i: usize = 0;
            assert(start + items_text(views.take(0)) =~= start);
            while i < items.len()
                invariant
                    i <= items.len(),
                    *j == Json::List(*items),
                    views == items_view(items@),
                    out@ == start + items_text(views.take(i as int)),
                decreases items.len() - i,
            {
                if i > 0 {
                    out.append(",");
                }
                assert(decreases_to!(j => j->List_0));
                assert(decreases_to!(items => items@));
                assert(decreases_to!(items@ => items@[i as int]));
                write_into(&items[i], out);
                i += 1;
                assert(views.take(i as int).subrange(0, i - 1) =~= views.take(i - 1));
                assert(views.take(i as int)[i - 1] == views[i - 1]);
                assert(out@ =~= start + items_text(views.take(i as int)));
            }
            assert(views.take(views.len() as int) =~= views);
            out.append("]");
            assert(out@ =~= old(out)@ + json_text(j@));
        },
        Json::Object(members) => {
            out.append("{");
            let ghost views = members_view(members@);
            let ghost start = out@;
            let mut i: usize = 0;
            assert(start + members_text(views.take(0)) =~= start);
            while i < members.len()
                invariant
                    i <= members.len(),
                    *j == Json::Object(*members),
                    views == members_view(members@),
                    out@ == start + members_text(views.take(i as int)),
                decreases members.len() - i,
            {
                let ghost before = out@;
                if i > 0 {
                    out.append(",");
                }
                out.append(quote(members[i].0.as_str()).as_str());
                out.append(":");
                assert(decreases_to!(j => j->Object_0));
                assert(decreases_to!(members => members@));
                assert(decreases_to!(members@ => members@[i as int]));
                assert(decreases_to!(members@[i as int] => members@[i as int].1));
                write_into(&members[i].1, out);
                i += 1;
                assert(views.take(i as int).subrange(0, i - 1) =~= views.take(i - 1));
                assert(views.take(i as int)[i - 1] == views[i - 1]);
                assert(out@ =~= start + members_text(views.take(i as int)));
            }
            assert(views.take(views.len() as int) =~= views);
            out.append("}");
            assert(out@ =~= old(out)@ + json_text(j@));
        },
    }
}

/// A document in its shortest form.
pub fn write_json(j: &Json) -> (r: String)
    ensures
        r@ == json_text(j@),
{
    let mut out = String::new();
    write_into(j, &mut out);
    assert(out@ =~= json_text(j@));
    out
}

// ---------------------------------------------------------------------------
// Reading
// ---------------------------------------------------------------------------

/// The outermost layer of a document that came in: each member of an object is kept
/// as the text of a document of its own. Of a number or a list nothing is kept.
#[derive(Debug)]
pub enum JsonNode {
    Null,
    Bool(bool),
    Number,
    Text(String),
    List,
    Object(Vec<(String, String)>),
}

/// What the outermost layer holds.
#[verifier::ext_equal]
pub enum NodeView {
    Null,
    Bool(bool),
    Number,
    Text(Seq<char>),
    List,
    Object(Seq<(Seq<char>, Seq<char>)>),
}

/// What pairs of strings hold.
pub open spec fn text_pairs(pairs: Seq<(String, String)>) -> Seq<(Seq<char>, Seq<char>)> {
    pairs.map_values(|p: (String, String)| (p.0@, p.1@))
}

impl View for JsonNode {
    type V = NodeView;

    open spec fn view(&self) -> NodeView {
        match self {
            JsonNode::Null => NodeView::Null,
            JsonNode::Bool(b) => NodeView::Bool(*b),
            JsonNode::Number => NodeView::Number,
            JsonNode::Text(s) => NodeView::Text(s@),
            JsonNode::List => NodeView::List,
            JsonNode::Object(members) => NodeView::Object(text_pairs(members@)),
        }
    }
}

/// What an optional layer holds.
pub open spec fn opt_node(n: Option<JsonNode>) -> Option<NodeView> {
    match n {
        Some(node) => Some(node@),
        None => None,
    }
}

/// The outermost layer of the document that a text holds, where it holds one:
/// members by the text that `serde_json::Value` writes for them.
pub uninterp spec fn json_node(text: Seq<char>) -> Option<NodeView>;

/// `serde_json::from_str` into a `serde_json::Value`: the outermost layer of the
/// document in `text`, or nothing where `text` holds no document. The layer is
/// the value's own variant: a truth value and a text with what they hold, an object
/// with its members in the order in which the value holds them, each by its text
/// form (`Value`'s `Display`), and of a number or a list only that it is one. All of
/// it depends on `text` alone. What the layer is for a given text is left unsaid: the
/// grammar of JSON is `serde_json`'s.
#[verifier::external_body]
pub(crate) fn parse_node(text: &str) -> (r: Option<JsonNode>)
    ensures
        opt_node(r) == json_node(text@),
{
    serde_json::from_str::<serde_json::Value>(text).ok().map(|v| match v {
        serde_json::Value::Null => JsonNode::Null,
        serde_json::Value::Bool(b) => JsonNode::Bool(b),
        serde_json::Value::Number(_) => JsonNode::Number,
        serde_json::Value::String(s) => JsonNode::Text(s),
        serde_json::Value::Array(_) => JsonNode::List,
        serde_json::Value::Object(m) => JsonNode::Object(m.iter().map(|(k, x)| (k.clone(), x.to_string())).collect()),
    })
}

/// The second of the first pair that starts with `key`.
pub open spec fn pair_value(pairs: Seq<(Seq<char>, Seq<char>)>, key: Seq<char>) -> Option<Seq<char>>
    decreases pairs.len(),
{
    if pairs.len() == 0 {
        None
    } else if pairs[0].0 == key {
        Some(pairs[0].1)
    } else {
        pair_value(pairs.skip(1), key)
    }
}

/// The second of the first pair that starts with `key`.
pub fn find_pair<'a>(pairs: &'a Vec<(String, String)>, key: &str) -> (r: Option<&'a str>)
    ensures
        crate::types::opt_str(r) == pair_value(text_pairs(pairs@), key@),
{
    let ghost views = text_pairs(pairs@);
    let mut i: usize = 0;
    assert(views.skip(0) =~= views);
    while i < pairs.len()
        invariant
            i <= pairs.len(),
            views == text_pairs(pairs@),
            pair_value(views, key@) == pair_value(views.skip(i as int), key@),
        decreases pairs.len() - i,
    {
        assert(views.skip(i as int)[0] == views[i as int]);
        if str_eq(pairs[i].0.as_str(), key) {
            return Some(pairs[i].1.as_str());
        }
        assert(views.skip(i as int).skip(1) =~= views.skip(i + 1));
        i += 1;
    }
    None
}

/// The text of a member of a layer that is an object.
pub open spec fn member_text(node: Option<NodeView>, key: Seq<char>) -> Option<Seq<char>> {
    match node {
        Some(NodeView::Object(members)) => pair_value(members, key),
        _ => None,
    }
}

/// The text of a member of a layer that is an object.
pub fn find_member(node: &Option<JsonNode>, key: &str) -> (r: Option<String>)
    ensures
        crate::types::opt_text(r) == member_text(opt_node(*node), key@),
{
    match node {
        Some(JsonNode::Object(members)) => match find_pair(members, key) {
            Some(value) => Some(value.to_owned()),
            None => None,
        },
        _ => None,
    }
}

/// The layer of an optional document.
pub open spec fn opt_document(text: Option<Seq<char>>) -> Option<NodeView> {
    match text {
        Some(s) => json_node(s),
        None => None,
    }
}

/// The layer of an optional document.
pub fn parse_opt(text: &Option<String>) -> (r: Option<JsonNode>)
    ensures
        opt_node(r) == opt_document(crate::types::opt_text(*text)),
{
    match text {
        Some(s) => parse_node(s.as_str()),
        None => None,
    }
}

/// The layer of a member of the object in `text`.
pub open spec fn json_member(text: Seq<char>, key: Seq<char>) -> Option<NodeView> {
    opt_document(member_text(json_node(text), key))
}

/// The layer of an optional text.
pub open spec fn text_node(s: Option<Seq<char>>) -> Option<NodeView> {
    match s {
        Some(t) => Some(NodeView::Text(t)),
        None => None,
    }
}

/// `serde_json::to_string` on a map from texts to texts: the document of an
/// object with these members. Read back, it is an object in which each member
/// holds its text, and in which there are no others.
#[verifier::external_body]
pub(crate) fn object_text(pairs: &Vec<(String, String)>) -> (r: String)
    requires
        crate::text_map::keys_unique(pairs@),
    ensures
        json_node(r@) is Some,
        json_node(r@)->0 is Object,
        forall|key: Seq<char>| #[trigger] json_member(r@, key) == text_node(pair_value(text_pairs(pairs@), key)),
        forall|key: Seq<char>| #[trigger]
            member_text(json_node(r@), key) is Some <==> pair_value(text_pairs(pairs@), key) is Some,
{
    let members: serde_json::Map<String, serde_json::Value> =
        pairs.iter().map(|p| (p.0.clone(), serde_json::Value::String(p.1.clone()))).collect();
    serde_json::to_string(&members).unwrap_or_default()
}

/// The layer of a member of the object in `text`.
pub fn get_member(text: &str, key: &str) -> (r: Option<JsonNode>)
    ensures
        opt_node(r) == json_member(text@, key@),
{
    parse_opt(&find_member(&parse_node(text), key))
}

/// The text of a layer that is a text.
pub open spec fn node_str(n: Option<NodeView>) -> Option<Seq<char>> {
    match n {
        Some(NodeView::Text(s)) => Some(s),
        _ => None,
    }
}

/// The text of a member of the object in `text`, where it is a text.
pub fn get_str(text: &str, key: &str) -> (r: Option<String>)
    ensures
        crate::types::opt_text(r) == node_str(json_member(text@, key@)),
{
    as_text(get_member(text, key))
}

/// The text of a layer that is a text.
pub fn as_text(n: Option<JsonNode>) -> (r: Option<String>)
    ensures
        crate::types::opt_text(r) == node_str(opt_node(n)),
{
    match n {
        Some(JsonNode::Text(s)) => Some(s),
        _ => None,
    }
}

/// A text without quotes, backslashes and control characters is written between two quotes as
/// it is.
pub proof fn law_plain_text_is_written_as_it_is(s: Seq<char>)
    requires
        forall|i: int| 0 <= i < s.len() ==> (#[trigger] s[i]) != '"' && s[i] != '\\' && s[i] as u32 >= 0x20,
    ensures
        json_text(JsonView::Text(s)) == seq!['"'] + s + seq!['"'],
{
    reveal_strlit("\"");
    lemma_plain_chars(s);
    assert("\""@ =~= seq!['"']);
}

proof fn lemma_plain_chars(s: Seq<char>)
    requires
        forall|i: int| 0 <= i < s.len() ==> (#[trigger] s[i]) != '"' && s[i] != '\\' && s[i] as u32 >= 0x20,
    ensures
        json_chars(s) == s,
    decreases s.len(),
{
    if s.len() > 0 {
        assert forall|i: int| 0 <= i < s.drop_last().len() implies (#[trigger] s.drop_last()[i]) != '"'
            && s.drop_last()[i] != '\\' && s.drop_last()[i] as u32 >= 0x20 by {
            assert(s.drop_last()[i] == s[i]);
        }
        lemma_plain_chars(s.drop_last());
        assert(s[s.len() - 1] as u32 >= 0x20);
        assert(json_char(s.last()) =~= seq![s.last()]);
        assert(s =~= s.drop_last() + seq![s.last()]);
    }
}

/// A quote, a backslash and a line break inside a text are written behind a backslash, each
/// in its place.
pub proof fn law_special_characters_are_escaped(a: Seq<char>, b: Seq<char>)
    ensures
        json_chars(a.push('"')) == json_chars(a) + seq!['\\', '"'],
        json_chars(a.push('\\')) == json_chars(a) + seq!['\\', '\\'],
        json_chars(a.push('\n')) == json_chars(a) + seq!['\\', 'n'],
        json_chars(a.push('\t')) == json_chars(a) + seq!['\\', 't'],
        json_chars(a.push('\r')) == json_chars(a) + seq!['\\', 'r'],
        json_chars(a + b) == json_chars(a) + json_chars(b),
    decreases b.len(),
{
    assert(a.push('"').drop_last() =~= a);
    assert(a.push('\\').drop_last() =~= a);
    assert(a.push('\n').drop_last() =~= a);
    assert(a.push('\t').drop_last() =~= a);
    assert(a.push('\r').drop_last() =~= a);
    if b.len() == 0 {
        assert(a + b =~= a);
        assert(json_chars(b) =~= Seq::<char>::empty());
    } else {
        law_special_characters_are_escaped(a, b.drop_last());
        assert((a + b).drop_last() =~= a + b.drop_last());
        assert((a + b).last() == b.last());
    }
}

/// A list is written between brackets and an object between braces, item by item and member
/// by member with commas between them.
pub proof fn law_documents_are_written_part_by_part(
    items: Seq<JsonView>,
    item: JsonView,
    members: Seq<(Seq<char>, JsonView)>,
    key: Seq<char>,
)
    ensures
        json_text(JsonView::Null) == "null"@,
        json_text(JsonView::Bool(true)) == "true"@,
        json_text(JsonView::Bool(false)) == "false"@,
        json_text(JsonView::List(items)) == "["@ + items_text(items) + "]"@,
        items_text(seq![item]) == json_text(item),
        items.len() > 0 ==> items_text(items.push(item)) == items_text(items) + ","@ + json_text(item),
        json_text(JsonView::Object(members)) == "{"@ + members_text(members) + "}"@,
        members_text(seq![(key, item)]) == json_text(JsonView::Text(key)) + ":"@ + json_text(item),
        members.len() > 0 ==> members_text(members.push((key, item))) == members_text(members) + ","@ + (json_text(
            JsonView::Text(key),
        ) + ":"@ + json_text(item)),
        items_text(Seq::empty()).len() == 0,
        members_text(Seq::empty()).len() == 0,
{
    let more = items.push(item);
    assert(more.subrange(0, more.len() - 1) =~= items);
    let wider = members.push((key, item));
    assert(wider.subrange(0, wider.len() - 1) =~= members);
}

/// The first pair of a name counts, and a name that is not there has no value.
pub proof fn law_first_pair_counts(
    before: Seq<(Seq<char>, Seq<char>)>,
    key: Seq<char>,
    value: Seq<char>,
    after: Seq<(Seq<char>, Seq<char>)>,
)
    requires
        forall|i: int| 0 <= i < before.len() ==> (#[trigger] before[i]).0 != key,
    ensures
        pair_value(before + seq![(key, value)] + after, key) == Some(value),
        pair_value(before, key) is None,
    decreases before.len(),
{
    let all = before + seq![(key, value)] + after;
    if before.len() > 0 {
        let rest = before.skip(1);
        assert forall|i: int| 0 <= i < rest.len() implies (#[trigger] rest[i]).0 != key by {
            assert(rest[i] == before[i + 1]);
        }
        law_first_pair_counts(rest, key, value, after);
        assert(all.skip(1) =~= rest + seq![(key, value)] + after);
        assert(all[0] == before[0]);
        assert(before[0].0 != key);
    } else {
        assert(all[0] == (key, value));
    }
}

/// A member of a document is the document that stands under its name.
pub proof fn law_member_is_the_document_under_its_name(
    text: Seq<char>,
    members: Seq<(Seq<char>, Seq<char>)>,
    key: Seq<char>,
)
    requires
        json_node(text) == Some(NodeView::Object(members)),
    ensures
        pair_value(members, key) is Some ==> json_member(text, key) == json_node(pair_value(members, key)->0),
        pair_value(members, key) is None ==> json_member(text, key) is None,
{
}

} // verus!
