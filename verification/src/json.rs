//! JSON documents: an owned tree, its mathematical model, member lookup,
//! compact rendering, and parsing through `serde_json`.
use vstd::prelude::*;
use vstd::string::*;

verus! {

#[verifier::external_type_specification]
#[verifier::external_body]
pub struct ExSerdeJsonError(serde_json::Error);

#[verifier::external_type_specification]
#[verifier::external_body]
pub struct ExSerdeJsonValue(serde_json::Value);

/// An owned JSON document. Numbers keep the text that `serde_json` gives them.
/// Object members keep the order they were built in; a document read by
/// `parse_json` has its members sorted by key, as `serde_json::Value` keeps
/// them.
#[derive(Debug, PartialEq)]
pub enum JsonValue {
    Null,
    Bool(bool),
    Number(String),
    String(String),
    Array(Vec<JsonValue>),
    Object(Vec<(String, JsonValue)>),
}

/// The mathematical model of a JSON document.
pub enum JsonTree {
    Null,
    Bool(bool),
    Number(Seq<char>),
    Str(Seq<char>),
    Array(Seq<JsonTree>),
    Object(Seq<(Seq<char>, JsonTree)>),
}

impl JsonValue {
    /// The model of this document.
    pub open spec fn tree(&self) -> JsonTree
        decreases self,
    {
        match self {
            JsonValue::Null => JsonTree::Null,
            JsonValue::Bool(b) => JsonTree::Bool(*b),
            JsonValue::Number(t) => JsonTree::Number(t@),
            JsonValue::String(s) => JsonTree::Str(s@),
            JsonValue::Array(items) => JsonTree::Array(
                Seq::new(
                    items@.len(),
                    |i: int|
                        if 0 <= i < items@.len() {
                            items@[i].tree()
                        } else {
                            JsonTree::Null
                        },
                ),
            ),
            JsonValue::Object(entries) => JsonTree::Object(
                Seq::new(
                    entries@.len(),
                    |i: int|
                        if 0 <= i < entries@.len() {
                            (entries@[i].0@, entries@[i].1.tree())
                        } else {
                            (Seq::empty(), JsonTree::Null)
                        },
                ),
            ),
        }
    }
}

impl View for JsonValue {
    type V = JsonTree;

    open spec fn view(&self) -> JsonTree {
        self.tree()
    }
}

/// The value of the first member named `key`, if any.
pub open spec fn lookup(entries: Seq<(Seq<char>, JsonTree)>, key: Seq<char>) -> Option<JsonTree>
    decreases entries.len(),
{
    if entries.len() == 0 {
        None
    } else if entries[0].0 == key {
        Some(entries[0].1)
    } else {
        lookup(entries.drop_first(), key)
    }
}

impl JsonTree {
    /// The member `key` of an object; nothing for other documents.
    pub open spec fn member(self, key: Seq<char>) -> Option<JsonTree> {
        match self {
            JsonTree::Object(entries) => lookup(entries, key),
            _ => None,
        }
    }

    /// The boolean that this document is, if it is one.
    pub open spec fn as_bool(self) -> Option<bool> {
        match self {
            JsonTree::Bool(b) => Some(b),
            _ => None,
        }
    }

    /// The string that this document is, if it is one.
    pub open spec fn as_str(self) -> Option<Seq<char>> {
        match self {
            JsonTree::Str(s) => Some(s),
            _ => None,
        }
    }
}

/// The document that `serde_json` reads from a text, or nothing when it
/// rejects the text.
pub uninterp spec fn serde_json_document(text: Seq<char>) -> Option<JsonTree>;

/// The lowercase hexadecimal digit of a value below 16.
pub open spec fn hex_digit(d: nat) -> char {
    seq!['0', '1', '2', '3', '4', '5', '6', '7', '8', '9', 'a', 'b', 'c', 'd', 'e', 'f'][d as int]
}

/// How `serde_json` writes one character inside a string literal: a quote
/// and a backslash are escaped with a backslash, the control characters
/// below U+0020 with their short escape or as `\u00XX`, every other
/// character as it is.
pub open spec fn escape_char(c: char) -> Seq<char> {
    if c == '"' {
        seq!['\\', '"']
    } else if c == '\\' {
        seq!['\\', '\\']
    } else if c == '\u{8}' {
        seq!['\\', 'b']
    } else if c == '\t' {
        seq!['\\', 't']
    } else if c == '\n' {
        seq!['\\', 'n']
    } else if c == '\u{c}' {
        seq!['\\', 'f']
    } else if c == '\r' {
        seq!['\\', 'r']
    } else if (c as nat) < 0x20 {
        seq!['\\', 'u', '0', '0', hex_digit(c as nat / 16), hex_digit(c as nat % 16)]
    } else {
        seq![c]
    }
}

/// The characters of a string, each escaped.
pub open spec fn escaped(s: Seq<char>) -> Seq<char>
    decreases s.len(),
{
    if s.len() == 0 {
        seq![]
    } else {
        escaped(s.drop_last()) + escape_char(s.last())
    }
}

/// The JSON string literal of a text: its escaped characters in quotes.
pub open spec fn string_literal_text(s: Seq<char>) -> Seq<char> {
    seq!['"'] + escaped(s) + seq!['"']
}

/// The compact rendering of a document: no whitespace, members and items
/// separated by commas, strings as their literals, numbers by their text.
pub open spec fn tree_text(v: JsonTree) -> Seq<char>
    decreases v, 0nat,
{
    match v {
        JsonTree::Null => seq!['n', 'u', 'l', 'l'],
        JsonTree::Bool(b) => if b {
            seq!['t', 'r', 'u', 'e']
        } else {
            seq!['f', 'a', 'l', 's', 'e']
        },
        JsonTree::Number(t) => t,
        JsonTree::Str(s) => string_literal_text(s),
        JsonTree::Array(items) => seq!['['] + items_text(items, items.len()) + seq![']'],
        JsonTree::Object(entries) => seq!['{'] + entries_text(entries, entries.len()) + seq!['}'],
    }
}

/// The rendering of the first `n` items, separated by commas.
pub open spec fn items_text(items: Seq<JsonTree>, n: nat) -> Seq<char>
    decreases items, n,
{
    if n == 0 || n > items.len() {
        seq![]
    } else if n == 1 {
        tree_text(items[0])
    } else {
        items_text(items, (n - 1) as nat) + seq![','] + tree_text(items[n - 1])
    }
}

/// The rendering of one member: the key's literal, a colon, the value.
pub open spec fn member_text(key: Seq<char>, value: Seq<char>) -> Seq<char> {
    string_literal_text(key) + seq![':'] + value
}

/// The rendering of the first `n` members, separated by commas.
pub open spec fn entries_text(entries: Seq<(Seq<char>, JsonTree)>, n: nat) -> Seq<char>
    decreases entries, n,
{
    if n == 0 || n > entries.len() {
        seq![]
    } else if n == 1 {
        member_text(entries[0].0, tree_text(entries[0].1))
    } else {
        entries_text(entries, (n - 1) as nat) + seq![','] + member_text(
            entries[n - 1].0,
            tree_text(entries[n - 1].1),
        )
    }
}

/// Renders a string as a JSON string literal with `serde_json::to_string`.
/// Serializing a `str` writes its escaped characters between quotes into a
/// `Vec<u8>` (`format_escaped_str` and its `ESCAPE` table), which cannot
/// fail, so the result is always `Ok`.
#[verifier::external_body]
fn string_literal(s: &str) -> (r: Result<String, serde_json::Error>)
    ensures
        match r {
            Ok(t) => t@ == string_literal_text(s@),
            Err(_) => false,
        },
{
    serde_json::to_string(s)
}

/// Reads a JSON document with `serde_json::from_str`. The contract names the
/// document that `serde_json` reads; it says nothing of the error that it
/// reports.
#[verifier::external_body]
pub(crate) fn parse_json(text: &str) -> (r: Result<JsonValue, serde_json::Error>)
    ensures
        match r {
            Ok(v) => serde_json_document(text@) == Some(v@),
            Err(_) => serde_json_document(text@) is None,
        },
{
    serde_json::from_str::<serde_json::Value>(text).map(JsonValue::from_serde)
}

/// Renders the message of a `serde_json` error with its `Display` impl. No
/// contract: the message depends on the inside of the error.
#[verifier::external_body]
pub(crate) fn serde_error_text(error: &serde_json::Error) -> String {
    error.to_string()
}

impl JsonValue {
    /// Moves a `serde_json::Value` into a `JsonValue`, one node for one node.
    /// It serves `parse_json`, whose contract covers the result.
    #[verifier::external_body]
    fn from_serde(value: serde_json::Value) -> JsonValue {
        match value {
            serde_json::Value::Null => JsonValue::Null,
            serde_json::Value::Bool(b) => JsonValue::Bool(b),
            serde_json::Value::Number(n) => JsonValue::Number(n.to_string()),
            serde_json::Value::String(s) => JsonValue::String(s),
            serde_json::Value::Array(items) => JsonValue::Array(
                items.into_iter().map(JsonValue::from_serde).collect(),
            ),
            serde_json::Value::Object(map) => JsonValue::Object(
                map.into_iter().map(|(k, v)| (k, JsonValue::from_serde(v))).collect(),
            ),
        }
    }

    /// The member `key` of an object; `None` for a missing member or for a
    /// document that is no object.
    #[verifier::loop_isolation(false)]
    pub fn member(&self, key: &str) -> (r: Option<&JsonValue>)
        ensures
            match r {
                Some(m) => self@.member(key@) == Some(m@),
                None => self@.member(key@) is None,
            },
    {
        match self {
            JsonValue::Object(entries) => {
                let ghost trees = self@->Object_0;
                assert(trees.skip(0) =~= trees);
                let mut i: usize = 0;
                while i < entries.len()
                    invariant
                        trees.len() == entries@.len(),
                        forall|j: int|
                            0 <= j < entries@.len() ==> #[trigger] trees[j] == (
                                entries@[j].0@,
                                entries@[j].1@,
                            ),
                        i <= entries@.len(),
                        lookup(trees, key@) == lookup(trees.skip(i as int), key@),
                    decreases entries@.len() - i,
                {
                    assert(trees.skip(i as int).drop_first() =~= trees.skip(i + 1));
                    if crate::text::same_text(entries[i].0.as_str(), key) {
                        assert(trees.skip(i as int)[0] == trees[i as int]);
                        return Some(&entries[i].1);
                    }
                    i = i + 1;
                }
                None
            },
            _ => None,
        }
    }

    /// The boolean that this document is, if it is one.
    pub fn as_bool(&self) -> (r: Option<bool>)
        ensures
            r == self@.as_bool(),
    {
        match self {
            JsonValue::Bool(b) => Some(*b),
            _ => None,
        }
    }

    /// The string that this document is, if it is one.
    pub fn as_str(&self) -> (r: Option<&str>)
        ensures
            match r {
                Some(s) => self@.as_str() == Some(s@),
                None => self@.as_str() is None,
            },
    {
        match self {
            JsonValue::String(s) => Some(s.as_str()),
            _ => None,
        }
    }

    /// A copy of this document.
    #[verifier::loop_isolation(false)]
    pub fn deep_clone(&self) -> (r: JsonValue)
        ensures
            r@ == self@,
        decreases self,
    {
        match self {
            JsonValue::Null => JsonValue::Null,
            JsonValue::Bool(b) => JsonValue::Bool(*b),
            JsonValue::Number(t) => JsonValue::Number(t.clone()),
            JsonValue::String(s) => JsonValue::String(s.clone()),
            JsonValue::Array(items) => {
                let mut copy: Vec<JsonValue> = Vec::new();
                let mut i: usize = 0;
                while i < items.len()
                    invariant
                        i <= items@.len(),
                        copy@.len() == i,
                        forall|j: int| 0 <= j < i ==> #[trigger] copy@[j]@ == items@[j]@,
                    decreases items@.len() - i,
                {
                    proof {
                        assert(decreases_to!(items => items@));
                        assert(decreases_to!(items@ => items@[i as int]));
                    }
                    let item = items[i].deep_clone();
                    copy.push(item);
                    i = i + 1;
                }
                let r = JsonValue::Array(copy);
                assert forall|j: int| 0 <= j < copy@.len() implies r@->Array_0[j] == self@->Array_0[j] by {
                    assert(copy@[j]@ == items@[j]@);
                }
                assert(r@->Array_0 =~= self@->Array_0);
                r
            },
            JsonValue::Object(entries) => {
                let mut copy: Vec<(String, JsonValue)> = Vec::new();
                let mut i: usize = 0;
                while i < entries.len()
                    invariant
                        i <= entries@.len(),
                        copy@.len() == i,
                        forall|j: int|
                            #![trigger copy@[j]]
                            0 <= j < i ==> copy@[j].0@ == entries@[j].0@ && copy@[j].1@
                                == entries@[j].1@,
                    decreases entries@.len() - i,
                {
                    let key = entries[i].0.clone();
                    proof {
                        assert(decreases_to!(entries => entries@));
                        assert(decreases_to!(entries@ => entries@[i as int]));
                        assert(decreases_to!(entries@[i as int] => entries@[i as int].1));
                    }
                    let value = entries[i].1.deep_clone();
                    copy.push((key, value));
                    i = i + 1;
                }
                let r = JsonValue::Object(copy);
                assert forall|j: int| 0 <= j < copy@.len() implies r@->Object_0[j] == self@->Object_0[j] by {
                    assert(copy@[j].0@ == entries@[j].0@ && copy@[j].1@ == entries@[j].1@);
                }
                assert(r@->Object_0 =~= self@->Object_0);
                r
            },
        }
    }
}

/// Renders a document compactly: the text of `tree_text`.
pub fn json_text(v: &JsonValue) -> (r: String)
    ensures
        r@ == tree_text(v@),
    decreases v, 1nat,
{
    match v {
        JsonValue::Null => {
            proof { reveal_strlit("null"); }
            String::from_str("null")
        },
        JsonValue::Bool(b) => {
            if *b {
                proof { reveal_strlit("true"); }
                String::from_str("true")
            } else {
                proof { reveal_strlit("false"); }
                String::from_str("false")
            }
        },
        JsonValue::Number(t) => t.clone(),
        JsonValue::String(s) => literal(s.as_str()),
        JsonValue::Array(_) => array_text(v),
        JsonValue::Object(_) => object_text(v),
    }
}

/// The string literal of `s`.
fn literal(s: &str) -> (r: String)
    ensures
        r@ == string_literal_text(s@),
{
    match string_literal(s) {
        Ok(t) => t,
        Err(_) => String::new(),
    }
}

#[verifier::loop_isolation(false)]
fn array_text(v: &JsonValue) -> (r: String)
    requires
        v is Array,
    ensures
        r@ == tree_text(v@),
    decreases v, 0nat,
{
    let items = match v {
        JsonValue::Array(items) => items,
        _ => { return String::new(); },
    };
    let ghost trees = v@->Array_0;
    proof {
        reveal_strlit("[");
        reveal_strlit("]");
        reveal_strlit(",");
    }
    let mut out = String::from_str("[");
    let mut i: usize = 0;
    while i < items.len()
        invariant
            trees.len() == items@.len(),
            i <= items@.len(),
            out@ == seq!['['] + items_text(trees, i as nat),
        decreases items@.len() - i,
    {
        if i > 0 {
            out.append(",");
        }
        proof {
            assert(decreases_to!(items => items@));
            assert(decreases_to!(items@ => items@[i as int]));
        }
        let item = json_text(&items[i]);
        assert(trees[i as int] == items@[i as int]@);
        out.append(item.as_str());
        i = i + 1;
    }
    out.append("]");
    out
}

#[verifier::loop_isolation(false)]
fn object_text(v: &JsonValue) -> (r: String)
    requires
        v is Object,
    ensures
        r@ == tree_text(v@),
    decreases v, 0nat,
{
    let entries = match v {
        JsonValue::Object(entries) => entries,
        _ => { return String::new(); },
    };
    let ghost trees = v@->Object_0;
    proof {
        reveal_strlit("{");
        reveal_strlit("}");
        reveal_strlit(",");
        reveal_strlit(":");
    }
    let mut out = String::from_str("{");
    let mut i: usize = 0;
    while i < entries.len()
        invariant
            trees.len() == entries@.len(),
            i <= entries@.len(),
            out@ == seq!['{'] + entries_text(trees, i as nat),
        decreases entries@.len() - i,
    {
        if i > 0 {
            out.append(",");
        }
        assert(trees[i as int] == (entries@[i as int].0@, entries@[i as int].1@));
        let key = literal(entries[i].0.as_str());
        proof {
            assert(decreases_to!(entries => entries@));
            assert(decreases_to!(entries@ => entries@[i as int]));
            assert(decreases_to!(entries@[i as int] => entries@[i as int].1));
        }
        let value = json_text(&entries[i].1);
        out.append(key.as_str());
        out.append(":");
        out.append(value.as_str());
        i = i + 1;
    }
    out.append("}");
    out
}

/// The models of a list of members.
pub open spec fn entry_views(entries: Seq<(String, JsonValue)>) -> Seq<(Seq<char>, JsonTree)> {
    Seq::new(entries.len(), |i: int| (entries[i].0@, entries[i].1@))
}

/// An object made of the given members, in their order.
pub fn json_object(entries: Vec<(String, JsonValue)>) -> (r: JsonValue)
    ensures
        r@ == JsonTree::Object(entry_views(entries@)),
{
    let ghost e = entries@;
    let r = JsonValue::Object(entries);
    assert(r@->Object_0 =~= entry_views(e));
    r
}

/// Appends the member `key` with `value` to a list of members.
pub fn push_member(entries: &mut Vec<(String, JsonValue)>, key: &str, value: JsonValue)
    ensures
        entry_views(final(entries)@) == entry_views(old(entries)@).push((key@, value@)),
{
    entries.push((String::from_str(key), value));
    assert(entry_views(entries@) =~= entry_views(old(entries)@).push((key@, value@)));
}

/// A JSON string.
pub fn json_string(s: &str) -> (r: JsonValue)
    ensures
        r@ == JsonTree::Str(s@),
{
    JsonValue::String(String::from_str(s))
}

/// A JSON number for an unsigned integer, written in base ten.
pub fn json_number(n: u64) -> (r: JsonValue)
    ensures
        r@ == JsonTree::Number(crate::text::decimal_text(n as nat)),
{
    JsonValue::Number(crate::text::u64_text(n))
}

} // verus!
