//! JSON values as the library reads them, and compact JSON text as the
//! library writes it.
//!
//! Parsing JSON text is done by `serde_json`, whose value is taken over into
//! a [`JsonValue`]; objects read that way have distinct member names.
//! Writing uses `serde_json` for string literals and assembles objects and
//! arrays in the compact form `serde_json` prints them.
use vstd::prelude::*;

use crate::text::{concat3, owned};

verus! {

/// A JSON value.  Numbers keep their JSON text.
pub enum JsonValue {
    Null,
    Bool(bool),
    Number(String),
    Str(String),
    Array(Vec<JsonValue>),
    Object(Vec<(String, JsonValue)>),
}

/// The value of the first member named `key`.
pub open spec fn members_get(m: Seq<(String, JsonValue)>, key: Seq<char>) -> Option<JsonValue>
    decreases m.len(),
{
    if m.len() == 0 {
        None
    } else if m[0].0@ == key {
        Some(m[0].1)
    } else {
        members_get(m.drop_first(), key)
    }
}

impl JsonValue {
    /// The member named `key` of an object; nothing for other values.
    pub open spec fn get_spec(self, key: Seq<char>) -> Option<JsonValue> {
        match self {
            JsonValue::Object(m) => members_get(m@, key),
            _ => None,
        }
    }

    /// The text of a string value.
    pub open spec fn as_str_spec(self) -> Option<Seq<char>> {
        match self {
            JsonValue::Str(s) => Some(s@),
            _ => None,
        }
    }

    /// The elements of an array value.
    pub open spec fn as_array_spec(self) -> Option<Seq<JsonValue>> {
        match self {
            JsonValue::Array(v) => Some(v@),
            _ => None,
        }
    }

    /// The member named `key` of an object (`Value::get`).
    pub fn get(&self, key: &str) -> (r: Option<&JsonValue>)
        ensures
            match r {
                Some(v) => self.get_spec(key@) == Some(*v),
                None => self.get_spec(key@) is None,
            },
    {
        match self {
            JsonValue::Object(m) => {
                let mut i: usize = 0;
                assert(m@.subrange(0, m.len() as int) =~= m@);
                assert(self.get_spec(key@) == members_get(m@, key@));
                while i < m.len()
                    invariant
                        0 <= i <= m.len(),
                        self.get_spec(key@) == members_get(m@, key@),
                        members_get(m@, key@) == members_get(m@.subrange(i as int, m.len() as int), key@),
                    decreases m.len() - i,
                {
                    let ghost rest = m@.subrange(i as int, m.len() as int);
                    assert(rest.drop_first() =~= m@.subrange(i + 1, m.len() as int));
                    assert(rest[0] == m@[i as int]);
                    let name = m[i].0.as_str();
                    if crate::text::str_eq(name, key) {
                        assert(rest[0].0@ == key@);
                        assert(members_get(rest, key@) == Some(m@[i as int].1));
                        return Some(&m[i].1);
                    }
                    i += 1;
                }
                None
            },
            _ => None,
        }
    }

    /// The text of a string value (`Value::as_str`).
    pub fn as_str(&self) -> (r: Option<&String>)
        ensures
            match r {
                Some(s) => self.as_str_spec() == Some(s@),
                None => self.as_str_spec() is None,
            },
    {
        match self {
            JsonValue::Str(s) => Some(s),
            _ => None,
        }
    }

    /// The elements of an array value (`Value::as_array`).
    pub fn as_array(&self) -> (r: Option<&Vec<JsonValue>>)
        ensures
            match r {
                Some(v) => self.as_array_spec() == Some(v@),
                None => self.as_array_spec() is None,
            },
    {
        match self {
            JsonValue::Array(v) => Some(v),
            _ => None,
        }
    }
}

/// `serde_json`'s value type, carried through without looking inside.
#[verifier::external_type_specification]
#[verifier::external_body]
pub struct ExSerdeValue(serde_json::Value);

/// What `serde_json::from_str` reads from `text`, taken over into a
/// [`JsonValue`]: the document, or the text of the parser's error.
pub uninterp spec fn json_parse(text: Seq<char>) -> Result<JsonValue, Seq<char>>;

/// The contents of a parse outcome.
pub open spec fn parsed_view(r: Result<JsonValue, String>) -> Result<JsonValue, Seq<char>> {
    match r {
        Ok(v) => Ok(v),
        Err(e) => Err(e@),
    }
}

/// The document of a parse outcome, if the text was JSON.
pub open spec fn json_ok(r: Result<JsonValue, Seq<char>>) -> Option<JsonValue> {
    match r {
        Ok(v) => Some(v),
        Err(_) => None,
    }
}

/// Takes a `serde_json` value over into a [`JsonValue`], variant by
/// variant (numbers keep their printed text).  Nothing is claimed of it:
/// `parse_json` names its outcome.
#[verifier::external_body]
fn json_value_from(v: &serde_json::Value) -> JsonValue {
    match v {
        serde_json::Value::Null => JsonValue::Null,
        serde_json::Value::Bool(b) => JsonValue::Bool(*b),
        serde_json::Value::Number(n) => JsonValue::Number(n.to_string()),
        serde_json::Value::String(t) => JsonValue::Str(t.clone()),
        serde_json::Value::Array(a) => JsonValue::Array(a.iter().map(json_value_from).collect()),
        serde_json::Value::Object(m) => {
            JsonValue::Object(m.iter().map(|(k, x)| (k.clone(), json_value_from(x))).collect())
        },
    }
}

/// Parses `text` with `serde_json::from_str` into a `serde_json::Value` and
/// takes it over into a [`JsonValue`]; on failure, the error's text.  The
/// claim is only that the outcome is `json_parse` of the text, which depends
/// on the text alone: JSON syntax is left to `serde_json`.
#[verifier::external_body]
pub(crate) fn parse_json(text: &str) -> (r: Result<JsonValue, String>)
    ensures
        parsed_view(r) == json_parse(text@),
{
    serde_json::from_str::<serde_json::Value>(text).map(|v| json_value_from(&v)).map_err(|e| e.to_string())
}

/// The lower-case hexadecimal digit of `d`, for `0 <= d < 16`.
pub open spec fn lower_hex_digit(d: int) -> char {
    if d < 10 {
        (48 + d) as char
    } else {
        (87 + d) as char
    }
}

/// How one character stands inside a JSON string literal: the quote and
/// the backslash escaped, the five control characters with a short escape
/// written with it, the other characters below U+0020 as `\u00` and two
/// lower-case hexadecimal digits, every other character as it is.
pub open spec fn json_char_escape(c: char) -> Seq<char> {
    if c == '"' {
        seq!['\\', '"']
    } else if c == '\\' {
        seq!['\\', '\\']
    } else if c == '\u{8}' {
        seq!['\\', 'b']
    } else if c == '\u{c}' {
        seq!['\\', 'f']
    } else if c == '\n' {
        seq!['\\', 'n']
    } else if c == '\r' {
        seq!['\\', 'r']
    } else if c == '\t' {
        seq!['\\', 't']
    } else if (c as int) < 32 {
        seq!['\\', 'u', '0', '0', lower_hex_digit((c as int) / 16), lower_hex_digit((c as int) % 16)]
    } else {
        seq![c]
    }
}

/// The characters of `s`, each escaped as in a JSON string literal.
pub open spec fn json_escape(s: Seq<char>) -> Seq<char>
    decreases s.len(),
{
    if s.len() == 0 {
        Seq::empty()
    } else {
        json_escape(s.drop_last()) + json_char_escape(s.last())
    }
}

/// The JSON string literal of `s` as `serde_json` prints it: the escaped
/// characters between double quotes.
pub open spec fn json_string_literal(s: Seq<char>) -> Seq<char> {
    seq!['"'] + json_escape(s) + seq!['"']
}

/// The JSON string literal of `s`, printed by `serde_json` (`Value::String`
/// displayed in compact form, which writes each character through its
/// escape table).  The claim is that the result is `json_string_literal`
/// of the text.
#[verifier::external_body]
pub(crate) fn json_quote(s: &str) -> (r: String)
    ensures
        r@ == json_string_literal(s@),
{
    serde_json::Value::String(s.to_string()).to_string()
}

/// `"key":value`, where `key` needs no escaping.
pub open spec fn json_member_text(key: Seq<char>, value: Seq<char>) -> Seq<char> {
    "\""@ + key + "\":"@ + value
}

/// Members separated by commas.
pub open spec fn json_members_text(m: Seq<(Seq<char>, Seq<char>)>) -> Seq<char>
    decreases m.len(),
{
    if m.len() == 0 {
        Seq::empty()
    } else if m.len() == 1 {
        json_member_text(m[0].0, m[0].1)
    } else {
        json_members_text(m.drop_last()) + ","@ + json_member_text(m.last().0, m.last().1)
    }
}

/// A compact JSON object with the given members, in the given order.
pub open spec fn json_object_text(m: Seq<(Seq<char>, Seq<char>)>) -> Seq<char> {
    "{"@ + json_members_text(m) + "}"@
}

/// Items separated by commas.
pub open spec fn json_items_text(items: Seq<Seq<char>>) -> Seq<char>
    decreases items.len(),
{
    if items.len() == 0 {
        Seq::empty()
    } else if items.len() == 1 {
        items[0]
    } else {
        json_items_text(items.drop_last()) + ","@ + items.last()
    }
}

/// A compact JSON array with the given element texts.
pub open spec fn json_array_text(items: Seq<Seq<char>>) -> Seq<char> {
    "["@ + json_items_text(items) + "]"@
}

/// The views of a list of (name, text) pairs.
pub open spec fn pairs_view(m: Seq<(String, String)>) -> Seq<(Seq<char>, Seq<char>)> {
    m.map_values(|p: (String, String)| (p.0@, p.1@))
}

/// The views of a list of texts.
pub open spec fn strings_view(v: Seq<String>) -> Seq<Seq<char>> {
    v.map_values(|s: String| s@)
}

/// A compact JSON object from member names (which need no escaping) and
/// member value texts.
pub fn json_object(members: &Vec<(String, String)>) -> (r: String)
    ensures
        r@ == json_object_text(pairs_view(members@)),
{
    let mut body = String::new();
    let mut i: usize = 0;
    while i < members.len()
        invariant
            0 <= i <= members.len(),
            body@ == json_members_text(pairs_view(members@.subrange(0, i as int))),
        decreases members.len() - i,
    {
        let ghost prev = pairs_view(members@.subrange(0, i as int));
        let ghost next = pairs_view(members@.subrange(0, i + 1));
        assert(next.drop_last() =~= prev);
        assert(next.last() == (members@[i as int].0@, members@[i as int].1@));
        if i > 0 {
            body.append(",");
        }
        body.append("\"");
        body.append(members[i].0.as_str());
        body.append("\":");
        body.append(members[i].1.as_str());
        proof {
            if i == 0 {
                assert(next.len() == 1);
            }
        }
        assert(body@ =~= json_members_text(next));
        i += 1;
    }
    assert(members@.subrange(0, members.len() as int) =~= members@);
    concat3("{", body.as_str(), "}")
}

/// A compact JSON array from element texts.
pub fn json_array(items: &Vec<String>) -> (r: String)
    ensures
        r@ == json_array_text(strings_view(items@)),
{
    let mut body = String::new();
    let mut i: usize = 0;
    while i < items.len()
        invariant
            0 <= i <= items.len(),
            body@ == json_items_text(strings_view(items@.subrange(0, i as int))),
        decreases items.len() - i,
    {
        let ghost prev = strings_view(items@.subrange(0, i as int));
        let ghost next = strings_view(items@.subrange(0, i + 1));
        assert(next.drop_last() =~= prev);
        if i > 0 {
            body.append(",");
        }
        body.append(items[i].as_str());
        assert(body@ =~= json_items_text(next));
        i += 1;
    }
    assert(items@.subrange(0, items.len() as int) =~= items@);
    concat3("[", body.as_str(), "]")
}

/// A (name, value text) pair.
pub fn member(key: &str, value: String) -> (r: (String, String))
    ensures
        r.0@ == key@,
        r.1@ == value@,
{
    (owned(key), value)
}

} // verus!
