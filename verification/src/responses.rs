//! Reading generated text, API errors and model lists out of server JSON.
use vstd::prelude::*;

use crate::backend::BackendType;
use crate::json::{json_ok, json_parse, parse_json, parsed_view, JsonValue};
use crate::text::{concat2, owned, remove_char, without_char};

verus! {

/// The text of the string member `key` of `v`.
pub open spec fn str_member(v: JsonValue, key: Seq<char>) -> Option<Seq<char>> {
    match v.get_spec(key) {
        Some(m) => m.as_str_spec(),
        None => None,
    }
}

/// The text of the string member `k2` of the member `k1` of `v`.
pub open spec fn str_member2(v: JsonValue, k1: Seq<char>, k2: Seq<char>) -> Option<Seq<char>> {
    match v.get_spec(k1) {
        Some(m) => str_member(m, k2),
        None => None,
    }
}

/// The generated text of an Ollama response object: its `response` string.
pub open spec fn ollama_response_spec(v: JsonValue) -> Option<Seq<char>> {
    str_member(v, "response"@)
}

/// The generated text of one OpenAI-compatible choice: `delta.content`, else
/// `message.content`, else `text`.
pub open spec fn openai_choice_text_spec(choice: JsonValue) -> Option<Seq<char>> {
    if str_member2(choice, "delta"@, "content"@) is Some {
        str_member2(choice, "delta"@, "content"@)
    } else if str_member2(choice, "message"@, "content"@) is Some {
        str_member2(choice, "message"@, "content"@)
    } else {
        str_member(choice, "text"@)
    }
}

/// The first element of the `choices` array of `v`.
pub open spec fn first_choice_spec(v: JsonValue) -> Option<JsonValue> {
    match v.get_spec("choices"@) {
        Some(c) => match c.as_array_spec() {
            Some(arr) => if arr.len() > 0 {
                Some(arr[0])
            } else {
                None
            },
            None => None,
        },
        None => None,
    }
}

/// The generated text of an OpenAI-compatible response object, read from its
/// first choice.
pub open spec fn openai_response_spec(v: JsonValue) -> Option<Seq<char>> {
    match first_choice_spec(v) {
        Some(choice) => openai_choice_text_spec(choice),
        None => None,
    }
}

/// The message of an API error object: `error.message`, else `error` when it
/// is a string, prefixed with `API error: `.
pub open spec fn api_error_spec(v: JsonValue) -> Option<Seq<char>> {
    if str_member2(v, "error"@, "message"@) is Some {
        Some("API error: "@ + str_member2(v, "error"@, "message"@)->0)
    } else if str_member(v, "error"@) is Some {
        Some("API error: "@ + str_member(v, "error"@)->0)
    } else {
        None
    }
}

/// The view of an optional `String`.
pub open spec fn opt_string_view(o: Option<String>) -> Option<Seq<char>> {
    match o {
        Some(s) => Some(s@),
        None => None,
    }
}

fn str_member_exec<'a>(v: &'a JsonValue, key: &str) -> (r: Option<&'a String>)
    ensures
        match r {
            Some(s) => str_member(*v, key@) == Some(s@),
            None => str_member(*v, key@) is None,
        },
{
    match v.get(key) {
        Some(m) => m.as_str(),
        None => None,
    }
}

fn str_member2_exec<'a>(v: &'a JsonValue, k1: &str, k2: &str) -> (r: Option<&'a String>)
    ensures
        match r {
            Some(s) => str_member2(*v, k1@, k2@) == Some(s@),
            None => str_member2(*v, k1@, k2@) is None,
        },
{
    match v.get(k1) {
        Some(m) => str_member_exec(m, k2),
        None => None,
    }
}

/// The `response` string of an Ollama response object.
pub fn parse_ollama_response(val: &JsonValue) -> (r: Option<String>)
    ensures
        opt_string_view(r) == ollama_response_spec(*val),
{
    match str_member_exec(val, "response") {
        Some(s) => Some(owned(s.as_str())),
        None => None,
    }
}

/// The text of the first choice of an OpenAI-compatible response object:
/// `delta.content`, else `message.content`, else `text`.
pub fn parse_openai_compatible_response(val: &JsonValue) -> (r: Option<String>)
    ensures
        opt_string_view(r) == openai_response_spec(*val),
{
    let choices = match val.get("choices") {
        Some(c) => c,
        None => return None,
    };
    let arr = match choices.as_array() {
        Some(a) => a,
        None => return None,
    };
    if arr.len() == 0 {
        return None;
    }
    let first = &arr[0];
    if let Some(delta) = str_member2_exec(first, "delta", "content") {
        return Some(owned(delta.as_str()));
    }
    if let Some(msg) = str_member2_exec(first, "message", "content") {
        return Some(owned(msg.as_str()));
    }
    if let Some(text) = str_member_exec(first, "text") {
        return Some(owned(text.as_str()));
    }
    None
}

/// `API error: ` and the message of an error object (`error.message`, or
/// `error` itself when it is a string).
pub fn parse_api_error(val: &JsonValue) -> (r: Option<String>)
    ensures
        opt_string_view(r) == api_error_spec(*val),
{
    if let Some(msg) = str_member2_exec(val, "error", "message") {
        return Some(concat2("API error: ", msg.as_str()));
    }
    if let Some(msg) = str_member_exec(val, "error") {
        return Some(concat2("API error: ", msg.as_str()));
    }
    None
}

/// The names found under `key` in the given list items, in order, with NUL
/// characters removed; items without such a string are skipped.
pub open spec fn model_names_spec(items: Seq<JsonValue>, key: Seq<char>) -> Seq<Seq<char>>
    decreases items.len(),
{
    if items.len() == 0 {
        Seq::empty()
    } else {
        let prev = model_names_spec(items.drop_last(), key);
        match str_member(items.last(), key) {
            Some(name) => prev.push(remove_char(name, '\0')),
            None => prev,
        }
    }
}

/// The list member and the name member each backend uses in its model list.
pub open spec fn model_list_keys(backend_type: BackendType) -> (Seq<char>, Seq<char>) {
    match backend_type {
        BackendType::Ollama => ("models"@, "name"@),
        BackendType::OpenAICompatible => ("data"@, "id"@),
    }
}


/// Listed model names never hold a NUL character, which the editor's
/// widgets could not show.
pub proof fn lemma_model_names_have_no_nul(items: Seq<JsonValue>, key: Seq<char>)
    ensures
        forall|i: int|
            0 <= i < model_names_spec(items, key).len() ==> !(#[trigger] model_names_spec(
                items,
                key,
            )[i]).contains('\0'),
    decreases items.len(),
{
    if items.len() > 0 {
        lemma_model_names_have_no_nul(items.drop_last(), key);
        let prev = model_names_spec(items.drop_last(), key);
        match str_member(items.last(), key) {
            Some(name) => {
                crate::text::lemma_remove_char_absent(name, '\0');
                assert forall|i: int| 0 <= i < prev.len() + 1 implies !(#[trigger] prev.push(
                    remove_char(name, '\0'),
                )[i]).contains('\0') by {
                    if i < prev.len() {
                        assert(prev.push(remove_char(name, '\0'))[i] == prev[i]);
                    }
                }
            },
            None => {},
        }
    }
}
/// Reading a list in two parts gives the names of the first part followed
/// by those of the second: every item is read, and in order.
pub proof fn lemma_model_names_concat(a: Seq<JsonValue>, b: Seq<JsonValue>, key: Seq<char>)
    ensures
        model_names_spec(a + b, key) == model_names_spec(a, key) + model_names_spec(b, key),
    decreases b.len(),
{
    if b.len() == 0 {
        assert(a + b =~= a);
        assert(model_names_spec(a, key) + model_names_spec(b, key) =~= model_names_spec(a, key));
    } else {
        lemma_model_names_concat(a, b.drop_last(), key);
        assert((a + b).drop_last() =~= a + b.drop_last());
        assert((a + b).last() == b.last());
        let x = model_names_spec(a, key);
        let y = model_names_spec(b.drop_last(), key);
        match str_member(b.last(), key) {
            Some(n) => {
                assert((x + y).push(remove_char(n, '\0')) =~= x + y.push(remove_char(n, '\0')));
            },
            None => {},
        }
    }
}

/// A list whose items all carry a string name lists every one of those
/// names, NUL characters removed, one entry per item and in the items'
/// order.
pub proof fn lemma_every_named_item_is_listed(
    items: Seq<JsonValue>,
    key: Seq<char>,
    names: Seq<Seq<char>>,
)
    requires
        items.len() == names.len(),
        forall|i: int| 0 <= i < items.len() ==> str_member(#[trigger] items[i], key) == Some(names[i]),
    ensures
        model_names_spec(items, key) == names.map_values(|n: Seq<char>| remove_char(n, '\0')),
        model_names_spec(items, key).len() == items.len(),
    decreases items.len(),
{
    if items.len() > 0 {
        let k = items.len() - 1;
        assert(str_member(items[k], key) == Some(names[k]));
        lemma_every_named_item_is_listed(items.drop_last(), key, names.drop_last());
        assert(names.map_values(|n: Seq<char>| remove_char(n, '\0')) =~= names.drop_last().map_values(
            |n: Seq<char>| remove_char(n, '\0'),
        ).push(remove_char(names[k], '\0')));
    } else {
        assert(names.map_values(|n: Seq<char>| remove_char(n, '\0')) =~= Seq::<Seq<char>>::empty());
    }
}

/// In a model list document whose list member holds only items with a
/// string name, every one of those names is listed, in order.
pub proof fn lemma_model_list_names_every_item(
    v: JsonValue,
    backend_type: BackendType,
    items: Seq<JsonValue>,
    names: Seq<Seq<char>>,
)
    requires
        ({
            let (list_key, name_key) = model_list_keys(backend_type);
            &&& v.get_spec(list_key) matches Some(l) && l.as_array_spec() == Some(items)
            &&& items.len() == names.len()
            &&& forall|i: int|
                0 <= i < items.len() ==> str_member(#[trigger] items[i], name_key) == Some(names[i])
        }),
    ensures
        listed_models_spec(v, backend_type) == names.map_values(|n: Seq<char>| remove_char(n, '\0')),
        listed_models_spec(v, backend_type).len() == names.len(),
{
    lemma_every_named_item_is_listed(items, model_list_keys(backend_type).1, names);
}

/// The model names in a model list document.
pub open spec fn listed_models_spec(v: JsonValue, backend_type: BackendType) -> Seq<Seq<char>> {
    let (list_key, name_key) = model_list_keys(backend_type);
    match v.get_spec(list_key) {
        Some(l) => match l.as_array_spec() {
            Some(items) => model_names_spec(items, name_key),
            None => Seq::empty(),
        },
        None => Seq::empty(),
    }
}

pub const NO_MODELS_FOUND_MESSAGE: &'static str = "No models found in server response.";

/// The outcome of reading a model list: the names when there are any, else
/// the API error the document carries, else a fixed message.  A body that
/// is not JSON gives `Invalid JSON: ` and the parser's message.
pub open spec fn model_list_result_spec(
    parsed: Result<JsonValue, Seq<char>>,
    backend_type: BackendType,
) -> Result<Seq<Seq<char>>, Seq<char>> {
    match parsed {
        Err(e) => Err("Invalid JSON: "@ + e),
        Ok(v) => {
            let names = listed_models_spec(v, backend_type);
            if names.len() > 0 {
                Ok(names)
            } else {
                match api_error_spec(v) {
                    Some(e) => Err(e),
                    None => Err(NO_MODELS_FOUND_MESSAGE@),
                }
            }
        },
    }
}

/// The view of a model list outcome.
pub open spec fn model_list_view(r: Result<Vec<String>, String>) -> Result<Seq<Seq<char>>, Seq<char>> {
    match r {
        Ok(v) => Ok(v@.map_values(|s: String| s@)),
        Err(e) => Err(e@),
    }
}

/// The model names of a model list response (`models[].name` for Ollama,
/// `data[].id` for OpenAI-compatible servers) with NUL characters removed,
/// read from the body parsed as JSON (`parsed`, with the parser's message
/// on failure).
pub fn model_list_from_document(
    parsed: &Result<JsonValue, String>,
    backend_type: BackendType,
) -> (r: Result<Vec<String>, String>)
    ensures
        model_list_view(r) == model_list_result_spec(parsed_view(*parsed), backend_type),
{
    let val = match parsed {
        Err(e) => return Err(concat2("Invalid JSON: ", e.as_str())),
        Ok(v) => v,
    };
    let (list_key, name_key) = match backend_type {
        BackendType::Ollama => ("models", "name"),
        BackendType::OpenAICompatible => ("data", "id"),
    };
    let mut models: Vec<String> = Vec::new();
    if let Some(l) = val.get(list_key) {
        if let Some(items) = l.as_array() {
            let mut i: usize = 0;
            while i < items.len()
                invariant
                    0 <= i <= items.len(),
                    models@.map_values(|s: String| s@) == model_names_spec(
                        items@.subrange(0, i as int),
                        name_key@,
                    ),
                decreases items.len() - i,
            {
                let ghost prev = items@.subrange(0, i as int);
                let ghost next = items@.subrange(0, i + 1);
                assert(next.drop_last() =~= prev);
                assert(next.last() == items@[i as int]);
                if let Some(name) = str_member_exec(&items[i], name_key) {
                    models.push(without_char(name.as_str(), '\0'));
                }
                assert(models@.map_values(|s: String| s@) =~= model_names_spec(next, name_key@));
                i += 1;
            }
            assert(items@.subrange(0, items.len() as int) =~= items@);
        }
    }
    if models.len() == 0 {
        match parse_api_error(val) {
            Some(e) => Err(e),
            None => Err(owned(NO_MODELS_FOUND_MESSAGE)),
        }
    } else {
        Ok(models)
    }
}

/// The generated text of a complete (non-streamed) response document, read

/// The model names of a model list response body (see
/// `model_list_from_document`): the body is parsed with `serde_json`.
pub fn parse_model_list_response(body: &str, backend_type: BackendType) -> (r: Result<
    Vec<String>,
    String,
>)
    ensures
        model_list_view(r) == model_list_result_spec(json_parse(body@), backend_type),
{
    let parsed = parse_json(body);
    model_list_from_document(&parsed, backend_type)
}

/// the backend's way; nothing when the body did not parse.
pub open spec fn complete_response_spec(
    parsed: Option<JsonValue>,
    backend_type: BackendType,
) -> Option<Seq<char>> {
    match parsed {
        Some(v) => match backend_type {
            BackendType::Ollama => ollama_response_spec(v),
            BackendType::OpenAICompatible => openai_response_spec(v),
        },
        None => None,
    }
}

/// The generated text of a complete response; `parsed` is the body parsed as
/// JSON, or nothing when it is not JSON.
pub fn complete_response_from_document(parsed: Option<&JsonValue>, backend_type: BackendType) -> (r:
    Option<String>)
    ensures
        opt_string_view(r) == complete_response_spec(
            match parsed {
                Some(v) => Some(*v),
                None => None,
            },
            backend_type,
        ),
{
    match parsed {
        Some(v) => match backend_type {
            BackendType::Ollama => parse_ollama_response(v),
            BackendType::OpenAICompatible => parse_openai_compatible_response(v),
        },
        None => None,
    }
}

/// The generated text of a complete response body, parsed with
/// `serde_json`; nothing when the body is not JSON.
pub fn parse_complete_response(body: &str, backend_type: BackendType) -> (r: Option<String>)
    ensures
        opt_string_view(r) == complete_response_spec(json_ok(json_parse(body@)), backend_type),
{
    match parse_json(body) {
        Ok(v) => complete_response_from_document(Some(&v), backend_type),
        Err(_) => None,
    }
}

/// The rough token count of `s` over its exact UTF-8 length, with no
/// bound on the length.
pub open spec fn token_estimate_exact(s: Seq<char>) -> int {
    token_estimate_spec(s.len(), vstd::utf8::encode_utf8(s).len() as int)
}

proof fn lemma_encode_utf8_concat(a: Seq<char>, b: Seq<char>)
    ensures
        vstd::utf8::encode_utf8(a + b) == vstd::utf8::encode_utf8(a) + vstd::utf8::encode_utf8(b),
    decreases a.len(),
{
    if a.len() == 0 {
        assert(a + b =~= b);
        assert(vstd::utf8::encode_utf8(a) =~= Seq::<u8>::empty());
        assert(vstd::utf8::encode_utf8(a) + vstd::utf8::encode_utf8(b) =~= vstd::utf8::encode_utf8(b));
    } else {
        assert((a + b)[0] == a[0]);
        assert((a + b).drop_first() =~= a.drop_first() + b);
        lemma_encode_utf8_concat(a.drop_first(), b);
        assert(vstd::utf8::encode_utf8(a + b) =~= vstd::utf8::encode_scalar(a[0] as u32)
            + vstd::utf8::encode_utf8(a.drop_first() + b));
        assert(vstd::utf8::encode_utf8(a) =~= vstd::utf8::encode_scalar(a[0] as u32)
            + vstd::utf8::encode_utf8(a.drop_first()));
    }
}

proof fn lemma_encode_utf8_empty(s: Seq<char>)
    ensures
        (vstd::utf8::encode_utf8(s).len() == 0) == (s.len() == 0),
{
    if s.len() > 0 {
        assert(vstd::utf8::encode_scalar(s[0] as u32).len() >= 1);
        assert(vstd::utf8::encode_utf8(s) =~= vstd::utf8::encode_scalar(s[0] as u32)
            + vstd::utf8::encode_utf8(s.drop_first()));
    }
}

/// The token estimate is 0 exactly for the empty text, never shrinks as
/// the UTF-8 length grows, and the estimate of two texts joined is at most
/// the sum of their estimates.
pub proof fn lemma_token_estimate_laws(a: Seq<char>, b: Seq<char>)
    ensures
        (token_estimate_exact(a) == 0) == (a.len() == 0),
        vstd::utf8::encode_utf8(a).len() <= vstd::utf8::encode_utf8(b).len()
            ==> token_estimate_exact(a) <= token_estimate_exact(b),
        token_estimate_exact(a + b) <= token_estimate_exact(a) + token_estimate_exact(b),
{
    lemma_encode_utf8_empty(a);
    lemma_encode_utf8_empty(b);
    lemma_encode_utf8_empty(a + b);
    lemma_encode_utf8_concat(a, b);
    let x = vstd::utf8::encode_utf8(a).len() as int;
    let y = vstd::utf8::encode_utf8(b).len() as int;
    assert(x <= y ==> (x + 3) / 4 <= (y + 3) / 4) by (nonlinear_arith)
        requires
            x >= 0,
    ;
    assert((x + y + 3) / 4 <= (x + 3) / 4 + (y + 3) / 4) by (nonlinear_arith)
        requires
            x >= 0,
            y >= 0,
    ;
    assert(x >= 1 ==> (x + 3) / 4 >= 1);
    assert(y >= 1 ==> (y + 3) / 4 >= 1);
}

/// The rough token count of a text of `bytes` UTF-8 bytes: a quarter of the
/// bytes, rounded up, and at least one for a non-empty text.
pub open spec fn token_estimate_spec(chars: nat, bytes: int) -> int {
    if chars == 0 {
        0
    } else {
        let q = (bytes + 3) / 4;
        if q < 1 {
            1
        } else {
            q
        }
    }
}

/// The number of bytes of the UTF-8 encoding of `s`.
pub open spec fn utf8_byte_len(s: Seq<char>) -> usize {
    vstd::utf8::encode_utf8(s).len() as usize
}

/// The rough token count of a text.
pub open spec fn token_estimate_of(s: Seq<char>) -> usize {
    token_estimate_spec(s.len(), utf8_byte_len(s) as int) as usize
}

/// About four bytes of English or code per token.
pub fn estimate_token_count(text: &str) -> (r: usize)
    ensures
        r as int == token_estimate_spec(text@.len(), utf8_byte_len(text@) as int),
        r == token_estimate_of(text@),
        r as int == token_estimate_exact(text@),
{
    let bytes = text.as_bytes();
    assert(bytes@.len() == bytes.len());
    if text.is_empty() {
        0
    } else {
        let n = text.len();
        let q = n / 4 + if n % 4 != 0 {
            1usize
        } else {
            0usize
        };
        assert(q as int == (n as int + 3) / 4) by (nonlinear_arith)
            requires
                q as int == n as int / 4 + (if n as int % 4 != 0 {
                    1int
                } else {
                    0int
                }),
                n >= 0,
        ;
        if q < 1 {
            1
        } else {
            q
        }
    }
}

} // verus!
