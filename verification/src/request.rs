//! One generation request from the editor: what is sent, which request is
//! in flight, and what happens to the document when it finishes.
use vstd::prelude::*;

use crate::backend::{backend_url_spec, build_backend_url, BackendType, InsertMode};
use crate::payload::{build_request_payload, request_payload_spec, temperature_view};
use crate::stream::RequestResult;
use crate::text::{
    chars_of, concat2, concat3, owned, push_char, range_equals, remove_char, starts_with,
    without_char,
};

verus! {

/// The editor-side state of one request.
pub struct RequestData {
    pub id: u64,
    pub document_id: u32,
    pub insert_pos: i32,
    pub selection_start: i32,
    pub selection_end: i32,
    pub insert_mode: InsertMode,
    pub response_text: String,
    pub raw_response: String,
    pub error_message: String,
    pub http_status: i64,
}

impl RequestData {
    /// A request with the given id, document and positions, and nothing
    /// received yet.
    pub fn new(
        id: u64,
        document_id: u32,
        insert_pos: i32,
        selection_start: i32,
        selection_end: i32,
        insert_mode: InsertMode,
    ) -> (r: Self)
        ensures
            r.id == id,
            r.document_id == document_id,
            r.insert_pos == insert_pos,
            r.selection_start == selection_start,
            r.selection_end == selection_end,
            r.insert_mode == insert_mode,
            r.response_text@ == Seq::<char>::empty(),
            r.raw_response@ == Seq::<char>::empty(),
            r.error_message@ == Seq::<char>::empty(),
            r.http_status == 0,
    {
        RequestData {
            id,
            document_id,
            insert_pos,
            selection_start,
            selection_end,
            insert_mode,
            response_text: String::new(),
            raw_response: String::new(),
            error_message: String::new(),
            http_status: 0,
        }
    }
}

/// Which request is in flight: at most one at a time.
pub struct RequestSlot {
    pub active: Option<u64>,
}

impl RequestSlot {
    /// No request in flight.
    pub fn new() -> (r: Self)
        ensures
            r.active is None,
    {
        RequestSlot { active: None }
    }

    /// Whether a new request may start: only when none is in flight.
    pub fn is_idle(&self) -> (r: bool)
        ensures
            r == (self.active is None),
    {
        self.active.is_none()
    }

    /// Starts request `id` when none is in flight; asking while one runs
    /// changes nothing.
    pub fn try_begin(&mut self, id: u64) -> (started: bool)
        ensures
            started == (old(self).active is None),
            started ==> final(self).active == Some(id),
            !started ==> final(self).active == old(self).active,
    {
        if self.active.is_none() {
            self.active = Some(id);
            true
        } else {
            false
        }
    }

    /// Whether a live update of request `id` is still wanted: it must be the
    /// request in flight, not yet completed.
    pub fn accepts_update(&self, id: u64, completed: bool) -> (r: bool)
        ensures
            r == (self.active == Some(id) && !completed),
    {
        match self.active {
            Some(a) => a == id && !completed,
            None => false,
        }
    }

    /// Request `id` finished: the slot frees up when it was the one in
    /// flight.
    pub fn finish(&mut self, id: u64)
        ensures
            final(self).active == (if old(self).active == Some(id) {
                None
            } else {
                old(self).active
            }),
    {
        if self.active == Some(id) {
            self.active = None;
        }
    }

    /// The request in flight is given up; the slot frees up.
    pub fn abandon(&mut self) -> (r: Option<u64>)
        ensures
            r == old(self).active,
            final(self).active is None,
    {
        let r = self.active;
        self.active = None;
        r
    }
}

/// The HTTP headers of a generation request: JSON content, and a bearer
/// token when one is configured.
pub open spec fn request_headers_spec(bearer_token: Seq<char>) -> Seq<Seq<char>> {
    seq!["Content-Type: application/json"@] + if bearer_token.len() > 0 {
        seq!["Authorization: Bearer "@ + bearer_token]
    } else {
        Seq::empty()
    }
}

/// The HTTP headers of a generation request.
pub fn request_headers(bearer_token: &str) -> (r: Vec<String>)
    ensures
        crate::json::strings_view(r@) == request_headers_spec(bearer_token@),
{
    let mut r: Vec<String> = Vec::new();
    r.push(owned("Content-Type: application/json"));
    if !bearer_token.is_empty() {
        r.push(concat2("Authorization: Bearer ", bearer_token));
    }
    assert(crate::json::strings_view(r@) =~= request_headers_spec(bearer_token@));
    r
}

/// The authorization header used when listing models, if a key is set.
pub fn authorization_header(api_key: &str) -> (r: Option<String>)
    ensures
        match r {
            Some(h) => api_key@.len() > 0 && h@ == "Authorization: Bearer "@ + api_key@,
            None => api_key@.len() == 0,
        },
{
    if api_key.is_empty() {
        None
    } else {
        Some(concat2("Authorization: Bearer ", api_key))
    }
}

/// Where the context of a request comes from.
#[derive(Debug, Clone, Copy, PartialEq, Eq, Structural)]
pub enum ContextSource {
    /// The selected text.
    Selection,
    /// The text around the cursor.
    AroundCursor,
    /// Nothing: the selected text could not be read.
    Unreadable,
}

/// The source of a request's context: the selection when there is one and
/// its text was read and is not empty, nothing when its text could not be
/// read, and otherwise the text around the cursor.
pub fn context_source(has_selection: bool, selection_text: Option<&str>) -> (r: ContextSource)
    ensures
        has_selection && selection_text is None ==> r == ContextSource::Unreadable,
        has_selection && (selection_text matches Some(t) && t@.len() > 0) ==> r
            == ContextSource::Selection,
        !has_selection || (selection_text matches Some(t) && t@.len() == 0) ==> r
            == ContextSource::AroundCursor,
{
    if !has_selection {
        return ContextSource::AroundCursor;
    }
    match selection_text {
        None => ContextSource::Unreadable,
        Some(t) => if t.is_empty() {
            ContextSource::AroundCursor
        } else {
            ContextSource::Selection
        },
    }
}

/// How many characters before and after the cursor are sent when nothing
/// is selected.
pub const CONTEXT_RADIUS: i32 = 100;

/// The document range sent when nothing is selected: up to the radius
/// around the cursor, within the document; nothing when that range is
/// empty.
pub open spec fn context_window_spec(current_pos: int, doc_len: int) -> Option<(int, int)> {
    let start = if current_pos - CONTEXT_RADIUS < 0 {
        0
    } else {
        current_pos - CONTEXT_RADIUS
    };
    let end = if current_pos + CONTEXT_RADIUS < doc_len {
        current_pos + CONTEXT_RADIUS
    } else {
        doc_len
    };
    if end <= start {
        None
    } else {
        Some((start, end))
    }
}

/// The document range around the cursor that is sent when nothing is
/// selected.
pub fn context_window(current_pos: i32, doc_len: i32) -> (r: Option<(i32, i32)>)
    requires
        i32::MIN + CONTEXT_RADIUS <= current_pos <= i32::MAX - CONTEXT_RADIUS,
    ensures
        match r {
            Some((s, e)) => context_window_spec(current_pos as int, doc_len as int) == Some(
                (s as int, e as int),
            ),
            None => context_window_spec(current_pos as int, doc_len as int) is None,
        },
{
    let start = if current_pos - CONTEXT_RADIUS < 0 {
        0
    } else {
        current_pos - CONTEXT_RADIUS
    };
    let end = if current_pos + CONTEXT_RADIUS < doc_len {
        current_pos + CONTEXT_RADIUS
    } else {
        doc_len
    };
    if end <= start {
        None
    } else {
        Some((start, end))
    }
}

/// The part of `s` after its last `c` (all of `s` when it has none).
pub open spec fn last_segment(s: Seq<char>, c: char) -> Seq<char>
    decreases s.len(),
{
    if s.len() == 0 {
        s
    } else if s.last() == c {
        Seq::empty()
    } else {
        last_segment(s.drop_last(), c).push(s.last())
    }
}

/// ASCII upper-case letters made lower-case; other characters kept.
pub open spec fn ascii_lower_char(c: char) -> char {
    if 'A' <= c && c <= 'Z' {
        ((c as u32) + 32) as char
    } else {
        c
    }
}

pub open spec fn ascii_lower(s: Seq<char>) -> Seq<char> {
    s.map_values(|c: char| ascii_lower_char(c))
}

/// The language named for a (lower-case) file extension.
pub open spec fn language_for_extension(ext: Seq<char>) -> Option<Seq<char>> {
    if ext == "rs"@ {
        Some("Rust"@)
    } else if ext == "py"@ || ext == "pyw"@ {
        Some("Python"@)
    } else if ext == "c"@ || ext == "h"@ {
        Some("C"@)
    } else if ext == "cc"@ || ext == "cpp"@ || ext == "cxx"@ || ext == "hpp"@ || ext == "hh"@ {
        Some("C++"@)
    } else if ext == "js"@ || ext == "mjs"@ || ext == "cjs"@ {
        Some("JavaScript"@)
    } else if ext == "ts"@ || ext == "tsx"@ {
        Some("TypeScript"@)
    } else if ext == "jsx"@ {
        Some("JavaScript (JSX)"@)
    } else if ext == "java"@ {
        Some("Java"@)
    } else if ext == "go"@ {
        Some("Go"@)
    } else if ext == "rb"@ {
        Some("Ruby"@)
    } else if ext == "php"@ {
        Some("PHP"@)
    } else if ext == "sh"@ || ext == "bash"@ || ext == "zsh"@ {
        Some("Shell"@)
    } else if ext == "json"@ {
        Some("JSON"@)
    } else if ext == "toml"@ {
        Some("TOML"@)
    } else if ext == "yaml"@ || ext == "yml"@ {
        Some("YAML"@)
    } else if ext == "md"@ || ext == "markdown"@ {
        Some("Markdown"@)
    } else if ext == "html"@ || ext == "htm"@ {
        Some("HTML"@)
    } else if ext == "css"@ {
        Some("CSS"@)
    } else if ext == "sql"@ {
        Some("SQL"@)
    } else if ext == "tex"@ {
        Some("LaTeX"@)
    } else {
        None
    }
}

/// The language named for a file: by the text after its last dot (or the
/// whole name without a dot), compared without regard to ASCII case.
pub open spec fn language_hint_spec(file_name: Seq<char>) -> Option<Seq<char>> {
    language_for_extension(ascii_lower(last_segment(file_name, '.')))
}

/// Two texts that differ at some position are different.
proof fn lemma_texts_differ_at(a: Seq<char>, b: Seq<char>, i: int)
    requires
        0 <= i < a.len(),
        i < b.len(),
        a[i] != b[i],
    ensures
        a != b,
{
}

/// The text after the last dot of `x.e`, for an `e` without a dot, is `e`.
proof fn lemma_last_segment_after_dot(x: Seq<char>, e: Seq<char>)
    requires
        forall|i: int| 0 <= i < e.len() ==> e[i] != '.',
    ensures
        last_segment(x + seq!['.'] + e, '.') == e,
    decreases e.len(),
{
    let s = x + seq!['.'] + e;
    if e.len() == 0 {
        assert(s.last() == '.');
    } else {
        assert(s.last() == e.last());
        assert(s.drop_last() =~= x + seq!['.'] + e.drop_last());
        lemma_last_segment_after_dot(x, e.drop_last());
        assert(e.drop_last().push(e.last()) =~= e);
    }
}

/// A file named `stem.e`, for a lower-case extension `e` without a dot,
/// gets the language of `e`.
proof fn lemma_hint_by_extension(stem: Seq<char>, e: Seq<char>)
    requires
        forall|i: int| 0 <= i < e.len() ==> e[i] != '.' && !('A' <= #[trigger] e[i] && e[i] <= 'Z'),
    ensures
        language_hint_spec(stem + seq!['.'] + e) == language_for_extension(e),
{
    lemma_last_segment_after_dot(stem, e);
    assert(ascii_lower(e) =~= e);
}

proof fn lemma_languages_rust_python_c(stem: Seq<char>)
    ensures
        language_hint_spec(stem + seq!['.'] + "rs"@) == Some("Rust"@),
        language_hint_spec(stem + seq!['.'] + "py"@) == Some("Python"@),
        language_hint_spec(stem + seq!['.'] + "pyw"@) == Some("Python"@),
        language_hint_spec(stem + seq!['.'] + "c"@) == Some("C"@),
        language_hint_spec(stem + seq!['.'] + "h"@) == Some("C"@),
{
    assert(language_hint_spec(stem + seq!['.'] + "rs"@) == Some("Rust"@)) by {
        reveal_strlit("rs");
        reveal_strlit("Rust");
        lemma_hint_by_extension(stem, "rs"@);
    }
    assert(language_hint_spec(stem + seq!['.'] + "py"@) == Some("Python"@)) by {
        reveal_strlit("rs");
        reveal_strlit("py");
        reveal_strlit("Python");
        lemma_texts_differ_at("py"@, "rs"@, 0);
        lemma_hint_by_extension(stem, "py"@);
    }
    assert(language_hint_spec(stem + seq!['.'] + "pyw"@) == Some("Python"@)) by {
        reveal_strlit("rs");
        reveal_strlit("py");
        reveal_strlit("pyw");
        reveal_strlit("Python");
        lemma_hint_by_extension(stem, "pyw"@);
    }
    assert(language_hint_spec(stem + seq!['.'] + "c"@) == Some("C"@)) by {
        reveal_strlit("rs");
        reveal_strlit("py");
        reveal_strlit("pyw");
        reveal_strlit("c");
        reveal_strlit("C");
        lemma_hint_by_extension(stem, "c"@);
    }
    assert(language_hint_spec(stem + seq!['.'] + "h"@) == Some("C"@)) by {
        reveal_strlit("rs");
        reveal_strlit("py");
        reveal_strlit("pyw");
        reveal_strlit("c");
        reveal_strlit("h");
        reveal_strlit("C");
        lemma_texts_differ_at("h"@, "c"@, 0);
        lemma_hint_by_extension(stem, "h"@);
    }
}

proof fn lemma_languages_cpp(stem: Seq<char>)
    ensures
        language_hint_spec(stem + seq!['.'] + "cc"@) == Some("C++"@),
        language_hint_spec(stem + seq!['.'] + "cpp"@) == Some("C++"@),
        language_hint_spec(stem + seq!['.'] + "cxx"@) == Some("C++"@),
        language_hint_spec(stem + seq!['.'] + "hpp"@) == Some("C++"@),
        language_hint_spec(stem + seq!['.'] + "hh"@) == Some("C++"@),
{
    assert(language_hint_spec(stem + seq!['.'] + "cc"@) == Some("C++"@)) by {
        reveal_strlit("rs");
        reveal_strlit("py");
        reveal_strlit("pyw");
        reveal_strlit("c");
        reveal_strlit("h");
        reveal_strlit("cc");
        reveal_strlit("C++");
        lemma_texts_differ_at("cc"@, "rs"@, 0);
        lemma_texts_differ_at("cc"@, "py"@, 0);
        lemma_hint_by_extension(stem, "cc"@);
    }
    assert(language_hint_spec(stem + seq!['.'] + "cpp"@) == Some("C++"@)) by {
        reveal_strlit("rs");
        reveal_strlit("py");
        reveal_strlit("pyw");
        reveal_strlit("c");
        reveal_strlit("h");
        reveal_strlit("cc");
        reveal_strlit("cpp");
        reveal_strlit("C++");
        lemma_texts_differ_at("cpp"@, "pyw"@, 0);
        lemma_hint_by_extension(stem, "cpp"@);
    }
    assert(language_hint_spec(stem + seq!['.'] + "cxx"@) == Some("C++"@)) by {
        reveal_strlit("rs");
        reveal_strlit("py");
        reveal_strlit("pyw");
        reveal_strlit("c");
        reveal_strlit("h");
        reveal_strlit("cc");
        reveal_strlit("cpp");
        reveal_strlit("cxx");
        reveal_strlit("C++");
        lemma_texts_differ_at("cxx"@, "pyw"@, 0);
        lemma_texts_differ_at("cxx"@, "cpp"@, 1);
        lemma_hint_by_extension(stem, "cxx"@);
    }
    assert(language_hint_spec(stem + seq!['.'] + "hpp"@) == Some("C++"@)) by {
        reveal_strlit("rs");
        reveal_strlit("py");
        reveal_strlit("pyw");
        reveal_strlit("c");
        reveal_strlit("h");
        reveal_strlit("cc");
        reveal_strlit("cpp");
        reveal_strlit("cxx");
        reveal_strlit("hpp");
        reveal_strlit("C++");
        lemma_texts_differ_at("hpp"@, "pyw"@, 0);
        lemma_texts_differ_at("hpp"@, "cpp"@, 0);
        lemma_texts_differ_at("hpp"@, "cxx"@, 0);
        lemma_hint_by_extension(stem, "hpp"@);
    }
    assert(language_hint_spec(stem + seq!['.'] + "hh"@) == Some("C++"@)) by {
        reveal_strlit("rs");
        reveal_strlit("py");
        reveal_strlit("pyw");
        reveal_strlit("c");
        reveal_strlit("h");
        reveal_strlit("cc");
        reveal_strlit("cpp");
        reveal_strlit("cxx");
        reveal_strlit("hpp");
        reveal_strlit("hh");
        reveal_strlit("C++");
        lemma_texts_differ_at("hh"@, "rs"@, 0);
        lemma_texts_differ_at("hh"@, "py"@, 0);
        lemma_texts_differ_at("hh"@, "cc"@, 0);
        lemma_hint_by_extension(stem, "hh"@);
    }
}

proof fn lemma_languages_scripts(stem: Seq<char>)
    ensures
        language_hint_spec(stem + seq!['.'] + "js"@) == Some("JavaScript"@),
        language_hint_spec(stem + seq!['.'] + "mjs"@) == Some("JavaScript"@),
        language_hint_spec(stem + seq!['.'] + "cjs"@) == Some("JavaScript"@),
        language_hint_spec(stem + seq!['.'] + "ts"@) == Some("TypeScript"@),
        language_hint_spec(stem + seq!['.'] + "tsx"@) == Some("TypeScript"@),
        language_hint_spec(stem + seq!['.'] + "jsx"@) == Some("JavaScript (JSX)"@),
{
    assert(language_hint_spec(stem + seq!['.'] + "js"@) == Some("JavaScript"@)) by {
        reveal_strlit("rs");
        reveal_strlit("py");
        reveal_strlit("pyw");
        reveal_strlit("c");
        reveal_strlit("h");
        reveal_strlit("cc");
        reveal_strlit("cpp");
        reveal_strlit("cxx");
        reveal_strlit("hpp");
        reveal_strlit("hh");
        reveal_strlit("js");
        reveal_strlit("JavaScript");
        lemma_texts_differ_at("js"@, "rs"@, 0);
        lemma_texts_differ_at("js"@, "py"@, 0);
        lemma_texts_differ_at("js"@, "cc"@, 0);
        lemma_texts_differ_at("js"@, "hh"@, 0);
        lemma_hint_by_extension(stem, "js"@);
    }
    assert(language_hint_spec(stem + seq!['.'] + "mjs"@) == Some("JavaScript"@)) by {
        reveal_strlit("rs");
        reveal_strlit("py");
        reveal_strlit("pyw");
        reveal_strlit("c");
        reveal_strlit("h");
        reveal_strlit("cc");
        reveal_strlit("cpp");
        reveal_strlit("cxx");
        reveal_strlit("hpp");
        reveal_strlit("hh");
        reveal_strlit("js");
        reveal_strlit("mjs");
        reveal_strlit("JavaScript");
        lemma_texts_differ_at("mjs"@, "pyw"@, 0);
        lemma_texts_differ_at("mjs"@, "cpp"@, 0);
        lemma_texts_differ_at("mjs"@, "cxx"@, 0);
        lemma_texts_differ_at("mjs"@, "hpp"@, 0);
        lemma_hint_by_extension(stem, "mjs"@);
    }
    assert(language_hint_spec(stem + seq!['.'] + "cjs"@) == Some("JavaScript"@)) by {
        reveal_strlit("rs");
        reveal_strlit("py");
        reveal_strlit("pyw");
        reveal_strlit("c");
        reveal_strlit("h");
        reveal_strlit("cc");
        reveal_strlit("cpp");
        reveal_strlit("cxx");
        reveal_strlit("hpp");
        reveal_strlit("hh");
        reveal_strlit("js");
        reveal_strlit("mjs");
        reveal_strlit("cjs");
        reveal_strlit("JavaScript");
        lemma_texts_differ_at("cjs"@, "pyw"@, 0);
        lemma_texts_differ_at("cjs"@, "cpp"@, 1);
        lemma_texts_differ_at("cjs"@, "cxx"@, 1);
        lemma_texts_differ_at("cjs"@, "hpp"@, 0);
        lemma_texts_differ_at("cjs"@, "mjs"@, 0);
        lemma_hint_by_extension(stem, "cjs"@);
    }
    assert(language_hint_spec(stem + seq!['.'] + "ts"@) == Some("TypeScript"@)) by {
        reveal_strlit("rs");
        reveal_strlit("py");
        reveal_strlit("pyw");
        reveal_strlit("c");
        reveal_strlit("h");
        reveal_strlit("cc");
        reveal_strlit("cpp");
        reveal_strlit("cxx");
        reveal_strlit("hpp");
        reveal_strlit("hh");
        reveal_strlit("js");
        reveal_strlit("mjs");
        reveal_strlit("cjs");
        reveal_strlit("ts");
        reveal_strlit("TypeScript");
        lemma_texts_differ_at("ts"@, "rs"@, 0);
        lemma_texts_differ_at("ts"@, "py"@, 0);
        lemma_texts_differ_at("ts"@, "cc"@, 0);
        lemma_texts_differ_at("ts"@, "hh"@, 0);
        lemma_texts_differ_at("ts"@, "js"@, 0);
        lemma_hint_by_extension(stem, "ts"@);
    }
    assert(language_hint_spec(stem + seq!['.'] + "tsx"@) == Some("TypeScript"@)) by {
        reveal_strlit("rs");
        reveal_strlit("py");
        reveal_strlit("pyw");
        reveal_strlit("c");
        reveal_strlit("h");
        reveal_strlit("cc");
        reveal_strlit("cpp");
        reveal_strlit("cxx");
        reveal_strlit("hpp");
        reveal_strlit("hh");
        reveal_strlit("js");
        reveal_strlit("mjs");
        reveal_strlit("cjs");
        reveal_strlit("ts");
        reveal_strlit("tsx");
        reveal_strlit("TypeScript");
        lemma_texts_differ_at("tsx"@, "pyw"@, 0);
        lemma_texts_differ_at("tsx"@, "cpp"@, 0);
        lemma_texts_differ_at("tsx"@, "cxx"@, 0);
        lemma_texts_differ_at("tsx"@, "hpp"@, 0);
        lemma_texts_differ_at("tsx"@, "mjs"@, 0);
        lemma_texts_differ_at("tsx"@, "cjs"@, 0);
        lemma_hint_by_extension(stem, "tsx"@);
    }
    assert(language_hint_spec(stem + seq!['.'] + "jsx"@) == Some("JavaScript (JSX)"@)) by {
        reveal_strlit("rs");
        reveal_strlit("py");
        reveal_strlit("pyw");
        reveal_strlit("c");
        reveal_strlit("h");
        reveal_strlit("cc");
        reveal_strlit("cpp");
        reveal_strlit("cxx");
        reveal_strlit("hpp");
        reveal_strlit("hh");
        reveal_strlit("js");
        reveal_strlit("mjs");
        reveal_strlit("cjs");
        reveal_strlit("ts");
        reveal_strlit("tsx");
        reveal_strlit("jsx");
        reveal_strlit("JavaScript (JSX)");
        lemma_texts_differ_at("jsx"@, "pyw"@, 0);
        lemma_texts_differ_at("jsx"@, "cpp"@, 0);
        lemma_texts_differ_at("jsx"@, "cxx"@, 0);
        lemma_texts_differ_at("jsx"@, "hpp"@, 0);
        lemma_texts_differ_at("jsx"@, "mjs"@, 0);
        lemma_texts_differ_at("jsx"@, "cjs"@, 0);
        lemma_texts_differ_at("jsx"@, "tsx"@, 0);
        lemma_hint_by_extension(stem, "jsx"@);
    }
}

proof fn lemma_languages_programs(stem: Seq<char>)
    ensures
        language_hint_spec(stem + seq!['.'] + "java"@) == Some("Java"@),
        language_hint_spec(stem + seq!['.'] + "go"@) == Some("Go"@),
        language_hint_spec(stem + seq!['.'] + "rb"@) == Some("Ruby"@),
        language_hint_spec(stem + seq!['.'] + "php"@) == Some("PHP"@),
        language_hint_spec(stem + seq!['.'] + "sh"@) == Some("Shell"@),
        language_hint_spec(stem + seq!['.'] + "bash"@) == Some("Shell"@),
        language_hint_spec(stem + seq!['.'] + "zsh"@) == Some("Shell"@),
{
    assert(language_hint_spec(stem + seq!['.'] + "java"@) == Some("Java"@)) by {
        reveal_strlit("rs");
        reveal_strlit("py");
        reveal_strlit("pyw");
        reveal_strlit("c");
        reveal_strlit("h");
        reveal_strlit("cc");
        reveal_strlit("cpp");
        reveal_strlit("cxx");
        reveal_strlit("hpp");
        reveal_strlit("hh");
        reveal_strlit("js");
        reveal_strlit("mjs");
        reveal_strlit("cjs");
        reveal_strlit("ts");
        reveal_strlit("tsx");
        reveal_strlit("jsx");
        reveal_strlit("java");
        reveal_strlit("Java");
        lemma_hint_by_extension(stem, "java"@);
    }
    assert(language_hint_spec(stem + seq!['.'] + "go"@) == Some("Go"@)) by {
        reveal_strlit("rs");
        reveal_strlit("py");
        reveal_strlit("pyw");
        reveal_strlit("c");
        reveal_strlit("h");
        reveal_strlit("cc");
        reveal_strlit("cpp");
        reveal_strlit("cxx");
        reveal_strlit("hpp");
        reveal_strlit("hh");
        reveal_strlit("js");
        reveal_strlit("mjs");
        reveal_strlit("cjs");
        reveal_strlit("ts");
        reveal_strlit("tsx");
        reveal_strlit("jsx");
        reveal_strlit("java");
        reveal_strlit("go");
        reveal_strlit("Go");
        lemma_texts_differ_at("go"@, "rs"@, 0);
        lemma_texts_differ_at("go"@, "py"@, 0);
        lemma_texts_differ_at("go"@, "cc"@, 0);
        lemma_texts_differ_at("go"@, "hh"@, 0);
        lemma_texts_differ_at("go"@, "js"@, 0);
        lemma_texts_differ_at("go"@, "ts"@, 0);
        lemma_hint_by_extension(stem, "go"@);
    }
    assert(language_hint_spec(stem + seq!['.'] + "rb"@) == Some("Ruby"@)) by {
        reveal_strlit("rs");
        reveal_strlit("py");
        reveal_strlit("pyw");
        reveal_strlit("c");
        reveal_strlit("h");
        reveal_strlit("cc");
        reveal_strlit("cpp");
        reveal_strlit("cxx");
        reveal_strlit("hpp");
        reveal_strlit("hh");
        reveal_strlit("js");
        reveal_strlit("mjs");
        reveal_strlit("cjs");
        reveal_strlit("ts");
        reveal_strlit("tsx");
        reveal_strlit("jsx");
        reveal_strlit("java");
        reveal_strlit("go");
        reveal_strlit("rb");
        reveal_strlit("Ruby");
        lemma_texts_differ_at("rb"@, "rs"@, 1);
        lemma_texts_differ_at("rb"@, "py"@, 0);
        lemma_texts_differ_at("rb"@, "cc"@, 0);
        lemma_texts_differ_at("rb"@, "hh"@, 0);
        lemma_texts_differ_at("rb"@, "js"@, 0);
        lemma_texts_differ_at("rb"@, "ts"@, 0);
        lemma_texts_differ_at("rb"@, "go"@, 0);
        lemma_hint_by_extension(stem, "rb"@);
    }
    assert(language_hint_spec(stem + seq!['.'] + "php"@) == Some("PHP"@)) by {
        reveal_strlit("rs");
        reveal_strlit("py");
        reveal_strlit("pyw");
        reveal_strlit("c");
        reveal_strlit("h");
        reveal_strlit("cc");
        reveal_strlit("cpp");
        reveal_strlit("cxx");
        reveal_strlit("hpp");
        reveal_strlit("hh");
        reveal_strlit("js");
        reveal_strlit("mjs");
        reveal_strlit("cjs");
        reveal_strlit("ts");
        reveal_strlit("tsx");
        reveal_strlit("jsx");
        reveal_strlit("java");
        reveal_strlit("go");
        reveal_strlit("rb");
        reveal_strlit("php");
        reveal_strlit("PHP");
        lemma_texts_differ_at("php"@, "pyw"@, 1);
        lemma_texts_differ_at("php"@, "cpp"@, 0);
        lemma_texts_differ_at("php"@, "cxx"@, 0);
        lemma_texts_differ_at("php"@, "hpp"@, 0);
        lemma_texts_differ_at("php"@, "mjs"@, 0);
        lemma_texts_differ_at("php"@, "cjs"@, 0);
        lemma_texts_differ_at("php"@, "tsx"@, 0);
        lemma_texts_differ_at("php"@, "jsx"@, 0);
        lemma_hint_by_extension(stem, "php"@);
    }
    assert(language_hint_spec(stem + seq!['.'] + "sh"@) == Some("Shell"@)) by {
        reveal_strlit("rs");
        reveal_strlit("py");
        reveal_strlit("pyw");
        reveal_strlit("c");
        reveal_strlit("h");
        reveal_strlit("cc");
        reveal_strlit("cpp");
        reveal_strlit("cxx");
        reveal_strlit("hpp");
        reveal_strlit("hh");
        reveal_strlit("js");
        reveal_strlit("mjs");
        reveal_strlit("cjs");
        reveal_strlit("ts");
        reveal_strlit("tsx");
        reveal_strlit("jsx");
        reveal_strlit("java");
        reveal_strlit("go");
        reveal_strlit("rb");
        reveal_strlit("php");
        reveal_strlit("sh");
        reveal_strlit("Shell");
        lemma_texts_differ_at("sh"@, "rs"@, 0);
        lemma_texts_differ_at("sh"@, "py"@, 0);
        lemma_texts_differ_at("sh"@, "cc"@, 0);
        lemma_texts_differ_at("sh"@, "hh"@, 0);
        lemma_texts_differ_at("sh"@, "js"@, 0);
        lemma_texts_differ_at("sh"@, "ts"@, 0);
        lemma_texts_differ_at("sh"@, "go"@, 0);
        lemma_texts_differ_at("sh"@, "rb"@, 0);
        lemma_hint_by_extension(stem, "sh"@);
    }
    assert(language_hint_spec(stem + seq!['.'] + "bash"@) == Some("Shell"@)) by {
        reveal_strlit("rs");
        reveal_strlit("py");
        reveal_strlit("pyw");
        reveal_strlit("c");
        reveal_strlit("h");
        reveal_strlit("cc");
        reveal_strlit("cpp");
        reveal_strlit("cxx");
        reveal_strlit("hpp");
        reveal_strlit("hh");
        reveal_strlit("js");
        reveal_strlit("mjs");
        reveal_strlit("cjs");
        reveal_strlit("ts");
        reveal_strlit("tsx");
        reveal_strlit("jsx");
        reveal_strlit("java");
        reveal_strlit("go");
        reveal_strlit("rb");
        reveal_strlit("php");
        reveal_strlit("sh");
        reveal_strlit("bash");
        reveal_strlit("Shell");
        lemma_texts_differ_at("bash"@, "java"@, 0);
        lemma_hint_by_extension(stem, "bash"@);
    }
    assert(language_hint_spec(stem + seq!['.'] + "zsh"@) == Some("Shell"@)) by {
        reveal_strlit("rs");
        reveal_strlit("py");
        reveal_strlit("pyw");
        reveal_strlit("c");
        reveal_strlit("h");
        reveal_strlit("cc");
        reveal_strlit("cpp");
        reveal_strlit("cxx");
        reveal_strlit("hpp");
        reveal_strlit("hh");
        reveal_strlit("js");
        reveal_strlit("mjs");
        reveal_strlit("cjs");
        reveal_strlit("ts");
        reveal_strlit("tsx");
        reveal_strlit("jsx");
        reveal_strlit("java");
        reveal_strlit("go");
        reveal_strlit("rb");
        reveal_strlit("php");
        reveal_strlit("sh");
        reveal_strlit("bash");
        reveal_strlit("zsh");
        reveal_strlit("Shell");
        lemma_texts_differ_at("zsh"@, "pyw"@, 0);
        lemma_texts_differ_at("zsh"@, "cpp"@, 0);
        lemma_texts_differ_at("zsh"@, "cxx"@, 0);
        lemma_texts_differ_at("zsh"@, "hpp"@, 0);
        lemma_texts_differ_at("zsh"@, "mjs"@, 0);
        lemma_texts_differ_at("zsh"@, "cjs"@, 0);
        lemma_texts_differ_at("zsh"@, "tsx"@, 0);
        lemma_texts_differ_at("zsh"@, "jsx"@, 0);
        lemma_texts_differ_at("zsh"@, "php"@, 0);
        lemma_hint_by_extension(stem, "zsh"@);
    }
}

proof fn lemma_languages_data(stem: Seq<char>)
    ensures
        language_hint_spec(stem + seq!['.'] + "json"@) == Some("JSON"@),
        language_hint_spec(stem + seq!['.'] + "toml"@) == Some("TOML"@),
        language_hint_spec(stem + seq!['.'] + "yaml"@) == Some("YAML"@),
        language_hint_spec(stem + seq!['.'] + "yml"@) == Some("YAML"@),
        language_hint_spec(stem + seq!['.'] + "md"@) == Some("Markdown"@),
        language_hint_spec(stem + seq!['.'] + "markdown"@) == Some("Markdown"@),
{
    assert(language_hint_spec(stem + seq!['.'] + "json"@) == Some("JSON"@)) by {
        reveal_strlit("rs");
        reveal_strlit("py");
        reveal_strlit("pyw");
        reveal_strlit("c");
        reveal_strlit("h");
        reveal_strlit("cc");
        reveal_strlit("cpp");
        reveal_strlit("cxx");
        reveal_strlit("hpp");
        reveal_strlit("hh");
        reveal_strlit("js");
        reveal_strlit("mjs");
        reveal_strlit("cjs");
        reveal_strlit("ts");
        reveal_strlit("tsx");
        reveal_strlit("jsx");
        reveal_strlit("java");
        reveal_strlit("go");
        reveal_strlit("rb");
        reveal_strlit("php");
        reveal_strlit("sh");
        reveal_strlit("bash");
        reveal_strlit("zsh");
        reveal_strlit("json");
        reveal_strlit("JSON");
        lemma_texts_differ_at("json"@, "java"@, 1);
        lemma_texts_differ_at("json"@, "bash"@, 0);
        lemma_hint_by_extension(stem, "json"@);
    }
    assert(language_hint_spec(stem + seq!['.'] + "toml"@) == Some("TOML"@)) by {
        reveal_strlit("rs");
        reveal_strlit("py");
        reveal_strlit("pyw");
        reveal_strlit("c");
        reveal_strlit("h");
        reveal_strlit("cc");
        reveal_strlit("cpp");
        reveal_strlit("cxx");
        reveal_strlit("hpp");
        reveal_strlit("hh");
        reveal_strlit("js");
        reveal_strlit("mjs");
        reveal_strlit("cjs");
        reveal_strlit("ts");
        reveal_strlit("tsx");
        reveal_strlit("jsx");
        reveal_strlit("java");
        reveal_strlit("go");
        reveal_strlit("rb");
        reveal_strlit("php");
        reveal_strlit("sh");
        reveal_strlit("bash");
        reveal_strlit("zsh");
        reveal_strlit("json");
        reveal_strlit("toml");
        reveal_strlit("TOML");
        lemma_texts_differ_at("toml"@, "java"@, 0);
        lemma_texts_differ_at("toml"@, "bash"@, 0);
        lemma_texts_differ_at("toml"@, "json"@, 0);
        lemma_hint_by_extension(stem, "toml"@);
    }
    assert(language_hint_spec(stem + seq!['.'] + "yaml"@) == Some("YAML"@)) by {
        reveal_strlit("rs");
        reveal_strlit("py");
        reveal_strlit("pyw");
        reveal_strlit("c");
        reveal_strlit("h");
        reveal_strlit("cc");
        reveal_strlit("cpp");
        reveal_strlit("cxx");
        reveal_strlit("hpp");
        reveal_strlit("hh");
        reveal_strlit("js");
        reveal_strlit("mjs");
        reveal_strlit("cjs");
        reveal_strlit("ts");
        reveal_strlit("tsx");
        reveal_strlit("jsx");
        reveal_strlit("java");
        reveal_strlit("go");
        reveal_strlit("rb");
        reveal_strlit("php");
        reveal_strlit("sh");
        reveal_strlit("bash");
        reveal_strlit("zsh");
        reveal_strlit("json");
        reveal_strlit("toml");
        reveal_strlit("yaml");
        reveal_strlit("YAML");
        lemma_texts_differ_at("yaml"@, "java"@, 0);
        lemma_texts_differ_at("yaml"@, "bash"@, 0);
        lemma_texts_differ_at("yaml"@, "json"@, 0);
        lemma_texts_differ_at("yaml"@, "toml"@, 0);
        lemma_hint_by_extension(stem, "yaml"@);
    }
    assert(language_hint_spec(stem + seq!['.'] + "yml"@) == Some("YAML"@)) by {
        reveal_strlit("rs");
        reveal_strlit("py");
        reveal_strlit("pyw");
        reveal_strlit("c");
        reveal_strlit("h");
        reveal_strlit("cc");
        reveal_strlit("cpp");
        reveal_strlit("cxx");
        reveal_strlit("hpp");
        reveal_strlit("hh");
        reveal_strlit("js");
        reveal_strlit("mjs");
        reveal_strlit("cjs");
        reveal_strlit("ts");
        reveal_strlit("tsx");
        reveal_strlit("jsx");
        reveal_strlit("java");
        reveal_strlit("go");
        reveal_strlit("rb");
        reveal_strlit("php");
        reveal_strlit("sh");
        reveal_strlit("bash");
        reveal_strlit("zsh");
        reveal_strlit("json");
        reveal_strlit("toml");
        reveal_strlit("yaml");
        reveal_strlit("yml");
        reveal_strlit("YAML");
        lemma_texts_differ_at("yml"@, "pyw"@, 0);
        lemma_texts_differ_at("yml"@, "cpp"@, 0);
        lemma_texts_differ_at("yml"@, "cxx"@, 0);
        lemma_texts_differ_at("yml"@, "hpp"@, 0);
        lemma_texts_differ_at("yml"@, "mjs"@, 0);
        lemma_texts_differ_at("yml"@, "cjs"@, 0);
        lemma_texts_differ_at("yml"@, "tsx"@, 0);
        lemma_texts_differ_at("yml"@, "jsx"@, 0);
        lemma_texts_differ_at("yml"@, "php"@, 0);
        lemma_texts_differ_at("yml"@, "zsh"@, 0);
        lemma_hint_by_extension(stem, "yml"@);
    }
    assert(language_hint_spec(stem + seq!['.'] + "md"@) == Some("Markdown"@)) by {
        reveal_strlit("rs");
        reveal_strlit("py");
        reveal_strlit("pyw");
        reveal_strlit("c");
        reveal_strlit("h");
        reveal_strlit("cc");
        reveal_strlit("cpp");
        reveal_strlit("cxx");
        reveal_strlit("hpp");
        reveal_strlit("hh");
        reveal_strlit("js");
        reveal_strlit("mjs");
        reveal_strlit("cjs");
        reveal_strlit("ts");
        reveal_strlit("tsx");
        reveal_strlit("jsx");
        reveal_strlit("java");
        reveal_strlit("go");
        reveal_strlit("rb");
        reveal_strlit("php");
        reveal_strlit("sh");
        reveal_strlit("bash");
        reveal_strlit("zsh");
        reveal_strlit("json");
        reveal_strlit("toml");
        reveal_strlit("yaml");
        reveal_strlit("yml");
        reveal_strlit("md");
        reveal_strlit("Markdown");
        lemma_texts_differ_at("md"@, "rs"@, 0);
        lemma_texts_differ_at("md"@, "py"@, 0);
        lemma_texts_differ_at("md"@, "cc"@, 0);
        lemma_texts_differ_at("md"@, "hh"@, 0);
        lemma_texts_differ_at("md"@, "js"@, 0);
        lemma_texts_differ_at("md"@, "ts"@, 0);
        lemma_texts_differ_at("md"@, "go"@, 0);
        lemma_texts_differ_at("md"@, "rb"@, 0);
        lemma_texts_differ_at("md"@, "sh"@, 0);
        lemma_hint_by_extension(stem, "md"@);
    }
    assert(language_hint_spec(stem + seq!['.'] + "markdown"@) == Some("Markdown"@)) by {
        reveal_strlit("rs");
        reveal_strlit("py");
        reveal_strlit("pyw");
        reveal_strlit("c");
        reveal_strlit("h");
        reveal_strlit("cc");
        reveal_strlit("cpp");
        reveal_strlit("cxx");
        reveal_strlit("hpp");
        reveal_strlit("hh");
        reveal_strlit("js");
        reveal_strlit("mjs");
        reveal_strlit("cjs");
        reveal_strlit("ts");
        reveal_strlit("tsx");
        reveal_strlit("jsx");
        reveal_strlit("java");
        reveal_strlit("go");
        reveal_strlit("rb");
        reveal_strlit("php");
        reveal_strlit("sh");
        reveal_strlit("bash");
        reveal_strlit("zsh");
        reveal_strlit("json");
        reveal_strlit("toml");
        reveal_strlit("yaml");
        reveal_strlit("yml");
        reveal_strlit("md");
        reveal_strlit("markdown");
        reveal_strlit("Markdown");
        lemma_hint_by_extension(stem, "markdown"@);
    }
}

proof fn lemma_languages_documents(stem: Seq<char>)
    ensures
        language_hint_spec(stem + seq!['.'] + "html"@) == Some("HTML"@),
        language_hint_spec(stem + seq!['.'] + "htm"@) == Some("HTML"@),
        language_hint_spec(stem + seq!['.'] + "css"@) == Some("CSS"@),
        language_hint_spec(stem + seq!['.'] + "sql"@) == Some("SQL"@),
        language_hint_spec(stem + seq!['.'] + "tex"@) == Some("LaTeX"@),
{
    assert(language_hint_spec(stem + seq!['.'] + "html"@) == Some("HTML"@)) by {
        reveal_strlit("rs");
        reveal_strlit("py");
        reveal_strlit("pyw");
        reveal_strlit("c");
        reveal_strlit("h");
        reveal_strlit("cc");
        reveal_strlit("cpp");
        reveal_strlit("cxx");
        reveal_strlit("hpp");
        reveal_strlit("hh");
        reveal_strlit("js");
        reveal_strlit("mjs");
        reveal_strlit("cjs");
        reveal_strlit("ts");
        reveal_strlit("tsx");
        reveal_strlit("jsx");
        reveal_strlit("java");
        reveal_strlit("go");
        reveal_strlit("rb");
        reveal_strlit("php");
        reveal_strlit("sh");
        reveal_strlit("bash");
        reveal_strlit("zsh");
        reveal_strlit("json");
        reveal_strlit("toml");
        reveal_strlit("yaml");
        reveal_strlit("yml");
        reveal_strlit("md");
        reveal_strlit("markdown");
        reveal_strlit("html");
        reveal_strlit("HTML");
        lemma_texts_differ_at("html"@, "java"@, 0);
        lemma_texts_differ_at("html"@, "bash"@, 0);
        lemma_texts_differ_at("html"@, "json"@, 0);
        lemma_texts_differ_at("html"@, "toml"@, 0);
        lemma_texts_differ_at("html"@, "yaml"@, 0);
        lemma_hint_by_extension(stem, "html"@);
    }
    assert(language_hint_spec(stem + seq!['.'] + "htm"@) == Some("HTML"@)) by {
        reveal_strlit("rs");
        reveal_strlit("py");
        reveal_strlit("pyw");
        reveal_strlit("c");
        reveal_strlit("h");
        reveal_strlit("cc");
        reveal_strlit("cpp");
        reveal_strlit("cxx");
        reveal_strlit("hpp");
        reveal_strlit("hh");
        reveal_strlit("js");
        reveal_strlit("mjs");
        reveal_strlit("cjs");
        reveal_strlit("ts");
        reveal_strlit("tsx");
        reveal_strlit("jsx");
        reveal_strlit("java");
        reveal_strlit("go");
        reveal_strlit("rb");
        reveal_strlit("php");
        reveal_strlit("sh");
        reveal_strlit("bash");
        reveal_strlit("zsh");
        reveal_strlit("json");
        reveal_strlit("toml");
        reveal_strlit("yaml");
        reveal_strlit("yml");
        reveal_strlit("md");
        reveal_strlit("markdown");
        reveal_strlit("html");
        reveal_strlit("htm");
        reveal_strlit("HTML");
        lemma_texts_differ_at("htm"@, "pyw"@, 0);
        lemma_texts_differ_at("htm"@, "cpp"@, 0);
        lemma_texts_differ_at("htm"@, "cxx"@, 0);
        lemma_texts_differ_at("htm"@, "hpp"@, 1);
        lemma_texts_differ_at("htm"@, "mjs"@, 0);
        lemma_texts_differ_at("htm"@, "cjs"@, 0);
        lemma_texts_differ_at("htm"@, "tsx"@, 0);
        lemma_texts_differ_at("htm"@, "jsx"@, 0);
        lemma_texts_differ_at("htm"@, "php"@, 0);
        lemma_texts_differ_at("htm"@, "zsh"@, 0);
        lemma_texts_differ_at("htm"@, "yml"@, 0);
        lemma_hint_by_extension(stem, "htm"@);
    }
    assert(language_hint_spec(stem + seq!['.'] + "css"@) == Some("CSS"@)) by {
        reveal_strlit("rs");
        reveal_strlit("py");
        reveal_strlit("pyw");
        reveal_strlit("c");
        reveal_strlit("h");
        reveal_strlit("cc");
        reveal_strlit("cpp");
        reveal_strlit("cxx");
        reveal_strlit("hpp");
        reveal_strlit("hh");
        reveal_strlit("js");
        reveal_strlit("mjs");
        reveal_strlit("cjs");
        reveal_strlit("ts");
        reveal_strlit("tsx");
        reveal_strlit("jsx");
        reveal_strlit("java");
        reveal_strlit("go");
        reveal_strlit("rb");
        reveal_strlit("php");
        reveal_strlit("sh");
        reveal_strlit("bash");
        reveal_strlit("zsh");
        reveal_strlit("json");
        reveal_strlit("toml");
        reveal_strlit("yaml");
        reveal_strlit("yml");
        reveal_strlit("md");
        reveal_strlit("markdown");
        reveal_strlit("html");
        reveal_strlit("htm");
        reveal_strlit("css");
        reveal_strlit("CSS");
        lemma_texts_differ_at("css"@, "pyw"@, 0);
        lemma_texts_differ_at("css"@, "cpp"@, 1);
        lemma_texts_differ_at("css"@, "cxx"@, 1);
        lemma_texts_differ_at("css"@, "hpp"@, 0);
        lemma_texts_differ_at("css"@, "mjs"@, 0);
        lemma_texts_differ_at("css"@, "cjs"@, 1);
        lemma_texts_differ_at("css"@, "tsx"@, 0);
        lemma_texts_differ_at("css"@, "jsx"@, 0);
        lemma_texts_differ_at("css"@, "php"@, 0);
        lemma_texts_differ_at("css"@, "zsh"@, 0);
        lemma_texts_differ_at("css"@, "yml"@, 0);
        lemma_texts_differ_at("css"@, "htm"@, 0);
        lemma_hint_by_extension(stem, "css"@);
    }
    assert(language_hint_spec(stem + seq!['.'] + "sql"@) == Some("SQL"@)) by {
        reveal_strlit("rs");
        reveal_strlit("py");
        reveal_strlit("pyw");
        reveal_strlit("c");
        reveal_strlit("h");
        reveal_strlit("cc");
        reveal_strlit("cpp");
        reveal_strlit("cxx");
        reveal_strlit("hpp");
        reveal_strlit("hh");
        reveal_strlit("js");
        reveal_strlit("mjs");
        reveal_strlit("cjs");
        reveal_strlit("ts");
        reveal_strlit("tsx");
        reveal_strlit("jsx");
        reveal_strlit("java");
        reveal_strlit("go");
        reveal_strlit("rb");
        reveal_strlit("php");
        reveal_strlit("sh");
        reveal_strlit("bash");
        reveal_strlit("zsh");
        reveal_strlit("json");
        reveal_strlit("toml");
        reveal_strlit("yaml");
        reveal_strlit("yml");
        reveal_strlit("md");
        reveal_strlit("markdown");
        reveal_strlit("html");
        reveal_strlit("htm");
        reveal_strlit("css");
        reveal_strlit("sql");
        reveal_strlit("SQL");
        lemma_texts_differ_at("sql"@, "pyw"@, 0);
        lemma_texts_differ_at("sql"@, "cpp"@, 0);
        lemma_texts_differ_at("sql"@, "cxx"@, 0);
        lemma_texts_differ_at("sql"@, "hpp"@, 0);
        lemma_texts_differ_at("sql"@, "mjs"@, 0);
        lemma_texts_differ_at("sql"@, "cjs"@, 0);
        lemma_texts_differ_at("sql"@, "tsx"@, 0);
        lemma_texts_differ_at("sql"@, "jsx"@, 0);
        lemma_texts_differ_at("sql"@, "php"@, 0);
        lemma_texts_differ_at("sql"@, "zsh"@, 0);
        lemma_texts_differ_at("sql"@, "yml"@, 0);
        lemma_texts_differ_at("sql"@, "htm"@, 0);
        lemma_texts_differ_at("sql"@, "css"@, 0);
        lemma_hint_by_extension(stem, "sql"@);
    }
    assert(language_hint_spec(stem + seq!['.'] + "tex"@) == Some("LaTeX"@)) by {
        reveal_strlit("rs");
        reveal_strlit("py");
        reveal_strlit("pyw");
        reveal_strlit("c");
        reveal_strlit("h");
        reveal_strlit("cc");
        reveal_strlit("cpp");
        reveal_strlit("cxx");
        reveal_strlit("hpp");
        reveal_strlit("hh");
        reveal_strlit("js");
        reveal_strlit("mjs");
        reveal_strlit("cjs");
        reveal_strlit("ts");
        reveal_strlit("tsx");
        reveal_strlit("jsx");
        reveal_strlit("java");
        reveal_strlit("go");
        reveal_strlit("rb");
        reveal_strlit("php");
        reveal_strlit("sh");
        reveal_strlit("bash");
        reveal_strlit("zsh");
        reveal_strlit("json");
        reveal_strlit("toml");
        reveal_strlit("yaml");
        reveal_strlit("yml");
        reveal_strlit("md");
        reveal_strlit("markdown");
        reveal_strlit("html");
        reveal_strlit("htm");
        reveal_strlit("css");
        reveal_strlit("sql");
        reveal_strlit("tex");
        reveal_strlit("LaTeX");
        lemma_texts_differ_at("tex"@, "pyw"@, 0);
        lemma_texts_differ_at("tex"@, "cpp"@, 0);
        lemma_texts_differ_at("tex"@, "cxx"@, 0);
        lemma_texts_differ_at("tex"@, "hpp"@, 0);
        lemma_texts_differ_at("tex"@, "mjs"@, 0);
        lemma_texts_differ_at("tex"@, "cjs"@, 0);
        lemma_texts_differ_at("tex"@, "tsx"@, 1);
        lemma_texts_differ_at("tex"@, "jsx"@, 0);
        lemma_texts_differ_at("tex"@, "php"@, 0);
        lemma_texts_differ_at("tex"@, "zsh"@, 0);
        lemma_texts_differ_at("tex"@, "yml"@, 0);
        lemma_texts_differ_at("tex"@, "htm"@, 0);
        lemma_texts_differ_at("tex"@, "css"@, 0);
        lemma_texts_differ_at("tex"@, "sql"@, 0);
        lemma_hint_by_extension(stem, "tex"@);
    }
}

/// The language hint of a file, whatever its name before the last dot, by
/// its extension: Rust; Python; C for `c` and `h`, C++ for `cc`, `cpp`,
/// `cxx`, `hpp` and `hh`; JavaScript, TypeScript, JSX; Java, Go, Ruby, PHP;
/// the shells; JSON, TOML, YAML, Markdown, HTML, CSS, SQL and LaTeX.
pub proof fn lemma_language_of_each_extension(stem: Seq<char>)
    ensures
        language_hint_spec(stem + seq!['.'] + "rs"@) == Some("Rust"@),
        language_hint_spec(stem + seq!['.'] + "py"@) == Some("Python"@),
        language_hint_spec(stem + seq!['.'] + "pyw"@) == Some("Python"@),
        language_hint_spec(stem + seq!['.'] + "c"@) == Some("C"@),
        language_hint_spec(stem + seq!['.'] + "h"@) == Some("C"@),
        language_hint_spec(stem + seq!['.'] + "cc"@) == Some("C++"@),
        language_hint_spec(stem + seq!['.'] + "cpp"@) == Some("C++"@),
        language_hint_spec(stem + seq!['.'] + "cxx"@) == Some("C++"@),
        language_hint_spec(stem + seq!['.'] + "hpp"@) == Some("C++"@),
        language_hint_spec(stem + seq!['.'] + "hh"@) == Some("C++"@),
        language_hint_spec(stem + seq!['.'] + "js"@) == Some("JavaScript"@),
        language_hint_spec(stem + seq!['.'] + "mjs"@) == Some("JavaScript"@),
        language_hint_spec(stem + seq!['.'] + "cjs"@) == Some("JavaScript"@),
        language_hint_spec(stem + seq!['.'] + "ts"@) == Some("TypeScript"@),
        language_hint_spec(stem + seq!['.'] + "tsx"@) == Some("TypeScript"@),
        language_hint_spec(stem + seq!['.'] + "jsx"@) == Some("JavaScript (JSX)"@),
        language_hint_spec(stem + seq!['.'] + "java"@) == Some("Java"@),
        language_hint_spec(stem + seq!['.'] + "go"@) == Some("Go"@),
        language_hint_spec(stem + seq!['.'] + "rb"@) == Some("Ruby"@),
        language_hint_spec(stem + seq!['.'] + "php"@) == Some("PHP"@),
        language_hint_spec(stem + seq!['.'] + "sh"@) == Some("Shell"@),
        language_hint_spec(stem + seq!['.'] + "bash"@) == Some("Shell"@),
        language_hint_spec(stem + seq!['.'] + "zsh"@) == Some("Shell"@),
        language_hint_spec(stem + seq!['.'] + "json"@) == Some("JSON"@),
        language_hint_spec(stem + seq!['.'] + "toml"@) == Some("TOML"@),
        language_hint_spec(stem + seq!['.'] + "yaml"@) == Some("YAML"@),
        language_hint_spec(stem + seq!['.'] + "yml"@) == Some("YAML"@),
        language_hint_spec(stem + seq!['.'] + "md"@) == Some("Markdown"@),
        language_hint_spec(stem + seq!['.'] + "markdown"@) == Some("Markdown"@),
        language_hint_spec(stem + seq!['.'] + "html"@) == Some("HTML"@),
        language_hint_spec(stem + seq!['.'] + "htm"@) == Some("HTML"@),
        language_hint_spec(stem + seq!['.'] + "css"@) == Some("CSS"@),
        language_hint_spec(stem + seq!['.'] + "sql"@) == Some("SQL"@),
        language_hint_spec(stem + seq!['.'] + "tex"@) == Some("LaTeX"@),
{
    lemma_languages_rust_python_c(stem);
    lemma_languages_cpp(stem);
    lemma_languages_scripts(stem);
    lemma_languages_programs(stem);
    lemma_languages_data(stem);
    lemma_languages_documents(stem);
}

pub open spec fn static_opt_view(o: Option<&'static str>) -> Option<Seq<char>> {
    match o {
        Some(s) => Some(s@),
        None => None,
    }
}

fn ascii_lower_exec(c: char) -> (r: char)
    ensures
        r == ascii_lower_char(c),
{
    if 'A' <= c && c <= 'Z' {
        let b = (c as u8) + 32;
        b as char
    } else {
        c
    }
}

/// `s` made ASCII lower-case.
fn lowered(s: &Vec<char>, lo: usize, hi: usize) -> (r: Vec<char>)
    requires
        lo <= hi <= s.len(),
    ensures
        r@ == ascii_lower(s@.subrange(lo as int, hi as int)),
{
    let mut r: Vec<char> = Vec::new();
    let mut i = lo;
    while i < hi
        invariant
            lo <= i <= hi <= s.len(),
            r@ == ascii_lower(s@.subrange(lo as int, i as int)),
        decreases hi - i,
    {
        r.push(ascii_lower_exec(s[i]));
        i += 1;
        assert(r@ =~= ascii_lower(s@.subrange(lo as int, i as int)));
    }
    r
}

fn is_ext(e: &Vec<char>, name: &str) -> (r: bool)
    ensures
        r == (e@ == name@),
{
    let n = e.len();
    assert(e@.subrange(0, n as int) =~= e@);
    range_equals(e, 0, n, name)
}

/// The language of a file, named after its extension.
pub fn language_hint_for_file_name(file_name: &str) -> (r: Option<&'static str>)
    ensures
        static_opt_view(r) == language_hint_spec(file_name@),
{
    let v = chars_of(file_name);
    let mut start = v.len();
    assert(v@.subrange(0, v.len() as int) =~= v@);
    assert(last_segment(v@, '.') + v@.subrange(v.len() as int, v.len() as int) =~= last_segment(
        v@,
        '.',
    ));
    while start > 0 && v[start - 1] != '.'
        invariant
            0 <= start <= v.len(),
            v@ == file_name@,
            last_segment(v@, '.') == last_segment(v@.subrange(0, start as int), '.') + v@.subrange(
                start as int,
                v.len() as int,
            ),
        decreases start,
    {
        let ghost w = v@.subrange(0, start as int);
        assert(w.drop_last() =~= v@.subrange(0, start - 1));
        assert(last_segment(v@.subrange(0, start - 1), '.').push(w.last()) + v@.subrange(
            start as int,
            v.len() as int,
        ) =~= last_segment(v@.subrange(0, start - 1), '.') + v@.subrange(
            start - 1,
            v.len() as int,
        ));
        start -= 1;
    }
    proof {
        let w = v@.subrange(0, start as int);
        assert(last_segment(w, '.') =~= Seq::<char>::empty());
        assert(Seq::<char>::empty() + v@.subrange(start as int, v.len() as int) =~= v@.subrange(
            start as int,
            v.len() as int,
        ));
        assert(v@.subrange(0, v.len() as int) =~= v@);
    }
    let n = v.len();
    let e = lowered(&v, start, n);
    if is_ext(&e, "rs") {
        Some("Rust")
    } else if is_ext(&e, "py") || is_ext(&e, "pyw") {
        Some("Python")
    } else if is_ext(&e, "c") || is_ext(&e, "h") {
        Some("C")
    } else if is_ext(&e, "cc") || is_ext(&e, "cpp") || is_ext(&e, "cxx") || is_ext(&e, "hpp")
        || is_ext(&e, "hh") {
        Some("C++")
    } else if is_ext(&e, "js") || is_ext(&e, "mjs") || is_ext(&e, "cjs") {
        Some("JavaScript")
    } else if is_ext(&e, "ts") || is_ext(&e, "tsx") {
        Some("TypeScript")
    } else if is_ext(&e, "jsx") {
        Some("JavaScript (JSX)")
    } else if is_ext(&e, "java") {
        Some("Java")
    } else if is_ext(&e, "go") {
        Some("Go")
    } else if is_ext(&e, "rb") {
        Some("Ruby")
    } else if is_ext(&e, "php") {
        Some("PHP")
    } else if is_ext(&e, "sh") || is_ext(&e, "bash") || is_ext(&e, "zsh") {
        Some("Shell")
    } else if is_ext(&e, "json") {
        Some("JSON")
    } else if is_ext(&e, "toml") {
        Some("TOML")
    } else if is_ext(&e, "yaml") || is_ext(&e, "yml") {
        Some("YAML")
    } else if is_ext(&e, "md") || is_ext(&e, "markdown") {
        Some("Markdown")
    } else if is_ext(&e, "html") || is_ext(&e, "htm") {
        Some("HTML")
    } else if is_ext(&e, "css") {
        Some("CSS")
    } else if is_ext(&e, "sql") {
        Some("SQL")
    } else if is_ext(&e, "tex") {
        Some("LaTeX")
    } else {
        None
    }
}

pub const LANGUAGE_HINT_PREFIX: &'static str = "\n\nLanguage: ";

pub open spec fn opt_str_view(o: Option<&str>) -> Option<Seq<char>> {
    match o {
        Some(s) => Some(s@),
        None => None,
    }
}

/// The context sent: the editor text, followed by a language line when the
/// hint is enabled and the document's file names a known language.
pub open spec fn context_with_hint_spec(
    context: Seq<char>,
    include_language_hint: bool,
    file_name: Option<Seq<char>>,
) -> Seq<char> {
    if include_language_hint && file_name is Some && language_hint_spec(file_name->0) is Some {
        context + LANGUAGE_HINT_PREFIX@ + language_hint_spec(file_name->0)->0
    } else {
        context
    }
}

/// The context sent for a document (see `context_with_hint_spec`).
pub fn context_with_hint(context: &str, include_language_hint: bool, file_name: Option<&str>) -> (r:
    String)
    ensures
        r@ == context_with_hint_spec(context@, include_language_hint, opt_str_view(file_name)),
{
    if include_language_hint {
        if let Some(name) = file_name {
            if let Some(language) = language_hint_for_file_name(name) {
                return concat3(context, LANGUAGE_HINT_PREFIX, language);
            }
        }
    }
    owned(context)
}

/// What is sent for one request.
pub struct PreparedRequest {
    pub url: String,
    pub payload: String,
}

/// The endpoint and body of a request: the context (with its language line)
/// sent to the configured server with the configured model and prompt; a
/// negative token limit counts as none.  `temperature` is the JSON text of
/// the configured temperature, when one is set.
pub fn prepare_request(
    context: &str,
    file_name: Option<&str>,
    include_language_hint: bool,
    backend_type: BackendType,
    upstream_uri: &str,
    model: &str,
    system_prompt: &str,
    max_tokens: i32,
    temperature: Option<&str>,
) -> (r: PreparedRequest)
    ensures
        r.url@ == backend_url_spec(backend_type, upstream_uri@),
        r.payload@ == request_payload_spec(
            context_with_hint_spec(context@, include_language_hint, opt_str_view(file_name)),
            backend_type,
            model@,
            system_prompt@,
            if max_tokens < 0 {
                0
            } else {
                max_tokens
            },
            temperature_view(temperature),
        ),
{
    let full = context_with_hint(context, include_language_hint, file_name);
    let limit = if max_tokens < 0 {
        0
    } else {
        max_tokens
    };
    let url = build_backend_url(backend_type, upstream_uri);
    let payload = build_request_payload(
        full.as_str(),
        backend_type,
        model,
        system_prompt,
        limit,
        temperature,
    );
    PreparedRequest { url, payload }
}

/// `x` within `[lo, hi]` (`i32::clamp`, for `lo <= hi`).
pub open spec fn clamp_spec(x: int, lo: int, hi: int) -> int {
    if x < lo {
        lo
    } else if x > hi {
        hi
    } else {
        x
    }
}

fn clamp(x: i32, lo: i32, hi: i32) -> (r: i32)
    requires
        lo <= hi,
    ensures
        r as int == clamp_spec(x as int, lo as int, hi as int),
{
    if x < lo {
        lo
    } else if x > hi {
        hi
    } else {
        x
    }
}

/// A change to the document.
pub enum EditAction {
    /// Replace `start..end` with `text`.
    ReplaceRange { start: i32, end: i32, text: String },
    /// Insert `text` at `position`.
    InsertAt { position: i32, text: String },
}

/// What to do when a request finishes.
pub enum CompletionPlan {
    /// The result belongs to no request or another one.
    Ignore,
    /// The request was given up or cancelled: only the status is shown.
    Discard { status: &'static str },
    /// The request failed: the error is logged with the raw body and shown.
    Fail { error_status: String, raw_response: String },
    /// The response is placed in the document (when it is still open) and
    /// the status shown.
    Insert { edit: Option<EditAction>, status: &'static str },
}

pub const REQUEST_ABANDONED_STATUS: &'static str = "Request abandoned";

pub const REQUEST_CANCELLED_STATUS: &'static str = "Request cancelled";

pub const RESPONSE_INSERTED_STATUS: &'static str = "Response inserted";

pub const PARTIAL_RESPONSE_INSERTED_STATUS: &'static str = "Stopped — inserted partial response";

pub const NO_RESPONSE_TEXT_MESSAGE: &'static str =
    "No response text could be extracted from the upstream response.";

/// The edit that places `response` in a document of `doc_len` characters:
/// positions are clamped into the document; with a non-empty selection,
/// `ReplaceSelection` replaces it and `AppendAfterSelection` inserts after
/// it on a new line; otherwise the text goes at the cursor.  NUL characters
/// are removed.
pub open spec fn placement_spec(
    insert_mode: InsertMode,
    insert_pos: int,
    selection_start: int,
    selection_end: int,
    response: Seq<char>,
    doc_len: int,
) -> (bool, int, int, Seq<char>) {
    let len = if doc_len < 0 {
        0
    } else {
        doc_len
    };
    let start = clamp_spec(selection_start, 0, len);
    let end = clamp_spec(selection_end, start, len);
    let text = if insert_mode == InsertMode::AppendAfterSelection && end > start && !starts_with(
        response,
        "\n"@,
    ) {
        "\n"@ + response
    } else {
        response
    };
    let text = remove_char(text, '\0');
    if insert_mode == InsertMode::ReplaceSelection && end > start {
        (true, start, end, text)
    } else if insert_mode == InsertMode::AppendAfterSelection && end > start {
        (false, end, end, text)
    } else {
        let p = clamp_spec(insert_pos, 0, len);
        (false, p, p, text)
    }
}

/// The view of an edit: whether it replaces, its range, its text.
pub open spec fn edit_view(e: EditAction) -> (bool, int, int, Seq<char>) {
    match e {
        EditAction::ReplaceRange { start, end, text } => (true, start as int, end as int, text@),
        EditAction::InsertAt { position, text } => (
            false,
            position as int,
            position as int,
            text@,
        ),
    }
}

/// The response, with its error as the request reports it: no error and
/// no text means the text could not be extracted.
pub open spec fn completion_error_spec(result: RequestResult) -> Seq<char> {
    if result.error_message@.len() == 0 && result.response_text@.len() == 0 {
        NO_RESPONSE_TEXT_MESSAGE@
    } else {
        result.error_message@
    }
}

/// The plan for a finished request, stated in full.
pub open spec fn completion_plan_matches(
    plan: CompletionPlan,
    req: RequestData,
    result: RequestResult,
    abandoned: bool,
    stopped: bool,
    document_length: Option<i32>,
) -> bool {
    if result.request_id == 0 || req.id != result.request_id {
        plan is Ignore
    } else if abandoned || (result.cancelled && !stopped) {
        plan == CompletionPlan::Discard {
            status: if abandoned {
                REQUEST_ABANDONED_STATUS
            } else {
                REQUEST_CANCELLED_STATUS
            },
        }
    } else if completion_error_spec(result).len() > 0 {
        match plan {
            CompletionPlan::Fail { error_status, raw_response } => error_status@ == "Error: "@
                + completion_error_spec(result) && raw_response@ == result.raw_response@,
            _ => false,
        }
    } else {
        match plan {
            CompletionPlan::Insert { edit, status } => {
                &&& status == (if stopped {
                    PARTIAL_RESPONSE_INSERTED_STATUS
                } else {
                    RESPONSE_INSERTED_STATUS
                })
                &&& match document_length {
                    None => edit is None,
                    Some(len) => edit is Some && edit_view(edit->0) == placement_spec(
                        req.insert_mode,
                        req.insert_pos as int,
                        req.selection_start as int,
                        req.selection_end as int,
                        result.response_text@,
                        len as int,
                    ),
                }
            },
            _ => false,
        }
    }
}

fn starts_with_newline(s: &str) -> (r: bool)
    ensures
        r == starts_with(s@, "\n"@),
{
    let v = chars_of(s);
    let b = crate::text::range_starts_with(&v, 0, v.len(), "\n");
    assert(v@.subrange(0, v.len() as int) =~= s@);
    b
}

/// The edit placing `response` in a document of `doc_len` characters (see
/// `placement_spec`).
pub fn plan_placement(
    insert_mode: InsertMode,
    insert_pos: i32,
    selection_start: i32,
    selection_end: i32,
    response: &str,
    doc_len: i32,
) -> (r: EditAction)
    ensures
        edit_view(r) == placement_spec(
            insert_mode,
            insert_pos as int,
            selection_start as int,
            selection_end as int,
            response@,
            doc_len as int,
        ),
{
    let len = if doc_len < 0 {
        0
    } else {
        doc_len
    };
    let start = clamp(selection_start, 0, len);
    let end = clamp(selection_end, start, len);
    let with_newline = insert_mode == InsertMode::AppendAfterSelection && end > start
        && !starts_with_newline(response);
    let text = if with_newline {
        concat2("\n", response)
    } else {
        owned(response)
    };
    let text = without_char(text.as_str(), '\0');
    if insert_mode == InsertMode::ReplaceSelection && end > start {
        EditAction::ReplaceRange { start, end, text }
    } else if insert_mode == InsertMode::AppendAfterSelection && end > start {
        EditAction::InsertAt { position: end, text }
    } else {
        let p = clamp(insert_pos, 0, len);
        EditAction::InsertAt { position: p, text }
    }
}

/// What to do when request `req` receives `result`: ignore a result of
/// another request; show only a status when the request was given up or
/// cancelled without stopping; log and show an error (an empty response
/// with no error is an error too); otherwise place the response (see
/// `placement_spec`) when the document is still open, with a status that
/// says whether the response was stopped early.
pub fn plan_completion(
    req: &RequestData,
    result: &RequestResult,
    abandoned: bool,
    stopped: bool,
    document_length: Option<i32>,
) -> (r: CompletionPlan)
    ensures
        completion_plan_matches(r, *req, *result, abandoned, stopped, document_length),
{
    if result.request_id == 0 || req.id != result.request_id {
        return CompletionPlan::Ignore;
    }
    if abandoned || (result.cancelled && !stopped) {
        return CompletionPlan::Discard {
            status: if abandoned {
                REQUEST_ABANDONED_STATUS
            } else {
                REQUEST_CANCELLED_STATUS
            },
        };
    }
    let error = if result.error_message.as_str().is_empty()
        && result.response_text.as_str().is_empty() {
        owned(NO_RESPONSE_TEXT_MESSAGE)
    } else {
        owned(result.error_message.as_str())
    };
    if !error.as_str().is_empty() {
        return CompletionPlan::Fail {
            error_status: concat2("Error: ", error.as_str()),
            raw_response: owned(result.raw_response.as_str()),
        };
    }
    let edit = match document_length {
        None => None,
        Some(len) => Some(
            plan_placement(
                req.insert_mode,
                req.insert_pos,
                req.selection_start,
                req.selection_end,
                result.response_text.as_str(),
                len,
            ),
        ),
    };
    CompletionPlan::Insert {
        edit,
        status: if stopped {
            PARTIAL_RESPONSE_INSERTED_STATUS
        } else {
            RESPONSE_INSERTED_STATUS
        },
    }
}

/// In the default mode, and in any mode when nothing is selected, the
/// response is inserted (never put in place of anything) at the cursor,
/// brought into the document: at 0 before its start, at its end after it,
/// else at the cursor itself; the text is the response with NUL characters
/// removed.
pub proof fn lemma_cursor_mode_inserts_at_the_cursor(
    insert_mode: InsertMode,
    insert_pos: int,
    selection_start: int,
    selection_end: int,
    response: Seq<char>,
    doc_len: int,
)
    requires
        insert_mode == InsertMode::Cursor || selection_end <= selection_start,
    ensures
        ({
            let (replace, start, end, text) = placement_spec(
                insert_mode,
                insert_pos,
                selection_start,
                selection_end,
                response,
                doc_len,
            );
            let len = if doc_len < 0 {
                0
            } else {
                doc_len
            };
            &&& !replace
            &&& start == end
            &&& insert_pos < 0 ==> start == 0
            &&& insert_pos > len ==> start == len
            &&& 0 <= insert_pos <= len ==> start == insert_pos
            &&& text == remove_char(response, '\0')
        }),
{
}

/// A placed response always lands inside the document, with its range in
/// order, and carries no NUL character.
pub proof fn lemma_placement_in_document(
    insert_mode: InsertMode,
    insert_pos: int,
    selection_start: int,
    selection_end: int,
    response: Seq<char>,
    doc_len: int,
)
    ensures
        ({
            let (replace, start, end, text) = placement_spec(
                insert_mode,
                insert_pos,
                selection_start,
                selection_end,
                response,
                doc_len,
            );
            &&& 0 <= start <= end
            &&& end <= (if doc_len < 0 {
                0
            } else {
                doc_len
            })
            &&& !text.contains('\0')
            &&& replace ==> insert_mode == InsertMode::ReplaceSelection
        }),
{
    crate::text::lemma_remove_char_absent(response, '\0');
    crate::text::lemma_remove_char_absent("\n"@ + response, '\0');
}

} // verus!
