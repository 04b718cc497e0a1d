//! The streamed response of a generation request: splitting the body into
//! lines, picking the JSON document out of each line, and folding the
//! documents into the response text and the live updates shown while the
//! request runs.
//!
//! Picked documents are parsed with `serde_json` (`process_stream_line`,
//! `finish_transfer`, `fallback_response`); the functions named after
//! documents take an outcome already parsed.
use vstd::prelude::*;

use crate::backend::BackendType;
use crate::json::{json_ok, json_parse, parse_json, parsed_view, strings_view, JsonValue};
use crate::responses::{
    complete_response_spec, opt_string_view, complete_response_from_document, api_error_spec, first_choice_spec, ollama_response_spec, parse_api_error,
    parse_ollama_response, str_member, token_estimate_of, estimate_token_count,
};
use crate::text::{
    chars_of, concat2, decimal, decimal_string, is_blank, owned, push_char, range_equals, range_starts_with, starts_with,
    string_from_range, trim_bounds, trim_end_char, trim_end_char_bound, trim_ws,
};

verus! {

/// Splits `s` at each line feed: the finished lines (without their line
/// feed) and the unfinished rest after the last line feed.
pub open spec fn split_lines(s: Seq<char>) -> (Seq<Seq<char>>, Seq<char>)
    decreases s.len(),
{
    if s.len() == 0 {
        (Seq::empty(), Seq::empty())
    } else {
        let (lines, rest) = split_lines(s.drop_last());
        if s.last() == '\n' {
            (lines.push(rest), Seq::empty())
        } else {
            (lines, rest.push(s.last()))
        }
    }
}

/// Lines joined back, each followed by a line feed.
pub open spec fn join_lines(lines: Seq<Seq<char>>) -> Seq<char>
    decreases lines.len(),
{
    if lines.len() == 0 {
        Seq::empty()
    } else {
        join_lines(lines.drop_last()) + lines.last() + seq!['\n']
    }
}

/// Splitting loses nothing: the finished lines, each with its line feed,
/// followed by the rest, give back the text.  The rest holds no line feed.
pub proof fn lemma_split_lines_join(s: Seq<char>)
    ensures
        join_lines(split_lines(s).0) + split_lines(s).1 == s,
        !split_lines(s).1.contains('\n'),
        forall|i: int|
            0 <= i < split_lines(s).0.len() ==> !(#[trigger] split_lines(s).0[i]).contains('\n'),
    decreases s.len(),
{
    if s.len() > 0 {
        lemma_split_lines_join(s.drop_last());
        let (lines, rest) = split_lines(s.drop_last());
        if s.last() == '\n' {
            assert(lines.push(rest).drop_last() =~= lines);
            assert(join_lines(lines) + rest + seq!['\n'] =~= s);
            assert(join_lines(lines.push(rest)) + Seq::<char>::empty() =~= s);
            assert forall|i: int| 0 <= i < lines.push(rest).len() implies !(
            #[trigger] lines.push(rest)[i]).contains('\n') by {
                if i < lines.len() {
                    assert(lines.push(rest)[i] == lines[i]);
                }
            }
        } else {
            assert(join_lines(lines) + rest == s.drop_last());
            assert(join_lines(lines) + rest.push(s.last()) =~= (join_lines(lines) + rest).push(
                s.last(),
            ));
            assert(s.drop_last().push(s.last()) =~= s);
            assert forall|k: int| 0 <= k < rest.push(s.last()).len() implies rest.push(
                s.last(),
            )[k] != '\n' by {
                if k < rest.len() {
                    assert(rest.push(s.last())[k] == rest[k]);
                }
            }
        }
    }
}

/// Splits `v` into its finished lines and the unfinished rest.
pub fn split_chars(v: &Vec<char>) -> (r: (Vec<String>, String))
    ensures
        (strings_view(r.0@), r.1@) == split_lines(v@),
{
    let mut lines: Vec<String> = Vec::new();
    let mut cur = String::new();
    let mut i: usize = 0;
    while i < v.len()
        invariant
            0 <= i <= v.len(),
            (strings_view(lines@), cur@) == split_lines(v@.subrange(0, i as int)),
        decreases v.len() - i,
    {
        let ghost prev = v@.subrange(0, i as int);
        let ghost next = v@.subrange(0, i + 1);
        assert(next.drop_last() =~= prev);
        if v[i] == '\n' {
            let done = cur;
            lines.push(done);
            cur = String::new();
            assert(strings_view(lines@) =~= split_lines(next).0);
            assert(cur@ =~= split_lines(next).1);
        } else {
            push_char(&mut cur, v[i]);
            assert(strings_view(lines@) =~= split_lines(next).0);
        }
        i += 1;
    }
    assert(v@.subrange(0, v.len() as int) =~= v@);
    (lines, cur)
}

pub const DATA_PREFIX: &'static str = "data:";

pub const DONE_MARKER: &'static str = "[DONE]";

/// The JSON document carried by one streamed line, if any.  Blank lines,
/// `event:` lines and `:` comment lines carry none; OpenAI-compatible lines
/// may carry a `data:` prefix and end with a `[DONE]` marker.
pub open spec fn frame_stream_line_spec(line: Seq<char>, backend_type: BackendType) -> Option<
    Seq<char>,
> {
    let t = trim_ws(trim_end_char(trim_ws(line), '\r'));
    if t.len() == 0 || starts_with(t, "event:"@) || starts_with(t, ":"@) {
        None
    } else if backend_type == BackendType::OpenAICompatible {
        let d = if starts_with(t, DATA_PREFIX@) {
            trim_ws(t.subrange(DATA_PREFIX@.len() as int, t.len() as int))
        } else {
            t
        };
        if d.len() == 0 || d == DONE_MARKER@ {
            None
        } else {
            Some(d)
        }
    } else {
        Some(t)
    }
}

/// The view of an optional `String`.
pub open spec fn opt_view(o: Option<String>) -> Option<Seq<char>> {
    match o {
        Some(s) => Some(s@),
        None => None,
    }
}

/// The JSON document text carried by one streamed line, if any.
pub fn frame_stream_line(line: &str, backend_type: BackendType) -> (r: Option<String>)
    ensures
        opt_view(r) == frame_stream_line_spec(line@, backend_type),
{
    let v = chars_of(line);
    let (a, b) = trim_bounds(&v, 0, v.len());
    assert(v@.subrange(0, v.len() as int) =~= line@);
    let b2 = trim_end_char_bound(&v, a, b, '\r');
    let (c, d) = trim_bounds(&v, a, b2);
    let ghost t = v@.subrange(c as int, d as int);
    if c == d || range_starts_with(&v, c, d, "event:") || range_starts_with(&v, c, d, ":") {
        return None;
    }
    match backend_type {
        BackendType::OpenAICompatible => {
            let (e, f) = if range_starts_with(&v, c, d, DATA_PREFIX) {
                let k = chars_of(DATA_PREFIX).len();
                assert(v@.subrange(c + k, d as int) =~= t.subrange(k as int, t.len() as int));
                trim_bounds(&v, c + k, d)
            } else {
                (c, d)
            };
            if e == f || range_equals(&v, e, f, DONE_MARKER) {
                None
            } else {
                Some(string_from_range(&v, e, f))
            }
        },
        BackendType::Ollama => Some(string_from_range(&v, c, d)),
    }
}

/// The document a line of a complete response body may hold: the trimmed
/// line, with a `data:` prefix and the whitespace after it removed; blank
/// lines and the `[DONE]` marker hold none.
pub open spec fn fallback_candidate_spec(piece: Seq<char>) -> Option<Seq<char>> {
    let t = trim_ws(piece);
    let d = if starts_with(t, DATA_PREFIX@) {
        trim_ws(t.subrange(DATA_PREFIX@.len() as int, t.len() as int))
    } else {
        t
    };
    if d == DONE_MARKER@ || d.len() == 0 {
        None
    } else {
        Some(d)
    }
}

/// The documents held by the given lines, in order.
pub open spec fn candidates_of(pieces: Seq<Seq<char>>) -> Seq<Seq<char>>
    decreases pieces.len(),
{
    if pieces.len() == 0 {
        Seq::empty()
    } else {
        let prev = candidates_of(pieces.drop_last());
        match fallback_candidate_spec(pieces.last()) {
            Some(c) => prev.push(c),
            None => prev,
        }
    }
}

/// All lines of a text, the last one included even when unfinished.
pub open spec fn all_lines(s: Seq<char>) -> Seq<Seq<char>> {
    split_lines(s).0.push(split_lines(s).1)
}

/// The documents the lines of a complete response body may hold, in order.
pub open spec fn fallback_candidates_spec(raw: Seq<char>) -> Seq<Seq<char>> {
    candidates_of(all_lines(raw))
}

fn fallback_candidate(piece: &str) -> (r: Option<String>)
    ensures
        opt_view(r) == fallback_candidate_spec(piece@),
{
    let v = chars_of(piece);
    let (c, d) = trim_bounds(&v, 0, v.len());
    assert(v@.subrange(0, v.len() as int) =~= piece@);
    let ghost t = v@.subrange(c as int, d as int);
    let (e, f) = if range_starts_with(&v, c, d, DATA_PREFIX) {
        let k = chars_of(DATA_PREFIX).len();
        assert(v@.subrange(c + k, d as int) =~= t.subrange(k as int, t.len() as int));
        trim_bounds(&v, c + k, d)
    } else {
        (c, d)
    };
    if range_equals(&v, e, f, DONE_MARKER) || e == f {
        None
    } else {
        Some(string_from_range(&v, e, f))
    }
}

/// The documents the lines of a complete response body may hold, in order:
/// the texts to parse when no streamed text arrived.
pub fn fallback_candidates(raw: &str) -> (r: Vec<String>)
    ensures
        strings_view(r@) == fallback_candidates_spec(raw@),
{
    let v = chars_of(raw);
    let (mut lines, rest) = split_chars(&v);
    lines.push(rest);
    let ghost pieces = all_lines(raw@);
    assert(strings_view(lines@) =~= pieces);
    let mut out: Vec<String> = Vec::new();
    let mut i: usize = 0;
    while i < lines.len()
        invariant
            0 <= i <= lines.len(),
            strings_view(lines@) == pieces,
            strings_view(out@) == candidates_of(pieces.subrange(0, i as int)),
        decreases lines.len() - i,
    {
        let ghost prev = pieces.subrange(0, i as int);
        let ghost next = pieces.subrange(0, i + 1);
        assert(next.drop_last() =~= prev);
        assert(next.last() == lines@[i as int]@);
        match fallback_candidate(lines[i].as_str()) {
            Some(c) => {
                out.push(c);
            },
            None => {},
        }
        assert(strings_view(out@) =~= candidates_of(next));
        i += 1;
    }
    assert(pieces.subrange(0, lines.len() as int) =~= pieces);
    out
}

/// Where a live update goes: the response statistics or the thinking log.
#[derive(Debug, Clone, Copy, PartialEq, Eq, Structural)]
pub enum StreamTarget {
    Response,
    Thinking,
}

/// One live update produced while a response streams in.  Response updates
/// carry the token estimate of the response so far; thinking updates carry
/// zero.
pub struct StreamUpdate {
    pub target: StreamTarget,
    pub delta: String,
    pub estimated_tokens: usize,
}

pub open spec fn update_view(u: StreamUpdate) -> (StreamTarget, Seq<char>, usize) {
    (u.target, u.delta@, u.estimated_tokens)
}

pub open spec fn updates_view(v: Seq<StreamUpdate>) -> Seq<(StreamTarget, Seq<char>, usize)> {
    v.map_values(|u: StreamUpdate| update_view(u))
}

/// Opens a reasoning block in the thinking log.
pub const THINK_OPEN: &'static str = "<think>\n";

/// Closes a reasoning block when the answer starts.
pub const THINK_CLOSE: &'static str = "\n</think>\n\n";

/// Closes a reasoning block left open when the stream ends.
pub const THINK_CLOSE_AT_END: &'static str = "\n</think>\n";

pub const STREAM_PARSE_ERROR_PREFIX: &'static str = "Failed to parse streaming JSON: ";

/// The decoded part of a stream: the response text so far, whether a
/// reasoning block is open, the token estimate of the response and the last
/// error.
pub struct StreamModel {
    pub response: Seq<char>,
    pub in_thinking: bool,
    pub tokens: usize,
    pub error: Seq<char>,
}

/// The pieces of text one streamed document carries, each marked as
/// reasoning or not: Ollama's `response`; for OpenAI-compatible servers the
/// first choice's `delta.reasoning_content` and `delta.content`, or its
/// `text` when it has no `delta`.
pub open spec fn stream_deltas_spec(v: JsonValue, backend_type: BackendType) -> Seq<
    (Seq<char>, bool),
> {
    match backend_type {
        BackendType::Ollama => match ollama_response_spec(v) {
            Some(d) => seq![(d, false)],
            None => Seq::empty(),
        },
        BackendType::OpenAICompatible => match first_choice_spec(v) {
            Some(choice) => match choice.get_spec("delta"@) {
                Some(delta) => (match str_member(delta, "reasoning_content"@) {
                    Some(r) => seq![(r, true)],
                    None => Seq::empty(),
                }) + (match str_member(delta, "content"@) {
                    Some(c) => seq![(c, false)],
                    None => Seq::empty(),
                }),
                None => match str_member(choice, "text"@) {
                    Some(t) => seq![(t, false)],
                    None => Seq::empty(),
                },
            },
            None => Seq::empty(),
        },
    }
}

/// One piece of streamed text applied to the decoded state.  Reasoning goes
/// to the thinking log only while the log is enabled (a `<think>` marker
/// opens each block); otherwise it is dropped and no block stays open.
/// Answer text closes an open block, is appended to the response and is
/// reported with the new token estimate.  Empty pieces change nothing.
pub open spec fn stream_step(
    s: StreamModel,
    delta: Seq<char>,
    thinking: bool,
    thinking_log_enabled: bool,
) -> (StreamModel, Seq<(StreamTarget, Seq<char>, usize)>) {
    if delta.len() == 0 {
        (s, Seq::empty())
    } else if thinking {
        if !thinking_log_enabled {
            (StreamModel { in_thinking: false, ..s }, Seq::empty())
        } else if !s.in_thinking {
            (
                StreamModel { in_thinking: true, ..s },
                seq![(StreamTarget::Thinking, THINK_OPEN@, 0usize), (StreamTarget::Thinking, delta, 0usize)],
            )
        } else {
            (s, seq![(StreamTarget::Thinking, delta, 0usize)])
        }
    } else {
        let response = s.response + delta;
        let tokens = token_estimate_of(response);
        let close = if s.in_thinking && thinking_log_enabled {
            seq![(StreamTarget::Thinking, THINK_CLOSE@, 0usize)]
        } else {
            Seq::empty()
        };
        (
            StreamModel { response: response, in_thinking: false, tokens: tokens, error: s.error },
            close + seq![(StreamTarget::Response, delta, tokens)],
        )
    }
}

/// Pieces of streamed text applied in order.
pub open spec fn stream_steps(
    s: StreamModel,
    deltas: Seq<(Seq<char>, bool)>,
    thinking_log_enabled: bool,
) -> (StreamModel, Seq<(StreamTarget, Seq<char>, usize)>)
    decreases deltas.len(),
{
    if deltas.len() == 0 {
        (s, Seq::empty())
    } else {
        let (s1, u1) = stream_steps(s, deltas.drop_last(), thinking_log_enabled);
        let (s2, u2) = stream_step(s1, deltas.last().0, deltas.last().1, thinking_log_enabled);
        (s2, u1 + u2)
    }
}

/// One parsed streamed document applied to the decoded state: a document
/// that did not parse, or one that carries an API error, only sets the
/// error; any other has its pieces of text applied.
pub open spec fn stream_document_spec(
    s: StreamModel,
    parsed: Result<JsonValue, Seq<char>>,
    backend_type: BackendType,
    thinking_log_enabled: bool,
) -> (StreamModel, Seq<(StreamTarget, Seq<char>, usize)>) {
    match parsed {
        Err(e) => (StreamModel { error: STREAM_PARSE_ERROR_PREFIX@ + e, ..s }, Seq::empty()),
        Ok(v) => match api_error_spec(v) {
            Some(e) => (StreamModel { error: e, ..s }, Seq::empty()),
            None => stream_steps(s, stream_deltas_spec(v, backend_type), thinking_log_enabled),
        },
    }
}

pub open spec fn deltas_view(v: Seq<(String, bool)>) -> Seq<(Seq<char>, bool)> {
    v.map_values(|d: (String, bool)| (d.0@, d.1))
}

fn str_member_string(v: &JsonValue, key: &str) -> (r: Option<String>)
    ensures
        opt_view(r) == str_member(*v, key@),
{
    match v.get(key) {
        Some(m) => match m.as_str() {
            Some(s) => Some(owned(s.as_str())),
            None => None,
        },
        None => None,
    }
}

/// The pieces of text a streamed document carries (see `stream_deltas_spec`).
fn stream_deltas(v: &JsonValue, backend_type: BackendType) -> (r: Vec<(String, bool)>)
    ensures
        deltas_view(r@) == stream_deltas_spec(*v, backend_type),
{
    let mut r: Vec<(String, bool)> = Vec::new();
    match backend_type {
        BackendType::Ollama => {
            if let Some(d) = parse_ollama_response(v) {
                r.push((d, false));
            }
        },
        BackendType::OpenAICompatible => {
            if let Some(choices) = v.get("choices") {
                if let Some(arr) = choices.as_array() {
                    if arr.len() > 0 {
                        let choice = &arr[0];
                        if let Some(delta) = choice.get("delta") {
                            if let Some(reasoning) = str_member_string(delta, "reasoning_content") {
                                r.push((reasoning, true));
                            }
                            if let Some(content) = str_member_string(delta, "content") {
                                r.push((content, false));
                            }
                        } else if let Some(text) = str_member_string(choice, "text") {
                            r.push((text, false));
                        }
                    }
                }
            }
        },
    }
    assert(deltas_view(r@) =~= stream_deltas_spec(*v, backend_type));
    r
}

/// The state of a streaming request as its body arrives: the raw body so
/// far, the unfinished last line, and the decoded part.
pub struct StreamAccumulator {
    pub raw_response: String,
    pub stream_buffer: String,
    pub response_text: String,
    pub in_thinking: bool,
    pub estimated_tokens: usize,
    pub error_message: String,
}

impl StreamAccumulator {
    /// The decoded part.
    pub open spec fn model(self) -> StreamModel {
        StreamModel {
            response: self.response_text@,
            in_thinking: self.in_thinking,
            tokens: self.estimated_tokens,
            error: self.error_message@,
        }
    }

    /// Nothing received yet.
    pub fn new() -> (r: Self)
        ensures
            r.raw_response@ == Seq::<char>::empty(),
            r.stream_buffer@ == Seq::<char>::empty(),
            r.model() == (StreamModel {
                response: Seq::empty(),
                in_thinking: false,
                tokens: 0,
                error: Seq::empty(),
            }),
    {
        StreamAccumulator {
            raw_response: String::new(),
            stream_buffer: String::new(),
            response_text: String::new(),
            in_thinking: false,
            estimated_tokens: 0,
            error_message: String::new(),
        }
    }

    /// Takes in a received chunk: it is added to the raw body and to the
    /// unfinished line, and the lines it finishes are handed back in order.
    pub fn push_chunk(&mut self, chunk: &str) -> (lines: Vec<String>)
        ensures
            final(self).raw_response@ == old(self).raw_response@ + chunk@,
            strings_view(lines@) == split_lines(old(self).stream_buffer@ + chunk@).0,
            final(self).stream_buffer@ == split_lines(old(self).stream_buffer@ + chunk@).1,
            final(self).model() == old(self).model(),
    {
        self.raw_response.append(chunk);
        let text = concat2(self.stream_buffer.as_str(), chunk);
        let v = chars_of(text.as_str());
        let (lines, rest) = split_chars(&v);
        self.stream_buffer = rest;
        lines
    }

    /// Applies one piece of text (see `stream_step`), adding its updates to
    /// `updates`.
    fn apply_delta(
        &mut self,
        delta: &String,
        thinking: bool,
        thinking_log_enabled: bool,
        updates: &mut Vec<StreamUpdate>,
    )
        ensures
            final(self).model() == stream_step(
                old(self).model(),
                delta@,
                thinking,
                thinking_log_enabled,
            ).0,
            updates_view(final(updates)@) == updates_view(old(updates)@) + stream_step(
                old(self).model(),
                delta@,
                thinking,
                thinking_log_enabled,
            ).1,
            final(self).raw_response == old(self).raw_response,
            final(self).stream_buffer == old(self).stream_buffer,
    {
        let ghost u0 = updates_view(updates@);
        if delta.as_str().is_empty() {
            assert(u0 + Seq::<(StreamTarget, Seq<char>, usize)>::empty() =~= u0);
            return;
        }
        if thinking {
            if !thinking_log_enabled {
                self.in_thinking = false;
                assert(u0 + Seq::<(StreamTarget, Seq<char>, usize)>::empty() =~= u0);
                return;
            }
            if !self.in_thinking {
                self.in_thinking = true;
                updates.push(
                    StreamUpdate {
                        target: StreamTarget::Thinking,
                        delta: owned(THINK_OPEN),
                        estimated_tokens: 0,
                    },
                );
            }
            updates.push(
                StreamUpdate {
                    target: StreamTarget::Thinking,
                    delta: owned(delta.as_str()),
                    estimated_tokens: 0,
                },
            );
            assert(updates_view(updates@) =~= updates_view(old(updates)@) + stream_step(
                old(self).model(),
                delta@,
                thinking,
                thinking_log_enabled,
            ).1);
        } else {
            if self.in_thinking && thinking_log_enabled {
                self.in_thinking = false;
                updates.push(
                    StreamUpdate {
                        target: StreamTarget::Thinking,
                        delta: owned(THINK_CLOSE),
                        estimated_tokens: 0,
                    },
                );
            } else if self.in_thinking {
                self.in_thinking = false;
            }
            self.response_text.append(delta.as_str());
            self.estimated_tokens = estimate_token_count(self.response_text.as_str());
            updates.push(
                StreamUpdate {
                    target: StreamTarget::Response,
                    delta: owned(delta.as_str()),
                    estimated_tokens: self.estimated_tokens,
                },
            );
            assert(updates_view(updates@) =~= updates_view(old(updates)@) + stream_step(
                old(self).model(),
                delta@,
                thinking,
                thinking_log_enabled,
            ).1);
        }
    }

    /// Applies one parsed streamed document (see `stream_document_spec`) and
    /// hands back the live updates it produces, in order.  `parsed` is the
    /// outcome of parsing the text `frame_stream_line` picked out, with the
    /// parser's message on failure.
    pub fn apply_stream_document(
        &mut self,
        parsed: &Result<JsonValue, String>,
        backend_type: BackendType,
        thinking_log_enabled: bool,
    ) -> (updates: Vec<StreamUpdate>)
        ensures
            (final(self).model(), updates_view(updates@)) == stream_document_spec(
                old(self).model(),
                parsed_view(*parsed),
                backend_type,
                thinking_log_enabled,
            ),
            final(self).raw_response == old(self).raw_response,
            final(self).stream_buffer == old(self).stream_buffer,
    {
        let mut updates: Vec<StreamUpdate> = Vec::new();
        let value = match parsed {
            Err(e) => {
                self.error_message = concat2(STREAM_PARSE_ERROR_PREFIX, e.as_str());
                assert(updates_view(updates@) =~= Seq::empty());
                return updates;
            },
            Ok(v) => v,
        };
        if let Some(e) = parse_api_error(value) {
            self.error_message = e;
            assert(updates_view(updates@) =~= Seq::empty());
            return updates;
        }
        let deltas = stream_deltas(value, backend_type);
        let ghost ds = deltas_view(deltas@);
        let ghost start = self.model();
        let mut i: usize = 0;
        assert(updates_view(updates@) =~= Seq::empty());
        while i < deltas.len()
            invariant
                0 <= i <= deltas.len(),
                ds == deltas_view(deltas@),
                (self.model(), updates_view(updates@)) == stream_steps(
                    start,
                    ds.subrange(0, i as int),
                    thinking_log_enabled,
                ),
                self.raw_response == old(self).raw_response,
                self.stream_buffer == old(self).stream_buffer,
            decreases deltas.len() - i,
        {
            let ghost prev = ds.subrange(0, i as int);
            let ghost next = ds.subrange(0, i + 1);
            assert(next.drop_last() =~= prev);
            assert(next.last() == (deltas@[i as int].0@, deltas@[i as int].1));
            self.apply_delta(&deltas[i].0, deltas[i].1, thinking_log_enabled, &mut updates);
            i += 1;
        }
        assert(ds.subrange(0, deltas.len() as int) =~= ds);
        updates
    }
}

/// The generated text of the first line document that has some.
pub open spec fn first_line_response(docs: Seq<Option<JsonValue>>, backend_type: BackendType) -> Option<
    Seq<char>,
>
    decreases docs.len(),
{
    if docs.len() == 0 {
        None
    } else {
        match complete_response_spec(docs[0], backend_type) {
            Some(r) => Some(r),
            None => first_line_response(docs.drop_first(), backend_type),
        }
    }
}

/// The generated text recovered from a complete body when nothing was
/// streamed: from the whole body as one document, else from the first line
/// document that has some.
pub open spec fn fallback_response_spec(
    raw_document: Option<JsonValue>,
    line_documents: Seq<Option<JsonValue>>,
    backend_type: BackendType,
) -> Option<Seq<char>> {
    match complete_response_spec(raw_document, backend_type) {
        Some(r) => Some(r),
        None => first_line_response(line_documents, backend_type),
    }
}

pub open spec fn opt_ref_value(o: Option<&JsonValue>) -> Option<JsonValue> {
    match o {
        Some(v) => Some(*v),
        None => None,
    }
}

/// The generated text of a complete body.  `raw_document` is the whole body
/// parsed as JSON, and `line_documents` the texts `fallback_candidates`
/// picked, each parsed (nothing where parsing failed), in order.
pub fn fallback_from_documents(
    raw_document: Option<&JsonValue>,
    line_documents: &Vec<Option<JsonValue>>,
    backend_type: BackendType,
) -> (r: Option<String>)
    ensures
        opt_string_view(r) == fallback_response_spec(
            opt_ref_value(raw_document),
            line_documents@,
            backend_type,
        ),
{
    if let Some(v) = complete_response_from_document(raw_document, backend_type) {
        return Some(v);
    }
    let mut i: usize = 0;
    assert(line_documents@.subrange(0, line_documents.len() as int) =~= line_documents@);
    while i < line_documents.len()
        invariant
            0 <= i <= line_documents.len(),
            complete_response_spec(opt_ref_value(raw_document), backend_type) is None,
            first_line_response(line_documents@, backend_type) == first_line_response(
                line_documents@.subrange(i as int, line_documents.len() as int),
                backend_type,
            ),
        decreases line_documents.len() - i,
    {
        let ghost rest = line_documents@.subrange(i as int, line_documents.len() as int);
        assert(rest.drop_first() =~= line_documents@.subrange(i + 1, line_documents.len() as int));
        assert(rest[0] == line_documents@[i as int]);
        let parsed = match &line_documents[i] {
            Some(v) => complete_response_from_document(Some(v), backend_type),
            None => None,
        };
        assert(opt_string_view(parsed) == complete_response_spec(rest[0], backend_type));
        if parsed.is_some() {
            return parsed;
        }
        i += 1;
    }
    None
}

/// Each picked line of a complete body, parsed with `serde_json` (nothing
/// where it is not JSON), in order.
pub open spec fn fallback_documents_spec(raw: Seq<char>) -> Seq<Option<JsonValue>> {
    fallback_candidates_spec(raw).map_values(|l: Seq<char>| json_ok(json_parse(l)))
}

/// Parses each text with `serde_json` (nothing where it is not JSON).
fn parse_documents(texts: &Vec<String>) -> (r: Vec<Option<JsonValue>>)
    ensures
        r@ == strings_view(texts@).map_values(|l: Seq<char>| json_ok(json_parse(l))),
{
    let mut r: Vec<Option<JsonValue>> = Vec::new();
    let mut i: usize = 0;
    while i < texts.len()
        invariant
            0 <= i <= texts.len(),
            r@ == strings_view(texts@.subrange(0, i as int)).map_values(
                |l: Seq<char>| json_ok(json_parse(l)),
            ),
        decreases texts.len() - i,
    {
        let d = match parse_json(texts[i].as_str()) {
            Ok(v) => Some(v),
            Err(_) => None,
        };
        r.push(d);
        assert(r@ =~= strings_view(texts@.subrange(0, i + 1)).map_values(
            |l: Seq<char>| json_ok(json_parse(l)),
        ));
        i += 1;
    }
    assert(texts@.subrange(0, texts.len() as int) =~= texts@);
    r
}

/// The whole body parsed with `serde_json`, if it is JSON.
fn parse_document(raw: &str) -> (r: Option<JsonValue>)
    ensures
        r == json_ok(json_parse(raw@)),
{
    match parse_json(raw) {
        Ok(v) => Some(v),
        Err(_) => None,
    }
}

/// The generated text of a complete body, read as a whole and, failing
/// that, line by line (see `fallback_from_documents`); the body and its
/// lines are parsed with `serde_json`.
pub fn fallback_response(raw: &str, backend_type: BackendType) -> (r: Option<String>)
    ensures
        opt_string_view(r) == fallback_response_spec(
            json_ok(json_parse(raw@)),
            fallback_documents_spec(raw@),
            backend_type,
        ),
{
    let raw_document = parse_document(raw);
    let candidates = fallback_candidates(raw);
    let documents = parse_documents(&candidates);
    assert(documents@ =~= fallback_documents_spec(raw@));
    fallback_from_documents(raw_document.as_ref(), &documents, backend_type)
}

pub const CURL_ERROR_PREFIX: &'static str = "curl error:";

/// What comes before an error met while setting up a transfer.
pub const CURL_SETUP_ERROR_PREFIX: &'static str = "curl setup error: ";

/// The set-up error for an authorization header that cannot be sent.
pub const INVALID_AUTHORIZATION_HEADER: &'static str = "invalid authorization header";

/// The error when the answer of a transfer cannot be received.
pub const RESPONSE_HANDLER_ERROR: &'static str = "Unable to configure curl response handler.";

/// The error of a transfer that could not be set up: `curl setup error: `
/// and what went wrong.
pub fn setup_error_message(detail: &str) -> (r: String)
    ensures
        r@ == CURL_SETUP_ERROR_PREFIX@ + detail@,
{
    concat2(CURL_SETUP_ERROR_PREFIX, detail)
}

/// `HTTP error ` and the status code.
pub open spec fn http_error_text(status: i64) -> Seq<char> {
    "HTTP error "@ + decimal(status as nat)
}

/// What a finished request reports.
pub struct RequestResult {
    pub request_id: u64,
    pub response_text: String,
    pub raw_response: String,
    pub error_message: String,
    pub http_status: i64,
    pub cancelled: bool,
}

/// The response text, error and cancellation a finished request reports,
/// and the live updates of its end:
/// - a reasoning block still open is closed in the thinking log (when the
///   log is enabled);
/// - a transfer error (`curl error:`) is dropped when some response text
///   arrived;
/// - a cancelled request (cancel without stop) reports no error; otherwise,
///   with no error and no streamed text, the text is recovered from the
///   complete body;
/// - an HTTP error status with no other error reports the body's API error,
///   or `HTTP error` and the status.
pub open spec fn finish_spec(
    m: StreamModel,
    backend_type: BackendType,
    http_status: i64,
    cancel_requested: bool,
    stop_requested: bool,
    thinking_log_enabled: bool,
    raw_document: Option<JsonValue>,
    line_documents: Seq<Option<JsonValue>>,
) -> (Seq<char>, Seq<char>, bool, Seq<(StreamTarget, Seq<char>, usize)>) {
    let close = if thinking_log_enabled && m.in_thinking {
        seq![(StreamTarget::Thinking, THINK_CLOSE_AT_END@, 0usize)]
    } else {
        Seq::empty()
    };
    let e1 = if m.response.len() > 0 && starts_with(m.error, CURL_ERROR_PREFIX@) {
        Seq::empty()
    } else {
        m.error
    };
    let cancelled = cancel_requested && !stop_requested;
    let response = if !cancelled && e1.len() == 0 && m.response.len() == 0 {
        match fallback_response_spec(raw_document, line_documents, backend_type) {
            Some(r) => r,
            None => m.response,
        }
    } else {
        m.response
    };
    let e2 = if cancelled {
        Seq::empty()
    } else {
        e1
    };
    let e3 = if e2.len() == 0 && http_status >= 400 {
        match raw_document {
            Some(v) => match api_error_spec(v) {
                Some(e) => e,
                None => http_error_text(http_status),
            },
            None => http_error_text(http_status),
        }
    } else {
        e2
    };
    (response, e3, cancelled, close)
}

impl StreamAccumulator {
    /// Records the error of the transfer itself; without one, the last
    /// stream error stands.
    pub fn record_transport_error(&mut self, transport_error: &str)
        ensures
            final(self).error_message@ == (if transport_error@.len() == 0 {
                old(self).error_message@
            } else {
                transport_error@
            }),
            final(self).raw_response == old(self).raw_response,
            final(self).stream_buffer == old(self).stream_buffer,
            final(self).response_text == old(self).response_text,
            final(self).in_thinking == old(self).in_thinking,
            final(self).estimated_tokens == old(self).estimated_tokens,
    {
        if !transport_error.is_empty() {
            self.error_message = owned(transport_error);
        }
    }

    /// The unfinished last line, when it holds more than whitespace: it is
    /// processed like any other line once the transfer ends.
    pub fn leftover_line(&self) -> (r: Option<String>)
        ensures
            opt_view(r) == (if trim_ws(self.stream_buffer@).len() > 0 {
                Some(self.stream_buffer@)
            } else {
                None
            }),
    {
        if is_blank(self.stream_buffer.as_str()) {
            None
        } else {
            Some(owned(self.stream_buffer.as_str()))
        }
    }

    /// The report of the finished request (see `finish_spec`) and the live
    /// updates of its end.  `raw_document` is the whole raw body parsed as
    /// JSON; `line_documents` are the texts `fallback_candidates` picks from
    /// it, each parsed.
    pub fn finish(
        self,
        request_id: u64,
        backend_type: BackendType,
        http_status: i64,
        cancel_requested: bool,
        stop_requested: bool,
        thinking_log_enabled: bool,
        raw_document: Option<&JsonValue>,
        line_documents: &Vec<Option<JsonValue>>,
    ) -> (r: (RequestResult, Vec<StreamUpdate>))
        ensures
            ({
                let (response, error, cancelled, updates) = finish_spec(
                    self.model(),
                    backend_type,
                    http_status,
                    cancel_requested,
                    stop_requested,
                    thinking_log_enabled,
                    opt_ref_value(raw_document),
                    line_documents@,
                );
                &&& r.0.request_id == request_id
                &&& r.0.response_text@ == response
                &&& r.0.raw_response@ == self.raw_response@
                &&& r.0.error_message@ == error
                &&& r.0.http_status == http_status
                &&& r.0.cancelled == cancelled
                &&& updates_view(r.1@) == updates
            }),
    {
        let mut updates: Vec<StreamUpdate> = Vec::new();
        if thinking_log_enabled && self.in_thinking {
            updates.push(
                StreamUpdate {
                    target: StreamTarget::Thinking,
                    delta: owned(THINK_CLOSE_AT_END),
                    estimated_tokens: 0,
                },
            );
        }
        let StreamAccumulator { raw_response, response_text, error_message, .. } = self;
        let mut response_text = response_text;
        let mut error_message = error_message;
        if !response_text.as_str().is_empty() && {
            let ev = chars_of(error_message.as_str());
            let b = range_starts_with(&ev, 0, ev.len(), CURL_ERROR_PREFIX);
            assert(ev@.subrange(0, ev.len() as int) =~= ev@);
            b
        } {
            error_message = String::new();
        }
        let cancelled = cancel_requested && !stop_requested;
        if cancelled {
            error_message = String::new();
        } else if error_message.as_str().is_empty() && response_text.as_str().is_empty() {
            if let Some(response) = fallback_from_documents(raw_document, line_documents, backend_type) {
                response_text = response;
            }
        }
        if error_message.as_str().is_empty() && http_status >= 400 {
            let fallback_error = concat2("HTTP error ", decimal_string(http_status as u64).as_str());
            error_message = match raw_document {
                Some(v) => match parse_api_error(v) {
                    Some(e) => e,
                    None => fallback_error,
                },
                None => fallback_error,
            };
        }
        let result = RequestResult {
            request_id,
            response_text,
            raw_response,
            error_message,
            http_status,
            cancelled,
        };
        assert(updates_view(updates@) =~= finish_spec(
            self.model(),
            backend_type,
            http_status,
            cancel_requested,
            stop_requested,
            thinking_log_enabled,
            opt_ref_value(raw_document),
            line_documents@,
        ).3);
        (result, updates)
    }
}

/// The answer text of a list of pieces: the pieces not marked as
/// reasoning, concatenated in order.
pub open spec fn answer_text(deltas: Seq<(Seq<char>, bool)>) -> Seq<char>
    decreases deltas.len(),
{
    if deltas.len() == 0 {
        Seq::empty()
    } else if deltas.last().1 {
        answer_text(deltas.drop_last())
    } else {
        answer_text(deltas.drop_last()) + deltas.last().0
    }
}

/// The response text grows by exactly the answer pieces, in order: reasoning
/// never reaches it, whether the thinking log is enabled or not.  The error
/// is left as it was.
pub proof fn lemma_stream_steps_response(
    s: StreamModel,
    deltas: Seq<(Seq<char>, bool)>,
    thinking_log_enabled: bool,
)
    ensures
        stream_steps(s, deltas, thinking_log_enabled).0.response == s.response + answer_text(
            deltas,
        ),
        stream_steps(s, deltas, thinking_log_enabled).0.error == s.error,
    decreases deltas.len(),
{
    if deltas.len() == 0 {
        assert(s.response + Seq::<char>::empty() =~= s.response);
    } else {
        lemma_stream_steps_response(s, deltas.drop_last(), thinking_log_enabled);
        let d = deltas.last();
        if !d.1 {
            if d.0.len() == 0 {
                assert(answer_text(deltas.drop_last()) + d.0 =~= answer_text(deltas.drop_last()));
            }
            assert(s.response + answer_text(deltas.drop_last()) + d.0 =~= s.response + (
            answer_text(deltas.drop_last()) + d.0));
        }
    }
}

/// The answer pieces among the pieces of a document (reasoning left out),
/// in order.
pub open spec fn answer_pieces(deltas: Seq<(Seq<char>, bool)>) -> Seq<Seq<char>>
    decreases deltas.len(),
{
    if deltas.len() == 0 {
        Seq::empty()
    } else if deltas.last().1 {
        answer_pieces(deltas.drop_last())
    } else {
        answer_pieces(deltas.drop_last()).push(deltas.last().0)
    }
}

/// The response, token estimate and error reached from `response`, `tokens`
/// and `error` by the answer pieces `pieces` (empty pieces change nothing).
pub open spec fn answer_state(
    response: Seq<char>,
    tokens: usize,
    error: Seq<char>,
    pieces: Seq<Seq<char>>,
) -> (Seq<char>, usize, Seq<char>)
    decreases pieces.len(),
{
    if pieces.len() == 0 {
        (response, tokens, error)
    } else {
        let (r, t, e) = answer_state(response, tokens, error, pieces.drop_last());
        if pieces.last().len() == 0 {
            (r, t, e)
        } else {
            (r + pieces.last(), token_estimate_of(r + pieces.last()), e)
        }
    }
}

/// The answer pieces of a document, read without its reasoning: Ollama's
/// `response`; for OpenAI-compatible servers the first choice's
/// `delta.content`, or its `text` when it has no `delta`.
pub open spec fn document_answer_pieces(v: JsonValue, backend_type: BackendType) -> Seq<Seq<char>> {
    match backend_type {
        BackendType::Ollama => match ollama_response_spec(v) {
            Some(d) => seq![d],
            None => Seq::empty(),
        },
        BackendType::OpenAICompatible => match first_choice_spec(v) {
            Some(choice) => match choice.get_spec("delta"@) {
                Some(delta) => match str_member(delta, "content"@) {
                    Some(c) => seq![c],
                    None => Seq::empty(),
                },
                None => match str_member(choice, "text"@) {
                    Some(t) => seq![t],
                    None => Seq::empty(),
                },
            },
            None => Seq::empty(),
        },
    }
}

/// Only the answer pieces move the response, its token estimate and the
/// error; reasoning pieces and whether a reasoning block is open do not.
pub proof fn lemma_steps_follow_answer_pieces(
    s: StreamModel,
    deltas: Seq<(Seq<char>, bool)>,
    thinking_log_enabled: bool,
)
    ensures
        ({
            let e = stream_steps(s, deltas, thinking_log_enabled).0;
            (e.response, e.tokens, e.error) == answer_state(
                s.response,
                s.tokens,
                s.error,
                answer_pieces(deltas),
            )
        }),
    decreases deltas.len(),
{
    if deltas.len() > 0 {
        lemma_steps_follow_answer_pieces(s, deltas.drop_last(), thinking_log_enabled);
        let p = answer_pieces(deltas.drop_last());
        if !deltas.last().1 {
            assert(answer_pieces(deltas).drop_last() =~= p);
        } else {
            assert(answer_pieces(deltas) =~= p);
        }
    }
}

/// The answer pieces of a document's pieces are the ones read without its
/// reasoning.
pub proof fn lemma_document_answer_pieces(v: JsonValue, backend_type: BackendType)
    ensures
        answer_pieces(stream_deltas_spec(v, backend_type)) == document_answer_pieces(v, backend_type),
{
    let d = stream_deltas_spec(v, backend_type);
    reveal_with_fuel(answer_pieces, 3);
    if backend_type == BackendType::OpenAICompatible {
        match first_choice_spec(v) {
            Some(choice) => match choice.get_spec("delta"@) {
                Some(delta) => {
                    let r: Seq<(Seq<char>, bool)> = match str_member(delta, "reasoning_content"@) {
                        Some(x) => seq![(x, true)],
                        None => Seq::empty(),
                    };
                    let c: Seq<(Seq<char>, bool)> = match str_member(delta, "content"@) {
                        Some(x) => seq![(x, false)],
                        None => Seq::empty(),
                    };
                    assert(d == r + c);
                    if c.len() > 0 {
                        assert((r + c).drop_last() =~= r);
                    } else {
                        assert(r + c =~= r);
                    }
                },
                None => {},
            },
            None => {},
        }
    }
}

/// Reasoning text never reaches the response: two streamed documents with
/// the same answer pieces and the same API error, applied to states with the
/// same response, token estimate and error, leave the same response, token
/// estimate and error, whatever their reasoning (`reasoning_content`) says
/// and whether the thinking log is on.
pub proof fn lemma_reasoning_never_reaches_the_response(
    s1: StreamModel,
    s2: StreamModel,
    v1: JsonValue,
    v2: JsonValue,
    backend_type: BackendType,
    thinking_log_enabled: bool,
)
    requires
        s1.response == s2.response,
        s1.tokens == s2.tokens,
        s1.error == s2.error,
        api_error_spec(v1) == api_error_spec(v2),
        document_answer_pieces(v1, backend_type) == document_answer_pieces(v2, backend_type),
    ensures
        ({
            let e1 = stream_document_spec(s1, Ok(v1), backend_type, thinking_log_enabled).0;
            let e2 = stream_document_spec(s2, Ok(v2), backend_type, thinking_log_enabled).0;
            &&& e1.response == e2.response
            &&& e1.tokens == e2.tokens
            &&& e1.error == e2.error
        }),
{
    lemma_document_answer_pieces(v1, backend_type);
    lemma_document_answer_pieces(v2, backend_type);
    lemma_steps_follow_answer_pieces(s1, stream_deltas_spec(v1, backend_type), thinking_log_enabled);
    lemma_steps_follow_answer_pieces(s2, stream_deltas_spec(v2, backend_type), thinking_log_enabled);
}

/// With the thinking log disabled, no reasoning is kept: every live update
/// goes to the response statistics, and no reasoning block is ever open.
pub proof fn lemma_disabled_thinking_log_keeps_no_reasoning(
    s: StreamModel,
    deltas: Seq<(Seq<char>, bool)>,
)
    requires
        !s.in_thinking,
    ensures
        !stream_steps(s, deltas, false).0.in_thinking,
        forall|i: int|
            0 <= i < stream_steps(s, deltas, false).1.len() ==> (#[trigger] stream_steps(
                s,
                deltas,
                false,
            ).1[i]).0 == StreamTarget::Response,
    decreases deltas.len(),
{
    if deltas.len() > 0 {
        lemma_disabled_thinking_log_keeps_no_reasoning(s, deltas.drop_last());
        let (s1, u1) = stream_steps(s, deltas.drop_last(), false);
        let (s2, u2) = stream_step(s1, deltas.last().0, deltas.last().1, false);
        assert forall|i: int| 0 <= i < (u1 + u2).len() implies (#[trigger] (u1 + u2)[i]).0
            == StreamTarget::Response by {
            if i < u1.len() {
                assert((u1 + u2)[i] == u1[i]);
            } else {
                assert((u1 + u2)[i] == u2[i - u1.len()]);
            }
        }
    }
}

/// A whole streamed document, with the thinking log disabled, leaves no
/// reasoning behind: the response grows only by the answer pieces and all
/// updates are response updates.
pub proof fn lemma_document_with_disabled_thinking_log(
    s: StreamModel,
    v: JsonValue,
    backend_type: BackendType,
)
    requires
        !s.in_thinking,
        api_error_spec(v) is None,
    ensures
        ({
            let (s2, updates) = stream_document_spec(s, Ok(v), backend_type, false);
            &&& s2.response == s.response + answer_text(stream_deltas_spec(v, backend_type))
            &&& !s2.in_thinking
            &&& s2.error == s.error
            &&& forall|i: int| 0 <= i < updates.len() ==> (#[trigger] updates[i]).0
                == StreamTarget::Response
        }),
{
    lemma_stream_steps_response(s, stream_deltas_spec(v, backend_type), false);
    lemma_disabled_thinking_log_keeps_no_reasoning(s, stream_deltas_spec(v, backend_type));
}

/// A transfer that breaks off after some answer text arrived is no failure:
/// when the only error is the transfer's own (`curl error:` and its
/// detail) and the server sent no HTTP error status, the finished request
/// reports no error and keeps the text it received, whether or not it was
/// stopped or cancelled.
pub proof fn lemma_broken_transfer_keeps_the_answer(
    m: StreamModel,
    detail: Seq<char>,
    backend_type: BackendType,
    http_status: i64,
    cancel_requested: bool,
    stop_requested: bool,
    thinking_log_enabled: bool,
    raw_document: Option<JsonValue>,
    line_documents: Seq<Option<JsonValue>>,
)
    requires
        m.response.len() > 0,
        m.error == "curl error:"@ + detail,
        http_status < 400,
    ensures
        ({
            let (response, error, cancelled, updates) = finish_spec(
                m,
                backend_type,
                http_status,
                cancel_requested,
                stop_requested,
                thinking_log_enabled,
                raw_document,
                line_documents,
            );
            &&& error.len() == 0
            &&& response == m.response
            &&& cancelled == (cancel_requested && !stop_requested)
        }),
{
    reveal_strlit("curl error:");
    assert(CURL_ERROR_PREFIX@ == "curl error:"@);
    assert(m.error.subrange(0, CURL_ERROR_PREFIX@.len() as int) =~= CURL_ERROR_PREFIX@);
    assert(starts_with(m.error, CURL_ERROR_PREFIX@));
}

/// Reasoning pieces as they come from the stream.
pub open spec fn reasoning_pieces(pieces: Seq<Seq<char>>) -> Seq<(Seq<char>, bool)> {
    pieces.map_values(|p: Seq<char>| (p, true))
}

/// Each piece as an update of the thinking log.
pub open spec fn thinking_log_entries(pieces: Seq<Seq<char>>) -> Seq<(StreamTarget, Seq<char>, usize)> {
    pieces.map_values(|p: Seq<char>| (StreamTarget::Thinking, p, 0usize))
}

/// With the thinking log on, a run of reasoning pieces goes to the log as
/// one block: the `<think>` marker once, at its start (none when a block is
/// already open), then each piece as it came.  The answer so far, the token
/// estimate and the error stay as they were, and the block is left open.
pub proof fn lemma_reasoning_run_is_one_block(s: StreamModel, pieces: Seq<Seq<char>>)
    requires
        pieces.len() > 0,
        forall|i: int| 0 <= i < pieces.len() ==> (#[trigger] pieces[i]).len() > 0,
    ensures
        ({
            let (s2, u) = stream_steps(s, reasoning_pieces(pieces), true);
            &&& u == (if s.in_thinking {
                Seq::empty()
            } else {
                seq![(StreamTarget::Thinking, "<think>\n"@, 0usize)]
            }) + thinking_log_entries(pieces)
            &&& s2 == StreamModel { in_thinking: true, ..s }
        }),
    decreases pieces.len(),
{
    reveal_strlit("<think>\n");
    assert(THINK_OPEN@ == "<think>\n"@);
    let k = pieces.len() - 1;
    assert(pieces[k].len() > 0);
    assert(reasoning_pieces(pieces).drop_last() =~= reasoning_pieces(pieces.drop_last()));
    assert(reasoning_pieces(pieces).last() == (pieces[k], true));
    assert(thinking_log_entries(pieces) =~= thinking_log_entries(pieces.drop_last()).push(
        (StreamTarget::Thinking, pieces[k], 0usize),
    ));
    if pieces.len() == 1 {
        assert(reasoning_pieces(pieces.drop_last()) =~= Seq::<(Seq<char>, bool)>::empty());
        assert(thinking_log_entries(pieces.drop_last()) =~= Seq::<(StreamTarget, Seq<char>, usize)>::empty());
        if s.in_thinking {
            assert(Seq::<(StreamTarget, Seq<char>, usize)>::empty() + seq![(StreamTarget::Thinking, pieces[k], 0usize)]
                =~= Seq::<(StreamTarget, Seq<char>, usize)>::empty() + thinking_log_entries(pieces));
        } else {
            assert(Seq::<(StreamTarget, Seq<char>, usize)>::empty() + seq![
                (StreamTarget::Thinking, THINK_OPEN@, 0usize),
                (StreamTarget::Thinking, pieces[k], 0usize),
            ] =~= seq![(StreamTarget::Thinking, "<think>\n"@, 0usize)] + thinking_log_entries(pieces));
        }
    } else {
        assert forall|i: int| 0 <= i < pieces.drop_last().len() implies (#[trigger] pieces.drop_last()[i]).len()
            > 0 by {
            assert(pieces.drop_last()[i] == pieces[i]);
        }
        lemma_reasoning_run_is_one_block(s, pieces.drop_last());
        let head: Seq<(StreamTarget, Seq<char>, usize)> = if s.in_thinking {
            Seq::empty()
        } else {
            seq![(StreamTarget::Thinking, "<think>\n"@, 0usize)]
        };
        assert((head + thinking_log_entries(pieces.drop_last())) + seq![(StreamTarget::Thinking, pieces[k], 0usize)]
            =~= head + thinking_log_entries(pieces));
    }
}

/// Stopping keeps the partial response: a stopped request is never reported
/// as cancelled, and the text streamed so far is what it reports.
pub proof fn lemma_stop_keeps_partial_response(
    m: StreamModel,
    backend_type: BackendType,
    http_status: i64,
    cancel_requested: bool,
    thinking_log_enabled: bool,
    raw_document: Option<JsonValue>,
    line_documents: Seq<Option<JsonValue>>,
)
    requires
        m.response.len() > 0,
    ensures
        ({
            let (response, error, cancelled, updates) = finish_spec(
                m,
                backend_type,
                http_status,
                cancel_requested,
                true,
                thinking_log_enabled,
                raw_document,
                line_documents,
            );
            &&& !cancelled
            &&& response == m.response
        }),
{
}

/// Cancelling (without stopping) is reported as a cancellation that keeps
/// nothing new, and with no error unless the server answered with an HTTP
/// error.
pub proof fn lemma_cancel_is_reported(
    m: StreamModel,
    backend_type: BackendType,
    http_status: i64,
    thinking_log_enabled: bool,
    raw_document: Option<JsonValue>,
    line_documents: Seq<Option<JsonValue>>,
)
    ensures
        ({
            let (response, error, cancelled, updates) = finish_spec(
                m,
                backend_type,
                http_status,
                true,
                false,
                thinking_log_enabled,
                raw_document,
                line_documents,
            );
            &&& cancelled
            &&& response == m.response
            &&& http_status < 400 ==> error.len() == 0
        }),
{
}


impl StreamAccumulator {
    /// Decodes one finished line of the stream: the document it carries (see
    /// `frame_stream_line`) is parsed with `serde_json` and applied; a line
    /// that carries none changes nothing.  Returns the live updates.
    pub fn process_stream_line(
        &mut self,
        line: &str,
        backend_type: BackendType,
        thinking_log_enabled: bool,
    ) -> (updates: Vec<StreamUpdate>)
        ensures
            match frame_stream_line_spec(line@, backend_type) {
                None => *final(self) == *old(self) && updates@.len() == 0,
                Some(t) => (final(self).model(), updates_view(updates@)) == stream_document_spec(
                    old(self).model(),
                    json_parse(t),
                    backend_type,
                    thinking_log_enabled,
                ),
            },
            final(self).raw_response == old(self).raw_response,
            final(self).stream_buffer == old(self).stream_buffer,
    {
        match frame_stream_line(line, backend_type) {
            None => Vec::new(),
            Some(text) => {
                let parsed = parse_json(text.as_str());
                self.apply_stream_document(&parsed, backend_type, thinking_log_enabled)
            },
        }
    }

    /// Finishes a transfer (see `finish`), with the whole body and each line
    /// `fallback_candidates` picks from it parsed with `serde_json`.
    pub fn finish_transfer(
        self,
        request_id: u64,
        backend_type: BackendType,
        http_status: i64,
        cancel_requested: bool,
        stop_requested: bool,
        thinking_log_enabled: bool,
    ) -> (r: (RequestResult, Vec<StreamUpdate>))
        ensures
            ({
                let (response, error, cancelled, updates) = finish_spec(
                    self.model(),
                    backend_type,
                    http_status,
                    cancel_requested,
                    stop_requested,
                    thinking_log_enabled,
                    json_ok(json_parse(self.raw_response@)),
                    fallback_documents_spec(self.raw_response@),
                );
                &&& r.0.request_id == request_id
                &&& r.0.response_text@ == response
                &&& r.0.raw_response@ == self.raw_response@
                &&& r.0.error_message@ == error
                &&& r.0.http_status == http_status
                &&& r.0.cancelled == cancelled
                &&& updates_view(r.1@) == updates
            }),
    {
        let raw_document = parse_document(self.raw_response.as_str());
        let candidates = fallback_candidates(self.raw_response.as_str());
        let documents = parse_documents(&candidates);
        assert(documents@ =~= fallback_documents_spec(self.raw_response@));
        self.finish(
            request_id,
            backend_type,
            http_status,
            cancel_requested,
            stop_requested,
            thinking_log_enabled,
            raw_document.as_ref(),
            &documents,
        )
    }
}

} // verus!
