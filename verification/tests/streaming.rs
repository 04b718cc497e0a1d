use geany_copilot::backend::{BackendType, InsertMode};
use geany_copilot::json::JsonValue;
use geany_copilot::request::{
    authorization_header, context_source, context_window, ContextSource, context_with_hint, language_hint_for_file_name,
    plan_completion, plan_placement, prepare_request, request_headers, CompletionPlan, EditAction,
    RequestData, RequestSlot, NO_RESPONSE_TEXT_MESSAGE, PARTIAL_RESPONSE_INSERTED_STATUS,
    REQUEST_ABANDONED_STATUS, REQUEST_CANCELLED_STATUS, RESPONSE_INSERTED_STATUS,
};
use geany_copilot::stream::{
    fallback_candidates, fallback_from_documents, fallback_response, frame_stream_line, setup_error_message,
    RequestResult,
    StreamAccumulator, StreamTarget, StreamUpdate, INVALID_AUTHORIZATION_HEADER,
};
use serde_json::Value;

fn to_json(v: &Value) -> JsonValue {
    match v {
        Value::Null => JsonValue::Null,
        Value::Bool(b) => JsonValue::Bool(*b),
        Value::Number(n) => JsonValue::Number(n.to_string()),
        Value::String(s) => JsonValue::Str(s.clone()),
        Value::Array(items) => JsonValue::Array(items.iter().map(to_json).collect()),
        Value::Object(members) => {
            JsonValue::Object(members.iter().map(|(k, v)| (k.clone(), to_json(v))).collect())
        }
    }
}

fn parsed(text: &str) -> Result<JsonValue, String> {
    serde_json::from_str::<Value>(text).map(|v| to_json(&v)).map_err(|e| e.to_string())
}

/// Feeds one received chunk through the accumulator, as the transfer does.
fn feed(acc: &mut StreamAccumulator, chunk: &str, backend: BackendType, thinking: bool) -> Vec<StreamUpdate> {
    let mut updates = Vec::new();
    for line in acc.push_chunk(chunk) {
        updates.extend(acc.process_stream_line(&line, backend, thinking));
    }
    updates
}

fn finish(
    mut acc: StreamAccumulator,
    backend: BackendType,
    status: i64,
    cancel: bool,
    stop: bool,
    thinking: bool,
) -> (RequestResult, Vec<StreamUpdate>) {
    if let Some(line) = acc.leftover_line() {
        acc.process_stream_line(&line, backend, thinking);
    }
    acc.finish_transfer(7, backend, status, cancel, stop, thinking)
}

#[test]
fn disabled_thinking_log_discards_decoded_reasoning() {
    let mut acc = StreamAccumulator::new();
    let updates = acc.process_stream_line(
        r#"data: {"choices":[{"delta":{"reasoning_content":"private reasoning"}}]}"#,
        BackendType::OpenAICompatible,
        false,
    );
    assert!(acc.response_text.is_empty());
    assert!(!acc.in_thinking);
    assert!(acc.error_message.is_empty());
    assert!(updates.is_empty());
}

#[test]
fn parsed_documents_are_applied_as_given() {
    let mut acc = StreamAccumulator::new();
    let updates = acc.apply_stream_document(&parsed(r#"{"response":"hi"}"#), BackendType::Ollama, true);
    assert_eq!(updates.len(), 1);
    assert_eq!(acc.response_text, "hi");
    acc.apply_stream_document(&Err("oops".to_string()), BackendType::Ollama, true);
    assert_eq!(acc.error_message, "Failed to parse streaming JSON: oops");
}

#[test]
fn lines_without_a_document_change_nothing() {
    let mut acc = StreamAccumulator::new();
    assert!(acc.process_stream_line("data: [DONE]", BackendType::OpenAICompatible, true).is_empty());
    assert!(acc.process_stream_line(": ping", BackendType::Ollama, true).is_empty());
    assert!(acc.error_message.is_empty());
    assert!(acc.response_text.is_empty());
}

#[test]
fn stream_lines_are_framed_per_backend() {
    assert_eq!(frame_stream_line("  data: {\"a\":1}\r", BackendType::OpenAICompatible), Some("{\"a\":1}".to_string()));
    assert_eq!(frame_stream_line("data: [DONE]", BackendType::OpenAICompatible), None);
    assert_eq!(frame_stream_line("event: ping", BackendType::OpenAICompatible), None);
    assert_eq!(frame_stream_line(": keep-alive", BackendType::Ollama), None);
    assert_eq!(frame_stream_line("   ", BackendType::Ollama), None);
    assert_eq!(frame_stream_line("{\"response\":\"x\"}", BackendType::Ollama), Some("{\"response\":\"x\"}".to_string()));
    assert_eq!(frame_stream_line("data: x", BackendType::Ollama), Some("data: x".to_string()));
}

#[test]
fn reasoning_is_wrapped_in_think_markers_and_response_accumulates() {
    let mut acc = StreamAccumulator::new();
    let backend = BackendType::OpenAICompatible;
    let mut updates = feed(
        &mut acc,
        "data: {\"choices\":[{\"delta\":{\"reasoning_content\":\"hm\"}}]}\ndata: {\"choices\":[{\"delta\":{\"content\":\"abcd\"}}]}\n",
        backend,
        true,
    );
    updates.extend(feed(&mut acc, "data: {\"choices\":[{\"delta\":{\"content\":\"e\"}}]}\ndata: [DONE]\n", backend, true));
    let seen: Vec<(StreamTarget, String, usize)> =
        updates.iter().map(|u| (u.target, u.delta.clone(), u.estimated_tokens)).collect();
    assert_eq!(
        seen,
        vec![
            (StreamTarget::Thinking, "<think>\n".to_string(), 0),
            (StreamTarget::Thinking, "hm".to_string(), 0),
            (StreamTarget::Thinking, "\n</think>\n\n".to_string(), 0),
            (StreamTarget::Response, "abcd".to_string(), 1),
            (StreamTarget::Response, "e".to_string(), 2),
        ]
    );
    assert_eq!(acc.response_text, "abcde");
    assert!(!acc.in_thinking);
    let (result, tail) = finish(acc, backend, 200, false, false, true);
    assert!(tail.is_empty());
    assert_eq!(result.request_id, 7);
    assert_eq!(result.response_text, "abcde");
    assert_eq!(result.error_message, "");
    assert!(!result.cancelled);
}

#[test]
fn a_line_split_across_chunks_is_decoded_once_complete() {
    let mut acc = StreamAccumulator::new();
    let backend = BackendType::Ollama;
    assert!(feed(&mut acc, "{\"respo", backend, true).is_empty());
    assert_eq!(acc.stream_buffer, "{\"respo");
    let updates = feed(&mut acc, "nse\":\"hi\"}\n{\"response\":\"!\"}", backend, true);
    assert_eq!(updates.len(), 1);
    assert_eq!(acc.response_text, "hi");
    let (result, _) = finish(acc, backend, 200, false, false, true);
    assert_eq!(result.response_text, "hi!");
    assert_eq!(result.raw_response, "{\"response\":\"hi\"}\n{\"response\":\"!\"}");
}

#[test]
fn open_reasoning_is_closed_when_the_stream_ends() {
    let mut acc = StreamAccumulator::new();
    let backend = BackendType::OpenAICompatible;
    feed(&mut acc, "data: {\"choices\":[{\"delta\":{\"reasoning_content\":\"r\"}}]}\n", backend, true);
    assert!(acc.in_thinking);
    let (_, tail) = finish(acc, backend, 200, false, false, true);
    assert_eq!(tail.len(), 1);
    assert_eq!(tail[0].target, StreamTarget::Thinking);
    assert_eq!(tail[0].delta, "\n</think>\n");
}

#[test]
fn stream_errors_are_reported() {
    let mut acc = StreamAccumulator::new();
    feed(&mut acc, "not json\n", BackendType::Ollama, true);
    assert!(acc.error_message.starts_with("Failed to parse streaming JSON: "));
    let mut acc = StreamAccumulator::new();
    feed(&mut acc, "{\"error\":{\"message\":\"quota\"}}\n", BackendType::Ollama, true);
    assert_eq!(acc.error_message, "API error: quota");
    let (result, _) = finish(acc, BackendType::Ollama, 429, false, false, true);
    assert_eq!(result.error_message, "API error: quota");
    assert_eq!(result.http_status, 429);
}

#[test]
fn http_errors_fall_back_to_the_status() {
    let acc = StreamAccumulator::new();
    let (result, _) = finish(acc, BackendType::Ollama, 401, false, false, true);
    assert_eq!(result.error_message, "HTTP error 401");

    let mut acc = StreamAccumulator::new();
    acc.push_chunk("{\"foo\":1}");
    let (result, _) = finish(acc, BackendType::Ollama, 500, false, false, true);
    assert_eq!(result.error_message, "HTTP error 500");

    let mut acc = StreamAccumulator::new();
    acc.push_chunk("<html>bad gateway</html>");
    let (result, _) = finish(acc, BackendType::Ollama, 502, false, false, true);
    assert!(result.error_message.starts_with("Failed to parse streaming JSON"));
}

#[test]
fn a_whole_document_answer_is_used_when_nothing_streamed() {
    let mut acc = StreamAccumulator::new();
    acc.push_chunk("{\"choices\":[{\"message\":{\"content\":\"whole\"}}]}");
    let lines_before = acc.stream_buffer.clone();
    assert_eq!(lines_before, "{\"choices\":[{\"message\":{\"content\":\"whole\"}}]}");
    let (result, _) = finish(acc, BackendType::OpenAICompatible, 200, false, false, true);
    assert_eq!(result.response_text, "whole");
    assert_eq!(result.error_message, "");
}

#[test]
fn fallback_reads_the_whole_body_then_each_line() {
    let raw = "data: {\"x\":1}\ndata: {\"choices\":[{\"text\":\"t\"}]}\n\ndata: [DONE]\n";
    let candidates = fallback_candidates(raw);
    assert_eq!(candidates, vec!["{\"x\":1}".to_string(), "{\"choices\":[{\"text\":\"t\"}]}".to_string()]);
    assert_eq!(fallback_response(raw, BackendType::OpenAICompatible), Some("t".to_string()));
    assert_eq!(fallback_response(raw, BackendType::Ollama), None);
    assert_eq!(fallback_response("{\"response\":\"w\"}", BackendType::Ollama), Some("w".to_string()));
    let docs: Vec<Option<JsonValue>> = candidates.iter().map(|c| parsed(c).ok()).collect();
    assert_eq!(fallback_from_documents(None, &docs, BackendType::OpenAICompatible), Some("t".to_string()));
    let whole = parsed("{\"response\":\"w\"}").ok();
    assert_eq!(fallback_from_documents(whole.as_ref(), &docs, BackendType::Ollama), Some("w".to_string()));
}

#[test]
fn cancel_discards_and_stop_keeps_the_partial_response() {
    let backend = BackendType::Ollama;
    let mut acc = StreamAccumulator::new();
    feed(&mut acc, "{\"response\":\"part\"}\n", backend, true);
    acc.record_transport_error("curl error: aborted");
    let (cancelled, _) = finish(acc, backend, 0, true, false, true);
    assert!(cancelled.cancelled);
    assert_eq!(cancelled.error_message, "");

    let mut acc = StreamAccumulator::new();
    feed(&mut acc, "{\"response\":\"part\"}\n", backend, true);
    acc.record_transport_error("curl error: aborted");
    let (stopped, _) = finish(acc, backend, 0, true, true, true);
    assert!(!stopped.cancelled);
    assert_eq!(stopped.response_text, "part");
    assert_eq!(stopped.error_message, "");
}

#[test]
fn transport_errors_stand_without_a_response() {
    let mut acc = StreamAccumulator::new();
    acc.record_transport_error("curl error: Timeout was reached");
    let (result, _) = finish(acc, BackendType::Ollama, 0, false, false, true);
    assert_eq!(result.error_message, "curl error: Timeout was reached");
    assert_eq!(result.response_text, "");
}

fn request(mode: InsertMode, pos: i32, start: i32, end: i32) -> RequestData {
    RequestData::new(7, 3, pos, start, end, mode)
}

fn result(response: &str, error: &str, cancelled: bool) -> RequestResult {
    RequestResult {
        request_id: 7,
        response_text: response.to_string(),
        raw_response: "raw".to_string(),
        error_message: error.to_string(),
        http_status: 200,
        cancelled,
    }
}

#[test]
fn completion_plans_follow_the_outcome() {
    let req = request(InsertMode::Cursor, 4, 4, 4);
    match plan_completion(&req, &result("", "", false), true, false, Some(10)) {
        CompletionPlan::Discard { status } => assert_eq!(status, REQUEST_ABANDONED_STATUS),
        _ => panic!("abandoned request must be discarded"),
    }
    match plan_completion(&req, &result("x", "", true), false, false, Some(10)) {
        CompletionPlan::Discard { status } => assert_eq!(status, REQUEST_CANCELLED_STATUS),
        _ => panic!("cancelled request must be discarded"),
    }
    match plan_completion(&req, &result("", "", false), false, false, Some(10)) {
        CompletionPlan::Fail { error_status, raw_response } => {
            assert_eq!(error_status, format!("Error: {}", NO_RESPONSE_TEXT_MESSAGE));
            assert_eq!(raw_response, "raw");
        }
        _ => panic!("empty response must fail"),
    }
    match plan_completion(&req, &result("x", "boom", false), false, false, Some(10)) {
        CompletionPlan::Fail { error_status, .. } => assert_eq!(error_status, "Error: boom"),
        _ => panic!("error must fail"),
    }
    match plan_completion(&req, &result("x", "", false), false, true, Some(10)) {
        CompletionPlan::Insert { edit: Some(EditAction::InsertAt { position, text }), status } => {
            assert_eq!((position, text.as_str(), status), (4, "x", PARTIAL_RESPONSE_INSERTED_STATUS));
        }
        _ => panic!("stopped request inserts its partial response"),
    }
    match plan_completion(&req, &result("x", "", false), false, false, None) {
        CompletionPlan::Insert { edit: None, status } => assert_eq!(status, RESPONSE_INSERTED_STATUS),
        _ => panic!("a closed document gets no edit"),
    }
    let mut other = result("x", "", false);
    other.request_id = 8;
    assert!(matches!(plan_completion(&req, &other, false, false, Some(10)), CompletionPlan::Ignore));
}

#[test]
fn placement_follows_the_insert_mode() {
    match plan_placement(InsertMode::ReplaceSelection, 0, 2, 5, "new", 10) {
        EditAction::ReplaceRange { start, end, text } => assert_eq!((start, end, text.as_str()), (2, 5, "new")),
        _ => panic!("replace"),
    }
    match plan_placement(InsertMode::AppendAfterSelection, 0, 2, 5, "new", 10) {
        EditAction::InsertAt { position, text } => assert_eq!((position, text.as_str()), (5, "\nnew")),
        _ => panic!("append"),
    }
    match plan_placement(InsertMode::AppendAfterSelection, 0, 2, 5, "\nnew", 10) {
        EditAction::InsertAt { position, text } => assert_eq!((position, text.as_str()), (5, "\nnew")),
        _ => panic!("append keeps a leading line break"),
    }
    match plan_placement(InsertMode::ReplaceSelection, 3, 4, 4, "a\u{0}b", 10) {
        EditAction::InsertAt { position, text } => assert_eq!((position, text.as_str()), (3, "ab")),
        _ => panic!("no selection inserts at the cursor"),
    }
    match plan_placement(InsertMode::Cursor, 50, 70, 90, "z", 10) {
        EditAction::InsertAt { position, .. } => assert_eq!(position, 10),
        _ => panic!("cursor"),
    }
}

#[test]
fn only_one_request_runs_at_a_time() {
    let mut slot = RequestSlot::new();
    assert!(slot.is_idle());
    assert!(slot.try_begin(1));
    assert!(!slot.try_begin(2));
    assert!(slot.accepts_update(1, false));
    assert!(!slot.accepts_update(1, true));
    assert!(!slot.accepts_update(2, false));
    slot.finish(2);
    assert!(!slot.is_idle());
    slot.finish(1);
    assert!(slot.is_idle());
    assert!(slot.try_begin(3));
    assert_eq!(slot.abandon(), Some(3));
    assert!(slot.is_idle());
}

#[test]
fn headers_and_context_are_prepared_for_the_request() {
    assert_eq!(request_headers(""), vec!["Content-Type: application/json".to_string()]);
    assert_eq!(
        request_headers("k"),
        vec!["Content-Type: application/json".to_string(), "Authorization: Bearer k".to_string()]
    );
    assert_eq!(authorization_header(""), None);
    assert_eq!(authorization_header("s"), Some("Authorization: Bearer s".to_string()));
    assert_eq!(context_window(50, 120), Some((0, 120)));
    assert_eq!(context_window(500, 1000), Some((400, 600)));
    assert_eq!(context_window(0, 0), None);
    assert_eq!(language_hint_for_file_name("/src/Main.RS"), Some("Rust"));
    assert_eq!(language_hint_for_file_name("notes.markdown"), Some("Markdown"));
    assert_eq!(language_hint_for_file_name("Makefile"), None);
    assert_eq!(context_with_hint("ctx", true, Some("a.py")), "ctx\n\nLanguage: Python");
    assert_eq!(context_with_hint("ctx", false, Some("a.py")), "ctx");
    assert_eq!(context_with_hint("ctx", true, None), "ctx");
    let prepared = prepare_request("ctx", Some("x.go"), true, BackendType::Ollama, "", "", "", -5, None);
    assert_eq!(prepared.url, "http://localhost:11434/api/generate");
    assert_eq!(prepared.payload, "{\"prompt\":\"ctx\\n\\nLanguage: Go\",\"stream\":true}");
}

#[test]
fn the_selection_is_the_context_when_there_is_one() {
    assert_eq!(context_source(true, Some("sel")), ContextSource::Selection);
    assert_eq!(context_source(true, Some("")), ContextSource::AroundCursor);
    assert_eq!(context_source(true, None), ContextSource::Unreadable);
    assert_eq!(context_source(false, None), ContextSource::AroundCursor);
    assert_eq!(context_source(false, Some("ignored")), ContextSource::AroundCursor);
}

#[test]
fn setup_errors_name_their_cause() {
    assert_eq!(setup_error_message("URL using bad/illegal format"), "curl setup error: URL using bad/illegal format");
    assert_eq!(
        setup_error_message(INVALID_AUTHORIZATION_HEADER),
        "curl setup error: invalid authorization header"
    );
}

#[test]
fn reasoning_never_reaches_the_response() {
    let backend = BackendType::OpenAICompatible;
    let mut a = StreamAccumulator::new();
    let mut b = StreamAccumulator::new();
    for thinking in [true, false] {
        a.process_stream_line(
            r#"data: {"choices":[{"delta":{"reasoning_content":"secret plan","content":"x"}}]}"#,
            backend,
            thinking,
        );
        b.process_stream_line(
            r#"data: {"choices":[{"delta":{"reasoning_content":"other words","content":"x"}}]}"#,
            backend,
            thinking,
        );
    }
    assert_eq!(a.response_text, "xx");
    assert_eq!(a.response_text, b.response_text);
    assert_eq!(a.estimated_tokens, b.estimated_tokens);
    assert_eq!(a.error_message, b.error_message);
}
