use geany_copilot::backend::BackendType;
use geany_copilot::json::{json_array, json_object, JsonValue};
use geany_copilot::payload::{
    build_ollama_payload, build_openai_compatible_payload, build_request_payload, ollama_payload_from_literals,
    openai_payload_from_literals,
};
use geany_copilot::responses::{
    complete_response_from_document, model_list_from_document, parse_api_error, parse_complete_response,
    parse_model_list_response, parse_ollama_response,
    parse_openai_compatible_response,
};
use serde_json::Value;

fn to_json(v: &Value) -> JsonValue {
    match v {
        Value::Null => JsonValue::Null,
        Value::Bool(b) => JsonValue::Bool(*b),
        Value::Number(n) => JsonValue::Number(n.to_string()),
        Value::String(s) => JsonValue::Str(s.clone()),
        Value::Array(items) => JsonValue::Array(items.iter().map(to_json).collect()),
        Value::Object(members) => {
            JsonValue::Object(members.iter().map(|(k, v)| (k.clone(), to_json(v))).collect())
        }
    }
}

fn parsed(text: &str) -> Result<JsonValue, String> {
    serde_json::from_str::<Value>(text).map(|v| to_json(&v)).map_err(|e| e.to_string())
}

fn doc(text: &str) -> JsonValue {
    parsed(text).unwrap()
}

fn number_text(n: f64) -> String {
    Value::from(n).to_string()
}

#[test]
fn empty_model_is_omitted() {
    let payload: Value = serde_json::from_str(&build_ollama_payload("ctx", "", "", 0, None)).unwrap();
    assert!(payload.get("model").is_none());
}

#[test]
fn empty_system_prompt_is_omitted() {
    let ollama: Value =
        serde_json::from_str(&build_ollama_payload("ctx", "model", " \n\t ", 0, None)).unwrap();
    assert!(ollama.get("system").is_none());

    let openai: Value =
        serde_json::from_str(&build_openai_compatible_payload("ctx", "model", " \n\t ", 0, None)).unwrap();
    let messages = openai["messages"].as_array().unwrap();
    assert_eq!(messages.len(), 1);
    assert_eq!(messages[0]["role"], "user");
}

#[test]
fn system_prompt_is_sent_in_backend_native_form() {
    let system_prompt = "Answer with code only.";
    let ollama: Value =
        serde_json::from_str(&build_ollama_payload("ctx", "model", system_prompt, 0, None)).unwrap();
    assert_eq!(ollama["system"], system_prompt);

    let openai: Value =
        serde_json::from_str(&build_openai_compatible_payload("ctx", "model", system_prompt, 0, None)).unwrap();
    let messages = openai["messages"].as_array().unwrap();
    assert_eq!(messages.len(), 2);
    assert_eq!(messages[0]["role"], "system");
    assert_eq!(messages[0]["content"], system_prompt);
    assert_eq!(messages[1]["role"], "user");
}

#[test]
fn max_tokens_is_omitted_when_zero_and_sent_when_positive() {
    let openai: Value =
        serde_json::from_str(&build_openai_compatible_payload("ctx", "model", "", 512, None)).unwrap();
    assert_eq!(openai["max_tokens"], 512);

    let ollama: Value = serde_json::from_str(&build_ollama_payload("ctx", "model", "", 512, None)).unwrap();
    assert_eq!(ollama["options"]["num_predict"], 512);

    let openai_default: Value =
        serde_json::from_str(&build_openai_compatible_payload("ctx", "model", "", 0, None)).unwrap();
    assert!(openai_default.get("max_tokens").is_none());
}

#[test]
fn temperature_is_sent_only_when_configured() {
    let low = number_text(0.3);
    let ollama: Value =
        serde_json::from_str(&build_ollama_payload("ctx", "model", "", 0, Some(low.as_str()))).unwrap();
    assert_eq!(ollama["options"]["temperature"], 0.3);

    let high = number_text(0.7);
    let openai: Value =
        serde_json::from_str(&build_openai_compatible_payload("ctx", "model", "", 0, Some(high.as_str())))
            .unwrap();
    assert_eq!(openai["temperature"], 0.7);

    let none: Value = serde_json::from_str(&build_ollama_payload("ctx", "model", "", 0, None)).unwrap();
    assert!(none.get("options").is_none());
}

#[test]
fn request_payload_dispatches_on_backend_type() {
    let ollama: Value =
        serde_json::from_str(&build_request_payload("ctx", BackendType::Ollama, "m", "", 0, None)).unwrap();
    assert_eq!(ollama["prompt"], "ctx");
    let openai: Value =
        serde_json::from_str(&build_request_payload("ctx", BackendType::OpenAICompatible, "m", "", 0, None))
            .unwrap();
    assert_eq!(openai["messages"][0]["content"], "ctx");
}

#[test]
fn payloads_are_written_in_compact_sorted_form() {
    assert_eq!(
        build_ollama_payload("ctx", "m", "sys", 512, Some("0.5")),
        r#"{"model":"m","options":{"num_predict":512,"temperature":0.5},"prompt":"ctx","stream":true,"system":"sys"}"#
    );
    assert_eq!(
        build_openai_compatible_payload("a\"b\n", "", "", 0, None),
        r#"{"messages":[{"content":"a\"b\n","role":"user"}],"stream":true}"#
    );
}

#[test]
fn payload_text_is_escaped_as_serde_json_writes_it() {
    let context = "quote \" backslash \\ tab \t nul \u{0} bell \u{7} é";
    let text = build_ollama_payload(context, "", "", 0, None);
    let v: Value = serde_json::from_str(&text).unwrap();
    assert_eq!(v["prompt"], context);
    assert_eq!(text, format!("{{\"prompt\":{},\"stream\":true}}", Value::from(context)));
}

#[test]
fn json_documents_are_written_compactly_in_member_order() {
    let v = json_object(&vec![
        ("a".to_string(), json_array(&vec!["1".to_string(), "true".to_string()])),
        ("b".to_string(), "2".to_string()),
    ]);
    assert_eq!(v, r#"{"a":[1,true],"b":2}"#);
    assert_eq!(json_array(&vec![]), "[]");
    assert_eq!(json_object(&vec![]), "{}");
}

#[test]
fn response_parsers_cover_all_shapes() {
    assert_eq!(parse_ollama_response(&doc(r#"{"response":"x"}"#)), Some("x".to_string()));
    assert_eq!(parse_ollama_response(&doc(r#"{"other":1}"#)), None);

    let delta = doc(r#"{"choices":[{"delta":{"content":"d"}}]}"#);
    assert_eq!(parse_openai_compatible_response(&delta), Some("d".to_string()));
    let message = doc(r#"{"choices":[{"message":{"content":"m"}}]}"#);
    assert_eq!(parse_openai_compatible_response(&message), Some("m".to_string()));
    let text = doc(r#"{"choices":[{"text":"t"}]}"#);
    assert_eq!(parse_openai_compatible_response(&text), Some("t".to_string()));
    assert_eq!(parse_openai_compatible_response(&doc(r#"{"choices":[]}"#)), None);
    assert_eq!(parse_openai_compatible_response(&doc("{}")), None);
}

#[test]
fn api_errors_cover_object_string_and_absent_forms() {
    assert_eq!(parse_api_error(&doc(r#"{"error":{"message":"m"}}"#)), Some("API error: m".to_string()));
    assert_eq!(parse_api_error(&doc(r#"{"error":"p"}"#)), Some("API error: p".to_string()));
    assert_eq!(parse_api_error(&doc(r#"{"error":{}}"#)), None);
    assert_eq!(parse_api_error(&doc("{}")), None);
}

#[test]
fn model_list_strips_nul_bytes() {
    let ollama =
        parse_model_list_response("{\"models\":[{\"name\":\"bad\\u0000name\"}]}", BackendType::Ollama)
            .unwrap();
    assert_eq!(ollama, vec!["badname".to_string()]);

    let openai = parse_model_list_response("{\"data\":[{\"id\":\"m\\u0000odel\"}]}",
        BackendType::OpenAICompatible,
    )
    .unwrap();
    assert_eq!(openai, vec!["model".to_string()]);
}

#[test]
fn model_list_reports_errors_and_skips_nameless_items() {
    assert!(parse_model_list_response("not json", BackendType::Ollama)
        .unwrap_err()
        .starts_with("Invalid JSON"));
    assert_eq!(
        parse_model_list_response(r#"{"models":[]}"#, BackendType::Ollama).unwrap_err(),
        "No models found in server response."
    );
    assert_eq!(
        parse_model_list_response(r#"{"error":{"message":"bad key"}}"#, BackendType::OpenAICompatible)
            .unwrap_err(),
        "API error: bad key"
    );
    let list =
        parse_model_list_response(r#"{"models":[{"name":"a"},{"size":1}]}"#, BackendType::Ollama).unwrap();
    assert_eq!(list, vec!["a".to_string()]);
}

#[test]
fn complete_response_parses_both_backends_and_rejects_junk() {
    assert_eq!(
        parse_complete_response(r#"{"response":"r"}"#, BackendType::Ollama),
        Some("r".to_string())
    );
    assert_eq!(
        parse_complete_response(r#"{"choices":[{"message":{"content":"c"}}]}"#, BackendType::OpenAICompatible),
        Some("c".to_string())
    );
    assert_eq!(parse_complete_response("junk", BackendType::Ollama), None);
}

#[test]
fn openai_choice_without_known_fields_yields_nothing() {
    assert_eq!(parse_openai_compatible_response(&doc(r#"{"choices":[{"foo":1}]}"#)), None);
}

#[test]
fn model_list_tolerates_non_array_models_field() {
    assert_eq!(
        parse_model_list_response(r#"{"models":"not-an-array"}"#, BackendType::Ollama).unwrap_err(),
        "No models found in server response."
    );
    assert_eq!(
        parse_model_list_response(r#"{"data":{"nested":true}}"#, BackendType::OpenAICompatible)
            .unwrap_err(),
        "No models found in server response."
    );
}

#[test]
fn openai_delta_takes_precedence_over_message_and_text() {
    let both = doc(r#"{"choices":[{"delta":{"content":"d"},"message":{"content":"m"},"text":"t"}]}"#);
    assert_eq!(parse_openai_compatible_response(&both), Some("d".to_string()));
    let later = doc(r#"{"choices":[{"foo":1},{"text":"second"}]}"#);
    assert_eq!(parse_openai_compatible_response(&later), None);
}

#[test]
fn payloads_are_assembled_from_quoted_texts() {
    assert_eq!(
        ollama_payload_from_literals("\"ctx\"", "", "\"\"", "", "\"\"", 0, None),
        r#"{"prompt":"ctx","stream":true}"#
    );
    assert_eq!(
        openai_payload_from_literals("\"c\"", "m", "\"m\"", "s", "\"s\"", 7, Some("1")),
        r#"{"max_tokens":7,"messages":[{"content":"s","role":"system"},{"content":"c","role":"user"}],"model":"m","stream":true,"temperature":1}"#
    );
}

#[test]
fn documents_read_by_the_library_match_the_text_forms() {
    let body = r#"{"models":[{"name":"x"}]}"#;
    assert_eq!(
        model_list_from_document(&parsed(body), BackendType::Ollama),
        parse_model_list_response(body, BackendType::Ollama)
    );
    assert_eq!(
        model_list_from_document(&Err("bad".to_string()), BackendType::Ollama),
        Err("Invalid JSON: bad".to_string())
    );
    let doc = parsed(r#"{"response":"r"}"#).ok();
    assert_eq!(complete_response_from_document(doc.as_ref(), BackendType::Ollama), Some("r".to_string()));
    assert_eq!(complete_response_from_document(None, BackendType::Ollama), None);
}

#[test]
fn payload_strings_are_escaped_as_json() {
    let body = build_ollama_payload("say \"hi\"\\\n\t\u{1}\u{8}\u{c}\r\u{1f}é\u{7f}", "", "", 0, None);
    assert_eq!(
        body,
        "{\"prompt\":\"say \\\"hi\\\"\\\\\\n\\t\\u0001\\b\\f\\r\\u001fé\u{7f}\",\"stream\":true}"
    );
}

#[test]
fn request_bodies_print_as_serde_prints_them() {
    let bodies = vec![
        build_ollama_payload("ctx \"q\"\n", "llama", "Be brief.\t", 256, Some(number_text(0.7).as_str())),
        build_ollama_payload("ctx", "", "", 0, None),
        build_openai_compatible_payload("ctx\\", "gpt", "sys\u{2}", 64, Some(number_text(1.5).as_str())),
        build_openai_compatible_payload("ctx", "", " ", 0, None),
    ];
    for body in bodies {
        let value: Value = serde_json::from_str(&body).unwrap();
        assert_eq!(value.to_string(), body);
    }
}
