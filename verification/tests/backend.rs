use geany_copilot::backend::{
    active_curl_timeout_seconds, build_backend_url, build_model_list_url,
    curl_timeout_index_for_seconds, curl_timeout_options, BackendType, InsertMode,
    BACKEND_OLLAMA_ID, BACKEND_OPENAI_COMPATIBLE_ID, CURL_TIMEOUT_OPTION_COUNT,
    DEFAULT_CURL_TIMEOUT_INDEX, DEFAULT_OLLAMA_URI, DEFAULT_OPENAI_COMPATIBLE_URI,
};
use geany_copilot::responses::estimate_token_count;

#[test]
fn endpoint_normalization_matches_try4() {
    assert_eq!(build_backend_url(BackendType::Ollama, ""), "http://localhost:11434/api/generate");
    assert_eq!(build_backend_url(BackendType::Ollama, "http://x/api/generate"), "http://x/api/generate");
    assert_eq!(build_backend_url(BackendType::OpenAICompatible, "http://x"), "http://x/v1/chat/completions");
    assert_eq!(build_backend_url(BackendType::OpenAICompatible, "http://x/v1/"), "http://x/v1/chat/completions");
    assert_eq!(build_model_list_url(BackendType::OpenAICompatible, "http://x/v1"), "http://x/v1/models");
}

#[test]
fn backend_type_ids_labels_and_default_uris() {
    assert_eq!(BackendType::from_id("openai-compatible"), BackendType::OpenAICompatible);
    assert_eq!(BackendType::from_id("ollama"), BackendType::Ollama);
    assert_eq!(BackendType::from_id("anything-else"), BackendType::Ollama);
    assert_eq!(BackendType::Ollama.id(), BACKEND_OLLAMA_ID);
    assert_eq!(BackendType::OpenAICompatible.id(), BACKEND_OPENAI_COMPATIBLE_ID);
    assert_eq!(BackendType::Ollama.label(), "Ollama");
    assert_eq!(BackendType::OpenAICompatible.label(), "OpenAI-compatible");
    assert_eq!(BackendType::Ollama.default_uri(), DEFAULT_OLLAMA_URI);
    assert_eq!(BackendType::OpenAICompatible.default_uri(), DEFAULT_OPENAI_COMPATIBLE_URI);
}

#[test]
fn insert_mode_ids_round_trip_and_default() {
    assert_eq!(InsertMode::default(), InsertMode::Cursor);
    for mode in [InsertMode::Cursor, InsertMode::ReplaceSelection, InsertMode::AppendAfterSelection] {
        assert_eq!(InsertMode::from_id(mode.id()), mode);
    }
    assert_eq!(InsertMode::from_id("bogus"), InsertMode::Cursor);
}

#[test]
fn timeout_helpers_clamp_and_look_up() {
    assert_eq!(active_curl_timeout_seconds(0), 30);
    assert_eq!(active_curl_timeout_seconds(6), 600);
    assert_eq!(active_curl_timeout_seconds(999), 60);
    assert_eq!(curl_timeout_index_for_seconds(300), 4);
    assert_eq!(curl_timeout_index_for_seconds(31), DEFAULT_CURL_TIMEOUT_INDEX);
}

#[test]
fn url_builders_cover_all_suffix_forms() {
    assert_eq!(build_backend_url(BackendType::Ollama, "http://h:1/"), "http://h:1/api/generate");
    assert_eq!(
        build_backend_url(BackendType::OpenAICompatible, "http://h/v1/chat/completions"),
        "http://h/v1/chat/completions"
    );
    assert_eq!(
        build_backend_url(BackendType::OpenAICompatible, ""),
        "http://localhost:11434/v1/chat/completions"
    );
    assert_eq!(build_model_list_url(BackendType::Ollama, ""), "http://localhost:11434/api/tags");
    assert_eq!(build_model_list_url(BackendType::Ollama, "http://h/api/tags"), "http://h/api/tags");
    assert_eq!(build_model_list_url(BackendType::Ollama, "http://h/api/generate"), "http://h/api/tags");
    assert_eq!(
        build_model_list_url(BackendType::OpenAICompatible, "http://h/v1/models"),
        "http://h/v1/models"
    );
    assert_eq!(
        build_model_list_url(BackendType::OpenAICompatible, "http://h/v1/chat/completions"),
        "http://h/v1/models"
    );
    assert_eq!(build_model_list_url(BackendType::OpenAICompatible, "http://h"), "http://h/v1/models");
}

#[test]
fn token_estimate_rounds_up_and_handles_empty() {
    assert_eq!(estimate_token_count(""), 0);
    assert_eq!(estimate_token_count("a"), 1);
    assert_eq!(estimate_token_count("abcd"), 1);
    assert_eq!(estimate_token_count("abcde"), 2);
}

#[test]
fn token_estimate_counts_utf8_bytes() {
    // "é" is two bytes, "€" three: four bytes make one token, five make two.
    assert_eq!(estimate_token_count("éé"), 1);
    assert_eq!(estimate_token_count("€€"), 2);
}

#[test]
fn urls_are_trimmed_and_keep_their_form_when_built_again() {
    assert_eq!(build_backend_url(BackendType::Ollama, "  http://h:1//  "), "http://h:1/api/generate");
    assert_eq!(build_backend_url(BackendType::Ollama, " \t "), "http://localhost:11434/api/generate");
    for backend in [BackendType::Ollama, BackendType::OpenAICompatible] {
        for uri in ["", "http://h", "http://h/v1", "http://h/v1/", "http://h/api/generate", " http://h/x// "] {
            let once = build_backend_url(backend, uri);
            assert_eq!(build_backend_url(backend, &once), once);
            let list = build_model_list_url(backend, uri);
            assert_eq!(build_model_list_url(backend, &list), list);
        }
    }
}

#[test]
fn timeout_choices_are_listed_in_order_and_found_again() {
    let options = curl_timeout_options();
    assert_eq!(options.len(), CURL_TIMEOUT_OPTION_COUNT);
    let seconds: Vec<i64> = options.iter().map(|o| o.seconds).collect();
    assert_eq!(seconds, vec![30, 60, 120, 180, 300, 420, 600]);
    assert_eq!(options[0].label, "30s");
    assert_eq!(options[6].label, "10 min");
    for (i, option) in options.iter().enumerate() {
        assert_eq!(curl_timeout_index_for_seconds(option.seconds), i);
        assert_eq!(active_curl_timeout_seconds(i), option.seconds);
    }
}

#[test]
fn insert_mode_list_positions_round_trip() {
    for mode in [InsertMode::Cursor, InsertMode::ReplaceSelection, InsertMode::AppendAfterSelection] {
        assert_eq!(InsertMode::from_combo_index(mode.combo_index()), mode);
    }
    assert_eq!(InsertMode::from_combo_index(-1), InsertMode::Cursor);
    assert_eq!(InsertMode::from_combo_index(7), InsertMode::Cursor);
}

#[test]
fn token_estimates_grow_with_the_text_and_add_up() {
    let parts = ["", "a", "abcd", "abcde", "é€", "0123456789"];
    for x in parts {
        assert_eq!(estimate_token_count(x) == 0, x.is_empty());
        for y in parts {
            let joined = format!("{}{}", x, y);
            assert!(estimate_token_count(&joined) <= estimate_token_count(x) + estimate_token_count(y));
            if x.len() <= y.len() {
                assert!(estimate_token_count(x) <= estimate_token_count(y));
            }
        }
    }
}
