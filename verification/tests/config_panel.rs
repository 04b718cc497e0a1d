use geany_copilot::backend::{BackendType, InsertMode};
use geany_copilot::config::{
    config_entries, load_config_from, make_default_preset, preset_group_name, resolve_stored_preset,
    stored_preset_count, ConfigEntry, ConfigValue, StoredPreset, StoredSettings,
};
use geany_copilot::panel::{
    bounded_divider_share, cancelling_status, error_log_entry, keybinding_action, model_label, model_list_error_details,
    model_list_fetch_error, panel_controls, panel_plan, paned_position, payload_log_entry, records_divider_share,
    thinking_log_header, unpack_bgr, KeyAction,
};

fn find<'a>(entries: &'a [ConfigEntry], group: &str, key: &str) -> Option<&'a ConfigValue> {
    entries.iter().rev().find(|e| e.group == group && e.key == key).map(|e| &e.value)
}

fn stored_int(entries: &[ConfigEntry], group: &str, key: &str) -> Option<i32> {
    match find(entries, group, key) {
        Some(ConfigValue::Int(n)) => Some(*n),
        _ => None,
    }
}

fn stored_text(entries: &[ConfigEntry], group: &str, key: &str) -> Option<String> {
    match find(entries, group, key) {
        Some(ConfigValue::Text(t)) => Some(t.clone()),
        _ => None,
    }
}

fn read_back(entries: &[ConfigEntry]) -> (StoredSettings, Vec<StoredPreset>) {
    let settings = StoredSettings {
        active_preset: stored_int(entries, "settings", "active_preset"),
        curl_timeout: stored_int(entries, "settings", "curl_timeout"),
        max_tokens: stored_int(entries, "settings", "max_tokens"),
        thinking_log_enabled: stored_int(entries, "settings", "thinking_log_enabled"),
        preset_count: stored_int(entries, "settings", "preset_count"),
    };
    let presets = (0..stored_preset_count(&settings))
        .map(|i| {
            let g = preset_group_name(i);
            StoredPreset {
                name: stored_text(entries, &g, "name"),
                backend_type: stored_text(entries, &g, "type"),
                uri: stored_text(entries, &g, "uri"),
                model: stored_text(entries, &g, "model"),
                system_prompt: stored_text(entries, &g, "system_prompt"),
                api_key: stored_text(entries, &g, "api_key"),
                temperature: stored_text(entries, &g, "temperature"),
                include_language_hint: stored_int(entries, &g, "include_language_hint"),
                insert_mode: stored_text(entries, &g, "insert_mode"),
            }
        })
        .collect();
    (settings, presets)
}

fn empty_stored() -> StoredPreset {
    StoredPreset {
        name: None,
        backend_type: None,
        uri: None,
        model: None,
        system_prompt: None,
        api_key: None,
        temperature: None,
        include_language_hint: None,
        insert_mode: None,
    }
}

#[test]
fn saved_settings_load_back_unchanged() {
    let mut remote = make_default_preset();
    remote.name = "Remote".to_string();
    remote.backend_type = BackendType::OpenAICompatible;
    remote.uri = "https://api.example/v1".to_string();
    remote.model = "gpt".to_string();
    remote.system_prompt = "Be brief.\nReally.".to_string();
    remote.api_key = "SECRET-REDACTED".to_string();
    remote.temperature = "0.2".to_string();
    remote.include_language_hint = false;
    remote.insert_mode = InsertMode::AppendAfterSelection;
    let presets = vec![make_default_preset(), remote];

    let entries = config_entries(1, 4, 2048, 0, &presets);
    assert_eq!(stored_int(&entries, "settings", "curl_timeout"), Some(300));
    assert_eq!(stored_text(&entries, "preset1", "type"), Some("openai-compatible".to_string()));
    assert_eq!(stored_text(&entries, "preset1", "insert_mode"), Some("append-after-selection".to_string()));
    assert_eq!(stored_int(&entries, "preset1", "include_language_hint"), Some(0));

    let (settings, stored) = read_back(&entries);
    let loaded = load_config_from(true, &settings, &stored);
    assert_eq!(loaded.active_preset_index, 1);
    assert_eq!(loaded.curl_timeout_index, 4);
    assert_eq!(loaded.max_tokens, 2048);
    assert!(!loaded.thinking_log_enabled);
    assert_eq!(loaded.presets.len(), 2);
    for (a, b) in loaded.presets.iter().zip(presets.iter()) {
        assert_eq!(a.name, b.name);
        assert_eq!(a.backend_type, b.backend_type);
        assert_eq!(a.uri, b.uri);
        assert_eq!(a.model, b.model);
        assert_eq!(a.system_prompt, b.system_prompt);
        assert_eq!(a.api_key, b.api_key);
        assert_eq!(a.temperature, b.temperature);
        assert_eq!(a.include_language_hint, b.include_language_hint);
        assert_eq!(a.insert_mode, b.insert_mode);
    }
}

#[test]
fn saved_values_are_normalized() {
    let entries = config_entries(0, 42, -9, 5, &vec![]);
    assert_eq!(stored_int(&entries, "settings", "curl_timeout"), Some(60));
    assert_eq!(stored_int(&entries, "settings", "max_tokens"), Some(0));
    assert_eq!(stored_int(&entries, "settings", "thinking_log_enabled"), Some(1));
    assert_eq!(stored_int(&entries, "settings", "preset_count"), Some(0));
    assert_eq!(entries.len(), 5);
}

#[test]
fn a_missing_file_gives_the_default_preset() {
    let settings = StoredSettings {
        active_preset: Some(3),
        curl_timeout: Some(600),
        max_tokens: Some(5),
        thinking_log_enabled: Some(0),
        preset_count: Some(2),
    };
    let loaded = load_config_from(false, &settings, &vec![]);
    assert_eq!(loaded.presets.len(), 1);
    assert_eq!(loaded.presets[0].name, "Local Ollama");
    assert_eq!(loaded.presets[0].uri, "http://localhost:11434");
    assert_eq!(loaded.active_preset_index, 0);
    assert_eq!(loaded.curl_timeout_index, 1);
    assert_eq!(loaded.max_tokens, 0);
    assert!(loaded.thinking_log_enabled);
}

#[test]
fn missing_keys_take_their_defaults() {
    let settings = StoredSettings {
        active_preset: Some(9),
        curl_timeout: Some(45),
        max_tokens: Some(-4),
        thinking_log_enabled: None,
        preset_count: Some(1),
    };
    assert_eq!(stored_preset_count(&settings), 1);
    let loaded = load_config_from(true, &settings, &vec![empty_stored()]);
    assert_eq!(loaded.presets.len(), 1);
    assert_eq!(loaded.active_preset_index, 0);
    assert_eq!(loaded.curl_timeout_index, 1);
    assert_eq!(loaded.max_tokens, 0);
    assert!(loaded.thinking_log_enabled);
    let p = &loaded.presets[0];
    assert_eq!(p.name, "Preset 1");
    assert_eq!(p.backend_type, BackendType::Ollama);
    assert_eq!(p.uri, "");
    assert!(p.include_language_hint);
    assert_eq!(p.insert_mode, InsertMode::Cursor);

    let mut odd = empty_stored();
    odd.backend_type = Some("mystery".to_string());
    odd.insert_mode = Some("replace-selection".to_string());
    odd.include_language_hint = Some(7);
    let p = resolve_stored_preset(4, &odd);
    assert_eq!(p.name, "Preset 5");
    assert_eq!(p.backend_type, BackendType::Ollama);
    assert_eq!(p.insert_mode, InsertMode::ReplaceSelection);
    assert!(p.include_language_hint);
    assert_eq!(preset_group_name(12), "preset12");
}

#[test]
fn only_the_stored_preset_count_is_read() {
    let mut named = empty_stored();
    named.name = Some("Kept".to_string());
    let mut extra = empty_stored();
    extra.name = Some("Ignored".to_string());
    let mut settings = StoredSettings {
        active_preset: Some(1),
        curl_timeout: None,
        max_tokens: None,
        thinking_log_enabled: None,
        preset_count: Some(-1),
    };
    assert_eq!(stored_preset_count(&settings), 0);
    let loaded = load_config_from(true, &settings, &vec![named, extra]);
    assert_eq!(loaded.presets.len(), 1);
    assert_eq!(loaded.presets[0].name, "Local Ollama");
    assert_eq!(loaded.active_preset_index, 0);

    let mut named = empty_stored();
    named.name = Some("Kept".to_string());
    let mut extra = empty_stored();
    extra.name = Some("Ignored".to_string());
    settings.preset_count = Some(1);
    let loaded = load_config_from(true, &settings, &vec![named, extra]);
    assert_eq!(loaded.presets.len(), 1);
    assert_eq!(loaded.presets[0].name, "Kept");
    assert_eq!(loaded.active_preset_index, 0);

    let mut named = empty_stored();
    named.name = Some("Kept".to_string());
    settings.preset_count = Some(3);
    settings.active_preset = Some(2);
    let loaded = load_config_from(true, &settings, &vec![named]);
    assert_eq!(loaded.presets.len(), 3);
    assert_eq!(loaded.presets[0].name, "Kept");
    assert_eq!(loaded.presets[1].name, "Preset 2");
    assert_eq!(loaded.presets[2].name, "Preset 3");
    assert_eq!(loaded.presets[2].uri, "");
    assert_eq!(loaded.active_preset_index, 2);
}

#[test]
fn scintilla_colors_unpack_as_bgr() {
    assert_eq!(unpack_bgr(0x0000FF), (255, 0, 0));
    assert_eq!(unpack_bgr(0x00FF00), (0, 255, 0));
    assert_eq!(unpack_bgr(0xFF0000), (0, 0, 255));
    assert_eq!(unpack_bgr(0), (0, 0, 0));
    assert_eq!(unpack_bgr(0x123456), (0x56, 0x34, 0x12));
}

#[test]
fn log_entries_name_the_request() {
    assert_eq!(model_label(""), "server default");
    assert_eq!(model_label("m"), "m");
    assert_eq!(thinking_log_header("2024-01-02 03:04:05", ""), "[2024-01-02 03:04:05] Thinking — server default\n");
    assert_eq!(
        payload_log_entry("t", "m", "http://u", "{}", true),
        "[t] Request — m\nPOST http://u\nAuthorization: Bearer [redacted]\n{}\n\n\n"
    );
    assert_eq!(payload_log_entry("t", "m", "http://u", "{}", false), "[t] Request — m\nPOST http://u\n{}\n\n\n");
    assert_eq!(error_log_entry("t", "Error: x", "  \n"), "[t] Error: x\n(no response body)\n\n\n");
    assert_eq!(error_log_entry("t", "Error: x", "body"), "[t] Error: x\nbody\n\n\n");
}

#[test]
fn panel_controls_follow_the_request() {
    let running = panel_controls(true);
    assert!(!running.tool_button && !running.ask && running.stop && running.cancel);
    let idle = panel_controls(false);
    assert!(idle.tool_button && idle.ask && !idle.stop && !idle.cancel);
    assert_eq!(cancelling_status(true), "Stopping — keeping partial response...");
    assert_eq!(cancelling_status(false), "Cancelling Copilot request...");
}

#[test]
fn keybindings_dispatch_by_id() {
    assert_eq!(keybinding_action(0), Some(KeyAction::AskCopilot));
    assert_eq!(keybinding_action(1), Some(KeyAction::SwitchPreset));
    assert_eq!(keybinding_action(99), None);
}

#[test]
fn the_divider_follows_the_width() {
    assert_eq!(paned_position(0, 50, 90), None);
    assert_eq!(paned_position(800, 800, 90), None);
    assert_eq!(paned_position(0, 800, 90), Some(720));
    assert_eq!(paned_position(0, 800, 5), Some(160));
    assert_eq!(paned_position(0, 800, 100), Some(760));
    assert_eq!(paned_position(0, i32::MAX, 95), Some(2040109464));
    assert!(records_divider_share(800, 400));
    assert!(!records_divider_share(100, 50));
    assert!(!records_divider_share(800, 0));
    assert!(!records_divider_share(800, 800));
    assert_eq!(bounded_divider_share(10), 20);
    assert_eq!(bounded_divider_share(20), 20);
    assert_eq!(bounded_divider_share(63), 63);
    assert_eq!(bounded_divider_share(95), 95);
    assert_eq!(bounded_divider_share(100), 95);
    assert_eq!(bounded_divider_share(i32::MIN), 20);
}

#[test]
fn the_panel_is_built_where_asked() {
    let off = panel_plan(false, Some(0), 0);
    assert!(off.remove_existing && !off.build);
    let same = panel_plan(true, Some(1), 1);
    assert!(!same.remove_existing && !same.build);
    let moved = panel_plan(true, Some(0), 1);
    assert!(moved.remove_existing && moved.build);
    let fresh = panel_plan(true, None, 0);
    assert!(!fresh.remove_existing && fresh.build);
}

#[test]
fn model_list_failures_are_explained() {
    assert_eq!(model_list_fetch_error(Some("bad url"), Some("x"), Some(500)), Some("curl setup error: bad url".to_string()));
    assert_eq!(model_list_fetch_error(None, Some("refused"), None), Some("Connection error: refused".to_string()));
    assert_eq!(model_list_fetch_error(None, None, Some(404)), Some("HTTP error 404".to_string()));
    assert_eq!(model_list_fetch_error(None, None, Some(200)), None);
    assert_eq!(model_list_fetch_error(None, None, None), None);
    assert_eq!(
        model_list_error_details("http://h/api/tags", "HTTP error 404", ""),
        "Failed to list models.\n\nURL: http://h/api/tags\nError: HTTP error 404\n\nResponse:\n(empty)"
    );
    assert_eq!(
        model_list_error_details("u", "e", "a\u{0}b"),
        "Failed to list models.\n\nURL: u\nError: e\n\nResponse:\nab"
    );
}
