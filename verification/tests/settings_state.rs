use geany_copilot::backend::{BackendPreset, BackendType, InsertMode, DEFAULT_OLLAMA_URI};
use geany_copilot::config::make_default_preset;
use geany_copilot::globals::{init_global_state, with_global_state, GlobalState};
use geany_copilot::settings::{
    add_preset, can_delete_preset, custom_max_tokens, delete_preset, edited_system_prompt,
    is_max_token_step, max_token_choice_index, max_token_choices, max_token_label, max_token_labels,
    sync_preset_from_form, PresetForm, CUSTOM_MAX_TOKENS_VALUE, FORM_DEFAULT_MAX_TOKENS_LABEL,
    STATUSBAR_DEFAULT_MAX_TOKENS_LABEL,
};
use geany_copilot::text::parse_i32;

fn named(name: &str, model: &str) -> BackendPreset {
    let mut p = make_default_preset();
    p.name = name.to_string();
    p.model = model.to_string();
    p
}

#[test]
fn global_state_initializes_once_and_keeps_mutations() {
    let mut slot: Option<GlobalState> = None;
    let previous = with_global_state(&mut slot, |state| state.model_name.clone());
    with_global_state(&mut slot, |state| state.model_name = "coverage-model".to_string());
    init_global_state(&mut slot); // must not reset already-initialized state
    assert_eq!(with_global_state(&mut slot, |state| state.model_name.clone()), "coverage-model");
    with_global_state(&mut slot, |state| state.model_name = previous);
}

#[test]
fn global_state_starts_with_the_local_server() {
    let mut slot: Option<GlobalState> = None;
    init_global_state(&mut slot);
    let state = slot.unwrap();
    assert!(state.presets.is_empty());
    assert_eq!(state.backend_type, BackendType::Ollama);
    assert_eq!(state.upstream_uri, DEFAULT_OLLAMA_URI);
    assert!(state.model_name.is_empty());
    assert!(state.include_language_hint);
    assert_eq!(state.insert_mode, InsertMode::Cursor);
}

#[test]
fn preset_switching_wraps_and_applies_the_preset() {
    let mut state = GlobalState::initial();
    // empty preset list: switching changes nothing
    assert_eq!(state.switch_to_next_preset(0), None);
    assert_eq!(state.model_name, "");

    state.presets = vec![make_default_preset(), named("Second", "m2")];
    assert_eq!(state.switch_to_next_preset(0), Some(1));
    assert_eq!(state.model_name, "m2");
    assert_eq!(state.switch_to_next_preset(1), Some(0));
    assert_eq!(state.model_name, "");
    // a position past the end still lands on a preset
    assert_eq!(state.switch_to_next_preset(99), Some(0));
}

#[test]
fn selecting_and_replacing_presets_applies_the_active_one() {
    let mut state = GlobalState::initial();
    state.presets = vec![named("A", "ma"), named("B", "mb")];
    assert!(state.select_preset(1));
    assert_eq!(state.model_name, "mb");
    assert!(!state.select_preset(2));
    assert_eq!(state.model_name, "mb");

    let mut edited = named("C", "mc");
    edited.backend_type = BackendType::OpenAICompatible;
    edited.insert_mode = InsertMode::ReplaceSelection;
    edited.api_key = "k".to_string();
    state.replace_presets(vec![edited], 0);
    assert_eq!(state.presets.len(), 1);
    assert_eq!(state.model_name, "mc");
    assert_eq!(state.backend_type, BackendType::OpenAICompatible);
    assert_eq!(state.insert_mode, InsertMode::ReplaceSelection);
    assert_eq!(state.api_key, "k");

    state.replace_presets(vec![named("D", "md"), named("E", "me")], 5);
    assert_eq!(state.presets.len(), 2);
    assert_eq!(state.model_name, "mc");
}

#[test]
fn max_token_choices_list_the_current_limit() {
    let steps = max_token_choices(0);
    assert_eq!(
        steps,
        vec![0, 128, 256, 512, 1024, 2048, 4096, 8192, 16384, 32768, 65536, 131072, 262144, CUSTOM_MAX_TOKENS_VALUE]
    );
    assert_eq!(max_token_choices(512), steps);
    let custom = max_token_choices(1000);
    assert_eq!(custom.len(), 15);
    assert_eq!(custom[13], 1000);
    assert_eq!(custom[14], CUSTOM_MAX_TOKENS_VALUE);
    assert_eq!(max_token_choice_index(&custom, 1000), 13);
    assert_eq!(max_token_choice_index(&steps, 512), 3);
    assert_eq!(max_token_choice_index(&steps, 0), 0);
    assert_eq!(max_token_choice_index(&steps, 77), 13);
    assert!(is_max_token_step(262144));
    assert!(!is_max_token_step(1000));
}

#[test]
fn max_token_labels_name_each_choice() {
    assert_eq!(max_token_label(0, STATUSBAR_DEFAULT_MAX_TOKENS_LABEL), "Default");
    assert_eq!(max_token_label(0, FORM_DEFAULT_MAX_TOKENS_LABEL), "Server default");
    assert_eq!(max_token_label(CUSTOM_MAX_TOKENS_VALUE, "Default"), "Custom…");
    assert_eq!(max_token_label(1000, "Default"), "Custom: 1000");
    assert_eq!(max_token_label(4096, "Default"), "4096");
    assert_eq!(max_token_label(-7, "Default"), "Custom: -7");
    let labels = max_token_labels(&max_token_choices(300), "Default");
    assert_eq!(labels[0], "Default");
    assert_eq!(labels[1], "128");
    assert_eq!(labels[13], "Custom: 300");
    assert_eq!(labels[14], "Custom…");
}

#[test]
fn custom_limits_are_read_like_numbers_and_never_negative() {
    assert_eq!(custom_max_tokens(true, Some(" 2048 "), 5), 2048);
    assert_eq!(custom_max_tokens(true, Some("-3"), 5), 0);
    assert_eq!(custom_max_tokens(true, Some("abc"), 5), 0);
    assert_eq!(custom_max_tokens(true, Some("99999999999"), 5), 0);
    assert_eq!(custom_max_tokens(true, None, 5), 0);
    assert_eq!(custom_max_tokens(false, Some("100"), 5), 5);
    assert_eq!(custom_max_tokens(false, Some("100"), -5), 0);
}

#[test]
fn numbers_are_parsed_as_rust_parses_them() {
    for text in ["0", "+7", "-7", "2147483647", "-2147483648", "2147483648", "-2147483649", "", "-", "+", "1 ", " 1", "1_0", "١", "00012", "-0"] {
        assert_eq!(parse_i32(text), text.parse::<i32>().ok(), "{:?}", text);
    }
}

#[test]
fn the_form_is_stored_into_the_active_preset() {
    let mut presets = vec![named("A", "ma"), named("B", "mb")];
    presets[1].system_prompt = "keep me".to_string();
    let form = PresetForm {
        name: "   ".to_string(),
        uri: " http://h ".to_string(),
        model: " m ".to_string(),
        api_key: " key ".to_string(),
        temperature: " 0.5 ".to_string(),
        openai_compatible: true,
        include_language_hint: false,
        insert_mode_index: 2,
    };
    sync_preset_from_form(&mut presets, 1, &form);
    let p = &presets[1];
    assert_eq!(p.name, "Preset 2");
    assert_eq!(p.uri, "http://h");
    assert_eq!(p.model, "m");
    assert_eq!(p.api_key, "key");
    assert_eq!(p.temperature, "0.5");
    assert_eq!(p.system_prompt, "keep me");
    assert_eq!(p.backend_type, BackendType::OpenAICompatible);
    assert!(!p.include_language_hint);
    assert_eq!(p.insert_mode, InsertMode::AppendAfterSelection);
    assert_eq!(presets[0].name, "A");

    sync_preset_from_form(&mut presets, 5, &form);
    assert_eq!(presets.len(), 2);
}

#[test]
fn presets_are_added_and_deleted_keeping_one() {
    let mut presets = vec![named("A", "")];
    assert!(!can_delete_preset(presets.len()));
    assert_eq!(delete_preset(&mut presets, 0), None);
    assert_eq!(presets.len(), 1);

    assert_eq!(add_preset(&mut presets, "  "), 1);
    assert_eq!(presets[1].name, "Preset 2");
    assert_eq!(presets[1].backend_type, BackendType::Ollama);
    assert!(presets[1].uri.is_empty());
    assert_eq!(add_preset(&mut presets, " Remote "), 2);
    assert_eq!(presets[2].name, "Remote");
    assert!(can_delete_preset(presets.len()));

    assert_eq!(delete_preset(&mut presets, 2), Some(1));
    assert_eq!(presets.len(), 2);
    assert_eq!(delete_preset(&mut presets, 0), Some(0));
    assert_eq!(presets[0].name, "Preset 2");
    assert_eq!(delete_preset(&mut presets, 9), None);
}

#[test]
fn blank_system_prompts_are_dropped() {
    assert_eq!(edited_system_prompt(" \n\t "), "");
    assert_eq!(edited_system_prompt("  Be brief. "), "  Be brief. ");
}

#[test]
fn preset_sync_and_apply_ignore_out_of_range_indices() {
    let mut presets: Vec<BackendPreset> = Vec::new();
    let form = PresetForm {
        name: "x".to_string(),
        uri: String::new(),
        model: String::new(),
        api_key: String::new(),
        temperature: String::new(),
        openai_compatible: false,
        include_language_hint: true,
        insert_mode_index: 0,
    };
    // empty preset list: storing the form changes nothing
    sync_preset_from_form(&mut presets, 0, &form);
    assert!(presets.is_empty());
    let mut state = GlobalState::initial();
    assert!(!state.select_preset(5));
    assert_eq!(state.upstream_uri, DEFAULT_OLLAMA_URI);
}
