//! The settings file: what is written for the current settings, and the
//! settings made from what is read back.
//!
//! The file is a key file of groups and keys.  Writing produces the list of
//! entries to set; reading hands in, for each key, the value found (nothing
//! when the key is missing or, for a number, not a number).
use vstd::prelude::*;

use crate::backend::{
    active_curl_timeout_seconds, active_timeout_seconds_spec, backend_from_id_spec,
    curl_timeout_index_for_seconds, insert_mode_from_id_spec, lemma_timeout_seconds_distinct,
    presets_view, timeout_seconds_at,
    BackendPreset, BackendType, InsertMode, PresetView, BACKEND_OLLAMA_ID,
    CURL_TIMEOUT_OPTION_COUNT, DEFAULT_CURL_TIMEOUT_INDEX, DEFAULT_OLLAMA_URI,
    INSERT_MODE_CURSOR_ID,
};
use crate::text::{concat2, decimal, decimal_string, lemma_decimal_injective, owned};

verus! {

pub const CONFIG_DIR_NAME: &'static str = "geany-copilot";

pub const CONFIG_FILE_NAME: &'static str = "geany-copilot.conf";

pub const CONFIG_GROUP_SETTINGS: &'static str = "settings";

pub const CONFIG_GROUP_PRESET_PREFIX: &'static str = "preset";

pub const KEY_ACTIVE_PRESET: &'static str = "active_preset";

pub const KEY_CURL_TIMEOUT: &'static str = "curl_timeout";

pub const KEY_MAX_TOKENS: &'static str = "max_tokens";

pub const KEY_THINKING_LOG_ENABLED: &'static str = "thinking_log_enabled";

pub const KEY_PRESET_COUNT: &'static str = "preset_count";

pub const KEY_NAME: &'static str = "name";

pub const KEY_TYPE: &'static str = "type";

pub const KEY_URI: &'static str = "uri";

pub const KEY_MODEL: &'static str = "model";

pub const KEY_SYSTEM_PROMPT: &'static str = "system_prompt";

pub const KEY_API_KEY: &'static str = "api_key";

pub const KEY_TEMPERATURE: &'static str = "temperature";

pub const KEY_INCLUDE_LANGUAGE_HINT: &'static str = "include_language_hint";

pub const KEY_INSERT_MODE: &'static str = "insert_mode";

/// The preset used when the file holds none: the local Ollama server.
pub open spec fn default_preset_spec() -> PresetView {
    PresetView {
        name: "Local Ollama"@,
        backend_type: BackendType::Ollama,
        uri: DEFAULT_OLLAMA_URI@,
        model: Seq::empty(),
        system_prompt: Seq::empty(),
        api_key: Seq::empty(),
        temperature: Seq::empty(),
        include_language_hint: true,
        insert_mode: InsertMode::Cursor,
    }
}

/// The preset used when the file holds none.
pub fn make_default_preset() -> (r: BackendPreset)
    ensures
        r@ == default_preset_spec(),
{
    BackendPreset {
        name: owned("Local Ollama"),
        backend_type: BackendType::Ollama,
        uri: owned(DEFAULT_OLLAMA_URI),
        model: String::new(),
        system_prompt: String::new(),
        api_key: String::new(),
        temperature: String::new(),
        include_language_hint: true,
        insert_mode: InsertMode::Cursor,
    }
}

/// The group of the preset at `index`: `preset0`, `preset1`, ...
pub open spec fn preset_group_spec(index: nat) -> Seq<char> {
    CONFIG_GROUP_PRESET_PREFIX@ + decimal(index)
}

/// The group of the preset at `index`.
pub fn preset_group_name(index: usize) -> (r: String)
    ensures
        r@ == preset_group_spec(index as nat),
{
    concat2(CONFIG_GROUP_PRESET_PREFIX, decimal_string(index as u64).as_str())
}

/// The name a preset gets when the file names none: `Preset 1`, ...
pub open spec fn fallback_preset_name(index: nat) -> Seq<char> {
    "Preset "@ + decimal(index + 1)
}

/// The name a preset at `index` gets when none is given.
pub fn default_preset_name(index: usize) -> (r: String)
    requires
        index < usize::MAX,
    ensures
        r@ == fallback_preset_name(index as nat),
{
    concat2("Preset ", decimal_string((index + 1) as u64).as_str())
}

/// A value to store under a key.
pub enum ConfigValue {
    Int(i32),
    Text(String),
}

/// One key to set in a group.
pub struct ConfigEntry {
    pub group: String,
    pub key: String,
    pub value: ConfigValue,
}

/// A stored value, by contents.
pub enum StoredValue {
    Int(i32),
    Text(Seq<char>),
}

pub open spec fn value_view(v: ConfigValue) -> StoredValue {
    match v {
        ConfigValue::Int(n) => StoredValue::Int(n),
        ConfigValue::Text(s) => StoredValue::Text(s@),
    }
}

/// An entry, by contents: group, key, value.
pub open spec fn entry_view(e: ConfigEntry) -> (Seq<char>, Seq<char>, StoredValue) {
    (e.group@, e.key@, value_view(e.value))
}

pub open spec fn entries_view(v: Seq<ConfigEntry>) -> Seq<(Seq<char>, Seq<char>, StoredValue)> {
    v.map_values(|e: ConfigEntry| entry_view(e))
}

/// The entries of the settings group.
pub open spec fn settings_entries_spec(
    active_preset_index: i32,
    curl_timeout_index: i32,
    max_tokens: i32,
    thinking_log_enabled: i32,
    preset_count: nat,
) -> Seq<(Seq<char>, Seq<char>, StoredValue)> {
    let g = CONFIG_GROUP_SETTINGS@;
    seq![
        (g, KEY_ACTIVE_PRESET@, StoredValue::Int(active_preset_index)),
        (g, KEY_CURL_TIMEOUT@, StoredValue::Int(active_timeout_seconds_spec(curl_timeout_index as int) as i32)),
        (g, KEY_MAX_TOKENS@, StoredValue::Int(if max_tokens < 0 { 0 } else { max_tokens })),
        (g, KEY_THINKING_LOG_ENABLED@, StoredValue::Int(if thinking_log_enabled != 0 { 1 } else { 0 })),
        (g, KEY_PRESET_COUNT@, StoredValue::Int(preset_count as i32)),
    ]
}

/// The entries of the preset at `index`.
pub open spec fn preset_entries_spec(index: nat, p: PresetView) -> Seq<
    (Seq<char>, Seq<char>, StoredValue),
> {
    let g = preset_group_spec(index);
    seq![
        (g, KEY_NAME@, StoredValue::Text(p.name)),
        (g, KEY_TYPE@, StoredValue::Text(p.backend_type.id_spec())),
        (g, KEY_URI@, StoredValue::Text(p.uri)),
        (g, KEY_MODEL@, StoredValue::Text(p.model)),
        (g, KEY_SYSTEM_PROMPT@, StoredValue::Text(p.system_prompt)),
        (g, KEY_API_KEY@, StoredValue::Text(p.api_key)),
        (g, KEY_TEMPERATURE@, StoredValue::Text(p.temperature)),
        (g, KEY_INCLUDE_LANGUAGE_HINT@, StoredValue::Int(if p.include_language_hint { 1 } else { 0 })),
        (g, KEY_INSERT_MODE@, StoredValue::Text(p.insert_mode.id_spec())),
    ]
}

/// The entries of the presets from `index` on.
pub open spec fn presets_entries_spec(presets: Seq<PresetView>) -> Seq<
    (Seq<char>, Seq<char>, StoredValue),
>
    decreases presets.len(),
{
    if presets.len() == 0 {
        Seq::empty()
    } else {
        presets_entries_spec(presets.drop_last()) + preset_entries_spec(
            (presets.len() - 1) as nat,
            presets.last(),
        )
    }
}

/// Everything written to the file: the settings group, then one group per
/// preset, in order.
pub open spec fn config_entries_spec(
    active_preset_index: i32,
    curl_timeout_index: i32,
    max_tokens: i32,
    thinking_log_enabled: i32,
    presets: Seq<PresetView>,
) -> Seq<(Seq<char>, Seq<char>, StoredValue)> {
    settings_entries_spec(
        active_preset_index,
        curl_timeout_index,
        max_tokens,
        thinking_log_enabled,
        presets.len(),
    ) + presets_entries_spec(presets)
}

fn entry(group: &str, key: &str, value: ConfigValue) -> (r: ConfigEntry)
    ensures
        r.group@ == group@,
        r.key@ == key@,
        r.value == value,
{
    ConfigEntry { group: owned(group), key: owned(key), value }
}

fn text_value(s: &str) -> (r: ConfigValue)
    ensures
        value_view(r) == StoredValue::Text(s@),
{
    ConfigValue::Text(owned(s))
}

/// Adds the entries of the preset at `index`.
fn push_preset_entries(out: &mut Vec<ConfigEntry>, index: usize, p: &BackendPreset)
    ensures
        entries_view(final(out)@) == entries_view(old(out)@) + preset_entries_spec(
            index as nat,
            p@,
        ),
{
    let ghost start = entries_view(out@);
    let g = preset_group_name(index);
    let gs = g.as_str();
    out.push(entry(gs, KEY_NAME, text_value(p.name.as_str())));
    out.push(entry(gs, KEY_TYPE, text_value(p.backend_type.id())));
    out.push(entry(gs, KEY_URI, text_value(p.uri.as_str())));
    out.push(entry(gs, KEY_MODEL, text_value(p.model.as_str())));
    out.push(entry(gs, KEY_SYSTEM_PROMPT, text_value(p.system_prompt.as_str())));
    out.push(entry(gs, KEY_API_KEY, text_value(p.api_key.as_str())));
    out.push(entry(gs, KEY_TEMPERATURE, text_value(p.temperature.as_str())));
    out.push(
        entry(
            gs,
            KEY_INCLUDE_LANGUAGE_HINT,
            ConfigValue::Int(
                if p.include_language_hint {
                    1
                } else {
                    0
                },
            ),
        ),
    );
    out.push(entry(gs, KEY_INSERT_MODE, text_value(p.insert_mode.id())));
    assert(entries_view(out@) =~= start + preset_entries_spec(index as nat, p@));
}

/// The entries to write for the current settings: the active preset, the
/// selected timeout in seconds, the token limit (at least zero), whether the
/// thinking log is on, the preset count, and every field of every preset
/// (ids for the backend and insert mode, 1 or 0 for the language hint).
pub fn config_entries(
    active_preset_index: i32,
    curl_timeout_index: i32,
    max_tokens: i32,
    thinking_log_enabled: i32,
    presets: &Vec<BackendPreset>,
) -> (r: Vec<ConfigEntry>)
    ensures
        entries_view(r@) == config_entries_spec(
            active_preset_index,
            curl_timeout_index,
            max_tokens,
            thinking_log_enabled,
            presets_view(presets@),
        ),
{
    let g = CONFIG_GROUP_SETTINGS;
    let timeout_seconds = if curl_timeout_index < 0 {
        active_curl_timeout_seconds(CURL_TIMEOUT_OPTION_COUNT)
    } else {
        active_curl_timeout_seconds(curl_timeout_index as usize)
    };
    let mut out: Vec<ConfigEntry> = Vec::new();
    out.push(entry(g, KEY_ACTIVE_PRESET, ConfigValue::Int(active_preset_index)));
    out.push(entry(g, KEY_CURL_TIMEOUT, ConfigValue::Int(timeout_seconds as i32)));
    out.push(
        entry(
            g,
            KEY_MAX_TOKENS,
            ConfigValue::Int(
                if max_tokens < 0 {
                    0
                } else {
                    max_tokens
                },
            ),
        ),
    );
    out.push(
        entry(
            g,
            KEY_THINKING_LOG_ENABLED,
            ConfigValue::Int(
                if thinking_log_enabled != 0 {
                    1
                } else {
                    0
                },
            ),
        ),
    );
    out.push(entry(g, KEY_PRESET_COUNT, ConfigValue::Int(presets.len() as i32)));
    let ghost pv = presets_view(presets@);
    assert(entries_view(out@) =~= settings_entries_spec(
        active_preset_index,
        curl_timeout_index,
        max_tokens,
        thinking_log_enabled,
        presets@.len(),
    ));
    let ghost settings = entries_view(out@);
    let mut i: usize = 0;
    while i < presets.len()
        invariant
            0 <= i <= presets.len(),
            pv == presets_view(presets@),
            entries_view(out@) == settings + presets_entries_spec(pv.subrange(0, i as int)),
        decreases presets.len() - i,
    {
        let ghost prev = pv.subrange(0, i as int);
        let ghost next = pv.subrange(0, i + 1);
        assert(next.drop_last() =~= prev);
        assert(next.last() == presets@[i as int]@);
        push_preset_entries(&mut out, i, &presets[i]);
        assert(entries_view(out@) =~= settings + presets_entries_spec(next));
        i += 1;
    }
    assert(pv.subrange(0, presets.len() as int) =~= pv);
    out
}

/// The settings values read back (nothing for a missing key).
pub struct StoredSettings {
    pub active_preset: Option<i32>,
    pub curl_timeout: Option<i32>,
    pub max_tokens: Option<i32>,
    pub thinking_log_enabled: Option<i32>,
    pub preset_count: Option<i32>,
}

/// The values of one preset group read back (nothing for a missing key).
pub struct StoredPreset {
    pub name: Option<String>,
    pub backend_type: Option<String>,
    pub uri: Option<String>,
    pub model: Option<String>,
    pub system_prompt: Option<String>,
    pub api_key: Option<String>,
    pub temperature: Option<String>,
    pub include_language_hint: Option<i32>,
    pub insert_mode: Option<String>,
}

/// The contents of a read-back preset group.
pub struct StoredPresetView {
    pub name: Option<Seq<char>>,
    pub backend_type: Option<Seq<char>>,
    pub uri: Option<Seq<char>>,
    pub model: Option<Seq<char>>,
    pub system_prompt: Option<Seq<char>>,
    pub api_key: Option<Seq<char>>,
    pub temperature: Option<Seq<char>>,
    pub include_language_hint: Option<i32>,
    pub insert_mode: Option<Seq<char>>,
}

pub open spec fn opt_text(o: Option<String>) -> Option<Seq<char>> {
    match o {
        Some(s) => Some(s@),
        None => None,
    }
}

pub open spec fn stored_preset_view(p: StoredPreset) -> StoredPresetView {
    StoredPresetView {
        name: opt_text(p.name),
        backend_type: opt_text(p.backend_type),
        uri: opt_text(p.uri),
        model: opt_text(p.model),
        system_prompt: opt_text(p.system_prompt),
        api_key: opt_text(p.api_key),
        temperature: opt_text(p.temperature),
        include_language_hint: p.include_language_hint,
        insert_mode: opt_text(p.insert_mode),
    }
}

pub open spec fn stored_presets_view(v: Seq<StoredPreset>) -> Seq<StoredPresetView> {
    v.map_values(|p: StoredPreset| stored_preset_view(p))
}

pub open spec fn text_or(o: Option<Seq<char>>, fallback: Seq<char>) -> Seq<char> {
    match o {
        Some(s) => s,
        None => fallback,
    }
}

pub open spec fn int_or(o: Option<i32>, fallback: i32) -> i32 {
    match o {
        Some(n) => n,
        None => fallback,
    }
}

/// The preset made from the group read back for `index`: missing names are
/// `Preset <index + 1>`, a missing type is Ollama, missing texts are empty,
/// the language hint is on unless stored as 0, and a missing insert mode is
/// `Cursor`.
pub open spec fn resolve_preset_spec(index: nat, p: StoredPresetView) -> PresetView {
    PresetView {
        name: text_or(p.name, fallback_preset_name(index)),
        backend_type: backend_from_id_spec(text_or(p.backend_type, BACKEND_OLLAMA_ID@)),
        uri: text_or(p.uri, Seq::empty()),
        model: text_or(p.model, Seq::empty()),
        system_prompt: text_or(p.system_prompt, Seq::empty()),
        api_key: text_or(p.api_key, Seq::empty()),
        temperature: text_or(p.temperature, Seq::empty()),
        include_language_hint: int_or(p.include_language_hint, 1) != 0,
        insert_mode: insert_mode_from_id_spec(text_or(p.insert_mode, INSERT_MODE_CURSOR_ID@)),
    }
}

pub open spec fn resolve_presets_spec(v: Seq<StoredPresetView>) -> Seq<PresetView> {
    Seq::new(v.len(), |i: int| resolve_preset_spec(i as nat, v[i]))
}

/// The settings in effect.
pub struct LoadedConfig {
    pub presets: Vec<BackendPreset>,
    pub active_preset_index: i32,
    pub curl_timeout_index: i32,
    pub max_tokens: i32,
    pub thinking_log_enabled: bool,
}

/// The contents of the settings in effect.
pub struct LoadedView {
    pub presets: Seq<PresetView>,
    pub active_preset_index: i32,
    pub curl_timeout_index: i32,
    pub max_tokens: i32,
    pub thinking_log_enabled: bool,
}

pub open spec fn loaded_view(c: LoadedConfig) -> LoadedView {
    LoadedView {
        presets: presets_view(c.presets@),
        active_preset_index: c.active_preset_index,
        curl_timeout_index: c.curl_timeout_index,
        max_tokens: c.max_tokens,
        thinking_log_enabled: c.thinking_log_enabled,
    }
}

/// The position of the timeout choice with `seconds` (the default position
/// when none has it).
pub open spec fn timeout_index_for_spec(seconds: i64) -> i32 {
    if exists|i: int| 0 <= i < CURL_TIMEOUT_OPTION_COUNT && timeout_seconds_at(i) == seconds {
        (choose|i: int| 0 <= i < CURL_TIMEOUT_OPTION_COUNT && timeout_seconds_at(i) == seconds) as i32
    } else {
        DEFAULT_CURL_TIMEOUT_INDEX as i32
    }
}

/// The settings made from a file: with a readable file, the stored values
/// (timeout one minute, no token limit and the thinking log on when
/// missing; a negative token limit counts as none) and the stored presets;
/// otherwise the same defaults and no presets.  With no presets the default
/// preset is used, and an active position outside the presets means the
/// first.
pub open spec fn load_spec(
    file_loaded: bool,
    settings: StoredSettings,
    presets: Seq<StoredPresetView>,
) -> LoadedView {
    let active = if file_loaded {
        int_or(settings.active_preset, 0)
    } else {
        0
    };
    let timeout = if file_loaded {
        timeout_index_for_spec(int_or(settings.curl_timeout, 60) as i64)
    } else {
        DEFAULT_CURL_TIMEOUT_INDEX as i32
    };
    let max_tokens = if file_loaded {
        let m = int_or(settings.max_tokens, 0);
        if m < 0 {
            0
        } else {
            m
        }
    } else {
        0
    };
    let thinking = if file_loaded {
        int_or(settings.thinking_log_enabled, 1) != 0
    } else {
        true
    };
    let loaded = if file_loaded {
        resolve_presets_spec(preset_groups_spec(presets, preset_count_spec(settings)))
    } else {
        Seq::empty()
    };
    let all = if loaded.len() == 0 {
        seq![default_preset_spec()]
    } else {
        loaded
    };
    LoadedView {
        presets: all,
        active_preset_index: if active < 0 || active >= all.len() {
            0
        } else {
            active
        },
        curl_timeout_index: timeout,
        max_tokens: max_tokens,
        thinking_log_enabled: thinking,
    }
}

/// A preset group with nothing stored in it.
pub open spec fn missing_preset_view() -> StoredPresetView {
    StoredPresetView {
        name: None,
        backend_type: None,
        uri: None,
        model: None,
        system_prompt: None,
        api_key: None,
        temperature: None,
        include_language_hint: None,
        insert_mode: None,
    }
}

/// The `count` preset groups that are read: the groups given, in order, and
/// groups with nothing stored past the end of them (more given are left
/// out).
pub open spec fn preset_groups_spec(v: Seq<StoredPresetView>, count: nat) -> Seq<StoredPresetView> {
    Seq::new(count, |i: int| if i < v.len() { v[i] } else { missing_preset_view() })
}

/// How many preset groups to read: the stored count, none when it is
/// missing or negative.
pub open spec fn preset_count_spec(settings: StoredSettings) -> nat {
    let n = int_or(settings.preset_count, 0);
    if n < 0 {
        0
    } else {
        n as nat
    }
}

/// How many preset groups to read: the stored count, none when it is
/// missing or negative.
pub fn stored_preset_count(settings: &StoredSettings) -> (r: usize)
    ensures
        r as nat == preset_count_spec(*settings),
{
    match settings.preset_count {
        Some(n) => if n < 0 {
            0
        } else {
            n as usize
        },
        None => 0,
    }
}

fn text_or_exec(o: &Option<String>, fallback: &str) -> (r: String)
    ensures
        r@ == text_or(opt_text(*o), fallback@),
{
    match o {
        Some(s) => owned(s.as_str()),
        None => owned(fallback),
    }
}

/// The preset made from the group read back for `index` (see
/// `resolve_preset_spec`).
pub fn resolve_stored_preset(index: usize, p: &StoredPreset) -> (r: BackendPreset)
    requires
        index < usize::MAX,
    ensures
        r@ == resolve_preset_spec(index as nat, stored_preset_view(*p)),
{
    proof {
        lemma_empty_text_literal();
    }
    let name = match &p.name {
        Some(s) => owned(s.as_str()),
        None => default_preset_name(index),
    };
    let type_id = text_or_exec(&p.backend_type, BACKEND_OLLAMA_ID);
    let mode_id = text_or_exec(&p.insert_mode, INSERT_MODE_CURSOR_ID);
    BackendPreset {
        name,
        backend_type: BackendType::from_id(type_id.as_str()),
        uri: text_or_exec(&p.uri, ""),
        model: text_or_exec(&p.model, ""),
        system_prompt: text_or_exec(&p.system_prompt, ""),
        api_key: text_or_exec(&p.api_key, ""),
        temperature: text_or_exec(&p.temperature, ""),
        include_language_hint: match p.include_language_hint {
            Some(n) => n != 0,
            None => true,
        },
        insert_mode: InsertMode::from_id(mode_id.as_str()),
    }
}

proof fn lemma_empty_text_literal()
    ensures
        ""@ == Seq::<char>::empty(),
{
    reveal_strlit("");
}

/// The settings made from a file (see `load_spec`).  `presets` are the
/// preset groups read back, in order; `stored_preset_count` of them are
/// used, groups past the end of `presets` counting as groups with nothing
/// stored.
pub fn load_config_from(
    file_loaded: bool,
    settings: &StoredSettings,
    presets: &Vec<StoredPreset>,
) -> (r: LoadedConfig)
    ensures
        loaded_view(r) == load_spec(file_loaded, *settings, stored_presets_view(presets@)),
        r.presets.len() >= 1,
        0 <= r.active_preset_index < r.presets.len(),
        0 <= r.curl_timeout_index < CURL_TIMEOUT_OPTION_COUNT,
        r.max_tokens >= 0,
        !file_loaded || preset_count_spec(*settings) == 0 ==> presets_view(r.presets@) == seq![
            default_preset_spec(),
        ],
{
    proof {
        lemma_empty_text_literal();
    }
    let mut active: i32 = 0;
    let mut timeout: i32 = DEFAULT_CURL_TIMEOUT_INDEX as i32;
    let mut max_tokens: i32 = 0;
    let mut thinking: bool = true;
    let mut loaded: Vec<BackendPreset> = Vec::new();
    let ghost sv = stored_presets_view(presets@);
    if file_loaded {
        active = match settings.active_preset {
            Some(n) => n,
            None => 0,
        };
        let seconds = match settings.curl_timeout {
            Some(n) => n,
            None => 60,
        };
        let idx = curl_timeout_index_for_seconds(seconds as i64);
        proof {
            let s = seconds as i64;
            if exists|i: int| 0 <= i < CURL_TIMEOUT_OPTION_COUNT && timeout_seconds_at(i) == s {
                let c = choose|i: int|
                    0 <= i < CURL_TIMEOUT_OPTION_COUNT && timeout_seconds_at(i) == s;
                crate::backend::lemma_timeout_seconds_distinct(c, idx as int);
            }
        }
        timeout = idx as i32;
        let m = match settings.max_tokens {
            Some(n) => n,
            None => 0,
        };
        max_tokens = if m < 0 {
            0
        } else {
            m
        };
        thinking = match settings.thinking_log_enabled {
            Some(n) => n != 0,
            None => true,
        };
        let count = stored_preset_count(settings);
        let ghost groups = preset_groups_spec(sv, count as nat);
        let missing = StoredPreset {
            name: None,
            backend_type: None,
            uri: None,
            model: None,
            system_prompt: None,
            api_key: None,
            temperature: None,
            include_language_hint: None,
            insert_mode: None,
        };
        assert(stored_preset_view(missing) == missing_preset_view());
        let mut i: usize = 0;
        while i < count
            invariant
                0 <= i <= count,
                count as nat == preset_count_spec(*settings),
                sv == stored_presets_view(presets@),
                groups == preset_groups_spec(sv, count as nat),
                stored_preset_view(missing) == missing_preset_view(),
                presets_view(loaded@) == resolve_presets_spec(groups.subrange(0, i as int)),
            decreases count - i,
        {
            let group = if i < presets.len() {
                &presets[i]
            } else {
                &missing
            };
            assert(stored_preset_view(*group) == groups[i as int]);
            let p = resolve_stored_preset(i, group);
            let ghost prev = loaded@;
            loaded.push(p);
            assert(presets_view(loaded@) =~= resolve_presets_spec(groups.subrange(0, i + 1))) by {
                assert(presets_view(prev).len() == i);
                assert forall|k: int| 0 <= k < i + 1 implies #[trigger] presets_view(loaded@)[k]
                    == resolve_presets_spec(groups.subrange(0, i + 1))[k] by {
                    if k < i {
                        assert(loaded@[k] == prev[k]);
                        assert(presets_view(prev)[k] == resolve_presets_spec(
                            groups.subrange(0, i as int),
                        )[k]);
                    }
                }
            }
            i += 1;
        }
        assert(groups.subrange(0, count as int) =~= groups);
    }
    if loaded.len() == 0 {
        loaded.push(make_default_preset());
        assert(presets_view(loaded@) =~= seq![default_preset_spec()]);
    }
    if active < 0 || active as usize >= loaded.len() {
        active = 0;
    }
    LoadedConfig {
        presets: loaded,
        active_preset_index: active,
        curl_timeout_index: timeout,
        max_tokens,
        thinking_log_enabled: thinking,
    }
}

/// The value a key file holds for `group` and `key` once the entries are set
/// in order: the one set last.
pub open spec fn stored_value(
    entries: Seq<(Seq<char>, Seq<char>, StoredValue)>,
    group: Seq<char>,
    key: Seq<char>,
) -> Option<StoredValue>
    decreases entries.len(),
{
    if entries.len() == 0 {
        None
    } else if entries.last().0 == group && entries.last().1 == key {
        Some(entries.last().2)
    } else {
        stored_value(entries.drop_last(), group, key)
    }
}

/// The number stored under `group` and `key`, if one is.
pub open spec fn stored_int(
    entries: Seq<(Seq<char>, Seq<char>, StoredValue)>,
    group: Seq<char>,
    key: Seq<char>,
) -> Option<i32> {
    match stored_value(entries, group, key) {
        Some(StoredValue::Int(n)) => Some(n),
        _ => None,
    }
}

/// The text stored under `group` and `key`, if one is.
pub open spec fn stored_text(
    entries: Seq<(Seq<char>, Seq<char>, StoredValue)>,
    group: Seq<char>,
    key: Seq<char>,
) -> Option<Seq<char>> {
    match stored_value(entries, group, key) {
        Some(StoredValue::Text(t)) => Some(t),
        _ => None,
    }
}

/// The settings group as read from a file holding `entries`.
pub open spec fn read_settings_spec(entries: Seq<(Seq<char>, Seq<char>, StoredValue)>) -> StoredSettings {
    let g = CONFIG_GROUP_SETTINGS@;
    StoredSettings {
        active_preset: stored_int(entries, g, KEY_ACTIVE_PRESET@),
        curl_timeout: stored_int(entries, g, KEY_CURL_TIMEOUT@),
        max_tokens: stored_int(entries, g, KEY_MAX_TOKENS@),
        thinking_log_enabled: stored_int(entries, g, KEY_THINKING_LOG_ENABLED@),
        preset_count: stored_int(entries, g, KEY_PRESET_COUNT@),
    }
}

/// The group of the preset at `index` as read from a file holding `entries`.
pub open spec fn read_preset_spec(
    entries: Seq<(Seq<char>, Seq<char>, StoredValue)>,
    index: nat,
) -> StoredPresetView {
    let g = preset_group_spec(index);
    StoredPresetView {
        name: stored_text(entries, g, KEY_NAME@),
        backend_type: stored_text(entries, g, KEY_TYPE@),
        uri: stored_text(entries, g, KEY_URI@),
        model: stored_text(entries, g, KEY_MODEL@),
        system_prompt: stored_text(entries, g, KEY_SYSTEM_PROMPT@),
        api_key: stored_text(entries, g, KEY_API_KEY@),
        temperature: stored_text(entries, g, KEY_TEMPERATURE@),
        include_language_hint: stored_int(entries, g, KEY_INCLUDE_LANGUAGE_HINT@),
        insert_mode: stored_text(entries, g, KEY_INSERT_MODE@),
    }
}

/// The first `count` preset groups as read from a file holding `entries`.
pub open spec fn read_presets_spec(
    entries: Seq<(Seq<char>, Seq<char>, StoredValue)>,
    count: nat,
) -> Seq<StoredPresetView> {
    Seq::new(count, |i: int| read_preset_spec(entries, i as nat))
}

proof fn lemma_stored_value_concat(
    a: Seq<(Seq<char>, Seq<char>, StoredValue)>,
    b: Seq<(Seq<char>, Seq<char>, StoredValue)>,
    g: Seq<char>,
    k: Seq<char>,
)
    ensures
        stored_value(a + b, g, k) == (match stored_value(b, g, k) {
            Some(v) => Some(v),
            None => stored_value(a, g, k),
        }),
    decreases b.len(),
{
    if b.len() == 0 {
        assert(a + b =~= a);
    } else {
        assert((a + b).drop_last() =~= a + b.drop_last());
        assert((a + b).last() == b.last());
        lemma_stored_value_concat(a, b.drop_last(), g, k);
    }
}

proof fn lemma_stored_value_absent(
    e: Seq<(Seq<char>, Seq<char>, StoredValue)>,
    g: Seq<char>,
    k: Seq<char>,
)
    requires
        forall|i: int| 0 <= i < e.len() ==> (#[trigger] e[i]).0 != g,
    ensures
        stored_value(e, g, k) is None,
    decreases e.len(),
{
    if e.len() > 0 {
        lemma_stored_value_absent(e.drop_last(), g, k);
    }
}

proof fn lemma_stored_value_found(
    e: Seq<(Seq<char>, Seq<char>, StoredValue)>,
    g: Seq<char>,
    k: Seq<char>,
    m: int,
)
    requires
        0 <= m < e.len(),
        e[m].0 == g,
        e[m].1 == k,
        forall|i: int| m < i < e.len() ==> !((#[trigger] e[i]).0 == g && e[i].1 == k),
    ensures
        stored_value(e, g, k) == Some(e[m].2),
    decreases e.len(),
{
    if m < e.len() - 1 {
        lemma_stored_value_found(e.drop_last(), g, k, m);
    }
}

proof fn lemma_preset_group_injective(a: nat, b: nat)
    requires
        preset_group_spec(a) == preset_group_spec(b),
    ensures
        a == b,
{
    let p = CONFIG_GROUP_PRESET_PREFIX@;
    assert(decimal(a) =~= preset_group_spec(a).subrange(p.len() as int, preset_group_spec(a).len() as int));
    assert(decimal(b) =~= preset_group_spec(b).subrange(p.len() as int, preset_group_spec(b).len() as int));
    lemma_decimal_injective(a, b);
}

proof fn lemma_settings_group_is_no_preset_group(index: nat)
    ensures
        preset_group_spec(index) != CONFIG_GROUP_SETTINGS@,
{
    reveal_strlit("settings");
    reveal_strlit("preset");
    assert(preset_group_spec(index)[0] == 'p');
}

proof fn lemma_no_preset_group(presets: Seq<PresetView>, g: Seq<char>, k: Seq<char>)
    requires
        forall|i: int| 0 <= i < presets.len() ==> #[trigger] preset_group_spec(i as nat) != g,
    ensures
        stored_value(presets_entries_spec(presets), g, k) is None,
    decreases presets.len(),
{
    if presets.len() > 0 {
        let n = (presets.len() - 1) as nat;
        let block = preset_entries_spec(n, presets.last());
        assert(preset_group_spec(n) != g);
        lemma_stored_value_absent(block, g, k);
        lemma_stored_value_concat(presets_entries_spec(presets.drop_last()), block, g, k);
        lemma_no_preset_group(presets.drop_last(), g, k);
    }
}

proof fn lemma_preset_lookup(presets: Seq<PresetView>, j: nat, k: Seq<char>)
    requires
        j < presets.len(),
    ensures
        stored_value(presets_entries_spec(presets), preset_group_spec(j), k) == stored_value(
            preset_entries_spec(j, presets[j as int]),
            preset_group_spec(j),
            k,
        ),
    decreases presets.len(),
{
    let n = (presets.len() - 1) as nat;
    let g = preset_group_spec(j);
    let block = preset_entries_spec(n, presets.last());
    let rest = presets.drop_last();
    lemma_stored_value_concat(presets_entries_spec(rest), block, g, k);
    if j == n {
        assert forall|i: int| 0 <= i < rest.len() implies #[trigger] preset_group_spec(i as nat) != g by {
            if preset_group_spec(i as nat) == g {
                lemma_preset_group_injective(i as nat, j);
            }
        }
        lemma_no_preset_group(rest, g, k);
    } else {
        if preset_group_spec(n) == g {
            lemma_preset_group_injective(n, j);
        }
        lemma_stored_value_absent(block, g, k);
        lemma_preset_lookup(rest, j, k);
    }
}

proof fn lemma_read_preset_block(j: nat, p: PresetView)
    ensures
        ({
            let b = preset_entries_spec(j, p);
            let g = preset_group_spec(j);
            &&& stored_value(b, g, KEY_NAME@) == Some(StoredValue::Text(p.name))
            &&& stored_value(b, g, KEY_TYPE@) == Some(StoredValue::Text(p.backend_type.id_spec()))
            &&& stored_value(b, g, KEY_URI@) == Some(StoredValue::Text(p.uri))
            &&& stored_value(b, g, KEY_MODEL@) == Some(StoredValue::Text(p.model))
            &&& stored_value(b, g, KEY_SYSTEM_PROMPT@) == Some(StoredValue::Text(p.system_prompt))
            &&& stored_value(b, g, KEY_API_KEY@) == Some(StoredValue::Text(p.api_key))
            &&& stored_value(b, g, KEY_TEMPERATURE@) == Some(StoredValue::Text(p.temperature))
            &&& stored_value(b, g, KEY_INCLUDE_LANGUAGE_HINT@) == Some(
                StoredValue::Int(if p.include_language_hint { 1 } else { 0 }),
            )
            &&& stored_value(b, g, KEY_INSERT_MODE@) == Some(StoredValue::Text(p.insert_mode.id_spec()))
        }),
{
    reveal_strlit("name");
    reveal_strlit("type");
    reveal_strlit("uri");
    reveal_strlit("model");
    reveal_strlit("system_prompt");
    reveal_strlit("api_key");
    reveal_strlit("temperature");
    reveal_strlit("include_language_hint");
    reveal_strlit("insert_mode");
    let b = preset_entries_spec(j, p);
    let g = preset_group_spec(j);
    assert(b.len() == 9);
    assert(KEY_NAME@.len() == 4 && KEY_TYPE@.len() == 4 && KEY_URI@.len() == 3);
    assert(KEY_MODEL@.len() == 5 && KEY_SYSTEM_PROMPT@.len() == 13 && KEY_API_KEY@.len() == 7);
    assert(KEY_TEMPERATURE@.len() == 11 && KEY_INCLUDE_LANGUAGE_HINT@.len() == 21);
    assert(KEY_INSERT_MODE@.len() == 11);
    assert("name"@[0] != "type"@[0]);
    assert("temperature"@[0] != "insert_mode"@[0]);
    lemma_stored_value_found(b, g, KEY_NAME@, 0);
    lemma_stored_value_found(b, g, KEY_TYPE@, 1);
    lemma_stored_value_found(b, g, KEY_URI@, 2);
    lemma_stored_value_found(b, g, KEY_MODEL@, 3);
    lemma_stored_value_found(b, g, KEY_SYSTEM_PROMPT@, 4);
    lemma_stored_value_found(b, g, KEY_API_KEY@, 5);
    lemma_stored_value_found(b, g, KEY_TEMPERATURE@, 6);
    lemma_stored_value_found(b, g, KEY_INCLUDE_LANGUAGE_HINT@, 7);
    lemma_stored_value_found(b, g, KEY_INSERT_MODE@, 8);
}

proof fn lemma_read_settings_block(
    active_preset_index: i32,
    curl_timeout_index: i32,
    max_tokens: i32,
    thinking_log_enabled: i32,
    preset_count: nat,
)
    ensures
        ({
            let b = settings_entries_spec(
                active_preset_index,
                curl_timeout_index,
                max_tokens,
                thinking_log_enabled,
                preset_count,
            );
            let g = CONFIG_GROUP_SETTINGS@;
            &&& stored_value(b, g, KEY_ACTIVE_PRESET@) == Some(b[0].2)
            &&& stored_value(b, g, KEY_CURL_TIMEOUT@) == Some(b[1].2)
            &&& stored_value(b, g, KEY_MAX_TOKENS@) == Some(b[2].2)
            &&& stored_value(b, g, KEY_THINKING_LOG_ENABLED@) == Some(b[3].2)
            &&& stored_value(b, g, KEY_PRESET_COUNT@) == Some(b[4].2)
        }),
{
    reveal_strlit("active_preset");
    reveal_strlit("curl_timeout");
    reveal_strlit("max_tokens");
    reveal_strlit("thinking_log_enabled");
    reveal_strlit("preset_count");
    let b = settings_entries_spec(
        active_preset_index,
        curl_timeout_index,
        max_tokens,
        thinking_log_enabled,
        preset_count,
    );
    let g = CONFIG_GROUP_SETTINGS@;
    assert(b.len() == 5);
    assert(KEY_ACTIVE_PRESET@.len() == 13 && KEY_CURL_TIMEOUT@.len() == 12);
    assert(KEY_MAX_TOKENS@.len() == 10 && KEY_THINKING_LOG_ENABLED@.len() == 20);
    assert(KEY_PRESET_COUNT@.len() == 12);
    assert("curl_timeout"@[0] != "preset_count"@[0]);
    lemma_stored_value_found(b, g, KEY_ACTIVE_PRESET@, 0);
    lemma_stored_value_found(b, g, KEY_CURL_TIMEOUT@, 1);
    lemma_stored_value_found(b, g, KEY_MAX_TOKENS@, 2);
    lemma_stored_value_found(b, g, KEY_THINKING_LOG_ENABLED@, 3);
    lemma_stored_value_found(b, g, KEY_PRESET_COUNT@, 4);
}

/// What is read back of the written settings is what was written: loading a
/// file that holds the entries of a set of settings gives those settings
/// back (the presets field by field, the active preset, the timeout choice,
/// the token limit, and the thinking log on exactly when its flag was not
/// zero).
pub proof fn lemma_config_round_trip(
    active_preset_index: i32,
    curl_timeout_index: i32,
    max_tokens: i32,
    thinking_log_enabled: i32,
    presets: Seq<PresetView>,
)
    requires
        1 <= presets.len() <= i32::MAX,
        0 <= active_preset_index < presets.len(),
        0 <= curl_timeout_index < CURL_TIMEOUT_OPTION_COUNT,
        max_tokens >= 0,
    ensures
        ({
            let entries = config_entries_spec(
                active_preset_index,
                curl_timeout_index,
                max_tokens,
                thinking_log_enabled,
                presets,
            );
            let settings = read_settings_spec(entries);
            load_spec(true, settings, read_presets_spec(entries, preset_count_spec(settings)))
                == LoadedView {
                presets,
                active_preset_index,
                curl_timeout_index,
                max_tokens,
                thinking_log_enabled: thinking_log_enabled != 0,
            }
        }),
{
    let t: i32 = thinking_log_enabled;
    let s = settings_entries_spec(active_preset_index, curl_timeout_index, max_tokens, t, presets.len());
    let p = presets_entries_spec(presets);
    let entries = config_entries_spec(active_preset_index, curl_timeout_index, max_tokens, t, presets);
    assert(entries == s + p);
    let g = CONFIG_GROUP_SETTINGS@;
    assert forall|i: int| 0 <= i < presets.len() implies #[trigger] preset_group_spec(i as nat) != g by {
        lemma_settings_group_is_no_preset_group(i as nat);
    }
    lemma_read_settings_block(active_preset_index, curl_timeout_index, max_tokens, t, presets.len());
    let keys = seq![KEY_ACTIVE_PRESET@, KEY_CURL_TIMEOUT@, KEY_MAX_TOKENS@, KEY_THINKING_LOG_ENABLED@, KEY_PRESET_COUNT@];
    assert forall|i: int| 0 <= i < 5 implies stored_value(entries, g, #[trigger] keys[i]) == Some(s[i].2) by {
        lemma_no_preset_group(presets, g, keys[i]);
        lemma_stored_value_concat(s, p, g, keys[i]);
    }
    assert(stored_value(entries, g, keys[0]) == Some(s[0].2));
    assert(stored_value(entries, g, keys[1]) == Some(s[1].2));
    assert(stored_value(entries, g, keys[2]) == Some(s[2].2));
    assert(stored_value(entries, g, keys[3]) == Some(s[3].2));
    assert(stored_value(entries, g, keys[4]) == Some(s[4].2));
    let settings = read_settings_spec(entries);
    assert(preset_count_spec(settings) == presets.len());
    let seconds = active_timeout_seconds_spec(curl_timeout_index as int);
    assert(settings.curl_timeout == Some(seconds as i32));
    assert(timeout_index_for_spec(seconds as i32 as i64) == curl_timeout_index) by {
        let c = choose|i: int| 0 <= i < CURL_TIMEOUT_OPTION_COUNT && timeout_seconds_at(i) == seconds;
        assert(timeout_seconds_at(curl_timeout_index as int) == seconds);
        lemma_timeout_seconds_distinct(c, curl_timeout_index as int);
    }
    let read = read_presets_spec(entries, presets.len());
    assert(preset_groups_spec(read, presets.len()) =~= read);
    assert forall|j: int| 0 <= j < presets.len() implies resolve_preset_spec(j as nat, #[trigger] read[j])
        == presets[j] by {
        let pj = presets[j];
        let gj = preset_group_spec(j as nat);
        lemma_read_preset_block(j as nat, pj);
        lemma_settings_group_is_no_preset_group(j as nat);
        let pkeys = seq![
            KEY_NAME@, KEY_TYPE@, KEY_URI@, KEY_MODEL@, KEY_SYSTEM_PROMPT@, KEY_API_KEY@,
            KEY_TEMPERATURE@, KEY_INCLUDE_LANGUAGE_HINT@, KEY_INSERT_MODE@,
        ];
        assert forall|i: int| 0 <= i < 9 implies stored_value(entries, gj, #[trigger] pkeys[i])
            == stored_value(preset_entries_spec(j as nat, pj), gj, pkeys[i]) by {
            lemma_preset_lookup(presets, j as nat, pkeys[i]);
            lemma_stored_value_concat(s, p, gj, pkeys[i]);
        }
        assert(stored_value(entries, gj, pkeys[0]) == stored_value(preset_entries_spec(j as nat, pj), gj, pkeys[0]));
        assert(stored_value(entries, gj, pkeys[1]) == stored_value(preset_entries_spec(j as nat, pj), gj, pkeys[1]));
        assert(stored_value(entries, gj, pkeys[2]) == stored_value(preset_entries_spec(j as nat, pj), gj, pkeys[2]));
        assert(stored_value(entries, gj, pkeys[3]) == stored_value(preset_entries_spec(j as nat, pj), gj, pkeys[3]));
        assert(stored_value(entries, gj, pkeys[4]) == stored_value(preset_entries_spec(j as nat, pj), gj, pkeys[4]));
        assert(stored_value(entries, gj, pkeys[5]) == stored_value(preset_entries_spec(j as nat, pj), gj, pkeys[5]));
        assert(stored_value(entries, gj, pkeys[6]) == stored_value(preset_entries_spec(j as nat, pj), gj, pkeys[6]));
        assert(stored_value(entries, gj, pkeys[7]) == stored_value(preset_entries_spec(j as nat, pj), gj, pkeys[7]));
        assert(stored_value(entries, gj, pkeys[8]) == stored_value(preset_entries_spec(j as nat, pj), gj, pkeys[8]));
        crate::backend::lemma_backend_id_round_trip(pj.backend_type);
        crate::backend::lemma_insert_mode_id_round_trip(pj.insert_mode);
    }
    assert(resolve_presets_spec(read) =~= presets);
}

} // verus!
