//! Backend kinds, presets, timeout options and endpoint URL normalization.
use vstd::prelude::*;

use crate::text::{
    chars_of, ends_with, is_ws, trim_end_ws, trim_start_ws, range_ends_with, str_eq, string_from_range, trim_bounds,
    trim_end_char, trim_end_char_bound, trim_ws,
};

verus! {

pub const DEFAULT_OLLAMA_URI: &'static str = "http://localhost:11434";

pub const DEFAULT_OPENAI_COMPATIBLE_URI: &'static str = "http://localhost:11434/v1";

pub const BACKEND_OLLAMA_ID: &'static str = "ollama";

pub const BACKEND_OPENAI_COMPATIBLE_ID: &'static str = "openai-compatible";

pub const INSERT_MODE_CURSOR_ID: &'static str = "cursor";

pub const INSERT_MODE_REPLACE_SELECTION_ID: &'static str = "replace-selection";

pub const INSERT_MODE_APPEND_AFTER_SELECTION_ID: &'static str = "append-after-selection";

pub const OLLAMA_GENERATE_SUFFIX: &'static str = "/api/generate";

pub const OLLAMA_TAGS_SUFFIX: &'static str = "/api/tags";

pub const OPENAI_CHAT_SUFFIX: &'static str = "/chat/completions";

pub const OPENAI_V1_SUFFIX: &'static str = "/v1";

pub const OPENAI_V1_CHAT_SUFFIX: &'static str = "/v1/chat/completions";

pub const OPENAI_MODELS_SUFFIX: &'static str = "/models";

pub const OPENAI_V1_MODELS_SUFFIX: &'static str = "/v1/models";

/// The kind of server a preset talks to.
#[derive(Debug, Clone, Copy, PartialEq, Eq, Structural)]
pub enum BackendType {
    Ollama,
    OpenAICompatible,
}

/// The backend named by a stored id: anything but the OpenAI-compatible id
/// means Ollama.
pub open spec fn backend_from_id_spec(id: Seq<char>) -> BackendType {
    if id == BACKEND_OPENAI_COMPATIBLE_ID@ {
        BackendType::OpenAICompatible
    } else {
        BackendType::Ollama
    }
}

impl BackendType {
    pub open spec fn id_spec(self) -> Seq<char> {
        match self {
            BackendType::Ollama => BACKEND_OLLAMA_ID@,
            BackendType::OpenAICompatible => BACKEND_OPENAI_COMPATIBLE_ID@,
        }
    }

    pub open spec fn label_spec(self) -> Seq<char> {
        match self {
            BackendType::Ollama => "Ollama"@,
            BackendType::OpenAICompatible => "OpenAI-compatible"@,
        }
    }

    pub open spec fn default_uri_spec(self) -> Seq<char> {
        match self {
            BackendType::Ollama => DEFAULT_OLLAMA_URI@,
            BackendType::OpenAICompatible => DEFAULT_OPENAI_COMPATIBLE_URI@,
        }
    }

    pub fn from_id(id: &str) -> (r: Self)
        ensures
            r == backend_from_id_spec(id@),
    {
        if str_eq(id, BACKEND_OPENAI_COMPATIBLE_ID) {
            BackendType::OpenAICompatible
        } else {
            BackendType::Ollama
        }
    }

    pub fn id(&self) -> (r: &'static str)
        ensures
            r@ == self.id_spec(),
    {
        match self {
            BackendType::Ollama => BACKEND_OLLAMA_ID,
            BackendType::OpenAICompatible => BACKEND_OPENAI_COMPATIBLE_ID,
        }
    }

    pub fn label(&self) -> (r: &'static str)
        ensures
            r@ == self.label_spec(),
    {
        match self {
            BackendType::Ollama => "Ollama",
            BackendType::OpenAICompatible => "OpenAI-compatible",
        }
    }

    pub fn default_uri(&self) -> (r: &'static str)
        ensures
            r@ == self.default_uri_spec(),
    {
        match self {
            BackendType::Ollama => DEFAULT_OLLAMA_URI,
            BackendType::OpenAICompatible => DEFAULT_OPENAI_COMPATIBLE_URI,
        }
    }
}

/// Reading back the id of a backend gives that backend.
pub proof fn lemma_backend_id_round_trip(t: BackendType)
    ensures
        backend_from_id_spec(t.id_spec()) == t,
{
    reveal_strlit("ollama");
    reveal_strlit("openai-compatible");
    if t == BackendType::Ollama {
        assert("ollama"@.len() != "openai-compatible"@.len());
    }
}

/// Where a response is placed in the document.
#[derive(Debug, Clone, Copy, PartialEq, Eq, Structural)]
pub enum InsertMode {
    Cursor,
    ReplaceSelection,
    AppendAfterSelection,
}

/// The insert mode named by a stored id; unknown ids mean `Cursor`.
pub open spec fn insert_mode_from_id_spec(id: Seq<char>) -> InsertMode {
    if id == INSERT_MODE_REPLACE_SELECTION_ID@ {
        InsertMode::ReplaceSelection
    } else if id == INSERT_MODE_APPEND_AFTER_SELECTION_ID@ {
        InsertMode::AppendAfterSelection
    } else {
        InsertMode::Cursor
    }
}

impl Default for InsertMode {
    fn default() -> (r: Self)
        ensures
            r == InsertMode::Cursor,
    {
        InsertMode::Cursor
    }
}

impl InsertMode {
    pub open spec fn id_spec(self) -> Seq<char> {
        match self {
            InsertMode::Cursor => INSERT_MODE_CURSOR_ID@,
            InsertMode::ReplaceSelection => INSERT_MODE_REPLACE_SELECTION_ID@,
            InsertMode::AppendAfterSelection => INSERT_MODE_APPEND_AFTER_SELECTION_ID@,
        }
    }

    /// The position of this mode in the settings form's placement list.
    pub open spec fn combo_index_spec(self) -> i32 {
        match self {
            InsertMode::Cursor => 0,
            InsertMode::ReplaceSelection => 1,
            InsertMode::AppendAfterSelection => 2,
        }
    }

    pub fn from_id(id: &str) -> (r: Self)
        ensures
            r == insert_mode_from_id_spec(id@),
    {
        if str_eq(id, INSERT_MODE_REPLACE_SELECTION_ID) {
            InsertMode::ReplaceSelection
        } else if str_eq(id, INSERT_MODE_APPEND_AFTER_SELECTION_ID) {
            InsertMode::AppendAfterSelection
        } else {
            InsertMode::Cursor
        }
    }

    pub fn id(self) -> (r: &'static str)
        ensures
            r@ == self.id_spec(),
    {
        match self {
            InsertMode::Cursor => INSERT_MODE_CURSOR_ID,
            InsertMode::ReplaceSelection => INSERT_MODE_REPLACE_SELECTION_ID,
            InsertMode::AppendAfterSelection => INSERT_MODE_APPEND_AFTER_SELECTION_ID,
        }
    }

    /// The position of this mode in the settings form's placement list.
    pub fn combo_index(self) -> (r: i32)
        ensures
            r == self.combo_index_spec(),
    {
        match self {
            InsertMode::Cursor => 0,
            InsertMode::ReplaceSelection => 1,
            InsertMode::AppendAfterSelection => 2,
        }
    }

    /// The mode at a position of the placement list; anything else is `Cursor`.
    pub fn from_combo_index(index: i32) -> (r: Self)
        ensures
            r == (if index == 1 {
                InsertMode::ReplaceSelection
            } else if index == 2 {
                InsertMode::AppendAfterSelection
            } else {
                InsertMode::Cursor
            }),
    {
        if index == 1 {
            InsertMode::ReplaceSelection
        } else if index == 2 {
            InsertMode::AppendAfterSelection
        } else {
            InsertMode::Cursor
        }
    }
}

/// Reading back the id of an insert mode gives that mode.
pub proof fn lemma_insert_mode_id_round_trip(m: InsertMode)
    ensures
        insert_mode_from_id_spec(m.id_spec()) == m,
{
    reveal_strlit("cursor");
    reveal_strlit("replace-selection");
    reveal_strlit("append-after-selection");
    assert("cursor"@.len() != "replace-selection"@.len());
    assert("cursor"@.len() != "append-after-selection"@.len());
    assert("replace-selection"@.len() != "append-after-selection"@.len());
}

/// The placement list position and the mode agree both ways.
pub proof fn lemma_insert_mode_combo_round_trip(m: InsertMode)
    ensures
        ({
            let i = m.combo_index_spec();
            (if i == 1 {
                InsertMode::ReplaceSelection
            } else if i == 2 {
                InsertMode::AppendAfterSelection
            } else {
                InsertMode::Cursor
            }) == m
        }),
{
}

/// A named server configuration.
#[derive(Debug, Clone)]
pub struct BackendPreset {
    pub name: String,
    pub backend_type: BackendType,
    pub uri: String,
    pub model: String,
    pub system_prompt: String,
    /// Optional bearer token for servers that require authentication; it is
    /// sent as an HTTP header, never in the request body.
    pub api_key: String,
    /// An empty value means "let the server decide".
    pub temperature: String,
    pub include_language_hint: bool,
    pub insert_mode: InsertMode,
}

/// The contents of a preset.
pub struct PresetView {
    pub name: Seq<char>,
    pub backend_type: BackendType,
    pub uri: Seq<char>,
    pub model: Seq<char>,
    pub system_prompt: Seq<char>,
    pub api_key: Seq<char>,
    pub temperature: Seq<char>,
    pub include_language_hint: bool,
    pub insert_mode: InsertMode,
}

impl View for BackendPreset {
    type V = PresetView;

    open spec fn view(&self) -> PresetView {
        PresetView {
            name: self.name@,
            backend_type: self.backend_type,
            uri: self.uri@,
            model: self.model@,
            system_prompt: self.system_prompt@,
            api_key: self.api_key@,
            temperature: self.temperature@,
            include_language_hint: self.include_language_hint,
            insert_mode: self.insert_mode,
        }
    }
}

/// The contents of a list of presets.
pub open spec fn presets_view(v: Seq<BackendPreset>) -> Seq<PresetView> {
    v.map_values(|p: BackendPreset| p@)
}

impl BackendPreset {
    /// A copy with the same contents.
    pub fn duplicate(&self) -> (r: Self)
        ensures
            r@ == self@,
    {
        BackendPreset {
            name: self.name.clone(),
            backend_type: self.backend_type,
            uri: self.uri.clone(),
            model: self.model.clone(),
            system_prompt: self.system_prompt.clone(),
            api_key: self.api_key.clone(),
            temperature: self.temperature.clone(),
            include_language_hint: self.include_language_hint,
            insert_mode: self.insert_mode,
        }
    }
}

/// A copy of a list of presets with the same contents.
pub fn duplicate_presets(v: &Vec<BackendPreset>) -> (r: Vec<BackendPreset>)
    ensures
        presets_view(r@) == presets_view(v@),
{
    let mut r: Vec<BackendPreset> = Vec::new();
    let mut i: usize = 0;
    while i < v.len()
        invariant
            0 <= i <= v.len(),
            r.len() == i,
            presets_view(r@) == presets_view(v@.subrange(0, i as int)),
        decreases v.len() - i,
    {
        let d = v[i].duplicate();
        let ghost prev = r@;
        r.push(d);
        assert(r@ == prev.push(d));
        assert(v@.subrange(0, i + 1) == v@.subrange(0, i as int).push(v@[i as int]));
        assert forall|k: int| 0 <= k < i + 1 implies #[trigger] presets_view(r@)[k]
            == presets_view(v@.subrange(0, i + 1))[k] by {
            assert(presets_view(r@)[k] == r@[k]@);
            assert(presets_view(v@.subrange(0, i + 1))[k] == v@.subrange(0, i + 1)[k]@);
            if k < i {
                assert(r@[k] == prev[k]);
                assert(presets_view(prev)[k] == prev[k]@);
                assert(presets_view(v@.subrange(0, i as int))[k] == v@.subrange(0, i as int)[k]@);
                assert(presets_view(prev)[k] == presets_view(v@.subrange(0, i as int))[k]);
            } else {
                assert(r@[k] == d);
                assert(d@ == v@[i as int]@);
            }
        }
        assert(presets_view(r@) =~= presets_view(v@.subrange(0, i + 1)));
        i += 1;
    }
    assert(v@.subrange(0, v.len() as int) =~= v@);
    r
}

/// One choice of request timeout.
#[derive(Debug, Clone, Copy)]
pub struct CurlTimeoutOption {
    pub seconds: i64,
    pub label: &'static str,
}

/// How many timeout choices there are.
pub const CURL_TIMEOUT_OPTION_COUNT: usize = 7;

/// The choice used when nothing else applies (one minute).
pub const DEFAULT_CURL_TIMEOUT_INDEX: usize = 1;

/// Seconds of the timeout choice at `i` (`i < CURL_TIMEOUT_OPTION_COUNT`).
pub open spec fn timeout_seconds_at(i: int) -> i64 {
    if i == 0 { 30 }
    else if i == 1 { 60 }
    else if i == 2 { 120 }
    else if i == 3 { 180 }
    else if i == 4 { 300 }
    else if i == 5 { 420 }
    else { 600 }
}

/// Label of the timeout choice at `i`.
pub open spec fn timeout_label_at(i: int) -> Seq<char> {
    if i == 0 { "30s"@ }
    else if i == 1 { "1 min"@ }
    else if i == 2 { "2 min"@ }
    else if i == 3 { "3 min"@ }
    else if i == 4 { "5 min"@ }
    else if i == 5 { "7 min"@ }
    else { "10 min"@ }
}

/// The timeout choice at `index`.
pub fn curl_timeout_option(index: usize) -> (r: CurlTimeoutOption)
    requires
        index < CURL_TIMEOUT_OPTION_COUNT,
    ensures
        r.seconds == timeout_seconds_at(index as int),
        r.label@ == timeout_label_at(index as int),
{
    if index == 0 {
        CurlTimeoutOption { seconds: 30, label: "30s" }
    } else if index == 1 {
        CurlTimeoutOption { seconds: 60, label: "1 min" }
    } else if index == 2 {
        CurlTimeoutOption { seconds: 120, label: "2 min" }
    } else if index == 3 {
        CurlTimeoutOption { seconds: 180, label: "3 min" }
    } else if index == 4 {
        CurlTimeoutOption { seconds: 300, label: "5 min" }
    } else if index == 5 {
        CurlTimeoutOption { seconds: 420, label: "7 min" }
    } else {
        CurlTimeoutOption { seconds: 600, label: "10 min" }
    }
}

/// All timeout choices, in the order the menus show them.
pub fn curl_timeout_options() -> (r: Vec<CurlTimeoutOption>)
    ensures
        r.len() == CURL_TIMEOUT_OPTION_COUNT,
        forall|i: int|
            0 <= i < r.len() ==> #[trigger] r@[i].seconds == timeout_seconds_at(i) && r@[i].label@
                == timeout_label_at(i),
{
    let mut r: Vec<CurlTimeoutOption> = Vec::new();
    let mut i: usize = 0;
    while i < CURL_TIMEOUT_OPTION_COUNT
        invariant
            i <= CURL_TIMEOUT_OPTION_COUNT,
            r.len() == i,
            forall|k: int|
                0 <= k < i ==> #[trigger] r@[k].seconds == timeout_seconds_at(k) && r@[k].label@
                    == timeout_label_at(k),
        decreases CURL_TIMEOUT_OPTION_COUNT - i,
    {
        r.push(curl_timeout_option(i));
        i += 1;
    }
    r
}

/// Seconds of the selected timeout; an index outside the list means the
/// default choice.
pub open spec fn active_timeout_seconds_spec(index: int) -> i64 {
    if 0 <= index < CURL_TIMEOUT_OPTION_COUNT {
        timeout_seconds_at(index)
    } else {
        timeout_seconds_at(DEFAULT_CURL_TIMEOUT_INDEX as int)
    }
}

pub fn active_curl_timeout_seconds(index: usize) -> (r: i64)
    ensures
        r == active_timeout_seconds_spec(index as int),
{
    if index < CURL_TIMEOUT_OPTION_COUNT {
        curl_timeout_option(index).seconds
    } else {
        curl_timeout_option(DEFAULT_CURL_TIMEOUT_INDEX).seconds
    }
}

/// The position of the choice with `seconds`, or the default position when
/// no choice has that duration.
pub fn curl_timeout_index_for_seconds(seconds: i64) -> (r: usize)
    ensures
        r < CURL_TIMEOUT_OPTION_COUNT,
        (exists|i: int| 0 <= i < CURL_TIMEOUT_OPTION_COUNT && timeout_seconds_at(i) == seconds)
            ==> timeout_seconds_at(r as int) == seconds,
        (forall|i: int| 0 <= i < CURL_TIMEOUT_OPTION_COUNT ==> timeout_seconds_at(i) != seconds)
            ==> r == DEFAULT_CURL_TIMEOUT_INDEX,
{
    let mut i: usize = 0;
    while i < CURL_TIMEOUT_OPTION_COUNT
        invariant
            i <= CURL_TIMEOUT_OPTION_COUNT,
            forall|k: int| 0 <= k < i ==> timeout_seconds_at(k) != seconds,
        decreases CURL_TIMEOUT_OPTION_COUNT - i,
    {
        if curl_timeout_option(i).seconds == seconds {
            return i;
        }
        i += 1;
    }
    DEFAULT_CURL_TIMEOUT_INDEX
}

/// The timeout choices all have different durations.
pub proof fn lemma_timeout_seconds_distinct(i: int, j: int)
    requires
        0 <= i < CURL_TIMEOUT_OPTION_COUNT,
        0 <= j < CURL_TIMEOUT_OPTION_COUNT,
        timeout_seconds_at(i) == timeout_seconds_at(j),
    ensures
        i == j,
{
}

/// A stored timeout reads back as the choice that was saved: looking up the
/// seconds of a valid choice gives that choice.
pub proof fn lemma_timeout_index_round_trip(index: usize, found: usize)
    requires
        index < CURL_TIMEOUT_OPTION_COUNT,
        found < CURL_TIMEOUT_OPTION_COUNT,
        timeout_seconds_at(found as int) == active_timeout_seconds_spec(index as int),
    ensures
        found == index,
{
    lemma_timeout_seconds_distinct(found as int, index as int);
}

/// The request endpoint base: the trimmed URI, or the backend's default when
/// it is blank, without trailing slashes.
pub open spec fn base_uri_spec(backend_type: BackendType, base_uri: Seq<char>) -> Seq<char> {
    let t = trim_ws(base_uri);
    trim_end_char(if t.len() == 0 { backend_type.default_uri_spec() } else { t }, '/')
}

/// The streaming generation endpoint for a configured server URI.
pub open spec fn backend_url_spec(backend_type: BackendType, base_uri: Seq<char>) -> Seq<char> {
    let uri = base_uri_spec(backend_type, base_uri);
    match backend_type {
        BackendType::Ollama => if ends_with(uri, OLLAMA_GENERATE_SUFFIX@) {
            uri
        } else {
            uri + OLLAMA_GENERATE_SUFFIX@
        },
        BackendType::OpenAICompatible => if ends_with(uri, OPENAI_CHAT_SUFFIX@) {
            uri
        } else if ends_with(uri, OPENAI_V1_SUFFIX@) {
            uri + OPENAI_CHAT_SUFFIX@
        } else {
            uri + OPENAI_V1_CHAT_SUFFIX@
        },
    }
}

/// The model listing endpoint for a configured server URI.
pub open spec fn model_list_url_spec(backend_type: BackendType, base_uri: Seq<char>) -> Seq<
    char,
> {
    let uri = base_uri_spec(backend_type, base_uri);
    match backend_type {
        BackendType::Ollama => if ends_with(uri, OLLAMA_TAGS_SUFFIX@) {
            uri
        } else if ends_with(uri, OLLAMA_GENERATE_SUFFIX@) {
            uri.subrange(0, uri.len() - OLLAMA_GENERATE_SUFFIX@.len()) + OLLAMA_TAGS_SUFFIX@
        } else {
            uri + OLLAMA_TAGS_SUFFIX@
        },
        BackendType::OpenAICompatible => if ends_with(uri, OPENAI_MODELS_SUFFIX@) {
            uri
        } else if ends_with(uri, OPENAI_CHAT_SUFFIX@) {
            uri.subrange(0, uri.len() - OPENAI_CHAT_SUFFIX@.len()) + OPENAI_MODELS_SUFFIX@
        } else if ends_with(uri, OPENAI_V1_SUFFIX@) {
            uri + OPENAI_MODELS_SUFFIX@
        } else {
            uri + OPENAI_V1_MODELS_SUFFIX@
        },
    }
}

/// The characters of the endpoint base (see `base_uri_spec`).
fn base_uri_chars(backend_type: BackendType, base_uri: &str) -> (r: Vec<char>)
    ensures
        r@ == base_uri_spec(backend_type, base_uri@),
{
    let b = chars_of(base_uri);
    let (lo, hi) = trim_bounds(&b, 0, b.len());
    assert(b@.subrange(0, b.len() as int) =~= b@);
    let (v, lo2, hi2) = if lo == hi {
        let d = chars_of(backend_type.default_uri());
        let n = d.len();
        assert(d@.subrange(0, n as int) =~= d@);
        (d, 0, n)
    } else {
        (b, lo, hi)
    };
    let end = trim_end_char_bound(&v, lo2, hi2, '/');
    string_chars_range(&v, lo2, end)
}

/// A copy of `v[lo..hi]`.
fn string_chars_range(v: &Vec<char>, lo: usize, hi: usize) -> (r: Vec<char>)
    requires
        lo <= hi <= v.len(),
    ensures
        r@ == v@.subrange(lo as int, hi as int),
{
    let mut r: Vec<char> = Vec::new();
    let mut i = lo;
    while i < hi
        invariant
            lo <= i <= hi <= v.len(),
            r@ == v@.subrange(lo as int, i as int),
        decreases hi - i,
    {
        r.push(v[i]);
        i += 1;
        assert(r@ =~= v@.subrange(lo as int, i as int));
    }
    r
}

/// `v[lo..hi]` followed by `suffix`.
fn range_with_suffix(v: &Vec<char>, lo: usize, hi: usize, suffix: &str) -> (r: String)
    requires
        lo <= hi <= v.len(),
    ensures
        r@ == v@.subrange(lo as int, hi as int) + suffix@,
{
    let mut r = string_from_range(v, lo, hi);
    r.append(suffix);
    r
}

/// The streaming generation endpoint: `/api/generate` for Ollama and
/// `[/v1]/chat/completions` for OpenAI-compatible servers, added only where
/// the URI does not already end with it.
pub fn build_backend_url(backend_type: BackendType, base_uri: &str) -> (r: String)
    ensures
        r@ == backend_url_spec(backend_type, base_uri@),
{
    let v = base_uri_chars(backend_type, base_uri);
    let n = v.len();
    assert(v@.subrange(0, n as int) =~= v@);
    match backend_type {
        BackendType::Ollama => {
            if range_ends_with(&v, 0, n, OLLAMA_GENERATE_SUFFIX) {
                string_from_range(&v, 0, n)
            } else {
                range_with_suffix(&v, 0, n, OLLAMA_GENERATE_SUFFIX)
            }
        },
        BackendType::OpenAICompatible => {
            if range_ends_with(&v, 0, n, OPENAI_CHAT_SUFFIX) {
                string_from_range(&v, 0, n)
            } else if range_ends_with(&v, 0, n, OPENAI_V1_SUFFIX) {
                range_with_suffix(&v, 0, n, OPENAI_CHAT_SUFFIX)
            } else {
                range_with_suffix(&v, 0, n, OPENAI_V1_CHAT_SUFFIX)
            }
        },
    }
}

/// The model listing endpoint: `/api/tags` for Ollama (replacing a trailing
/// `/api/generate`) and `[/v1]/models` for OpenAI-compatible servers
/// (replacing a trailing `/chat/completions`).
pub fn build_model_list_url(backend_type: BackendType, base_uri: &str) -> (r: String)
    ensures
        r@ == model_list_url_spec(backend_type, base_uri@),
{
    let v = base_uri_chars(backend_type, base_uri);
    let n = v.len();
    assert(v@.subrange(0, n as int) =~= v@);
    match backend_type {
        BackendType::Ollama => {
            if range_ends_with(&v, 0, n, OLLAMA_TAGS_SUFFIX) {
                string_from_range(&v, 0, n)
            } else if range_ends_with(&v, 0, n, OLLAMA_GENERATE_SUFFIX) {
                let k = chars_of(OLLAMA_GENERATE_SUFFIX).len();
                assert(v@.subrange(0, (n - k) as int) =~= v@.subrange(0, v@.len() - k));
                range_with_suffix(&v, 0, n - k, OLLAMA_TAGS_SUFFIX)
            } else {
                range_with_suffix(&v, 0, n, OLLAMA_TAGS_SUFFIX)
            }
        },
        BackendType::OpenAICompatible => {
            if range_ends_with(&v, 0, n, OPENAI_MODELS_SUFFIX) {
                string_from_range(&v, 0, n)
            } else if range_ends_with(&v, 0, n, OPENAI_CHAT_SUFFIX) {
                let k = chars_of(OPENAI_CHAT_SUFFIX).len();
                range_with_suffix(&v, 0, n - k, OPENAI_MODELS_SUFFIX)
            } else if range_ends_with(&v, 0, n, OPENAI_V1_SUFFIX) {
                range_with_suffix(&v, 0, n, OPENAI_MODELS_SUFFIX)
            } else {
                range_with_suffix(&v, 0, n, OPENAI_V1_MODELS_SUFFIX)
            }
        },
    }
}


pub proof fn lemma_trim_start_first(s: Seq<char>)
    ensures
        trim_start_ws(s).len() <= s.len(),
        trim_start_ws(s) == s.subrange(s.len() - trim_start_ws(s).len(), s.len() as int),
        trim_start_ws(s).len() > 0 ==> !is_ws(trim_start_ws(s)[0]),
    decreases s.len(),
{
    if s.len() > 0 && is_ws(s[0]) {
        lemma_trim_start_first(s.drop_first());
        let t = trim_start_ws(s.drop_first());
        assert(s.drop_first().subrange(s.len() - 1 - t.len(), s.len() - 1) =~= s.subrange(
            s.len() - t.len(),
            s.len() as int,
        ));
    } else {
        assert(s.subrange(0, s.len() as int) =~= s);
    }
}

pub proof fn lemma_trim_end_last(s: Seq<char>)
    ensures
        trim_end_ws(s).len() <= s.len(),
        trim_end_ws(s) == s.subrange(0, trim_end_ws(s).len() as int),
        trim_end_ws(s).len() > 0 ==> !is_ws(trim_end_ws(s).last()),
    decreases s.len(),
{
    if s.len() > 0 && is_ws(s.last()) {
        lemma_trim_end_last(s.drop_last());
        let t = trim_end_ws(s.drop_last());
        assert(s.drop_last().subrange(0, t.len() as int) =~= s.subrange(0, t.len() as int));
    } else {
        assert(s.subrange(0, s.len() as int) =~= s);
    }
}

pub proof fn lemma_trim_end_char_prefix(s: Seq<char>, c: char)
    ensures
        trim_end_char(s, c).len() <= s.len(),
        trim_end_char(s, c) == s.subrange(0, trim_end_char(s, c).len() as int),
        trim_end_char(s, c).len() > 0 ==> trim_end_char(s, c).last() != c,
    decreases s.len(),
{
    if s.len() > 0 && s.last() == c {
        lemma_trim_end_char_prefix(s.drop_last(), c);
        let t = trim_end_char(s.drop_last(), c);
        assert(s.drop_last().subrange(0, t.len() as int) =~= s.subrange(0, t.len() as int));
    } else {
        assert(s.subrange(0, s.len() as int) =~= s);
    }
}

/// A trimmed text that is not empty starts with a non-whitespace character.
pub proof fn lemma_trim_ws_first(s: Seq<char>)
    ensures
        trim_ws(s).len() > 0 ==> !is_ws(trim_ws(s)[0]),
{
    lemma_trim_start_first(s);
    lemma_trim_end_last(trim_start_ws(s));
    let t = trim_start_ws(s);
    let u = trim_end_ws(t);
    if u.len() > 0 {
        assert(u[0] == t.subrange(0, u.len() as int)[0]);
    }
}

/// A text with no whitespace or slash at its ends: the form every endpoint
/// built here has.
pub open spec fn is_clean_endpoint(s: Seq<char>) -> bool {
    &&& s.len() > 0
    &&& !is_ws(s[0])
    &&& !is_ws(s.last())
    &&& s.last() != '/'
}

/// A clean endpoint is its own endpoint base.
pub proof fn lemma_clean_endpoint_base(b: BackendType, s: Seq<char>)
    requires
        is_clean_endpoint(s),
    ensures
        base_uri_spec(b, s) == s,
{
    assert(trim_start_ws(s) == s);
    assert(trim_end_ws(s) == s);
    assert(trim_end_char(s, '/') == s);
}

/// The endpoint base is empty or starts with a non-whitespace character.
pub proof fn lemma_base_uri_first(b: BackendType, s: Seq<char>)
    ensures
        base_uri_spec(b, s).len() > 0 ==> !is_ws(base_uri_spec(b, s)[0]),
{
    reveal_strlit("http://localhost:11434");
    reveal_strlit("http://localhost:11434/v1");
    let t = trim_ws(s);
    lemma_trim_ws_first(s);
    let x = if t.len() == 0 { b.default_uri_spec() } else { t };
    lemma_trim_end_char_prefix(x, '/');
    let u = trim_end_char(x, '/');
    if u.len() > 0 {
        assert(u[0] == x.subrange(0, u.len() as int)[0]);
    }
}

/// `a + suffix` is clean when `a` is empty or starts with a non-whitespace
/// character and `suffix` is a clean text starting with a slash.
proof fn lemma_append_clean(a: Seq<char>, suffix: Seq<char>)
    requires
        a.len() > 0 ==> !is_ws(a[0]),
        is_clean_endpoint(suffix),
        suffix[0] == '/',
    ensures
        is_clean_endpoint(a + suffix),
        ends_with(a + suffix, suffix),
{
    let r = a + suffix;
    assert(r.subrange(r.len() - suffix.len(), r.len() as int) =~= suffix);
    assert(r.last() == suffix.last());
    if a.len() == 0 {
        assert(r[0] == suffix[0]);
    } else {
        assert(r[0] == a[0]);
    }
}

/// A text ending with a clean `suffix` and starting with a non-whitespace
/// character is clean.
proof fn lemma_ends_with_clean(a: Seq<char>, suffix: Seq<char>)
    requires
        a.len() > 0 ==> !is_ws(a[0]),
        is_clean_endpoint(suffix),
        ends_with(a, suffix),
    ensures
        is_clean_endpoint(a),
{
    let tail = a.subrange(a.len() - suffix.len(), a.len() as int);
    assert(tail.last() == a.last());
}

proof fn lemma_suffixes_clean()
    ensures
        is_clean_endpoint(OLLAMA_GENERATE_SUFFIX@) && OLLAMA_GENERATE_SUFFIX@[0] == '/',
        is_clean_endpoint(OLLAMA_TAGS_SUFFIX@) && OLLAMA_TAGS_SUFFIX@[0] == '/',
        is_clean_endpoint(OPENAI_CHAT_SUFFIX@) && OPENAI_CHAT_SUFFIX@[0] == '/',
        is_clean_endpoint(OPENAI_MODELS_SUFFIX@) && OPENAI_MODELS_SUFFIX@[0] == '/',
        is_clean_endpoint(OPENAI_V1_CHAT_SUFFIX@) && OPENAI_V1_CHAT_SUFFIX@[0] == '/',
        is_clean_endpoint(OPENAI_V1_MODELS_SUFFIX@) && OPENAI_V1_MODELS_SUFFIX@[0] == '/',
        ends_with(OPENAI_V1_CHAT_SUFFIX@, OPENAI_CHAT_SUFFIX@),
        ends_with(OPENAI_V1_MODELS_SUFFIX@, OPENAI_MODELS_SUFFIX@),
{
    reveal_strlit("/api/generate");
    reveal_strlit("/api/tags");
    reveal_strlit("/chat/completions");
    reveal_strlit("/models");
    reveal_strlit("/v1/chat/completions");
    reveal_strlit("/v1/models");
    assert("/v1/chat/completions"@.subrange(3, 20) =~= "/chat/completions"@);
    assert("/v1/models"@.subrange(3, 10) =~= "/models"@);
}

proof fn lemma_ends_with_trans(a: Seq<char>, b: Seq<char>, c: Seq<char>)
    requires
        ends_with(a, b),
        ends_with(b, c),
    ensures
        ends_with(a, c),
{
    let ta = a.subrange(a.len() - c.len(), a.len() as int);
    let tb = b.subrange(b.len() - c.len(), b.len() as int);
    assert(ta =~= tb) by {
        assert forall|k: int| 0 <= k < c.len() implies ta[k] == tb[k] by {
            assert(a.subrange(a.len() - b.len(), a.len() as int)[b.len() - c.len() + k] == b[b.len()
                - c.len() + k]);
        }
    }
}

/// Every generation endpoint is clean and ends with the backend's final
/// path segment.
pub proof fn lemma_backend_url_shape(b: BackendType, u: Seq<char>)
    ensures
        is_clean_endpoint(backend_url_spec(b, u)),
        b == BackendType::Ollama ==> ends_with(backend_url_spec(b, u), OLLAMA_GENERATE_SUFFIX@),
        b == BackendType::OpenAICompatible ==> ends_with(
            backend_url_spec(b, u),
            OPENAI_CHAT_SUFFIX@,
        ),
{
    lemma_suffixes_clean();
    lemma_base_uri_first(b, u);
    let uri = base_uri_spec(b, u);
    match b {
        BackendType::Ollama => {
            if ends_with(uri, OLLAMA_GENERATE_SUFFIX@) {
                lemma_ends_with_clean(uri, OLLAMA_GENERATE_SUFFIX@);
            } else {
                lemma_append_clean(uri, OLLAMA_GENERATE_SUFFIX@);
            }
        },
        BackendType::OpenAICompatible => {
            if ends_with(uri, OPENAI_CHAT_SUFFIX@) {
                lemma_ends_with_clean(uri, OPENAI_CHAT_SUFFIX@);
            } else if ends_with(uri, OPENAI_V1_SUFFIX@) {
                lemma_append_clean(uri, OPENAI_CHAT_SUFFIX@);
            } else {
                lemma_append_clean(uri, OPENAI_V1_CHAT_SUFFIX@);
                lemma_ends_with_trans(
                    uri + OPENAI_V1_CHAT_SUFFIX@,
                    OPENAI_V1_CHAT_SUFFIX@,
                    OPENAI_CHAT_SUFFIX@,
                );
            }
        },
    }
}

/// Normalizing a generation endpoint that was already normalized gives it
/// back unchanged.
pub proof fn lemma_backend_url_idempotent(b: BackendType, u: Seq<char>)
    ensures
        backend_url_spec(b, backend_url_spec(b, u)) == backend_url_spec(b, u),
{
    lemma_backend_url_shape(b, u);
    lemma_clean_endpoint_base(b, backend_url_spec(b, u));
}

/// Every model listing endpoint is clean and ends with the backend's listing
/// path segment.
pub proof fn lemma_model_list_url_shape(b: BackendType, u: Seq<char>)
    ensures
        is_clean_endpoint(model_list_url_spec(b, u)),
        b == BackendType::Ollama ==> ends_with(model_list_url_spec(b, u), OLLAMA_TAGS_SUFFIX@),
        b == BackendType::OpenAICompatible ==> ends_with(
            model_list_url_spec(b, u),
            OPENAI_MODELS_SUFFIX@,
        ),
{
    lemma_suffixes_clean();
    lemma_base_uri_first(b, u);
    let uri = base_uri_spec(b, u);
    match b {
        BackendType::Ollama => {
            if ends_with(uri, OLLAMA_TAGS_SUFFIX@) {
                lemma_ends_with_clean(uri, OLLAMA_TAGS_SUFFIX@);
            } else if ends_with(uri, OLLAMA_GENERATE_SUFFIX@) {
                let p = uri.subrange(0, uri.len() - OLLAMA_GENERATE_SUFFIX@.len());
                if p.len() > 0 {
                    assert(p[0] == uri[0]);
                }
                lemma_append_clean(p, OLLAMA_TAGS_SUFFIX@);
            } else {
                lemma_append_clean(uri, OLLAMA_TAGS_SUFFIX@);
            }
        },
        BackendType::OpenAICompatible => {
            if ends_with(uri, OPENAI_MODELS_SUFFIX@) {
                lemma_ends_with_clean(uri, OPENAI_MODELS_SUFFIX@);
            } else if ends_with(uri, OPENAI_CHAT_SUFFIX@) {
                let p = uri.subrange(0, uri.len() - OPENAI_CHAT_SUFFIX@.len());
                if p.len() > 0 {
                    assert(p[0] == uri[0]);
                }
                lemma_append_clean(p, OPENAI_MODELS_SUFFIX@);
            } else if ends_with(uri, OPENAI_V1_SUFFIX@) {
                lemma_append_clean(uri, OPENAI_MODELS_SUFFIX@);
            } else {
                lemma_append_clean(uri, OPENAI_V1_MODELS_SUFFIX@);
                lemma_ends_with_trans(
                    uri + OPENAI_V1_MODELS_SUFFIX@,
                    OPENAI_V1_MODELS_SUFFIX@,
                    OPENAI_MODELS_SUFFIX@,
                );
            }
        },
    }
}

/// Normalizing a model listing endpoint that was already normalized gives it
/// back unchanged.
pub proof fn lemma_model_list_url_idempotent(b: BackendType, u: Seq<char>)
    ensures
        model_list_url_spec(b, model_list_url_spec(b, u)) == model_list_url_spec(b, u),
{
    lemma_model_list_url_shape(b, u);
    lemma_clean_endpoint_base(b, model_list_url_spec(b, u));
}

} // verus!
