//! The settings shared by every part of the plugin: the presets and the
//! settings of the active one.
use vstd::prelude::*;

use crate::backend::{
    presets_view, BackendPreset, BackendType, InsertMode, PresetView, DEFAULT_OLLAMA_URI,
};
use crate::backend::{timeout_seconds_at, CURL_TIMEOUT_OPTION_COUNT};
use crate::config::{
    default_preset_spec, int_or, load_spec, preset_count_spec, preset_groups_spec,
    resolve_presets_spec, StoredPresetView, StoredSettings,
};
use crate::text::owned;

verus! {

/// The thinking log sits in the sidebar.
pub const THINKING_LOG_LOCATION_SIDEBAR: i32 = 0;

/// The thinking log sits in the message window.
pub const THINKING_LOG_LOCATION_MESSAGE_WINDOW: i32 = 1;

/// The share, in percent, of the message window given to the log column.
pub const DEFAULT_THINKING_LOG_MSGWIN_SPLIT: i32 = 90;

/// The presets and the settings of the active one.
pub struct GlobalState {
    pub presets: Vec<BackendPreset>,
    pub backend_type: BackendType,
    pub upstream_uri: String,
    pub model_name: String,
    pub system_prompt: String,
    pub api_key: String,
    pub temperature: String,
    pub include_language_hint: bool,
    pub insert_mode: InsertMode,
}

/// The contents of the shared settings.
pub struct GlobalView {
    pub presets: Seq<PresetView>,
    pub backend_type: BackendType,
    pub upstream_uri: Seq<char>,
    pub model_name: Seq<char>,
    pub system_prompt: Seq<char>,
    pub api_key: Seq<char>,
    pub temperature: Seq<char>,
    pub include_language_hint: bool,
    pub insert_mode: InsertMode,
}

impl View for GlobalState {
    type V = GlobalView;

    open spec fn view(&self) -> GlobalView {
        GlobalView {
            presets: presets_view(self.presets@),
            backend_type: self.backend_type,
            upstream_uri: self.upstream_uri@,
            model_name: self.model_name@,
            system_prompt: self.system_prompt@,
            api_key: self.api_key@,
            temperature: self.temperature@,
            include_language_hint: self.include_language_hint,
            insert_mode: self.insert_mode,
        }
    }
}

/// The settings before anything is loaded: no presets, the local Ollama
/// server, no model, prompt, key or temperature, the language hint on and
/// insertion at the cursor.
pub open spec fn initial_state_spec() -> GlobalView {
    GlobalView {
        presets: Seq::empty(),
        backend_type: BackendType::Ollama,
        upstream_uri: DEFAULT_OLLAMA_URI@,
        model_name: Seq::empty(),
        system_prompt: Seq::empty(),
        api_key: Seq::empty(),
        temperature: Seq::empty(),
        include_language_hint: true,
        insert_mode: InsertMode::Cursor,
    }
}

/// `g` with the settings of `p` in effect (the presets unchanged).
pub open spec fn with_preset_spec(g: GlobalView, p: PresetView) -> GlobalView {
    GlobalView {
        presets: g.presets,
        backend_type: p.backend_type,
        upstream_uri: p.uri,
        model_name: p.model,
        system_prompt: p.system_prompt,
        api_key: p.api_key,
        temperature: p.temperature,
        include_language_hint: p.include_language_hint,
        insert_mode: p.insert_mode,
    }
}

/// The position after `current` in a list of `count` presets, back to the
/// first after the last.
pub open spec fn next_preset_index_spec(current: nat, count: nat) -> nat {
    (((current + 1) as int) % (count as int)) as nat
}

/// `current` advanced `steps` times.
pub open spec fn advance_spec(current: nat, count: nat, steps: nat) -> nat
    decreases steps,
{
    if steps == 0 {
        current
    } else {
        next_preset_index_spec(advance_spec(current, count, (steps - 1) as nat), count)
    }
}

impl GlobalState {
    /// The settings before anything is loaded.
    pub fn initial() -> (r: Self)
        ensures
            r@ == initial_state_spec(),
    {
        let presets: Vec<BackendPreset> = Vec::new();
        assert(presets_view(presets@) =~= Seq::empty());
        GlobalState {
            presets,
            backend_type: BackendType::Ollama,
            upstream_uri: owned(DEFAULT_OLLAMA_URI),
            model_name: String::new(),
            system_prompt: String::new(),
            api_key: String::new(),
            temperature: String::new(),
            include_language_hint: true,
            insert_mode: InsertMode::Cursor,
        }
    }

    /// Puts the settings of `p` in effect.
    pub fn apply_preset(&mut self, p: &BackendPreset)
        ensures
            final(self)@ == with_preset_spec(old(self)@, p@),
    {
        self.backend_type = p.backend_type;
        self.upstream_uri = p.uri.clone();
        self.model_name = p.model.clone();
        self.system_prompt = p.system_prompt.clone();
        self.api_key = p.api_key.clone();
        self.temperature = p.temperature.clone();
        self.include_language_hint = p.include_language_hint;
        self.insert_mode = p.insert_mode;
    }

    /// Puts the settings of the preset at `index` in effect, when there is
    /// one; returns whether there was.
    pub fn select_preset(&mut self, index: usize) -> (r: bool)
        ensures
            r == (index < old(self).presets.len()),
            r ==> final(self)@ == with_preset_spec(old(self)@, old(self)@.presets[index as int]),
            !r ==> final(self)@ == old(self)@,
    {
        if index < self.presets.len() {
            let p = self.presets[index].duplicate();
            self.apply_preset(&p);
            true
        } else {
            false
        }
    }

    /// Moves to the preset after `current` (back to the first after the
    /// last) and puts its settings in effect; with no presets nothing
    /// changes.  Returns the new position.
    pub fn switch_to_next_preset(&mut self, current: usize) -> (r: Option<usize>)
        requires
            current < usize::MAX,
        ensures
            old(self).presets.len() == 0 ==> r is None && final(self)@ == old(self)@,
            old(self).presets.len() > 0 ==> {
                &&& r == Some(
                    next_preset_index_spec(current as nat, old(self).presets.len() as nat) as usize,
                )
                &&& final(self)@ == with_preset_spec(
                    old(self)@,
                    old(self)@.presets[r.unwrap() as int],
                )
            },
    {
        let n = self.presets.len();
        if n == 0 {
            return None;
        }
        let next = (current + 1) % n;
        let p = self.presets[next].duplicate();
        self.apply_preset(&p);
        Some(next)
    }

    /// Takes the edited presets and puts the settings of the one at
    /// `active` in effect (when there is one there).
    pub fn replace_presets(&mut self, presets: Vec<BackendPreset>, active: usize)
        ensures
            final(self)@.presets == presets_view(presets@),
            active < presets.len() ==> final(self)@ == with_preset_spec(
                old(self)@,
                presets@[active as int]@,
            ).with_presets(presets_view(presets@)),
            active >= presets.len() ==> final(self)@ == old(self)@.with_presets(
                presets_view(presets@),
            ),
    {
        if active < presets.len() {
            let p = presets[active].duplicate();
            self.apply_preset(&p);
        }
        self.presets = presets;
    }
}

impl GlobalView {
    /// The same settings with `presets` as the presets.
    pub open spec fn with_presets(self, presets: Seq<PresetView>) -> GlobalView {
        GlobalView { presets, ..self }
    }
}

/// Sets up the shared settings if they are not yet there; settings already
/// there are kept as they are.
pub fn init_global_state(slot: &mut Option<GlobalState>)
    ensures
        *old(slot) is Some ==> *final(slot) == *old(slot),
        *old(slot) is None ==> *final(slot) is Some && final(slot).unwrap()@ == initial_state_spec(),
{
    if slot.is_none() {
        *slot = Some(GlobalState::initial());
    }
}

/// Runs `f` on the shared settings, setting them up first if needed, and
/// returns what `f` returns.
pub fn with_global_state<F, R>(slot: &mut Option<GlobalState>, f: F) -> (r: R) where
    F: FnOnce(&mut GlobalState) -> R,

    requires
        forall|s: &mut GlobalState| #[trigger] f.requires((s,)),
    ensures
        *final(slot) is Some,
        exists|s: &mut GlobalState|
            {
                &&& (*old(slot) is Some ==> *s == old(slot).unwrap())
                &&& (*old(slot) is None ==> (*s)@ == initial_state_spec())
                &&& *final(slot) == Some(*final(s))
                &&& #[trigger] f.ensures((s,), r)
            },
{
    init_global_state(slot);
    match slot {
        Some(state) => f(state),
        None => f(&mut GlobalState::initial()),
    }
}

/// Moving to the next preset as many times as there are presets comes back
/// to the preset where it started.
pub proof fn lemma_switching_wraps_around(current: nat, count: nat)
    requires
        current < count,
    ensures
        advance_spec(current, count, count) == current,
{
    lemma_advance_is_offset(current, count, count);
    assert(((current + count) as int) % (count as int) == current) by (nonlinear_arith)
        requires
            current < count,
    ;
}

proof fn lemma_advance_is_offset(current: nat, count: nat, steps: nat)
    requires
        current < count,
    ensures
        advance_spec(current, count, steps) == ((current + steps) as int) % (count as int),
    decreases steps,
{
    if steps == 0 {
        assert((current as int) % (count as int) == current) by (nonlinear_arith)
            requires
                current < count,
        ;
    } else {
        lemma_advance_is_offset(current, count, (steps - 1) as nat);
        let prev = (current + steps - 1) % (count as int);
        vstd::arithmetic::div_mod::lemma_add_mod_noop_right(1, current + steps - 1, count as int);
        assert(1 + prev == prev + 1);
        assert(1 + (current + steps - 1) == (current + steps) as int);
    }
}


/// Whatever the settings file holds, or when it is missing or unreadable,
/// the settings loaded from it are usable: at least one preset, the active
/// position among them, a timeout from the list and a token limit not below
/// zero; with no file or no stored preset count above zero, exactly the
/// default preset.  Putting them in effect (`replace_presets` with the active
/// position) makes the presets the loaded ones and the settings in effect
/// those of the active preset.
pub proof fn lemma_loaded_settings_are_usable(
    file_loaded: bool,
    settings: StoredSettings,
    presets: Seq<StoredPresetView>,
    state: GlobalView,
)
    ensures
        ({
            let l = load_spec(file_loaded, settings, presets);
            let a = l.active_preset_index as int;
            let after = with_preset_spec(state, l.presets[a]).with_presets(l.presets);
            &&& l.presets.len() >= 1
            &&& 0 <= a < l.presets.len()
            &&& 0 <= l.curl_timeout_index < CURL_TIMEOUT_OPTION_COUNT
            &&& l.max_tokens >= 0
            &&& (!file_loaded || preset_count_spec(settings) == 0) ==> l.presets == seq![
                default_preset_spec(),
            ]
            &&& after.presets == l.presets
            &&& after.backend_type == l.presets[a].backend_type
            &&& after.upstream_uri == l.presets[a].uri
            &&& after.model_name == l.presets[a].model
            &&& after.system_prompt == l.presets[a].system_prompt
            &&& after.api_key == l.presets[a].api_key
            &&& after.temperature == l.presets[a].temperature
            &&& after.include_language_hint == l.presets[a].include_language_hint
            &&& after.insert_mode == l.presets[a].insert_mode
        }),
{
    let seconds = int_or(settings.curl_timeout, 60) as i64;
    if exists|i: int| 0 <= i < CURL_TIMEOUT_OPTION_COUNT && timeout_seconds_at(i) == seconds {
        let c = choose|i: int| 0 <= i < CURL_TIMEOUT_OPTION_COUNT && timeout_seconds_at(i) == seconds;
        assert(0 <= c < CURL_TIMEOUT_OPTION_COUNT);
    }
    if file_loaded && preset_count_spec(settings) == 0 {
        assert(preset_groups_spec(presets, 0) =~= Seq::<StoredPresetView>::empty());
        assert(resolve_presets_spec(preset_groups_spec(presets, 0)) =~= Seq::<PresetView>::empty());
    }
}

} // verus!
