//! Editing the presets in the settings form, and the token limits offered in
//! the settings form and the status bar.
use vstd::prelude::*;

use crate::backend::{presets_view, BackendPreset, BackendType, InsertMode, PresetView};
use crate::config::{default_preset_name, fallback_preset_name};
use crate::text::{
    concat2, is_blank, owned, parse_i32, parse_i32_spec, signed_decimal, signed_decimal_string,
    trim_ws, trimmed,
};

verus! {

/// The list entry that asks for a limit of one's own.
pub const CUSTOM_MAX_TOKENS_VALUE: i32 = -1;

/// The label of the entry that asks for a limit of one's own.
pub const CUSTOM_MAX_TOKENS_LABEL: &'static str = "Custom…";

/// The label before a limit of one's own that is listed.
pub const CUSTOM_MAX_TOKENS_PREFIX: &'static str = "Custom: ";

/// The label of the server's default limit in the status bar.
pub const STATUSBAR_DEFAULT_MAX_TOKENS_LABEL: &'static str = "Default";

/// The label of the server's default limit in the settings form.
pub const FORM_DEFAULT_MAX_TOKENS_LABEL: &'static str = "Server default";

/// The limits always offered: the server's default (0), then powers of two
/// from 128 to 262144.
pub open spec fn max_token_steps_spec() -> Seq<i32> {
    seq![0, 128, 256, 512, 1024, 2048, 4096, 8192, 16384, 32768, 65536, 131072, 262144]
}

/// The limits always offered.
pub fn max_token_steps() -> (r: Vec<i32>)
    ensures
        r@ == max_token_steps_spec(),
{
    let r: Vec<i32> = vec![0, 128, 256, 512, 1024, 2048, 4096, 8192, 16384, 32768, 65536, 131072, 262144];
    assert(r@ =~= max_token_steps_spec());
    r
}

/// Whether `value` is one of the limits always offered.
pub fn is_max_token_step(value: i32) -> (r: bool)
    ensures
        r == max_token_steps_spec().contains(value),
{
    let steps = max_token_steps();
    let mut i: usize = 0;
    while i < steps.len()
        invariant
            0 <= i <= steps.len(),
            steps@ == max_token_steps_spec(),
            forall|k: int| 0 <= k < i ==> steps@[k] != value,
        decreases steps.len() - i,
    {
        if steps[i] == value {
            assert(steps@[i as int] == value);
            return true;
        }
        i += 1;
    }
    false
}

/// The limits listed for the current limit `max_tokens`: the steps, then
/// `max_tokens` itself when it is positive and not a step, then the entry
/// that asks for another.
pub open spec fn max_token_choices_spec(max_tokens: i32) -> Seq<i32> {
    let steps = max_token_steps_spec();
    (if max_tokens > 0 && !steps.contains(max_tokens) {
        steps.push(max_tokens)
    } else {
        steps
    }).push(CUSTOM_MAX_TOKENS_VALUE)
}

/// The limits listed for the current limit `max_tokens`.
pub fn max_token_choices(max_tokens: i32) -> (r: Vec<i32>)
    ensures
        r@ == max_token_choices_spec(max_tokens),
{
    let mut values = max_token_steps();
    if max_tokens > 0 && !is_max_token_step(max_tokens) {
        values.push(max_tokens);
    }
    values.push(CUSTOM_MAX_TOKENS_VALUE);
    values
}

/// The label of a listed limit: `default_label` for the server's default,
/// `Custom…` for the entry that asks for another, `Custom: <n>` for a limit
/// that is not a step, and the number itself for a step.
pub open spec fn max_token_label_spec(value: i32, default_label: Seq<char>) -> Seq<char> {
    if value == 0 {
        default_label
    } else if value == CUSTOM_MAX_TOKENS_VALUE {
        CUSTOM_MAX_TOKENS_LABEL@
    } else if !max_token_steps_spec().contains(value) {
        CUSTOM_MAX_TOKENS_PREFIX@ + signed_decimal(value as int)
    } else {
        signed_decimal(value as int)
    }
}

/// The label of a listed limit.
pub fn max_token_label(value: i32, default_label: &str) -> (r: String)
    ensures
        r@ == max_token_label_spec(value, default_label@),
{
    if value == 0 {
        owned(default_label)
    } else if value == CUSTOM_MAX_TOKENS_VALUE {
        owned(CUSTOM_MAX_TOKENS_LABEL)
    } else if !is_max_token_step(value) {
        concat2(CUSTOM_MAX_TOKENS_PREFIX, signed_decimal_string(value).as_str())
    } else {
        signed_decimal_string(value)
    }
}

/// The labels of listed limits, in order.
pub fn max_token_labels(values: &Vec<i32>, default_label: &str) -> (r: Vec<String>)
    ensures
        r.len() == values.len(),
        forall|i: int| 0 <= i < values.len() ==> (#[trigger] r@[i])@ == max_token_label_spec(
            values@[i],
            default_label@,
        ),
{
    let mut r: Vec<String> = Vec::new();
    let mut i: usize = 0;
    while i < values.len()
        invariant
            0 <= i <= values.len(),
            r.len() == i,
            forall|k: int| 0 <= k < i ==> (#[trigger] r@[k])@ == max_token_label_spec(
                values@[k],
                default_label@,
            ),
        decreases values.len() - i,
    {
        r.push(max_token_label(values[i], default_label));
        i += 1;
    }
    r
}

/// The listed entry selected for `max_tokens`: the first entry equal to it,
/// or the last entry when none is.
pub fn max_token_choice_index(values: &Vec<i32>, max_tokens: i32) -> (r: usize)
    requires
        values.len() > 0,
    ensures
        r < values.len(),
        (exists|i: int| 0 <= i < values.len() && values@[i] == max_tokens) ==> {
            &&& values@[r as int] == max_tokens
            &&& forall|j: int| 0 <= j < r ==> values@[j] != max_tokens
        },
        (forall|i: int| 0 <= i < values.len() ==> values@[i] != max_tokens) ==> r == values.len()
            - 1,
{
    let mut i: usize = 0;
    while i < values.len()
        invariant
            0 <= i <= values.len(),
            forall|k: int| 0 <= k < i ==> values@[k] != max_tokens,
        decreases values.len() - i,
    {
        if values[i] == max_tokens {
            return i;
        }
        i += 1;
    }
    values.len() - 1
}

/// A limit that is not negative is always listed: the entry selected for it
/// holds it, so the list shows the limit in effect.
pub proof fn lemma_current_max_tokens_listed(max_tokens: i32)
    requires
        max_tokens >= 0,
    ensures
        max_token_choices_spec(max_tokens).contains(max_tokens),
{
    let steps = max_token_steps_spec();
    let choices = max_token_choices_spec(max_tokens);
    if max_tokens == 0 {
        assert(choices[0] == 0);
    } else if steps.contains(max_tokens) {
        let i = choose|i: int| 0 <= i < steps.len() && steps[i] == max_tokens;
        assert(choices[i] == max_tokens);
    } else {
        assert(choices[steps.len() as int] == max_tokens);
    }
}

/// The limit taken from the dialog that asks for one: when it was accepted,
/// the number typed (surrounding white space ignored; 0 when it is not a
/// number), never below 0; otherwise the current limit, never below 0.
pub open spec fn custom_max_tokens_spec(
    accepted: bool,
    text: Option<Seq<char>>,
    current: i32,
) -> i32 {
    if accepted {
        let typed = match text {
            Some(t) => match parse_i32_spec(trim_ws(t)) {
                Some(n) => n,
                None => 0,
            },
            None => 0,
        };
        if typed < 0 {
            0
        } else {
            typed
        }
    } else if current < 0 {
        0
    } else {
        current
    }
}

pub open spec fn opt_str_view(o: Option<&str>) -> Option<Seq<char>> {
    match o {
        Some(s) => Some(s@),
        None => None,
    }
}

/// The limit taken from the dialog that asks for one.
pub fn custom_max_tokens(accepted: bool, text: Option<&str>, current: i32) -> (r: i32)
    ensures
        r == custom_max_tokens_spec(accepted, opt_str_view(text), current),
        r >= 0,
{
    if accepted {
        let typed = match text {
            Some(t) => {
                let clean = trimmed(t);
                match parse_i32(clean.as_str()) {
                    Some(n) => n,
                    None => 0,
                }
            },
            None => 0,
        };
        if typed < 0 {
            0
        } else {
            typed
        }
    } else if current < 0 {
        0
    } else {
        current
    }
}

/// What the settings form shows for the preset being edited.
pub struct PresetForm {
    pub name: String,
    pub uri: String,
    pub model: String,
    pub api_key: String,
    pub temperature: String,
    pub openai_compatible: bool,
    pub include_language_hint: bool,
    pub insert_mode_index: i32,
}

/// The contents of the settings form.
pub struct PresetFormView {
    pub name: Seq<char>,
    pub uri: Seq<char>,
    pub model: Seq<char>,
    pub api_key: Seq<char>,
    pub temperature: Seq<char>,
    pub openai_compatible: bool,
    pub include_language_hint: bool,
    pub insert_mode_index: i32,
}

impl View for PresetForm {
    type V = PresetFormView;

    open spec fn view(&self) -> PresetFormView {
        PresetFormView {
            name: self.name@,
            uri: self.uri@,
            model: self.model@,
            api_key: self.api_key@,
            temperature: self.temperature@,
            openai_compatible: self.openai_compatible,
            include_language_hint: self.include_language_hint,
            insert_mode_index: self.insert_mode_index,
        }
    }
}

/// The placement at a position of the form's placement list (anything
/// else places at the cursor).
pub open spec fn insert_mode_at_spec(index: i32) -> InsertMode {
    if index == 1 {
        InsertMode::ReplaceSelection
    } else if index == 2 {
        InsertMode::AppendAfterSelection
    } else {
        InsertMode::Cursor
    }
}

/// The preset at `index` as the form gives it back: the texts without
/// surrounding white space (a blank name becomes `Preset <index + 1>`), the
/// backend, language hint and placement chosen, and the system prompt it
/// had (the form does not show it).
pub open spec fn preset_from_form_spec(index: nat, form: PresetFormView, system_prompt: Seq<char>) -> PresetView {
    let name = trim_ws(form.name);
    PresetView {
        name: if name.len() == 0 {
            fallback_preset_name(index)
        } else {
            name
        },
        backend_type: if form.openai_compatible {
            BackendType::OpenAICompatible
        } else {
            BackendType::Ollama
        },
        uri: trim_ws(form.uri),
        model: trim_ws(form.model),
        system_prompt,
        api_key: trim_ws(form.api_key),
        temperature: trim_ws(form.temperature),
        include_language_hint: form.include_language_hint,
        insert_mode: insert_mode_at_spec(form.insert_mode_index),
    }
}

/// Stores what the form shows into the preset at `index`; with no preset
/// there nothing changes.
pub fn sync_preset_from_form(presets: &mut Vec<BackendPreset>, index: usize, form: &PresetForm)
    ensures
        index >= old(presets).len() ==> presets_view(final(presets)@) == presets_view(
            old(presets)@,
        ),
        index < old(presets).len() ==> presets_view(final(presets)@) == presets_view(
            old(presets)@,
        ).update(
            index as int,
            preset_from_form_spec(index as nat, form@, old(presets)@[index as int].system_prompt@),
        ),
{
    if index >= presets.len() {
        return;
    }
    let name = if is_blank(form.name.as_str()) {
        default_preset_name(index)
    } else {
        trimmed(form.name.as_str())
    };
    let system_prompt = presets[index].system_prompt.clone();
    let p = BackendPreset {
        name,
        backend_type: if form.openai_compatible {
            BackendType::OpenAICompatible
        } else {
            BackendType::Ollama
        },
        uri: trimmed(form.uri.as_str()),
        model: trimmed(form.model.as_str()),
        system_prompt,
        api_key: trimmed(form.api_key.as_str()),
        temperature: trimmed(form.temperature.as_str()),
        include_language_hint: form.include_language_hint,
        insert_mode: InsertMode::from_combo_index(form.insert_mode_index),
    };
    let ghost before = presets@;
    presets.set(index, p);
    assert(presets_view(presets@) =~= presets_view(before).update(
        index as int,
        preset_from_form_spec(index as nat, form@, before[index as int].system_prompt@),
    ));
}

/// A new preset named `name`: the local Ollama server with no address,
/// model, prompt, key or temperature, the language hint on and insertion at
/// the cursor.
pub open spec fn new_preset_spec(name: Seq<char>) -> PresetView {
    PresetView {
        name,
        backend_type: BackendType::Ollama,
        uri: Seq::empty(),
        model: Seq::empty(),
        system_prompt: Seq::empty(),
        api_key: Seq::empty(),
        temperature: Seq::empty(),
        include_language_hint: true,
        insert_mode: InsertMode::Cursor,
    }
}

/// Adds a preset named `prompted_name` (without surrounding white space),
/// or `Preset <n + 1>` for a blank name where `n` presets are already there;
/// returns its position, the last.
pub fn add_preset(presets: &mut Vec<BackendPreset>, prompted_name: &str) -> (r: usize)
    requires
        old(presets).len() < usize::MAX,
    ensures
        r == old(presets).len(),
        presets_view(final(presets)@) == presets_view(old(presets)@).push(
            new_preset_spec(
                if trim_ws(prompted_name@).len() == 0 {
                    fallback_preset_name(old(presets).len() as nat)
                } else {
                    trim_ws(prompted_name@)
                },
            ),
        ),
{
    let count = presets.len();
    let name = if is_blank(prompted_name) {
        default_preset_name(count)
    } else {
        trimmed(prompted_name)
    };
    let ghost before = presets@;
    presets.push(
        BackendPreset {
            name,
            backend_type: BackendType::Ollama,
            uri: String::new(),
            model: String::new(),
            system_prompt: String::new(),
            api_key: String::new(),
            temperature: String::new(),
            include_language_hint: true,
            insert_mode: InsertMode::Cursor,
        },
    );
    assert(presets_view(presets@) =~= presets_view(before).push(new_preset_spec(
        if trim_ws(prompted_name@).len() == 0 {
            fallback_preset_name(count as nat)
        } else {
            trim_ws(prompted_name@)
        },
    )));
    count
}

/// Whether a preset may be deleted: only while more than one is there.
pub fn can_delete_preset(count: usize) -> (r: bool)
    ensures
        r == (count > 1),
{
    count > 1
}

/// Deletes the preset at `index` and returns the position to show next (the
/// same position, or the last one); the last remaining preset is never
/// deleted, and nothing changes then or for a position past the end.
pub fn delete_preset(presets: &mut Vec<BackendPreset>, index: usize) -> (r: Option<usize>)
    ensures
        old(presets).len() <= 1 || index >= old(presets).len() ==> r is None && presets_view(
            final(presets)@,
        ) == presets_view(old(presets)@),
        old(presets).len() > 1 && index < old(presets).len() ==> {
            &&& presets_view(final(presets)@) == presets_view(old(presets)@).remove(index as int)
            &&& r == Some(
                if index < old(presets).len() - 1 {
                    index
                } else {
                    (old(presets).len() - 2) as usize
                },
            )
        },
        old(presets).len() >= 1 ==> final(presets).len() >= 1,
{
    if presets.len() <= 1 || index >= presets.len() {
        return None;
    }
    let ghost before = presets@;
    presets.remove(index);
    assert(presets_view(presets@) =~= presets_view(before).remove(index as int));
    let last = presets.len() - 1;
    Some(
        if index < last {
            index
        } else {
            last
        },
    )
}

/// The system prompt kept from the prompt editor: nothing when only white
/// space was entered, the text as entered otherwise.
pub fn edited_system_prompt(text: &str) -> (r: String)
    ensures
        r@ == (if trim_ws(text@).len() == 0 {
            Seq::empty()
        } else {
            text@
        }),
{
    if is_blank(text) {
        String::new()
    } else {
        owned(text)
    }
}

} // verus!
