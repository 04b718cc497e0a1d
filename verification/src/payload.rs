//! The JSON bodies of generation requests.
//!
//! Members are written in the order `serde_json` keeps object members in
//! (sorted by name), in compact form.
use vstd::prelude::*;

use crate::backend::BackendType;
use crate::json::{
    json_array, json_array_text, json_object, json_object_text, json_quote, json_string_literal,
    member, pairs_view, strings_view,
};
use crate::text::{decimal, decimal_string, is_blank, owned, trim_ws};

verus! {

/// The optional single member `(key, value)`.
pub open spec fn member_if(
    present: bool,
    key: Seq<char>,
    value: Seq<char>,
) -> Seq<(Seq<char>, Seq<char>)> {
    if present {
        seq![(key, value)]
    } else {
        Seq::empty()
    }
}

/// The optional temperature member, holding the number's JSON text.
pub open spec fn temperature_member(temperature: Option<Seq<char>>) -> Seq<(Seq<char>, Seq<char>)> {
    match temperature {
        Some(t) => seq![("temperature"@, t)],
        None => Seq::empty(),
    }
}

/// The `options` object members of an Ollama request.
pub open spec fn ollama_options_spec(max_tokens: i32, temperature: Option<Seq<char>>) -> Seq<
    (Seq<char>, Seq<char>),
> {
    member_if(max_tokens > 0, "num_predict"@, decimal(max_tokens as nat)) + temperature_member(
        temperature,
    )
}

/// The members of an Ollama generation request, given the JSON string texts
/// (`context_literal`, `model_literal`, `system_literal`) of the context, the
/// model and the system prompt.
pub open spec fn ollama_members_spec(
    context_literal: Seq<char>,
    model: Seq<char>,
    model_literal: Seq<char>,
    system_prompt: Seq<char>,
    system_literal: Seq<char>,
    max_tokens: i32,
    temperature: Option<Seq<char>>,
) -> Seq<(Seq<char>, Seq<char>)> {
    let options = ollama_options_spec(max_tokens, temperature);
    member_if(model.len() > 0, "model"@, model_literal) + member_if(
        options.len() > 0,
        "options"@,
        json_object_text(options),
    ) + seq![("prompt"@, context_literal), ("stream"@, "true"@)] + member_if(
        trim_ws(system_prompt).len() > 0,
        "system"@,
        system_literal,
    )
}

/// The text of an Ollama generation request.
pub open spec fn ollama_payload_spec(
    context_text: Seq<char>,
    model: Seq<char>,
    system_prompt: Seq<char>,
    max_tokens: i32,
    temperature: Option<Seq<char>>,
) -> Seq<char> {
    json_object_text(
        ollama_members_spec(
            json_string_literal(context_text),
            model,
            json_string_literal(model),
            system_prompt,
            json_string_literal(system_prompt),
            max_tokens,
            temperature,
        ),
    )
}

/// One chat message object, given the JSON texts of its role and content.
pub open spec fn chat_message_spec(role_literal: Seq<char>, content_literal: Seq<char>) -> Seq<char> {
    json_object_text(seq![("content"@, content_literal), ("role"@, role_literal)])
}

/// The chat messages: the system prompt when it is not blank, then the
/// editor context as the user message.
pub open spec fn chat_messages_spec(
    context_literal: Seq<char>,
    system_prompt: Seq<char>,
    system_literal: Seq<char>,
) -> Seq<Seq<char>> {
    (if trim_ws(system_prompt).len() > 0 {
        seq![chat_message_spec("\"system\""@, system_literal)]
    } else {
        Seq::empty()
    }) + seq![chat_message_spec("\"user\""@, context_literal)]
}

/// The members of an OpenAI-compatible chat completion request, given the
/// JSON string texts of the context, the model and the system prompt.
pub open spec fn openai_members_spec(
    context_literal: Seq<char>,
    model: Seq<char>,
    model_literal: Seq<char>,
    system_prompt: Seq<char>,
    system_literal: Seq<char>,
    max_tokens: i32,
    temperature: Option<Seq<char>>,
) -> Seq<(Seq<char>, Seq<char>)> {
    member_if(max_tokens > 0, "max_tokens"@, decimal(max_tokens as nat)) + seq![
        (
            "messages"@,
            json_array_text(chat_messages_spec(context_literal, system_prompt, system_literal)),
        ),
    ] + member_if(model.len() > 0, "model"@, model_literal) + seq![("stream"@, "true"@)]
        + temperature_member(temperature)
}

/// The text of an OpenAI-compatible chat completion request.
pub open spec fn openai_payload_spec(
    context_text: Seq<char>,
    model: Seq<char>,
    system_prompt: Seq<char>,
    max_tokens: i32,
    temperature: Option<Seq<char>>,
) -> Seq<char> {
    json_object_text(
        openai_members_spec(
            json_string_literal(context_text),
            model,
            json_string_literal(model),
            system_prompt,
            json_string_literal(system_prompt),
            max_tokens,
            temperature,
        ),
    )
}

/// The text of the request body for a backend.
pub open spec fn request_payload_spec(
    context_text: Seq<char>,
    backend_type: BackendType,
    model: Seq<char>,
    system_prompt: Seq<char>,
    max_tokens: i32,
    temperature: Option<Seq<char>>,
) -> Seq<char> {
    match backend_type {
        BackendType::Ollama => ollama_payload_spec(
            context_text,
            model,
            system_prompt,
            max_tokens,
            temperature,
        ),
        BackendType::OpenAICompatible => openai_payload_spec(
            context_text,
            model,
            system_prompt,
            max_tokens,
            temperature,
        ),
    }
}

/// The view of an optional temperature text.
pub open spec fn temperature_view(temperature: Option<&str>) -> Option<Seq<char>> {
    match temperature {
        Some(t) => Some(t@),
        None => None,
    }
}

/// The body of an Ollama `/api/generate` streaming request, given the JSON
/// string texts of the context, the model and the system prompt.  An empty
/// model and a blank system prompt are left out; `options` holds
/// `num_predict` when `max_tokens` is positive and the temperature (given as
/// the JSON text of the number) when there is one.
pub fn ollama_payload_from_literals(
    context_literal: &str,
    model: &str,
    model_literal: &str,
    system_prompt: &str,
    system_literal: &str,
    max_tokens: i32,
    temperature: Option<&str>,
) -> (r: String)
    ensures
        r@ == json_object_text(
            ollama_members_spec(
                context_literal@,
                model@,
                model_literal@,
                system_prompt@,
                system_literal@,
                max_tokens,
                temperature_view(temperature),
            ),
        ),
{
    let ghost tv = temperature_view(temperature);
    let mut options: Vec<(String, String)> = Vec::new();
    if max_tokens > 0 {
        options.push(member("num_predict", decimal_string(max_tokens as u64)));
    }
    match temperature {
        Some(t) => {
            options.push(member("temperature", owned(t)));
        },
        None => {},
    }
    assert(pairs_view(options@) =~= ollama_options_spec(max_tokens, tv));
    let ghost spec_members = ollama_members_spec(
        context_literal@,
        model@,
        model_literal@,
        system_prompt@,
        system_literal@,
        max_tokens,
        tv,
    );
    let mut members: Vec<(String, String)> = Vec::new();
    if !model.is_empty() {
        members.push(member("model", owned(model_literal)));
    }
    if options.len() > 0 {
        members.push(member("options", json_object(&options)));
    }
    members.push(member("prompt", owned(context_literal)));
    members.push(member("stream", owned("true")));
    if !is_blank(system_prompt) {
        members.push(member("system", owned(system_literal)));
    }
    assert(pairs_view(members@) =~= spec_members);
    json_object(&members)
}

/// The body of an Ollama `/api/generate` streaming request (see
/// `ollama_payload_from_literals`).
pub fn build_ollama_payload(
    context_text: &str,
    model: &str,
    system_prompt: &str,
    max_tokens: i32,
    temperature: Option<&str>,
) -> (r: String)
    ensures
        r@ == ollama_payload_spec(
            context_text@,
            model@,
            system_prompt@,
            max_tokens,
            temperature_view(temperature),
        ),
{
    ollama_payload_from_literals(
        json_quote(context_text).as_str(),
        model,
        json_quote(model).as_str(),
        system_prompt,
        json_quote(system_prompt).as_str(),
        max_tokens,
        temperature,
    )
}

fn chat_message(role_literal: &str, content_literal: &str) -> (r: String)
    ensures
        r@ == chat_message_spec(role_literal@, content_literal@),
{
    let mut m: Vec<(String, String)> = Vec::new();
    m.push(member("content", owned(content_literal)));
    m.push(member("role", owned(role_literal)));
    assert(pairs_view(m@) =~= seq![("content"@, content_literal@), ("role"@, role_literal@)]);
    json_object(&m)
}

/// The body of an OpenAI-compatible `chat/completions` streaming request,
/// given the JSON string texts of the context, the model and the system
/// prompt: the system prompt (when not blank) and the context as chat
/// messages, an empty model left out, `max_tokens` when positive and the
/// temperature (given as the JSON text of the number) when there is one.
pub fn openai_payload_from_literals(
    context_literal: &str,
    model: &str,
    model_literal: &str,
    system_prompt: &str,
    system_literal: &str,
    max_tokens: i32,
    temperature: Option<&str>,
) -> (r: String)
    ensures
        r@ == json_object_text(
            openai_members_spec(
                context_literal@,
                model@,
                model_literal@,
                system_prompt@,
                system_literal@,
                max_tokens,
                temperature_view(temperature),
            ),
        ),
{
    let ghost tv = temperature_view(temperature);
    let mut messages: Vec<String> = Vec::new();
    if !is_blank(system_prompt) {
        messages.push(chat_message("\"system\"", system_literal));
    }
    messages.push(chat_message("\"user\"", context_literal));
    assert(strings_view(messages@) =~= chat_messages_spec(
        context_literal@,
        system_prompt@,
        system_literal@,
    ));
    let ghost spec_members = openai_members_spec(
        context_literal@,
        model@,
        model_literal@,
        system_prompt@,
        system_literal@,
        max_tokens,
        tv,
    );
    let mut members: Vec<(String, String)> = Vec::new();
    if max_tokens > 0 {
        members.push(member("max_tokens", decimal_string(max_tokens as u64)));
    }
    members.push(member("messages", json_array(&messages)));
    if !model.is_empty() {
        members.push(member("model", owned(model_literal)));
    }
    members.push(member("stream", owned("true")));
    match temperature {
        Some(t) => {
            members.push(member("temperature", owned(t)));
        },
        None => {},
    }
    assert(pairs_view(members@) =~= spec_members);
    json_object(&members)
}

/// The body of an OpenAI-compatible `chat/completions` streaming request
/// (see `openai_payload_from_literals`).
pub fn build_openai_compatible_payload(
    context_text: &str,
    model: &str,
    system_prompt: &str,
    max_tokens: i32,
    temperature: Option<&str>,
) -> (r: String)
    ensures
        r@ == openai_payload_spec(
            context_text@,
            model@,
            system_prompt@,
            max_tokens,
            temperature_view(temperature),
        ),
{
    openai_payload_from_literals(
        json_quote(context_text).as_str(),
        model,
        json_quote(model).as_str(),
        system_prompt,
        json_quote(system_prompt).as_str(),
        max_tokens,
        temperature,
    )
}

/// The request body in the form the backend expects.
pub fn build_request_payload(
    context_text: &str,
    backend_type: BackendType,
    model: &str,
    system_prompt: &str,
    max_tokens: i32,
    temperature: Option<&str>,
) -> (r: String)
    ensures
        r@ == request_payload_spec(
            context_text@,
            backend_type,
            model@,
            system_prompt@,
            max_tokens,
            temperature_view(temperature),
        ),
{
    match backend_type {
        BackendType::Ollama => build_ollama_payload(
            context_text,
            model,
            system_prompt,
            max_tokens,
            temperature,
        ),
        BackendType::OpenAICompatible => build_openai_compatible_payload(
            context_text,
            model,
            system_prompt,
            max_tokens,
            temperature,
        ),
    }
}

} // verus!
