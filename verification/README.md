# Geany Copilot

A Geany plugin that sends the text around the cursor (or the selection) to an
LLM backend (Ollama or an OpenAI-compatible server) and inserts the answer
into the document.

The decisions of the plugin live in a library verified with Verus (`src/`);
the Geany, GTK and GLib bindings, the settings file, the HTTP transfers and
the few floating-point steps live in `app/`, which calls the library.

## Layout

```
src/
├── text.rs      # character-level helpers: trimming, decimal text, number parsing
├── json.rs      # JSON values as read, compact JSON text as written
├── backend.rs   # backends, presets, timeout choices, endpoint URLs
├── payload.rs   # request bodies for both backends
├── responses.rs # answers, API errors, model lists, token estimate
├── stream.rs    # decoding the streamed answer and finishing a request
├── request.rs   # context, request preparation, one request at a time, placement
├── config.rs    # the settings file: what is written and what is read back
├── globals.rs   # the shared settings and switching presets
├── settings.rs  # editing presets and token limits
└── panel.rs     # panel texts, controls, divider and colours
app/             # the plugin itself: FFI, widgets, key file, curl, threads
tests/           # tests of the library
```

The laws the library keeps (among them: a saved configuration loads back
unchanged, endpoint URLs are stable under normalization, stopping keeps the
partial answer and cancelling discards it, switching presets wraps around)
are proof functions next to the code they are about.
