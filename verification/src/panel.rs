//! What the Copilot panel and the status bar show: the log entries of a
//! request, the state of the panel's buttons, where the panel goes, and the
//! editor colours it copies.
use vstd::prelude::*;

use crate::text::{concat2, concat3, is_blank, owned, remove_char, trim_ws, without_char};

verus! {

/// The model named in the log when none is configured.
pub const SERVER_DEFAULT_MODEL_LABEL: &'static str = "server default";

/// The header line of a request's reasoning in the thinking log.
pub const THINKING_HEADER: &'static str = "Thinking — ";

/// The header line of a request in the payload log.
pub const REQUEST_HEADER: &'static str = "Request — ";

/// The line that stands for the authorization header in the payload log.
pub const REDACTED_AUTHORIZATION_LINE: &'static str = "Authorization: Bearer [redacted]\n";

/// What closes a log entry.
pub const LOG_ENTRY_END: &'static str = "\n\n\n";

/// What the error log shows for an empty response.
pub const NO_RESPONSE_BODY: &'static str = "(no response body)";

/// The panel status while a request waits for its answer.
pub const WAITING_STATUS: &'static str = "Waiting for response...";

/// The panel statistics when a request starts.
pub const WAITING_STATS: &'static str = "0 tokens | 0.0 t/s";

/// The panel statistics with no request running.
pub const IDLE_STATS: &'static str = "No active request";

/// The panel statistics while a request is ending.
pub const ENDING_STATS: &'static str = "Request ending...";

/// The panel status after Stop.
pub const STOPPING_STATUS: &'static str = "Stopping — keeping partial response...";

/// The panel status after Cancel.
pub const CANCELLING_STATUS: &'static str = "Cancelling Copilot request...";

/// The model as the logs name it: `server default` when none is set.
pub open spec fn model_label_spec(model: Seq<char>) -> Seq<char> {
    if model.len() == 0 {
        SERVER_DEFAULT_MODEL_LABEL@
    } else {
        model
    }
}

/// `[<timestamp>] `
pub open spec fn stamp_spec(timestamp: Seq<char>) -> Seq<char> {
    seq!['['] + timestamp + seq![']', ' ']
}

/// The thinking log line that opens a request:
/// `[<timestamp>] Thinking — <model>` and a line break.
pub open spec fn thinking_log_header_spec(timestamp: Seq<char>, model: Seq<char>) -> Seq<char> {
    stamp_spec(timestamp) + THINKING_HEADER@ + model_label_spec(model) + seq!['\n']
}

/// The payload log entry of a request: `[<timestamp>] Request — <model>`,
/// `POST <url>`, a redacted authorization line when a key is sent, the
/// payload, and the end of an entry.
pub open spec fn payload_log_entry_spec(
    timestamp: Seq<char>,
    model: Seq<char>,
    url: Seq<char>,
    payload: Seq<char>,
    uses_authorization: bool,
) -> Seq<char> {
    stamp_spec(timestamp) + REQUEST_HEADER@ + model_label_spec(model) + "\nPOST "@ + url
        + seq!['\n'] + (if uses_authorization {
        REDACTED_AUTHORIZATION_LINE@
    } else {
        Seq::empty()
    }) + payload + LOG_ENTRY_END@
}

/// The error log entry of a failed request: `[<timestamp>] <status>`, the
/// response (or `(no response body)` when it is blank), and the end of an
/// entry.
pub open spec fn error_log_entry_spec(
    timestamp: Seq<char>,
    status: Seq<char>,
    raw_response: Seq<char>,
) -> Seq<char> {
    stamp_spec(timestamp) + status + seq!['\n'] + (if trim_ws(raw_response).len() == 0 {
        NO_RESPONSE_BODY@
    } else {
        raw_response
    }) + LOG_ENTRY_END@
}

fn stamp(timestamp: &str) -> (r: String)
    ensures
        r@ == stamp_spec(timestamp@),
{
    proof {
        reveal_strlit("[");
        reveal_strlit("] ");
    }
    concat3("[", timestamp, "] ")
}

/// The model as the logs name it.
pub fn model_label(model: &str) -> (r: &str)
    ensures
        r@ == model_label_spec(model@),
{
    if model.is_empty() {
        SERVER_DEFAULT_MODEL_LABEL
    } else {
        model
    }
}

/// The thinking log line that opens a request.
pub fn thinking_log_header(timestamp: &str, model: &str) -> (r: String)
    ensures
        r@ == thinking_log_header_spec(timestamp@, model@),
{
    proof {
        reveal_strlit("\n");
    }
    let mut r = stamp(timestamp);
    r.append(THINKING_HEADER);
    r.append(model_label(model));
    r.append("\n");
    r
}

/// The payload log entry of a request.
pub fn payload_log_entry(
    timestamp: &str,
    model: &str,
    url: &str,
    payload: &str,
    uses_authorization: bool,
) -> (r: String)
    ensures
        r@ == payload_log_entry_spec(timestamp@, model@, url@, payload@, uses_authorization),
{
    proof {
        reveal_strlit("\n");
        reveal_strlit("");
    }
    let mut r = stamp(timestamp);
    r.append(REQUEST_HEADER);
    r.append(model_label(model));
    r.append("\nPOST ");
    r.append(url);
    r.append("\n");
    if uses_authorization {
        r.append(REDACTED_AUTHORIZATION_LINE);
    }
    r.append(payload);
    r.append(LOG_ENTRY_END);
    assert(r@ =~= payload_log_entry_spec(timestamp@, model@, url@, payload@, uses_authorization));
    r
}

/// The error log entry of a failed request.
pub fn error_log_entry(timestamp: &str, status: &str, raw_response: &str) -> (r: String)
    ensures
        r@ == error_log_entry_spec(timestamp@, status@, raw_response@),
{
    proof {
        reveal_strlit("\n");
    }
    let mut r = stamp(timestamp);
    r.append(status);
    r.append("\n");
    if is_blank(raw_response) {
        r.append(NO_RESPONSE_BODY);
    } else {
        r.append(raw_response);
    }
    r.append(LOG_ENTRY_END);
    r
}

/// The panel status after Stop (`stop`) or Cancel.
pub fn cancelling_status(stop: bool) -> (r: &'static str)
    ensures
        r@ == (if stop {
            STOPPING_STATUS@
        } else {
            CANCELLING_STATUS@
        }),
{
    if stop {
        STOPPING_STATUS
    } else {
        CANCELLING_STATUS
    }
}

/// Which controls can be used.
pub struct PanelControls {
    pub tool_button: bool,
    pub ask: bool,
    pub stop: bool,
    pub cancel: bool,
}

/// The controls while a request runs (`active`) or not: asking only when
/// none runs, stopping and cancelling only while one does.
pub fn panel_controls(active: bool) -> (r: PanelControls)
    ensures
        r.tool_button == !active,
        r.ask == !active,
        r.stop == active,
        r.cancel == active,
{
    PanelControls { tool_button: !active, ask: !active, stop: active, cancel: active }
}

/// What a keybinding does.
#[derive(Debug, Clone, Copy, PartialEq, Eq, Structural)]
pub enum KeyAction {
    AskCopilot,
    SwitchPreset,
}

/// The action bound to `key_id`: the first key asks, the second moves to
/// the next preset, any other is not handled.
pub fn keybinding_action(key_id: u32) -> (r: Option<KeyAction>)
    ensures
        key_id == 0 ==> r == Some(KeyAction::AskCopilot),
        key_id == 1 ==> r == Some(KeyAction::SwitchPreset),
        key_id > 1 ==> r is None,
{
    if key_id == 0 {
        Some(KeyAction::AskCopilot)
    } else if key_id == 1 {
        Some(KeyAction::SwitchPreset)
    } else {
        None
    }
}

/// The red, green and blue parts of an editor colour, which keeps red in
/// the low byte, then green, then blue.
pub fn unpack_bgr(color: isize) -> (r: (u8, u8, u8))
    ensures
        r.0 == (color as u32) % 256,
        r.1 == ((color as u32) / 256) % 256,
        r.2 == ((color as u32) / 65536) % 256,
{
    let c = color as u32;
    let red = c & 0xff;
    let green = (c >> 8u32) & 0xff;
    let blue = (c >> 16u32) & 0xff;
    assert(red == c % 256) by (bit_vector)
        requires
            red == c & 0xff,
    ;
    assert(green == (c / 256) % 256) by (bit_vector)
        requires
            green == (c >> 8u32) & 0xff,
    ;
    assert(blue == (c / 65536) % 256) by (bit_vector)
        requires
            blue == (c >> 16u32) & 0xff,
    ;
    (red as u8, green as u8, blue as u8)
}

/// A share of the panel width for the log column, in percent, taken
/// between 20 and 95.
pub open spec fn bounded_share_spec(percent: int) -> int {
    if percent < 20 {
        20
    } else if percent > 95 {
        95
    } else {
        percent
    }
}

/// The share of the panel width for the log column, taken between 20 and
/// 95 percent.
pub fn bounded_divider_share(percent: i32) -> (r: i32)
    ensures
        r == bounded_share_spec(percent as int),
        20 <= r <= 95,
{
    if percent < 20 {
        20
    } else if percent > 95 {
        95
    } else {
        percent
    }
}

/// Where the divider of the message window panel goes when it gets `width`
/// after `last_width`: nowhere for a width of 50 or less or an unchanged
/// width, else at `split` percent of the width (`split` taken between 20
/// and 95).
pub open spec fn paned_position_spec(last_width: i32, width: i32, split: i32) -> Option<i32> {
    if width <= 50 || width == last_width {
        None
    } else {
        Some(((width as int) * bounded_share_spec(split as int) / 100) as i32)
    }
}

/// Where the divider of the message window panel goes.
pub fn paned_position(last_width: i32, width: i32, split: i32) -> (r: Option<i32>)
    ensures
        r == paned_position_spec(last_width, width, split),
        r matches Some(p) ==> 0 <= p <= width,
{
    if width <= 50 || width == last_width {
        return None;
    }
    let s: i64 = bounded_divider_share(split) as i64;
    let w = width as i64;
    assert(w * s <= w * 95) by (nonlinear_arith)
        requires
            w >= 0,
            s <= 95,
    ;
    assert(w * s >= 0) by (nonlinear_arith)
        requires
            w >= 0,
            s >= 0,
    ;
    let pos = w * s / 100;
    assert(pos <= w) by (nonlinear_arith)
        requires
            pos == w * s / 100,
            w * s <= w * 95,
            w >= 0,
    ;
    Some(pos as i32)
}

/// Whether a divider moved by hand sets the share of the log column: only
/// once the panel is wider than 100 and the divider lies inside it.
pub fn records_divider_share(width: i32, pos: i32) -> (r: bool)
    ensures
        r == (width > 100 && 0 < pos && pos < width),
{
    width > 100 && 0 < pos && pos < width
}

/// What to do with the thinking log panel.
pub struct PanelPlan {
    /// Take down the panel that is there.
    pub remove_existing: bool,
    /// Build the panel at the place asked for.
    pub build: bool,
}

/// The change of the thinking log panel when the log is switched on
/// (`enabled`) or off, with the panel now at `current_location` (none when
/// it is not there) and asked for at `target_location`: off takes it down;
/// on keeps a panel already at the right place, and otherwise takes down the
/// one elsewhere and builds a new one.
pub fn panel_plan(enabled: bool, current_location: Option<i32>, target_location: i32) -> (r:
    PanelPlan)
    ensures
        !enabled ==> r.remove_existing && !r.build,
        enabled ==> match current_location {
            Some(loc) => if loc == target_location {
                !r.remove_existing && !r.build
            } else {
                r.remove_existing && r.build
            },
            None => !r.remove_existing && r.build,
        },
{
    if !enabled {
        return PanelPlan { remove_existing: true, build: false };
    }
    match current_location {
        Some(loc) => if loc == target_location {
            PanelPlan { remove_existing: false, build: false }
        } else {
            PanelPlan { remove_existing: true, build: true }
        },
        None => PanelPlan { remove_existing: false, build: true },
    }
}

/// What the error dialog says when the model list could not be had (with
/// every NUL character left out, which a dialog cannot show).
pub open spec fn model_list_error_details_spec(
    url: Seq<char>,
    error: Seq<char>,
    response: Seq<char>,
) -> Seq<char> {
    remove_char(
        "Failed to list models.\n\nURL: "@ + url + "\nError: "@ + error + "\n\nResponse:\n"@ + (
        if response.len() == 0 {
            "(empty)"@
        } else {
            response
        }),
        '\0',
    )
}

/// What the error dialog says when the model list could not be had.
pub fn model_list_error_details(url: &str, error: &str, response: &str) -> (r: String)
    ensures
        r@ == model_list_error_details_spec(url@, error@, response@),
        !r@.contains('\0'),
{
    let mut text = concat2("Failed to list models.\n\nURL: ", url);
    text.append("\nError: ");
    text.append(error);
    text.append("\n\nResponse:\n");
    if response.is_empty() {
        text.append("(empty)");
    } else {
        text.append(response);
    }
    let r = without_char(text.as_str(), '\0');
    proof {
        crate::text::lemma_remove_char_absent(text@, '\0');
    }
    r
}

/// The error of a model list request before its answer is read: the set-up
/// error, else the connection error, else `HTTP error <status>` for a status
/// of 400 or more; none when the request went through.
pub open spec fn model_list_fetch_error_spec(
    setup_error: Option<Seq<char>>,
    connection_error: Option<Seq<char>>,
    status: Option<u32>,
) -> Option<Seq<char>> {
    match setup_error {
        Some(e) => Some(crate::stream::CURL_SETUP_ERROR_PREFIX@ + e),
        None => match connection_error {
            Some(e) => Some("Connection error: "@ + e),
            None => match status {
                Some(s) => if s >= 400 {
                    Some("HTTP error "@ + crate::text::decimal(s as nat))
                } else {
                    None
                },
                None => None,
            },
        },
    }
}

/// The error of a model list request before its answer is read.
pub fn model_list_fetch_error(
    setup_error: Option<&str>,
    connection_error: Option<&str>,
    status: Option<u32>,
) -> (r: Option<String>)
    ensures
        r matches Some(t) ==> model_list_fetch_error_spec(
            crate::settings::opt_str_view(setup_error),
            crate::settings::opt_str_view(connection_error),
            status,
        ) == Some(t@),
        r is None ==> model_list_fetch_error_spec(
            crate::settings::opt_str_view(setup_error),
            crate::settings::opt_str_view(connection_error),
            status,
        ) is None,
{
    match setup_error {
        Some(e) => Some(crate::stream::setup_error_message(e)),
        None => match connection_error {
            Some(e) => Some(concat2("Connection error: ", e)),
            None => match status {
                Some(s) => if s >= 400 {
                    Some(concat2("HTTP error ", crate::text::decimal_string(s as u64).as_str()))
                } else {
                    None
                },
                None => None,
            },
        },
    }
}

} // verus!
