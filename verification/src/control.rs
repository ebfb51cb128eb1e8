//! Router of inbound control messages. The backend sends frames of the
//! shape `{"type": ..., "data": {...}}`; the one recognized type asks
//! for the pointer overlay at a screen position. A frame that is not
//! JSON, carries another type, or misses a coordinate is dropped
//! silently — never an error.
use vstd::prelude::*;
use vstd::string::StringExecFns;

verus! {

#[verifier::external_type_specification]
#[verifier::external_body]
pub struct ExValue(serde_json::Value);

/// The fields the router reads from a control frame's text: the type
/// tag and, if present, the numeric `data.position.x` / `y` values,
/// each carried as its JSON text. A function of the text alone; named,
/// not written out, because it goes through the JSON parser this crate
/// calls.
pub uninterp spec fn control_fields_of(text: Seq<char>) -> Option<
    (Seq<char>, Option<Seq<char>>, Option<Seq<char>>),
>;

/// A decoded control frame. The coordinates are carried as the JSON
/// text of their numeric values: the router only tests their presence
/// and passes the values through. `context` is the frame's `data`
/// payload, handed on opaquely to the UI layer.
pub struct ControlFrame {
    pub msg_type: String,
    pub x_text: Option<String>,
    pub y_text: Option<String>,
    pub context: serde_json::Value,
}

pub open spec fn view_of_opt(s: Option<String>) -> Option<Seq<char>> {
    match s {
        Some(t) => Some(t@),
        None => None,
    }
}

/// Relies on serde_json::from_str, Value::get, Value::as_str,
/// Value::pointer, Value::is_number and Value::to_string: decodes a
/// control frame from one inbound text frame; the fields are a
/// function of the text alone.
#[verifier::external_body]
fn parse_control_frame(text: &str) -> (r: Option<ControlFrame>)
    ensures
        (r is Some) == (control_fields_of(text@) is Some),
        r matches Some(f) ==> control_fields_of(text@) matches Some(g) && f.msg_type@ == g.0
            && view_of_opt(f.x_text) == g.1 && view_of_opt(f.y_text) == g.2,
{
    let v: serde_json::Value = serde_json::from_str(text).ok()?;
    let msg_type = v.get("type")?.as_str()?.to_string();
    let context = v.get("data").cloned().unwrap_or(serde_json::Value::Null);
    let x = context.pointer("/position/x");
    let x_text = match x { Some(n) if n.is_number() => Some(n.to_string()), _ => None };
    let y = context.pointer("/position/y");
    let y_text = match y { Some(n) if n.is_number() => Some(n.to_string()), _ => None };
    Some(ControlFrame { msg_type, x_text, y_text, context })
}

/// The one recognized control message type.
pub open spec fn pointer_request_type() -> Seq<char> {
    "hotkey-pressed"@
}

/// The action a recognized control message commands: show the pointer
/// overlay at a screen position (coordinates as the JSON text of their
/// numeric values), with the message's `data` payload as context.
pub struct UiAction {
    pub x_text: String,
    pub y_text: String,
    pub context: serde_json::Value,
}

/// Routes a decoded frame: an action exactly when the type is the
/// recognized one and both coordinates are present; nothing — and no
/// error — otherwise.
pub fn route_control_frame(frame: ControlFrame) -> (r: Option<UiAction>)
    ensures
        match r {
            Some(a) => {
                &&& frame.msg_type@ == pointer_request_type()
                &&& view_of_opt(frame.x_text) == Some(a.x_text@)
                &&& view_of_opt(frame.y_text) == Some(a.y_text@)
                &&& a.context == frame.context
            },
            None => frame.msg_type@ != pointer_request_type() || frame.x_text is None
                || frame.y_text is None,
        },
{
    let expected = String::from_str("hotkey-pressed");
    if !frame.msg_type.eq(&expected) {
        return None;
    }
    match (frame.x_text, frame.y_text) {
        (Some(x_text), Some(y_text)) => Some(
            UiAction { x_text, y_text, context: frame.context },
        ),
        _ => None,
    }
}

/// Decodes one inbound frame and routes it. An action comes back
/// exactly when the text decodes to a frame of the recognized type
/// with both coordinates; everything else is dropped silently.
pub fn handle_frame(text: &str) -> (r: Option<UiAction>)
    ensures
        match control_fields_of(text@) {
            Some(g) => {
                if g.0 == pointer_request_type() && g.1 is Some && g.2 is Some {
                    r matches Some(a) && g.1 == Some(a.x_text@) && g.2 == Some(a.y_text@)
                } else {
                    r is None
                }
            },
            None => r is None,
        },
{
    match parse_control_frame(text) {
        Some(frame) => route_control_frame(frame),
        None => None,
    }
}

} // verus!
