use pointer_core::control::handle_frame;

#[test]
fn unknown_type_is_ignored() {
    let action = handle_frame("{\"type\":\"unknown\",\"data\":{}}");
    assert!(action.is_none());
}

#[test]
fn recognized_frame_yields_action() {
    let text = "{\"type\":\"hotkey-pressed\",\"data\":{\"position\":{\"x\":640.5,\"y\":360},\"selected_text\":\"abc\"}}";
    let action = handle_frame(text).expect("both coordinates are present");
    assert_eq!(action.x_text, "640.5");
    assert_eq!(action.y_text, "360");
    let ctx = action.context;
    assert_eq!(
        ctx.get("selected_text").and_then(|v| v.as_str()),
        Some("abc")
    );
}

#[test]
fn missing_coordinate_drops_the_frame() {
    let action = handle_frame("{\"type\":\"hotkey-pressed\",\"data\":{\"position\":{\"x\":640.5}}}");
    assert!(action.is_none());
}

#[test]
fn non_numeric_coordinate_drops_the_frame() {
    let action = handle_frame(
        "{\"type\":\"hotkey-pressed\",\"data\":{\"position\":{\"x\":\"640\",\"y\":360}}}",
    );
    assert!(action.is_none());
}

#[test]
fn malformed_frame_is_ignored() {
    assert!(handle_frame("not json at all").is_none());
    assert!(handle_frame("{\"data\":{}}").is_none());
    assert!(handle_frame("{\"type\":7,\"data\":{}}").is_none());
}
