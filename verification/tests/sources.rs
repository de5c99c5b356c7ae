use focusd::focus::{CommandOutput, FocusReading, FocusedWindow};
use focusd::hyprland::HyprWindow;
use focusd::idle::{is_session_idle, IdleGate};
use focusd::x11::{
    active_window, atom_names, read_window, Probe, ProbeStep, PropertyQuery, PropertyReply,
    PropertyType, X11Backend,
};

fn output(success: bool, stdout: &str) -> Option<CommandOutput> {
    Some(CommandOutput { success, stdout: stdout.as_bytes().to_vec() })
}

fn window(class: &str, title: &str) -> Option<HyprWindow> {
    Some(HyprWindow { class: class.to_string(), title: title.to_string() })
}

fn focused(app: &str, title: &str) -> FocusedWindow {
    FocusedWindow { app_identity: app.to_string(), title: title.to_string() }
}

fn reply(value_len: u32, value: &[u8]) -> Option<PropertyReply> {
    Some(PropertyReply { value_len, value: value.to_vec() })
}

fn backend() -> X11Backend {
    X11Backend::new(Some(301), Some(67), Some(302), Some(303)).unwrap()
}

#[test]
fn compositor_reply_with_a_window() {
    let text = "{\"class\": \"firefox\", \"title\": \"Mozilla Firefox\"}";
    let r = focusd::hyprland::get_focused_window(output(true, text), window("firefox", "Mozilla Firefox"));
    assert_eq!(r, Some(focused("firefox", "Mozilla Firefox")));
}

#[test]
fn compositor_reply_of_an_empty_object_is_nothing_focused() {
    for text in ["{}", "{}\n", "  {} \n"] {
        let reading = focusd::hyprland::read_focus(output(true, text), None);
        assert_eq!(reading, FocusReading::NothingFocused);
        assert_eq!(focusd::hyprland::get_focused_window(output(true, text), None), None);
        let decoded = window("x", "y");
        assert_eq!(focusd::hyprland::get_focused_window(output(true, text), decoded), None);
    }
}

#[test]
fn compositor_reply_that_is_malformed_is_unavailable() {
    for text in ["", "{", "{ }", "not json", "[]"] {
        let reading = focusd::hyprland::read_focus(output(true, text), None);
        assert_eq!(reading, FocusReading::Unavailable);
    }
    assert_eq!(focusd::hyprland::read_focus(None, None), FocusReading::Unavailable);
    assert_eq!(
        focusd::hyprland::read_focus(output(false, "{\"class\":\"a\",\"title\":\"\"}"), window("a", "")),
        FocusReading::Unavailable
    );
    assert_eq!(focusd::hyprland::get_focused_window(output(false, "{}"), None), None);
}

#[test]
fn compositor_reply_without_class_has_no_identity() {
    let text = "{\"class\": \"\", \"title\": \"t\"}";
    assert_eq!(focusd::hyprland::read_focus(output(true, text), window("", "t")), FocusReading::NoIdentity);
    assert_eq!(focusd::hyprland::get_focused_window(output(true, text), window("", "t")), None);
}

#[test]
fn compositor_title_may_be_empty() {
    let text = "{\"class\": \"kitty\", \"title\": \"\"}";
    let r = focusd::hyprland::get_focused_window(output(true, text), window("kitty", ""));
    assert_eq!(r, Some(focused("kitty", "")));
}

#[test]
fn compositor_query() {
    assert_eq!(focusd::hyprland::program(), "hyprctl");
    assert_eq!(focusd::hyprland::arguments(), vec!["activewindow", "-j"]);
    let o = CommandOutput { success: true, stdout: vec![b'{', 0xff, b'}'] };
    assert_eq!(focusd::hyprland::reply_text(&o), "{\u{fffd}}");
}

#[test]
fn idle_only_on_the_affirmative_hint() {
    let gate = IdleGate::new(Some("3".to_string()));
    assert!(gate.is_user_idle(output(true, "IdleHint=yes\n")));
    assert!(gate.is_user_idle(output(true, "IdleHint=yes")));
    assert!(!gate.is_user_idle(output(true, "IdleHint=no\n")));
    assert!(!gate.is_user_idle(output(true, "")));
    assert!(!gate.is_user_idle(output(true, "idlehint=yes")));
    assert!(!gate.is_user_idle(output(false, "IdleHint=yes\n")));
    assert!(!gate.is_user_idle(None));
}

#[test]
fn no_session_is_not_idle() {
    let gate = IdleGate::new(None);
    assert_eq!(gate.arguments(), None);
    assert!(!gate.is_user_idle(output(true, "IdleHint=yes\n")));
    assert!(!is_session_idle(&None, output(true, "IdleHint=yes\n")));
    assert!(is_session_idle(&Some("c1".to_string()), output(true, "IdleHint=yes\n")));
}

#[test]
fn idle_query() {
    let gate = IdleGate::new(Some("c2".to_string()));
    assert_eq!(focusd::idle::program(), "loginctl");
    assert_eq!(
        gate.arguments(),
        Some(vec!["show-session".to_string(), "c2".to_string(), "-p".to_string(), "IdleHint".to_string()])
    );
}

#[test]
fn backend_needs_all_atoms() {
    assert_eq!(atom_names(), vec!["_NET_ACTIVE_WINDOW", "WM_CLASS", "UTF8_STRING", "_NET_WM_NAME"]);
    let b = backend();
    assert_eq!(
        (b.atom_net_active_window, b.atom_wm_class, b.atom_utf8_string, b.atom_net_wm_name),
        (301, 67, 302, 303)
    );
    assert_eq!(X11Backend::new(None, Some(1), Some(2), Some(3)), None);
    assert_eq!(X11Backend::new(Some(1), None, Some(2), Some(3)), None);
    assert_eq!(X11Backend::new(Some(1), Some(2), None, Some(3)), None);
    assert_eq!(X11Backend::new(Some(1), Some(2), Some(3), None), None);
}

#[test]
fn active_window_of_zero_length_is_nothing_focused() {
    let b = backend();
    assert_eq!(b.get_focused_window(reply(0, &[]), None, None), None);
    assert_eq!(
        b.get_focused_window(reply(0, &[]), reply(1, b"a\0A"), reply(1, b"t")),
        None
    );
    assert_eq!(
        b.advance(Probe::AwaitActiveWindow, reply(0, &[])),
        ProbeStep::Done(FocusReading::NothingFocused)
    );
    assert_eq!(
        b.advance(Probe::AwaitActiveWindow, reply(0, &[1, 0, 0, 0])),
        ProbeStep::Done(FocusReading::NothingFocused)
    );
    assert_eq!(active_window(&PropertyReply { value_len: 0, value: vec![1, 0, 0, 0] }), None);
}

#[test]
fn active_window_is_read_in_the_byte_order_of_the_machine() {
    let bytes = [0x12, 0x34, 0x56, 0x78];
    let id = active_window(&PropertyReply { value_len: 1, value: bytes.to_vec() });
    assert_eq!(id, Some(u32::from_ne_bytes(bytes)));
    let longer = PropertyReply { value_len: 2, value: vec![1, 2, 3, 4, 5, 6, 7, 8] };
    assert_eq!(active_window(&longer), Some(u32::from_ne_bytes([1, 2, 3, 4])));
}

#[test]
fn a_short_window_reference_is_unavailable() {
    let b = backend();
    assert_eq!(active_window(&PropertyReply { value_len: 3, value: vec![1, 2, 3] }), None);
    assert_eq!(
        b.advance(Probe::AwaitActiveWindow, reply(3, &[1, 2, 3])),
        ProbeStep::Done(FocusReading::Unavailable)
    );
    assert_eq!(b.get_focused_window(reply(3, &[1, 2, 3]), reply(1, b"a"), reply(1, b"t")), None);
}

#[test]
fn window_class_normalizes_to_the_class_name() {
    assert_eq!(
        read_window(b"firefox\0Firefox", b"Mozilla Firefox"),
        FocusReading::Focused(focused("Firefox", "Mozilla Firefox"))
    );
    assert_eq!(read_window(b"xterm", b""), FocusReading::Focused(focused("xterm", "")));
    assert_eq!(read_window(b"", b"title"), FocusReading::NoIdentity);
    assert_eq!(read_window(b"firefox\0Firefox\0", b"title"), FocusReading::NoIdentity);
    assert_eq!(
        read_window(b"a\0B\xff", b"t\xc3\xa9"),
        FocusReading::Focused(focused("B\u{fffd}", "t\u{e9}"))
    );
}

#[test]
fn a_look_at_the_focus_step_by_step() {
    let b = backend();
    let root = 0x1d4;
    let first = b.begin(root);
    let ask_active = PropertyQuery {
        window: root,
        property: 301,
        property_type: PropertyType::Window,
        type_atom: None,
        long_offset: 0,
        long_length: 1,
    };
    assert_eq!(first, ProbeStep::Ask(Probe::AwaitActiveWindow, ask_active));
    let id = u32::from_ne_bytes([9, 0, 0, 2]);
    let second = b.advance(Probe::AwaitActiveWindow, reply(1, &[9, 0, 0, 2]));
    let ask_class = PropertyQuery {
        window: id,
        property: 67,
        property_type: PropertyType::String,
        type_atom: None,
        long_offset: 0,
        long_length: 1024,
    };
    assert_eq!(second, ProbeStep::Ask(Probe::AwaitClass { window: id }, ask_class));
    let third = b.advance(Probe::AwaitClass { window: id }, reply(15, b"firefox\0Firefox"));
    let ask_title = PropertyQuery {
        window: id,
        property: 303,
        property_type: PropertyType::Utf8String,
        type_atom: Some(302),
        long_offset: 0,
        long_length: 1024,
    };
    let waiting = Probe::AwaitTitle { window: id, class: b"firefox\0Firefox".to_vec() };
    assert_eq!(third, ProbeStep::Ask(waiting.clone(), ask_title));
    let last = b.advance(waiting, reply(4, b"Home"));
    assert_eq!(last, ProbeStep::Done(FocusReading::Focused(focused("Firefox", "Home"))));
}

#[test]
fn a_failed_request_ends_the_look() {
    let b = backend();
    let done = ProbeStep::Done(FocusReading::Unavailable);
    assert_eq!(b.advance(Probe::AwaitActiveWindow, None), done);
    assert_eq!(b.advance(Probe::AwaitClass { window: 5 }, None), done);
    assert_eq!(b.advance(Probe::AwaitTitle { window: 5, class: b"a\0A".to_vec() }, None), done);
    assert_eq!(b.get_focused_window(None, None, None), None);
    assert_eq!(b.get_focused_window(reply(1, &[1, 0, 0, 0]), None, reply(1, b"t")), None);
    assert_eq!(b.get_focused_window(reply(1, &[1, 0, 0, 0]), reply(1, b"a\0A"), None), None);
}

#[test]
fn all_three_answers_give_the_window() {
    let b = backend();
    let r = b.get_focused_window(reply(1, &[1, 0, 0, 0]), reply(15, b"firefox\0Firefox"), reply(1, b"t"));
    assert_eq!(r, Some(focused("Firefox", "t")));
    let r = b.get_focused_window(reply(1, &[1, 0, 0, 0]), reply(0, b""), reply(1, b"t"));
    assert_eq!(r, None);
}

#[test]
fn readings_other_than_focused_hold_no_window() {
    assert_eq!(FocusReading::NothingFocused.into_window(), None);
    assert_eq!(FocusReading::NoIdentity.into_window(), None);
    assert_eq!(FocusReading::Unavailable.into_window(), None);
    assert_eq!(FocusReading::Focused(focused("a", "b")).into_window(), Some(focused("a", "b")));
}
