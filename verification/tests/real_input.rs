use cua_driver::real_input::{
    capability, cursorpos_fields, find_ydotool_socket, in_input_group, socket_candidates,
    split_cursorpos, Backend, Capability, RealInput, RealInputError, YdotoolCall, YdotoolVerb,
};
use cua_driver::uinput_device::{click, key, move_abs, type_text, NotImplemented};

fn bytes(s: &str) -> Vec<u8> {
    s.as_bytes().to_vec()
}

fn ready() -> RealInput {
    RealInput::detect(&Capability {
        ydotool_socket: Some(bytes("/run/y")),
        dev_uinput_writable: false,
        in_input_group: false,
    })
    .unwrap()
}

fn run(call: Result<Option<YdotoolCall>, RealInputError>) -> Vec<String> {
    let call = call.unwrap().unwrap();
    assert_eq!(call.socket, bytes("/run/y"));
    call.args()
}

#[test]
fn sockets_are_looked_for_in_order() {
    assert_eq!(
        socket_candidates(Some(b"/a"), Some(b"/run/user/1000"), Some("1000")),
        vec![
            bytes("/a"),
            bytes("/run/user/1000/.ydotool_socket"),
            bytes("/run/user/1000/.ydotool_socket"),
            bytes("/tmp/.ydotool_socket"),
        ]
    );
    assert_eq!(
        socket_candidates(None, Some(b"/run/"), None),
        vec![bytes("/run/.ydotool_socket"), bytes("/tmp/.ydotool_socket")]
    );
    assert_eq!(socket_candidates(None, None, None), vec![bytes("/tmp/.ydotool_socket")]);
    let candidates = socket_candidates(Some(b"/a"), Some(b"/b"), None);
    assert_eq!(
        find_ydotool_socket(&candidates, &[false, true, true]),
        Some(bytes("/b/.ydotool_socket"))
    );
    assert_eq!(find_ydotool_socket(&candidates, &[true, true, true]), Some(bytes("/a")));
    assert_eq!(find_ydotool_socket(&candidates, &[false, false, false]), None);
}

#[test]
fn the_input_group_is_recognised() {
    let groups = vec!["wheel".to_string(), "input".to_string()];
    assert!(in_input_group(&groups));
    assert!(!in_input_group(&groups[..1]));
    assert!(!in_input_group(&["inputs".to_string()]));
    assert!(!in_input_group(&[]));
}

#[test]
fn capabilities_are_summed_up() {
    let groups = vec!["input".to_string()];
    let found = capability(&[bytes("/s"), bytes("/t")], &[false, true], true, &groups);
    assert_eq!(found.ydotool_socket, Some(bytes("/t")));
    assert!(found.dev_uinput_writable && found.in_input_group);
    assert_eq!(found.summary(), "ydotoold socket /t (preferred)");
    let direct = capability(&[bytes("/s")], &[false], true, &[]);
    assert_eq!(
        direct.summary(),
        "/dev/uinput writable but ydotoold not running — start ydotoold; \
         direct /dev/uinput injection is a tracked follow-up"
    );
    let nothing = capability(&[], &[], false, &groups);
    assert_eq!(
        nothing.summary(),
        "unavailable — no ydotoold socket and /dev/uinput not writable (in 'input' group)"
    );
    let outside = capability(&[], &[], false, &[]);
    assert_eq!(
        outside.summary(),
        "unavailable — no ydotoold socket and /dev/uinput not writable (NOT in 'input' group)"
    );
    let odd = Capability {
        ydotool_socket: Some(vec![b'/', 0xff]),
        dev_uinput_writable: false,
        in_input_group: false,
    };
    assert_eq!(odd.summary(), "ydotoold socket /\u{fffd} (preferred)");
}

#[test]
fn only_ydotool_is_chosen() {
    let direct = capability(&[], &[], true, &[]);
    assert!(direct.preferred_backend().is_none());
    assert_eq!(Backend::DevUinput.name(), "uinput");
    assert_eq!(Backend::Ydotool { socket: vec![] }.name(), "ydotool");
    assert_eq!(ready().backend_name(), "ydotool");
    let refused = RealInput::detect(&direct).err().unwrap();
    assert_eq!(
        refused.message(),
        format!(
            "real-input tier unavailable: {}. Start ydotoold (e.g. `systemctl --user \
             start ydotool` or run `ydotoold`), or make /dev/uinput writable (add your \
             user to the 'input' group and re-login). See `cua-driver doctor`.",
            direct.summary()
        )
    );
}

#[test]
fn moves_and_clicks_become_ydotool_runs() {
    assert_eq!(
        run(ready().backend_move_abs(12, -7)),
        vec!["mousemove", "-a", "-x", "12", "-y", "-7"]
    );
    assert_eq!(
        run(ready().backend_move_abs(i64::MIN, i64::MAX)),
        vec!["mousemove", "-a", "-x", "-9223372036854775808", "-y", "9223372036854775807"]
    );
    for (button, code) in [(1, "0xC0"), (2, "0xC2"), (3, "0xC1"), (0, "0xC0"), (9, "0xC0")] {
        assert_eq!(run(ready().backend_click(button)), vec!["click", code]);
    }
    assert_eq!(run(ready().type_text("-a b")), vec!["type", "--", "-a b"]);
}

#[test]
fn keys_are_pressed_inside_their_modifiers() {
    assert_eq!(
        run(ready().key("A", &["Ctrl", "nope", "SHIFT"])),
        vec!["key", "29:1", "42:1", "30:1", "30:0", "42:0", "29:0"]
    );
    assert_eq!(run(ready().key("f5", &[])), vec!["key", "63:1", "63:0"]);
    assert_eq!(run(ready().press(28, &[56])), vec!["key", "56:1", "28:1", "28:0", "56:0"]);
    let unknown = ready().key("Hyper", &["ctrl"]).unwrap_err();
    assert_eq!(unknown.message(), "no evdev keycode for key 'Hyper'");
}

#[test]
fn failed_runs_tell_what_ydotool_said() {
    let call = YdotoolCall { socket: vec![], verb: YdotoolVerb::Type, rest: vec![] };
    assert!(call.outcome(true, b"noise").is_ok());
    let failed = call.outcome(false, b"  no \xff socket\n").unwrap_err();
    assert_eq!(failed.message(), "ydotool \"type\" failed: no \u{fffd} socket");
    let call = YdotoolCall { socket: vec![], verb: YdotoolVerb::MouseMove, rest: vec![] };
    assert_eq!(call.outcome(false, b"").unwrap_err().message(), "ydotool \"mousemove\" failed: ");
}

#[test]
fn the_cursor_is_read_in_two_fields() {
    let fields = |s: &str| split_cursorpos(s).ok();
    assert_eq!(fields("12, 34\n"), Some(("12".to_string(), "34".to_string())));
    assert_eq!(fields(" -5 ,6.5, 7"), Some(("-5".to_string(), "6.5, 7".to_string())));
    assert_eq!(fields(","), Some((String::new(), String::new())));
    assert_eq!(fields("12 34"), None);
    assert_eq!(
        cursorpos_fields(true, b"1, 2").ok(),
        Some(("1".to_string(), "2".to_string()))
    );
    assert_eq!(
        cursorpos_fields(true, b"1\xff, 2").ok(),
        Some(("1\u{fffd}".to_string(), "2".to_string()))
    );
    assert_eq!(cursorpos_fields(false, b"1, 2").unwrap_err().message(), "hyprctl cursorpos failed");
    assert_eq!(cursorpos_fields(true, b"").unwrap_err().message(), "unexpected cursorpos output");
}

#[test]
fn the_direct_backend_is_not_implemented() {
    let words = "direct /dev/uinput injection is not yet implemented; \
         start ydotoold to use the real-input tier (shuv1337/cua#18 follow-up)";
    assert_eq!(move_abs(1, 2).unwrap_err().message(), words);
    assert_eq!(click(1), Err(NotImplemented));
    assert_eq!(type_text("a"), Err(NotImplemented));
    assert_eq!(key(30, &[29]), Err(NotImplemented));
    assert_eq!(RealInputError::NotImplemented(NotImplemented).message(), words);
}
