use mmpd::focus::mac_os::window_from_script_output;
use mmpd::focus::{decode_strings, property_strings, window_from_properties};
use mmpd::keyboard_control::windows::{
    build_enter_text_inputs, build_keysequence_inputs, get_virtual_keycode, KeyboardInput,
};
use mmpd::keyboard_control::KeyboardControlError;
use mmpd::midi::MidiMessage;
use mmpd::monitor::{
    inkscape_response, monitor_response, parse_message, parse_quoted_list,
    window_from_xprop_output, MonitorResponse,
};

#[test]
fn decodes_nul_separated_strings() {
    assert_eq!(decode_strings(b"abc\0d\xff\0ef"), vec!["abc".to_string(), "ef".to_string()]);
    assert_eq!(decode_strings(b"name\0"), vec!["name".to_string()]);
    assert_eq!(decode_strings(b"\0"), vec!["".to_string()]);
    assert_eq!(decode_strings(b"a\0\0"), vec!["a".to_string(), "".to_string()]);
    assert_eq!(property_strings(false, 8, b""), None);
    assert_eq!(property_strings(true, 32, b""), None);
    assert_eq!(property_strings(true, 8, b"x\0y"), Some(vec!["x".to_string(), "y".to_string()]));
}

#[test]
fn builds_window_from_properties() {
    let w = window_from_properties(vec!["c1".to_string()], &vec!["n1".to_string(), "n2".to_string()]).unwrap();
    assert_eq!(w.window_class, vec!["c1".to_string()]);
    assert_eq!(w.window_name, "n1");
    assert!(window_from_properties(vec![], &vec![]).is_none());
}

#[test]
fn reads_mac_window_script_output() {
    let w = window_from_script_output(b"  Foo\nfoo\nA window\n/Applications/Foo.app/Contents/MacOS/Foo\n").unwrap();
    assert_eq!(w.window_class, vec!["Foo".to_string(), "foo".to_string()]);
    assert_eq!(w.window_name, "A window");
    assert_eq!(w.executable_path, Some("/Applications/Foo.app/Contents/MacOS/Foo".to_string()));
    assert_eq!(w.executable_basename, Some("Foo".to_string()));
    assert!(window_from_script_output(b"a\nb\nc").is_none());
    assert!(window_from_script_output(b"a\nb\nc\n\xff").is_none());
}

#[test]
fn maps_windows_virtual_keys() {
    assert_eq!(get_virtual_keycode("Ctrl"), Some(0x11));
    assert_eq!(get_virtual_keycode("page_up"), Some(0x21));
    assert_eq!(get_virtual_keycode("prior"), Some(0x21));
    assert_eq!(get_virtual_keycode("F24"), Some(0x87));
    assert_eq!(get_virtual_keycode("z"), Some(0x5A));
    assert_eq!(get_virtual_keycode("nokey"), None);
    let down = |c: u16| KeyboardInput { virtual_key: c, scan_code: 0, unicode: false, key_up: false };
    let up = |c: u16| KeyboardInput { virtual_key: c, scan_code: 0, unicode: false, key_up: true };
    assert_eq!(build_keysequence_inputs("ctrl+shift+t").ok().unwrap(), vec![down(0x11), down(0x10), down(0x54), up(0x54), up(0x10), up(0x11)]);
    assert_eq!(
        build_keysequence_inputs("ctrl+nokey+x").err().unwrap(),
        KeyboardControlError::InvalidKey("nokey".to_string())
    );
    let inputs = build_enter_text_inputs("a\u{1F600}");
    let units: Vec<u16> = inputs.iter().map(|i| i.scan_code).collect();
    assert_eq!(units, vec![0x61, 0x61, 0xD83D, 0xD83D, 0xDE00, 0xDE00]);
    assert!(inputs.iter().all(|i| i.unicode && i.virtual_key == 0));
    assert_eq!(inputs.iter().filter(|i| i.key_up).count(), 3);
}

#[test]
fn decodes_port_messages_as_the_monitor_does() {
    assert_eq!(parse_message(0x92, 200, 10), MidiMessage::NoteOn { channel: 2, key: 200, velocity: 10 });
    assert_eq!(parse_message(0xE0, 0xFF, 0xFF), MidiMessage::PitchBendChange { channel: 0, value: 16383 });
    assert_eq!(parse_message(0xC5, 9, 0), MidiMessage::ProgramChange { channel: 5, program: 9 });
    assert_eq!(parse_message(0x10, 1, 2), MidiMessage::Other);
    assert_eq!(parse_message(0xF0, 1, 2), MidiMessage::Other);
}

#[test]
fn reads_xprop_output() {
    assert_eq!(parse_quoted_list("a\", \"b\", \"c"), vec!["a", "b", "c"]);
    assert_eq!(parse_quoted_list(""), vec![""]);
    let w = window_from_xprop_output(
        "WM_CLASS(STRING) = \"gimp\", \"Gimp\"\r\nWM_NAME(STRING) = \"Image\"\nother line\n"
    );
    assert_eq!(w.window_class, vec!["gimp".to_string(), "Gimp".to_string()]);
    assert_eq!(w.window_name, "Image");
    let w = window_from_xprop_output("WM_NAME(COMPOUND_TEXT) = \"T\u{e9}st\"");
    assert_eq!(w.window_name, "T\u{e9}st");
    assert!(w.window_class.is_empty());
}

#[test]
fn decides_monitor_responses() {
    assert!(matches!(monitor_response(&MidiMessage::NoteOn { channel: 0, key: 48, velocity: 1 }), MonitorResponse::Nothing));
    assert!(matches!(monitor_response(&MidiMessage::NoteOff { channel: 0, key: 48, velocity: 1 }), MonitorResponse::CheckInkscape));
    match monitor_response(&MidiMessage::NoteOff { channel: 0, key: 60, velocity: 1 }) {
        MonitorResponse::EnterText { text, delay } => {
            assert_eq!(text, "Hello world!");
            assert_eq!(delay, 250);
        }
        _ => panic!("expected text entry"),
    }
    assert!(matches!(monitor_response(&MidiMessage::NoteOff { channel: 0, key: 99, velocity: 1 }), MonitorResponse::NoActionConfigured));
    let seqs = inkscape_response("drawing.svg - Inkscape").unwrap();
    assert_eq!(seqs.len(), 8);
    assert_eq!(seqs[0], "ctrl+shift+a");
    assert_eq!(seqs[7], "Return");
    assert!(inkscape_response("Firefox").is_none());
}
