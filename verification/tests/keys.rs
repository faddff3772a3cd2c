//! Keys, buttons and the steps that use them.

use wayland_agent::keys::{button_code, keysym_for_char, keysym_from_name};
use wayland_agent::steps::{
    chord_steps, find_key, find_keys, tap_steps, type_text, Control, Step,
};

#[test]
fn buttons_have_evdev_codes() {
    for (name, number, code) in [
        ("left", "1", 0x110),
        ("right", "2", 0x111),
        ("middle", "3", 0x112),
        ("back", "8", 0x116),
        ("forward", "9", 0x117),
    ] {
        assert_eq!(button_code(name), Ok(code));
        assert_eq!(button_code(number), Ok(code));
    }
}

#[test]
fn unknown_buttons_are_quoted() {
    assert_eq!(
        button_code("Le\"ft"),
        Err("unknown button \"Le\\\"ft\" (use left/right/middle/back/forward)".to_string())
    );
    assert!(button_code("").is_err());
}

#[test]
fn key_names_are_read_in_any_case() {
    for (name, sym) in [
        ("space", 0x0020),
        ("SPACE", 0x0020),
        ("Return", 0xff0d),
        ("enter", 0xff0d),
        ("tab", 0xff09),
        ("backspace", 0xff08),
        ("esc", 0xff1b),
        ("Escape", 0xff1b),
        ("delete", 0xffff),
        ("insert", 0xff63),
        ("up", 0xff52),
        ("down", 0xff54),
        ("left", 0xff51),
        ("right", 0xff53),
        ("home", 0xff50),
        ("end", 0xff57),
        ("PageUp", 0xff55),
        ("page_up", 0xff55),
        ("PageDown", 0xff56),
        ("page_down", 0xff56),
        ("f1", 0xffbe),
        ("F2", 0xffbf),
        ("F3", 0xffc0),
        ("F4", 0xffc1),
        ("F5", 0xffc2),
        ("F6", 0xffc3),
        ("F7", 0xffc4),
        ("F8", 0xffc5),
        ("F9", 0xffc6),
        ("F10", 0xffc7),
        ("F11", 0xffc8),
        ("F12", 0xffc9),
        ("ctrl", 0xffe3),
        ("Control", 0xffe3),
        ("Control_L", 0xffe3),
        ("control_r", 0xffe4),
        ("shift", 0xffe1),
        ("Shift_L", 0xffe1),
        ("Shift_R", 0xffe2),
        ("alt", 0xffe9),
        ("Alt_L", 0xffe9),
        ("Alt_R", 0xffea),
        ("meta", 0xffe7),
        ("Meta_L", 0xffe7),
        ("Meta_R", 0xffe8),
        ("super", 0xffeb),
        ("Super_L", 0xffeb),
        ("Super_R", 0xffec),
    ] {
        assert_eq!(keysym_from_name(name), Some(sym), "{name}");
    }
}

#[test]
fn single_characters_are_their_own_keys() {
    assert_eq!(keysym_from_name("a"), Some(0x61));
    assert_eq!(keysym_from_name("A"), Some(0x41));
    assert_eq!(keysym_from_name("é"), Some(0xe9));
    assert_eq!(keysym_from_name("€"), Some(0x20ac));
    assert_eq!(keysym_from_name(""), None);
    assert_eq!(keysym_from_name("ab"), None);
}

#[test]
fn characters_have_keysyms() {
    assert_eq!(keysym_for_char('\n'), Some(0xff0d));
    assert_eq!(keysym_for_char('\t'), Some(0xff09));
    assert_eq!(keysym_for_char('\u{8}'), Some(0xff08));
    assert_eq!(keysym_for_char('a'), Some(0x61));
    assert_eq!(keysym_for_char('ÿ'), Some(0xff));
    assert_eq!(keysym_for_char('Ā'), Some(0x0100_0100));
    assert_eq!(keysym_for_char('€'), Some(0x0100_20ac));
    assert_eq!(keysym_for_char('\u{10ffff}'), Some(0x0110_ffff));
}

#[test]
fn different_characters_have_different_keysyms() {
    let chars = ['a', 'b', 'é', 'Ā', '€', '\u{10ffff}'];
    for (i, a) in chars.iter().enumerate() {
        for b in &chars[i + 1..] {
            assert_ne!(keysym_for_char(*a), keysym_for_char(*b));
        }
    }
}

#[test]
fn unknown_keys_are_named() {
    assert_eq!(find_key("Space"), Ok(0x20));
    assert_eq!(find_key("nope"), Err("unknown keysym \"nope\"".to_string()));
    assert_eq!(
        find_keys(&vec!["ctrl".to_string(), "nope".to_string(), "nix".to_string()]),
        Err("unknown keysym in chord: \"nope\"".to_string())
    );
    assert_eq!(find_keys(&vec!["ctrl".to_string(), "c".to_string()]), Ok(vec![0xffe3, 0x63]));
}

#[test]
fn taps_press_and_release() {
    let c = Control::Keycode(30);
    assert_eq!(tap_steps(c), vec![Step::Press(c), Step::Release(c)]);
}

#[test]
fn chords_release_in_reverse_order() {
    let (a, b) = (Control::Keysym(0xffe3), Control::Keysym(0xffc1));
    assert_eq!(
        chord_steps(&vec![0xffe3, 0xffc1]),
        vec![Step::Press(a), Step::Press(b), Step::Release(b), Step::Release(a)]
    );
    assert_eq!(chord_steps(&vec![]), vec![]);
}

#[test]
fn typing_pauses_after_each_character() {
    let (a, n) = (Control::Keysym(0x61), Control::Keysym(0xff0d));
    assert_eq!(
        type_text("a\n", Some(30)),
        vec![
            Step::Press(a),
            Step::Release(a),
            Step::Pause(30),
            Step::Press(n),
            Step::Release(n),
            Step::Pause(30),
        ]
    );
    assert_eq!(type_text("a", None), vec![Step::Press(a), Step::Release(a)]);
    assert_eq!(type_text("", Some(1)), vec![]);
}

#[test]
fn nothing_stays_pressed() {
    for steps in [
        type_text("Hello, wörld\n", Some(5)),
        chord_steps(&vec![1, 2, 2, 3]),
        tap_steps(Control::Button(0x110)),
    ] {
        let mut held: Vec<Control> = Vec::new();
        for step in steps {
            match step {
                Step::Press(c) => held.push(c),
                Step::Release(c) => {
                    let at = held.iter().rposition(|h| *h == c);
                    assert!(at.is_some());
                    held.remove(at.unwrap());
                }
                _ => {}
            }
        }
        assert!(held.is_empty());
    }
}
