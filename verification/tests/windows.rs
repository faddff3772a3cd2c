//! Windows: matching, selecting and showing.

use wayland_agent::dict::{Scalar, Value, WindowDict};
use wayland_agent::extension::{dispatch_extension, tell_not_connected, ExtCall, ExtRequest};
use wayland_agent::protocol::Response;
use wayland_agent::window::{
    any_holds, dict_bool, dict_i64, dict_id, dict_to_lines, find_window, fmt_dicts, render_value,
    resolve_window_selector, summarize_windows, window_matches, WindowId,
};

fn text(s: &str) -> Value {
    Value { scalar: Scalar::Str(s.to_string()), debug: format!("Str({s:?})") }
}

fn win(id: u64, wm_class: &str, title: &str, focused: bool) -> WindowDict {
    let mut w = WindowDict::new();
    w.insert("id".into(), Value { scalar: Scalar::U64(id), debug: format!("U64({id})") });
    w.insert("wm_class".into(), text(wm_class));
    w.insert("app_id".into(), text(""));
    w.insert("title".into(), text(title));
    w.insert(
        "focused".into(),
        Value { scalar: Scalar::Bool(focused), debug: format!("Bool({focused})") },
    );
    w
}

#[test]
fn match_is_case_insensitive_substring() {
    let w = win(1, "dosbox-x", "DOSBox-X 2024", false);
    assert!(window_matches(&w, "DOSBox"));
    assert!(window_matches(&w, "2024"));
    assert!(!window_matches(&w, "firefox"));
}

#[test]
fn selector_prefers_exact_id() {
    // "2" is both a valid id and a substring of the other title.
    let ws = vec![win(1, "term", "window 2", false), win(2, "editor", "e", false)];
    let hit = resolve_window_selector(ws, "2").unwrap();
    assert_eq!(dict_i64(&hit, "id").unwrap(), 2);
}

#[test]
fn selector_falls_back_to_pattern_when_id_unknown() {
    let ws = vec![win(1, "term-99", "t", false)];
    let hit = resolve_window_selector(ws, "99").unwrap();
    assert_eq!(dict_i64(&hit, "id").unwrap(), 1);
}

#[test]
fn ambiguous_selector_errors_with_candidates() {
    let ws = vec![win(1, "term", "a", true), win(2, "term", "b", false)];
    let err = resolve_window_selector(ws, "term").unwrap_err().to_string();
    assert!(err.contains("2 windows match"), "{err}");
    assert!(err.contains("id=1"), "{err}");
    assert!(err.contains("id=2"), "{err}");
}

#[test]
fn unmatched_selector_errors() {
    let ws = vec![win(1, "term", "a", false)];
    assert!(resolve_window_selector(ws, "nope").is_err());
}

#[test]
fn dict_accessors() {
    let w = win(7, "x", "y", true);
    assert_eq!(dict_i64(&w, "id").unwrap(), 7);
    assert!(dict_bool(&w, "focused"));
    assert!(!dict_bool(&w, "missing"));
    assert!(dict_i64(&w, "missing").is_err());
}

#[test]
fn values_are_shown() {
    for (scalar, shown) in [
        (Scalar::Str("a b".into()), "a b"),
        (Scalar::U64(u64::MAX), "18446744073709551615"),
        (Scalar::U32(7), "7"),
        (Scalar::U16(8), "8"),
        (Scalar::U8(9), "9"),
        (Scalar::I64(-1), "-1"),
        (Scalar::I32(-2), "-2"),
        (Scalar::I16(-3), "-3"),
        (Scalar::Bool(true), "true"),
        (Scalar::Bool(false), "false"),
        (Scalar::Double("1.5".into()), "1.5"),
        (Scalar::Signature("a{sv}".into()), "a{sv}"),
        (Scalar::ObjectPath("/a".into()), "/a"),
        (Scalar::Other, "Array([])"),
    ] {
        assert_eq!(render_value(&Value { scalar, debug: "Array([])".into() }), shown);
    }
}

#[test]
fn integers_are_read_from_dictionaries() {
    let mut w = WindowDict::new();
    w.insert("a".into(), Value { scalar: Scalar::U64(u64::MAX), debug: "U64(..)".into() });
    w.insert("b".into(), Value { scalar: Scalar::U32(u32::MAX), debug: "U32(..)".into() });
    w.insert("c".into(), Value { scalar: Scalar::I64(-5), debug: "I64(-5)".into() });
    w.insert("d".into(), Value { scalar: Scalar::I32(-6), debug: "I32(-6)".into() });
    w.insert("e".into(), Value { scalar: Scalar::U16(1), debug: "U16(1)".into() });
    assert_eq!(dict_i64(&w, "a"), Ok(-1));
    assert_eq!(dict_i64(&w, "b"), Ok(4294967295));
    assert_eq!(dict_i64(&w, "c"), Ok(-5));
    assert_eq!(dict_i64(&w, "d"), Ok(-6));
    assert_eq!(dict_i64(&w, "e"), Err("window dict \"e\" is not an integer: U16(1)".into()));
    assert_eq!(dict_i64(&w, "f"), Err("window dict missing \"f\"".into()));
    assert!(!dict_bool(&w, "a"));
}

#[test]
fn dictionaries_are_listed_in_order_of_keys() {
    let mut w = WindowDict::new();
    for key in ["b", "ab", "a", "é", "B"] {
        w.insert(key.into(), text(key));
    }
    w.insert("b".into(), text("again"));
    assert_eq!(w.len(), 5);
    assert_eq!(dict_to_lines(&w), vec!["B\tB", "a\ta", "ab\tab", "b\tagain", "é\té"]);
}

#[test]
fn dictionaries_are_formatted() {
    assert_eq!(fmt_dicts("monitor", &vec![]), "no monitor");
    let mut w = WindowDict::new();
    w.insert("k".into(), text("v"));
    w.insert("a".into(), text("x"));
    let mut e = WindowDict::new();
    e.insert("t".into(), text("end \n"));
    assert_eq!(
        fmt_dicts("window", &vec![w, e]),
        "--- window[0] ---\na\tx\nk\tv\n--- window[1] ---\nt\tend"
    );
}

#[test]
fn windows_are_summarized() {
    assert_eq!(
        summarize_windows(&vec![win(1, "te\"rm", "a", true), WindowDict::new()]),
        "  id=1\twm_class=\"te\\\"rm\"\tapp_id=\"\"\tfocused=true\ttitle=\"a\"\n  id=\twm_class=\"\"\tapp_id=\"\"\tfocused=\ttitle=\"\""
    );
}

#[test]
fn selector_errors_are_exact() {
    let ws = vec![win(1, "term", "a", true), win(2, "term", "b", false)];
    assert_eq!(
        resolve_window_selector(ws, "TERM").unwrap_err(),
        "2 windows match \"TERM\" — refine the pattern or use a window id:\n  id=1\twm_class=\"term\"\tapp_id=\"\"\tfocused=true\ttitle=\"a\"\n  id=2\twm_class=\"term\"\tapp_id=\"\"\tfocused=false\ttitle=\"b\""
    );
    assert_eq!(
        resolve_window_selector(vec![], "x").unwrap_err(),
        "no window matched \"x\""
    );
}

#[test]
fn large_ids_select_windows() {
    let ws = vec![win(1, "t", "18446744073709551615", false), win(u64::MAX, "u", "-1", false)];
    let hit = resolve_window_selector(ws, "18446744073709551615").unwrap();
    assert_eq!(dict_i64(&hit, "id"), Ok(-1));
    // A negative number is no id.
    let ws = vec![win(u64::MAX, "u", "max", false), win(1, "t", "-1", false)];
    let hit = resolve_window_selector(ws, "-1").unwrap();
    assert_eq!(dict_i64(&hit, "id"), Ok(1));
}

#[test]
fn shown_ids_select_again() {
    let ws = vec![win(12, "term", "a", false), win(2, "term", "12", false)];
    let hit = resolve_window_selector(ws, "12").unwrap();
    assert_eq!(dict_i64(&hit, "id"), Ok(12));
}

#[test]
fn windows_are_found() {
    let ws = || vec![win(1, "term", "a", true), win(2, "term", "b", false)];
    match find_window(ws(), "B", false) {
        Ok(Response::Done { detail: Some(d), paths: None }) => {
            assert!(d.starts_with("--- match[0] ---\napp_id\t\nfocused\tfalse\nid\t2\n"), "{d}");
        }
        other => panic!("{other:?}"),
    }
    match find_window(ws(), "term", true) {
        Ok(Response::Done { detail: Some(d), paths: None }) => {
            assert!(d.contains("--- match[1] ---"), "{d}");
        }
        other => panic!("{other:?}"),
    }
    assert_eq!(
        find_window(ws(), "term", false).unwrap_err(),
        "2 windows match \"term\" — refine the pattern, target one by id (`window <id>` / `click-in <id> ...`), or pass --all to list every match:\n  id=1\twm_class=\"term\"\tapp_id=\"\"\tfocused=true\ttitle=\"a\"\n  id=2\twm_class=\"term\"\tapp_id=\"\"\tfocused=false\ttitle=\"b\""
    );
    assert_eq!(find_window(ws(), "zz", true).unwrap_err(), "no window matched \"zz\"");
}

#[test]
fn extension_requests_are_answered() {
    assert_eq!(ExtRequest::Windows.call(), ExtCall::GetWindows);
    assert_eq!(ExtRequest::Window { id: 3 }.call(), ExtCall::GetWindow(3));
    assert_eq!(ExtRequest::FocusWindow { id: 4 }.call(), ExtCall::FocusWindow(4));
    assert_eq!(ExtRequest::Monitors.call(), ExtCall::GetMonitors);
    assert_eq!(ExtCall::GetMonitors.method(), "GetMonitors");
    assert_eq!(
        dispatch_extension(ExtRequest::Monitors, Err("boom".into())).unwrap_err(),
        "GetMonitors on com.mxshift.WaylandAgent failed: boom\nRun wayland-agent/gnome-extension/install.sh then log out and back in so gnome-shell picks up the extension."
    );
    match dispatch_extension(ExtRequest::Windows, Ok(vec![])) {
        Ok(Response::Done { detail: Some(d), paths: None }) => assert_eq!(d, "no window"),
        other => panic!("{other:?}"),
    }
    match dispatch_extension(ExtRequest::FocusWindow { id: 4 }, Ok(vec![])) {
        Ok(Response::Done { detail: None, paths: None }) => {}
        other => panic!("{other:?}"),
    }
    assert_eq!(
        tell_not_connected(),
        "connect to com.mxshift.WaylandAgent — extension not installed or not enabled.\nRun wayland-agent/gnome-extension/install.sh then log out and back in so gnome-shell picks up the extension."
    );
}

#[test]
fn parts_of_patterns_match_too() {
    let w = win(1, "DOSBox-X", "Ünïcode", false);
    for pattern in ["dosbox-x", "OSBOX", "sb", "", "ÜNÏ", "co"] {
        assert!(window_matches(&w, pattern), "{pattern}");
    }
    assert!(!window_matches(&w, "dosboxx"));
    assert!(any_holds(&vec!["a".to_string(), "bcd".to_string()], "cd"));
    assert!(!any_holds(&vec!["a".to_string(), "bcd".to_string()], "ab"));
    assert!(!any_holds(&vec![], ""));
}

#[test]
fn other_keys_are_not_searched() {
    let mut w = win(4711, "term", "t", true);
    w.insert("extra".into(), text("needle"));
    assert!(!window_matches(&w, "needle"));
    assert!(!window_matches(&w, "4711"));
    assert!(!window_matches(&w, "true"));
}

#[test]
fn signed_ids_are_their_own_numbers() {
    let signed = |scalar: Scalar, title: &str| {
        let mut w = win(0, "c", title, false);
        w.insert("id".into(), Value { scalar, debug: String::new() });
        w
    };
    for scalar in [Scalar::I64(-1), Scalar::I32(-1)] {
        assert_eq!(
            resolve_window_selector(vec![signed(scalar, "t")], "18446744073709551615")
                .unwrap_err(),
            "no window matched \"18446744073709551615\""
        );
    }
    for scalar in [Scalar::I64(42), Scalar::I32(42), Scalar::U32(42), Scalar::U64(42)] {
        let hit = resolve_window_selector(vec![signed(scalar, "t")], "42").unwrap();
        assert_eq!(dict_id(&hit).unwrap().text(), "42");
    }
    assert_eq!(dict_id(&signed(Scalar::I32(-1), "t")), Ok(WindowId::Signed(-1)));
    assert_eq!(dict_id(&signed(Scalar::U64(u64::MAX), "t")), Ok(WindowId::Unsigned(u64::MAX)));
    assert_eq!(dict_id(&WindowDict::new()), Err("window dict missing \"id\"".to_string()));
    assert!(dict_id(&signed(Scalar::U8(1), "t")).is_err());
}
