//! Texts, numbers and paths.

use wayland_agent::number::{parse_u64, show_i64, show_u64};
use wayland_agent::paths::{output_paths, socket_path};
use wayland_agent::text::{contains_text, join, repeat, split_full, trim, trim_end};

#[test]
fn numbers_are_shown_and_read() {
    assert_eq!(show_u64(0), "0");
    assert_eq!(show_u64(u64::MAX), "18446744073709551615");
    assert_eq!(show_i64(i64::MIN), "-9223372036854775808");
    assert_eq!(show_i64(-7), "-7");
    for n in [0u64, 1, 9, 10, 99, 12345, u64::MAX] {
        assert_eq!(parse_u64(&show_u64(n)), Some(n));
    }
    assert_eq!(parse_u64("+7"), Some(7));
    assert_eq!(parse_u64("007"), Some(7));
    for bad in ["", "+", "-1", "1 ", "0x1", "18446744073709551616"] {
        assert_eq!(parse_u64(bad), None, "{bad:?}");
    }
}

#[test]
fn texts_are_searched_and_trimmed() {
    assert!(contains_text("abcabd", "abd"));
    assert!(contains_text("abc", ""));
    assert!(contains_text("", ""));
    assert!(!contains_text("ab", "abc"));
    assert_eq!(trim_end("a b \n\t "), "a b");
    assert_eq!(trim_end(" \u{a0}\u{3000}"), "");
    assert_eq!(trim(" \n a b\u{2003} "), "a b");
    assert_eq!(trim(""), "");
    assert_eq!(trim("\n\n"), "");
}

#[test]
fn texts_are_split_and_joined() {
    assert_eq!(split_full("F12+o", '+'), vec!["F12", "o"]);
    assert_eq!(split_full("++a++b+", '+'), vec!["a", "b"]);
    assert!(split_full("+++", '+').is_empty());
    assert!(split_full("", '+').is_empty());
    assert_eq!(join(&vec!["a".to_string(), "".to_string(), "b".to_string()], ", "), "a, , b");
    assert_eq!(join(&vec![], ", "), "");
    assert_eq!(repeat("  ", 3), "      ");
    assert_eq!(repeat("  ", 0), "");
}

#[test]
fn one_stream_is_saved_where_it_was_asked_for() {
    assert_eq!(output_paths("/tmp/shot.jpeg", 1), vec!["/tmp/shot.jpeg"]);
    assert_eq!(output_paths("shot", 1), vec!["shot"]);
}

#[test]
fn several_streams_are_saved_to_numbered_files() {
    assert_eq!(
        output_paths("/tmp/a.b/shot.jpeg", 2),
        vec!["/tmp/a.b/shot-0.jpeg", "/tmp/a.b/shot-1.jpeg"]
    );
    assert_eq!(output_paths("shot", 2), vec!["shot-0.png", "shot-1.png"]);
    assert_eq!(output_paths(".hidden", 2), vec![".hidden-0.png", ".hidden-1.png"]);
    assert_eq!(output_paths("/", 2), vec!["/frame-0.png", "/frame-1.png"]);
    assert!(output_paths("shot.png", 0).is_empty());
}

#[test]
fn files_of_several_streams_differ() {
    let paths = output_paths("a/shot-1.png", 112);
    for (i, a) in paths.iter().enumerate() {
        for b in &paths[i + 1..] {
            assert_ne!(a, b);
        }
    }
}

#[test]
fn the_socket_lies_in_the_runtime_directory() {
    let rt = Some(b"/run/user/1000".to_vec());
    let home = Some(b"/home/me".to_vec());
    assert_eq!(
        socket_path(rt, home.clone()),
        Ok(b"/run/user/1000/wayland-agent.sock".to_vec())
    );
    assert_eq!(socket_path(None, home), Ok(b"/home/me/.cache/wayland-agent.sock".to_vec()));
    assert_eq!(socket_path(None, None), Err("no HOME".to_string()));
}

#[test]
fn the_socket_path_is_joined_as_paths_are() {
    for dir in ["/run", "/run/", "", "rel", "/"] {
        let want = std::path::Path::new(dir).join("wayland-agent.sock");
        assert_eq!(
            socket_path(Some(dir.as_bytes().to_vec()), None),
            Ok(want.to_str().unwrap().as_bytes().to_vec())
        );
    }
}

#[test]
fn white_space_is_that_of_unicode() {
    let spaces: Vec<u32> = [0x20, 0x85, 0xa0, 0x1680, 0x2028, 0x2029, 0x202f, 0x205f, 0x3000]
        .into_iter()
        .chain(0x9..=0xd)
        .chain(0x2000..=0x200a)
        .collect();
    let mut text = String::with_capacity(8);
    for n in 0..=0x10ffffu32 {
        let Some(c) = char::from_u32(n) else { continue };
        text.clear();
        text.push(c);
        assert_eq!(trim_end(&text).is_empty(), spaces.contains(&n), "{n:x}");
    }
}
