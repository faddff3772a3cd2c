//! Requests, answers and their framing.

use wayland_agent::protocol::{answer, bad_request, frame_message, message_of, report, Response};

#[test]
fn answers_are_made() {
    match Response::ok() {
        Response::Done { detail: None, paths: None } => {}
        other => panic!("{other:?}"),
    }
    match Response::ok_detail("d".into()) {
        Response::Done { detail: Some(d), paths: None } => assert_eq!(d, "d"),
        other => panic!("{other:?}"),
    }
    match Response::ok_paths(vec!["p".into()]) {
        Response::Done { detail: None, paths: Some(p) } => assert_eq!(p, vec!["p"]),
        other => panic!("{other:?}"),
    }
    match Response::err("e".into()) {
        Response::Failed { error } => assert_eq!(error, "e"),
        other => panic!("{other:?}"),
    }
    match answer(Err("why".into())) {
        Response::Failed { error } => assert_eq!(error, "why"),
        other => panic!("{other:?}"),
    }
    match answer(Ok(Response::ok_detail("x".into()))) {
        Response::Done { detail: Some(d), paths: None } => assert_eq!(d, "x"),
        other => panic!("{other:?}"),
    }
    match bad_request("expected value") {
        Response::Failed { error } => assert_eq!(error, "bad request: expected value"),
        other => panic!("{other:?}"),
    }
}

#[test]
fn messages_are_framed_by_lines() {
    assert_eq!(frame_message(b"{}".to_vec()), b"{}\n".to_vec());
    assert_eq!(message_of(" {\"cmd\":\"Ping\"}\r\n").as_deref(), Some("{\"cmd\":\"Ping\"}"));
    assert_eq!(message_of("\n").as_deref(), Some(""));
    assert_eq!(message_of(""), None);
    let line = String::from_utf8(frame_message(b"[1]".to_vec())).unwrap();
    assert_eq!(message_of(&line).as_deref(), Some("[1]"));
}

#[test]
fn clients_report_what_they_are_told() {
    let resp = Response::Done {
        detail: Some("pong".into()),
        paths: Some(vec!["a.png".into(), "b.png".into()]),
    };
    assert_eq!(report(resp), Ok(vec!["pong".into(), "wrote a.png".into(), "wrote b.png".into()]));
    assert_eq!(report(Response::ok()), Ok(vec![]));
    assert_eq!(report(Response::err("no".into())), Err("no".into()));
}
