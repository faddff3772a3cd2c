//! Jobs, from the request to the answer.

use wayland_agent::coord::Coord;
use wayland_agent::dict::{Scalar, Value, WindowDict};
use wayland_agent::extension::ExtCall;
use wayland_agent::job::{dispatch, Job, JobAsk, JobEvent};
use wayland_agent::protocol::{Request, Response};
use wayland_agent::query::UiEvent;
use wayland_agent::steps::{Control, Step};
use wayland_agent::stream::StreamInfo;

fn coord(x: f64) -> Coord {
    Coord {
        bits: x.to_bits(),
        floor: if x.is_nan() { None } else { Some(x.floor() as i64) },
        text: format!("{x}"),
        rounded: format!("{x:.0}"),
    }
}

fn monitor(node_id: u32, position: (i32, i32), size: (i32, i32)) -> StreamInfo {
    StreamInfo { node_id, position: Some(position), size: Some(size), frame_size: None }
}

fn streams() -> Vec<StreamInfo> {
    vec![monitor(7, (0, 0), (100, 50)), monitor(8, (100, 0), (100, 50))]
}

fn whole(n: i64) -> Value {
    Value { scalar: Scalar::I64(n), debug: format!("I64({n})") }
}

fn window(id: i64, title: &str, focused: bool) -> WindowDict {
    let mut w = WindowDict::new();
    w.insert("id".into(), whole(id));
    w.insert(
        "title".into(),
        Value { scalar: Scalar::Str(title.into()), debug: String::new() },
    );
    w.insert(
        "focused".into(),
        Value { scalar: Scalar::Bool(focused), debug: String::new() },
    );
    for (key, n) in [("frame_x", 110), ("frame_y", 5), ("frame_w", 40), ("frame_h", 30)] {
        w.insert(key.into(), whole(n));
    }
    for (key, n) in [("client_x", 112), ("client_y", 9), ("client_w", 36), ("client_h", 24)] {
        w.insert(key.into(), whole(n));
    }
    w
}

fn begin(req: Request) -> Job {
    dispatch(req, &streams())
}

fn steps_of(req: Request) -> Vec<Step> {
    match begin(req) {
        Job::Acting { steps, reply: Response::Done { detail: None, paths: None } } => steps,
        other => panic!("{other:?}"),
    }
}

fn error_of(job: Job) -> String {
    match job {
        Job::Over { outcome: Err(e) } => e,
        other => panic!("{other:?}"),
    }
}

fn detail_of(job: Job) -> String {
    match job {
        Job::Over { outcome: Ok(Response::Done { detail: Some(d), paths: None }) } => d,
        other => panic!("{other:?}"),
    }
}

fn tell(job: Job, event: JobEvent) -> Job {
    assert!(job.can_tell(&event));
    job.tell(event)
}

fn motion(node: u32, x: f64, y: f64) -> Step {
    Step::Motion { node, x: x.to_bits(), y: y.to_bits() }
}

#[test]
fn pings_are_answered() {
    assert_eq!(detail_of(begin(Request::Ping)), "pong");
}

#[test]
fn streams_are_told() {
    assert_eq!(
        detail_of(begin(Request::Streams)),
        "idx\tnode\tpos\tsize\n0\t7\t0,0\t100x50\n1\t8\t100,0\t100x50"
    );
    let at = |x: f64, y: f64| begin(Request::StreamAt { x: coord(x), y: coord(y) });
    assert_eq!(detail_of(at(100.0, 3.0)), "1");
    assert_eq!(error_of(at(100.0, 50.25)), "no stream covers point (100, 50.25)");
}

#[test]
fn keys_are_tapped_held_and_released() {
    let c = Control::Keysym(0xff0d);
    assert_eq!(
        steps_of(Request::Key { name: "return".into() }),
        vec![Step::Press(c), Step::Release(c)]
    );
    assert_eq!(steps_of(Request::KeyDown { name: "return".into() }), vec![Step::Press(c)]);
    assert_eq!(steps_of(Request::KeyUp { name: "return".into() }), vec![Step::Release(c)]);
    let k = Control::Keycode(28);
    assert_eq!(
        steps_of(Request::KeyCode { code: 28 }),
        vec![Step::Press(k), Step::Release(k)]
    );
    assert_eq!(
        error_of(begin(Request::Key { name: "hyper".into() })),
        "unknown keysym \"hyper\""
    );
    assert_eq!(
        error_of(begin(Request::KeyDown { name: "hyper".into() })),
        "unknown keysym \"hyper\""
    );
    assert_eq!(error_of(begin(Request::KeyUp { name: "".into() })), "unknown keysym \"\"");
}

#[test]
fn chords_are_played() {
    let (f, o) = (Control::Keysym(0xffc9), Control::Keysym(0x6f));
    assert_eq!(
        steps_of(Request::KeyChord { keys: "F12++o".into() }),
        vec![Step::Press(f), Step::Press(o), Step::Release(o), Step::Release(f)]
    );
    match begin(Request::KeyChord { keys: "++".into() }) {
        Job::Over { outcome: Ok(Response::Failed { error }) } => assert_eq!(error, "empty chord"),
        other => panic!("{other:?}"),
    }
    assert_eq!(
        error_of(begin(Request::KeyChord { keys: "Ctrl+wat+x".into() })),
        "unknown keysym in chord: \"wat\""
    );
}

#[test]
fn texts_are_typed() {
    let a = Control::Keysym(0x61);
    assert_eq!(
        steps_of(Request::Type { text: "a".into(), delay: Some(9) }),
        vec![Step::Press(a), Step::Release(a), Step::Pause(9)]
    );
}

#[test]
fn the_pointer_is_moved_on_a_stream() {
    let go = |x: f64, y: f64, stream: usize| {
        begin(Request::Move { x: coord(x), y: coord(y), stream })
    };
    match go(3.5, 4.0, 1) {
        Job::Acting { steps, .. } => assert_eq!(steps, vec![motion(8, 3.5, 4.0)]),
        other => panic!("{other:?}"),
    }
    assert_eq!(error_of(go(3.5, 4.0, 2)), "stream 2 out of range");
    assert!(error_of(go(100.0, 4.0, 0)).starts_with("point (100, 4) is outside"));
}

#[test]
fn buttons_are_clicked() {
    let b = Control::Button(0x111);
    assert_eq!(
        steps_of(Request::Click { button: "right".into() }),
        vec![Step::Press(b), Step::Release(b)]
    );
    assert_eq!(steps_of(Request::ButtonDown { button: "2".into() }), vec![Step::Press(b)]);
    assert_eq!(steps_of(Request::ButtonUp { button: "2".into() }), vec![Step::Release(b)]);
    for req in [
        Request::Click { button: "x".into() },
        Request::ButtonDown { button: "x".into() },
        Request::ButtonUp { button: "x".into() },
    ] {
        assert!(error_of(begin(req)).starts_with("unknown button \"x\""));
    }
    let at = |x: f64, button: &str, stream: usize| {
        begin(Request::ClickAt { x: coord(x), y: coord(1.0), button: button.into(), stream })
    };
    match at(2.0, "right", 0) {
        Job::Acting { steps, .. } => {
            assert_eq!(steps, vec![motion(7, 2.0, 1.0), Step::Press(b), Step::Release(b)])
        }
        other => panic!("{other:?}"),
    }
    assert!(error_of(at(2.0, "x", 0)).starts_with("unknown button"));
    assert!(error_of(at(-2.0, "x", 0)).starts_with("point (-2, 1)"));
    assert_eq!(error_of(at(-2.0, "x", 5)), "stream 5 out of range");
}

#[test]
fn global_points_are_clicked() {
    let job = begin(Request::ClickAtGlobal {
        x: coord(150.0),
        y: coord(20.0),
        button: "left".into(),
    });
    assert!(job.keeps_lock());
    match job.ask() {
        JobAsk::Frame(aim, x, y) => {
            assert_eq!((aim.stream.node_id, aim.origin), (8, (100, 0)));
            assert_eq!((x.bits, y.bits), (150f64.to_bits(), 20f64.to_bits()));
        }
        other => panic!("{other:?}"),
    }
    let job = tell(job, JobEvent::Framed { x: coord(50.0), y: coord(20.0) });
    assert!(job.keeps_lock());
    let b = Control::Button(0x110);
    match job.ask() {
        JobAsk::Run(steps) => assert_eq!(
            *steps,
            vec![motion(8, 50.0, 20.0), Step::Press(b), Step::Release(b)]
        ),
        other => panic!("{other:?}"),
    }
    match tell(job, JobEvent::Ran) {
        Job::Over { outcome: Ok(Response::Done { detail: None, paths: None }) } => {}
        other => panic!("{other:?}"),
    }
}

#[test]
fn global_points_must_be_covered_and_reachable() {
    let job = begin(Request::MoveGlobal { x: coord(1.0), y: coord(-7.5) });
    assert_eq!(error_of(job), "no stream covers global point (1, -7.5)");
    let job = begin(Request::MoveGlobal { x: coord(1.0), y: coord(2.0) });
    let job = tell(job, JobEvent::Framed { x: coord(1.0), y: coord(60.0) });
    assert!(error_of(job).starts_with("point (1, 60) is outside"));
    let job = begin(Request::ClickAtGlobal { x: coord(1.0), y: coord(2.0), button: "q".into() });
    let job = tell(job, JobEvent::Framed { x: coord(1.0), y: coord(2.0) });
    assert!(error_of(job).starts_with("unknown button \"q\""));
}

#[test]
fn screenshots_note_the_sizes_of_frames() {
    let job = begin(Request::Screenshot { out: "/tmp/s.png".into() });
    assert!(!job.keeps_lock());
    match job.ask() {
        JobAsk::Capture(nodes, outs) => {
            assert_eq!(*nodes, vec![7, 8]);
            assert_eq!(*outs, vec!["/tmp/s-0.png", "/tmp/s-1.png"]);
        }
        other => panic!("{other:?}"),
    }
    let job = tell(job, JobEvent::Captured(vec![(200, 100), (150, 75)]));
    match job.ask() {
        JobAsk::Note(dims) => assert_eq!(*dims, vec![(200, 100), (150, 75)]),
        other => panic!("{other:?}"),
    }
    match tell(job, JobEvent::Noted) {
        Job::Over { outcome: Ok(Response::Done { detail: None, paths: Some(p) }) } => {
            assert_eq!(p, vec!["/tmp/s-0.png", "/tmp/s-1.png"])
        }
        other => panic!("{other:?}"),
    }
}

#[test]
fn the_extension_is_asked() {
    let job = begin(Request::Window { id: 3 });
    assert!(!job.keeps_lock());
    match job.ask() {
        JobAsk::Extension(call) => assert_eq!(call, ExtCall::GetWindow(3)),
        other => panic!("{other:?}"),
    }
    let mut w = WindowDict::new();
    w.insert("id".into(), whole(3));
    assert_eq!(
        detail_of(tell(job, JobEvent::Replied(Ok(vec![w])))),
        "--- window[0] ---\nid\t3"
    );
    let job = begin(Request::FindWindow { pattern: "x".into(), all: true });
    assert_eq!(
        error_of(tell(job, JobEvent::Replied(Ok(vec![])))),
        "no window matched \"x\""
    );
    let job = begin(Request::Windows);
    assert!(error_of(tell(job, JobEvent::Replied(Err("e".into()))))
        .starts_with("GetWindows on com.mxshift.WaylandAgent failed: e\nRun "));
    match tell(begin(Request::FocusWindow { id: 1 }), JobEvent::Replied(Ok(vec![]))) {
        Job::Over { outcome: Ok(Response::Done { detail: None, paths: None }) } => {}
        other => panic!("{other:?}"),
    }
    assert_eq!(
        detail_of(tell(begin(Request::Monitors), JobEvent::Replied(Ok(vec![])))),
        "no monitor"
    );
}

fn click_in(x: f64, y: f64, client: bool) -> Job {
    begin(Request::ClickWindow {
        window: "edit".into(),
        x: coord(x),
        y: coord(y),
        button: "left".into(),
        client,
    })
}

#[test]
fn windows_are_focused_before_they_are_clicked() {
    let job = click_in(3.0, 4.0, false);
    match job.ask() {
        JobAsk::Extension(call) => assert_eq!(call, ExtCall::GetWindows),
        other => panic!("{other:?}"),
    }
    let job = tell(job, JobEvent::Replied(Ok(vec![window(5, "Editor", false)])));
    match job.ask() {
        JobAsk::Extension(call) => assert_eq!(call, ExtCall::FocusWindow(5)),
        other => panic!("{other:?}"),
    }
    let job = tell(job, JobEvent::Replied(Ok(vec![])));
    match job.ask() {
        JobAsk::Later(ms, call) => assert_eq!((ms, call), (50, ExtCall::GetWindow(5))),
        other => panic!("{other:?}"),
    }
    let job =
        tell(job, JobEvent::Looked { reply: Ok(window(5, "Editor", false)), waited: 1999 });
    match job.ask() {
        JobAsk::Later(ms, call) => assert_eq!((ms, call), (50, ExtCall::GetWindow(5))),
        other => panic!("{other:?}"),
    }
    let job = tell(job, JobEvent::Looked { reply: Ok(window(5, "Editor", true)), waited: 60 });
    match job.ask() {
        JobAsk::Place(rect, x, y) => {
            assert_eq!(rect, (110, 5, 40, 30));
            assert_eq!((x.bits, y.bits), (3f64.to_bits(), 4f64.to_bits()));
        }
        other => panic!("{other:?}"),
    }
    assert!(!job.keeps_lock());
    let job = tell(
        job,
        JobEvent::Placed { w: coord(40.0), h: coord(30.0), x: coord(113.0), y: coord(9.0) },
    );
    match job.ask() {
        JobAsk::Lock => {}
        other => panic!("{other:?}"),
    }
    let job = tell(job, JobEvent::Locked(streams()));
    assert!(job.keeps_lock());
    let job = tell(job, JobEvent::Framed { x: coord(13.0), y: coord(9.0) });
    let b = Control::Button(0x110);
    match job.ask() {
        JobAsk::Run(steps) => assert_eq!(
            *steps,
            vec![motion(8, 13.0, 9.0), Step::Press(b), Step::Release(b)]
        ),
        other => panic!("{other:?}"),
    }
    assert_eq!(
        detail_of(tell(job, JobEvent::Ran)),
        "clicked left at (3, 4) relative to window 5's frame (global 113, 9)"
    );
}

#[test]
fn focused_windows_are_not_focused_again() {
    let job = click_in(3.0, 4.0, true);
    let job = tell(job, JobEvent::Replied(Ok(vec![window(5, "Editor", true)])));
    match job.ask() {
        JobAsk::Place(rect, _, _) => assert_eq!(rect, (112, 9, 36, 24)),
        other => panic!("{other:?}"),
    }
    let job = tell(
        job,
        JobEvent::Placed { w: coord(36.0), h: coord(24.0), x: coord(115.0), y: coord(13.0) },
    );
    let job = tell(job, JobEvent::Locked(streams()));
    let job = tell(job, JobEvent::Framed { x: coord(15.0), y: coord(13.0) });
    assert_eq!(
        detail_of(tell(job, JobEvent::Ran)),
        "clicked left at (3, 4) relative to window 5's client area (global 115, 13)"
    );
}

#[test]
fn the_wait_for_the_focus_has_a_limit() {
    let job = click_in(3.0, 4.0, false);
    let job = tell(job, JobEvent::Replied(Ok(vec![window(5, "Editor", false)])));
    let job = tell(job, JobEvent::Replied(Ok(vec![])));
    let job =
        tell(job, JobEvent::Looked { reply: Ok(window(5, "Editor", false)), waited: 2000 });
    match job.ask() {
        JobAsk::Place(..) => {}
        other => panic!("{other:?}"),
    }
}

#[test]
fn clicks_in_windows_can_fail() {
    let bad = begin(Request::ClickWindow {
        window: "w".into(),
        x: coord(0.0),
        y: coord(0.0),
        button: "nose".into(),
        client: false,
    });
    assert!(error_of(bad).starts_with("unknown button \"nose\""));
    let listed = |ws: Vec<WindowDict>| tell(click_in(3.0, 4.0, false), JobEvent::Replied(Ok(ws)));
    assert_eq!(error_of(listed(vec![])), "no window matched \"edit\"");
    let job = tell(click_in(3.0, 4.0, false), JobEvent::Replied(Err("gone".into())));
    assert!(error_of(job).starts_with("GetWindows on com.mxshift.WaylandAgent failed: gone\n"));
    let job = tell(listed(vec![window(5, "edit", false)]), JobEvent::Replied(Err("no".into())));
    assert!(error_of(job).starts_with("FocusWindow on com.mxshift.WaylandAgent failed: no\nRun"));
    let job = tell(listed(vec![window(5, "edit", false)]), JobEvent::Replied(Ok(vec![])));
    let job = tell(job, JobEvent::Looked { reply: Err("lost".into()), waited: 0 });
    assert_eq!(
        error_of(job),
        "GetWindow on com.mxshift.WaylandAgent failed after focus: lost"
    );
    let mut w = WindowDict::new();
    w.insert("title".into(), Value { scalar: Scalar::Str("edit".into()), debug: String::new() });
    assert_eq!(error_of(listed(vec![w])), "window dict missing \"id\"");
    let mut w = window(5, "edit", true);
    w.insert("frame_w".into(), Value { scalar: Scalar::U8(1), debug: "U8(1)".into() });
    assert_eq!(
        error_of(listed(vec![w])),
        "window dict \"frame_w\" is not an integer: U8(1)"
    );
}

#[test]
fn clicks_must_lie_in_the_window() {
    for (x, y) in [(-0.5, 0.0), (0.0, -1.0), (40.0, 0.0), (0.0, 30.0)] {
        let job = tell(
            click_in(x, y, false),
            JobEvent::Replied(Ok(vec![window(5, "edit", true)])),
        );
        let job = tell(
            job,
            JobEvent::Placed { w: coord(40.0), h: coord(30.0), x: coord(x), y: coord(y) },
        );
        assert_eq!(
            error_of(job),
            format!("offset ({x:.0}, {y:.0}) is outside window 5's frame (40x30). click-in coordinates are RELATIVE to the window's origin, not global screen coordinates.")
        );
    }
}

#[test]
fn windows_are_typed_into() {
    let job = begin(Request::TypeWindow {
        window: "5".into(),
        text: "né".into(),
        delay: Some(4),
    });
    let job = tell(job, JobEvent::Replied(Ok(vec![window(5, "edit", true)])));
    match job.ask() {
        JobAsk::Lock => {}
        other => panic!("{other:?}"),
    }
    let job = tell(job, JobEvent::Locked(vec![]));
    match job.ask() {
        JobAsk::Run(steps) => {
            assert_eq!(*steps, steps_of(Request::Type { text: "né".into(), delay: Some(4) }))
        }
        other => panic!("{other:?}"),
    }
    assert_eq!(
        detail_of(tell(job, JobEvent::Ran)),
        "typed 2 character(s) into window 5"
    );
}

#[test]
fn failures_end_a_job() {
    let job = tell(begin(Request::KeyCode { code: 1 }), JobEvent::Failed("portal".into()));
    assert_eq!(error_of(job), "portal");
    let job = tell(begin(Request::Windows), JobEvent::Ran);
    match job.ask() {
        JobAsk::Extension(call) => assert_eq!(call, ExtCall::GetWindows),
        other => panic!("{other:?}"),
    }
    assert_eq!(detail_of(tell(begin(Request::Ping), JobEvent::Failed("late".into()))), "pong");
}

#[test]
fn queries_are_jobs() {
    let job = begin(Request::UiFind {
        window: "x".into(),
        pattern: "".into(),
        role: None,
    });
    assert!(!job.keeps_lock());
    match job.ask() {
        JobAsk::Query(_) => {}
        other => panic!("{other:?}"),
    }
    let job = tell(job, JobEvent::Told(UiEvent::Windows(Ok(vec![window(5, "x", true)]))));
    match job.ask() {
        JobAsk::Query(_) => {}
        other => panic!("{other:?}"),
    }
    let job = tell(job, JobEvent::Told(UiEvent::Children(Err("down".into()))));
    assert_eq!(error_of(job), "list AT-SPI applications: down");
}

#[test]
fn points_left_of_zero_go_to_the_left_monitor() {
    let table = vec![monitor(7, (0, 0), (100, 50)), monitor(8, (-100, 0), (100, 50))];
    let at = dispatch(Request::StreamAt { x: coord(-0.5), y: coord(10.0) }, &table);
    assert_eq!(detail_of(at), "1");
    let job = dispatch(Request::MoveGlobal { x: coord(-0.5), y: coord(10.0) }, &table);
    match job.ask() {
        JobAsk::Frame(aim, _, _) => {
            assert_eq!((aim.stream.node_id, aim.origin), (8, (-100, 0)))
        }
        other => panic!("{other:?}"),
    }
    match tell(job, JobEvent::Framed { x: coord(99.5), y: coord(10.0) }) {
        Job::Acting { steps, .. } => assert_eq!(steps, vec![motion(8, 99.5, 10.0)]),
        other => panic!("{other:?}"),
    }
}

#[test]
fn ids_are_told_as_the_extension_tells_them() {
    let typed = |window: WindowDict| {
        let job = begin(Request::TypeWindow {
            window: "edit".into(),
            text: "".into(),
            delay: None,
        });
        let job = tell(job, JobEvent::Replied(Ok(vec![window])));
        let job = job.step(JobEvent::Locked(vec![])).unwrap();
        detail_of(tell(job, JobEvent::Ran))
    };
    let mut w = window(0, "edit", true);
    w.insert("id".into(), Value { scalar: Scalar::U64(u64::MAX), debug: String::new() });
    assert_eq!(typed(w), "typed 0 character(s) into window 18446744073709551615");
    assert_eq!(typed(window(-1, "edit", true)), "typed 0 character(s) into window -1");
    // The extension is given the unsigned number with the same bits.
    let job = tell(
        click_in(3.0, 4.0, false),
        JobEvent::Replied(Ok(vec![window(-1, "edit", false)])),
    );
    match job.ask() {
        JobAsk::Extension(call) => assert_eq!(call, ExtCall::FocusWindow(u64::MAX)),
        other => panic!("{other:?}"),
    }
}
