//! The session and its watchers.

use wayland_agent::session::{
    may_start, Closing, Found, SessionState, Signal, Watch, QUIET_TIME,
};
use wayland_agent::stream::StreamInfo;

#[test]
fn a_running_daemon_is_not_replaced() {
    assert_eq!(may_start(Found::Nothing, "/s"), Ok(false));
    assert_eq!(may_start(Found::Silent, "/s"), Ok(true));
    assert_eq!(
        may_start(Found::Answered, "/s").unwrap_err(),
        "another wayland-agent daemon is already running at /s"
    );
}

#[test]
fn only_the_newest_session_exits() {
    let s = StreamInfo { node_id: 1, position: None, size: None, frame_size: None };
    let mut state = SessionState::new(vec![s]);
    assert_eq!(state.on_closed(0), Closing::Exit);
    assert_eq!(state.replace(vec![s, s]), 1);
    assert_eq!(state.streams.len(), 2);
    assert_eq!(state.on_closed(0), Closing::Retire);
    assert_eq!(state.on_closed(1), Closing::Exit);
    state.note_frames(&vec![(3, 4)]);
    assert_eq!(state.streams[0].frame_size, Some((3, 4)));
    assert_eq!(state.generation, 1);
}

#[test]
fn bursts_are_coalesced() {
    let mut watch = Watch::Idle;
    let mut replaced = 0;
    for signal in [
        Signal::Changed,
        Signal::Changed,
        Signal::Changed,
        Signal::Quiet,
        Signal::Quiet,
        Signal::Changed,
        Signal::Quiet,
        Signal::Changed,
        Signal::Ended,
        Signal::Quiet,
        Signal::Changed,
    ] {
        let (next, replace) = watch.tell(signal);
        watch = next;
        replaced += replace as u32;
    }
    assert_eq!(replaced, 2);
    assert_eq!(watch, Watch::Stopped);
    assert_eq!(Watch::Idle.patience(), None);
    assert_eq!(Watch::Burst.patience(), Some(QUIET_TIME));
    assert_eq!(QUIET_TIME, 2000);
}
