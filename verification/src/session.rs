//! The session: how the daemon starts, what it keeps of the session, and when it
//! ends or begins a new one.

use vstd::prelude::*;
use vstd::string::*;

use crate::stream::{store_frame_sizes, with_frames, StreamInfo};

verus! {

// ---------------------------------------------------------------------------
// Starting
// ---------------------------------------------------------------------------

/// What is found where the daemon is to listen.
#[derive(Clone, Copy, Debug, PartialEq, Eq, Structural)]
pub enum Found {
    /// Nothing.
    Nothing,
    /// A socket that nobody answers on.
    Silent,
    /// A socket that somebody answers on.
    Answered,
}

/// What is said of a daemon that is running already.
pub open spec fn already_running(path: Seq<char>) -> Seq<char> {
    "another wayland-agent daemon is already running at "@ + path
}

/// Whether the daemon may start and, if so, whether what it found has to be removed.
pub open spec fn starts(found: Found) -> Option<bool> {
    match found {
        Found::Nothing => Some(false),
        Found::Silent => Some(true),
        Found::Answered => None,
    }
}

/// Decides whether the daemon may start, and whether a socket that a crash has
/// left behind has to be removed first.
pub fn may_start(found: Found, path: &str) -> (r: Result<bool, String>)
    ensures
        match r {
            Ok(remove) => found != Found::Answered && remove == (found == Found::Silent),
            Err(e) => found == Found::Answered && e@ == already_running(path@),
        },
        starts(found) is Some <==> r is Ok,
        r is Ok ==> starts(found) == Some(r->Ok_0),
{
    match found {
        Found::Nothing => Ok(false),
        Found::Silent => Ok(true),
        Found::Answered => {
            let mut e: String = "another wayland-agent daemon is already running at ".to_owned();
            e.append(path);
            Err(e)
        },
    }
}

// ---------------------------------------------------------------------------
// Generations
// ---------------------------------------------------------------------------

/// What to do when a session is closed.
#[derive(Clone, Copy, Debug, PartialEq, Eq, Structural)]
pub enum Closing {
    /// End the daemon: it was the session that it works with.
    Exit,
    /// Do nothing: it was replaced by another.
    Retire,
}

/// What the daemon keeps of its session.
#[derive(Debug)]
pub struct SessionState {
    /// How often the session has been replaced.
    pub generation: u64,
    /// The streams of the session, in the order of the portal.
    pub streams: Vec<StreamInfo>,
}

/// What to do when the session of a generation is closed, while the daemon works
/// with another or with the same.
pub open spec fn closing(current: int, own: int) -> Closing {
    if own == current {
        Closing::Exit
    } else {
        Closing::Retire
    }
}

impl SessionState {
    /// The first session.
    pub fn new(streams: Vec<StreamInfo>) -> (r: SessionState)
        ensures
            r.generation == 0,
            r.streams == streams,
    {
        SessionState { generation: 0, streams }
    }

    /// Replaces the session.  The generation of the new one is told.
    pub fn replace(&mut self, streams: Vec<StreamInfo>) -> (generation: u64)
        requires
            old(self).generation < u64::MAX,
        ensures
            generation == old(self).generation + 1,
            final(self).generation == generation,
            final(self).streams == streams,
    {
        self.streams = streams;
        self.generation = self.generation + 1;
        self.generation
    }

    /// Notes the sizes of captured frames.
    pub fn note_frames(&mut self, dims: &Vec<(u32, u32)>)
        ensures
            final(self).generation == old(self).generation,
            final(self).streams@ == with_frames(old(self).streams@, dims@),
    {
        store_frame_sizes(&mut self.streams, dims);
    }

    /// Decides what to do when the session of a generation is closed.
    pub fn on_closed(&self, own: u64) -> (r: Closing)
        ensures
            r == closing(self.generation as int, own as int),
    {
        if own == self.generation {
            Closing::Exit
        } else {
            Closing::Retire
        }
    }
}

/// Law: when sessions have been replaced, the end of the newest one ends the
/// daemon, and the end of any earlier one does not.
pub proof fn only_the_newest_session_ends_the_daemon(first: int, replaced: nat, own: int)
    requires
        first <= own <= first + replaced,
    ensures
        closing(first + replaced, own) == Closing::Exit <==> own == first + replaced,
        own < first + replaced ==> closing(first + replaced, own) == Closing::Retire,
{
}

// ---------------------------------------------------------------------------
// Changes of the display
// ---------------------------------------------------------------------------

/// How many milliseconds without a change end a burst of changes.
pub const QUIET_TIME: u64 = 2000;

/// What the watch for changes of the display waits for.
#[derive(Clone, Copy, Debug, PartialEq, Eq, Structural)]
pub enum Watch {
    /// The first change of a burst.
    Idle,
    /// Further changes, or a time without one.
    Burst,
    /// Nothing: there is nothing to wait for any more.
    Stopped,
}

/// What the watch is told.
#[derive(Clone, Copy, Debug, PartialEq, Eq, Structural)]
pub enum Signal {
    /// The display changed.
    Changed,
    /// The quiet time has passed.
    Quiet,
    /// There will be no more changes.
    Ended,
}

impl Watch {
    /// The watch after it was told something.
    pub open spec fn told(self, signal: Signal) -> Watch {
        match (self, signal) {
            (Watch::Stopped, _) => Watch::Stopped,
            (_, Signal::Ended) => Watch::Stopped,
            (_, Signal::Changed) => Watch::Burst,
            (_, Signal::Quiet) => Watch::Idle,
        }
    }

    /// Whether the session has to be replaced when the watch is told something:
    /// when a burst is over.
    pub open spec fn replaces(self, signal: Signal) -> bool {
        self == Watch::Burst && signal == Signal::Quiet
    }

    /// Tells the watch something.  It says whether the session has to be
    /// replaced.
    pub fn tell(self, signal: Signal) -> (r: (Watch, bool))
        ensures
            r.0 == self.told(signal),
            r.1 == self.replaces(signal),
    {
        match (self, signal) {
            (Watch::Stopped, _) => (Watch::Stopped, false),
            (_, Signal::Ended) => (Watch::Stopped, false),
            (_, Signal::Changed) => (Watch::Burst, false),
            (Watch::Burst, Signal::Quiet) => (Watch::Idle, true),
            (Watch::Idle, Signal::Quiet) => (Watch::Idle, false),
        }
    }

    /// How long the watch waits, if not forever.
    pub open spec fn waiting_time(self) -> Option<u64> {
        if self == Watch::Burst {
            Some(QUIET_TIME)
        } else {
            None
        }
    }

    /// How long the watch waits, if not forever.
    pub fn patience(self) -> (r: Option<u64>)
        ensures
            r == self.waiting_time(),
            r == (if self == Watch::Burst {
                Some(QUIET_TIME)
            } else {
                None
            }),
    {
        match self {
            Watch::Burst => Some(QUIET_TIME),
            _ => None,
        }
    }
}

/// The watch after it was told several things.
pub open spec fn watched(w: Watch, signals: Seq<Signal>) -> Watch
    decreases signals.len(),
{
    if signals.len() == 0 {
        w
    } else {
        watched(w, signals.drop_last()).told(signals.last())
    }
}

/// How often the session is replaced while the watch is told several things.
pub open spec fn replacements(w: Watch, signals: Seq<Signal>) -> nat
    decreases signals.len(),
{
    if signals.len() == 0 {
        0
    } else {
        replacements(w, signals.drop_last()) + (if watched(w, signals.drop_last()).replaces(
            signals.last(),
        ) {
            1nat
        } else {
            0nat
        })
    }
}

/// So many changes of the display.
pub open spec fn changes(n: nat) -> Seq<Signal> {
    Seq::new(n, |i: int| Signal::Changed)
}

proof fn changes_make_a_burst(n: nat)
    requires
        n >= 1,
    ensures
        watched(Watch::Idle, changes(n)) == Watch::Burst,
        replacements(Watch::Idle, changes(n)) == 0,
    decreases n,
{
    let before = changes((n - 1) as nat);
    assert(changes(n).drop_last() =~= before);
    if n > 1 {
        changes_make_a_burst((n - 1) as nat);
    } else {
        assert(before =~= Seq::<Signal>::empty());
        assert(replacements(Watch::Idle, before) == 0);
    }
}

/// Law: however many changes a burst has, the session is replaced once, when it
/// is over.
pub proof fn a_burst_replaces_the_session_once(n: nat)
    requires
        n >= 1,
    ensures
        replacements(Watch::Idle, changes(n)) == 0,
        replacements(Watch::Idle, changes(n).push(Signal::Quiet)) == 1,
        watched(Watch::Idle, changes(n).push(Signal::Quiet)) == Watch::Idle,
{
    changes_make_a_burst(n);
    assert(changes(n).push(Signal::Quiet).drop_last() =~= changes(n));
}

/// How many changes there are among signals.
pub open spec fn changes_among(signals: Seq<Signal>) -> nat
    decreases signals.len(),
{
    if signals.len() == 0 {
        0
    } else {
        changes_among(signals.drop_last()) + (if signals.last() == Signal::Changed {
            1nat
        } else {
            0nat
        })
    }
}

/// Law: the session is never replaced without a change: there are at least as
/// many changes as replacements.
pub proof fn replacements_follow_changes(signals: Seq<Signal>)
    ensures
        replacements(Watch::Idle, signals) + (if watched(Watch::Idle, signals) == Watch::Burst {
            1nat
        } else {
            0nat
        }) <= changes_among(signals),
    decreases signals.len(),
{
    if signals.len() > 0 {
        replacements_follow_changes(signals.drop_last());
    }
}

/// Law: once there will be no more changes, the session is not replaced again.
pub proof fn a_stopped_watch_stays_stopped(signals: Seq<Signal>)
    ensures
        watched(Watch::Stopped, signals) == Watch::Stopped,
        replacements(Watch::Stopped, signals) == 0,
    decreases signals.len(),
{
    if signals.len() > 0 {
        a_stopped_watch_stays_stopped(signals.drop_last());
    }
}

/// Law: what the watch waits for next goes by what it was told last, unless it has
/// stopped; and it asks for a new session only when a burst is followed by quiet.
pub proof fn the_last_signal_decides(w: Watch, signal: Signal)
    ensures
        w == Watch::Stopped ==> w.told(signal) == Watch::Stopped,
        w != Watch::Stopped ==> w.told(Signal::Changed) == Watch::Burst && w.told(Signal::Quiet)
            == Watch::Idle && w.told(Signal::Ended) == Watch::Stopped,
        w.replaces(signal) ==> w == Watch::Burst && signal == Signal::Quiet,
        Watch::Burst.replaces(Signal::Quiet),
{
}

/// Law: the end of a session ends the daemon just where its generation is the one
/// that the daemon works with; a daemon that runs already is told with its path.
pub proof fn the_current_session_ends_the_daemon(current: int, own: int, path: Seq<char>)
    ensures
        own == current ==> closing(current, own) == Closing::Exit,
        own != current ==> closing(current, own) == Closing::Retire,
        already_running(path) == "another wayland-agent daemon is already running at "@ + path,
{
}

/// Law: a daemon starts unless another one answers, and it removes a socket just
/// where nobody answers on it.
pub proof fn daemons_do_not_start_twice(found: Found)
    ensures
        starts(found) is None <==> found is Answered,
        starts(found) == Some(true) <==> found is Silent,
        starts(found) == Some(false) <==> found is Nothing,
{
}

/// Law: a burst is over after two seconds without a change; nothing else is waited
/// for with a limit.
pub proof fn bursts_end_after_two_seconds(w: Watch)
    ensures
        w is Burst ==> w.waiting_time() == Some(2000u64),
        !(w is Burst) ==> w.waiting_time() is None,
{
}

} // verus!
