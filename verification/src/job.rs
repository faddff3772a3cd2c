//! Jobs: how requests are carried out.
//!
//! A job is a machine.  It says what has to be done next, and goes on when it is
//! told what came of that.  A job begins while the session is locked; it says
//! whether it needs the lock any longer.  It does not hold the lock while it waits
//! for the extension, for the accessibility bus or for a frame.

use vstd::prelude::*;
use vstd::string::*;

use crate::coord::Coord;
use crate::dict::{Value, WindowDict};
use crate::extension::{
    call_failed, dispatch_extension, ext_outcome, tell_call_failed, ExtCall, ExtRequest,
};
use crate::keys::{button_code, button_outcome, keysym};
use crate::number::{decimal, show_u64};
use crate::paths::{frame_paths, output_paths};
use crate::protocol::{detailed, filed, plain, refused, Request, Response, ResponseView};
use crate::query::{outcome_view, Query, QueryView, UiAsk, UiEvent, UiGoal};
use crate::steps::{
    balanced, chord, chord_steps, find_key, find_keys, keysyms, tap, tap_steps, type_text, typing,
    unknown_key, Control, Step,
};
use crate::stream::{
    aimed, first_covering, list_streams, node_ids, nodes, resolve_global, stream_at, stream_list,
    Aim, StreamInfo,
};
use crate::text::{chars_of, full_pieces, split_full, texts};
use crate::window::{
    dict_bool, dict_i64, dict_id, flag_set, int_field, resolve_window_selector, selected,
    window_id, WindowId,
};

verus! {

/// How many milliseconds pass before a window is looked at again.
pub const SETTLE_PAUSE: u64 = 50;

/// How many milliseconds a window has to take the focus.
pub const SETTLE_LIMIT: u64 = 2000;

/// What is done with a window that has the focus.
#[derive(Debug)]
pub enum Errand {
    /// Click at a place relative to its frame or to its client area.
    Click { x: Coord, y: Coord, code: i32, button: String, client: bool },
    /// Type a text into it.
    Type { text: String, delay: Option<u64> },
}

/// A click in a window.
#[derive(Debug)]
pub struct Spot {
    pub x: Coord,
    pub y: Coord,
    pub code: i32,
    pub button: String,
    pub client: bool,
    pub id: WindowId,
}

/// What the pointer does when it has got where it goes.
#[derive(Debug)]
pub enum Touch {
    Nothing,
    /// It taps the button with a name.
    Named(String),
    /// It taps the button with a code.
    Code(i32),
}

/// What came of carrying out a part of a job.
#[derive(Debug)]
pub enum JobEvent {
    /// The extension replied, or did not.
    Replied(Result<Vec<WindowDict>, String>),
    /// A window was looked at again, so many milliseconds after it was given the
    /// focus.
    Looked { reply: Result<WindowDict, String>, waited: u64 },
    /// A place in a window was found on the screen: the width and the height of
    /// what it is relative to, and the point.
    Placed { w: Coord, h: Coord, x: Coord, y: Coord },
    /// The session is locked; these are its streams.
    Locked(Vec<StreamInfo>),
    /// A point of the screen was found on the frame of a stream.
    Framed { x: Coord, y: Coord },
    /// The steps were taken.
    Ran,
    /// Frames of these sizes were captured and saved.
    Captured(Vec<(u32, u32)>),
    /// The sizes of the frames were noted.
    Noted,
    /// A query was told something.
    Told(UiEvent),
    /// Something went wrong.
    Failed(String),
}

/// A job.
#[derive(Debug)]
pub enum Job {
    /// The extension has to be asked.
    Asking { req: ExtRequest },
    /// The extension has to be asked for the windows.
    Listing { sel: String, errand: Errand },
    /// The extension has to be asked to give a window the focus.
    Focusing { id: u64, errand: Errand },
    /// The window has to be looked at again after a pause.
    Settling { id: u64, errand: Errand },
    /// A place in a window has to be found on the screen.
    Placing { spot: Spot, rect: (i64, i64, i64, i64) },
    /// The session has to be locked, to click at a point of the screen.
    Aiming { spot: Spot, gx: Coord, gy: Coord },
    /// The session has to be locked, to type.
    Keying { into: WindowId, text: String, delay: Option<u64> },
    /// A point of the screen has to be found on the frame of a stream.
    Framing { aim: Aim, x: Coord, y: Coord, touch: Touch, reply: Response },
    /// Steps have to be taken.
    Acting { steps: Vec<Step>, reply: Response },
    /// Frames have to be captured and saved.
    Capturing { outs: Vec<String>, nodes: Vec<u32> },
    /// The sizes of the frames have to be noted.
    Noting { outs: Vec<String>, dims: Vec<(u32, u32)> },
    /// A query has to be told something.
    Querying { query: Query },
    /// The job is over.
    Over { outcome: Result<Response, String> },
}

/// A job as a value.
pub enum JobView {
    Asking { req: ExtRequest },
    Listing { sel: String, errand: Errand },
    Focusing { id: u64, errand: Errand },
    Settling { id: u64, errand: Errand },
    Placing { spot: Spot, rect: (i64, i64, i64, i64) },
    Aiming { spot: Spot, gx: Coord, gy: Coord },
    Keying { into: WindowId, text: String, delay: Option<u64> },
    Framing { aim: Aim, x: Coord, y: Coord, touch: Touch, reply: ResponseView },
    Acting { steps: Seq<Step>, reply: ResponseView },
    Capturing { outs: Seq<Seq<char>>, nodes: Seq<u32> },
    Noting { outs: Seq<Seq<char>>, dims: Seq<(u32, u32)> },
    Querying { query: QueryView },
    Over { outcome: Result<ResponseView, Seq<char>> },
}

impl View for Job {
    type V = JobView;

    open spec fn view(&self) -> JobView {
        match *self {
            Job::Asking { req } => JobView::Asking { req },
            Job::Listing { sel, errand } => JobView::Listing { sel, errand },
            Job::Focusing { id, errand } => JobView::Focusing { id, errand },
            Job::Settling { id, errand } => JobView::Settling { id, errand },
            Job::Placing { spot, rect } => JobView::Placing { spot, rect },
            Job::Aiming { spot, gx, gy } => JobView::Aiming { spot, gx, gy },
            Job::Keying { into: id, text, delay } => JobView::Keying { into: id, text, delay },
            Job::Framing { aim, x, y, touch, reply } => JobView::Framing {
                aim,
                x,
                y,
                touch,
                reply: reply@,
            },
            Job::Acting { steps, reply } => JobView::Acting { steps: steps@, reply: reply@ },
            Job::Capturing { outs, nodes } => JobView::Capturing {
                outs: texts(outs@),
                nodes: nodes@,
            },
            Job::Noting { outs, dims } => JobView::Noting { outs: texts(outs@), dims: dims@ },
            Job::Querying { query } => JobView::Querying { query: query@ },
            Job::Over { outcome } => JobView::Over { outcome: outcome_view(outcome) },
        }
    }
}

/// What has to be done next.
#[derive(Debug)]
pub enum JobAsk<'a> {
    /// Call the extension.
    Extension(ExtCall),
    /// Call the extension after a pause.
    Later(u64, ExtCall),
    /// Add a place, given by its coordinates, to the origin of a rectangle.
    Place((i64, i64, i64, i64), &'a Coord, &'a Coord),
    /// Lock the session.
    Lock,
    /// Take the origin of an aim off a point, and scale what is left.
    Frame(Aim, &'a Coord, &'a Coord),
    /// Take steps.
    Run(&'a Vec<Step>),
    /// Capture one frame of each node, and save each to a path.
    Capture(&'a Vec<u32>, &'a Vec<String>),
    /// Note the sizes of the frames.
    Note(&'a Vec<(u32, u32)>),
    /// Tell a query something.
    Query(UiAsk<'a>),
    /// Nothing: the job is over.
    Nothing,
}

impl JobAsk<'_> {
    /// Whether the portal has to be used.
    pub open spec fn uses_portal(self) -> bool {
        self is Frame || self is Run
    }

    /// Whether something else has to be waited for: the extension, the
    /// accessibility bus, a frame or the lock itself.
    pub open spec fn waits(self) -> bool {
        self is Extension || self is Later || self is Query || self is Capture || self is Note
            || self is Lock
    }
}

// ---------------------------------------------------------------------------
// How a job begins
// ---------------------------------------------------------------------------

/// A job that ends with an answer.
pub open spec fn done(r: ResponseView) -> JobView {
    JobView::Over { outcome: Ok(r) }
}

/// A job that ends with an error.
pub open spec fn failed(e: Seq<char>) -> JobView {
    JobView::Over { outcome: Err(e) }
}

/// A job that takes steps and says nothing more.
pub open spec fn acting(steps: Seq<Step>) -> JobView {
    JobView::Acting { steps, reply: plain() }
}

/// A step with the pointer on a stream.
pub open spec fn motion(node: u32, x: Coord, y: Coord) -> Step {
    Step::Motion { node, x: x.bits, y: y.bits }
}

/// What is said of a point that no stream covers.
pub open spec fn uncovered(x: Coord, y: Coord) -> Seq<char> {
    "no stream covers point ("@ + x.text@ + ", "@ + y.text@ + ")"@
}

/// What is said of a stream that does not exist.
pub open spec fn no_stream(stream: int) -> Seq<char> {
    "stream "@ + decimal(stream) + " out of range"@
}

/// A chord: the pieces between the plus signs, pressed in order and released in
/// reverse order.
pub open spec fn chord_job(keys: Seq<char>) -> JobView {
    let names = full_pieces(keys, '+');
    if names.len() == 0 {
        done(refused("empty chord"@))
    } else {
        match keysyms(names) {
            Err(e) => failed(e),
            Ok(syms) => acting(chord(syms)),
        }
    }
}

/// A move to a pixel of a screenshot of a stream, with a tap of a button or
/// without.  The stream must exist, the pixel must be reachable and the button
/// must exist.
pub open spec fn pixel_job(
    streams: Seq<StreamInfo>,
    x: Coord,
    y: Coord,
    stream: usize,
    button: Option<String>,
) -> JobView {
    if stream >= streams.len() {
        failed(no_stream(stream as int))
    } else {
        let s = streams[stream as int];
        if !s.reachable(x, y) {
            failed(s.unreachable_text(x, y))
        } else {
            let go = seq![motion(s.node_id, x, y)];
            match button {
                None => acting(go),
                Some(name) => match button_outcome(name@) {
                    Err(e) => failed(e),
                    Ok(code) => acting(go + tap(Control::Button(code))),
                },
            }
        }
    }
}

/// A move to a point of the screen.
pub open spec fn global_job(streams: Seq<StreamInfo>, x: Coord, y: Coord, touch: Touch) -> JobView {
    match aimed(streams, x, y) {
        Err(e) => failed(e),
        Ok(aim) => JobView::Framing { aim, x, y, touch, reply: plain() },
    }
}

/// A job with one key.
pub open spec fn key_job(name: Seq<char>, down: bool, up: bool) -> JobView {
    match keysym(name) {
        None => failed(unknown_key(name)),
        Some(sym) => acting(control_steps(Control::Keysym(sym), down, up)),
    }
}

/// A job with one button.
pub open spec fn button_job(name: Seq<char>, down: bool, up: bool) -> JobView {
    match button_outcome(name) {
        Err(e) => failed(e),
        Ok(code) => acting(control_steps(Control::Button(code), down, up)),
    }
}

/// The steps that press and release a control, or do one of the two.
pub open spec fn control_steps(c: Control, down: bool, up: bool) -> Seq<Step> {
    (if down {
        seq![Step::Press(c)]
    } else {
        Seq::<Step>::empty()
    }) + (if up {
        seq![Step::Release(c)]
    } else {
        Seq::<Step>::empty()
    })
}

/// The job that a request begins.
pub open spec fn dispatched(req: Request, streams: Seq<StreamInfo>) -> JobView {
    match req {
        Request::Ping => done(detailed("pong"@)),
        Request::Streams => done(detailed(stream_list(streams))),
        Request::StreamAt { x, y } => match first_covering(streams, x, y) {
            None => failed(uncovered(x, y)),
            Some(i) => done(detailed(decimal(i))),
        },
        Request::Windows => JobView::Asking { req: ExtRequest::Windows },
        Request::Window { id } => JobView::Asking { req: ExtRequest::Window { id } },
        Request::FocusWindow { id } => JobView::Asking { req: ExtRequest::FocusWindow { id } },
        Request::Monitors => JobView::Asking { req: ExtRequest::Monitors },
        Request::FindWindow { pattern, all } => JobView::Asking {
            req: ExtRequest::FindWindow { pattern, all },
        },
        Request::ClickWindow { window, x, y, button, client } => match button_outcome(button@) {
            Err(e) => failed(e),
            Ok(code) => JobView::Listing {
                sel: window,
                errand: Errand::Click { x, y, code, button, client },
            },
        },
        Request::TypeWindow { window, text, delay } => JobView::Listing {
            sel: window,
            errand: Errand::Type { text, delay },
        },
        Request::UiTree { window, depth, all } => JobView::Querying {
            query: QueryView::Listing { sel: window, goal: UiGoal::Tree { depth, all } },
        },
        Request::UiFind { window, pattern, role } => JobView::Querying {
            query: QueryView::Listing { sel: window, goal: UiGoal::Find { pattern, role } },
        },
        Request::Key { name } => key_job(name@, true, true),
        Request::KeyDown { name } => key_job(name@, true, false),
        Request::KeyUp { name } => key_job(name@, false, true),
        Request::KeyChord { keys } => chord_job(keys@),
        Request::KeyCode { code } => acting(tap(Control::Keycode(code))),
        Request::Type { text, delay } => acting(typing(text@, delay)),
        Request::Move { x, y, stream } => pixel_job(streams, x, y, stream, None),
        Request::ClickAt { x, y, button, stream } => pixel_job(
            streams,
            x,
            y,
            stream,
            Some(button),
        ),
        Request::MoveGlobal { x, y } => global_job(streams, x, y, Touch::Nothing),
        Request::ClickAtGlobal { x, y, button } => global_job(
            streams,
            x,
            y,
            Touch::Named(button),
        ),
        Request::Click { button } => button_job(button@, true, true),
        Request::ButtonDown { button } => button_job(button@, true, false),
        Request::ButtonUp { button } => button_job(button@, false, true),
        Request::Screenshot { out } => JobView::Capturing {
            outs: frame_paths(out@, streams.len()),
            nodes: nodes(streams),
        },
    }
}

fn succeed(r: Response) -> (job: Job)
    ensures
        job@ == done(r@),
{
    Job::Over { outcome: Ok(r) }
}

fn fail(e: String) -> (job: Job)
    ensures
        job@ == failed(e@),
{
    Job::Over { outcome: Err(e) }
}

fn act(steps: Vec<Step>) -> (job: Job)
    ensures
        job@ == acting(steps@),
{
    Job::Acting { steps, reply: Response::ok() }
}

fn steps_of_control(c: Control, down: bool, up: bool) -> (r: Vec<Step>)
    ensures
        r@ == control_steps(c, down, up),
{
    let mut r: Vec<Step> = Vec::new();
    if down {
        r.push(Step::Press(c));
    }
    if up {
        r.push(Step::Release(c));
    }
    assert(r@ =~= control_steps(c, down, up));
    r
}

fn begin_key(name: &str, down: bool, up: bool) -> (job: Job)
    ensures
        job@ == key_job(name@, down, up),
{
    match find_key(name) {
        Err(e) => fail(e),
        Ok(sym) => act(steps_of_control(Control::Keysym(sym), down, up)),
    }
}

fn begin_button(name: &str, down: bool, up: bool) -> (job: Job)
    ensures
        job@ == button_job(name@, down, up),
{
    match button_code(name) {
        Err(e) => fail(e),
        Ok(code) => act(steps_of_control(Control::Button(code), down, up)),
    }
}

fn begin_chord(keys: &str) -> (job: Job)
    ensures
        job@ == chord_job(keys@),
{
    let names: Vec<String> = split_full(keys, '+');
    if names.len() == 0 {
        return succeed(Response::err("empty chord".to_owned()));
    }
    match find_keys(&names) {
        Err(e) => fail(e),
        Ok(syms) => act(chord_steps(&syms)),
    }
}

fn begin_stream_at(streams: &Vec<StreamInfo>, x: Coord, y: Coord) -> (job: Job)
    ensures
        job@ == (match first_covering(streams@, x, y) {
            None => failed(uncovered(x, y)),
            Some(i) => done(detailed(decimal(i))),
        }),
{
    match stream_at(streams, &x, &y) {
        None => {
            let mut e: String = "no stream covers point (".to_owned();
            e.append(x.text.as_str());
            e.append(", ");
            e.append(y.text.as_str());
            e.append(")");
            fail(e)
        },
        Some(i) => succeed(Response::ok_detail(show_u64(i as u64))),
    }
}

fn tell_no_stream(stream: usize) -> (e: String)
    ensures
        e@ == no_stream(stream as int),
{
    let mut e: String = "stream ".to_owned();
    e.append(show_u64(stream as u64).as_str());
    e.append(" out of range");
    e
}

fn begin_pixel(
    streams: &Vec<StreamInfo>,
    x: Coord,
    y: Coord,
    stream: usize,
    button: Option<String>,
) -> (job: Job)
    ensures
        job@ == pixel_job(streams@, x, y, stream, button),
{
    if stream >= streams.len() {
        return fail(tell_no_stream(stream));
    }
    let s: StreamInfo = streams[stream];
    let (ix, iy) = s.screenshot_to_input(x, y);
    if let Err(e) = s.check_reachable(&ix, &iy) {
        return fail(e);
    }
    let mut steps: Vec<Step> = vec![Step::Motion { node: s.node_id, x: ix.bits, y: iy.bits }];
    assert(steps@ =~= seq![motion(s.node_id, x, y)]);
    if let Some(name) = button {
        match button_code(name.as_str()) {
            Err(e) => {
                return fail(e);
            },
            Ok(code) => {
                let mut taps: Vec<Step> = tap_steps(Control::Button(code));
                steps.append(&mut taps);
            },
        }
    }
    act(steps)
}

fn begin_global(streams: &Vec<StreamInfo>, x: Coord, y: Coord, touch: Touch) -> (job: Job)
    ensures
        job@ == global_job(streams@, x, y, touch),
{
    match resolve_global(streams, &x, &y) {
        Err(e) => fail(e),
        Ok(aim) => Job::Framing { aim, x, y, touch, reply: Response::ok() },
    }
}

/// Whether no two of several texts are the same.
pub open spec fn all_different(v: Seq<Seq<char>>) -> bool {
    forall|i: int, j: int| 0 <= i < j < v.len() ==> #[trigger] v[i] != #[trigger] v[j]
}

/// Begins to carry out a request.  Each frame of a screenshot is saved to a path
/// of its own.
pub fn dispatch(req: Request, streams: &Vec<StreamInfo>) -> (job: Job)
    ensures
        job@ == dispatched(req, streams@),
        job@ matches JobView::Capturing { outs, nodes: _ } ==> all_different(outs),
{
    match req {
        Request::Ping => succeed(Response::ok_detail("pong".to_owned())),
        Request::Streams => succeed(Response::ok_detail(list_streams(streams))),
        Request::StreamAt { x, y } => begin_stream_at(streams, x, y),
        Request::Windows => Job::Asking { req: ExtRequest::Windows },
        Request::Window { id } => Job::Asking { req: ExtRequest::Window { id } },
        Request::FocusWindow { id } => Job::Asking { req: ExtRequest::FocusWindow { id } },
        Request::Monitors => Job::Asking { req: ExtRequest::Monitors },
        Request::FindWindow { pattern, all } => Job::Asking {
            req: ExtRequest::FindWindow { pattern, all },
        },
        Request::ClickWindow { window, x, y, button, client } => match button_code(
            button.as_str(),
        ) {
            Err(e) => fail(e),
            Ok(code) => Job::Listing {
                sel: window,
                errand: Errand::Click { x, y, code, button, client },
            },
        },
        Request::TypeWindow { window, text, delay } => Job::Listing {
            sel: window,
            errand: Errand::Type { text, delay },
        },
        Request::UiTree { window, depth, all } => Job::Querying {
            query: Query::new(window, UiGoal::Tree { depth, all }),
        },
        Request::UiFind { window, pattern, role } => Job::Querying {
            query: Query::new(window, UiGoal::Find { pattern, role }),
        },
        Request::Key { name } => begin_key(name.as_str(), true, true),
        Request::KeyDown { name } => begin_key(name.as_str(), true, false),
        Request::KeyUp { name } => begin_key(name.as_str(), false, true),
        Request::KeyChord { keys } => begin_chord(keys.as_str()),
        Request::KeyCode { code } => act(tap_steps(Control::Keycode(code))),
        Request::Type { text, delay } => act(type_text(text.as_str(), delay)),
        Request::Move { x, y, stream } => begin_pixel(streams, x, y, stream, None),
        Request::ClickAt { x, y, button, stream } => begin_pixel(
            streams,
            x,
            y,
            stream,
            Some(button),
        ),
        Request::MoveGlobal { x, y } => begin_global(streams, x, y, Touch::Nothing),
        Request::ClickAtGlobal { x, y, button } => begin_global(
            streams,
            x,
            y,
            Touch::Named(button),
        ),
        Request::Click { button } => begin_button(button.as_str(), true, true),
        Request::ButtonDown { button } => begin_button(button.as_str(), true, false),
        Request::ButtonUp { button } => begin_button(button.as_str(), false, true),
        Request::Screenshot { out } => Job::Capturing {
            outs: output_paths(out.as_str(), streams.len()),
            nodes: node_ids(streams),
        },
    }
}

// ---------------------------------------------------------------------------
// How a job goes on
// ---------------------------------------------------------------------------

/// What a click in a window is relative to.
pub open spec fn area(client: bool) -> Seq<char> {
    if client {
        "client area"@
    } else {
        "frame"@
    }
}

/// The rectangle that a click in a window is relative to, or the first of its
/// numbers that is not to be had.
pub open spec fn area_rect(w: Map<Seq<char>, Value>, client: bool) -> Result<
    (i64, i64, i64, i64),
    Seq<char>,
> {
    let (kx, ky, kw, kh) = if client {
        ("client_x"@, "client_y"@, "client_w"@, "client_h"@)
    } else {
        ("frame_x"@, "frame_y"@, "frame_w"@, "frame_h"@)
    };
    match int_field(w, kx) {
        Err(e) => Err(e),
        Ok(x) => match int_field(w, ky) {
            Err(e) => Err(e),
            Ok(y) => match int_field(w, kw) {
                Err(e) => Err(e),
                Ok(wd) => match int_field(w, kh) {
                    Err(e) => Err(e),
                    Ok(h) => Ok((x, y, wd, h)),
                },
            },
        },
    }
}

/// When a window has the focus, or has had the time to take it: its errand is
/// run.
pub open spec fn after_focus(win: WindowDict, errand: Errand) -> JobView {
    match window_id(win@) {
        Err(e) => failed(e),
        Ok(id) => match errand {
            Errand::Type { text, delay } => JobView::Keying { into: id, text, delay },
            Errand::Click { x, y, code, button, client } => match area_rect(win@, client) {
                Err(e) => failed(e),
                Ok(rect) => JobView::Placing {
                    spot: Spot { x, y, code, button, client, id },
                    rect,
                },
            },
        },
    }
}

/// After the windows were told: a window that has the focus is not given it.
pub open spec fn after_listing(
    sel: String,
    errand: Errand,
    reply: Result<Vec<WindowDict>, String>,
) -> JobView {
    match reply {
        Err(why) => failed(call_failed(ExtCall::GetWindows, why@)),
        Ok(windows) => match selected(windows@, sel@) {
            Err(e) => failed(e),
            Ok(win) => match window_id(win@) {
                Err(e) => failed(e),
                Ok(id) => if flag_set(win@, "focused"@) {
                    after_focus(win, errand)
                } else {
                    JobView::Focusing { id: id.bits(), errand }
                },
            },
        },
    }
}

/// After a window was looked at again: when it has the focus, or has had the
/// time to take it, its errand is run on what it looks like now.
pub open spec fn after_look(
    id: u64,
    errand: Errand,
    reply: Result<WindowDict, String>,
    waited: u64,
) -> JobView {
    match reply {
        Err(why) => failed("GetWindow on com.mxshift.WaylandAgent failed after focus: "@ + why@),
        Ok(win) => if flag_set(win@, "focused"@) || waited >= SETTLE_LIMIT {
            after_focus(win, errand)
        } else {
            JobView::Settling { id, errand }
        },
    }
}

/// Whether a number is at least a whole number.
pub open spec fn not_below(x: Coord, whole: Coord) -> bool {
    whole.floor matches Some(n) && x.reaches(n as int)
}

/// Whether a click lies outside what it is relative to.
pub open spec fn outside(spot: Spot, w: Coord, h: Coord) -> bool {
    spot.x.is_negative() || spot.y.is_negative() || not_below(spot.x, w) || not_below(spot.y, h)
}

/// What is said of a click that lies outside what it is relative to.
pub open spec fn outside_text(spot: Spot, w: Coord, h: Coord) -> Seq<char> {
    "offset ("@ + spot.x.rounded@ + ", "@ + spot.y.rounded@ + ") is outside window "@ + decimal(
        spot.id.number(),
    ) + "'s "@ + area(spot.client) + " ("@ + w.rounded@ + "x"@ + h.rounded@
        + "). click-in coordinates are RELATIVE to the window's origin, not global screen coordinates."@
}

/// What is said of a click in a window.
pub open spec fn clicked_text(spot: Spot, gx: Coord, gy: Coord) -> Seq<char> {
    "clicked "@ + spot.button@ + " at ("@ + spot.x.rounded@ + ", "@ + spot.y.rounded@
        + ") relative to window "@ + decimal(spot.id.number()) + "'s "@ + area(spot.client)
        + " (global "@ + gx.rounded@ + ", "@ + gy.rounded@ + ")"@
}

/// What is said of a text that was typed into a window.
pub open spec fn typed_text(n: nat, id: int) -> Seq<char> {
    "typed "@ + decimal(n as int) + " character(s) into window "@ + decimal(id)
}

/// After a point was found on the frame of a stream: the point must be
/// reachable, and the button must exist.
pub open spec fn after_frame(
    aim: Aim,
    touch: Touch,
    reply: ResponseView,
    x: Coord,
    y: Coord,
) -> JobView {
    if !aim.stream.reachable(x, y) {
        failed(aim.stream.unreachable_text(x, y))
    } else {
        let go = seq![motion(aim.stream.node_id, x, y)];
        match touch {
            Touch::Nothing => JobView::Acting { steps: go, reply },
            Touch::Code(code) => JobView::Acting { steps: go + tap(Control::Button(code)), reply },
            Touch::Named(name) => match button_outcome(name@) {
                Err(e) => failed(e),
                Ok(code) => JobView::Acting { steps: go + tap(Control::Button(code)), reply },
            },
        }
    }
}

impl JobView {
    /// Whether a job can be told something: whether what it then has to calculate
    /// is small enough.
    pub open spec fn admits(self, event: JobEvent) -> bool {
        match (self, event) {
            (JobView::Querying { query }, JobEvent::Told(told)) => query.admits(told),
            _ => true,
        }
    }

    /// The job after it was told something.  What it does not wait for leaves it
    /// as it is.
    pub open spec fn told(self, event: JobEvent) -> JobView {
        match (self, event) {
            (JobView::Over { outcome }, _) => self,
            (_, JobEvent::Failed(why)) => failed(why@),
            (JobView::Asking { req }, JobEvent::Replied(reply)) => JobView::Over {
                outcome: ext_outcome(req, reply),
            },
            (JobView::Listing { sel, errand }, JobEvent::Replied(reply)) => after_listing(
                sel,
                errand,
                reply,
            ),
            (JobView::Focusing { id, errand }, JobEvent::Replied(reply)) => match reply {
                Err(why) => failed(call_failed(ExtCall::FocusWindow(id), why@)),
                Ok(_) => JobView::Settling { id, errand },
            },
            (JobView::Settling { id, errand }, JobEvent::Looked { reply, waited }) => after_look(
                id,
                errand,
                reply,
                waited,
            ),
            (JobView::Placing { spot, rect }, JobEvent::Placed { w, h, x, y }) => if outside(
                spot,
                w,
                h,
            ) {
                failed(outside_text(spot, w, h))
            } else {
                JobView::Aiming { spot, gx: x, gy: y }
            },
            (JobView::Aiming { spot, gx, gy }, JobEvent::Locked(streams)) => match aimed(
                streams@,
                gx,
                gy,
            ) {
                Err(e) => failed(e),
                Ok(aim) => JobView::Framing {
                    aim,
                    x: gx,
                    y: gy,
                    touch: Touch::Code(spot.code),
                    reply: detailed(clicked_text(spot, gx, gy)),
                },
            },
            (JobView::Keying { into: id, text, delay }, JobEvent::Locked(streams)) => JobView::Acting {
                steps: typing(text@, delay),
                reply: detailed(typed_text(text@.len(), id.number())),
            },
            (
                JobView::Framing { aim, x: _, y: _, touch, reply },
                JobEvent::Framed { x, y },
            ) => after_frame(aim, touch, reply, x, y),
            (JobView::Acting { steps, reply }, JobEvent::Ran) => done(reply),
            (JobView::Capturing { outs, nodes }, JobEvent::Captured(dims)) => JobView::Noting {
                outs,
                dims: dims@,
            },
            (JobView::Noting { outs, dims }, JobEvent::Noted) => done(filed(outs)),
            (JobView::Querying { query }, JobEvent::Told(told)) => match query.told(told) {
                QueryView::Over { outcome } => JobView::Over { outcome },
                q => JobView::Querying { query: q },
            },
            _ => self,
        }
    }

    /// Whether the job needs the lock of the session.
    pub open spec fn needs_lock(self) -> bool {
        self is Framing || self is Acting
    }
}

fn read_area(win: &WindowDict, client: bool) -> (r: Result<(i64, i64, i64, i64), String>)
    ensures
        match r {
            Ok(rect) => area_rect(win@, client) == Ok::<(i64, i64, i64, i64), Seq<char>>(rect),
            Err(e) => area_rect(win@, client) == Err::<(i64, i64, i64, i64), Seq<char>>(e@),
        },
{
    let (kx, ky, kw, kh) = if client {
        ("client_x", "client_y", "client_w", "client_h")
    } else {
        ("frame_x", "frame_y", "frame_w", "frame_h")
    };
    let x: i64 = dict_i64(win, kx)?;
    let y: i64 = dict_i64(win, ky)?;
    let w: i64 = dict_i64(win, kw)?;
    let h: i64 = dict_i64(win, kh)?;
    Ok((x, y, w, h))
}

fn run_errand(win: WindowDict, errand: Errand) -> (job: Job)
    ensures
        job@ == after_focus(win, errand),
{
    match dict_id(&win) {
        Err(e) => fail(e),
        Ok(id) => match errand {
            Errand::Type { text, delay } => Job::Keying { into: id, text, delay },
            Errand::Click { x, y, code, button, client } => match read_area(&win, client) {
                Err(e) => fail(e),
                Ok(rect) => Job::Placing { spot: Spot { x, y, code, button, client, id }, rect },
            },
        },
    }
}

fn take_listing(sel: String, errand: Errand, reply: Result<Vec<WindowDict>, String>) -> (job: Job)
    ensures
        job@ == after_listing(sel, errand, reply),
{
    match reply {
        Err(why) => fail(tell_call_failed(ExtCall::GetWindows, why.as_str())),
        Ok(windows) => match resolve_window_selector(windows, sel.as_str()) {
            Err(e) => fail(e),
            Ok(win) => match dict_id(&win) {
                Err(e) => fail(e),
                Ok(id) => {
                    if dict_bool(&win, "focused") {
                        run_errand(win, errand)
                    } else {
                        Job::Focusing { id: id.to_bits(), errand }
                    }
                },
            },
        },
    }
}

fn take_look(id: u64, errand: Errand, reply: Result<WindowDict, String>, waited: u64) -> (job: Job)
    ensures
        job@ == after_look(id, errand, reply, waited),
{
    match reply {
        Err(why) => {
            let mut e: String =
                "GetWindow on com.mxshift.WaylandAgent failed after focus: ".to_owned();
            e.append(why.as_str());
            fail(e)
        },
        Ok(win) => {
            if dict_bool(&win, "focused") || waited >= SETTLE_LIMIT {
                run_errand(win, errand)
            } else {
                Job::Settling { id, errand }
            }
        },
    }
}

fn show_area(client: bool) -> (r: &'static str)
    ensures
        r@ == area(client),
{
    if client {
        "client area"
    } else {
        "frame"
    }
}

fn is_not_below(x: &Coord, whole: &Coord) -> (r: bool)
    ensures
        r == not_below(*x, *whole),
{
    match whole.floor {
        Some(n) => x.at_least(n),
        None => false,
    }
}

fn take_place(spot: Spot, w: &Coord, h: &Coord, x: Coord, y: Coord) -> (job: Job)
    ensures
        job@ == (if outside(spot, *w, *h) {
            failed(outside_text(spot, *w, *h))
        } else {
            JobView::Aiming { spot, gx: x, gy: y }
        }),
{
    if spot.x.below_zero() || spot.y.below_zero() || is_not_below(&spot.x, w) || is_not_below(
        &spot.y,
        h,
    ) {
        let mut e: String = "offset (".to_owned();
        e.append(spot.x.rounded.as_str());
        e.append(", ");
        e.append(spot.y.rounded.as_str());
        e.append(") is outside window ");
        e.append(spot.id.text().as_str());
        e.append("'s ");
        e.append(show_area(spot.client));
        e.append(" (");
        e.append(w.rounded.as_str());
        e.append("x");
        e.append(h.rounded.as_str());
        e.append(
            "). click-in coordinates are RELATIVE to the window's origin, not global screen coordinates.",
        );
        fail(e)
    } else {
        Job::Aiming { spot, gx: x, gy: y }
    }
}

fn tell_clicked(spot: &Spot, gx: &Coord, gy: &Coord) -> (r: String)
    ensures
        r@ == clicked_text(*spot, *gx, *gy),
{
    let mut r: String = "clicked ".to_owned();
    r.append(spot.button.as_str());
    r.append(" at (");
    r.append(spot.x.rounded.as_str());
    r.append(", ");
    r.append(spot.y.rounded.as_str());
    r.append(") relative to window ");
    r.append(spot.id.text().as_str());
    r.append("'s ");
    r.append(show_area(spot.client));
    r.append(" (global ");
    r.append(gx.rounded.as_str());
    r.append(", ");
    r.append(gy.rounded.as_str());
    r.append(")");
    r
}

fn take_streams(spot: Spot, gx: Coord, gy: Coord, streams: &Vec<StreamInfo>) -> (job: Job)
    ensures
        job@ == (match aimed(streams@, gx, gy) {
            Err(e) => failed(e),
            Ok(aim) => JobView::Framing {
                aim,
                x: gx,
                y: gy,
                touch: Touch::Code(spot.code),
                reply: detailed(clicked_text(spot, gx, gy)),
            },
        }),
{
    match resolve_global(streams, &gx, &gy) {
        Err(e) => fail(e),
        Ok(aim) => {
            let reply: Response = Response::ok_detail(tell_clicked(&spot, &gx, &gy));
            Job::Framing { aim, x: gx, y: gy, touch: Touch::Code(spot.code), reply }
        },
    }
}

fn key_text(id: WindowId, text: &str, delay: Option<u64>) -> (job: Job)
    ensures
        job@ == (JobView::Acting {
            steps: typing(text@, delay),
            reply: detailed(typed_text(text@.len(), id.number())),
        }),
{
    let n: usize = chars_of(text).len();
    let mut detail: String = "typed ".to_owned();
    detail.append(show_u64(n as u64).as_str());
    detail.append(" character(s) into window ");
    detail.append(id.text().as_str());
    Job::Acting { steps: type_text(text, delay), reply: Response::ok_detail(detail) }
}

fn take_frame(aim: Aim, touch: Touch, reply: Response, x: &Coord, y: &Coord) -> (job: Job)
    ensures
        job@ == after_frame(aim, touch, reply@, *x, *y),
{
    if let Err(e) = aim.stream.check_reachable(x, y) {
        return fail(e);
    }
    let mut steps: Vec<Step> = vec![
        Step::Motion { node: aim.stream.node_id, x: x.bits, y: y.bits },
    ];
    assert(steps@ =~= seq![motion(aim.stream.node_id, *x, *y)]);
    match touch {
        Touch::Nothing => {},
        Touch::Code(code) => {
            let mut taps: Vec<Step> = tap_steps(Control::Button(code));
            steps.append(&mut taps);
        },
        Touch::Named(name) => match button_code(name.as_str()) {
            Err(e) => {
                return fail(e);
            },
            Ok(code) => {
                let mut taps: Vec<Step> = tap_steps(Control::Button(code));
                steps.append(&mut taps);
            },
        },
    }
    Job::Acting { steps, reply }
}

fn tell_query(query: Query, event: UiEvent) -> (job: Job)
    requires
        query@.admits(event),
    ensures
        job@ == (match query@.told(event) {
            QueryView::Over { outcome } => JobView::Over { outcome },
            q => JobView::Querying { query: q },
        }),
{
    let query: Query = query.tell(event);
    if query.is_over() {
        match query.outcome() {
            Some(outcome) => Job::Over { outcome },
            None => fail(String::new()),
        }
    } else {
        Job::Querying { query }
    }
}

impl Job {
    /// Whether something is what has to be done next.
    pub open spec fn asks(self, ask: JobAsk<'_>) -> bool {
        match self {
            Job::Asking { req } => ask == JobAsk::Extension(req.needs()),
            Job::Listing { sel, errand } => ask == JobAsk::Extension(ExtCall::GetWindows),
            Job::Focusing { id, errand } => ask == JobAsk::Extension(ExtCall::FocusWindow(id)),
            Job::Settling { id, errand } => ask == JobAsk::Later(
                SETTLE_PAUSE,
                ExtCall::GetWindow(id),
            ),
            Job::Placing { spot, rect } => ask == JobAsk::Place(rect, &spot.x, &spot.y),
            Job::Aiming { spot, gx, gy } => ask == JobAsk::Lock,
            Job::Keying { into: id, text, delay } => ask == JobAsk::Lock,
            Job::Framing { aim, x, y, touch, reply } => ask == JobAsk::Frame(aim, &x, &y),
            Job::Acting { steps, reply } => ask == JobAsk::Run(&steps),
            Job::Capturing { outs, nodes } => ask == JobAsk::Capture(&nodes, &outs),
            Job::Noting { outs, dims } => ask == JobAsk::Note(&dims),
            Job::Querying { query } => ask matches JobAsk::Query(a) && query@.asks(a),
            Job::Over { outcome } => ask == JobAsk::Nothing,
        }
    }

    /// What has to be done next.
    pub fn ask(&self) -> (r: JobAsk<'_>)
        ensures
            self.asks(r),
            match *self {
                Job::Asking { req } => r == JobAsk::Extension(req.needs()),
                Job::Listing { sel, errand } => r == JobAsk::Extension(ExtCall::GetWindows),
                Job::Focusing { id, errand } => r == JobAsk::Extension(ExtCall::FocusWindow(id)),
                Job::Settling { id, errand } => r == JobAsk::Later(
                    SETTLE_PAUSE,
                    ExtCall::GetWindow(id),
                ),
                Job::Placing { spot, rect } => r == JobAsk::Place(rect, &spot.x, &spot.y),
                Job::Aiming { spot, gx, gy } => r == JobAsk::Lock,
                Job::Keying { into: id, text, delay } => r == JobAsk::Lock,
                Job::Framing { aim, x, y, touch, reply } => r == JobAsk::Frame(aim, &x, &y),
                Job::Acting { steps, reply } => r == JobAsk::Run(&steps),
                Job::Capturing { outs, nodes } => r == JobAsk::Capture(&nodes, &outs),
                Job::Noting { outs, dims } => r == JobAsk::Note(&dims),
                Job::Querying { query } => r matches JobAsk::Query(ask) && query@.asks(ask),
                Job::Over { outcome } => r == JobAsk::Nothing,
            },
            r.uses_portal() ==> self@.needs_lock(),
            r.waits() ==> !self@.needs_lock(),
    {
        match self {
            Job::Asking { req } => JobAsk::Extension(req.call()),
            Job::Listing { sel, errand } => JobAsk::Extension(ExtCall::GetWindows),
            Job::Focusing { id, errand } => JobAsk::Extension(ExtCall::FocusWindow(*id)),
            Job::Settling { id, errand } => JobAsk::Later(SETTLE_PAUSE, ExtCall::GetWindow(*id)),
            Job::Placing { spot, rect } => JobAsk::Place(*rect, &spot.x, &spot.y),
            Job::Aiming { spot, gx, gy } => JobAsk::Lock,
            Job::Keying { into: id, text, delay } => JobAsk::Lock,
            Job::Framing { aim, x, y, touch, reply } => JobAsk::Frame(*aim, x, y),
            Job::Acting { steps, reply } => JobAsk::Run(steps),
            Job::Capturing { outs, nodes } => JobAsk::Capture(nodes, outs),
            Job::Noting { outs, dims } => JobAsk::Note(dims),
            Job::Querying { query } => JobAsk::Query(query.ask()),
            Job::Over { outcome } => JobAsk::Nothing,
        }
    }

    /// Tests whether the job needs the lock of the session.
    pub fn keeps_lock(&self) -> (r: bool)
        ensures
            r == self@.needs_lock(),
    {
        match self {
            Job::Framing { aim, x, y, touch, reply } => true,
            Job::Acting { steps, reply } => true,
            _ => false,
        }
    }

    /// Tests whether the job can be told something.
    pub fn can_tell(&self, event: &JobEvent) -> (r: bool)
        ensures
            r == self@.admits(*event),
    {
        match (self, event) {
            (Job::Querying { query }, JobEvent::Told(told)) => query.can_tell(told),
            _ => true,
        }
    }

    /// Tells the job what came of what it asked for.
    pub fn tell(self, event: JobEvent) -> (job: Job)
        requires
            self@.admits(event),
        ensures
            job@ == self@.told(event),
    {
        match (self, event) {
            (Job::Over { outcome }, _) => Job::Over { outcome },
            (_, JobEvent::Failed(why)) => fail(why),
            (Job::Asking { req }, JobEvent::Replied(reply)) => Job::Over {
                outcome: dispatch_extension(req, reply),
            },
            (Job::Listing { sel, errand }, JobEvent::Replied(reply)) => take_listing(
                sel,
                errand,
                reply,
            ),
            (Job::Focusing { id, errand }, JobEvent::Replied(reply)) => match reply {
                Err(why) => fail(tell_call_failed(ExtCall::FocusWindow(id), why.as_str())),
                Ok(_) => Job::Settling { id, errand },
            },
            (Job::Settling { id, errand }, JobEvent::Looked { reply, waited }) => take_look(
                id,
                errand,
                reply,
                waited,
            ),
            (Job::Placing { spot, rect }, JobEvent::Placed { w, h, x, y }) => take_place(
                spot,
                &w,
                &h,
                x,
                y,
            ),
            (Job::Aiming { spot, gx, gy }, JobEvent::Locked(streams)) => take_streams(
                spot,
                gx,
                gy,
                &streams,
            ),
            (Job::Keying { into: id, text, delay }, JobEvent::Locked(streams)) => key_text(
                id,
                text.as_str(),
                delay,
            ),
            (
                Job::Framing { aim, x: _, y: _, touch, reply },
                JobEvent::Framed { x, y },
            ) => take_frame(aim, touch, reply, &x, &y),
            (Job::Acting { steps, reply }, JobEvent::Ran) => succeed(reply),
            (Job::Capturing { outs, nodes }, JobEvent::Captured(dims)) => Job::Noting {
                outs,
                dims,
            },
            (Job::Noting { outs, dims }, JobEvent::Noted) => succeed(Response::ok_paths(outs)),
            (Job::Querying { query }, JobEvent::Told(told)) => tell_query(query, told),
            (job, _) => job,
        }
    }

    /// Tells the job what came of what it asked for, if it can be told.
    pub fn step(self, event: JobEvent) -> (r: Option<Job>)
        ensures
            match r {
                Some(job) => self@.admits(event) && job@ == self@.told(event),
                None => !self@.admits(event),
            },
    {
        if self.can_tell(&event) {
            Some(self.tell(event))
        } else {
            None
        }
    }
}

// ---------------------------------------------------------------------------
// Laws
// ---------------------------------------------------------------------------

/// Law: a job that something went wrong for ends with what went wrong, and a job
/// that is over stays as it is.
pub proof fn failures_end_jobs(job: JobView, why: String, event: JobEvent)
    ensures
        !(job is Over) ==> job.told(JobEvent::Failed(why)) == failed(why@),
        job is Over ==> job.told(event) == job,
{
}

/// Whether a request is one to hold something, or to let go of it.
pub open spec fn holds(req: Request) -> bool {
    req is KeyDown || req is KeyUp || req is ButtonDown || req is ButtonUp
}

/// Whether the steps of a job release all that they press.
pub open spec fn tidy(job: JobView) -> bool {
    job matches JobView::Acting { steps, reply } ==> balanced(steps)
}

/// Law: a request leaves nothing pressed, unless it is one to hold something or
/// to let go of it.
pub proof fn requests_leave_nothing_pressed(req: Request, streams: Seq<StreamInfo>)
    requires
        !holds(req),
    ensures
        tidy(dispatched(req, streams)),
{
    match req {
        Request::Key { name } => {
            if let Some(sym) = keysym(name@) {
                let c = Control::Keysym(sym);
                crate::steps::taps_are_balanced(c);
                assert(control_steps(c, true, true) =~= tap(c));
            }
        },
        Request::Click { button } => {
            if let Ok(code) = button_outcome(button@) {
                let c = Control::Button(code);
                crate::steps::taps_are_balanced(c);
                assert(control_steps(c, true, true) =~= tap(c));
            }
        },
        Request::KeyChord { keys } => {
            if let Ok(syms) = keysyms(full_pieces(keys@, '+')) {
                crate::steps::chords_are_balanced(syms);
            }
        },
        Request::KeyCode { code } => {
            crate::steps::taps_are_balanced(Control::Keycode(code));
        },
        Request::Type { text, delay } => {
            crate::steps::typing_is_balanced(text@, delay);
        },
        Request::Move { x, y, stream } => {
            if stream < streams.len() {
                crate::steps::other_steps_are_balanced(
                    motion(streams[stream as int].node_id, x, y),
                );
            }
        },
        Request::ClickAt { x, y, button, stream } => {
            if stream < streams.len() {
                if let Ok(code) = button_outcome(button@) {
                    crate::steps::moving_and_tapping_is_balanced(
                        streams[stream as int].node_id,
                        x.bits,
                        y.bits,
                        Control::Button(code),
                    );
                }
            }
        },
        _ => {},
    }
}

/// Law: a job whose steps release all that they press goes on like that.
pub proof fn jobs_stay_tidy(job: JobView, event: JobEvent)
    requires
        tidy(job),
    ensures
        tidy(job.told(event)),
{
    match (job, event) {
        (JobView::Keying { into: id, text, delay }, JobEvent::Locked(streams)) => {
            crate::steps::typing_is_balanced(text@, delay);
        },
        (JobView::Framing { aim, x: _, y: _, touch, reply }, JobEvent::Framed { x, y }) => {
            let node = aim.stream.node_id;
            crate::steps::other_steps_are_balanced(motion(node, x, y));
            let code = match touch {
                Touch::Named(name) => if let Ok(code) = button_outcome(name@) {
                    code
                } else {
                    0
                },
                Touch::Code(code) => code,
                Touch::Nothing => 0,
            };
            crate::steps::moving_and_tapping_is_balanced(
                node,
                x.bits,
                y.bits,
                Control::Button(code),
            );
        },
        _ => {},
    }
}

/// Law: a window that has the focus is not given it again.
pub proof fn focused_windows_are_left_alone(
    sel: String,
    errand: Errand,
    windows: Vec<WindowDict>,
)
    requires
        selected(windows@, sel@) matches Ok(win) && flag_set(win@, "focused"@),
    ensures
        ({
            let job = JobView::Listing { sel, errand }.told(JobEvent::Replied(Ok(windows)));
            !(job is Focusing) && !(job is Settling)
        }),
{
}

/// Law: the wait for the focus ends when the window has it, and when the time is
/// up.
pub proof fn waiting_for_the_focus_ends(
    id: u64,
    errand: Errand,
    win: WindowDict,
    waited: u64,
)
    ensures
        ({
            let job = JobView::Settling { id, errand }.told(
                JobEvent::Looked { reply: Ok(win), waited },
            );
            job is Settling <==> !flag_set(win@, "focused"@) && waited < SETTLE_LIMIT
        }),
{
}

/// Law: a text is typed into a window in the same steps as it is typed without
/// one.
pub proof fn windows_are_typed_into_alike(
    id: WindowId,
    text: String,
    delay: Option<u64>,
    streams: Vec<StreamInfo>,
)
    ensures
        ({
            let there = JobView::Keying { into: id, text, delay }.told(JobEvent::Locked(streams));
            let here = dispatched(Request::Type { text, delay }, streams@);
            there->steps == here->steps && there is Acting && here is Acting
        }),
{
}

/// Law: a request that names a button that does not exist is refused before
/// anything else is done.
pub proof fn unknown_buttons_are_refused(req: Request, streams: Seq<StreamInfo>)
    requires
        match req {
            Request::Click { button } => button_outcome(button@) is Err,
            Request::ButtonDown { button } => button_outcome(button@) is Err,
            Request::ButtonUp { button } => button_outcome(button@) is Err,
            Request::ClickAt { x, y, button, stream } => button_outcome(button@) is Err,
            Request::ClickWindow { window, x, y, button, client } => button_outcome(
                button@,
            ) is Err,
            _ => false,
        },
    ensures
        dispatched(req, streams) matches JobView::Over { outcome } && outcome is Err,
{
}

/// Law: a request for a point of the screen moves the pointer on the first
/// stream that covers the point, and to where the point falls on its frame; or
/// it is refused, and then nothing is done.
pub proof fn global_points_are_pointed_at(
    req: Request,
    gx: Coord,
    gy: Coord,
    streams: Seq<StreamInfo>,
    x: Coord,
    y: Coord,
)
    requires
        match req {
            Request::MoveGlobal { x: rx, y: ry } => rx == gx && ry == gy,
            Request::ClickAtGlobal { x: rx, y: ry, button } => rx == gx && ry == gy,
            _ => false,
        },
    ensures
        match dispatched(req, streams).told(JobEvent::Framed { x, y }) {
            JobView::Acting { steps, reply } => exists|i: int|
                #![trigger streams[i]]
                first_covering(streams, gx, gy) == Some(i) && 0 <= i
                    < streams.len() && streams[i].covers(gx, gy)
                    && steps.len() > 0 && steps[0] == motion(streams[i].node_id, x, y)
                    && streams[i].reachable(x, y),
            JobView::Over { outcome } => outcome is Err,
            _ => false,
        },
{
    crate::stream::found_stream_is_the_first(streams, gx, gy);
    if let Some(i) = first_covering(streams, gx, gy) {
        assert(streams[i].covers(gx, gy));
    }
}

/// Law: a request for a pixel of a screenshot moves the pointer on that stream,
/// and to the coordinates as they were given; or it is refused, and then nothing
/// is done.
pub proof fn pixels_are_pointed_at(req: Request, streams: Seq<StreamInfo>)
    requires
        req is Move || req is ClickAt,
    ensures
        match dispatched(req, streams) {
            JobView::Acting { steps, reply } => {
                let (x, y, stream) = match req {
                    Request::Move { x, y, stream } => (x, y, stream),
                    _ => (req->ClickAt_x, req->ClickAt_y, req->ClickAt_stream),
                };
                stream < streams.len() && steps.len() > 0 && steps[0] == (Step::Motion {
                    node: streams[stream as int].node_id,
                    x: x.bits,
                    y: y.bits,
                })
            },
            JobView::Over { outcome } => outcome is Err,
            _ => false,
        },
{
}

/// Law: there is a path for each frame that is captured.
pub proof fn every_frame_has_a_path(out: String, streams: Seq<StreamInfo>)
    ensures
        dispatched(Request::Screenshot { out }, streams) matches JobView::Capturing {
            outs,
            nodes: n,
        } && outs.len() == n.len() && n.len() == streams.len(),
{
}

} // verus!
