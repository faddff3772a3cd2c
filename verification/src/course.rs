//! The course of jobs: what comes of a request, whatever its job is told on the
//! way.

use vstd::prelude::*;
use vstd::string::*;

use crate::coord::Coord;
use crate::dict::WindowDict;
use crate::extension::{ExtCall, ExtRequest};
use crate::job::{dispatched, Errand, Job, JobAsk, JobEvent, JobView, Spot, Touch};
use crate::keys::{button, keysym};
use crate::number::decimal;
use crate::paths::frame_paths;
use crate::protocol::{Request, ResponseView};
use crate::query::{QueryView, UiGoal};
use crate::steps::{
    chords_press_in_order_and_release_in_reverse, keysyms, names_stand_for_keysyms, typing, Control,
    Step,
};
use crate::stream::{aimed, first_covering, found_stream_is_the_first, Aim, StreamInfo};
use crate::text::{full_pieces, quoted};
use crate::window::{flag_set, int_field, selected, window_id};

verus! {

/// A job after it was told several events, one after the other.
#[verifier::opaque]
pub open spec fn told_all(job: JobView, events: Seq<JobEvent>) -> JobView
    decreases events.len(),
{
    if events.len() == 0 {
        job
    } else {
        told_all(job, events.drop_last()).told(events.last())
    }
}

/// What is kept in the course of a click in a window.
spec fn clicking(job: JobView, req: Request, c: i32) -> bool {
    let errand = Errand::Click {
        x: req->ClickWindow_x,
        y: req->ClickWindow_y,
        code: c,
        button: req->ClickWindow_button,
        client: req->client,
    };
    match job {
        JobView::Listing { sel, errand: e } => sel == req->ClickWindow_window && e == errand,
        JobView::Focusing { id, errand: e } => e == errand,
        JobView::Settling { id, errand: e } => e == errand,
        JobView::Placing { spot, rect } => same_click(spot, req, c),
        JobView::Aiming { spot, gx, gy } => same_click(spot, req, c),
        JobView::Framing { aim, x, y, touch, reply } => touch == Touch::Code(c),
        JobView::Acting { steps, reply } => {
            &&& steps.len() == 3
            &&& steps[0] is Motion
            &&& steps[1] == Step::Press(Control::Button(c))
            &&& steps[2] == Step::Release(Control::Button(c))
        },
        JobView::Over { outcome } => true,
        _ => false,
    }
}

spec fn same_click(spot: Spot, req: Request, c: i32) -> bool {
    &&& spot.x == req->ClickWindow_x
    &&& spot.y == req->ClickWindow_y
    &&& spot.code == c
    &&& spot.button == req->ClickWindow_button
    &&& spot.client == req->client
}

proof fn clicking_goes_on(job: JobView, req: Request, c: i32, events: Seq<JobEvent>)
    requires
        clicking(job, req, c),
    ensures
        clicking(told_all(job, events), req, c),
    decreases events.len(),
{
    reveal(told_all);
    if events.len() > 0 {
        clicking_goes_on(job, req, c, events.drop_last());
        clicking_takes_a_step(told_all(job, events.drop_last()), req, c, events.last());
    }
}

proof fn clicking_takes_a_step(job: JobView, req: Request, c: i32, event: JobEvent)
    requires
        clicking(job, req, c),
    ensures
        clicking(job.told(event), req, c),
{
    match (job, event) {
        (JobView::Listing { sel, errand }, JobEvent::Replied(reply)) => {
            if let Ok(windows) = reply {
                if let Ok(win) = selected(windows@, sel@) {
                    errands_go_on(win, errand, req, c);
                }
            }
        },
        (JobView::Settling { id, errand }, JobEvent::Looked { reply, waited }) => {
            if let Ok(win) = reply {
                errands_go_on(win, errand, req, c);
            }
        },
        (JobView::Framing { aim, x, y, touch, reply }, JobEvent::Framed { x: fx, y: fy }) => {
            if aim.stream.reachable(fx, fy) {
                points_are_clicked_on_the_frame(aim, x, y, touch, c, reply, fx, fy);
            }
        },
        _ => {},
    }
}

proof fn errands_go_on(win: WindowDict, errand: Errand, req: Request, c: i32)
    requires
        errand == (Errand::Click {
            x: req->ClickWindow_x,
            y: req->ClickWindow_y,
            code: c,
            button: req->ClickWindow_button,
            client: req->client,
        }),
    ensures
        clicking(crate::job::after_focus(win, errand), req, c),
{
}

/// Law: whatever the job of a click in a window is told on the way, the steps that
/// it comes to take are a motion, a press and a release: those of the button that
/// the request names.  Until then it holds on to the place that the request gives.
pub proof fn windows_are_clicked_with_the_named_button(
    window: String,
    x: Coord,
    y: Coord,
    name: String,
    client: bool,
    streams: Seq<StreamInfo>,
    events: Seq<JobEvent>,
)
    ensures
        match told_all(
            dispatched(Request::ClickWindow { window, x, y, button: name, client }, streams),
            events,
        ) {
            JobView::Acting { steps, reply } => button(name@) matches Some(c) && steps.len() == 3
                && steps[0] is Motion && steps[1] == Step::Press(Control::Button(c)) && steps[2]
                == Step::Release(Control::Button(c)),
            JobView::Listing { sel, errand } => sel == window,
            JobView::Placing { spot, rect } => spot.x == x && spot.y == y && spot.button == name
                && spot.client == client,
            JobView::Aiming { spot, gx, gy } => spot.x == x && spot.y == y && spot.button == name
                && spot.client == client,
            JobView::Framing { aim, x: _, y: _, touch, reply } => button(name@) matches Some(c)
                && touch == Touch::Code(c),
            JobView::Focusing { id, errand } => true,
            JobView::Settling { id, errand } => true,
            JobView::Over { outcome } => true,
            _ => false,
        },
{
    let req = Request::ClickWindow { window, x, y, button: name, client };
    let job = dispatched(req, streams);
    match button(name@) {
        Some(c) => {
            clicking_goes_on(job, req, c, events);
        },
        None => {
            over_stays_over(job, events);
        },
    }
}

proof fn over_stays_over(job: JobView, events: Seq<JobEvent>)
    requires
        job is Over,
    ensures
        told_all(job, events) == job,
    decreases events.len(),
{
    reveal(told_all);
    if events.len() > 0 {
        over_stays_over(job, events.drop_last());
    }
}

proof fn acting_goes_on(job: JobView, events: Seq<JobEvent>)
    requires
        job is Acting,
    ensures
        told_all(job, events) == job || told_all(job, events) is Over,
    decreases events.len(),
{
    reveal(told_all);
    if events.len() > 0 {
        acting_goes_on(job, events.drop_last());
    }
}

spec fn typing_into(job: JobView, window: String, text: String, delay: Option<u64>) -> bool {
    match job {
        JobView::Listing { sel, errand } => sel == window && errand == Errand::Type { text, delay },
        JobView::Focusing { id, errand } => errand == Errand::Type { text, delay },
        JobView::Settling { id, errand } => errand == Errand::Type { text, delay },
        JobView::Keying { into, text: t, delay: d } => t == text && d == delay,
        JobView::Acting { steps, reply } => steps == typing(text@, delay),
        JobView::Over { outcome } => true,
        _ => false,
    }
}

proof fn typing_into_goes_on(
    job: JobView,
    window: String,
    text: String,
    delay: Option<u64>,
    events: Seq<JobEvent>,
)
    requires
        typing_into(job, window, text, delay),
    ensures
        typing_into(told_all(job, events), window, text, delay),
    decreases events.len(),
{
    reveal(told_all);
    if events.len() > 0 {
        typing_into_goes_on(job, window, text, delay, events.drop_last());
    }
}

/// Law: whatever the job of a text for a window is told on the way, the steps that
/// it comes to take type the whole text of the request, with its delay.
pub proof fn windows_get_the_whole_text(
    window: String,
    text: String,
    delay: Option<u64>,
    streams: Seq<StreamInfo>,
    events: Seq<JobEvent>,
)
    ensures
        match told_all(dispatched(Request::TypeWindow { window, text, delay }, streams), events) {
            JobView::Acting { steps, reply } => steps == typing(text@, delay),
            JobView::Keying { into, text: t, delay: d } => t == text && d == delay,
            JobView::Listing { sel, errand } => sel == window,
            JobView::Focusing { id, errand } => true,
            JobView::Settling { id, errand } => true,
            JobView::Over { outcome } => true,
            _ => false,
        },
{
    let job = dispatched(Request::TypeWindow { window, text, delay }, streams);
    typing_into_goes_on(job, window, text, delay, events);
}

spec fn pointing(job: JobView, req: Request, streams: Seq<StreamInfo>) -> bool {
    let (gx, gy) = match req {
        Request::MoveGlobal { x, y } => (x, y),
        _ => (req->ClickAtGlobal_x, req->ClickAtGlobal_y),
    };
    match job {
        JobView::Framing { aim, x, y, touch, reply } => {
            &&& aimed(streams, gx, gy) == Ok::<Aim, Seq<char>>(aim)
            &&& x == gx
            &&& y == gy
            &&& touch == (match req {
                Request::ClickAtGlobal { x, y, button } => Touch::Named(button),
                _ => Touch::Nothing,
            })
        },
        JobView::Acting { steps, reply } => {
            &&& aimed(streams, gx, gy) is Ok
            &&& steps.len() > 0
            &&& steps[0] is Motion
            &&& steps[0]->node == aimed(streams, gx, gy)->Ok_0.stream.node_id
            &&& match req {
                Request::ClickAtGlobal { x, y, button: name } => button(name@) matches Some(c)
                    && steps.len() == 3 && steps[1] == Step::Press(Control::Button(c)) && steps[2]
                    == Step::Release(Control::Button(c)),
                _ => steps.len() == 1,
            }
        },
        JobView::Over { outcome } => true,
        _ => false,
    }
}

proof fn pointing_goes_on(
    job: JobView,
    req: Request,
    streams: Seq<StreamInfo>,
    events: Seq<JobEvent>,
)
    requires
        req is MoveGlobal || req is ClickAtGlobal,
        pointing(job, req, streams),
    ensures
        pointing(told_all(job, events), req, streams),
    decreases events.len(),
{
    reveal(told_all);
    if events.len() > 0 {
        pointing_goes_on(job, req, streams, events.drop_last());
    }
}

/// Law: whatever the job of a click at a point of the screen is told on the way,
/// the steps that it comes to take are a motion on the first stream that covers
/// the point, and a press and a release of the button that the request names.
pub proof fn global_points_are_clicked_with_the_named_button(
    x: Coord,
    y: Coord,
    name: String,
    streams: Seq<StreamInfo>,
    events: Seq<JobEvent>,
)
    ensures
        match told_all(
            dispatched(Request::ClickAtGlobal { x, y, button: name }, streams),
            events,
        ) {
            JobView::Acting { steps, reply } => {
                &&& steps.len() == 3
                &&& first_covering(streams, x, y) matches Some(i) && steps[0] is Motion
                    && steps[0]->node == streams[i].node_id
                &&& button(name@) matches Some(c) && steps[1] == Step::Press(Control::Button(c))
                    && steps[2] == Step::Release(Control::Button(c))
            },
            JobView::Framing { aim, x: gx, y: gy, touch, reply } => gx == x && gy == y,
            JobView::Over { outcome } => true,
            _ => false,
        },
{
    let req = Request::ClickAtGlobal { x, y, button: name };
    pointing_goes_on(dispatched(req, streams), req, streams, events);
}

/// Law: whatever the job of a move to a point of the screen is told on the way,
/// the one step that it comes to take is a motion on the first stream that covers
/// the point.
pub proof fn global_points_are_moved_to(
    x: Coord,
    y: Coord,
    streams: Seq<StreamInfo>,
    events: Seq<JobEvent>,
)
    ensures
        match told_all(dispatched(Request::MoveGlobal { x, y }, streams), events) {
            JobView::Acting { steps, reply } => {
                &&& steps.len() == 1
                &&& first_covering(streams, x, y) matches Some(i) && steps[0] is Motion
                    && steps[0]->node == streams[i].node_id
            },
            JobView::Framing { aim, x: gx, y: gy, touch, reply } => gx == x && gy == y,
            JobView::Over { outcome } => true,
            _ => false,
        },
{
    let req = Request::MoveGlobal { x, y };
    pointing_goes_on(dispatched(req, streams), req, streams, events);
}

proof fn steps_stay_the_same(job: JobView, events: Seq<JobEvent>)
    requires
        job is Acting || job is Over,
        told_all(job, events) is Acting,
    ensures
        told_all(job, events) == job,
{
    if job is Acting {
        acting_goes_on(job, events);
    } else {
        over_stays_over(job, events);
    }
}

/// Law: whatever the job of a request about a button is told on the way, the steps
/// that it takes press and release the button that the request names, or do the one
/// of the two that was asked for.
pub proof fn buttons_are_pressed_as_asked_for(
    req: Request,
    name: String,
    streams: Seq<StreamInfo>,
    events: Seq<JobEvent>,
)
    requires
        match req {
            Request::Click { button } => button == name,
            Request::ButtonDown { button } => button == name,
            Request::ButtonUp { button } => button == name,
            _ => false,
        },
        told_all(dispatched(req, streams), events) is Acting,
    ensures
        button(name@) is Some,
        ({
            let b = Control::Button(button(name@)->0);
            told_all(dispatched(req, streams), events)->steps == (if req is Click {
                seq![Step::Press(b), Step::Release(b)]
            } else if req is ButtonDown {
                seq![Step::Press(b)]
            } else {
                seq![Step::Release(b)]
            })
        }),
{
    steps_stay_the_same(dispatched(req, streams), events);
    buttons_are_used(req, name, streams);
}

/// Law: whatever the job of a request about a key is told on the way, the steps that
/// it takes press and release the key that the request names, or do the one of the
/// two that was asked for.
pub proof fn keys_are_pressed_as_asked_for(
    req: Request,
    name: String,
    streams: Seq<StreamInfo>,
    events: Seq<JobEvent>,
)
    requires
        match req {
            Request::Key { name: n } => n == name,
            Request::KeyDown { name: n } => n == name,
            Request::KeyUp { name: n } => n == name,
            _ => false,
        },
        told_all(dispatched(req, streams), events) is Acting,
    ensures
        keysym(name@) is Some,
        ({
            let k = Control::Keysym(keysym(name@)->0);
            told_all(dispatched(req, streams), events)->steps == (if req is Key {
                seq![Step::Press(k), Step::Release(k)]
            } else if req is KeyDown {
                seq![Step::Press(k)]
            } else {
                seq![Step::Release(k)]
            })
        }),
{
    steps_stay_the_same(dispatched(req, streams), events);
    keys_are_used(req, name, streams);
}

/// Law: whatever the job of a chord is told on the way, the steps that it takes press
/// the keys that stand between the plus signs, all of them and in order, and then
/// release them in reverse order.
pub proof fn chords_are_pressed_as_asked_for(
    keys: String,
    streams: Seq<StreamInfo>,
    events: Seq<JobEvent>,
)
    requires
        told_all(dispatched(Request::KeyChord { keys }, streams), events) is Acting,
    ensures
        ({
            let steps = told_all(
                dispatched(Request::KeyChord { keys }, streams),
                events,
            )->steps;
            let names = full_pieces(keys@, '+');
            let n = names.len();
            &&& n > 0
            &&& steps.len() == 2 * n
            &&& forall|i: int|
                0 <= i < n ==> (keysym(#[trigger] names[i]) matches Some(k) && steps[i]
                    == Step::Press(Control::Keysym(k)) && steps[2 * n - 1 - i] == Step::Release(
                    Control::Keysym(k),
                ))
        }),
{
    steps_stay_the_same(dispatched(Request::KeyChord { keys }, streams), events);
    chords_are_used(keys, streams);
}

/// Law: whatever the job of a keycode or of a text is told on the way, the steps that
/// it takes press and release that keycode, or type that text with its delay.
pub proof fn codes_and_texts_are_typed_as_asked_for(
    code: i32,
    text: String,
    delay: Option<u64>,
    streams: Seq<StreamInfo>,
    events: Seq<JobEvent>,
)
    ensures
        told_all(dispatched(Request::KeyCode { code }, streams), events) matches JobView::Acting {
            steps,
            reply,
        } ==> steps == seq![
            Step::Press(Control::Keycode(code)),
            Step::Release(Control::Keycode(code)),
        ],
        told_all(
            dispatched(Request::Type { text, delay }, streams),
            events,
        ) matches JobView::Acting { steps, reply } ==> steps == typing(text@, delay),
{
    acting_goes_on(dispatched(Request::KeyCode { code }, streams), events);
    acting_goes_on(dispatched(Request::Type { text, delay }, streams), events);
    assert(dispatched(Request::KeyCode { code }, streams)->steps =~= seq![
        Step::Press(Control::Keycode(code)),
        Step::Release(Control::Keycode(code)),
    ]);
}

/// Law: whatever the job of a pixel of a screenshot is told on the way, the steps that
/// it takes are a motion on that stream, to the coordinates as they were given; and
/// for a click, a press and a release of the button that the request names.
pub proof fn pixels_are_clicked_with_the_named_button(
    x: Coord,
    y: Coord,
    name: String,
    stream: usize,
    streams: Seq<StreamInfo>,
    events: Seq<JobEvent>,
)
    ensures
        ({
            let go = Step::Motion { node: streams[stream as int].node_id, x: x.bits, y: y.bits };
            let moving = told_all(dispatched(Request::Move { x, y, stream }, streams), events);
            let clicking = told_all(
                dispatched(Request::ClickAt { x, y, button: name, stream }, streams),
                events,
            );
            &&& moving is Acting ==> stream < streams.len() && moving->steps == seq![go]
            &&& clicking is Acting ==> {
                &&& stream < streams.len()
                &&& button(name@) is Some
                &&& clicking->steps == seq![
                    go,
                    Step::Press(Control::Button(button(name@)->0)),
                    Step::Release(Control::Button(button(name@)->0)),
                ]
            }
        }),
{
    let moving = dispatched(Request::Move { x, y, stream }, streams);
    let clicking = dispatched(Request::ClickAt { x, y, button: name, stream }, streams);
    pixels_are_used(x, y, name, stream, streams);
    if told_all(moving, events) is Acting {
        steps_stay_the_same(moving, events);
    }
    if told_all(clicking, events) is Acting {
        steps_stay_the_same(clicking, events);
    }
}

proof fn pixels_are_used(
    x: Coord,
    y: Coord,
    name: String,
    stream: usize,
    streams: Seq<StreamInfo>,
)
    ensures
        ({
            let go = Step::Motion { node: streams[stream as int].node_id, x: x.bits, y: y.bits };
            let moving = dispatched(Request::Move { x, y, stream }, streams);
            let clicking = dispatched(Request::ClickAt { x, y, button: name, stream }, streams);
            &&& moving is Acting || moving is Over
            &&& moving is Acting ==> stream < streams.len() && moving->steps == seq![go]
            &&& clicking is Acting || clicking is Over
            &&& clicking is Acting ==> {
                &&& stream < streams.len()
                &&& button(name@) is Some
                &&& clicking->steps == seq![
                    go,
                    Step::Press(Control::Button(button(name@)->0)),
                    Step::Release(Control::Button(button(name@)->0)),
                ]
            }
        }),
{
    let go = Step::Motion { node: streams[stream as int].node_id, x: x.bits, y: y.bits };
    let clicking = dispatched(Request::ClickAt { x, y, button: name, stream }, streams);
    if clicking is Acting {
        let b = Control::Button(button(name@)->0);
        assert(clicking->steps =~= seq![go, Step::Press(b), Step::Release(b)]);
    }
}

/// Law: the job of a request that is not about keys, buttons or the pointer never
/// takes steps, whatever it is told on the way.
pub proof fn other_requests_take_no_steps(
    req: Request,
    streams: Seq<StreamInfo>,
    events: Seq<JobEvent>,
)
    requires
        req is Screenshot || req is Ping || req is Streams || req is StreamAt || req is Windows
            || req is Window || req is FocusWindow || req is Monitors || req is FindWindow
            || req is UiTree || req is UiFind,
    ensures
        !(told_all(dispatched(req, streams), events) is Acting),
{
    stepless_goes_on(dispatched(req, streams), events);
}

proof fn buttons_are_used(req: Request, name: String, streams: Seq<StreamInfo>)
    requires
        dispatched(req, streams) is Acting,
        match req {
            Request::Click { button } => button == name,
            Request::ButtonDown { button } => button == name,
            Request::ButtonUp { button } => button == name,
            _ => false,
        },
    ensures
        button(name@) is Some,
        ({
            let b = Control::Button(button(name@)->0);
            dispatched(req, streams)->steps == (if req is Click {
                seq![Step::Press(b), Step::Release(b)]
            } else if req is ButtonDown {
                seq![Step::Press(b)]
            } else {
                seq![Step::Release(b)]
            })
        }),
{
    let steps = dispatched(req, streams)->steps;
    let b = Control::Button(button(name@)->0);
    if req is Click {
        assert(steps =~= seq![Step::Press(b), Step::Release(b)]);
    } else if req is ButtonDown {
        assert(steps =~= seq![Step::Press(b)]);
    } else {
        assert(steps =~= seq![Step::Release(b)]);
    }
}

proof fn keys_are_used(req: Request, name: String, streams: Seq<StreamInfo>)
    requires
        dispatched(req, streams) is Acting,
        match req {
            Request::Key { name: n } => n == name,
            Request::KeyDown { name: n } => n == name,
            Request::KeyUp { name: n } => n == name,
            _ => false,
        },
    ensures
        keysym(name@) is Some,
        ({
            let k = Control::Keysym(keysym(name@)->0);
            dispatched(req, streams)->steps == (if req is Key {
                seq![Step::Press(k), Step::Release(k)]
            } else if req is KeyDown {
                seq![Step::Press(k)]
            } else {
                seq![Step::Release(k)]
            })
        }),
{
    let steps = dispatched(req, streams)->steps;
    let k = Control::Keysym(keysym(name@)->0);
    if req is Key {
        assert(steps =~= seq![Step::Press(k), Step::Release(k)]);
    } else if req is KeyDown {
        assert(steps =~= seq![Step::Press(k)]);
    } else {
        assert(steps =~= seq![Step::Release(k)]);
    }
}

proof fn chords_are_used(keys: String, streams: Seq<StreamInfo>)
    requires
        dispatched(Request::KeyChord { keys }, streams) is Acting,
    ensures
        ({
            let steps = dispatched(Request::KeyChord { keys }, streams)->steps;
            let names = full_pieces(keys@, '+');
            let n = names.len();
            &&& n > 0
            &&& steps.len() == 2 * n
            &&& forall|i: int|
                0 <= i < n ==> (keysym(#[trigger] names[i]) matches Some(k) && steps[i]
                    == Step::Press(Control::Keysym(k)) && steps[2 * n - 1 - i] == Step::Release(
                    Control::Keysym(k),
                ))
        }),
{
    let steps = dispatched(Request::KeyChord { keys }, streams)->steps;
    let names = full_pieces(keys@, '+');
    names_stand_for_keysyms(names);
    let syms = keysyms(names)->Ok_0;
    assert forall|i: int| 0 <= i < names.len() implies (keysym(#[trigger] names[i]) matches Some(k)
        && steps[i] == Step::Press(Control::Keysym(k)) && steps[2 * names.len() - 1 - i]
        == Step::Release(Control::Keysym(k))) by {
        chords_press_in_order_and_release_in_reverse(syms, i);
    }
    chords_press_in_order_and_release_in_reverse(syms, 0);
}

/// Whether a job that takes no steps goes on without them.
spec fn stepless(job: JobView) -> bool {
    job is Asking || job is Capturing || job is Noting || job is Querying || job is Over
}

proof fn stepless_goes_on(job: JobView, events: Seq<JobEvent>)
    ensures
        stepless(job) ==> stepless(told_all(job, events)),
    decreases events.len(),
{
    reveal(told_all);
    if events.len() > 0 {
        stepless_goes_on(job, events.drop_last());
    }
}

/// Whether a job can be answered without having taken steps.
spec fn answers_without_steps(job: JobView) -> bool {
    job is Asking || job is Capturing || job is Noting || job is Querying
}

proof fn only_steps_end_well(job: JobView, event: JobEvent)
    requires
        !answers_without_steps(job),
        !(job is Over),
        job.told(event) is Over && job.told(event)->outcome is Ok,
    ensures
        job is Acting,
        event is Ran,
{
}

proof fn steps_are_on_the_way(req: Request, streams: Seq<StreamInfo>, events: Seq<JobEvent>)
    requires
        req is Click || req is ButtonDown || req is ButtonUp || req is Key || req is KeyDown
            || req is KeyUp || req is KeyCode || req is Type || req is Move || req is ClickAt
            || req is MoveGlobal || req is ClickAtGlobal || req is ClickWindow || req is TypeWindow,
    ensures
        !answers_without_steps(told_all(dispatched(req, streams), events)),
{
    let job = dispatched(req, streams);
    if job is Over {
        over_stays_over(job, events);
    } else if req is ClickWindow {
        clicking_goes_on(job, req, button(req->ClickWindow_button@)->0, events);
    } else if req is TypeWindow {
        typing_into_goes_on(
            job,
            req->TypeWindow_window,
            req->TypeWindow_text,
            req->TypeWindow_delay,
            events,
        );
    } else if req is MoveGlobal || req is ClickAtGlobal {
        pointing_goes_on(job, req, streams, events);
    } else {
        acting_goes_on(job, events);
    }
}

/// Law: a request that takes steps is answered only once they have been taken: if
/// it is said to have been carried out, then its job had steps to take at some
/// time, and was told then that they were.
pub proof fn answers_follow_the_steps(
    req: Request,
    streams: Seq<StreamInfo>,
    events: Seq<JobEvent>,
)
    requires
        req is Click || req is ButtonDown || req is ButtonUp || req is Key || req is KeyDown
            || req is KeyUp || req is KeyCode || req is Type || req is Move || req is ClickAt
            || req is MoveGlobal || req is ClickAtGlobal || req is ClickWindow || req is TypeWindow,
        told_all(dispatched(req, streams), events) matches JobView::Over { outcome } && outcome is Ok,
    ensures
        exists|k: int|
            0 <= k < events.len() && #[trigger] events[k] is Ran && told_all(
                dispatched(req, streams),
                events.take(k),
            ) is Acting,
    decreases events.len(),
{
    reveal(told_all);
    let job = dispatched(req, streams);
    if events.len() > 0 {
        let last = events.len() - 1;
        let rest = events.drop_last();
        assert(rest =~= events.take(last));
        let before = told_all(job, rest);
        if before is Over {
            answers_follow_the_steps(req, streams, rest);
            let k = choose|k: int|
                0 <= k < rest.len() && #[trigger] rest[k] is Ran && told_all(job, rest.take(k)) is Acting;
            assert(rest.take(k) =~= events.take(k));
            assert(events[k] is Ran);
        } else {
            steps_are_on_the_way(req, streams, rest);
            only_steps_end_well(before, events.last());
            assert(before is Acting);
            assert(events[last] is Ran);
        }
    }
}

/// Law: a request about keys and buttons takes its steps, and says nothing more,
/// just where all that it names exists; else it is refused, with what does not.
pub proof fn named_controls_must_exist(req: Request, streams: Seq<StreamInfo>)
    ensures
        ({
            let job = dispatched(req, streams);
            let acts = job matches JobView::Acting { steps, reply } && reply == (
            ResponseView::Done { detail: None, paths: None });
            match req {
                Request::Click { button: name } | Request::ButtonDown {
                    button: name,
                } | Request::ButtonUp { button: name } => {
                    &&& button(name@) is Some ==> acts
                    &&& button(name@) is None ==> job == (JobView::Over {
                        outcome: Err(
                            "unknown button "@ + quoted(name@)
                                + " (use left/right/middle/back/forward)"@,
                        ),
                    })
                },
                Request::Key { name } | Request::KeyDown { name } | Request::KeyUp { name } => {
                    &&& keysym(name@) is Some ==> acts
                    &&& keysym(name@) is None ==> job == (JobView::Over {
                        outcome: Err("unknown keysym "@ + quoted(name@)),
                    })
                },
                Request::KeyChord { keys } => {
                    let names = full_pieces(keys@, '+');
                    &&& names.len() == 0 ==> job == (JobView::Over {
                        outcome: Ok(ResponseView::Failed { error: "empty chord"@ }),
                    })
                    &&& names.len() > 0 ==> (acts <==> forall|i: int|
                        0 <= i < names.len() ==> keysym(#[trigger] names[i]) is Some)
                    &&& acts || job is Over
                    &&& forall|i: int|
                        0 <= i < names.len() && keysym(#[trigger] names[i]) is None && (forall|
                            j: int,
                        |
                            0 <= j < i ==> keysym(#[trigger] names[j]) is Some) ==> job == (
                        JobView::Over {
                            outcome: Err("unknown keysym in chord: "@ + quoted(names[i])),
                        })
                },
                Request::KeyCode { code } => acts,
                Request::Type { text, delay } => acts,
                _ => true,
            }
        }),
{
    if let Request::KeyChord { keys } = req {
        let names = full_pieces(keys@, '+');
        names_stand_for_keysyms(names);
        if let Err(e) = keysyms(names) {
            let m = choose|i: int|
                0 <= i < names.len() && keysym(#[trigger] names[i]) is None && e
                    == "unknown keysym in chord: "@ + quoted(names[i]) && forall|j: int|
                    0 <= j < i ==> keysym(#[trigger] names[j]) is Some;
            assert forall|i: int|
                0 <= i < names.len() && keysym(#[trigger] names[i]) is None && (forall|j: int|
                    0 <= j < i ==> keysym(#[trigger] names[j]) is Some) implies i == m by {
                if i < m {
                    assert(keysym(names[i]) is Some);
                } else if m < i {
                    assert(keysym(names[m]) is Some);
                }
            }
        }
    }
}

/// Law: a request for a pixel of a screenshot takes its steps just where the
/// stream exists, the pixel lies within its logical size and the button exists;
/// and of these three the first that fails is what is complained of.
pub proof fn pixels_must_exist(req: Request, streams: Seq<StreamInfo>)
    requires
        req is Move || req is ClickAt,
    ensures
        ({
            let job = dispatched(req, streams);
            let (x, y, stream, name) = match req {
                Request::Move { x, y, stream } => (x, y, stream, None),
                _ => (
                    req->ClickAt_x,
                    req->ClickAt_y,
                    req->ClickAt_stream,
                    Some(req->ClickAt_button@),
                ),
            };
            let s = streams[stream as int];
            if stream >= streams.len() {
                job == (JobView::Over {
                    outcome: Err("stream "@ + decimal(stream as int) + " out of range"@),
                })
            } else if (s.size matches Some(size) && !(x.floor matches Some(fx) && y.floor matches Some(fy)
                && 0 <= fx < size.0 && 0 <= fy < size.1)) {
                job == (JobView::Over { outcome: Err(s.unreachable_text(x, y)) })
            } else if name matches Some(n) && button(n) is None {
                job == (JobView::Over {
                    outcome: Err(
                        "unknown button "@ + quoted(name->0)
                            + " (use left/right/middle/back/forward)"@,
                    ),
                })
            } else {
                job matches JobView::Acting { steps, reply } && reply == (ResponseView::Done {
                    detail: None,
                    paths: None,
                })
            }
        }),
{
}

/// Law: a point of the screen is sent to the first stream that covers it, from the
/// place of that stream and by its scale; where none covers it, it is refused.
pub proof fn global_points_are_sent_to_their_stream(
    x: Coord,
    y: Coord,
    name: String,
    streams: Seq<StreamInfo>,
)
    ensures
        ({
            let moving = dispatched(Request::MoveGlobal { x, y }, streams);
            let clicking = dispatched(Request::ClickAtGlobal { x, y, button: name }, streams);
            match first_covering(streams, x, y) {
                None => {
                    &&& moving == (JobView::Over {
                        outcome: Err(
                            "no stream covers global point ("@ + x.text@ + ", "@ + y.text@ + ")"@,
                        ),
                    })
                    &&& clicking == moving
                },
                Some(i) => {
                    &&& moving is Framing && moving->touch is Nothing
                    &&& clicking is Framing && clicking->touch == Touch::Named(name)
                    &&& moving->aim == clicking->aim
                    &&& moving->aim.stream == streams[i]
                    &&& Some(moving->aim.origin) == streams[i].position
                    &&& moving->aim.scale == streams[i].scale()
                    &&& moving->Framing_x == x && moving->Framing_y == y
                    &&& clicking->Framing_x == x && clicking->Framing_y == y
                    &&& moving->Framing_reply == (ResponseView::Done { detail: None, paths: None })
                    &&& clicking->Framing_reply == moving->Framing_reply
                },
            }
        }),
{
    found_stream_is_the_first(streams, x, y);
}

/// Law: a point that was found on the frame of a stream is moved to there if it lies
/// within the logical size; else it is refused, whatever button goes with it.
pub proof fn points_are_moved_to_on_the_frame(
    aim: Aim,
    x: Coord,
    y: Coord,
    touch: Touch,
    reply: ResponseView,
    fx: Coord,
    fy: Coord,
)
    ensures
        ({
            let job = JobView::Framing { aim, x, y, touch, reply };
            let framed = job.told(JobEvent::Framed { x: fx, y: fy });
            &&& !aim.stream.reachable(fx, fy) ==> framed == (JobView::Over {
                outcome: Err(aim.stream.unreachable_text(fx, fy)),
            })
            &&& aim.stream.reachable(fx, fy) && touch is Nothing ==> framed == (JobView::Acting {
                steps: seq![
                    Step::Motion { node: aim.stream.node_id, x: fx.bits, y: fy.bits },
                ],
                reply,
            })
        }),
{
}

/// Law: a point that was found on the frame of a stream, and lies within the logical
/// size, is clicked at there, with the button that goes with it: with the code, or
/// with the name if that is one of a button.
pub proof fn points_are_clicked_on_the_frame(
    aim: Aim,
    x: Coord,
    y: Coord,
    touch: Touch,
    c: i32,
    reply: ResponseView,
    fx: Coord,
    fy: Coord,
)
    requires
        aim.stream.reachable(fx, fy),
        match touch {
            Touch::Nothing => false,
            Touch::Code(code) => code == c,
            Touch::Named(name) => button(name@) == Some(c),
        },
    ensures
        ({
            let job = JobView::Framing { aim, x, y, touch, reply };
            job.told(JobEvent::Framed { x: fx, y: fy }) == (JobView::Acting {
                steps: seq![
                    Step::Motion { node: aim.stream.node_id, x: fx.bits, y: fy.bits },
                    Step::Press(Control::Button(c)),
                    Step::Release(Control::Button(c)),
                ],
                reply,
            })
        }),
{
    let job = JobView::Framing { aim, x, y, touch, reply };
    let framed = job.told(JobEvent::Framed { x: fx, y: fy });
    let go = Step::Motion { node: aim.stream.node_id, x: fx.bits, y: fy.bits };
    let b = Control::Button(c);
    assert(framed is Acting && framed->Acting_reply == reply);
    assert(framed->steps =~= seq![go, Step::Press(b), Step::Release(b)]);
}

/// Law: a point that goes with the name of no button is not moved to.
pub proof fn points_need_a_button_that_exists(
    aim: Aim,
    x: Coord,
    y: Coord,
    name: String,
    reply: ResponseView,
    fx: Coord,
    fy: Coord,
)
    requires
        aim.stream.reachable(fx, fy),
        button(name@) is None,
    ensures
        ({
            let job = JobView::Framing { aim, x, y, touch: Touch::Named(name), reply };
            job.told(JobEvent::Framed { x: fx, y: fy }) == (JobView::Over {
                outcome: Err(
                    "unknown button "@ + quoted(name@) + " (use left/right/middle/back/forward)"@,
                ),
            })
        }),
{
}

/// Law: the window that a click is for is asked for among the windows.  If it has
/// the focus, the place is looked for at once; if not, the window is given the
/// focus first, and looked at again until it has it or two seconds are over.  The
/// place is relative to the four numbers of the frame of the window as it was last
/// seen, or to those of its client area if that was asked for.
pub proof fn clicks_are_relative_to_their_window(
    window: String,
    x: Coord,
    y: Coord,
    name: String,
    client: bool,
    streams: Seq<StreamInfo>,
    windows: Vec<WindowDict>,
    win: WindowDict,
    later: WindowDict,
    done: Vec<WindowDict>,
    waited: u64,
)
    requires
        button(name@) is Some,
        selected(windows@, window@) == Ok::<WindowDict, Seq<char>>(win),
        window_id(win@) is Ok,
        window_id(later@) is Ok,
    ensures
        ({
            let req = Request::ClickWindow { window, x, y, button: name, client };
            let listed = dispatched(req, streams).told(JobEvent::Replied(Ok(windows)));
            let focused = listed.told(JobEvent::Replied(Ok(done)));
            let looked = focused.told(JobEvent::Looked { reply: Ok(later), waited });
            if flag_set(win@, "focused"@) {
                placed_in(listed, win, x, y, name, client)
            } else {
                let id = window_id(win@)->Ok_0.bits();
                &&& listed matches JobView::Focusing { id: i, errand } && i == id
                &&& focused matches JobView::Settling { id: i, errand } && i == id
                &&& if flag_set(later@, "focused"@) || waited >= 2000 {
                    placed_in(looked, later, x, y, name, client)
                } else {
                    looked == focused
                }
            }
        }),
{
}

/// Whether a job looks for a place in a window, relative to its frame or to its
/// client area, or has failed because one of the four numbers of that is not to be
/// had.
pub open spec fn placed_in(
    job: JobView,
    win: WindowDict,
    x: Coord,
    y: Coord,
    name: String,
    client: bool,
) -> bool {
    let rx = int_field(win@, if client { "client_x"@ } else { "frame_x"@ });
    let ry = int_field(win@, if client { "client_y"@ } else { "frame_y"@ });
    let rw = int_field(win@, if client { "client_w"@ } else { "frame_w"@ });
    let rh = int_field(win@, if client { "client_h"@ } else { "frame_h"@ });
    if rx is Ok && ry is Ok && rw is Ok && rh is Ok {
        job matches JobView::Placing { spot, rect } && rect == (
            rx->Ok_0,
            ry->Ok_0,
            rw->Ok_0,
            rh->Ok_0,
        ) && spot.x == x && spot.y == y && spot.button == name && spot.client == client && Some(
            spot.code,
        ) == button(name@) && window_id(win@) == Ok::<crate::window::WindowId, Seq<char>>(spot.id)
    } else {
        job == (JobView::Over {
            outcome: Err(
                if rx is Err {
                    rx->Err_0
                } else if ry is Err {
                    ry->Err_0
                } else if rw is Err {
                    rw->Err_0
                } else {
                    rh->Err_0
                },
            ),
        })
    }
}

/// Law: a place in a window is refused just where it lies left of or above what it is
/// relative to, or beyond its width or its height; what it is relative to is told
/// then.  Else it is looked for on the screen.
#[verifier::spinoff_prover]
pub proof fn places_must_lie_in_their_window(
    spot: Spot,
    rect: (i64, i64, i64, i64),
    w: Coord,
    h: Coord,
    gx: Coord,
    gy: Coord,
)
    ensures
        ({
            let placed = (JobView::Placing { spot, rect }).told(
                JobEvent::Placed { w, h, x: gx, y: gy },
            );
            let left = spot.x.floor is Some && spot.x.floor->0 < 0;
            let above = spot.y.floor is Some && spot.y.floor->0 < 0;
            let right = spot.x.floor is Some && w.floor is Some && spot.x.floor->0 >= w.floor->0;
            let under = spot.y.floor is Some && h.floor is Some && spot.y.floor->0 >= h.floor->0;
            if left || above || right || under {
                placed == (JobView::Over {
                    outcome: Err(
                        "offset ("@ + spot.x.rounded@ + ", "@ + spot.y.rounded@
                            + ") is outside window "@ + decimal(spot.id.number()) + "'s "@ + (
                        if spot.client {
                            "client area"@
                        } else {
                            "frame"@
                        }) + " ("@ + w.rounded@ + "x"@ + h.rounded@
                            + "). click-in coordinates are RELATIVE to the window's origin, not global screen coordinates."@,
                    ),
                })
            } else {
                placed == (JobView::Aiming { spot, gx, gy })
            }
        }),
{
}

/// Law: a place in a window is clicked at on the first stream that covers it, with
/// the button of the click.  The answer tells the button, the place, the window and
/// the point.
#[verifier::spinoff_prover]
pub proof fn places_are_aimed_at(spot: Spot, gx: Coord, gy: Coord, streams: Vec<StreamInfo>)
    ensures
        ({
            let locked = (JobView::Aiming { spot, gx, gy }).told(JobEvent::Locked(streams));
            match first_covering(streams@, gx, gy) {
                None => locked == (JobView::Over {
                    outcome: Err(
                        "no stream covers global point ("@ + gx.text@ + ", "@ + gy.text@ + ")"@,
                    ),
                }),
                Some(i) => {
                    &&& locked is Framing
                    &&& locked->aim.stream == streams@[i]
                    &&& Some(locked->aim.origin) == streams@[i].position
                    &&& locked->aim.scale == streams@[i].scale()
                    &&& locked->Framing_x == gx && locked->Framing_y == gy
                    &&& locked->touch == Touch::Code(spot.code)
                    &&& locked->Framing_reply == (ResponseView::Done {
                        detail: Some(
                            "clicked "@ + spot.button@ + " at ("@ + spot.x.rounded@ + ", "@
                                + spot.y.rounded@ + ") relative to window "@ + decimal(
                                spot.id.number(),
                            ) + "'s "@ + (if spot.client {
                                "client area"@
                            } else {
                                "frame"@
                            }) + " (global "@ + gx.rounded@ + ", "@ + gy.rounded@ + ")"@,
                        ),
                        paths: None,
                    })
                },
            }
        }),
{
    found_stream_is_the_first(streams@, gx, gy);
}

/// Law: a text for a window is typed once the window has the focus, or has had two
/// seconds to take it; and the answer tells how many characters were typed into
/// which window.
pub proof fn texts_are_typed_into_their_window(
    window: String,
    text: String,
    delay: Option<u64>,
    streams: Seq<StreamInfo>,
    windows: Vec<WindowDict>,
    win: WindowDict,
    later: WindowDict,
    done: Vec<WindowDict>,
    waited: u64,
    locked: Vec<StreamInfo>,
)
    requires
        selected(windows@, window@) == Ok::<WindowDict, Seq<char>>(win),
        window_id(win@) is Ok,
        window_id(later@) is Ok,
    ensures
        ({
            let req = Request::TypeWindow { window, text, delay };
            let listed = dispatched(req, streams).told(JobEvent::Replied(Ok(windows)));
            let focused = listed.told(JobEvent::Replied(Ok(done)));
            let looked = focused.told(JobEvent::Looked { reply: Ok(later), waited });
            let (ready, seen) = if flag_set(win@, "focused"@) {
                (listed, win)
            } else {
                (looked, later)
            };
            let id = window_id(win@)->Ok_0.bits();
            &&& !flag_set(win@, "focused"@) ==> {
                &&& listed matches JobView::Focusing { id: i, errand } && i == id
                &&& focused matches JobView::Settling { id: i, errand } && i == id
            }
            &&& if flag_set(seen@, "focused"@) || waited >= 2000 {
                ready.told(JobEvent::Locked(locked)) == (JobView::Acting {
                    steps: typing(text@, delay),
                    reply: ResponseView::Done {
                        detail: Some(
                            "typed "@ + decimal(text@.len() as int) + " character(s) into window "@
                                + decimal(window_id(seen@)->Ok_0.number()),
                        ),
                        paths: None,
                    },
                })
            } else {
                looked == focused
            }
        }),
{
}

/// Law: a window that is not found, a window without an id, a window that cannot be given the
/// focus and a window that is gone end it with what is wrong.
pub proof fn jobs_about_windows_can_fail(
    sel: String,
    errand: Errand,
    id: u64,
    windows: Vec<WindowDict>,
    win: WindowDict,
    why: String,
    waited: u64,
)
    ensures
        ({
            let listing = JobView::Listing { sel, errand };
            let focusing = JobView::Focusing { id, errand };
            let settling = JobView::Settling { id, errand };
            let hint = "Run wayland-agent/gnome-extension/install.sh then log out and back in so gnome-shell picks up the extension."@;
            &&& listing.told(JobEvent::Replied(Err(why))) == (JobView::Over {
                outcome: Err(
                    "GetWindows"@ + " on com.mxshift.WaylandAgent failed: "@ + why@ + "\n"@ + hint,
                ),
            })
            &&& selected(windows@, sel@) matches Err(e) ==> listing.told(
                JobEvent::Replied(Ok(windows)),
            ) == (JobView::Over { outcome: Err(e) })
            &&& selected(windows@, sel@) matches Ok(w) ==> window_id(w@) matches Err(e)
                ==> listing.told(JobEvent::Replied(Ok(windows))) == (JobView::Over {
                outcome: Err(e),
            })
            &&& focusing.told(JobEvent::Replied(Err(why))) == (JobView::Over {
                outcome: Err(
                    "FocusWindow"@ + " on com.mxshift.WaylandAgent failed: "@ + why@ + "\n"@
                        + hint,
                ),
            })
            &&& settling.told(JobEvent::Looked { reply: Err(why), waited }) == (JobView::Over {
                outcome: Err(
                    "GetWindow on com.mxshift.WaylandAgent failed after focus: "@ + why@,
                ),
            })
            &&& window_id(win@) matches Err(e) ==> (flag_set(win@, "focused"@) || waited >= 2000)
                ==> settling.told(JobEvent::Looked { reply: Ok(win), waited }) == (JobView::Over {
                outcome: Err(e),
            })
        }),
{
}

spec fn capturing(job: JobView, out: Seq<char>, streams: Seq<StreamInfo>) -> bool {
    match job {
        JobView::Capturing { outs, nodes } => outs == frame_paths(out, streams.len()) && nodes
            == crate::stream::nodes(streams),
        JobView::Noting { outs, dims } => outs == frame_paths(out, streams.len()),
        JobView::Over { outcome } => outcome matches Ok(r) ==> r == (ResponseView::Done {
            detail: None,
            paths: Some(frame_paths(out, streams.len())),
        }),
        _ => false,
    }
}

proof fn capturing_goes_on(
    job: JobView,
    out: Seq<char>,
    streams: Seq<StreamInfo>,
    events: Seq<JobEvent>,
)
    requires
        capturing(job, out, streams),
    ensures
        capturing(told_all(job, events), out, streams),
    decreases events.len(),
{
    reveal(told_all);
    if events.len() > 0 {
        capturing_goes_on(job, out, streams, events.drop_last());
    }
}

/// Law: a screenshot captures one frame of each stream, in the order of the
/// streams; and whatever its job is told on the way, it is carried out only with
/// an answer that tells the path of each frame: the one that was asked for if there
/// is one stream, and else that path with its file renamed.
pub proof fn screenshots_tell_their_paths(
    out: String,
    streams: Seq<StreamInfo>,
    events: Seq<JobEvent>,
    i: int,
)
    requires
        0 <= i < streams.len(),
    ensures
        dispatched(Request::Screenshot { out }, streams) is Capturing,
        match told_all(dispatched(Request::Screenshot { out }, streams), events) {
            JobView::Capturing { outs, nodes } => nodes.len() == streams.len() && nodes[i]
                == streams[i].node_id && outs.len() == streams.len(),
            JobView::Noting { outs, dims } => outs.len() == streams.len(),
            JobView::Over { outcome } => outcome matches Ok(r) ==> r matches ResponseView::Done {
                detail,
                paths: Some(p),
            } && detail is None && p.len() == streams.len() && (streams.len() == 1 ==> p[0] == out@)
                && (streams.len() > 1 ==> p[i] == frame_paths(out@, streams.len())[i]),
            _ => false,
        },
        forall|job: JobView, dims: Vec<(u32, u32)>|
            job is Capturing ==> (#[trigger] job.told(JobEvent::Captured(dims)) matches JobView::Noting {
                outs,
                dims: d,
            } && d == dims@),
{
    let job = dispatched(Request::Screenshot { out }, streams);
    capturing_goes_on(job, out@, streams, events);
}

/// Law: a request that the extension answers is handed to it as it stands, and a
/// request about the elements of a window looks for that window.
pub proof fn requests_are_handed_on(req: Request, streams: Seq<StreamInfo>)
    ensures
        ({
            let job = dispatched(req, streams);
            match req {
                Request::Windows => job matches JobView::Asking { req: r } && r.needs()
                    == ExtCall::GetWindows,
                Request::Window { id } => job matches JobView::Asking { req: r } && r.needs()
                    == ExtCall::GetWindow(id),
                Request::FocusWindow { id } => job matches JobView::Asking { req: r } && r.needs()
                    == ExtCall::FocusWindow(id),
                Request::Monitors => job matches JobView::Asking { req: r } && r.needs()
                    == ExtCall::GetMonitors,
                Request::FindWindow { pattern, all } => {
                    &&& job == (JobView::Asking { req: ExtRequest::FindWindow { pattern, all } })
                    &&& job->req.needs() == ExtCall::GetWindows
                },
                Request::UiTree { window, depth, all } => job == (JobView::Querying {
                    query: QueryView::Listing { sel: window, goal: UiGoal::Tree { depth, all } },
                }),
                Request::UiFind { window, pattern, role } => job == (JobView::Querying {
                    query: QueryView::Listing { sel: window, goal: UiGoal::Find { pattern, role } },
                }),
                Request::Ping => job == (JobView::Over {
                    outcome: Ok(ResponseView::Done { detail: Some("pong"@), paths: None }),
                }),
                Request::StreamAt { x, y } => job == (JobView::Over {
                    outcome: match first_covering(streams, x, y) {
                        Some(i) => Ok(
                            ResponseView::Done { detail: Some(decimal(i)), paths: None },
                        ),
                        None => Err(
                            "no stream covers point ("@ + x.text@ + ", "@ + y.text@ + ")"@,
                        ),
                    },
                }),
                Request::Streams => job == (JobView::Over {
                    outcome: Ok(
                        ResponseView::Done {
                            detail: Some(crate::stream::stream_list(streams)),
                            paths: None,
                        },
                    ),
                }),
                _ => true,
            }
        }),
{
}

/// Law: a job needs the lock of the session just while the pointer and the keys are
/// used; and it can be told anything that its query can.
pub proof fn the_lock_is_needed_for_input(job: JobView, event: JobEvent)
    ensures
        job.needs_lock() <==> job is Framing || job is Acting,
        !(job is Querying && event is Told) ==> job.admits(event),
        job matches JobView::Querying { query } ==> event matches JobEvent::Told(told) ==> (
        job.admits(event) <==> query.admits(told)),
{
}

/// Law: the job of a query goes as the query goes, and ends with what comes of it.
pub proof fn queries_are_carried_out(query: QueryView, told: crate::query::UiEvent)
    requires
        !(query is Over),
    ensures
        ({
            let next = JobView::Querying { query }.told(JobEvent::Told(told));
            match query.told(told) {
                QueryView::Over { outcome } => next == (JobView::Over { outcome }),
                q => next == (JobView::Querying { query: q }),
            }
        }),
{
}

/// Law: a job ends with its answer when its steps have been taken or the sizes of its
/// frames noted, and with what comes of its request when the extension has replied.
pub proof fn jobs_end_with_their_answers(
    steps: Seq<Step>,
    reply: ResponseView,
    outs: Seq<Seq<char>>,
    dims: Seq<(u32, u32)>,
    req: ExtRequest,
    replied: Result<Vec<WindowDict>, String>,
)
    ensures
        ({
            let acting = JobView::Acting { steps, reply };
            let noting = JobView::Noting { outs, dims };
            let asking = JobView::Asking { req };
            &&& acting.told(JobEvent::Ran) == (JobView::Over { outcome: Ok(reply) })
            &&& noting.told(JobEvent::Noted) == (JobView::Over {
                outcome: Ok(ResponseView::Done { detail: None, paths: Some(outs) }),
            })
            &&& asking.told(JobEvent::Replied(replied)) == (JobView::Over {
                outcome: crate::extension::ext_outcome(req, replied),
            })
        }),
{
}

/// Law: what a job does not wait for leaves it as it is.
pub proof fn jobs_pass_over_what_they_do_not_wait_for(job: JobView, event: JobEvent)
    requires
        !(event is Failed),
        !((job is Asking || job is Listing || job is Focusing) && event is Replied),
        !(job is Settling && event is Looked),
        !(job is Placing && event is Placed),
        !((job is Aiming || job is Keying) && event is Locked),
        !(job is Framing && event is Framed),
        !(job is Acting && event is Ran),
        !(job is Capturing && event is Captured),
        !(job is Noting && event is Noted),
        !(job is Querying && event is Told),
    ensures
        job.told(event) == job,
{
}

/// Law: a job is seen with its steps, its paths, its nodes and its answer as they are.
pub proof fn jobs_are_seen_as_they_are(job: Job)
    ensures
        job matches Job::Acting { steps, reply } ==> job@ == (JobView::Acting {
            steps: steps@,
            reply: reply@,
        }),
        job matches Job::Framing { aim, x, y, touch, reply } ==> job@ == (JobView::Framing {
            aim,
            x,
            y,
            touch,
            reply: reply@,
        }),
        job matches Job::Capturing { outs, nodes } ==> job@ == (JobView::Capturing {
            outs: crate::text::texts(outs@),
            nodes: nodes@,
        }),
        job matches Job::Noting { outs, dims } ==> job@ == (JobView::Noting {
            outs: crate::text::texts(outs@),
            dims: dims@,
        }),
        job matches Job::Listing { sel, errand } ==> job@ == (JobView::Listing { sel, errand }),
        job matches Job::Focusing { id, errand } ==> job@ == (JobView::Focusing { id, errand }),
        job matches Job::Settling { id, errand } ==> job@ == (JobView::Settling { id, errand }),
        job matches Job::Placing { spot, rect } ==> job@ == (JobView::Placing { spot, rect }),
        job matches Job::Aiming { spot, gx, gy } ==> job@ == (JobView::Aiming { spot, gx, gy }),
        job matches Job::Keying { into, text, delay } ==> job@ == (JobView::Keying {
            into,
            text,
            delay,
        }),
        job matches Job::Asking { req } ==> job@ == (JobView::Asking { req }),
        job matches Job::Over { outcome: Ok(r) } ==> job@ == (JobView::Over { outcome: Ok(r@) }),
        job matches Job::Over { outcome: Err(e) } ==> job@ == (JobView::Over { outcome: Err(e@) }),
{
}

/// Law: the pointer and the keys are used to find a point on a frame and to take
/// steps; all else but to calculate a place, and to be over, has to be waited for.
pub proof fn asks_use_the_portal_or_wait(ask: JobAsk<'_>)
    ensures
        ask.uses_portal() <==> ask is Frame || ask is Run,
        ask.waits() <==> !(ask is Frame || ask is Run || ask is Place || ask is Nothing),
{
}

/// Law: texts are all different just where no two of them in different places are the
/// same.
pub proof fn equal_texts_are_not_all_different(v: Seq<Seq<char>>)
    ensures
        !crate::job::all_different(v) <==> exists|i: int, j: int|
            0 <= i < j < v.len() && #[trigger] v[i] == #[trigger] v[j],
{
}

/// Law: a job asks for what it needs next: for the windows, for the focus of the window
/// that was found, for that window again fifty milliseconds later, for the place on the
/// rectangle that was found, for the point on the stream that was found, and for its
/// own steps, nodes, paths and sizes.
pub proof fn jobs_ask_for_what_comes_next(job: Job, ask: JobAsk<'_>)
    requires
        job.asks(ask),
    ensures
        match job {
            Job::Asking { req } => ask matches JobAsk::Extension(call) && call == req.needs(),
            Job::Listing { sel, errand } => ask matches JobAsk::Extension(call) && call
                == ExtCall::GetWindows,
            Job::Focusing { id, errand } => ask matches JobAsk::Extension(call) && call
                == ExtCall::FocusWindow(id),
            Job::Settling { id, errand } => ask matches JobAsk::Later(ms, call) && ms == 50 && call
                == ExtCall::GetWindow(id),
            Job::Placing { spot, rect } => ask matches JobAsk::Place(r, x, y) && r == rect && *x
                == spot.x && *y == spot.y,
            Job::Framing { aim, x, y, touch, reply } => ask matches JobAsk::Frame(a, gx, gy) && a
                == aim && *gx == x && *gy == y,
            Job::Acting { steps, reply } => ask matches JobAsk::Run(s) && *s == steps,
            Job::Capturing { outs, nodes } => ask matches JobAsk::Capture(n, o) && *n == nodes && *o
                == outs,
            Job::Noting { outs, dims } => ask matches JobAsk::Note(d) && *d == dims,
            Job::Querying { query } => ask matches JobAsk::Query(a) && query@.asks(a),
            Job::Over { outcome } => ask is Nothing,
            _ => ask is Lock,
        },
{
}

} // verus!
