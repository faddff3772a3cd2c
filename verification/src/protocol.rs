//! What clients ask and what they are told.

use vstd::prelude::*;
use vstd::string::*;

use crate::coord::Coord;
use crate::text::{texts, trim, trimmed};

verus! {

/// A request of a client.
#[derive(Debug)]
pub enum Request {
    /// Press and release a key by its name.
    Key { name: String },
    /// Press a chord of keys separated by `+`: pressed from left to right and
    /// released in reverse order.
    KeyChord { keys: String },
    /// Press and release a Linux evdev keycode.
    KeyCode { code: i32 },
    /// Press a key and hold it.
    KeyDown { name: String },
    /// Release a key that is held.
    KeyUp { name: String },
    /// Type a text, with a delay in milliseconds after each character.
    Type { text: String, delay: Option<u64> },
    /// Move the pointer to a pixel of a screenshot of a stream.
    Move { x: Coord, y: Coord, stream: usize },
    /// Press and release a pointer button where the pointer is.
    Click { button: String },
    /// Press a pointer button and hold it.
    ButtonDown { button: String },
    /// Release a pointer button that is held.
    ButtonUp { button: String },
    /// Move the pointer to a pixel of a screenshot of a stream, and click.
    ClickAt { x: Coord, y: Coord, button: String, stream: usize },
    /// Move the pointer to a logical point of the screen.
    MoveGlobal { x: Coord, y: Coord },
    /// Move the pointer to a logical point of the screen, and click.
    ClickAtGlobal { x: Coord, y: Coord, button: String },
    /// Capture one frame per stream.
    Screenshot { out: String },
    /// Ask whether the daemon is alive.
    Ping,
    /// List the streams.
    Streams,
    /// Ask which stream covers a point of the screen.
    StreamAt { x: Coord, y: Coord },
    /// List the windows.
    Windows,
    /// Show one window.
    Window { id: u64 },
    /// Focus a window.
    FocusWindow { id: u64 },
    /// List the monitors.
    Monitors,
    /// Find the window that matches a pattern, or all of them.
    FindWindow { pattern: String, all: bool },
    /// Focus a window and click at a place relative to its frame or to its
    /// client area.
    ClickWindow { window: String, x: Coord, y: Coord, button: String, client: bool },
    /// Focus a window and type a text into it.
    TypeWindow { window: String, text: String, delay: Option<u64> },
    /// Show the elements of a window.
    UiTree { window: String, depth: Option<u32>, all: bool },
    /// Find elements of a window by name and role.
    UiFind { window: String, pattern: String, role: Option<String> },
}

/// The answer to a request.
#[derive(Debug)]
pub enum Response {
    /// The request was carried out.
    Done { detail: Option<String>, paths: Option<Vec<String>> },
    /// The request was not carried out.
    Failed { error: String },
}

/// An answer as a value.
pub enum ResponseView {
    Done { detail: Option<Seq<char>>, paths: Option<Seq<Seq<char>>> },
    Failed { error: Seq<char> },
}

impl View for Response {
    type V = ResponseView;

    open spec fn view(&self) -> ResponseView {
        match self {
            Response::Done { detail, paths } => ResponseView::Done {
                detail: match detail {
                    Some(d) => Some(d@),
                    None => None,
                },
                paths: match paths {
                    Some(p) => Some(texts(p@)),
                    None => None,
                },
            },
            Response::Failed { error } => ResponseView::Failed { error: error@ },
        }
    }
}

/// The answer that says nothing more.
pub open spec fn plain() -> ResponseView {
    ResponseView::Done { detail: None, paths: None }
}

/// The answer that tells something.
pub open spec fn detailed(detail: Seq<char>) -> ResponseView {
    ResponseView::Done { detail: Some(detail), paths: None }
}

/// The answer that tells of files.
pub open spec fn filed(paths: Seq<Seq<char>>) -> ResponseView {
    ResponseView::Done { detail: None, paths: Some(paths) }
}

/// The answer that tells of an error.
pub open spec fn refused(error: Seq<char>) -> ResponseView {
    ResponseView::Failed { error }
}

impl Response {
    /// The answer that says nothing more.
    pub fn ok() -> (r: Response)
        ensures
            r == (Response::Done { detail: None, paths: None }),
            r@ == plain(),
    {
        Response::Done { detail: None, paths: None }
    }

    /// The answer that tells of files.
    pub fn ok_paths(paths: Vec<String>) -> (r: Response)
        ensures
            r == (Response::Done { detail: None, paths: Some(paths) }),
            r@ == filed(texts(paths@)),
    {
        Response::Done { detail: None, paths: Some(paths) }
    }

    /// The answer that tells something.
    pub fn ok_detail(detail: String) -> (r: Response)
        ensures
            r == (Response::Done { detail: Some(detail), paths: None }),
            r@ == detailed(detail@),
    {
        Response::Done { detail: Some(detail), paths: None }
    }

    /// The answer that tells of an error.
    pub fn err(error: String) -> (r: Response)
        ensures
            r == (Response::Failed { error }),
            r@ == refused(error@),
    {
        Response::Failed { error }
    }
}

/// The answer that the outcome of a request is.
pub open spec fn answered(outcome: Result<Response, String>) -> ResponseView {
    match outcome {
        Ok(resp) => resp@,
        Err(e) => refused(e@),
    }
}

/// Makes an answer of the outcome of a request: its failure becomes an error.
pub fn answer(outcome: Result<Response, String>) -> (r: Response)
    ensures
        r@ == answered(outcome),
        match outcome {
            Ok(resp) => r == resp,
            Err(e) => r == (Response::Failed { error: e }),
        },
{
    match outcome {
        Ok(resp) => resp,
        Err(e) => Response::err(e),
    }
}

/// The answer to a line that is no request.
pub open spec fn complaint(why: Seq<char>) -> ResponseView {
    refused("bad request: "@ + why)
}

/// Makes the answer to a line that is no request.
pub fn bad_request(why: &str) -> (r: Response)
    ensures
        r@ == complaint(why@),
        r@ == refused("bad request: "@ + why@),
{
    let mut e: String = "bad request: ".to_owned();
    e.append(why);
    Response::err(e)
}

/// The message of a line, if something was read at all: the line without the
/// white space around it.
pub open spec fn message(line: Seq<char>) -> Option<Seq<char>> {
    if line.len() == 0 {
        None
    } else {
        Some(trimmed(line))
    }
}

/// Finds the message of a line.
pub fn message_of(line: &str) -> (r: Option<String>)
    ensures
        match r {
            Some(m) => message(line@) == Some(m@),
            None => message(line@) is None,
        },
{
    if line.is_empty() {
        None
    } else {
        Some(trim(line))
    }
}

/// A message with its line end.
pub open spec fn framed(message: Seq<u8>) -> Seq<u8> {
    message.push(10u8)
}

/// Frames a message: one message per line.
pub fn frame_message(message: Vec<u8>) -> (r: Vec<u8>)
    ensures
        r@ == framed(message@),
        r@ == message@.push(10u8),
{
    let mut r: Vec<u8> = message;
    r.push(10u8);
    r
}

/// The lines that a client prints of an answer.
pub open spec fn report_lines(detail: Option<Seq<char>>, paths: Option<Seq<Seq<char>>>) -> Seq<
    Seq<char>,
> {
    (match detail {
        Some(d) => seq![d],
        None => Seq::empty(),
    }) + (match paths {
        Some(p) => p.map_values(|path: Seq<char>| "wrote "@ + path),
        None => Seq::empty(),
    })
}

/// What a client prints of an answer, or the error that it ends with.
pub fn report(resp: Response) -> (r: Result<Vec<String>, String>)
    ensures
        match (resp@, r) {
            (ResponseView::Done { detail, paths }, Ok(lines)) => texts(lines@) == report_lines(
                detail,
                paths,
            ),
            (ResponseView::Failed { error }, Err(e)) => e@ == error,
            _ => false,
        },
{
    match resp {
        Response::Done { detail, paths } => {
            let mut lines: Vec<String> = Vec::new();
            let ghost told = resp@->detail;
            let ghost files = resp@->paths;
            let ghost head: Seq<Seq<char>> = match told {
                Some(d) => seq![d],
                None => Seq::empty(),
            };
            if let Some(d) = detail {
                lines.push(d);
            }
            assert(texts(lines@) =~= head);
            if let Some(ps) = paths {
                let ghost wrote = texts(ps@).map_values(|path: Seq<char>| "wrote "@ + path);
                for i in 0..ps.len()
                    invariant
                        wrote == texts(ps@).map_values(|path: Seq<char>| "wrote "@ + path),
                        texts(lines@) == head + wrote.take(i as int),
                {
                    let mut line: String = "wrote ".to_owned();
                    line.append(ps[i].as_str());
                    assert(line@ == wrote[i as int]);
                    let ghost before = texts(lines@);
                    lines.push(line);
                    assert(texts(lines@) =~= before.push(line@));
                    assert(head + wrote.take(i + 1) =~= before.push(line@));
                }
                assert(wrote.take(ps@.len() as int) =~= wrote);
            } else {
                assert(head + Seq::<Seq<char>>::empty() =~= head);
            }
            Ok(lines)
        },
        Response::Failed { error } => Err(error),
    }
}

/// Law: a client prints first what it is told, if that is anything, and then a line
/// for each file, in order, with its path.
pub proof fn answers_are_reported_in_order(
    detail: Option<Seq<char>>,
    paths: Option<Seq<Seq<char>>>,
    i: int,
)
    ensures
        ({
            let lines = report_lines(detail, paths);
            let told: int = if detail is Some {
                1
            } else {
                0
            };
            let files: int = if paths is Some {
                paths->0.len() as int
            } else {
                0
            };
            &&& lines.len() == told + files
            &&& detail is Some ==> lines[0] == detail->0
            &&& 0 <= i < files ==> lines[told + i] == "wrote "@ + (paths->0)[i]
        }),
{
}

/// Law: a line has a message unless nothing at all was read; the message is the line
/// without the white space around it.
pub proof fn lines_hold_messages(line: Seq<char>)
    ensures
        message(line) is None <==> line.len() == 0,
        message(line) matches Some(m) ==> {
            &&& exists|a: Seq<char>, b: Seq<char>|
                crate::text::is_blank(a) && crate::text::is_blank(b) && line == #[trigger] (a + m
                    + b)
            &&& m.len() > 0 ==> !crate::text::white_space(m[0]) && !crate::text::white_space(
                m.last(),
            )
        },
{
    crate::text::only_white_space_is_trimmed(line);
    let m = trimmed(line);
    let (a, b) = choose|a: Seq<char>, b: Seq<char>|
        crate::text::is_blank(a) && crate::text::is_blank(b) && line == #[trigger] (a + m + b);
    assert(line == a + m + b);
}

/// Law: the four kinds of answers differ, and each tells what it was made with.
pub proof fn answers_tell_what_they_hold(text: Seq<char>, files: Seq<Seq<char>>)
    ensures
        plain() == (ResponseView::Done { detail: None, paths: None }),
        detailed(text) == (ResponseView::Done { detail: Some(text), paths: None }),
        filed(files) == (ResponseView::Done { detail: None, paths: Some(files) }),
        refused(text) == (ResponseView::Failed { error: text }),
{
}

/// Law: an answer is carried on as it is, and a failure is answered with what it
/// tells; so is a line that is no request.
pub proof fn failures_are_answered(resp: Response, e: String, why: Seq<char>)
    ensures
        answered(Ok(resp)) == resp@,
        answered(Err(e)) == (ResponseView::Failed { error: e@ }),
        complaint(why) == (ResponseView::Failed { error: "bad request: "@ + why }),
{
}

/// Law: a message is framed by one line feed behind it, and nothing else of it
/// changes.
pub proof fn messages_end_with_a_line_feed(message: Seq<u8>)
    ensures
        framed(message).len() == message.len() + 1,
        framed(message).drop_last() == message,
        framed(message).last() == '\n' as u8,
{
    assert(framed(message).drop_last() =~= message);
}

} // verus!
