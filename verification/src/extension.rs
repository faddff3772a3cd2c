//! The shell extension: what it is asked and what is made of its replies.

use vstd::prelude::*;
use vstd::string::*;

use crate::dict::WindowDict;
use crate::protocol::{detailed, plain, Response, ResponseView};
use crate::window::{dicts_text, find_window, fmt_dicts, search_outcome};

verus! {

/// A call of the extension.
#[derive(Clone, Copy, Debug, PartialEq, Eq, Structural)]
pub enum ExtCall {
    GetWindows,
    GetWindow(u64),
    FocusWindow(u64),
    GetMonitors,
}

impl ExtCall {
    /// The name of the method that is called.
    pub open spec fn name(self) -> Seq<char> {
        match self {
            ExtCall::GetWindows => "GetWindows"@,
            ExtCall::GetWindow(_) => "GetWindow"@,
            ExtCall::FocusWindow(_) => "FocusWindow"@,
            ExtCall::GetMonitors => "GetMonitors"@,
        }
    }

    /// The name of the method that is called.
    pub fn method(&self) -> (r: &'static str)
        ensures
            r@ == self.name(),
    {
        match self {
            ExtCall::GetWindows => "GetWindows",
            ExtCall::GetWindow(_) => "GetWindow",
            ExtCall::FocusWindow(_) => "FocusWindow",
            ExtCall::GetMonitors => "GetMonitors",
        }
    }
}

/// How to get the extension running.
pub open spec fn install_hint() -> Seq<char> {
    "Run wayland-agent/gnome-extension/install.sh then log out and back in so gnome-shell picks up the extension."@
}

/// What is said of a call that failed.
pub open spec fn call_failed(call: ExtCall, why: Seq<char>) -> Seq<char> {
    call.name() + " on com.mxshift.WaylandAgent failed: "@ + why + "\n"@ + install_hint()
}

/// Says that a call failed.
pub fn tell_call_failed(call: ExtCall, why: &str) -> (r: String)
    ensures
        r@ == call_failed(call, why@),
{
    let mut r: String = call.method().to_owned();
    r.append(" on com.mxshift.WaylandAgent failed: ");
    r.append(why);
    r.append("\n");
    r.append(
        "Run wayland-agent/gnome-extension/install.sh then log out and back in so gnome-shell picks up the extension.",
    );
    r
}

/// What is said where there is no connection to the extension.
pub open spec fn not_connected() -> Seq<char> {
    "connect to com.mxshift.WaylandAgent — extension not installed or not enabled.\n"@
        + install_hint()
}

/// Says that there is no connection to the extension.
pub fn tell_not_connected() -> (r: String)
    ensures
        r@ == not_connected(),
        r@ == "connect to com.mxshift.WaylandAgent — extension not installed or not enabled.\n"@
            + install_hint(),
{
    let mut r: String =
        "connect to com.mxshift.WaylandAgent — extension not installed or not enabled.\n".to_owned();
    r.append(
        "Run wayland-agent/gnome-extension/install.sh then log out and back in so gnome-shell picks up the extension.",
    );
    r
}

/// A request that one call of the extension answers.
#[derive(Debug)]
pub enum ExtRequest {
    Windows,
    Window { id: u64 },
    FocusWindow { id: u64 },
    Monitors,
    FindWindow { pattern: String, all: bool },
}

impl ExtRequest {
    /// The call that answers a request.
    pub open spec fn needs(self) -> ExtCall {
        match self {
            ExtRequest::Windows => ExtCall::GetWindows,
            ExtRequest::Window { id } => ExtCall::GetWindow(id),
            ExtRequest::FocusWindow { id } => ExtCall::FocusWindow(id),
            ExtRequest::Monitors => ExtCall::GetMonitors,
            ExtRequest::FindWindow { pattern, all } => ExtCall::GetWindows,
        }
    }

    /// The call that answers a request.
    pub fn call(&self) -> (r: ExtCall)
        ensures
            r == self.needs(),
    {
        match self {
            ExtRequest::Windows => ExtCall::GetWindows,
            ExtRequest::Window { id } => ExtCall::GetWindow(*id),
            ExtRequest::FocusWindow { id } => ExtCall::FocusWindow(*id),
            ExtRequest::Monitors => ExtCall::GetMonitors,
            ExtRequest::FindWindow { pattern, all } => ExtCall::GetWindows,
        }
    }

    /// What comes of a request, given the dictionaries that the call replied
    /// with.
    pub open spec fn outcome(self, dicts: Seq<WindowDict>) -> Result<ResponseView, Seq<char>> {
        match self {
            ExtRequest::Windows => Ok(detailed(dicts_text("window"@, dicts))),
            ExtRequest::Window { id } => Ok(detailed(dicts_text("window"@, dicts))),
            ExtRequest::FocusWindow { id } => Ok(plain()),
            ExtRequest::Monitors => Ok(detailed(dicts_text("monitor"@, dicts))),
            ExtRequest::FindWindow { pattern, all } => search_outcome(dicts, pattern@, all),
        }
    }
}

/// What comes of a request, given the reply of the call or its failure.
pub open spec fn ext_outcome(req: ExtRequest, reply: Result<Vec<WindowDict>, String>) -> Result<
    ResponseView,
    Seq<char>,
> {
    match reply {
        Ok(dicts) => req.outcome(dicts@),
        Err(why) => Err(call_failed(req.needs(), why@)),
    }
}

/// Answers a request from the reply of the extension.
pub fn dispatch_extension(req: ExtRequest, reply: Result<Vec<WindowDict>, String>) -> (r: Result<
    Response,
    String,
>)
    ensures
        match r {
            Ok(resp) => ext_outcome(req, reply) == Ok::<ResponseView, Seq<char>>(resp@),
            Err(e) => ext_outcome(req, reply) == Err::<ResponseView, Seq<char>>(e@),
        },
{
    match reply {
        Err(why) => Err(tell_call_failed(req.call(), why.as_str())),
        Ok(dicts) => match req {
            ExtRequest::Windows => Ok(Response::ok_detail(fmt_dicts("window", &dicts))),
            ExtRequest::Window { id } => Ok(Response::ok_detail(fmt_dicts("window", &dicts))),
            ExtRequest::FocusWindow { id } => Ok(Response::ok()),
            ExtRequest::Monitors => Ok(Response::ok_detail(fmt_dicts("monitor", &dicts))),
            ExtRequest::FindWindow { pattern, all } => find_window(dicts, pattern.as_str(), all),
        },
    }
}

/// Law: a request about one window asks for that window, and the others ask for all
/// windows or all monitors; the calls go by their own names.
pub proof fn requests_need_their_calls(id: u64, pattern: String, all: bool)
    ensures
        (ExtRequest::Windows).needs() == ExtCall::GetWindows,
        (ExtRequest::Window { id }).needs() == ExtCall::GetWindow(id),
        (ExtRequest::FocusWindow { id }).needs() == ExtCall::FocusWindow(id),
        (ExtRequest::Monitors).needs() == ExtCall::GetMonitors,
        (ExtRequest::FindWindow { pattern, all }).needs() == ExtCall::GetWindows,
        ExtCall::GetWindows.name() == "GetWindows"@,
        ExtCall::GetWindow(id).name() == "GetWindow"@,
        ExtCall::FocusWindow(id).name() == "FocusWindow"@,
        ExtCall::GetMonitors.name() == "GetMonitors"@,
{
}

/// Law: what the extension replies is shown as windows or as monitors, whichever was
/// asked for, and a window that was given the focus is not shown; a call that failed
/// is told with its name, with why it failed and with how to get the extension.
pub proof fn replies_are_shown(
    id: u64,
    pattern: String,
    all: bool,
    dicts: Vec<WindowDict>,
    req: ExtRequest,
    why: String,
)
    ensures
        ext_outcome(ExtRequest::Windows, Ok(dicts)) == Ok::<ResponseView, Seq<char>>(
            ResponseView::Done { detail: Some(dicts_text("window"@, dicts@)), paths: None },
        ),
        ext_outcome(ExtRequest::Window { id }, Ok(dicts)) == Ok::<ResponseView, Seq<char>>(
            ResponseView::Done { detail: Some(dicts_text("window"@, dicts@)), paths: None },
        ),
        ext_outcome(ExtRequest::Monitors, Ok(dicts)) == Ok::<ResponseView, Seq<char>>(
            ResponseView::Done { detail: Some(dicts_text("monitor"@, dicts@)), paths: None },
        ),
        ext_outcome(ExtRequest::FocusWindow { id }, Ok(dicts)) == Ok::<ResponseView, Seq<char>>(
            ResponseView::Done { detail: None, paths: None },
        ),
        ext_outcome(ExtRequest::FindWindow { pattern, all }, Ok(dicts)) == search_outcome(
            dicts@,
            pattern@,
            all,
        ),
        ext_outcome(req, Err(why)) == Err::<ResponseView, Seq<char>>(
            req.needs().name() + " on com.mxshift.WaylandAgent failed: "@ + why@ + "\n"@
                + "Run wayland-agent/gnome-extension/install.sh then log out and back in so gnome-shell picks up the extension."@,
        ),
{
}

/// Law: whoever has no connection to the extension is told how to get it.
pub proof fn missing_extensions_are_told()
    ensures
        not_connected()
            == "connect to com.mxshift.WaylandAgent — extension not installed or not enabled.\n"@
            + "Run wayland-agent/gnome-extension/install.sh then log out and back in so gnome-shell picks up the extension."@,
{
}

} // verus!
