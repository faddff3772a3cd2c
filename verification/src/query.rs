//! Queries: how the elements of a window are got at.
//!
//! A query is a machine.  It says what it has to be told next, and goes on when
//! it is told.  It looks for the window, then for the application of the window,
//! then for the element of that application that is the window, and then it walks
//! through what lies below.

use vstd::prelude::*;
use vstd::string::*;

use crate::a11y::{
    a11y_find_apps, a11y_frame_offset, acc_children, acc_showing, apps_outcome, can_offset,
    elements, find_pid, frame_rect, is_same_process, offset_fits, offset_in_frame, same_process,
    shown_by, window_pid, AccRef, AppFacts,
};
use crate::dict::WindowDict;
use crate::extension::{call_failed, tell_call_failed, ExtCall};
use crate::number::{decimal, show_u64};
use crate::protocol::{detailed, Response, ResponseView};
use crate::text::{join, joined, quote, quoted, same, texts};
use crate::ui::{
    can_show_hits, can_show_tree, find_fits, find_outcome, tree_fits, tree_text, ui_find, ui_tree,
    UiNode,
};
use crate::walk::{Details, Phase, Walk, WalkView, UI_DEFAULT_DEPTH};
use crate::window::{
    dict_id, resolve_window_selector, selected, show_field, shown, window_id, WindowId,
};

verus! {

/// What is wanted of the elements of a window.
#[derive(Debug)]
pub enum UiGoal {
    /// All of them, down to a depth.
    Tree { depth: Option<u32>, all: bool },
    /// Those with a name and a role.
    Find { pattern: String, role: Option<String> },
}

impl UiGoal {
    /// How deep the walk goes.
    pub open spec fn depth_limit(self) -> usize {
        match self {
            UiGoal::Tree { depth: Some(d), all } => d as usize,
            _ => UI_DEFAULT_DEPTH as usize,
        }
    }

    /// Whether hidden elements are wanted.  A search wants them: to know that
    /// there is one is what it is for.
    pub open spec fn wants_hidden(self) -> bool {
        match self {
            UiGoal::Tree { depth, all } => all,
            UiGoal::Find { pattern, role } => true,
        }
    }

    fn limit(&self) -> (r: usize)
        ensures
            r == self.depth_limit(),
    {
        match self {
            UiGoal::Tree { depth: Some(d), all } => *d as usize,
            _ => UI_DEFAULT_DEPTH as usize,
        }
    }

    fn hidden(&self) -> (r: bool)
        ensures
            r == self.wants_hidden(),
    {
        match self {
            UiGoal::Tree { depth, all } => *all,
            UiGoal::Find { pattern, role } => true,
        }
    }

    /// Whether what was found can be shown: whether every place that has to be
    /// told is one that an `i32` holds.
    pub open spec fn fits(self, nodes: Seq<UiNode>, off: Option<(i32, i32)>) -> bool {
        match self {
            UiGoal::Tree { depth, all } => tree_fits(nodes, off),
            UiGoal::Find { pattern, role } => find_fits(nodes, off, pattern@, named_role(role)),
        }
    }

    /// What comes of the query, given what was found.
    pub open spec fn outcome(
        self,
        id: int,
        off: Option<(i32, i32)>,
        nodes: Seq<UiNode>,
        truncated: bool,
    ) -> Result<ResponseView, Seq<char>> {
        match self {
            UiGoal::Tree { depth, all } => Ok(detailed(tree_text(id, off, nodes, truncated))),
            UiGoal::Find { pattern, role } => find_outcome(
                id,
                off,
                nodes,
                truncated,
                pattern@,
                named_role(role),
            ),
        }
    }
}

/// The text of a role, if one is asked for.
pub open spec fn named_role(role: Option<String>) -> Option<Seq<char>> {
    match role {
        Some(r) => Some(r@),
        None => None,
    }
}

/// The window that a query is about.
#[derive(Debug)]
pub struct Target {
    pub id: WindowId,
    pub win: WindowDict,
    pub goal: UiGoal,
}

#[derive(Debug)]
enum State {
    Listing { sel: String, goal: UiGoal },
    Registry { t: Target },
    Process { t: Target, apps: Vec<AccRef>, facts: Vec<AppFacts> },
    AppName { t: Target, apps: Vec<AccRef>, facts: Vec<AppFacts>, pid: Option<u32> },
    Tops { t: Target, apps: Vec<AccRef>, at: usize },
    Naming { t: Target, tops: Vec<AccRef>, names: Vec<String> },
    Checking {
        t: Target,
        tops: Vec<AccRef>,
        names: Vec<String>,
        checked: usize,
        seen: Vec<AccRef>,
    },
    Measuring { t: Target, top: AccRef },
    Walking { id: WindowId, off: Option<(i32, i32)>, goal: UiGoal, walk: Walk },
    Walked {
        id: WindowId,
        off: Option<(i32, i32)>,
        goal: UiGoal,
        nodes: Vec<UiNode>,
        truncated: bool,
    },
    Over { outcome: Result<Response, String> },
}

/// A query for the elements of a window.
#[derive(Debug)]
pub struct Query {
    state: State,
}

/// A query as a value.
pub enum QueryView {
    /// It has to be told the windows.
    Listing { sel: String, goal: UiGoal },
    /// It has to be told the applications.
    Registry { t: Target },
    /// It has to be told the process of the next application.
    Process { t: Target, apps: Seq<AccRef>, facts: Seq<AppFacts> },
    /// It has to be told the name of the next application.
    AppName { t: Target, apps: Seq<AccRef>, facts: Seq<AppFacts>, pid: Option<u32> },
    /// It has to be told what lies below an application that it has found.
    Tops { t: Target, apps: Seq<AccRef>, at: int },
    /// It has to be told the name of the next element at the top.
    Naming { t: Target, tops: Seq<AccRef>, names: Seq<Seq<char>> },
    /// It has to be told whether the next element at the top is shown.
    Checking {
        t: Target,
        tops: Seq<AccRef>,
        names: Seq<Seq<char>>,
        checked: int,
        seen: Seq<AccRef>,
    },
    /// It has to be told where on the screen the element is.
    Measuring { t: Target, top: AccRef },
    /// It walks through what lies below the element.
    Walking { id: WindowId, off: Option<(i32, i32)>, goal: UiGoal, walk: WalkView },
    /// It has walked, and can show what it has found.
    Walked {
        id: WindowId,
        off: Option<(i32, i32)>,
        goal: UiGoal,
        nodes: Seq<UiNode>,
        truncated: bool,
    },
    /// It is over.
    Over { outcome: Result<ResponseView, Seq<char>> },
}

/// The outcome of a request as a value.
pub open spec fn outcome_view(outcome: Result<Response, String>) -> Result<
    ResponseView,
    Seq<char>,
> {
    match outcome {
        Ok(r) => Ok(r@),
        Err(e) => Err(e@),
    }
}

impl View for Query {
    type V = QueryView;

    closed spec fn view(&self) -> QueryView {
        match self.state {
            State::Listing { sel, goal } => QueryView::Listing { sel, goal },
            State::Registry { t } => QueryView::Registry { t },
            State::Process { t, apps, facts } => QueryView::Process {
                t,
                apps: apps@,
                facts: facts@,
            },
            State::AppName { t, apps, facts, pid } => QueryView::AppName {
                t,
                apps: apps@,
                facts: facts@,
                pid,
            },
            State::Tops { t, apps, at } => QueryView::Tops { t, apps: apps@, at: at as int },
            State::Naming { t, tops, names } => QueryView::Naming {
                t,
                tops: tops@,
                names: texts(names@),
            },
            State::Checking { t, tops, names, checked, seen } => QueryView::Checking {
                t,
                tops: tops@,
                names: texts(names@),
                checked: checked as int,
                seen: seen@,
            },
            State::Measuring { t, top } => QueryView::Measuring { t, top },
            State::Walking { id, off, goal, walk } => QueryView::Walking {
                id,
                off,
                goal,
                walk: walk@,
            },
            State::Walked { id, off, goal, nodes, truncated } => QueryView::Walked {
                id,
                off,
                goal,
                nodes: nodes@,
                truncated,
            },
            State::Over { outcome } => QueryView::Over { outcome: outcome_view(outcome) },
        }
    }
}

/// What a query is told.
#[derive(Debug)]
pub enum UiEvent {
    /// The windows, or why the extension did not tell them.
    Windows(Result<Vec<WindowDict>, String>),
    /// What lies below an element, or why that cannot be told.
    Children(Result<Vec<AccRef>, String>),
    /// The process of an application, if it is known.
    Process(Option<u32>),
    /// The name of an element.
    Name(String),
    /// The words of the state of an element, if they could be read.
    State(Option<Vec<u32>>),
    /// Place on the screen and size of an element, if it has them.
    Screen(Option<(i32, i32, i32, i32)>),
    /// The details of an element.
    Details(Details),
    /// That it may show what it has found.
    Show,
    /// That something went wrong on the way.
    Failed(String),
}

/// What a query has to be told.
#[derive(Debug)]
pub enum UiAsk<'a> {
    /// The windows.
    Windows,
    /// What lies below the root of the accessibility bus: the applications.
    Applications,
    /// The process of a connection.
    Process(&'a AccRef),
    /// The name of an element.
    Name(&'a AccRef),
    /// What lies below an element.
    Children(&'a AccRef),
    /// The state of an element.
    State(&'a AccRef),
    /// The place of an element on the screen.
    Screen(&'a AccRef),
    /// The details of an element, with what lies below it or without.
    Details(&'a AccRef, bool),
    /// That it may show what it has found.
    Show,
    /// Nothing: it is over.
    Nothing,
}

// ---------------------------------------------------------------------------
// What a query makes of what it is told
// ---------------------------------------------------------------------------

/// A query that ends with an error.
pub open spec fn query_failed(e: Seq<char>) -> QueryView {
    QueryView::Over { outcome: Err(e) }
}

/// After the windows were told: the selector must stand for one of them, and
/// that one must have an id.
pub open spec fn after_windows(
    sel: String,
    goal: UiGoal,
    reply: Result<Vec<WindowDict>, String>,
) -> QueryView {
    match reply {
        Err(why) => query_failed(call_failed(ExtCall::GetWindows, why@)),
        Ok(windows) => match selected(windows@, sel@) {
            Err(e) => query_failed(e),
            Ok(win) => match window_id(win@) {
                Err(e) => query_failed(e),
                Ok(id) => QueryView::Registry { t: Target { id, win, goal } },
            },
        },
    }
}

/// Given what is known of the first applications: the next one is asked for,
/// first for its process if the window has one; when all are known, those are
/// chosen that could be that of the window.
pub open spec fn knowing(t: Target, apps: Seq<AccRef>, facts: Seq<AppFacts>) -> QueryView {
    if facts.len() < apps.len() {
        if window_pid(t.win@) is Some {
            QueryView::Process { t, apps, facts }
        } else {
            QueryView::AppName { t, apps, facts, pid: None }
        }
    } else {
        match apps_outcome(t.win@, facts) {
            Err(e) => query_failed(e),
            Ok(found) => QueryView::Tops { t, apps: found, at: 0 },
        }
    }
}

/// After the process of an application was told: one that is that of the window
/// needs no name.
pub open spec fn after_process(
    t: Target,
    apps: Seq<AccRef>,
    facts: Seq<AppFacts>,
    pid: Option<u32>,
) -> QueryView {
    if same_process(window_pid(t.win@), pid) {
        knowing(
            t,
            apps,
            facts.push(AppFacts { acc: apps[facts.len() as int], pid, name: None }),
        )
    } else {
        QueryView::AppName { t, apps, facts, pid }
    }
}

/// After it was told what lies below an application: the first application that
/// has anything below it counts.
pub open spec fn after_tops(
    t: Target,
    apps: Seq<AccRef>,
    at: int,
    reply: Result<Vec<AccRef>, String>,
) -> QueryView {
    match reply {
        Err(why) => query_failed("list application toplevels: "@ + why@),
        Ok(refs) => {
            let tops = elements(refs@);
            if tops.len() == 0 {
                if at + 1 < apps.len() {
                    QueryView::Tops { t, apps, at: at + 1 }
                } else {
                    query_failed("application exposes no windows on the a11y bus"@)
                }
            } else if tops.len() == 1 {
                QueryView::Measuring { t, top: tops[0] }
            } else {
                QueryView::Naming { t, tops, names: Seq::<Seq<char>>::empty() }
            }
        },
    }
}

/// After the name of an element at the top was told: the first one that has the
/// title of the window is the window.
pub open spec fn after_name(
    t: Target,
    tops: Seq<AccRef>,
    names: Seq<Seq<char>>,
    name: Seq<char>,
) -> QueryView {
    if name == shown(t.win@, "title"@) {
        QueryView::Measuring { t, top: tops[names.len() as int] }
    } else if names.len() + 1 < tops.len() {
        QueryView::Naming { t, tops, names: names.push(name) }
    } else {
        QueryView::Checking {
            t,
            tops,
            names: names.push(name),
            checked: 0,
            seen: Seq::<AccRef>::empty(),
        }
    }
}

/// A list of texts as it is shown to a programmer.
pub open spec fn list_text(names: Seq<Seq<char>>) -> Seq<char> {
    "["@ + joined(names.map_values(|n: Seq<char>| quoted(n)), ", "@) + "]"@
}

/// What is said of a window that none of the elements at the top is.
pub open spec fn no_toplevel(n: nat, title: Seq<char>, names: Seq<Seq<char>>) -> Seq<char> {
    "none of the app's "@ + decimal(n as int) + " a11y toplevels matches title "@ + quoted(title)
        + ": "@ + list_text(names)
}

/// After it was told whether an element at the top is shown: if none had the
/// title of the window, the only one that is shown is the window.
pub open spec fn after_check(
    t: Target,
    tops: Seq<AccRef>,
    names: Seq<Seq<char>>,
    checked: int,
    seen: Seq<AccRef>,
    showing: bool,
) -> QueryView {
    let now = if showing {
        seen.push(tops[checked])
    } else {
        seen
    };
    if checked + 1 < tops.len() {
        QueryView::Checking { t, tops, names, checked: checked + 1, seen: now }
    } else if now.len() == 1 {
        QueryView::Measuring { t, top: now[0] }
    } else {
        query_failed(no_toplevel(tops.len(), shown(t.win@, "title"@), names))
    }
}

/// A place without its size.
pub open spec fn corner(rect: Option<(i32, i32, i32, i32)>) -> Option<(i32, i32)> {
    match rect {
        Some(r) => Some((r.0, r.1)),
        None => None,
    }
}

/// A query that has walked on.
pub open spec fn walked_on(
    id: WindowId,
    off: Option<(i32, i32)>,
    goal: UiGoal,
    walk: WalkView,
) -> QueryView {
    match walk.phase {
        Phase::Over { truncated } => QueryView::Walked {
            id,
            off,
            goal,
            nodes: walk.out,
            truncated,
        },
        _ => QueryView::Walking { id, off, goal, walk },
    }
}

impl QueryView {
    /// Whether the query can be told something: whether every place that it then
    /// has to calculate is one that an `i32` holds.
    pub open spec fn admits(self, event: UiEvent) -> bool {
        match (self, event) {
            (QueryView::Measuring { t, top }, UiEvent::Screen(rect)) => offset_fits(
                corner(rect),
                frame_rect(t.win@),
            ),
            (QueryView::Walked { id, off, goal, nodes, truncated }, UiEvent::Show) => goal.fits(
                nodes,
                off,
            ),
            _ => true,
        }
    }

    /// Whether something is what the query has to be told.
    pub open spec fn asks(self, ask: UiAsk<'_>) -> bool {
        match self {
            QueryView::Listing { sel, goal } => ask == UiAsk::Windows,
            QueryView::Registry { t } => ask == UiAsk::Applications,
            QueryView::Process { t, apps, facts } => ask == UiAsk::Process(
                &apps[facts.len() as int],
            ),
            QueryView::AppName { t, apps, facts, pid } => ask == UiAsk::Name(
                &apps[facts.len() as int],
            ),
            QueryView::Tops { t, apps, at } => ask == UiAsk::Children(&apps[at]),
            QueryView::Naming { t, tops, names } => ask == UiAsk::Name(
                &tops[names.len() as int],
            ),
            QueryView::Checking { t, tops, names, checked, seen } => ask == UiAsk::State(
                &tops[checked],
            ),
            QueryView::Measuring { t, top } => ask == UiAsk::Screen(&top),
            QueryView::Walking { id, off, goal, walk } => match walk.phase {
                Phase::Looking { at, depth } => ask == UiAsk::State(&at),
                Phase::Reading { at, depth, showing } => ask == UiAsk::Details(
                    &at,
                    depth < walk.max_depth,
                ),
                Phase::Over { truncated } => ask == UiAsk::Nothing,
            },
            QueryView::Walked { id, off, goal, nodes, truncated } => ask == UiAsk::Show,
            QueryView::Over { outcome } => ask == UiAsk::Nothing,
        }
    }

    /// The query after it was told something.  What it did not ask for leaves it
    /// as it is.
    pub open spec fn told(self, event: UiEvent) -> QueryView {
        match (self, event) {
            (QueryView::Over { outcome }, _) => self,
            (_, UiEvent::Failed(why)) => query_failed(why@),
            (QueryView::Listing { sel, goal }, UiEvent::Windows(reply)) => after_windows(
                sel,
                goal,
                reply,
            ),
            (QueryView::Registry { t }, UiEvent::Children(reply)) => match reply {
                Err(why) => query_failed("list AT-SPI applications: "@ + why@),
                Ok(refs) => knowing(t, elements(refs@), Seq::<AppFacts>::empty()),
            },
            (QueryView::Process { t, apps, facts }, UiEvent::Process(pid)) => after_process(
                t,
                apps,
                facts,
                pid,
            ),
            (QueryView::AppName { t, apps, facts, pid }, UiEvent::Name(name)) => knowing(
                t,
                apps,
                facts.push(AppFacts { acc: apps[facts.len() as int], pid, name: Some(name) }),
            ),
            (QueryView::Tops { t, apps, at }, UiEvent::Children(reply)) => after_tops(
                t,
                apps,
                at,
                reply,
            ),
            (QueryView::Naming { t, tops, names }, UiEvent::Name(name)) => after_name(
                t,
                tops,
                names,
                name@,
            ),
            (
                QueryView::Checking { t, tops, names, checked, seen },
                UiEvent::State(words),
            ) => after_check(t, tops, names, checked, seen, shown_by(word_seq(words))),
            (QueryView::Measuring { t, top }, UiEvent::Screen(rect)) => QueryView::Walking {
                id: t.id,
                off: offset_in_frame(corner(rect), frame_rect(t.win@)),
                goal: t.goal,
                walk: WalkView::begun(top, t.goal.depth_limit(), t.goal.wants_hidden()),
            },
            (QueryView::Walking { id, off, goal, walk }, UiEvent::State(words)) => walked_on(
                id,
                off,
                goal,
                walk.looked(shown_by(word_seq(words))),
            ),
            (QueryView::Walking { id, off, goal, walk }, UiEvent::Details(d)) => walked_on(
                id,
                off,
                goal,
                walk.read(d),
            ),
            (QueryView::Walked { id, off, goal, nodes, truncated }, UiEvent::Show) =>
                QueryView::Over { outcome: goal.outcome(id.number(), off, nodes, truncated) },
            _ => self,
        }
    }
}

/// The words of a state, if they could be read.
pub open spec fn word_seq(words: Option<Vec<u32>>) -> Option<Seq<u32>> {
    match words {
        Some(w) => Some(w@),
        None => None,
    }
}

// ---------------------------------------------------------------------------
// The machine
// ---------------------------------------------------------------------------

fn end_with(e: String) -> (r: State)
    ensures
        (Query { state: r })@ == query_failed(e@),
        r is Over,
{
    State::Over { outcome: Err(e) }
}

fn take_windows(sel: String, goal: UiGoal, reply: Result<Vec<WindowDict>, String>) -> (r: State)
    ensures
        (Query { state: r })@ == after_windows(sel, goal, reply),
        r is Over || r is Registry,
{
    match reply {
        Err(why) => end_with(tell_call_failed(ExtCall::GetWindows, why.as_str())),
        Ok(windows) => match resolve_window_selector(windows, sel.as_str()) {
            Err(e) => end_with(e),
            Ok(win) => match dict_id(&win) {
                Err(e) => end_with(e),
                Ok(id) => State::Registry { t: Target { id, win, goal } },
            },
        },
    }
}

fn know(t: Target, apps: Vec<AccRef>, facts: Vec<AppFacts>) -> (r: State)
    requires
        facts@.len() <= apps@.len(),
    ensures
        (Query { state: r })@ == knowing(t, apps@, facts@),
        (Query { state: r }).in_range(),
{
    if facts.len() < apps.len() {
        match find_pid(&t.win) {
            Some(_) => State::Process { t, apps, facts },
            None => State::AppName { t, apps, facts, pid: None },
        }
    } else {
        match a11y_find_apps(&t.win, facts) {
            Err(e) => end_with(e),
            Ok(found) => State::Tops { t, apps: found, at: 0 },
        }
    }
}

fn take_process(t: Target, apps: Vec<AccRef>, facts: Vec<AppFacts>, pid: Option<u32>) -> (r: State)
    requires
        facts@.len() < apps@.len(),
    ensures
        (Query { state: r })@ == after_process(t, apps@, facts@, pid),
        (Query { state: r }).in_range(),
{
    if is_same_process(find_pid(&t.win), pid) {
        let mut facts: Vec<AppFacts> = facts;
        let acc: AccRef = apps[facts.len()].copy();
        facts.push(AppFacts { acc, pid, name: None });
        know(t, apps, facts)
    } else {
        State::AppName { t, apps, facts, pid }
    }
}

fn take_app_name(
    t: Target,
    apps: Vec<AccRef>,
    facts: Vec<AppFacts>,
    pid: Option<u32>,
    name: String,
) -> (r: State)
    requires
        facts@.len() < apps@.len(),
    ensures
        (Query { state: r })@ == knowing(
            t,
            apps@,
            facts@.push(AppFacts { acc: apps@[facts@.len() as int], pid, name: Some(name) }),
        ),
        (Query { state: r }).in_range(),
{
    let mut facts: Vec<AppFacts> = facts;
    let acc: AccRef = apps[facts.len()].copy();
    facts.push(AppFacts { acc, pid, name: Some(name) });
    know(t, apps, facts)
}

fn take_tops(t: Target, apps: Vec<AccRef>, at: usize, reply: Result<Vec<AccRef>, String>) -> (r:
    State)
    requires
        at < apps@.len(),
    ensures
        (Query { state: r })@ == after_tops(t, apps@, at as int, reply),
        (Query { state: r }).in_range(),
{
    match reply {
        Err(why) => {
            let mut e: String = "list application toplevels: ".to_owned();
            e.append(why.as_str());
            end_with(e)
        },
        Ok(refs) => {
            let mut tops: Vec<AccRef> = acc_children(refs);
            if tops.len() == 0 {
                if at < apps.len() - 1 {
                    State::Tops { t, apps, at: at + 1 }
                } else {
                    end_with("application exposes no windows on the a11y bus".to_owned())
                }
            } else if tops.len() == 1 {
                let top: AccRef = tops.remove(0);
                State::Measuring { t, top }
            } else {
                let names: Vec<String> = Vec::new();
                assert(texts(names@) =~= Seq::<Seq<char>>::empty());
                State::Naming { t, tops, names }
            }
        },
    }
}

fn take_name(t: Target, tops: Vec<AccRef>, names: Vec<String>, name: String) -> (r: State)
    requires
        names@.len() < tops@.len(),
    ensures
        (Query { state: r })@ == after_name(t, tops@, texts(names@), name@),
        (Query { state: r }).in_range(),
{
    if same(name.as_str(), show_field(&t.win, "title").as_str()) {
        let mut tops: Vec<AccRef> = tops;
        let top: AccRef = tops.remove(names.len());
        State::Measuring { t, top }
    } else {
        let ghost before = texts(names@);
        let mut names: Vec<String> = names;
        names.push(name);
        assert(texts(names@) =~= before.push(name@));
        if names.len() < tops.len() {
            State::Naming { t, tops, names }
        } else {
            State::Checking { t, tops, names, checked: 0, seen: Vec::new() }
        }
    }
}

fn show_list(names: &Vec<String>) -> (r: String)
    ensures
        r@ == list_text(texts(names@)),
{
    let ghost all = texts(names@).map_values(|n: Seq<char>| quoted(n));
    let mut parts: Vec<String> = Vec::new();
    for i in 0..names.len()
        invariant
            all == texts(names@).map_values(|n: Seq<char>| quoted(n)),
            texts(parts@) == all.take(i as int),
    {
        let part: String = quote(names[i].as_str());
        assert(part@ == all[i as int]);
        let ghost before = texts(parts@);
        parts.push(part);
        assert(texts(parts@) =~= before.push(part@));
        assert(all.take(i + 1) =~= before.push(part@));
    }
    assert(all.take(names@.len() as int) =~= all);
    let mut r: String = "[".to_owned();
    r.append(join(&parts, ", ").as_str());
    r.append("]");
    r
}

fn tell_no_toplevel(n: usize, title: &str, names: &Vec<String>) -> (e: String)
    ensures
        e@ == no_toplevel(n as nat, title@, texts(names@)),
{
    let mut e: String = "none of the app's ".to_owned();
    e.append(show_u64(n as u64).as_str());
    e.append(" a11y toplevels matches title ");
    e.append(quote(title).as_str());
    e.append(": ");
    e.append(show_list(names).as_str());
    e
}

fn take_check(
    t: Target,
    tops: Vec<AccRef>,
    names: Vec<String>,
    checked: usize,
    seen: Vec<AccRef>,
    showing: bool,
) -> (r: State)
    requires
        checked < tops@.len(),
    ensures
        (Query { state: r })@ == after_check(
            t,
            tops@,
            texts(names@),
            checked as int,
            seen@,
            showing,
        ),
        (Query { state: r }).in_range(),
{
    let mut seen: Vec<AccRef> = seen;
    if showing {
        seen.push(tops[checked].copy());
    }
    if checked < tops.len() - 1 {
        State::Checking { t, tops, names, checked: checked + 1, seen }
    } else if seen.len() == 1 {
        let top: AccRef = seen.remove(0);
        State::Measuring { t, top }
    } else {
        end_with(tell_no_toplevel(tops.len(), show_field(&t.win, "title").as_str(), &names))
    }
}

fn walk_on(id: WindowId, off: Option<(i32, i32)>, goal: UiGoal, walk: Walk) -> (r: State)
    ensures
        (Query { state: r })@ == walked_on(id, off, goal, walk@),
        r is Walking || r is Walked,
{
    let over: bool = match walk.phase() {
        Phase::Over { truncated } => true,
        _ => false,
    };
    if over {
        let (nodes, truncated) = walk.finish();
        State::Walked { id, off, goal, nodes, truncated }
    } else {
        State::Walking { id, off, goal, walk }
    }
}

fn place_of(rect: &Option<(i32, i32, i32, i32)>) -> (r: Option<(i32, i32)>)
    ensures
        r == corner(*rect),
{
    match rect {
        Some((x, y, w, h)) => Some((*x, *y)),
        None => None,
    }
}

fn borrow_role(role: &Option<String>) -> (r: Option<&str>)
    ensures
        crate::ui::role_text(r) == named_role(*role),
{
    match role {
        Some(s) => Some(s.as_str()),
        None => None,
    }
}

fn show_result(
    id: WindowId,
    off: Option<(i32, i32)>,
    goal: UiGoal,
    nodes: Vec<UiNode>,
    truncated: bool,
) -> (r: Result<Response, String>)
    requires
        goal.fits(nodes@, off),
    ensures
        outcome_view(r) == goal.outcome(id.number(), off, nodes@, truncated),
{
    match goal {
        UiGoal::Tree { depth, all } => Ok(ui_tree(id, off, &nodes, truncated)),
        UiGoal::Find { pattern, role } => ui_find(
            id,
            off,
            &nodes,
            truncated,
            pattern.as_str(),
            borrow_role(&role),
        ),
    }
}

impl Query {
    /// What is to be asked next exists.
    #[verifier::type_invariant]
    spec fn in_range(self) -> bool {
        match self.state {
            State::Process { t, apps, facts } => facts@.len() < apps@.len(),
            State::AppName { t, apps, facts, pid } => facts@.len() < apps@.len(),
            State::Tops { t, apps, at } => at < apps@.len(),
            State::Naming { t, tops, names } => names@.len() < tops@.len(),
            State::Checking { t, tops, names, checked, seen } => checked < tops@.len(),
            _ => true,
        }
    }

    /// Begins a query for the elements of a window.
    pub fn new(sel: String, goal: UiGoal) -> (r: Query)
        ensures
            r@ == (QueryView::Listing { sel, goal }),
    {
        Query { state: State::Listing { sel, goal } }
    }

    /// What the query has to be told.
    pub fn ask(&self) -> (r: UiAsk<'_>)
        ensures
            self@.asks(r),
    {
        proof {
            use_type_invariant(self);
        }
        match &self.state {
            State::Listing { sel, goal } => UiAsk::Windows,
            State::Registry { t } => UiAsk::Applications,
            State::Process { t, apps, facts } => UiAsk::Process(&apps[facts.len()]),
            State::AppName { t, apps, facts, pid } => UiAsk::Name(&apps[facts.len()]),
            State::Tops { t, apps, at } => UiAsk::Children(&apps[*at]),
            State::Naming { t, tops, names } => UiAsk::Name(&tops[names.len()]),
            State::Checking { t, tops, names, checked, seen } => UiAsk::State(&tops[*checked]),
            State::Measuring { t, top } => UiAsk::Screen(top),
            State::Walking { id, off, goal, walk } => match walk.phase() {
                Phase::Looking { at, depth } => UiAsk::State(at),
                Phase::Reading { at, depth, showing } => UiAsk::Details(at, walk.wants_children()),
                Phase::Over { truncated } => UiAsk::Nothing,
            },
            State::Walked { id, off, goal, nodes, truncated } => UiAsk::Show,
            State::Over { outcome } => UiAsk::Nothing,
        }
    }

    /// Tests whether the query can be told something.
    pub fn can_tell(&self, event: &UiEvent) -> (r: bool)
        ensures
            r == self@.admits(*event),
    {
        match (&self.state, event) {
            (State::Measuring { t, top }, UiEvent::Screen(rect)) => can_offset(
                place_of(rect),
                &t.win,
            ),
            (State::Walked { id, off, goal, nodes, truncated }, UiEvent::Show) => match goal {
                UiGoal::Tree { depth, all } => can_show_tree(nodes, *off),
                UiGoal::Find { pattern, role } => can_show_hits(
                    nodes,
                    *off,
                    pattern.as_str(),
                    borrow_role(role),
                ),
            },
            _ => true,
        }
    }

    /// Tells the query something.
    pub fn tell(self, event: UiEvent) -> (r: Query)
        requires
            self@.admits(event),
        ensures
            r@ == self@.told(event),
    {
        proof {
            use_type_invariant(&self);
        }
        let Query { state } = self;
        let next: State = match (state, event) {
            (State::Over { outcome }, _) => State::Over { outcome },
            (_, UiEvent::Failed(why)) => end_with(why),
            (State::Listing { sel, goal }, UiEvent::Windows(reply)) => take_windows(
                sel,
                goal,
                reply,
            ),
            (State::Registry { t }, UiEvent::Children(reply)) => match reply {
                Err(why) => {
                    let mut e: String = "list AT-SPI applications: ".to_owned();
                    e.append(why.as_str());
                    end_with(e)
                },
                Ok(refs) => know(t, acc_children(refs), Vec::new()),
            },
            (State::Process { t, apps, facts }, UiEvent::Process(pid)) => take_process(
                t,
                apps,
                facts,
                pid,
            ),
            (State::AppName { t, apps, facts, pid }, UiEvent::Name(name)) => take_app_name(
                t,
                apps,
                facts,
                pid,
                name,
            ),
            (State::Tops { t, apps, at }, UiEvent::Children(reply)) => take_tops(
                t,
                apps,
                at,
                reply,
            ),
            (State::Naming { t, tops, names }, UiEvent::Name(name)) => take_name(
                t,
                tops,
                names,
                name,
            ),
            (State::Checking { t, tops, names, checked, seen }, UiEvent::State(words)) => {
                take_check(t, tops, names, checked, seen, acc_showing(words))
            },
            (State::Measuring { t, top }, UiEvent::Screen(rect)) => {
                let off: Option<(i32, i32)> = a11y_frame_offset(place_of(&rect), &t.win);
                let walk: Walk = Walk::new(top, t.goal.limit(), t.goal.hidden());
                State::Walking { id: t.id, off, goal: t.goal, walk }
            },
            (State::Walking { id, off, goal, walk }, UiEvent::State(words)) => walk_on(
                id,
                off,
                goal,
                walk.on_state(words),
            ),
            (State::Walking { id, off, goal, walk }, UiEvent::Details(d)) => walk_on(
                id,
                off,
                goal,
                walk.on_details(d),
            ),
            (State::Walked { id, off, goal, nodes, truncated }, UiEvent::Show) => State::Over {
                outcome: show_result(id, off, goal, nodes, truncated),
            },
            (state, _) => state,
        };
        Query { state: next }
    }

    /// Tells the query something, if it can be told.
    pub fn step(self, event: UiEvent) -> (r: Option<Query>)
        ensures
            match r {
                Some(q) => self@.admits(event) && q@ == self@.told(event),
                None => !self@.admits(event),
            },
    {
        if self.can_tell(&event) {
            Some(self.tell(event))
        } else {
            None
        }
    }

    /// Tests whether the query is over.
    pub fn is_over(&self) -> (r: bool)
        ensures
            r == (self@ is Over),
    {
        match &self.state {
            State::Over { outcome } => true,
            _ => false,
        }
    }

    /// What came of the query, if it is over.
    pub fn outcome(self) -> (r: Option<Result<Response, String>>)
        ensures
            match self@ {
                QueryView::Over { outcome } => r is Some && outcome_view(r->0) == outcome,
                _ => r is None,
            },
    {
        match self.state {
            State::Over { outcome } => Some(outcome),
            _ => None,
        }
    }
}

// ---------------------------------------------------------------------------
// Laws
// ---------------------------------------------------------------------------

/// Law: a query that something went wrong for ends with what went wrong, and a
/// query that is over stays as it is.
pub proof fn failures_end_queries(q: QueryView, why: String, event: UiEvent)
    ensures
        !(q is Over) ==> q.told(UiEvent::Failed(why)) == query_failed(why@),
        q is Over ==> q.told(event) == q,
{
}

/// What a query learns of an application: not its process if the window has
/// none, and not its name if its process is that of the window.
pub open spec fn learned(t: Target, acc: AccRef, pid: Option<u32>, name: String) -> AppFacts {
    let known = if window_pid(t.win@) is Some {
        pid
    } else {
        None
    };
    AppFacts {
        acc,
        pid: known,
        name: if same_process(window_pid(t.win@), known) {
            None
        } else {
            Some(name)
        },
    }
}

/// A query after it was told what it asks of one application.
pub open spec fn told_of_app(q: QueryView, pid: Option<u32>, name: String) -> QueryView {
    let after = if q is Process {
        q.told(UiEvent::Process(pid))
    } else {
        q
    };
    if after is AppName {
        after.told(UiEvent::Name(name))
    } else {
        after
    }
}

/// A query after it was told what it asks of several applications.
pub open spec fn told_of_apps(
    q: QueryView,
    apps: Seq<AccRef>,
    pid_of: spec_fn(AccRef) -> Option<u32>,
    name_of: spec_fn(AccRef) -> String,
    n: nat,
) -> QueryView
    decreases n,
{
    if n == 0 {
        q
    } else {
        let r = apps[n - 1];
        told_of_app(
            told_of_apps(q, apps, pid_of, name_of, (n - 1) as nat),
            pid_of(r),
            name_of(r),
        )
    }
}

/// What is known of applications, if all is asked.
pub open spec fn all_facts(
    apps: Seq<AccRef>,
    pid_of: spec_fn(AccRef) -> Option<u32>,
    name_of: spec_fn(AccRef) -> String,
) -> Seq<AppFacts> {
    apps.map_values(
        |r: AccRef| AppFacts { acc: r, pid: pid_of(r), name: Some(name_of(r)) },
    )
}

spec fn learned_facts(
    t: Target,
    apps: Seq<AccRef>,
    pid_of: spec_fn(AccRef) -> Option<u32>,
    name_of: spec_fn(AccRef) -> String,
) -> Seq<AppFacts> {
    apps.map_values(|r: AccRef| learned(t, r, pid_of(r), name_of(r)))
}

proof fn query_learns(
    t: Target,
    apps: Seq<AccRef>,
    pid_of: spec_fn(AccRef) -> Option<u32>,
    name_of: spec_fn(AccRef) -> String,
    n: nat,
)
    requires
        n <= apps.len(),
    ensures
        told_of_apps(
            knowing(t, apps, Seq::<AppFacts>::empty()),
            apps,
            pid_of,
            name_of,
            n,
        ) == knowing(t, apps, learned_facts(t, apps, pid_of, name_of).take(n as int)),
    decreases n,
{
    let all = learned_facts(t, apps, pid_of, name_of);
    if n == 0 {
        assert(all.take(0) =~= Seq::<AppFacts>::empty());
    } else {
        let m = (n - 1) as nat;
        query_learns(t, apps, pid_of, name_of, m);
        assert(all.take(n as int) =~= all.take(m as int).push(all[m as int]));
        assert(apps[all.take(m as int).len() as int] == apps[m as int]);
    }
}

proof fn same_filters(
    a: Seq<AppFacts>,
    b: Seq<AppFacts>,
    p: spec_fn(AppFacts) -> bool,
    texts_too: bool,
)
    requires
        a.len() == b.len(),
        forall|i: int|
            0 <= i < a.len() ==> (#[trigger] a[i]).acc == b[i].acc && p(a[i]) == p(b[i]) && (
            texts_too && p(a[i]) ==> a[i].called() == b[i].called()),
    ensures
        a.filter(p).map_values(|f: AppFacts| f.acc) == b.filter(p).map_values(
            |f: AppFacts| f.acc,
        ),
        texts_too ==> a.filter(p).map_values(|f: AppFacts| f.called()) == b.filter(p).map_values(
            |f: AppFacts| f.called(),
        ),
    decreases a.len(),
{
    reveal(Seq::filter);
    if a.len() == 0 {
        assert(a =~= b);
    } else {
        let (c, d) = (a.drop_last(), b.drop_last());
        assert forall|i: int| 0 <= i < c.len() implies (#[trigger] c[i]).acc == d[i].acc && p(c[i])
            == p(d[i]) && (texts_too && p(c[i]) ==> c[i].called() == d[i].called()) by {
            assert(c[i] == a[i]);
        }
        same_filters(c, d, p, texts_too);
        assert(a.last() == a[a.len() - 1]);
        if p(a.last()) {
            let acc = |f: AppFacts| f.acc;
            let called = |f: AppFacts| f.called();
            assert(a.filter(p) == c.filter(p).push(a.last()));
            assert(b.filter(p) == d.filter(p).push(b.last()));
            assert(a.filter(p).map_values(acc) =~= c.filter(p).map_values(acc).push(
                a.last().acc,
            ));
            assert(b.filter(p).map_values(acc) =~= d.filter(p).map_values(acc).push(
                b.last().acc,
            ));
            assert(a.filter(p).map_values(called) =~= c.filter(p).map_values(called).push(
                a.last().called(),
            ));
            assert(b.filter(p).map_values(called) =~= d.filter(p).map_values(called).push(
                b.last().called(),
            ));
        }
    }
}

/// Law: a query that does not ask what it can do without finds the same
/// applications as if it had asked all, or says the same of not finding any.
pub proof fn applications_are_found(
    t: Target,
    apps: Seq<AccRef>,
    pid_of: spec_fn(AccRef) -> Option<u32>,
    name_of: spec_fn(AccRef) -> String,
)
    ensures
        told_of_apps(
            knowing(t, apps, Seq::<AppFacts>::empty()),
            apps,
            pid_of,
            name_of,
            apps.len(),
        ) == knowing(t, apps, all_facts(apps, pid_of, name_of)),
{
    query_learns(t, apps, pid_of, name_of, apps.len());
    let a = learned_facts(t, apps, pid_of, name_of);
    let b = all_facts(apps, pid_of, name_of);
    assert(a.take(apps.len() as int) =~= a);
    let w = t.win@;
    same_filters(a, b, |f: AppFacts| crate::a11y::by_process(w, f), false);
    same_filters(a, b, |f: AppFacts| crate::a11y::by_name(w, f), false);
    same_filters(a, b, |f: AppFacts| crate::a11y::passed_over(w, f), true);
}

/// A query after it was told the names of several elements at the top.
pub open spec fn told_names(
    q: QueryView,
    tops: Seq<AccRef>,
    name_of: spec_fn(AccRef) -> String,
    n: nat,
) -> QueryView
    decreases n,
{
    if n == 0 {
        q
    } else {
        told_names(q, tops, name_of, (n - 1) as nat).told(UiEvent::Name(name_of(tops[n - 1])))
    }
}

/// The names of elements.
pub open spec fn names_of(tops: Seq<AccRef>, name_of: spec_fn(AccRef) -> String) -> Seq<Seq<char>> {
    tops.map_values(|r: AccRef| name_of(r)@)
}

/// Law: of several elements at the top, the first one that has the title of the
/// window is taken.  If none has it, all have been asked, and it goes by what is
/// shown.
pub proof fn title_decides(
    t: Target,
    tops: Seq<AccRef>,
    name_of: spec_fn(AccRef) -> String,
    n: nat,
)
    requires
        1 <= n <= tops.len(),
        forall|j: int|
            0 <= j < n - 1 ==> name_of(#[trigger] tops[j])@ != shown(t.win@, "title"@),
    ensures
        ({
            let q = QueryView::Naming { t, tops, names: Seq::<Seq<char>>::empty() };
            let r = told_names(q, tops, name_of, n);
            if name_of(tops[n - 1])@ == shown(t.win@, "title"@) {
                r == (QueryView::Measuring { t, top: tops[n - 1] })
            } else if n < tops.len() {
                r == (QueryView::Naming { t, tops, names: names_of(tops, name_of).take(n as int) })
            } else {
                r == (QueryView::Checking {
                    t,
                    tops,
                    names: names_of(tops, name_of),
                    checked: 0,
                    seen: Seq::<AccRef>::empty(),
                })
            }
        }),
    decreases n,
{
    let q = QueryView::Naming { t, tops, names: Seq::<Seq<char>>::empty() };
    let all = names_of(tops, name_of);
    let m = (n - 1) as nat;
    if m > 0 {
        assert(name_of(tops[m - 1])@ != shown(t.win@, "title"@));
        title_decides(t, tops, name_of, m);
    } else {
        assert(all.take(0) =~= Seq::<Seq<char>>::empty());
        assert(told_names(q, tops, name_of, 0) == q);
    }
    assert(told_names(q, tops, name_of, m) == (QueryView::Naming {
        t,
        tops,
        names: all.take(m as int),
    }));
    assert(all.take(n as int) =~= all.take(m as int).push(name_of(tops[m as int])@));
    assert(all.take(tops.len() as int) =~= all);
}

/// A query after it was told of several elements at the top whether they are
/// shown.
pub open spec fn told_states(
    q: QueryView,
    tops: Seq<AccRef>,
    words_of: spec_fn(AccRef) -> Option<Vec<u32>>,
    n: nat,
) -> QueryView
    decreases n,
{
    if n == 0 {
        q
    } else {
        told_states(q, tops, words_of, (n - 1) as nat).told(
            UiEvent::State(words_of(tops[n - 1])),
        )
    }
}

/// The elements that are shown.
pub open spec fn showing_ones(
    tops: Seq<AccRef>,
    words_of: spec_fn(AccRef) -> Option<Vec<u32>>,
) -> Seq<AccRef> {
    tops.filter(|r: AccRef| shown_by(word_seq(words_of(r))))
}

proof fn states_are_kept(
    t: Target,
    tops: Seq<AccRef>,
    names: Seq<Seq<char>>,
    words_of: spec_fn(AccRef) -> Option<Vec<u32>>,
    n: nat,
)
    requires
        n < tops.len(),
    ensures
        told_states(
            QueryView::Checking { t, tops, names, checked: 0, seen: Seq::<AccRef>::empty() },
            tops,
            words_of,
            n,
        ) == (QueryView::Checking {
            t,
            tops,
            names,
            checked: n as int,
            seen: showing_ones(tops.take(n as int), words_of),
        }),
    decreases n,
{
    reveal(Seq::filter);
    if n == 0 {
        assert(showing_ones(tops.take(0), words_of) =~= Seq::<AccRef>::empty());
    } else {
        let m = (n - 1) as nat;
        states_are_kept(t, tops, names, words_of, m);
        assert(tops.take(n as int).drop_last() =~= tops.take(m as int));
        assert(tops.take(n as int).last() == tops[m as int]);
    }
}

/// Law: of several elements at the top none of which has the title of the
/// window, the one that is shown is taken if it is the only one.  Otherwise the
/// query ends and says which names there are.
pub proof fn the_only_shown_element_is_taken(
    t: Target,
    tops: Seq<AccRef>,
    names: Seq<Seq<char>>,
    words_of: spec_fn(AccRef) -> Option<Vec<u32>>,
)
    requires
        tops.len() > 0,
    ensures
        ({
            let q = QueryView::Checking {
                t,
                tops,
                names,
                checked: 0,
                seen: Seq::<AccRef>::empty(),
            };
            let ones = showing_ones(tops, words_of);
            told_states(q, tops, words_of, tops.len()) == (if ones.len() == 1 {
                QueryView::Measuring { t, top: ones[0] }
            } else {
                query_failed(no_toplevel(tops.len(), shown(t.win@, "title"@), names))
            })
        }),
{
    reveal(Seq::filter);
    let m = (tops.len() - 1) as nat;
    states_are_kept(t, tops, names, words_of, m);
    assert(tops.drop_last() =~= tops.take(m as int));
    assert(tops.last() == tops[m as int]);
}

/// Law: the window that is asked for must be one window, and it must have an id;
/// then the applications are asked for.
pub proof fn queries_are_about_one_window(
    sel: String,
    goal: UiGoal,
    windows: Vec<WindowDict>,
    why: String,
)
    ensures
        ({
            let q = QueryView::Listing { sel, goal };
            let next = q.told(UiEvent::Windows(Ok(windows)));
            &&& selected(windows@, sel@) matches Ok(win) ==> window_id(win@) matches Ok(id) ==> next
                == (QueryView::Registry { t: Target { id, win, goal } })
            &&& selected(windows@, sel@) matches Ok(win) ==> window_id(win@) matches Err(e) ==> next
                == (QueryView::Over { outcome: Err(e) })
            &&& selected(windows@, sel@) matches Err(e) ==> next == (QueryView::Over {
                outcome: Err(e),
            })
            &&& q.told(UiEvent::Windows(Err(why))) == (QueryView::Over {
                outcome: Err(
                    "GetWindows"@ + " on com.mxshift.WaylandAgent failed: "@ + why@ + "\n"@
                        + "Run wayland-agent/gnome-extension/install.sh then log out and back in so gnome-shell picks up the extension."@,
                ),
            })
        }),
{
}

/// Law: of the applications on the bus one after the other is asked for, for its
/// process if that of the window is known, and for its name unless the process is
/// that of the window; when all have been asked, what lies below the first candidate
/// is asked for.
pub proof fn applications_are_asked_in_order(
    t: Target,
    refs: Vec<AccRef>,
    why: String,
    apps: Seq<AccRef>,
    facts: Seq<AppFacts>,
    pid: Option<u32>,
    name: String,
)
    requires
        facts.len() < apps.len(),
    ensures
        ({
            let next = apps[facts.len() as int];
            let with_pid = AppFacts { acc: next, pid, name: None };
            let with_name = AppFacts { acc: next, pid, name: Some(name) };
            let win_pid = window_pid(t.win@);
            let goes_on = |q: QueryView, f: Seq<AppFacts>|
                if f.len() < apps.len() {
                    if win_pid is Some {
                        q == (QueryView::Process { t, apps, facts: f })
                    } else {
                        q == (QueryView::AppName { t, apps, facts: f, pid: None })
                    }
                } else {
                    match apps_outcome(t.win@, f) {
                        Ok(found) => q == (QueryView::Tops { t, apps: found, at: 0 }),
                        Err(e) => q == (QueryView::Over { outcome: Err(e) }),
                    }
                };
            let asked = QueryView::Process { t, apps, facts }.told(UiEvent::Process(pid));
            let named = QueryView::AppName { t, apps, facts, pid }.told(UiEvent::Name(name));
            &&& win_pid is Some && pid is Some && win_pid->0 == pid->0 ==> goes_on(
                asked,
                facts.push(with_pid),
            )
            &&& !(win_pid is Some && pid is Some && win_pid->0 == pid->0) ==> asked == (
            QueryView::AppName { t, apps, facts, pid })
            &&& goes_on(named, facts.push(with_name))
            &&& QueryView::Registry { t }.told(UiEvent::Children(Err(why))) == (QueryView::Over {
                outcome: Err("list AT-SPI applications: "@ + why@),
            })
            &&& QueryView::Registry { t }.told(UiEvent::Children(Ok(refs))) == (if elements(
                refs@,
            ).len() == 0 {
                match apps_outcome(t.win@, Seq::<AppFacts>::empty()) {
                    Ok(found) => QueryView::Tops { t, apps: found, at: 0 },
                    Err(e) => QueryView::Over { outcome: Err(e) },
                }
            } else if win_pid is Some {
                QueryView::Process { t, apps: elements(refs@), facts: Seq::<AppFacts>::empty() }
            } else {
                QueryView::AppName {
                    t,
                    apps: elements(refs@),
                    facts: Seq::<AppFacts>::empty(),
                    pid: None,
                }
            })
        }),
{
}

/// Law: the first candidate with elements below it counts: a candidate without is
/// passed over, and the last one ends the query.  The only element below it is the
/// window; of several the names are asked.
pub proof fn the_first_application_with_elements_counts(
    t: Target,
    apps: Seq<AccRef>,
    at: int,
    refs: Vec<AccRef>,
    why: String,
)
    requires
        0 <= at < apps.len(),
    ensures
        ({
            let q = QueryView::Tops { t, apps, at };
            let next = q.told(UiEvent::Children(Ok(refs)));
            let tops = elements(refs@);
            &&& tops.len() == 0 && at < apps.len() - 1 ==> next == (QueryView::Tops {
                t,
                apps,
                at: at + 1,
            })
            &&& tops.len() == 0 && at == apps.len() - 1 ==> next == (QueryView::Over {
                outcome: Err("application exposes no windows on the a11y bus"@),
            })
            &&& tops.len() == 1 ==> next == (QueryView::Measuring { t, top: tops[0] })
            &&& tops.len() > 1 ==> next == (QueryView::Naming {
                t,
                tops,
                names: Seq::<Seq<char>>::empty(),
            })
            &&& q.told(UiEvent::Children(Err(why))) == (QueryView::Over {
                outcome: Err("list application toplevels: "@ + why@),
            })
        }),
{
}

/// Law: a query that finds no element for its window tells how many there are, the
/// title and the names of all of them, in order.
pub proof fn missing_toplevels_are_told(
    n: nat,
    title: Seq<char>,
    names: Seq<Seq<char>>,
    name: Seq<char>,
)
    ensures
        no_toplevel(n, title, names) == "none of the app's "@ + decimal(n as int)
            + " a11y toplevels matches title "@ + quoted(title) + ": "@ + list_text(names),
        list_text(seq![name]) == "["@ + quoted(name) + "]"@,
        names.len() > 0 ==> list_text(names.push(name)) == list_text(names).drop_last() + ", "@
            + quoted(name) + "]"@,
{
    let f = |n: Seq<char>| quoted(n);
    assert(seq![name].map_values(f) =~= seq![quoted(name)]);
    reveal_strlit("]");
    if names.len() > 0 {
        let all = names.push(name).map_values(f);
        assert(all.drop_last() =~= names.map_values(f));
        assert(all.last() == quoted(name));
        let before = joined(names.map_values(f), ", "@);
        assert(list_text(names).drop_last() =~= "["@ + before);
        assert("["@ + (before + ", "@ + quoted(name)) + "]"@ =~= "["@ + before + ", "@ + quoted(name)
            + "]"@);
    }
}

/// Law: where the element of the window lies in its frame is the distance from the
/// corner of the frame, if the place on the screen is told and lies in the frame;
/// else it is not known.  Then the walk begins.
pub proof fn walks_begin_where_the_window_is(
    t: Target,
    top: AccRef,
    rect: Option<(i32, i32, i32, i32)>,
)
    requires
        (QueryView::Measuring { t, top }).admits(UiEvent::Screen(rect)),
    ensures
        ({
            let q = (QueryView::Measuring { t, top }).told(UiEvent::Screen(rect));
            &&& q is Walking
            &&& q->Walking_id == t.id
            &&& q->Walking_goal == t.goal
            &&& q->walk.phase == (Phase::Looking { at: top, depth: 0 })
            &&& match (rect, frame_rect(t.win@)) {
                (Some(r), Some(f)) => if f.0 <= r.0 < f.0 + f.2 && f.1 <= r.1 < f.1 + f.3 {
                    q->Walking_off matches Some(d) && f.0 + d.0 == r.0 && f.1 + d.1 == r.1
                } else {
                    q->Walking_off is None
                },
                _ => q->Walking_off is None,
            }
        }),
{
}

/// Law: what was found is shown as a tree or as a search, whichever was asked for,
/// with the id of the window, and with the pattern and the role of the request.
pub proof fn findings_are_shown_as_asked_for(
    id: WindowId,
    off: Option<(i32, i32)>,
    nodes: Seq<UiNode>,
    truncated: bool,
    depth: Option<u32>,
    all: bool,
    pattern: String,
    role: String,
)
    ensures
        ({
            let tree = QueryView::Walked {
                id,
                off,
                goal: UiGoal::Tree { depth, all },
                nodes,
                truncated,
            };
            let any_role = QueryView::Walked {
                id,
                off,
                goal: UiGoal::Find { pattern, role: None },
                nodes,
                truncated,
            };
            let one_role = QueryView::Walked {
                id,
                off,
                goal: UiGoal::Find { pattern, role: Some(role) },
                nodes,
                truncated,
            };
            &&& tree.told(UiEvent::Show) == (QueryView::Over {
                outcome: Ok(
                    ResponseView::Done {
                        detail: Some(tree_text(id.number(), off, nodes, truncated)),
                        paths: None,
                    },
                ),
            })
            &&& any_role.told(UiEvent::Show) == (QueryView::Over {
                outcome: find_outcome(id.number(), off, nodes, truncated, pattern@, None),
            })
            &&& one_role.told(UiEvent::Show) == (QueryView::Over {
                outcome: find_outcome(id.number(), off, nodes, truncated, pattern@, Some(role@)),
            })
            &&& tree.admits(UiEvent::Show) == tree_fits(nodes, off)
            &&& any_role.admits(UiEvent::Show) == find_fits(nodes, off, pattern@, None)
            &&& one_role.admits(UiEvent::Show) == find_fits(nodes, off, pattern@, Some(role@))
        }),
{
}

/// Law: a query can be told anything, unless it would have to calculate a place that
/// is too far away.
pub proof fn queries_can_be_told(q: QueryView, event: UiEvent)
    ensures
        !(q is Measuring && event is Screen) && !(q is Walked && event is Show) ==> q.admits(event),
        q matches QueryView::Measuring { t, top } ==> event matches UiEvent::Screen(Some(r)) ==> (
        q.admits(event) <==> (frame_rect(t.win@) matches Some(f) ==> f.0 <= r.0 < f.0 + f.2 && f.1
            <= r.1 < f.1 + f.3 ==> r.0 - f.0 <= 0x7fff_ffff && r.1 - f.1 <= 0x7fff_ffff)),
        q is Measuring && event == UiEvent::Screen(None) ==> q.admits(event),
{
}

/// Law: a query asks for what it needs next: of the first application, or the first
/// element at the top, that it does not know of yet; and of the element that its walk
/// has come to.  What lies below an element is asked for just where the walk goes
/// deeper.
pub proof fn queries_ask_for_what_comes_next(q: QueryView, ask: UiAsk<'_>)
    ensures
        q.asks(ask) <==> match q {
            QueryView::Listing { sel, goal } => ask is Windows,
            QueryView::Registry { t } => ask is Applications,
            QueryView::Process { t, apps, facts } => ask matches UiAsk::Process(r) && *r
                == apps[facts.len() as int],
            QueryView::AppName { t, apps, facts, pid } => ask matches UiAsk::Name(r) && *r
                == apps[facts.len() as int],
            QueryView::Tops { t, apps, at } => ask matches UiAsk::Children(r) && *r == apps[at],
            QueryView::Naming { t, tops, names } => ask matches UiAsk::Name(r) && *r
                == tops[names.len() as int],
            QueryView::Checking { t, tops, names, checked, seen } => ask matches UiAsk::State(r)
                && *r == tops[checked],
            QueryView::Measuring { t, top } => ask matches UiAsk::Screen(r) && *r == top,
            QueryView::Walking { id, off, goal, walk } => match walk.phase {
                Phase::Looking { at, depth } => ask matches UiAsk::State(r) && *r == at,
                Phase::Reading { at, depth, showing } => ask matches UiAsk::Details(r, deeper)
                    && *r == at && deeper == (depth < walk.max_depth),
                Phase::Over { truncated } => ask is Nothing,
            },
            QueryView::Walked { id, off, goal, nodes, truncated } => ask is Show,
            QueryView::Over { outcome } => ask is Nothing,
        },
{
}

/// Law: words of a state, outcomes and answers are taken as they are.
pub proof fn values_are_taken_as_they_are(words: Vec<u32>, r: Response, e: String)
    ensures
        word_seq(Some(words)) == Some(words@),
        word_seq(None) is None,
        outcome_view(Ok(r)) == Ok::<ResponseView, Seq<char>>(r@),
        outcome_view(Err(e)) == Err::<ResponseView, Seq<char>>(e@),
        r matches Response::Failed { error } ==> r@ == (ResponseView::Failed { error: error@ }),
        r matches Response::Done { detail: Some(d), paths: None } ==> r@ == (ResponseView::Done {
            detail: Some(d@),
            paths: None,
        }),
        r matches Response::Done { detail: None, paths: Some(p) } ==> r@ == (ResponseView::Done {
            detail: None,
            paths: Some(texts(p@)),
        }),
        r matches Response::Done { detail: None, paths: None } ==> r@ == (ResponseView::Done {
            detail: None,
            paths: None,
        }),
{
}

/// Law: what a query has not asked for leaves it as it is.
pub proof fn queries_pass_over_what_they_did_not_ask_for(q: QueryView, event: UiEvent)
    requires
        !(event is Failed),
        !(q is Listing && event is Windows),
        !((q is Registry || q is Tops) && event is Children),
        !(q is Process && event is Process),
        !((q is AppName || q is Naming) && event is Name),
        !((q is Checking || q is Walking) && event is State),
        !(q is Measuring && event is Screen),
        !(q is Walking && event is Details),
        !(q is Walked && event is Show),
    ensures
        q.told(event) == q,
{
}

} // verus!
