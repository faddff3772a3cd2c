//! Queries for the elements of windows.

use std::collections::HashMap;

use wayland_agent::a11y::{
    a11y_find_apps, a11y_frame_offset, acc_children, acc_name, acc_role, acc_showing, can_offset,
    names_overlap, AccRef, AppFacts,
};
use wayland_agent::dict::{Scalar, Value, WindowDict};
use wayland_agent::protocol::Response;
use wayland_agent::query::{Query, UiAsk, UiEvent, UiGoal};
use wayland_agent::ui::{
    can_center, can_show_hits, can_show_tree, can_translate, test_goes_with, ui_coord_header,
    ui_find, ui_translate, ui_tree, UiNode,
};
use wayland_agent::window::WindowId;
use wayland_agent::walk::{Details, Phase, Walk, UI_DEFAULT_DEPTH, UI_WALK_BUDGET};

fn text(s: &str) -> Value {
    Value { scalar: Scalar::Str(s.into()), debug: String::new() }
}

fn whole(n: i64) -> Value {
    Value { scalar: Scalar::I64(n), debug: format!("I64({n})") }
}

fn window(id: i64, title: &str, class: &str, pid: Option<i64>) -> WindowDict {
    let mut w = WindowDict::new();
    w.insert("id".into(), whole(id));
    w.insert("title".into(), text(title));
    w.insert("wm_class".into(), text(class));
    w.insert("app_id".into(), text(""));
    if let Some(pid) = pid {
        w.insert("pid".into(), whole(pid));
    }
    for (key, n) in [("frame_x", 100), ("frame_y", 200), ("frame_w", 50), ("frame_h", 60)] {
        w.insert(key.into(), whole(n));
    }
    w
}

fn acc(path: &str) -> AccRef {
    AccRef { dest: ":1".into(), path: path.into() }
}

/// An element of an application that is made up.
#[derive(Clone)]
struct Element {
    role: &'static str,
    name: &'static str,
    rect: Option<(i32, i32, i32, i32)>,
    showing: bool,
    kids: Vec<&'static str>,
}

fn element(
    role: &'static str,
    name: &'static str,
    showing: bool,
    kids: &[&'static str],
) -> Element {
    Element { role, name, rect: Some((1, 2, 30, 41)), showing, kids: kids.to_vec() }
}

/// A desktop that is made up.
struct Desktop {
    windows: Vec<WindowDict>,
    elements: HashMap<&'static str, Element>,
    pids: HashMap<&'static str, u32>,
    screen: Option<(i32, i32, i32, i32)>,
    asked: Vec<String>,
}

const SHOWING: u32 = 1 << 25;

impl Desktop {
    fn kids(&self, path: &str) -> Result<Vec<AccRef>, String> {
        match self.elements.get(path) {
            Some(e) => Ok(e.kids.iter().map(|k| acc(k)).collect()),
            None => Err("no such element".into()),
        }
    }

    fn answer(&mut self, ask: UiAsk<'_>) -> UiEvent {
        self.asked.push(format!("{ask:?}"));
        match ask {
            UiAsk::Windows => UiEvent::Windows(Ok(std::mem::take(&mut self.windows))),
            UiAsk::Applications => UiEvent::Children(self.kids("/root")),
            UiAsk::Process(r) => UiEvent::Process(self.pids.get(r.path.as_str()).copied()),
            UiAsk::Name(r) => UiEvent::Name(acc_name(
                self.elements.get(r.path.as_str()).map(|e| e.name.to_string()),
            )),
            UiAsk::Children(r) => UiEvent::Children(self.kids(&r.path)),
            UiAsk::State(r) => UiEvent::State(
                self.elements
                    .get(r.path.as_str())
                    .map(|e| vec![if e.showing { SHOWING } else { 0 }, 7]),
            ),
            UiAsk::Screen(_) => UiEvent::Screen(self.screen),
            UiAsk::Details(r, below) => {
                let e = self.elements[r.path.as_str()].clone();
                UiEvent::Details(Details {
                    role: acc_role(Some(e.role.to_string())),
                    name: acc_name(Some(e.name.to_string())),
                    rect: e.rect,
                    children: if below { self.kids(&r.path).ok() } else { None },
                })
            }
            UiAsk::Show | UiAsk::Nothing => UiEvent::Show,
        }
    }

    fn run(&mut self, sel: &str, goal: UiGoal) -> Result<Response, String> {
        let mut query = Query::new(sel.into(), goal);
        while !query.is_over() {
            let event = self.answer(query.ask());
            query = query.step(event).unwrap();
        }
        query.outcome().unwrap()
    }
}

fn desktop(elements: Vec<(&'static str, Element)>) -> Desktop {
    Desktop {
        windows: vec![window(9, "Notes", "org.Editor", Some(77))],
        elements: elements.into_iter().collect(),
        pids: HashMap::from([("/app", 77)]),
        screen: Some((104, 206, 5, 5)),
        asked: vec![],
    }
}

fn small_desktop() -> Desktop {
    desktop(vec![
        ("/root", element("desktop", "main", true, &["/org/a11y/atspi/null", "/app"])),
        ("/app", element("application", "editor", true, &["/win"])),
        ("/win", element("frame", "Notes", true, &["/a", "/menu", "/b"])),
        ("/a", element("button", "Save \"it\"", true, &[])),
        ("/menu", element("menu", "File", false, &["/item"])),
        ("/item", element("menu item", "Save", true, &[])),
        ("/b", element("panel", "", true, &["/c"])),
        ("/c", element("label", "Deep", true, &[])),
    ])
}

fn detail(r: Result<Response, String>) -> String {
    match r {
        Ok(Response::Done { detail: Some(d), paths: None }) => d,
        other => panic!("{other:?}"),
    }
}

#[test]
fn trees_are_shown() {
    let mut d = small_desktop();
    let tree = detail(d.run("notes", UiGoal::Tree { depth: None, all: false }));
    assert_eq!(
        tree,
        "coords are relative to window 9's frame — click with `click-in 9 <x> <y>`\n\
         frame \"Notes\" (5,8 30x41)\n  button \"Save \\\"it\\\"\" (5,8 30x41)\n  panel (5,8 30x41)\n    label \"Deep\" (5,8 30x41)"
    );
    // What lies below a hidden element is not asked for.
    assert!(!d.asked.iter().any(|a| a.contains("/item")));
    // The name of an application of the process of the window is not asked for.
    assert!(!d.asked.iter().any(|a| a.starts_with("Name") && a.contains("/app")));
}

#[test]
fn trees_end_at_a_depth() {
    let tree = detail(small_desktop().run("9", UiGoal::Tree { depth: Some(1), all: true }));
    assert!(tree.ends_with(
        "\n  button \"Save \\\"it\\\"\" (5,8 30x41)\n  menu \"File\" [hidden]\n  panel (5,8 30x41)"
    ), "{tree}");
    let tree = detail(small_desktop().run("9", UiGoal::Tree { depth: Some(0), all: true }));
    assert_eq!(tree.lines().count(), 2);
}

#[test]
fn elements_are_found() {
    let goal = |pattern: &str, role: Option<&str>| UiGoal::Find {
        pattern: pattern.into(),
        role: role.map(|r| r.to_string()),
    };
    assert_eq!(
        detail(small_desktop().run("9", goal("SAVE", None))),
        "coords are relative to window 9's frame — click with `click-in 9 <x> <y>`\n\
         button \"Save \\\"it\\\"\" center=(20,28) rect=(5,8 30x41)\n\
         menu item \"Save\" center=(20,28) rect=(5,8 30x41)"
    );
    let found = detail(small_desktop().run("9", goal("", Some("MENU"))));
    assert!(
        found.ends_with("\nmenu \"File\" [hidden — open its menu/pane first, then re-run]"),
        "{found}"
    );
    assert_eq!(detail(small_desktop().run("9", goal("", None))).lines().count(), 7);
    assert_eq!(
        small_desktop().run("9", goal("quit", Some("button"))).unwrap_err(),
        "no UI element matched name \"quit\" with role \"button\" in window 9 — run `ui-tree 9` to see what the app exposes"
    );
    assert_eq!(
        small_desktop().run("9", goal("quit", None)).unwrap_err(),
        "no UI element matched name \"quit\" in window 9 — run `ui-tree 9` to see what the app exposes"
    );
}

#[test]
fn places_that_cannot_be_trusted_are_not_translated() {
    let mut d = small_desktop();
    d.screen = Some((0, 0, 5, 5));
    let tree = detail(d.run("9", UiGoal::Tree { depth: Some(0), all: false }));
    assert_eq!(
        tree,
        "coords are relative to the app's a11y toplevel (its screen position is unverifiable — typical for Wayland-native apps); for CSD apps this usually equals window 9's frame space (`click-in 9 <x> <y>`) — verify against a screenshot\n\
         frame \"Notes\" (1,2 30x41)"
    );
}

#[test]
fn the_window_with_the_title_is_taken() {
    let mut d = small_desktop();
    d.elements.get_mut("/app").unwrap().kids = vec!["/b", "/win", "/a"];
    let tree = detail(d.run("9", UiGoal::Tree { depth: Some(0), all: false }));
    assert!(tree.contains("\nframe \"Notes\""), "{tree}");
    assert!(!d.asked.iter().any(|a| a.starts_with("Name") && a.contains("/a\"")));
}

#[test]
fn without_the_title_the_only_shown_window_is_taken() {
    let mut d = small_desktop();
    d.elements.get_mut("/app").unwrap().kids = vec!["/menu", "/b"];
    let tree = detail(d.run("9", UiGoal::Tree { depth: Some(0), all: false }));
    assert!(tree.ends_with("\npanel (5,8 30x41)"), "{tree}");
    let mut d = small_desktop();
    d.elements.get_mut("/app").unwrap().kids = vec!["/a", "/b"];
    assert_eq!(
        d.run("9", UiGoal::Tree { depth: None, all: false }).unwrap_err(),
        "none of the app's 2 a11y toplevels matches title \"Notes\": [\"Save \\\"it\\\"\", \"\"]"
    );
}

#[test]
fn the_first_application_with_windows_counts() {
    let mut d = small_desktop();
    d.elements.get_mut("/root").unwrap().kids = vec!["/proxy", "/app"];
    d.elements.insert("/proxy", element("application", "", true, &[]));
    d.pids = HashMap::from([("/app", 77), ("/proxy", 77)]);
    let tree = detail(d.run("9", UiGoal::Tree { depth: Some(0), all: false }));
    assert!(tree.contains("\nframe \"Notes\""), "{tree}");
    d = small_desktop();
    d.elements.get_mut("/app").unwrap().kids = vec![];
    assert_eq!(
        d.run("9", UiGoal::Tree { depth: None, all: false }).unwrap_err(),
        "application exposes no windows on the a11y bus"
    );
    d = small_desktop();
    d.elements.remove("/app");
    assert_eq!(
        d.run("9", UiGoal::Tree { depth: None, all: false }).unwrap_err(),
        "list application toplevels: no such element"
    );
    d = small_desktop();
    d.elements.remove("/root");
    assert_eq!(
        d.run("9", UiGoal::Tree { depth: None, all: false }).unwrap_err(),
        "list AT-SPI applications: no such element"
    );
}

#[test]
fn applications_are_found_by_name() {
    let mut d = small_desktop();
    d.pids = HashMap::new();
    let tree = detail(d.run("9", UiGoal::Tree { depth: Some(0), all: false }));
    assert!(tree.contains("\nframe \"Notes\""), "{tree}");
    let mut d = small_desktop();
    d.pids = HashMap::new();
    d.elements.get_mut("/app").unwrap().name = "Firefox";
    assert_eq!(
        d.run("9", UiGoal::Tree { depth: None, all: false }).unwrap_err(),
        "no AT-SPI application matches this window (pid Some(77)) — the app probably doesn't expose accessibility info (SDL/emulator/custom-toolkit apps don't). Apps currently on the a11y bus: Firefox"
    );
    let mut d = small_desktop();
    d.windows = vec![window(9, "Notes", "", None)];
    d.elements.get_mut("/root").unwrap().kids = vec![];
    assert_eq!(
        d.run("9", UiGoal::Tree { depth: None, all: false }).unwrap_err(),
        "no AT-SPI application matches this window (pid None) — the app probably doesn't expose accessibility info (SDL/emulator/custom-toolkit apps don't). Apps currently on the a11y bus: none"
    );
}

#[test]
fn queries_need_a_window() {
    let mut d = small_desktop();
    assert_eq!(
        d.run("calc", UiGoal::Tree { depth: None, all: false }).unwrap_err(),
        "no window matched \"calc\""
    );
    let query = Query::new("x".into(), UiGoal::Tree { depth: None, all: false });
    let query = query.tell(UiEvent::Windows(Err("off".into())));
    assert!(query.outcome().unwrap().unwrap_err().starts_with(
        "GetWindows on com.mxshift.WaylandAgent failed: off\n"
    ));
    let query = Query::new("x".into(), UiGoal::Tree { depth: None, all: false });
    let query = query.tell(UiEvent::Show);
    assert!(!query.is_over());
    let query = query.tell(UiEvent::Failed("bus".into()));
    assert!(query.is_over());
    assert_eq!(query.outcome().unwrap().unwrap_err(), "bus");
}

#[test]
fn processes_come_before_names() {
    let win = window(1, "t", "Edit", Some(5));
    let app = |path: &str, pid: Option<u32>, name: Option<&str>| AppFacts {
        acc: acc(path),
        pid,
        name: name.map(|n| n.to_string()),
    };
    let found = a11y_find_apps(
        &win,
        vec![
            app("/n", Some(6), Some("org.EDIT.app")),
            app("/x", None, Some("other")),
            app("/e", Some(9), Some("")),
            app("/p", Some(5), None),
            app("/m", None, Some("di")),
        ],
    )
    .unwrap();
    let paths: Vec<&str> = found.iter().map(|r| r.path.as_str()).collect();
    assert_eq!(paths, vec!["/p", "/n", "/m"]);
    let win = window(1, "t", "Edit", Some(5 + (1 << 32)));
    assert!(a11y_find_apps(&win, vec![app("/p", Some(5), Some("other"))]).is_err());
}

#[test]
fn offsets_lie_in_the_frame() {
    let win = window(1, "t", "c", None);
    assert_eq!(a11y_frame_offset(Some((100, 200)), &win), Some((0, 0)));
    assert_eq!(a11y_frame_offset(Some((149, 259)), &win), Some((49, 59)));
    assert_eq!(a11y_frame_offset(Some((150, 200)), &win), None);
    assert_eq!(a11y_frame_offset(Some((99, 200)), &win), None);
    assert_eq!(a11y_frame_offset(Some((100, 260)), &win), None);
    assert_eq!(a11y_frame_offset(None, &win), None);
    assert_eq!(a11y_frame_offset(Some((0, 0)), &WindowDict::new()), None);
    assert_eq!(a11y_frame_offset(Some((i32::MIN, 0)), &win), None);
    assert!(can_offset(Some((i32::MIN, 0)), &win));
    let mut wide = window(1, "t", "c", None);
    wide.insert("frame_x".into(), whole(100 + (1 << 32)));
    assert_eq!(a11y_frame_offset(Some((100, 200)), &wide), None);
    wide.insert("frame_x".into(), whole(-(1 << 32)));
    assert!(can_offset(Some((100, 200)), &wide));
    wide.insert("frame_w".into(), whole(1 << 40));
    assert!(!can_offset(Some((100, 200)), &wide));
}

#[test]
fn elements_are_read() {
    let kept = acc_children(vec![acc("/a"), acc("/org/a11y/atspi/null"), acc("/b")]);
    assert_eq!(kept.len(), 2);
    assert_eq!(kept[1].path, "/b");
    assert!(acc_showing(Some(vec![SHOWING | 1, 0])));
    assert!(!acc_showing(Some(vec![!SHOWING, SHOWING])));
    assert!(acc_showing(Some(vec![])));
    assert!(acc_showing(None));
    assert_eq!(acc_role(None), "?");
    assert_eq!(acc_role(Some("menu".into())), "menu");
    assert_eq!(acc_name(None), "");
    assert_eq!(acc_name(Some("n".into())), "n");
}

fn node(depth: usize, name: &str, showing: bool, rect: Option<(i32, i32, i32, i32)>) -> UiNode {
    UiNode { depth, role: "r".into(), name: name.into(), rect, showing }
}

#[test]
fn places_are_translated() {
    assert_eq!(ui_translate((1, 2, 3, 4), Some((10, 20))), (11, 22, 3, 4));
    assert_eq!(ui_translate((1, 2, 3, 4), None), (1, 2, 3, 4));
    assert!(can_translate((i32::MAX, 0, 0, 0), None));
    assert!(!can_translate((i32::MAX, 0, 0, 0), Some((1, 0))));
    assert!(!can_translate((0, i32::MIN, 0, 0), Some((0, -1))));
    assert!(!can_center((i32::MAX, 0, 2, 0), None));
    assert!(can_center((i32::MAX, 0, 1, 0), None));
    assert!(ui_coord_header(-1, None).contains("(`click-in -1 <x> <y>`)"));
    assert!(ui_coord_header(4, Some((0, 0))).contains("window 4's frame — click with `click-in 4"));
    let far = vec![node(0, "n", true, Some((i32::MAX, 0, 9, 9)))];
    assert!(!can_show_tree(&far, Some((1, 1))));
    assert!(can_show_tree(&far, None));
    assert!(!can_show_hits(&far, None, "N", None));
    assert!(can_show_hits(&far, None, "x", None));
    let hidden = vec![node(0, "n", false, Some((i32::MAX, 0, 9, 9)))];
    assert!(can_show_tree(&hidden, Some((1, 1))));
    assert!(can_show_hits(&hidden, Some((1, 1)), "n", Some("r")));
}

#[test]
fn centers_are_cut_towards_zero() {
    let nodes = vec![node(0, "n", true, Some((0, 0, -3, 5)))];
    let found = detail(ui_find(WindowId::Unsigned(1), None, &nodes, false, "", None));
    assert!(found.contains(" center=(-1,2) rect=(0,0 -3x5)"), "{found}");
}

#[test]
fn truncation_is_told() {
    let nodes = vec![node(2, "", true, None)];
    match ui_tree(WindowId::Unsigned(1), Some((0, 0)), &nodes, true) {
        Response::Done { detail: Some(d), .. } => assert!(
            d.ends_with("\n    r\n... truncated at 5000 elements — use --depth or ui-find"),
            "{d}"
        ),
        other => panic!("{other:?}"),
    }
    let found = detail(ui_find(WindowId::Unsigned(1), None, &nodes, true, "", None));
    assert!(
        found.ends_with("\nr \"\"\n... walk truncated — matches beyond the budget were not seen"),
        "{found}"
    );
    assert_eq!(
        ui_find(WindowId::Unsigned(1), None, &nodes, true, "zz", None).unwrap_err(),
        "no UI element matched name \"zz\" in window 1 (walk truncated — the tree is very large) — run `ui-tree 1` to see what the app exposes"
    );
}

/// Walks through a tree in which every element has as many children.
fn walk_through(width: usize, max_depth: usize) -> (Vec<UiNode>, bool, usize) {
    let mut walk = Walk::new(acc("/"), max_depth, true);
    let mut visits = 0;
    loop {
        walk = match walk.phase() {
            Phase::Over { .. } => break,
            Phase::Looking { .. } => {
                visits += 1;
                walk.on_state(Some(vec![SHOWING]))
            }
            Phase::Reading { at, .. } => {
                let path = at.path.clone();
                let children = if walk.wants_children() {
                    Some((0..width).map(|i| acc(&format!("{path}{i}"))).collect())
                } else {
                    None
                };
                walk.on_details(Details {
                    role: "r".into(),
                    name: path,
                    rect: None,
                    children,
                })
            }
        };
    }
    let (nodes, truncated) = walk.finish();
    (nodes, truncated, visits)
}

#[test]
fn walks_are_depth_first() {
    let (nodes, truncated, visits) = walk_through(2, 2);
    let names: Vec<&str> = nodes.iter().map(|n| n.name.as_str()).collect();
    assert_eq!(names, vec!["/", "/0", "/00", "/01", "/1", "/10", "/11"]);
    let depths: Vec<usize> = nodes.iter().map(|n| n.depth).collect();
    assert_eq!(depths, vec![0, 1, 2, 2, 1, 2, 2]);
    assert!(!truncated);
    assert_eq!(visits, 7);
}

#[test]
fn walks_have_a_budget() {
    assert_eq!(UI_WALK_BUDGET, 5000);
    assert_eq!(UI_DEFAULT_DEPTH, 40);
    let (nodes, truncated, visits) = walk_through(4999, 1);
    assert_eq!((nodes.len(), truncated, visits), (5000, false, 5000));
    let (nodes, truncated, visits) = walk_through(5000, 1);
    assert_eq!((nodes.len(), truncated, visits), (5000, true, 5000));
}

#[test]
fn places_that_are_too_far_are_noticed() {
    let mut d = small_desktop();
    d.elements.get_mut("/win").unwrap().rect = Some((i32::MAX, 0, 1, 1));
    let mut query = Query::new("9".into(), UiGoal::Tree { depth: None, all: false });
    let mut steps = 0;
    loop {
        let event = d.answer(query.ask());
        let last = matches!(query.ask(), UiAsk::Show);
        assert_eq!(query.can_tell(&event), !last);
        match query.step(event) {
            Some(next) => query = next,
            None => break,
        }
        steps += 1;
    }
    assert!(steps > 10);
}

#[test]
fn lowered_texts_decide() {
    assert!(names_overlap("org.editor", "editor"));
    assert!(names_overlap("edit", "editor"));
    assert!(names_overlap("edit", ""));
    assert!(!names_overlap("", "editor"));
    assert!(!names_overlap("edit", "firefox"));
    assert!(test_goes_with("save as", "button", "save", None));
    assert!(test_goes_with("save as", "button", "", Some("button")));
    assert!(!test_goes_with("save as", "button", "", Some("butto")));
    assert!(!test_goes_with("save as", "button", "open", None));
}

#[test]
fn ids_are_told_as_they_are() {
    let nodes = vec![node(0, "n", true, None)];
    let found = |id: WindowId| detail(ui_find(id, Some((0, 0)), &nodes, false, "N", None));
    assert!(found(WindowId::Unsigned(u64::MAX)).contains("`click-in 18446744073709551615 <x> <y>`"));
    assert!(found(WindowId::Signed(-1)).contains("`click-in -1 <x> <y>`"));
    let mut d = small_desktop();
    d.windows[0].insert(
        "id".into(),
        Value { scalar: Scalar::U64(u64::MAX), debug: String::new() },
    );
    let tree = detail(
        d.run("18446744073709551615", UiGoal::Tree { depth: Some(0), all: false }),
    );
    assert!(tree.contains("`click-in 18446744073709551615 <x> <y>`"), "{tree}");
}
