//! The elements of windows, as the accessibility bus tells of them.
//!
//! Elements are found through the application that a window belongs to.  Their
//! places are told relative to the window; where the application's idea of the
//! screen can be trusted they are translated to the frame of the window.

use vstd::prelude::*;
use vstd::string::*;

use crate::dict::{Value, WindowDict};
use crate::number::{decimal, show_i64};
use crate::text::{
    ascii_lowered, contains_text, is_ascii_text, join, joined, lowercase, occurs, same, texts,
    to_lower,
};
use crate::window::{dict_i64, int_field, is_ascii_field, rendered, render_value};

verus! {

// ---------------------------------------------------------------------------
// References to elements
// ---------------------------------------------------------------------------

/// An element: the connection that it lives on and its path there.
#[derive(Debug)]
pub struct AccRef {
    pub dest: String,
    pub path: String,
}

impl AccRef {
    /// The same element again.
    pub fn copy(&self) -> (r: AccRef)
        ensures
            r == *self,
    {
        AccRef { dest: self.dest.clone(), path: self.path.clone() }
    }
}

/// Whether a reference stands for an element.
pub open spec fn is_element(r: AccRef) -> bool {
    r.path@ != "/org/a11y/atspi/null"@
}

/// The references that stand for elements.
pub open spec fn elements(refs: Seq<AccRef>) -> Seq<AccRef> {
    refs.filter(|r: AccRef| is_element(r))
}

/// Keeps the references that stand for elements.
pub fn acc_children(refs: Vec<AccRef>) -> (kept: Vec<AccRef>)
    ensures
        kept@ == elements(refs@),
{
    let ghost all = refs@;
    let ghost pred = |r: AccRef| is_element(r);
    let mut kept: Vec<AccRef> = Vec::new();
    proof {
        reveal(Seq::filter);
    }
    assert(all.take(0).filter(pred) =~= Seq::<AccRef>::empty());
    for r in it: refs
        invariant
            it.seq() == all,
            pred == (|r: AccRef| is_element(r)),
            kept@ == all.take(it.index()).filter(pred),
    {
        proof {
            reveal(Seq::filter);
        }
        assert(all.take(it.index() + 1).drop_last() =~= all.take(it.index()));
        assert(all.take(it.index() + 1).last() == r);
        if !same(r.path.as_str(), "/org/a11y/atspi/null") {
            kept.push(r);
        }
    }
    assert(all.take(all.len() as int) =~= all);
    kept
}

/// Whether the words of the state of an element say that it is shown.  An
/// element whose state cannot be read counts as shown.
pub open spec fn shown_by(words: Option<Seq<u32>>) -> bool {
    words matches Some(w) ==> w.len() > 0 ==> (w[0] / 0x200_0000) % 2 == 1
}

/// Reads from the words of its state whether an element is shown.
pub fn acc_showing(words: Option<Vec<u32>>) -> (r: bool)
    ensures
        r == shown_by(
            match words {
                Some(w) => Some(w@),
                None => None,
            },
        ),
{
    match words {
        Some(w) => {
            if w.len() == 0 {
                true
            } else {
                let first: u32 = w[0];
                assert((first & 0x200_0000u32 != 0) == ((first / 0x200_0000u32) % 2 == 1))
                    by (bit_vector);
                first & 0x200_0000 != 0
            }
        },
        None => true,
    }
}

/// The name of an element, as far as it can be read.
pub open spec fn name_read(name: Option<String>) -> Seq<char> {
    match name {
        Some(s) => s@,
        None => Seq::<char>::empty(),
    }
}

/// The role of an element, as far as it can be read.
pub open spec fn role_read(role: Option<String>) -> Seq<char> {
    match role {
        Some(s) => s@,
        None => "?"@,
    }
}

/// Reads the name of an element.  One that cannot be read is empty.
pub fn acc_name(name: Option<String>) -> (r: String)
    ensures
        r@ == name_read(name),
        match name {
            Some(s) => r == s,
            None => r@.len() == 0,
        },
{
    match name {
        Some(s) => s,
        None => {
            let r: String = String::new();
            assert(r@ =~= Seq::<char>::empty());
            r
        },
    }
}

/// Reads the role of an element.  One that cannot be read is a question mark.
pub fn acc_role(role: Option<String>) -> (r: String)
    ensures
        r@ == role_read(role),
        match role {
            Some(s) => r == s,
            None => r@ == "?"@,
        },
{
    match role {
        Some(s) => s,
        None => "?".to_owned(),
    }
}

// ---------------------------------------------------------------------------
// The application of a window
// ---------------------------------------------------------------------------

/// What is known of an application on the bus.
#[derive(Debug)]
pub struct AppFacts {
    pub acc: AccRef,
    /// The process of its connection, if it is known.
    pub pid: Option<u32>,
    /// Its name, if it was asked for.
    pub name: Option<String>,
}

impl AppFacts {
    /// Its name, or nothing.
    pub open spec fn called(self) -> Seq<char> {
        match self.name {
            Some(s) => s@,
            None => Seq::<char>::empty(),
        }
    }
}

/// The process of a window, if the extension tells it.
pub open spec fn window_pid(w: Map<Seq<char>, Value>) -> Option<i64> {
    match int_field(w, "pid"@) {
        Ok(n) => Some(n),
        Err(_) => None,
    }
}

/// Finds the process of a window.
pub fn find_pid(w: &WindowDict) -> (r: Option<i64>)
    ensures
        r == window_pid(w@),
{
    match dict_i64(w, "pid") {
        Ok(n) => Some(n),
        Err(_) => None,
    }
}

/// Whether an application is of the process of a window.
pub open spec fn same_process(win_pid: Option<i64>, pid: Option<u32>) -> bool {
    win_pid is Some && pid is Some && win_pid->0 == pid->0
}

/// Tests whether an application is of the process of a window.  If it is, its
/// name does not matter.
pub fn is_same_process(win_pid: Option<i64>, pid: Option<u32>) -> (r: bool)
    ensures
        r == same_process(win_pid, pid),
{
    match (win_pid, pid) {
        (Some(p), Some(q)) => p == q as i64,
        _ => false,
    }
}

/// Whether two texts in lower case, the first of which is not empty, contain one
/// another.
pub open spec fn overlap(value: Seq<char>, name: Seq<char>) -> bool {
    value.len() > 0 && (occurs(value, name) || occurs(name, value))
}

/// Tests whether two texts in lower case contain one another.
pub fn names_overlap(value: &str, name: &str) -> (r: bool)
    ensures
        r == overlap(value@, name@),
{
    !value.is_empty() && (contains_text(value, name) || contains_text(name, value))
}

/// Whether a name and a value of a window contain one another, in any case.
pub open spec fn name_fits_field(
    w: Map<Seq<char>, Value>,
    key: Seq<char>,
    name: Seq<char>,
) -> bool {
    w.contains_key(key) && overlap(lowercase(rendered(w[key])), lowercase(name))
}

/// Whether the name of an application goes with the class or the application id
/// of a window.
pub open spec fn name_fits(w: Map<Seq<char>, Value>, name: Seq<char>) -> bool {
    name.len() > 0 && (name_fits_field(w, "wm_class"@, name) || name_fits_field(
        w,
        "app_id"@,
        name,
    ))
}

/// Whether the name of an application, and what it is compared with, are ASCII
/// texts.
pub open spec fn is_ascii_naming(w: Map<Seq<char>, Value>, name: Seq<char>) -> bool {
    is_ascii_text(name) && is_ascii_field(w, "wm_class"@) && is_ascii_field(w, "app_id"@)
}

/// Whether a name and a value of a window contain one another, the ASCII letters
/// of both in lower case.
pub open spec fn ascii_fits_field(
    w: Map<Seq<char>, Value>,
    key: Seq<char>,
    name: Seq<char>,
) -> bool {
    w.contains_key(key) && overlap(ascii_lowered(rendered(w[key])), ascii_lowered(name))
}

/// Whether the name of an application goes with the class or the application id
/// of a window, the ASCII letters of all of them in lower case.
pub open spec fn ascii_fits(w: Map<Seq<char>, Value>, name: Seq<char>) -> bool {
    name.len() > 0 && (ascii_fits_field(w, "wm_class"@, name) || ascii_fits_field(
        w,
        "app_id"@,
        name,
    ))
}

fn test_name_fits_field(w: &WindowDict, key: &str, lower_name: &str) -> (r: bool)
    ensures
        r == (w@.contains_key(key@) && overlap(lowercase(rendered(w@[key@])), lower_name@)),
        w@.contains_key(key@) && is_ascii_text(rendered(w@[key@])) ==> lowercase(
            rendered(w@[key@]),
        ) == ascii_lowered(rendered(w@[key@])),
{
    match w.get(key) {
        Some(v) => names_overlap(to_lower(render_value(v).as_str()).as_str(), lower_name),
        None => false,
    }
}

/// Tests whether the name of an application goes with a window.
pub fn test_name_fits(w: &WindowDict, name: &str) -> (r: bool)
    ensures
        r == name_fits(w@, name@),
        is_ascii_naming(w@, name@) ==> r == ascii_fits(w@, name@),
{
    if name.is_empty() {
        return false;
    }
    let lower: String = to_lower(name);
    test_name_fits_field(w, "wm_class", lower.as_str()) || test_name_fits_field(
        w,
        "app_id",
        lower.as_str(),
    )
}

/// Whether an application is found by its process.
pub open spec fn by_process(w: Map<Seq<char>, Value>, a: AppFacts) -> bool {
    same_process(window_pid(w), a.pid)
}

/// Whether an application is found by its name.
pub open spec fn by_name(w: Map<Seq<char>, Value>, a: AppFacts) -> bool {
    !by_process(w, a) && name_fits(w, a.called())
}

/// Whether an application has a name but is not found.
pub open spec fn passed_over(w: Map<Seq<char>, Value>, a: AppFacts) -> bool {
    !by_process(w, a) && a.called().len() > 0 && !name_fits(w, a.called())
}

/// The applications that could be that of a window, the best first: those of
/// its process, then those that go by its name.
pub open spec fn candidates(w: Map<Seq<char>, Value>, apps: Seq<AppFacts>) -> Seq<AccRef> {
    apps.filter(|a: AppFacts| by_process(w, a)).map_values(|a: AppFacts| a.acc) + apps.filter(
        |a: AppFacts| by_name(w, a),
    ).map_values(|a: AppFacts| a.acc)
}

/// The names of the applications that are not found.
pub open spec fn other_names(w: Map<Seq<char>, Value>, apps: Seq<AppFacts>) -> Seq<Seq<char>> {
    apps.filter(|a: AppFacts| passed_over(w, a)).map_values(|a: AppFacts| a.called())
}

/// An optional number as it is shown to a programmer.
pub open spec fn option_text(n: Option<i64>) -> Seq<char> {
    match n {
        Some(n) => "Some("@ + decimal(n as int) + ")"@,
        None => "None"@,
    }
}

/// What is said of a window whose application is not found.
pub open spec fn no_app(w: Map<Seq<char>, Value>, apps: Seq<AppFacts>) -> Seq<char> {
    "no AT-SPI application matches this window (pid "@ + option_text(window_pid(w))
        + ") — the app probably doesn't expose accessibility info (SDL/emulator/custom-toolkit apps don't). Apps currently on the a11y bus: "@
        + (if other_names(w, apps).len() == 0 {
        "none"@
    } else {
        joined(other_names(w, apps), ", "@)
    })
}

/// What comes of looking for the application of a window.
pub open spec fn apps_outcome(w: Map<Seq<char>, Value>, apps: Seq<AppFacts>) -> Result<
    Seq<AccRef>,
    Seq<char>,
> {
    if candidates(w, apps).len() == 0 {
        Err(no_app(w, apps))
    } else {
        Ok(candidates(w, apps))
    }
}

proof fn filter_step<A>(all: Seq<A>, i: int, pred: spec_fn(A) -> bool)
    requires
        0 <= i < all.len(),
    ensures
        all.take(i + 1).filter(pred) == (if pred(all[i]) {
            all.take(i).filter(pred).push(all[i])
        } else {
            all.take(i).filter(pred)
        }),
{
    reveal(Seq::filter);
    assert(all.take(i + 1).drop_last() =~= all.take(i));
}

/// Finds the applications that could be that of a window.
pub fn a11y_find_apps(win: &WindowDict, apps: Vec<AppFacts>) -> (r: Result<Vec<AccRef>, String>)
    ensures
        match r {
            Ok(found) => apps_outcome(win@, apps@) == Ok::<Seq<AccRef>, Seq<char>>(found@),
            Err(e) => apps_outcome(win@, apps@) == Err::<Seq<AccRef>, Seq<char>>(e@),
        },
        forall|i: int|
            0 <= i < apps@.len() && is_ascii_naming(win@, (#[trigger] apps@[i]).called())
                ==> by_name(win@, apps@[i]) == (!by_process(win@, apps@[i]) && ascii_fits(
                win@,
                apps@[i].called(),
            )),
{
    let ghost all = apps@;
    let ghost p = |a: AppFacts| by_process(win@, a);
    let ghost n = |a: AppFacts| by_name(win@, a);
    let ghost o = |a: AppFacts| passed_over(win@, a);
    let win_pid: Option<i64> = find_pid(win);
    let mut of_process: Vec<AccRef> = Vec::new();
    let mut of_name: Vec<AccRef> = Vec::new();
    let mut names: Vec<String> = Vec::new();
    proof {
        reveal(Seq::filter);
        assert(all.take(0).filter(p).map_values(|a: AppFacts| a.acc) =~= Seq::<AccRef>::empty());
        assert(all.take(0).filter(n).map_values(|a: AppFacts| a.acc) =~= Seq::<AccRef>::empty());
        assert(all.take(0).filter(o).map_values(|a: AppFacts| a.called()) =~= texts(names@));
    }
    for a in it: apps
        invariant
            it.seq() == all,
            win_pid == window_pid(win@),
            p == (|a: AppFacts| by_process(win@, a)),
            n == (|a: AppFacts| by_name(win@, a)),
            o == (|a: AppFacts| passed_over(win@, a)),
            of_process@ == all.take(it.index()).filter(p).map_values(|a: AppFacts| a.acc),
            of_name@ == all.take(it.index()).filter(n).map_values(|a: AppFacts| a.acc),
            texts(names@) == all.take(it.index()).filter(o).map_values(|a: AppFacts| a.called()),
            forall|i: int|
                0 <= i < it.index() && is_ascii_naming(win@, (#[trigger] all[i]).called())
                    ==> by_name(win@, all[i]) == (!by_process(win@, all[i]) && ascii_fits(
                    win@,
                    all[i].called(),
                )),
    {
        proof {
            filter_step(all, it.index(), p);
            filter_step(all, it.index(), n);
            filter_step(all, it.index(), o);
        }
        assert(all[it.index()] == a);
        let ghost names_before = names@;
        let AppFacts { acc, pid, name } = a;
        if is_same_process(win_pid, pid) {
            of_process.push(acc);
            assert(of_process@ =~= all.take(it.index() + 1).filter(p).map_values(
                |a: AppFacts| a.acc,
            ));
        } else if let Some(name) = name {
            if name.as_str().is_empty() {
            } else if test_name_fits(win, name.as_str()) {
                of_name.push(acc);
                assert(of_name@ =~= all.take(it.index() + 1).filter(n).map_values(
                    |a: AppFacts| a.acc,
                ));
            } else {
                names.push(name);
                assert(texts(names@) =~= texts(names_before).push(name@));
                assert(texts(names@) =~= all.take(it.index() + 1).filter(o).map_values(
                    |a: AppFacts| a.called(),
                ));
            }
        }
    }
    assert(all.take(all.len() as int) =~= all);
    of_process.append(&mut of_name);
    assert(of_process@ == candidates(win@, all));
    if of_process.len() == 0 {
        let mut e: String = "no AT-SPI application matches this window (pid ".to_owned();
        let pid_text: String = match win_pid {
            Some(n) => {
                let mut t: String = "Some(".to_owned();
                t.append(show_i64(n).as_str());
                t.append(")");
                t
            },
            None => "None".to_owned(),
        };
        e.append(pid_text.as_str());
        e.append(
            ") — the app probably doesn't expose accessibility info (SDL/emulator/custom-toolkit apps don't). Apps currently on the a11y bus: ",
        );
        if names.len() == 0 {
            e.append("none");
        } else {
            e.append(join(&names, ", ").as_str());
        }
        return Err(e);
    }
    Ok(of_process)
}

// ---------------------------------------------------------------------------
// The place of an application on the screen
// ---------------------------------------------------------------------------

/// The frame of a window: place and size.
pub open spec fn frame_rect(w: Map<Seq<char>, Value>) -> Option<(i64, i64, i64, i64)> {
    match (
        int_field(w, "frame_x"@),
        int_field(w, "frame_y"@),
        int_field(w, "frame_w"@),
        int_field(w, "frame_h"@),
    ) {
        (Ok(x), Ok(y), Ok(wd), Ok(h)) => Some((x, y, wd, h)),
        _ => None,
    }
}

/// Reads the frame of a window.
pub fn read_frame_rect(w: &WindowDict) -> (r: Option<(i64, i64, i64, i64)>)
    ensures
        r == frame_rect(w@),
{
    match (
        dict_i64(w, "frame_x"),
        dict_i64(w, "frame_y"),
        dict_i64(w, "frame_w"),
        dict_i64(w, "frame_h"),
    ) {
        (Ok(x), Ok(y), Ok(wd), Ok(h)) => Some((x, y, wd, h)),
        _ => None,
    }
}

/// Whether a number is one that an `i32` holds.
pub open spec fn fits_i32(n: int) -> bool {
    i32::MIN <= n <= i32::MAX
}

/// Whether a place on the screen lies in the frame of a window.
pub open spec fn in_frame(s: (i32, i32), f: (i64, i64, i64, i64)) -> bool {
    0 <= s.0 - f.0 < f.2 && 0 <= s.1 - f.1 < f.3
}

/// Whether the distance of a place in the frame of a window from its corner is
/// one that an `i32` holds.
pub open spec fn offset_fits(
    screen: Option<(i32, i32)>,
    frame: Option<(i64, i64, i64, i64)>,
) -> bool {
    match (screen, frame) {
        (Some(s), Some(f)) => in_frame(s, f) ==> fits_i32(s.0 - f.0) && fits_i32(s.1 - f.1),
        _ => true,
    }
}

/// Where an element lies in the frame of a window, given its place on the
/// screen.  It must lie within the frame: an application that does not know
/// where it is on the screen tells other places.
pub open spec fn offset_in_frame(
    screen: Option<(i32, i32)>,
    frame: Option<(i64, i64, i64, i64)>,
) -> Option<(i32, i32)> {
    match (screen, frame) {
        (Some(s), Some(f)) => if in_frame(s, f) {
            Some(((s.0 - f.0) as i32, (s.1 - f.1) as i32))
        } else {
            None
        },
        _ => None,
    }
}

/// Tests whether the distance of a place on the screen from the corner of the
/// frame of a window can be told.
pub fn can_offset(screen: Option<(i32, i32)>, win: &WindowDict) -> (r: bool)
    ensures
        r == offset_fits(screen, frame_rect(win@)),
{
    match (screen, read_frame_rect(win)) {
        (Some((sx, sy)), Some((fx, fy, fw, fh))) => {
            let dx: i128 = sx as i128 - fx as i128;
            let dy: i128 = sy as i128 - fy as i128;
            !(dx >= 0 && dy >= 0 && dx < fw as i128 && dy < fh as i128) || dx <= i32::MAX as i128
                && dy <= i32::MAX as i128
        },
        _ => true,
    }
}

/// Finds where the application of a window lies in its frame.
pub fn a11y_frame_offset(screen: Option<(i32, i32)>, win: &WindowDict) -> (r: Option<(i32, i32)>)
    requires
        offset_fits(screen, frame_rect(win@)),
    ensures
        r == offset_in_frame(screen, frame_rect(win@)),
{
    match (screen, read_frame_rect(win)) {
        (Some((sx, sy)), Some((fx, fy, fw, fh))) => {
            let dx: i128 = sx as i128 - fx as i128;
            let dy: i128 = sy as i128 - fy as i128;
            if dx >= 0 && dy >= 0 && dx < fw as i128 && dy < fh as i128 {
                Some((dx as i32, dy as i32))
            } else {
                None
            }
        },
        _ => None,
    }
}

// ---------------------------------------------------------------------------
// Laws
// ---------------------------------------------------------------------------

/// Law: every reference is kept, in order, but the one with the path that stands for
/// no element.
pub proof fn null_is_no_element(refs: Seq<AccRef>, r: AccRef)
    ensures
        elements(Seq::<AccRef>::empty()).len() == 0,
        r.path@ != "/org/a11y/atspi/null"@ ==> elements(refs.push(r)) == elements(refs).push(r),
        r.path@ == "/org/a11y/atspi/null"@ ==> elements(refs.push(r)) == elements(refs),
{
    reveal(Seq::filter);
    assert(refs.push(r).drop_last() =~= refs);
}

/// Law: bit 25 of the first word of its state, counted from zero, says whether an element
/// is shown, whatever the other bits and words are; where there is no such word, it
/// counts as shown.
pub proof fn one_bit_says_what_is_shown(words: Seq<u32>)
    ensures
        shown_by(None),
        words.len() == 0 ==> shown_by(Some(words)),
        words.len() > 0 ==> (shown_by(Some(words)) <==> words[0] & (1u32 << 25u32) != 0),
{
    if words.len() > 0 {
        let first: u32 = words[0];
        assert((first & (1u32 << 25u32) != 0) == ((first / 0x200_0000u32) % 2 == 1))
            by (bit_vector);
    }
}

/// Law: an application is of the process of a window just where both are known and
/// are the same number; the process of a window is the integer under its key.
pub proof fn processes_are_compared_as_numbers(
    w: Map<Seq<char>, Value>,
    win_pid: Option<i64>,
    pid: Option<u32>,
)
    ensures
        same_process(win_pid, pid) <==> win_pid is Some && pid is Some && win_pid->0 as int
            == pid->0 as int,
        int_field(w, "pid"@) matches Ok(n) ==> window_pid(w) == Some(n),
        int_field(w, "pid"@) is Err ==> window_pid(w) is None,
{
}

/// Law: the name of an application goes with a window just where it is not empty,
/// and in lower case it contains the class or the application id of the window, or
/// is contained in it; a class or an id that is empty goes with none.
pub proof fn names_go_with_classes_and_ids(w: Map<Seq<char>, Value>, name: Seq<char>)
    ensures
        name_fits(w, name) <==> name.len() > 0 && exists|key: Seq<char>|
            (key == "wm_class"@ || key == "app_id"@) && #[trigger] w.contains_key(key) && lowercase(
                rendered(w[key]),
            ).len() > 0 && (occurs(lowercase(rendered(w[key])), lowercase(name)) || occurs(
                lowercase(name),
                lowercase(rendered(w[key])),
            )),
        ascii_fits(w, name) <==> name.len() > 0 && exists|key: Seq<char>|
            (key == "wm_class"@ || key == "app_id"@) && #[trigger] w.contains_key(key)
                && ascii_lowered(rendered(w[key])).len() > 0 && (occurs(
                ascii_lowered(rendered(w[key])),
                ascii_lowered(name),
            ) || occurs(ascii_lowered(name), ascii_lowered(rendered(w[key])))),
{
    if name_fits(w, name) {
        if name_fits_field(w, "wm_class"@, name) {
            assert(w.contains_key("wm_class"@));
        } else {
            assert(w.contains_key("app_id"@));
        }
    }
    if ascii_fits(w, name) {
        if ascii_fits_field(w, "wm_class"@, name) {
            assert(w.contains_key("wm_class"@));
        } else {
            assert(w.contains_key("app_id"@));
        }
    }
}

/// Law: all applications of the process of a window are candidates, and then all
/// others whose name goes with it, both in the order of the bus.  Where there is no
/// candidate, the process of the window and the names of the others are told.
pub proof fn processes_come_before_the_names(w: Map<Seq<char>, Value>, apps: Seq<AppFacts>)
    ensures
        ({
            let of_process = |a: AppFacts|
                int_field(w, "pid"@) is Ok && a.pid is Some && int_field(w, "pid"@)->Ok_0
                    == a.pid->0;
            let of_name = |a: AppFacts|
                !of_process(a) && a.name is Some && name_fits(w, a.name->0@);
            let others = |a: AppFacts|
                !of_process(a) && a.name is Some && a.name->0@.len() > 0 && !name_fits(
                    w,
                    a.name->0@,
                );
            let found = apps.filter(of_process).map_values(|a: AppFacts| a.acc) + apps.filter(
                of_name,
            ).map_values(|a: AppFacts| a.acc);
            let names = apps.filter(others).map_values(|a: AppFacts| a.called());
            &&& found.len() > 0 ==> apps_outcome(w, apps) == Ok::<Seq<AccRef>, Seq<char>>(found)
            &&& found.len() == 0 ==> apps_outcome(w, apps) == Err::<Seq<AccRef>, Seq<char>>(
                "no AT-SPI application matches this window (pid "@ + (match int_field(w, "pid"@) {
                    Ok(n) => "Some("@ + decimal(n as int) + ")"@,
                    Err(_) => "None"@,
                })
                    + ") — the app probably doesn't expose accessibility info (SDL/emulator/custom-toolkit apps don't). Apps currently on the a11y bus: "@
                    + (if names.len() == 0 {
                    "none"@
                } else {
                    joined(names, ", "@)
                }),
            )
        }),
{
    let of_process = |a: AppFacts|
        int_field(w, "pid"@) is Ok && a.pid is Some && int_field(w, "pid"@)->Ok_0 == a.pid->0;
    let of_name = |a: AppFacts| !of_process(a) && a.name is Some && name_fits(w, a.name->0@);
    let others = |a: AppFacts|
        !of_process(a) && a.name is Some && a.name->0@.len() > 0 && !name_fits(w, a.name->0@);
    same_filter(apps, of_process, |a: AppFacts| by_process(w, a));
    same_filter(apps, of_name, |a: AppFacts| by_name(w, a));
    same_filter(apps, others, |a: AppFacts| passed_over(w, a));
}

proof fn same_filter(apps: Seq<AppFacts>, p: spec_fn(AppFacts) -> bool, q: spec_fn(AppFacts) -> bool)
    requires
        forall|a: AppFacts| #[trigger] p(a) == q(a),
    ensures
        apps.filter(p) == apps.filter(q),
    decreases apps.len(),
{
    reveal(Seq::filter);
    if apps.len() > 0 {
        same_filter(apps.drop_last(), p, q);
        assert(p(apps.last()) == q(apps.last()));
    }
}

/// Law: the frame of a window is known just where its four numbers are integers.
pub proof fn frames_have_four_numbers(w: Map<Seq<char>, Value>)
    ensures
        frame_rect(w) is Some <==> int_field(w, "frame_x"@) is Ok && int_field(w, "frame_y"@) is Ok
            && int_field(w, "frame_w"@) is Ok && int_field(w, "frame_h"@) is Ok,
        frame_rect(w) matches Some(f) ==> int_field(w, "frame_x"@) == Ok::<i64, Seq<char>>(f.0)
            && int_field(w, "frame_y"@) == Ok::<i64, Seq<char>>(f.1) && int_field(w, "frame_w"@)
            == Ok::<i64, Seq<char>>(f.2) && int_field(w, "frame_h"@) == Ok::<i64, Seq<char>>(f.3),
{
}

/// Law: an element lies in the frame of a window at the distance of its place on the
/// screen from the corner of the frame, if that place is in the frame, the near
/// edges included and the far ones not; else, and where one of the two is not known,
/// where it lies is not known.
pub proof fn offsets_lead_from_the_corner_to_the_place(
    s: (i32, i32),
    f: (i64, i64, i64, i64),
    screen: Option<(i32, i32)>,
    frame: Option<(i64, i64, i64, i64)>,
)
    ensures
        offset_in_frame(None, frame) is None,
        offset_in_frame(screen, None) is None,
        offset_fits(None, frame),
        offset_fits(screen, None),
        offset_in_frame(Some(s), Some(f)) is Some <==> f.0 <= s.0 < f.0 + f.2 && f.1 <= s.1 < f.1
            + f.3,
        offset_fits(Some(s), Some(f)) ==> (offset_in_frame(Some(s), Some(f)) matches Some(d)
            ==> f.0 + d.0 == s.0 && f.1 + d.1 == s.1),
        offset_fits(Some(s), Some(f)) <==> (offset_in_frame(Some(s), Some(f)) is Some ==> s.0 - f.0
            <= 0x7fff_ffff && s.1 - f.1 <= 0x7fff_ffff),
{
}

/// Law: a name is compared as an ASCII text just where it, the class and the
/// application id are such, as far as there are any.
pub proof fn ascii_names_are_compared_with_ascii_fields(w: Map<Seq<char>, Value>, name: Seq<char>)
    ensures
        is_ascii_naming(w, name) <==> is_ascii_text(name) && (w.contains_key("wm_class"@)
            ==> is_ascii_text(rendered(w["wm_class"@]))) && (w.contains_key("app_id"@)
            ==> is_ascii_text(rendered(w["app_id"@]))),
{
}

/// Law: a name and a role are taken as they are read; a name that cannot be read is
/// empty, and a role that cannot be read is a question mark.
pub proof fn unread_names_are_empty(s: String)
    ensures
        name_read(Some(s)) == s@,
        name_read(None).len() == 0,
        role_read(Some(s)) == s@,
        role_read(None) == "?"@,
{
}

} // verus!
