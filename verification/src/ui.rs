//! The elements of a window as they are shown.

use vstd::prelude::*;
use vstd::string::*;

use crate::a11y::fits_i32;
use crate::number::{decimal, show_i64};
use crate::protocol::{detailed, Response, ResponseView};
use crate::text::{
    ascii_lowered, contains_text, is_ascii_text, lowercase, occurs, quote, quoted, repeat,
    repeated, same, to_lower, trim_end, trimmed_end,
};
use crate::window::WindowId;

verus! {

/// An element that was visited.
#[derive(Debug)]
pub struct UiNode {
    /// How far below the top it lies.
    pub depth: usize,
    pub role: String,
    pub name: String,
    /// Place and size, if it has them.
    pub rect: Option<(i32, i32, i32, i32)>,
    /// Whether it is shown.
    pub showing: bool,
}

// ---------------------------------------------------------------------------
// Coordinates
// ---------------------------------------------------------------------------

/// What is said of the coordinates that follow, given the id of the window as
/// text.
pub open spec fn header_text(id: Seq<char>, off: Option<(i32, i32)>) -> Seq<char> {
    match off {
        Some(_) => "coords are relative to window "@ + id
            + "'s frame — click with `click-in "@ + id + " <x> <y>`"@,
        None => "coords are relative to the app's a11y toplevel (its screen position is unverifiable — typical for Wayland-native apps); for CSD apps this usually equals window "@
            + id + "'s frame space (`click-in "@ + id
            + " <x> <y>`) — verify against a screenshot"@,
    }
}

/// What is said of the coordinates that follow.
pub open spec fn coord_header(id: int, off: Option<(i32, i32)>) -> Seq<char> {
    header_text(decimal(id), off)
}

fn tell_header(id: &str, off: Option<(i32, i32)>) -> (r: String)
    ensures
        r@ == header_text(id@, off),
{
    match off {
        Some(_) => {
            let mut r: String = "coords are relative to window ".to_owned();
            r.append(id);
            r.append("'s frame — click with `click-in ");
            r.append(id);
            r.append(" <x> <y>`");
            r
        },
        None => {
            let mut r: String =
                "coords are relative to the app's a11y toplevel (its screen position is unverifiable — typical for Wayland-native apps); for CSD apps this usually equals window ".to_owned();
            r.append(id);
            r.append("'s frame space (`click-in ");
            r.append(id);
            r.append(" <x> <y>`) — verify against a screenshot");
            r
        },
    }
}

/// Says what the coordinates that follow are relative to, and how to click them.
pub fn ui_coord_header(id: i64, off: Option<(i32, i32)>) -> (r: String)
    ensures
        r@ == coord_header(id as int, off),
{
    tell_header(show_i64(id).as_str(), off)
}

/// The distance that places are moved by.
pub open spec fn distance(off: Option<(i32, i32)>) -> (int, int) {
    match off {
        Some(d) => (d.0 as int, d.1 as int),
        None => (0, 0),
    }
}

/// Whether a place that is moved stays one that an `i32` holds.
pub open spec fn translates(rect: (i32, i32, i32, i32), off: Option<(i32, i32)>) -> bool {
    fits_i32(rect.0 + distance(off).0) && fits_i32(rect.1 + distance(off).1)
}

/// A place that is moved.  The size stays.
pub open spec fn translated(rect: (i32, i32, i32, i32), off: Option<(i32, i32)>) -> (
    int,
    int,
    int,
    int,
) {
    (rect.0 + distance(off).0, rect.1 + distance(off).1, rect.2 as int, rect.3 as int)
}

/// Moves a place.
pub fn ui_translate(rect: (i32, i32, i32, i32), off: Option<(i32, i32)>) -> (r: (
    i32,
    i32,
    i32,
    i32,
))
    requires
        translates(rect, off),
    ensures
        (r.0 as int, r.1 as int, r.2 as int, r.3 as int) == translated(rect, off),
{
    let (dx, dy) = off.unwrap_or((0, 0));
    (rect.0 + dx, rect.1 + dy, rect.2, rect.3)
}

/// Tests whether a place can be moved.
pub fn can_translate(rect: (i32, i32, i32, i32), off: Option<(i32, i32)>) -> (r: bool)
    ensures
        r == translates(rect, off),
{
    let (dx, dy) = off.unwrap_or((0, 0));
    let x: i64 = rect.0 as i64 + dx as i64;
    let y: i64 = rect.1 as i64 + dy as i64;
    i32::MIN as i64 <= x && x <= i32::MAX as i64 && i32::MIN as i64 <= y && y <= i32::MAX as i64
}

/// Half of a length, cut off towards zero.
pub open spec fn half(n: int) -> int {
    if n >= 0 {
        n / 2
    } else {
        -((-n) / 2)
    }
}

fn to_half(n: i32) -> (r: i32)
    ensures
        r == half(n as int),
{
    if n >= 0 {
        n / 2
    } else {
        let m: i64 = -(n as i64);
        (-(m / 2)) as i32
    }
}

/// The point in the middle of a place that was moved.
pub open spec fn center(rect: (i32, i32, i32, i32), off: Option<(i32, i32)>) -> (int, int) {
    let t = translated(rect, off);
    (t.0 + half(t.2), t.1 + half(t.3))
}

/// Whether the middle of a place that is moved is one that an `i32` holds.
pub open spec fn has_center(rect: (i32, i32, i32, i32), off: Option<(i32, i32)>) -> bool {
    translates(rect, off) && fits_i32(center(rect, off).0) && fits_i32(center(rect, off).1)
}

/// Tests whether the middle of a place that is moved can be told.
pub fn can_center(rect: (i32, i32, i32, i32), off: Option<(i32, i32)>) -> (r: bool)
    ensures
        r == has_center(rect, off),
{
    if !can_translate(rect, off) {
        return false;
    }
    let (x, y, w, h) = ui_translate(rect, off);
    let cx: i64 = x as i64 + to_half(w) as i64;
    let cy: i64 = y as i64 + to_half(h) as i64;
    i32::MIN as i64 <= cx && cx <= i32::MAX as i64 && i32::MIN as i64 <= cy && cy <= i32::MAX as i64
}

/// A place and a size as text.
pub open spec fn rect_text(t: (int, int, int, int)) -> Seq<char> {
    decimal(t.0) + ","@ + decimal(t.1) + " "@ + decimal(t.2) + "x"@ + decimal(t.3)
}

fn show_rect(x: i32, y: i32, w: i32, h: i32) -> (r: String)
    ensures
        r@ == rect_text((x as int, y as int, w as int, h as int)),
{
    let mut r: String = show_i64(x as i64);
    r.append(",");
    r.append(show_i64(y as i64).as_str());
    r.append(" ");
    r.append(show_i64(w as i64).as_str());
    r.append("x");
    r.append(show_i64(h as i64).as_str());
    r
}

// ---------------------------------------------------------------------------
// The tree
// ---------------------------------------------------------------------------

/// What a line of the tree says of the place of an element.  Of an element that
/// is not shown it says no place: the application may tell any.
pub open spec fn tree_place(n: UiNode, off: Option<(i32, i32)>) -> Seq<char> {
    if n.showing {
        match n.rect {
            Some(r) => " ("@ + rect_text(translated(r, off)) + ")"@,
            None => Seq::<char>::empty(),
        }
    } else {
        " [hidden]"@
    }
}

/// One line of the tree.
pub open spec fn tree_line(n: UiNode, off: Option<(i32, i32)>) -> Seq<char> {
    repeated("  "@, n.depth as nat) + n.role@ + (if n.name@.len() == 0 {
        Seq::<char>::empty()
    } else {
        " "@ + quoted(n.name@)
    }) + tree_place(n, off) + "\n"@
}

/// The lines of the tree.
pub open spec fn tree_lines(nodes: Seq<UiNode>, off: Option<(i32, i32)>) -> Seq<char>
    decreases nodes.len(),
{
    if nodes.len() == 0 {
        Seq::<char>::empty()
    } else {
        tree_lines(nodes.drop_last(), off) + tree_line(nodes.last(), off)
    }
}

/// The tree as it is printed.
pub open spec fn tree_text(
    id: int,
    off: Option<(i32, i32)>,
    nodes: Seq<UiNode>,
    truncated: bool,
) -> Seq<char> {
    trimmed_end(
        coord_header(id, off) + "\n"@ + tree_lines(nodes, off) + (if truncated {
            "... truncated at 5000 elements — use --depth or ui-find\n"@
        } else {
            Seq::<char>::empty()
        }),
    )
}

/// Whether every place that the tree tells can be moved.
pub open spec fn tree_fits(nodes: Seq<UiNode>, off: Option<(i32, i32)>) -> bool {
    forall|i: int|
        0 <= i < nodes.len() && (#[trigger] nodes[i]).showing && nodes[i].rect is Some
            ==> translates(nodes[i].rect->0, off)
}

/// Tests whether every place that the tree tells can be moved.
pub fn can_show_tree(nodes: &Vec<UiNode>, off: Option<(i32, i32)>) -> (r: bool)
    ensures
        r == tree_fits(nodes@, off),
{
    for i in 0..nodes.len()
        invariant
            tree_fits(nodes@.take(i as int), off),
    {
        let ghost before = nodes@.take(i as int);
        if nodes[i].showing {
            if let Some(rect) = nodes[i].rect {
                if !can_translate(rect, off) {
                    return false;
                }
            }
        }
        assert forall|k: int|
            0 <= k < i + 1 && (#[trigger] nodes@.take(i + 1)[k]).showing && nodes@.take(
                i + 1,
            )[k].rect is Some implies translates(nodes@.take(i + 1)[k].rect->0, off) by {
            if k < i {
                assert(before[k] == nodes@[k]);
            }
        }
    }
    assert(nodes@.take(nodes@.len() as int) =~= nodes@);
    true
}

fn show_tree_line(n: &UiNode, off: Option<(i32, i32)>) -> (r: String)
    requires
        n.showing && n.rect is Some ==> translates(n.rect->0, off),
    ensures
        r@ == tree_line(*n, off),
{
    let mut r: String = repeat("  ", n.depth);
    r.append(n.role.as_str());
    let mut label: String = String::new();
    if !n.name.as_str().is_empty() {
        label = " ".to_owned();
        label.append(quote(n.name.as_str()).as_str());
    }
    r.append(label.as_str());
    let mut place: String = String::new();
    if n.showing {
        if let Some(rect) = n.rect {
            let (x, y, w, h) = ui_translate(rect, off);
            place = " (".to_owned();
            place.append(show_rect(x, y, w, h).as_str());
            place.append(")");
        }
    } else {
        place = " [hidden]".to_owned();
    }
    r.append(place.as_str());
    r.append("\n");
    r
}

/// Shows the elements of a window as a tree.
pub fn ui_tree(id: WindowId, off: Option<(i32, i32)>, nodes: &Vec<UiNode>, truncated: bool) -> (r:
    Response)
    requires
        tree_fits(nodes@, off),
    ensures
        r@ == detailed(tree_text(id.number(), off, nodes@, truncated)),
{
    let mut lines: String = String::new();
    for i in 0..nodes.len()
        invariant
            tree_fits(nodes@, off),
            lines@ == tree_lines(nodes@.take(i as int), off),
    {
        assert(nodes@.take(i + 1).drop_last() =~= nodes@.take(i as int));
        lines.append(show_tree_line(&nodes[i], off).as_str());
    }
    assert(nodes@.take(nodes@.len() as int) =~= nodes@);
    let mut out: String = tell_header(id.text().as_str(), off);
    out.append("\n");
    out.append(lines.as_str());
    if truncated {
        out.append("... truncated at 5000 elements — use --depth or ui-find\n");
    } else {
        out.append("");
        proof {
            reveal_strlit("");
            assert(""@ =~= Seq::<char>::empty());
        }
    }
    Response::ok_detail(trim_end(out.as_str()))
}

// ---------------------------------------------------------------------------
// The search
// ---------------------------------------------------------------------------

/// Whether a name and a role, in lower case, are those that are looked for: the
/// name contains a text, and the role is the one asked for.
pub open spec fn goes_with(
    name: Seq<char>,
    role: Seq<char>,
    needle: Seq<char>,
    wanted: Option<Seq<char>>,
) -> bool {
    occurs(name, needle) && (wanted matches Some(r) ==> role == r)
}

/// Tests whether a name and a role, in lower case, are those that are looked for.
pub fn test_goes_with(name: &str, role: &str, needle: &str, wanted: Option<&str>) -> (r: bool)
    ensures
        r == goes_with(name@, role@, needle@, role_text(wanted)),
{
    if !contains_text(name, needle) {
        return false;
    }
    match wanted {
        Some(r) => same(role, r),
        None => true,
    }
}

/// Whether an element is one that is looked for: its name contains the pattern
/// and its role is the one asked for, in any case.
pub open spec fn is_hit(n: UiNode, pattern: Seq<char>, role: Option<Seq<char>>) -> bool {
    goes_with(
        lowercase(n.name@),
        lowercase(n.role@),
        lowercase(pattern),
        match role {
            Some(r) => Some(lowercase(r)),
            None => None,
        },
    )
}

/// Whether what is compared to find an element are ASCII texts.
pub open spec fn is_ascii_search(n: UiNode, pattern: Seq<char>, role: Option<Seq<char>>) -> bool {
    &&& is_ascii_text(n.name@)
    &&& is_ascii_text(pattern)
    &&& role matches Some(r) ==> is_ascii_text(r) && is_ascii_text(n.role@)
}

/// Whether an element is one that is looked for, the ASCII letters of all that is
/// compared in lower case.
pub open spec fn is_ascii_hit(n: UiNode, pattern: Seq<char>, role: Option<Seq<char>>) -> bool {
    goes_with(
        ascii_lowered(n.name@),
        ascii_lowered(n.role@),
        ascii_lowered(pattern),
        match role {
            Some(r) => Some(ascii_lowered(r)),
            None => None,
        },
    )
}

/// What a line of the search says of the place of an element.
pub open spec fn hit_place(n: UiNode, off: Option<(i32, i32)>) -> Seq<char> {
    if n.showing {
        match n.rect {
            Some(r) => " center=("@ + decimal(center(r, off).0) + ","@ + decimal(center(r, off).1)
                + ") rect=("@ + rect_text(translated(r, off)) + ")"@,
            None => Seq::<char>::empty(),
        }
    } else {
        " [hidden — open its menu/pane first, then re-run]"@
    }
}

/// One line of the search.
pub open spec fn hit_line(n: UiNode, off: Option<(i32, i32)>) -> Seq<char> {
    n.role@ + " "@ + quoted(n.name@) + hit_place(n, off) + "\n"@
}

/// The lines of the search: one for each element that is looked for, in order.
pub open spec fn hit_lines(
    nodes: Seq<UiNode>,
    pattern: Seq<char>,
    role: Option<Seq<char>>,
    off: Option<(i32, i32)>,
) -> Seq<char>
    decreases nodes.len(),
{
    if nodes.len() == 0 {
        Seq::<char>::empty()
    } else {
        let before = hit_lines(nodes.drop_last(), pattern, role, off);
        if is_hit(nodes.last(), pattern, role) {
            before + hit_line(nodes.last(), off)
        } else {
            before
        }
    }
}

/// Whether one of the elements is looked for.
pub open spec fn any_hit(nodes: Seq<UiNode>, pattern: Seq<char>, role: Option<Seq<char>>) -> bool {
    exists|i: int| 0 <= i < nodes.len() && is_hit(#[trigger] nodes[i], pattern, role)
}

/// What is said of a search that finds nothing.
pub open spec fn no_hit(
    id: int,
    pattern: Seq<char>,
    role: Option<Seq<char>>,
    truncated: bool,
) -> Seq<char> {
    "no UI element matched name "@ + quoted(pattern) + (match role {
        Some(r) => " with role "@ + quoted(r),
        None => Seq::<char>::empty(),
    }) + " in window "@ + decimal(id) + (if truncated {
        " (walk truncated — the tree is very large)"@
    } else {
        Seq::<char>::empty()
    }) + " — run `ui-tree "@ + decimal(id) + "` to see what the app exposes"@
}

/// What comes of a search.
pub open spec fn find_outcome(
    id: int,
    off: Option<(i32, i32)>,
    nodes: Seq<UiNode>,
    truncated: bool,
    pattern: Seq<char>,
    role: Option<Seq<char>>,
) -> Result<ResponseView, Seq<char>> {
    if !any_hit(nodes, pattern, role) {
        Err(no_hit(id, pattern, role, truncated))
    } else {
        Ok(
            detailed(
                trimmed_end(
                    coord_header(id, off) + "\n"@ + hit_lines(nodes, pattern, role, off) + (
                    if truncated {
                        "... walk truncated — matches beyond the budget were not seen\n"@
                    } else {
                        Seq::<char>::empty()
                    }),
                ),
            ),
        )
    }
}

/// Whether the middle of every place that the search tells can be told.
pub open spec fn find_fits(
    nodes: Seq<UiNode>,
    off: Option<(i32, i32)>,
    pattern: Seq<char>,
    role: Option<Seq<char>>,
) -> bool {
    forall|i: int|
        0 <= i < nodes.len() && is_hit(#[trigger] nodes[i], pattern, role) && nodes[i].showing
            && nodes[i].rect is Some ==> has_center(nodes[i].rect->0, off)
}

/// The text of a role, if one is asked for.
pub open spec fn role_text(role: Option<&str>) -> Option<Seq<char>> {
    match role {
        Some(r) => Some(r@),
        None => None,
    }
}

fn test_hit(n: &UiNode, needle: &str, role_needle: &Option<String>) -> (r: bool)
    ensures
        r == goes_with(
            lowercase(n.name@),
            lowercase(n.role@),
            needle@,
            match role_needle {
                Some(s) => Some(s@),
                None => None,
            },
        ),
        is_ascii_text(n.name@) ==> lowercase(n.name@) == ascii_lowered(n.name@),
        is_ascii_text(n.role@) ==> lowercase(n.role@) == ascii_lowered(n.role@),
{
    let wanted: Option<&str> = match role_needle {
        Some(s) => Some(s.as_str()),
        None => None,
    };
    test_goes_with(
        to_lower(n.name.as_str()).as_str(),
        to_lower(n.role.as_str()).as_str(),
        needle,
        wanted,
    )
}

fn lower_role(role: Option<&str>) -> (r: Option<String>)
    ensures
        match r {
            Some(s) => role is Some && s@ == lowercase(role->0@) && (is_ascii_text(role->0@)
                ==> s@ == ascii_lowered(role->0@)),
            None => role is None,
        },
{
    match role {
        Some(s) => Some(to_lower(s)),
        None => None,
    }
}

/// Tests whether the middle of every place that the search tells can be told.
pub fn can_show_hits(
    nodes: &Vec<UiNode>,
    off: Option<(i32, i32)>,
    pattern: &str,
    role: Option<&str>,
) -> (r: bool)
    ensures
        r == find_fits(nodes@, off, pattern@, role_text(role)),
{
    let needle: String = to_lower(pattern);
    let role_needle: Option<String> = lower_role(role);
    for i in 0..nodes.len()
        invariant
            needle@ == lowercase(pattern@),
            match role_needle {
                Some(s) => role is Some && s@ == lowercase(role->0@),
                None => role is None,
            },
            find_fits(nodes@.take(i as int), off, pattern@, role_text(role)),
    {
        let ghost before = nodes@.take(i as int);
        if nodes[i].showing && test_hit(&nodes[i], needle.as_str(), &role_needle) {
            if let Some(rect) = nodes[i].rect {
                if !can_center(rect, off) {
                    assert(is_hit(nodes@[i as int], pattern@, role_text(role)));
                    return false;
                }
            }
        }
        assert forall|k: int|
            0 <= k < i + 1 && is_hit(
                #[trigger] nodes@.take(i + 1)[k],
                pattern@,
                role_text(role),
            ) && nodes@.take(i + 1)[k].showing && nodes@.take(
                i + 1,
            )[k].rect is Some implies has_center(nodes@.take(i + 1)[k].rect->0, off) by {
            if k < i {
                assert(before[k] == nodes@[k]);
            }
        }
    }
    assert(nodes@.take(nodes@.len() as int) =~= nodes@);
    true
}

fn show_hit_line(n: &UiNode, off: Option<(i32, i32)>) -> (r: String)
    requires
        n.showing && n.rect is Some ==> has_center(n.rect->0, off),
    ensures
        r@ == hit_line(*n, off),
{
    let mut r: String = n.role.clone();
    r.append(" ");
    r.append(quote(n.name.as_str()).as_str());
    let mut place: String = String::new();
    if n.showing {
        if let Some(rect) = n.rect {
            let (x, y, w, h) = ui_translate(rect, off);
            let cx: i32 = x + to_half(w);
            let cy: i32 = y + to_half(h);
            place = " center=(".to_owned();
            place.append(show_i64(cx as i64).as_str());
            place.append(",");
            place.append(show_i64(cy as i64).as_str());
            place.append(") rect=(");
            place.append(show_rect(x, y, w, h).as_str());
            place.append(")");
        }
    } else {
        place = " [hidden — open its menu/pane first, then re-run]".to_owned();
    }
    r.append(place.as_str());
    r.append("\n");
    r
}

fn tell_no_hit(id: WindowId, pattern: &str, role: Option<&str>, truncated: bool) -> (e: String)
    ensures
        e@ == no_hit(id.number(), pattern@, role_text(role), truncated),
{
    let mut with_role: String = String::new();
    if let Some(s) = role {
        with_role = " with role ".to_owned();
        with_role.append(quote(s).as_str());
    }
    let mut note: String = String::new();
    if truncated {
        note = " (walk truncated — the tree is very large)".to_owned();
    }
    let mut e: String = "no UI element matched name ".to_owned();
    e.append(quote(pattern).as_str());
    e.append(with_role.as_str());
    e.append(" in window ");
    e.append(id.text().as_str());
    e.append(note.as_str());
    e.append(" — run `ui-tree ");
    e.append(id.text().as_str());
    e.append("` to see what the app exposes");
    e
}

/// Finds elements of a window by name and role.  An empty name goes with every
/// element that has the role.
pub fn ui_find(
    id: WindowId,
    off: Option<(i32, i32)>,
    nodes: &Vec<UiNode>,
    truncated: bool,
    pattern: &str,
    role: Option<&str>,
) -> (r: Result<Response, String>)
    requires
        find_fits(nodes@, off, pattern@, role_text(role)),
    ensures
        match r {
            Ok(resp) => find_outcome(id.number(), off, nodes@, truncated, pattern@, role_text(role))
                == Ok::<ResponseView, Seq<char>>(resp@),
            Err(e) => find_outcome(id.number(), off, nodes@, truncated, pattern@, role_text(role))
                == Err::<ResponseView, Seq<char>>(e@),
        },
        pattern@.len() == 0 ==> forall|i: int|
            0 <= i < nodes@.len() ==> is_hit(#[trigger] nodes@[i], pattern@, role_text(role)) == (
            role_text(role) matches Some(r) ==> lowercase(nodes@[i].role@) == lowercase(r)),
        forall|i: int|
            0 <= i < nodes@.len() && is_ascii_search(
                #[trigger] nodes@[i],
                pattern@,
                role_text(role),
            ) ==> is_hit(nodes@[i], pattern@, role_text(role)) == is_ascii_hit(
                nodes@[i],
                pattern@,
                role_text(role),
            ),
{
    let needle: String = to_lower(pattern);
    let role_needle: Option<String> = lower_role(role);
    assert(pattern@.len() == 0 ==> forall|hay: Seq<char>| #[trigger] occurs(hay, needle@)) by {
        if pattern@.len() == 0 {
            assert(needle@ =~= Seq::<char>::empty());
            assert forall|hay: Seq<char>| #[trigger] occurs(hay, needle@) by {
                crate::text::empty_occurs_everywhere(hay);
            }
        }
    }
    let mut found: bool = false;
    let mut lines: String = String::new();
    for i in 0..nodes.len()
        invariant
            needle@ == lowercase(pattern@),
            is_ascii_text(pattern@) ==> needle@ == ascii_lowered(pattern@),
            match role_needle {
                Some(s) => role is Some && s@ == lowercase(role->0@) && (is_ascii_text(role->0@)
                    ==> s@ == ascii_lowered(role->0@)),
                None => role is None,
            },
            forall|k: int|
                0 <= k < i && is_ascii_search(#[trigger] nodes@[k], pattern@, role_text(role))
                    ==> is_hit(nodes@[k], pattern@, role_text(role)) == is_ascii_hit(
                    nodes@[k],
                    pattern@,
                    role_text(role),
                ),
            find_fits(nodes@, off, pattern@, role_text(role)),
            found == any_hit(nodes@.take(i as int), pattern@, role_text(role)),
            lines@ == hit_lines(nodes@.take(i as int), pattern@, role_text(role), off),
    {
        let ghost before = nodes@.take(i as int);
        let ghost after = nodes@.take(i + 1);
        assert(after.drop_last() =~= before);
        let hit: bool = test_hit(&nodes[i], needle.as_str(), &role_needle);
        assert(hit == is_hit(nodes@[i as int], pattern@, role_text(role)));
        assert(any_hit(after, pattern@, role_text(role)) == (any_hit(
            before,
            pattern@,
            role_text(role),
        ) || hit)) by {
            if any_hit(before, pattern@, role_text(role)) {
                let k = choose|k: int|
                    0 <= k < before.len() && is_hit(
                        #[trigger] before[k],
                        pattern@,
                        role_text(role),
                    );
                assert(after[k] == before[k]);
            }
            if hit {
                assert(is_hit(after[i as int], pattern@, role_text(role)));
            }
            if any_hit(after, pattern@, role_text(role)) {
                let k = choose|k: int|
                    0 <= k < after.len() && is_hit(#[trigger] after[k], pattern@, role_text(role));
                if k < i {
                    assert(before[k] == after[k]);
                }
            }
        }
        if hit {
            lines.append(show_hit_line(&nodes[i], off).as_str());
            found = true;
        }
    }
    assert(nodes@.take(nodes@.len() as int) =~= nodes@);
    if !found {
        return Err(tell_no_hit(id, pattern, role, truncated));
    }
    let mut note: String = String::new();
    if truncated {
        note = "... walk truncated — matches beyond the budget were not seen\n".to_owned();
    }
    let mut out: String = tell_header(id.text().as_str(), off);
    out.append("\n");
    out.append(lines.as_str());
    out.append(note.as_str());
    Ok(Response::ok_detail(trim_end(out.as_str())))
}

/// Law: whether an element is one that is looked for does not depend on the case
/// of what is looked for.
pub proof fn searches_ignore_case(
    n: UiNode,
    pattern: Seq<char>,
    other: Seq<char>,
    role: Seq<char>,
    other_role: Seq<char>,
)
    requires
        lowercase(pattern) == lowercase(other),
        lowercase(role) == lowercase(other_role),
    ensures
        is_hit(n, pattern, None) == is_hit(n, other, None),
        is_hit(n, pattern, Some(role)) == is_hit(n, other, Some(other_role)),
{
}

/// Law: of an element that is not shown no place is told, whatever place the
/// application tells.
pub proof fn hidden_places_are_not_told(
    n: UiNode,
    rect: Option<(i32, i32, i32, i32)>,
    off: Option<(i32, i32)>,
)
    requires
        !n.showing,
    ensures
        tree_line(UiNode { rect, ..n }, off) == tree_line(n, None),
        hit_line(UiNode { rect, ..n }, off) == hit_line(n, None),
{
}

/// Law: the heading tells the id of the window twice, and it tells whether the
/// coordinates are relative to the frame of the window.
pub proof fn headings_tell_what_coordinates_are_relative_to(id: int, d: (i32, i32))
    ensures
        coord_header(id, Some(d)) == "coords are relative to window "@ + decimal(id)
            + "'s frame — click with `click-in "@ + decimal(id) + " <x> <y>`"@,
        coord_header(id, None)
            == "coords are relative to the app's a11y toplevel (its screen position is unverifiable — typical for Wayland-native apps); for CSD apps this usually equals window "@
            + decimal(id) + "'s frame space (`click-in "@ + decimal(id)
            + " <x> <y>`) — verify against a screenshot"@,
{
}

/// Law: a place is moved by the distance, and its size stays as it is; without a
/// distance it stays where it is.
pub proof fn places_are_moved(rect: (i32, i32, i32, i32), d: (i32, i32))
    ensures
        translated(rect, None) == (rect.0 as int, rect.1 as int, rect.2 as int, rect.3 as int),
        translated(rect, Some(d)) == (
            rect.0 + d.0,
            rect.1 + d.1,
            rect.2 as int,
            rect.3 as int,
        ),
        translates(rect, None),
        translates(rect, Some(d)) <==> -0x8000_0000 <= rect.0 + d.0 <= 0x7fff_ffff && -0x8000_0000
            <= rect.1 + d.1 <= 0x7fff_ffff,
{
}

/// Law: the center lies as far from the near edge as from the far one, or one nearer
/// to the near edge where the size is odd; it moves with its place.
pub proof fn centers_lie_in_the_middle(rect: (i32, i32, i32, i32), off: Option<(i32, i32)>)
    ensures
        ({
            let (x, y, w, h) = translated(rect, off);
            let c = center(rect, off);
            let dx = c.0 - x;
            let dy = c.1 - y;
            &&& w >= 0 ==> 0 <= w - 2 * dx <= 1
            &&& w < 0 ==> -1 <= w - 2 * dx <= 0
            &&& h >= 0 ==> 0 <= h - 2 * dy <= 1
            &&& h < 0 ==> -1 <= h - 2 * dy <= 0
            &&& has_center(rect, off) <==> translates(rect, off) && -0x8000_0000 <= c.0
                <= 0x7fff_ffff && -0x8000_0000 <= c.1 <= 0x7fff_ffff
        }),
{
}

/// Law: the tree has one line for each element, in order.  A line is set in by two
/// spaces for each level; it tells the role, the name if there is one, and the place
/// and the size if it is shown and has them.
pub proof fn trees_have_a_line_for_each_element(
    nodes: Seq<UiNode>,
    n: UiNode,
    off: Option<(i32, i32)>,
)
    ensures
        tree_lines(Seq::<UiNode>::empty(), off).len() == 0,
        tree_lines(nodes.push(n), off) == tree_lines(nodes, off) + (repeated("  "@, n.depth as nat)
            + n.role@ + (if n.name@.len() == 0 {
            Seq::<char>::empty()
        } else {
            " "@ + quoted(n.name@)
        }) + (if !n.showing {
            " [hidden]"@
        } else if n.rect is Some {
            let (x, y, w, h) = translated(n.rect->0, off);
            " ("@ + (decimal(x) + ","@ + decimal(y) + " "@ + decimal(w) + "x"@ + decimal(h)) + ")"@
        } else {
            Seq::<char>::empty()
        }) + "\n"@),
{
    assert(nodes.push(n).drop_last() =~= nodes);
}

/// Law: the tree is its heading, its lines and, just if not all elements were
/// visited, a line that says so; white space at the end is dropped.
pub proof fn trees_tell_whether_they_are_whole(
    id: int,
    off: Option<(i32, i32)>,
    nodes: Seq<UiNode>,
)
    ensures
        tree_text(id, off, nodes, false) == trimmed_end(
            coord_header(id, off) + "\n"@ + tree_lines(nodes, off),
        ),
        tree_text(id, off, nodes, true) == trimmed_end(
            coord_header(id, off) + "\n"@ + tree_lines(nodes, off)
                + "... truncated at 5000 elements — use --depth or ui-find\n"@,
        ),
        tree_fits(nodes, off) <==> forall|i: int|
            0 <= i < nodes.len() && (#[trigger] nodes[i]).showing && nodes[i].rect is Some
                ==> translates(nodes[i].rect->0, off),
{
    let body = coord_header(id, off) + "\n"@ + tree_lines(nodes, off);
    assert(body + Seq::<char>::empty() =~= body);
}

/// Law: an element is looked for just where its name in lower case contains the
/// pattern in lower case and, if a role is asked for, its role is that one, in any
/// case.  A part of a role is not enough.
pub proof fn names_contain_and_roles_are(n: UiNode, pattern: Seq<char>, role: Seq<char>)
    ensures
        is_hit(n, pattern, None) <==> occurs(lowercase(n.name@), lowercase(pattern)),
        is_hit(n, pattern, Some(role)) <==> occurs(lowercase(n.name@), lowercase(pattern))
            && lowercase(n.role@) == lowercase(role),
        is_ascii_hit(n, pattern, None) <==> occurs(ascii_lowered(n.name@), ascii_lowered(pattern)),
        is_ascii_hit(n, pattern, Some(role)) <==> occurs(
            ascii_lowered(n.name@),
            ascii_lowered(pattern),
        ) && ascii_lowered(n.role@) == ascii_lowered(role),
{
}

/// Law: a search has one line for each element that is looked for, in order, and
/// none for the others.  A line tells the role, the name, and the center, the place
/// and the size if it is shown and has them.
pub proof fn searches_have_a_line_for_each_hit(
    nodes: Seq<UiNode>,
    n: UiNode,
    pattern: Seq<char>,
    role: Option<Seq<char>>,
    off: Option<(i32, i32)>,
)
    ensures
        hit_lines(Seq::<UiNode>::empty(), pattern, role, off).len() == 0,
        !is_hit(n, pattern, role) ==> hit_lines(nodes.push(n), pattern, role, off) == hit_lines(
            nodes,
            pattern,
            role,
            off,
        ),
        is_hit(n, pattern, role) ==> hit_lines(nodes.push(n), pattern, role, off) == hit_lines(
            nodes,
            pattern,
            role,
            off,
        ) + (n.role@ + " "@ + quoted(n.name@) + (if !n.showing {
            " [hidden — open its menu/pane first, then re-run]"@
        } else if n.rect is Some {
            let (x, y, w, h) = translated(n.rect->0, off);
            let (cx, cy) = center(n.rect->0, off);
            " center=("@ + decimal(cx) + ","@ + decimal(cy) + ") rect=("@ + (decimal(x) + ","@
                + decimal(y) + " "@ + decimal(w) + "x"@ + decimal(h)) + ")"@
        } else {
            Seq::<char>::empty()
        }) + "\n"@),
{
    assert(nodes.push(n).drop_last() =~= nodes);
}

/// Law: a search is answered with its lines just where there is an element that is
/// looked for; else it says what was looked for and in which window.  Either way it
/// says so if not all elements were visited.
pub proof fn searches_need_a_hit(
    id: int,
    off: Option<(i32, i32)>,
    nodes: Seq<UiNode>,
    truncated: bool,
    pattern: Seq<char>,
    role: Option<Seq<char>>,
)
    ensures
        ({
            let some = exists|i: int|
                0 <= i < nodes.len() && is_hit(#[trigger] nodes[i], pattern, role);
            let outcome = find_outcome(id, off, nodes, truncated, pattern, role);
            &&& some ==> outcome == Ok::<ResponseView, Seq<char>>(
                ResponseView::Done {
                    detail: Some(
                        trimmed_end(
                            coord_header(id, off) + "\n"@ + hit_lines(nodes, pattern, role, off)
                                + (if truncated {
                                "... walk truncated — matches beyond the budget were not seen\n"@
                            } else {
                                Seq::<char>::empty()
                            }),
                        ),
                    ),
                    paths: None,
                },
            )
            &&& !some ==> outcome == Err::<ResponseView, Seq<char>>(
                "no UI element matched name "@ + quoted(pattern) + (if role is Some {
                    " with role "@ + quoted(role->0)
                } else {
                    Seq::<char>::empty()
                }) + " in window "@ + decimal(id) + (if truncated {
                    " (walk truncated — the tree is very large)"@
                } else {
                    Seq::<char>::empty()
                }) + " — run `ui-tree "@ + decimal(id) + "` to see what the app exposes"@,
            )
            &&& find_fits(nodes, off, pattern, role) <==> forall|i: int|
                0 <= i < nodes.len() && is_hit(#[trigger] nodes[i], pattern, role)
                    && nodes[i].showing && nodes[i].rect is Some ==> has_center(
                    nodes[i].rect->0,
                    off,
                )
        }),
{
}

/// Law: a search compares ASCII texts alone just where the name and the pattern are
/// such and, if a role is asked for, the two roles.
pub proof fn ascii_searches_compare_ascii_texts(n: UiNode, pattern: Seq<char>, role: Seq<char>)
    ensures
        is_ascii_search(n, pattern, None) <==> is_ascii_text(n.name@) && is_ascii_text(pattern),
        is_ascii_search(n, pattern, Some(role)) <==> is_ascii_text(n.name@) && is_ascii_text(
            pattern,
        ) && is_ascii_text(n.role@) && is_ascii_text(role),
{
}

/// Law: a role that is asked for is taken as it is.
pub proof fn roles_are_taken_as_they_are(role: &str)
    ensures
        role_text(Some(role)) == Some(role@),
        role_text(None) is None,
{
}

} // verus!
