//! The reach of queries: which elements of a window they show.
//!
//! An element is reached by a path from the top: a list of elements each of which
//! lies directly below the one before it.  Its level is how far the path goes
//! down.

use vstd::prelude::*;

use crate::a11y::{shown_by, AccRef};
use crate::query::{walked_on, word_seq, QueryView, Target, UiEvent, UiGoal};
use crate::ui::UiNode;
use crate::walk::{
    below, findings, trail, trails, visits, walks_go_depth_first, Details, Phase, WalkView,
};

verus! {

/// Whether a list of elements is a path down from the top, every element of which
/// is shown unless hidden ones are wanted.
pub open spec fn is_path(
    showing: spec_fn(AccRef) -> bool,
    details: spec_fn(AccRef) -> Details,
    include_hidden: bool,
    top: AccRef,
    path: Seq<AccRef>,
) -> bool {
    &&& path.len() > 0
    &&& path[0] == top
    &&& forall|i: int|
        0 <= i < path.len() ==> include_hidden || showing(#[trigger] path[i])
    &&& forall|i: int|
        0 < i < path.len() ==> below(details(path[i - 1])).contains(#[trigger] path[i])
}

/// The node that is shown of the element at the end of a path.
pub open spec fn node_at(
    showing: spec_fn(AccRef) -> bool,
    details: spec_fn(AccRef) -> Details,
    path: Seq<AccRef>,
) -> UiNode {
    UiNode {
        depth: (path.len() - 1) as usize,
        role: details(path.last()).role,
        name: details(path.last()).name,
        rect: details(path.last()).rect,
        showing: showing(path.last()),
    }
}

proof fn kids_are_in_trails(
    showing: spec_fn(AccRef) -> bool,
    details: spec_fn(AccRef) -> Details,
    max_depth: usize,
    include_hidden: bool,
    kids: Seq<AccRef>,
    depth: usize,
    k: int,
    e: (AccRef, usize),
)
    requires
        0 <= k < kids.len(),
        trail(showing, details, max_depth, include_hidden, kids[k], depth).contains(e),
    ensures
        trails(showing, details, max_depth, include_hidden, kids, depth).contains(e),
    decreases kids.len(),
{
    let first = trail(showing, details, max_depth, include_hidden, kids[0], depth);
    let rest = trails(showing, details, max_depth, include_hidden, kids.skip(1), depth);
    let all = trails(showing, details, max_depth, include_hidden, kids, depth);
    if k == 0 {
        let i = choose|i: int| 0 <= i < first.len() && first[i] == e;
        assert(all[i] == e);
    } else {
        assert(kids.skip(1)[k - 1] == kids[k]);
        kids_are_in_trails(
            showing,
            details,
            max_depth,
            include_hidden,
            kids.skip(1),
            depth,
            k - 1,
            e,
        );
        let i = choose|i: int| 0 <= i < rest.len() && rest[i] == e;
        assert(all[first.len() + i] == e);
    }
}

proof fn paths_are_in_trails(
    showing: spec_fn(AccRef) -> bool,
    details: spec_fn(AccRef) -> Details,
    max_depth: usize,
    include_hidden: bool,
    top: AccRef,
    depth: usize,
    path: Seq<AccRef>,
)
    requires
        is_path(showing, details, include_hidden, top, path),
        depth + path.len() - 1 <= max_depth,
    ensures
        trail(showing, details, max_depth, include_hidden, top, depth).contains(
            (path.last(), (depth + path.len() - 1) as usize),
        ),
    decreases path.len(),
{
    let t = trail(showing, details, max_depth, include_hidden, top, depth);
    let e = (path.last(), (depth + path.len() - 1) as usize);
    if path.len() == 1 {
        assert(t[0] == e);
    } else {
        let rest = path.skip(1);
        let kids = below(details(top));
        let next = (depth + 1) as usize;
        assert(rest[0] == path[1]);
        assert(kids.contains(path[1]));
        let k = choose|k: int| 0 <= k < kids.len() && kids[k] == path[1];
        assert forall|i: int| 0 <= i < rest.len() implies include_hidden || showing(
            #[trigger] rest[i],
        ) by {
            assert(rest[i] == path[i + 1]);
        }
        assert forall|i: int| 0 < i < rest.len() implies below(details(rest[i - 1])).contains(
            #[trigger] rest[i],
        ) by {
            assert(rest[i] == path[i + 1]);
            assert(rest[i - 1] == path[i]);
        }
        paths_are_in_trails(
            showing,
            details,
            max_depth,
            include_hidden,
            kids[k],
            next,
            rest,
        );
        assert(rest.last() == path.last());
        kids_are_in_trails(showing, details, max_depth, include_hidden, kids, next, k, e);
        let under = trails(showing, details, max_depth, include_hidden, kids, next);
        assert(include_hidden || showing(path[0]));
        let i = choose|i: int| 0 <= i < under.len() && under[i] == e;
        assert(t[i + 1] == e);
    }
}

/// Whether an element, at a depth, lies at the end of a path of which all but the
/// end is shown unless hidden ones are wanted.
spec fn ends_path(
    showing: spec_fn(AccRef) -> bool,
    details: spec_fn(AccRef) -> Details,
    include_hidden: bool,
    top: AccRef,
    path: Seq<AccRef>,
    e: AccRef,
    len: int,
) -> bool {
    &&& path.len() == len
    &&& len > 0
    &&& path[0] == top
    &&& path.last() == e
    &&& forall|i: int|
        0 <= i < path.len() - 1 ==> include_hidden || showing(#[trigger] path[i])
    &&& forall|i: int|
        0 < i < path.len() ==> below(details(path[i - 1])).contains(#[trigger] path[i])
}

proof fn trails_come_from_kids(
    showing: spec_fn(AccRef) -> bool,
    details: spec_fn(AccRef) -> Details,
    max_depth: usize,
    include_hidden: bool,
    kids: Seq<AccRef>,
    depth: usize,
    i: int,
) -> (r: (int, int))
    requires
        0 <= i < trails(showing, details, max_depth, include_hidden, kids, depth).len(),
    ensures
        0 <= r.0 < kids.len(),
        0 <= r.1 < trail(showing, details, max_depth, include_hidden, kids[r.0], depth).len(),
        trail(showing, details, max_depth, include_hidden, kids[r.0], depth)[r.1] == trails(
            showing,
            details,
            max_depth,
            include_hidden,
            kids,
            depth,
        )[i],
    decreases kids.len(),
{
    let first = trail(showing, details, max_depth, include_hidden, kids[0], depth);
    if i < first.len() {
        (0, i)
    } else {
        let (k, j) = trails_come_from_kids(
            showing,
            details,
            max_depth,
            include_hidden,
            kids.skip(1),
            depth,
            i - first.len(),
        );
        assert(kids.skip(1)[k] == kids[k + 1]);
        (k + 1, j)
    }
}

proof fn trails_come_from_paths(
    showing: spec_fn(AccRef) -> bool,
    details: spec_fn(AccRef) -> Details,
    max_depth: usize,
    include_hidden: bool,
    top: AccRef,
    depth: usize,
    i: int,
) -> (path: Seq<AccRef>)
    requires
        0 <= i < trail(showing, details, max_depth, include_hidden, top, depth).len(),
        depth <= max_depth,
    ensures
        ({
            let e = trail(showing, details, max_depth, include_hidden, top, depth)[i];
            depth <= e.1 <= max_depth && ends_path(
                showing,
                details,
                include_hidden,
                top,
                path,
                e.0,
                e.1 - depth + 1,
            )
        }),
    decreases max_depth - depth,
{
    if i == 0 {
        seq![top]
    } else {
        let kids = below(details(top));
        let next = (depth + 1) as usize;
        let (k, j) = trails_come_from_kids(
            showing,
            details,
            max_depth,
            include_hidden,
            kids,
            next,
            i - 1,
        );
        let rest = trails_come_from_paths(
            showing,
            details,
            max_depth,
            include_hidden,
            kids[k],
            next,
            j,
        );
        let path = seq![top] + rest;
        assert(path.last() == rest.last());
        assert forall|m: int| 0 <= m < path.len() - 1 implies include_hidden || showing(
            #[trigger] path[m],
        ) by {
            if m > 0 {
                assert(path[m] == rest[m - 1]);
            }
        }
        assert forall|m: int| 0 < m < path.len() implies below(details(path[m - 1])).contains(
            #[trigger] path[m],
        ) by {
            if m == 1 {
                assert(kids.contains(path[1]));
            } else {
                assert(path[m] == rest[m - 1]);
                assert(path[m - 1] == rest[m - 2]);
            }
        }
        path
    }
}

/// Law: an element is visited before what lies below it, and what lies below one
/// of its children before the next child, in the order in which the application
/// tells them.
pub proof fn elements_come_before_what_lies_below(
    showing: spec_fn(AccRef) -> bool,
    details: spec_fn(AccRef) -> Details,
    max_depth: usize,
    include_hidden: bool,
    r: AccRef,
    depth: usize,
)
    ensures
        trail(showing, details, max_depth, include_hidden, r, depth) == seq![(r, depth)] + (if (
        include_hidden || showing(r)) && depth < max_depth {
            below(details(r)).map_values(
                |kid: AccRef|
                    trail(showing, details, max_depth, include_hidden, kid, (depth + 1) as usize),
            ).flatten()
        } else {
            Seq::<(AccRef, usize)>::empty()
        }),
{
    if (include_hidden || showing(r)) && depth < max_depth {
        trails_are_flat(
            showing,
            details,
            max_depth,
            include_hidden,
            below(details(r)),
            (depth + 1) as usize,
        );
    }
}

proof fn trails_are_flat(
    showing: spec_fn(AccRef) -> bool,
    details: spec_fn(AccRef) -> Details,
    max_depth: usize,
    include_hidden: bool,
    kids: Seq<AccRef>,
    depth: usize,
)
    ensures
        trails(showing, details, max_depth, include_hidden, kids, depth) == kids.map_values(
            |kid: AccRef| trail(showing, details, max_depth, include_hidden, kid, depth),
        ).flatten(),
    decreases kids.len(),
{
    let f = |kid: AccRef| trail(showing, details, max_depth, include_hidden, kid, depth);
    let all = kids.map_values(f);
    if kids.len() > 0 {
        trails_are_flat(showing, details, max_depth, include_hidden, kids.skip(1), depth);
        assert(all.drop_first() =~= kids.skip(1).map_values(f));
        assert(all.first() == f(kids[0]));
    }
}

/// Law: of the elements that are visited those are found, in the same order, that
/// are shown, or all if hidden ones are wanted; each with its own depth, role, name
/// and place.
pub proof fn elements_are_found_in_order(
    showing: spec_fn(AccRef) -> bool,
    details: spec_fn(AccRef) -> Details,
    include_hidden: bool,
    t: Seq<(AccRef, usize)>,
)
    ensures
        findings(showing, details, include_hidden, t) == t.filter(
            |e: (AccRef, usize)| include_hidden || showing(e.0),
        ).map_values(
            |e: (AccRef, usize)|
                UiNode {
                    depth: e.1,
                    role: details(e.0).role,
                    name: details(e.0).name,
                    rect: details(e.0).rect,
                    showing: showing(e.0),
                },
        ),
    decreases t.len(),
{
    reveal(Seq::filter);
    let p = |e: (AccRef, usize)| include_hidden || showing(e.0);
    let f = |e: (AccRef, usize)|
        UiNode {
            depth: e.1,
            role: details(e.0).role,
            name: details(e.0).name,
            rect: details(e.0).rect,
            showing: showing(e.0),
        };
    if t.len() == 0 {
        assert(t.filter(p).map_values(f) =~= Seq::<UiNode>::empty());
    } else {
        elements_are_found_in_order(showing, details, include_hidden, t.drop_last());
        let before = t.drop_last().filter(p);
        if p(t.last()) {
            assert(before.push(t.last()).map_values(f) =~= before.map_values(f).push(f(t.last())));
        }
    }
}

proof fn found_elements_are_in_findings(
    showing: spec_fn(AccRef) -> bool,
    details: spec_fn(AccRef) -> Details,
    include_hidden: bool,
    t: Seq<(AccRef, usize)>,
    i: int,
)
    requires
        0 <= i < t.len(),
        include_hidden || showing(t[i].0),
    ensures
        findings(showing, details, include_hidden, t).contains(
            UiNode {
                depth: t[i].1,
                role: details(t[i].0).role,
                name: details(t[i].0).name,
                rect: details(t[i].0).rect,
                showing: showing(t[i].0),
            },
        ),
    decreases t.len(),
{
    let all = findings(showing, details, include_hidden, t);
    let rest = findings(showing, details, include_hidden, t.drop_last());
    let node = UiNode {
        depth: t[i].1,
        role: details(t[i].0).role,
        name: details(t[i].0).name,
        rect: details(t[i].0).rect,
        showing: showing(t[i].0),
    };
    if i == t.len() - 1 {
        assert(all.last() == node);
        assert(all[all.len() - 1] == node);
    } else {
        assert(t.drop_last()[i] == t[i]);
        found_elements_are_in_findings(showing, details, include_hidden, t.drop_last(), i);
        let k = choose|k: int| 0 <= k < rest.len() && rest[k] == node;
        assert(all[k] == node);
    }
}

proof fn findings_come_from_elements(
    showing: spec_fn(AccRef) -> bool,
    details: spec_fn(AccRef) -> Details,
    include_hidden: bool,
    t: Seq<(AccRef, usize)>,
    k: int,
) -> (i: int)
    requires
        0 <= k < findings(showing, details, include_hidden, t).len(),
    ensures
        0 <= i < t.len(),
        include_hidden || showing(t[i].0),
        findings(showing, details, include_hidden, t)[k] == (UiNode {
            depth: t[i].1,
            role: details(t[i].0).role,
            name: details(t[i].0).name,
            rect: details(t[i].0).rect,
            showing: showing(t[i].0),
        }),
    decreases t.len(),
{
    let rest = findings(showing, details, include_hidden, t.drop_last());
    if k < rest.len() {
        let i = findings_come_from_elements(
            showing,
            details,
            include_hidden,
            t.drop_last(),
            k,
        );
        assert(t.drop_last()[i] == t[i]);
        i
    } else {
        t.len() - 1
    }
}

// ---------------------------------------------------------------------------
// Whole queries
// ---------------------------------------------------------------------------

/// A query that walks, after it was told what it asks of one element.
/// `words_of` and `details_of` say what the application tells of its elements.
pub open spec fn told_element(
    q: QueryView,
    words_of: spec_fn(AccRef) -> Option<Vec<u32>>,
    details_of: spec_fn(AccRef) -> Details,
) -> QueryView {
    match q {
        QueryView::Walking { id, off, goal, walk } => match walk.phase {
            Phase::Looking { at, depth } => {
                let looked = q.told(UiEvent::State(words_of(at)));
                match looked {
                    QueryView::Walking { id: _, off: _, goal: _, walk: after } => match after.phase {
                        Phase::Reading { at: next, depth: _, showing: _ } => looked.told(
                            UiEvent::Details(details_of(next)),
                        ),
                        _ => looked,
                    },
                    _ => looked,
                }
            },
            _ => q,
        },
        _ => q,
    }
}

/// A query that walks, after it was told what it asks of several elements.
pub open spec fn told_elements(
    q: QueryView,
    words_of: spec_fn(AccRef) -> Option<Vec<u32>>,
    details_of: spec_fn(AccRef) -> Details,
    n: nat,
) -> QueryView
    decreases n,
{
    if n == 0 {
        q
    } else {
        told_element(
            told_elements(q, words_of, details_of, (n - 1) as nat),
            words_of,
            details_of,
        )
    }
}

proof fn walks_look_or_are_over(
    showing: spec_fn(AccRef) -> bool,
    details: spec_fn(AccRef) -> Details,
    v: WalkView,
    n: nat,
)
    requires
        v.phase is Looking,
    ensures
        visits(showing, details, v, n).phase is Looking || visits(
            showing,
            details,
            v,
            n,
        ).phase is Over,
    decreases n,
{
    if n > 0 {
        walks_look_or_are_over(showing, details, v, (n - 1) as nat);
    }
}

proof fn queries_walk(
    id: crate::window::WindowId,
    off: Option<(i32, i32)>,
    goal: UiGoal,
    v: WalkView,
    words_of: spec_fn(AccRef) -> Option<Vec<u32>>,
    details_of: spec_fn(AccRef) -> Details,
    n: nat,
)
    requires
        v.phase is Looking,
    ensures
        told_elements(
            QueryView::Walking { id, off, goal, walk: v },
            words_of,
            details_of,
            n,
        ) == walked_on(
            id,
            off,
            goal,
            visits(|r: AccRef| shown_by(word_seq(words_of(r))), details_of, v, n),
        ),
    decreases n,
{
    let showing = |r: AccRef| shown_by(word_seq(words_of(r)));
    if n > 0 {
        let m = (n - 1) as nat;
        queries_walk(id, off, goal, v, words_of, details_of, m);
        walks_look_or_are_over(showing, details_of, v, m);
    }
}

proof fn over_walks_stay(
    showing: spec_fn(AccRef) -> bool,
    details: spec_fn(AccRef) -> Details,
    v: WalkView,
    m: nat,
    n: nat,
)
    requires
        m <= n,
        visits(showing, details, v, m).phase is Over,
    ensures
        visits(showing, details, v, n) == visits(showing, details, v, m),
    decreases n,
{
    if m < n {
        over_walks_stay(showing, details, v, m, (n - 1) as nat);
    }
}

/// Law: when a query has walked through the elements of a window, it shows those
/// that a path leads to, and no others: down to the level that a tree was asked
/// for; and down to the fortieth for a tree without a level, and for every search.
/// A search shows hidden elements too, and a tree just if it was asked for all.
/// Only if more than five thousand elements had to be visited can one be left out,
/// and then the query says so.
pub proof fn queries_show_what_paths_lead_to(
    t: Target,
    top: AccRef,
    rect: Option<(i32, i32, i32, i32)>,
    words_of: spec_fn(AccRef) -> Option<Vec<u32>>,
    details_of: spec_fn(AccRef) -> Details,
    n: nat,
)
    ensures
        ({
            let levels: usize = match t.goal {
                UiGoal::Tree { depth: Some(d), all: _ } => d as usize,
                UiGoal::Tree { depth: None, all: _ } => 40,
                UiGoal::Find { pattern: _, role: _ } => 40,
            };
            let hidden = match t.goal {
                UiGoal::Tree { depth: _, all } => all,
                UiGoal::Find { pattern: _, role: _ } => true,
            };
            let showing = |r: AccRef| shown_by(word_seq(words_of(r)));
            let q = QueryView::Measuring { t, top }.told(UiEvent::Screen(rect));
            match told_elements(q, words_of, details_of, n) {
                QueryView::Walked { id, off, goal, nodes, truncated } => {
                    &&& id == t.id
                    &&& goal == t.goal
                    &&& truncated <==> trail(showing, details_of, levels, hidden, top, 0).len()
                        > 5000
                    &&& nodes.len() <= 5000
                    &&& !truncated ==> forall|path: Seq<AccRef>|
                        is_path(showing, details_of, hidden, top, path) && path.len() - 1 <= levels
                            ==> nodes.contains(#[trigger] node_at(showing, details_of, path))
                    &&& forall|node: UiNode| #[trigger]
                        nodes.contains(node) ==> exists|path: Seq<AccRef>|
                            is_path(showing, details_of, hidden, top, path) && path.len() - 1
                                <= levels && node == #[trigger] node_at(
                                showing,
                                details_of,
                                path,
                            )
                },
                QueryView::Walking { id, off, goal, walk } => id == t.id && goal == t.goal && n
                    < 5000,
                _ => false,
            }
        }),
{
    let levels: usize = match t.goal {
        UiGoal::Tree { depth: Some(d), all: _ } => d as usize,
        UiGoal::Tree { depth: None, all: _ } => 40,
        UiGoal::Find { pattern: _, role: _ } => 40,
    };
    let hidden = match t.goal {
        UiGoal::Tree { depth: _, all } => all,
        UiGoal::Find { pattern: _, role: _ } => true,
    };
    let showing = |r: AccRef| shown_by(word_seq(words_of(r)));
    let q = QueryView::Measuring { t, top }.told(UiEvent::Screen(rect));
    let v = WalkView::begun(top, levels, hidden);
    queries_walk(t.id, q->Walking_off, t.goal, v, words_of, details_of, n);
    walks_go_depth_first(showing, details_of, top, levels, hidden);
    walks_look_or_are_over(showing, details_of, v, n);
    let all = trail(showing, details_of, levels, hidden, top, 0);
    let m: nat = if all.len() > 5000 {
        5000
    } else {
        all.len()
    };
    let last = visits(showing, details_of, v, n);
    if n >= m {
        over_walks_stay(showing, details_of, v, m, n);
    } else if last.phase is Over {
        over_walks_stay(showing, details_of, v, n, m);
    }
    if last.phase is Over {
        let seen = all.take(m as int);
        let nodes = findings(showing, details_of, hidden, seen);
        assert(last.out == nodes);
        findings_are_fewer(showing, details_of, hidden, seen);
        if all.len() <= 5000 {
            assert(seen =~= all);
            assert forall|path: Seq<AccRef>|
                is_path(showing, details_of, hidden, top, path) && path.len() - 1
                    <= levels implies nodes.contains(
                #[trigger] node_at(showing, details_of, path),
            ) by {
                paths_are_in_trails(showing, details_of, levels, hidden, top, 0, path);
                let e = (path.last(), (path.len() - 1) as usize);
                let i = choose|i: int| 0 <= i < all.len() && all[i] == e;
                assert(hidden || showing(path[path.len() - 1]));
                found_elements_are_in_findings(showing, details_of, hidden, all, i);
            }
        }
        assert forall|node: UiNode| #[trigger] nodes.contains(node) implies exists|
            path: Seq<AccRef>,
        |
            is_path(showing, details_of, hidden, top, path) && path.len() - 1 <= levels && node
                == #[trigger] node_at(showing, details_of, path) by {
            let k = choose|k: int| 0 <= k < nodes.len() && nodes[k] == node;
            let i = findings_come_from_elements(showing, details_of, hidden, seen, k);
            assert(seen[i] == all[i]);
            let path = trails_come_from_paths(showing, details_of, levels, hidden, top, 0, i);
            assert forall|j: int| 0 <= j < path.len() implies hidden || showing(
                #[trigger] path[j],
            ) by {
                if j == path.len() - 1 {
                    assert(path[j] == all[i].0);
                }
            }
            assert(is_path(showing, details_of, hidden, top, path));
            assert(node == node_at(showing, details_of, path));
        }
    }
}

proof fn findings_are_fewer(
    showing: spec_fn(AccRef) -> bool,
    details: spec_fn(AccRef) -> Details,
    include_hidden: bool,
    t: Seq<(AccRef, usize)>,
)
    ensures
        findings(showing, details, include_hidden, t).len() <= t.len(),
    decreases t.len(),
{
    if t.len() > 0 {
        findings_are_fewer(showing, details, include_hidden, t.drop_last());
    }
}

} // verus!
