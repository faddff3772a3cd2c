//! The walk through the elements of a window.
//!
//! Elements are visited depth first, children in order.  Of each it is asked
//! whether it is shown; one that is not is passed over with all below it, unless
//! hidden elements are wanted.  Of the others the details are asked.  The walk
//! ends when all have been visited, or when too many have.

use vstd::prelude::*;

use crate::a11y::{acc_children, acc_showing, elements, shown_by, AccRef};
use crate::ui::UiNode;

verus! {

/// How many elements are visited at most.
pub const UI_WALK_BUDGET: usize = 5000;

/// How deep a walk goes unless it is told otherwise.
pub const UI_DEFAULT_DEPTH: u32 = 40;

/// Where a walk is.
#[derive(Debug)]
pub enum Phase {
    /// It has to be told whether an element is shown.
    Looking { at: AccRef, depth: usize },
    /// It has to be told the details of an element.
    Reading { at: AccRef, depth: usize, showing: bool },
    /// It is over.
    Over { truncated: bool },
}

/// The details of an element.
#[derive(Debug)]
pub struct Details {
    pub role: String,
    pub name: String,
    pub rect: Option<(i32, i32, i32, i32)>,
    /// What lies directly below it, if that was asked for and could be told.
    pub children: Option<Vec<AccRef>>,
}

/// A walk.
#[derive(Debug)]
pub struct Walk {
    max_depth: usize,
    include_hidden: bool,
    /// What is still to be visited, the next last.
    stack: Vec<(AccRef, usize)>,
    visited: usize,
    out: Vec<UiNode>,
    phase: Phase,
}

/// A walk as a value.
pub struct WalkView {
    pub max_depth: usize,
    pub include_hidden: bool,
    pub stack: Seq<(AccRef, usize)>,
    pub visited: int,
    pub out: Seq<UiNode>,
    pub phase: Phase,
}

impl View for Walk {
    type V = WalkView;

    closed spec fn view(&self) -> WalkView {
        WalkView {
            max_depth: self.max_depth,
            include_hidden: self.include_hidden,
            stack: self.stack@,
            visited: self.visited as int,
            out: self.out@,
            phase: self.phase,
        }
    }
}

/// The elements directly below an element, as they were told.
pub open spec fn below(d: Details) -> Seq<AccRef> {
    match d.children {
        Some(refs) => elements(refs@),
        None => Seq::<AccRef>::empty(),
    }
}

/// The elements of a list, at a depth, the first last.
pub open spec fn piled(kids: Seq<AccRef>, depth: usize) -> Seq<(AccRef, usize)> {
    Seq::new(kids.len(), |i: int| (kids[kids.len() - 1 - i], depth))
}

impl WalkView {
    /// A walk that begins at an element.
    pub open spec fn begun(top: AccRef, max_depth: usize, include_hidden: bool) -> WalkView {
        WalkView {
            max_depth,
            include_hidden,
            stack: Seq::<(AccRef, usize)>::empty(),
            visited: 1,
            out: Seq::<UiNode>::empty(),
            phase: Phase::Looking { at: top, depth: 0 },
        }
    }

    /// The walk gone on to the next element, if there is one and the budget
    /// allows it.
    pub open spec fn gone_on(self) -> WalkView {
        if self.stack.len() == 0 {
            WalkView { phase: Phase::Over { truncated: false }, ..self }
        } else if self.visited >= UI_WALK_BUDGET {
            WalkView { phase: Phase::Over { truncated: true }, ..self }
        } else {
            WalkView {
                stack: self.stack.drop_last(),
                visited: self.visited + 1,
                phase: Phase::Looking { at: self.stack.last().0, depth: self.stack.last().1 },
                ..self
            }
        }
    }

    /// The walk after it was told whether the element is shown.
    pub open spec fn looked(self, showing: bool) -> WalkView {
        match self.phase {
            Phase::Looking { at, depth } => if !showing && !self.include_hidden {
                self.gone_on()
            } else {
                WalkView { phase: Phase::Reading { at, depth, showing }, ..self }
            },
            _ => self,
        }
    }

    /// The walk after it was told the details of the element.
    pub open spec fn read(self, d: Details) -> WalkView {
        match self.phase {
            Phase::Reading { at, depth, showing } => {
                let node = UiNode { depth, role: d.role, name: d.name, rect: d.rect, showing };
                WalkView {
                    out: self.out.push(node),
                    stack: if depth < self.max_depth {
                        self.stack + piled(below(d), (depth + 1) as usize)
                    } else {
                        self.stack
                    },
                    ..self
                }.gone_on()
            },
            _ => self,
        }
    }
}

impl Walk {
    /// No more elements are visited than the budget allows.
    #[verifier::type_invariant]
    spec fn within_budget(self) -> bool {
        self.visited <= UI_WALK_BUDGET
    }

    /// Begins a walk at an element.
    pub fn new(top: AccRef, max_depth: usize, include_hidden: bool) -> (r: Walk)
        ensures
            r@ == WalkView::begun(top, max_depth, include_hidden),
    {
        Walk {
            max_depth,
            include_hidden,
            stack: Vec::new(),
            visited: 1,
            out: Vec::new(),
            phase: Phase::Looking { at: top, depth: 0 },
        }
    }

    /// Where the walk is.
    pub fn phase(&self) -> (r: &Phase)
        ensures
            *r == self@.phase,
    {
        &self.phase
    }

    /// Whether the children of the element are wanted.
    pub fn wants_children(&self) -> (r: bool)
        ensures
            r == (match self@.phase {
                Phase::Reading { at, depth, showing } => depth < self@.max_depth,
                _ => false,
            }),
    {
        match &self.phase {
            Phase::Reading { at, depth, showing } => *depth < self.max_depth,
            _ => false,
        }
    }

    fn go_on(self) -> (r: Walk)
        ensures
            r@ == self@.gone_on(),
    {
        proof {
            use_type_invariant(&self);
        }
        let Walk { max_depth, include_hidden, mut stack, visited, out, phase } = self;
        if visited >= UI_WALK_BUDGET && stack.len() > 0 {
            return Walk {
                max_depth,
                include_hidden,
                stack,
                visited,
                out,
                phase: Phase::Over { truncated: true },
            };
        }
        match stack.pop() {
            None => Walk {
                max_depth,
                include_hidden,
                stack,
                visited,
                out,
                phase: Phase::Over { truncated: false },
            },
            Some((at, depth)) => Walk {
                max_depth,
                include_hidden,
                stack,
                visited: visited + 1,
                out,
                phase: Phase::Looking { at, depth },
            },
        }
    }

    /// Tells the walk the words of the state of the element, if they could be
    /// read.
    pub fn on_state(self, words: Option<Vec<u32>>) -> (r: Walk)
        ensures
            r@ == self@.looked(
                shown_by(
                    match words {
                        Some(w) => Some(w@),
                        None => None,
                    },
                ),
            ),
    {
        proof {
            use_type_invariant(&self);
        }
        let showing: bool = acc_showing(words);
        let Walk { max_depth, include_hidden, stack, visited, out, phase } = self;
        match phase {
            Phase::Looking { at, depth } => {
                if !showing && !include_hidden {
                    let w: Walk = Walk {
                        max_depth,
                        include_hidden,
                        stack,
                        visited,
                        out,
                        phase: Phase::Looking { at, depth },
                    };
                    w.go_on()
                } else {
                    Walk {
                        max_depth,
                        include_hidden,
                        stack,
                        visited,
                        out,
                        phase: Phase::Reading { at, depth, showing },
                    }
                }
            },
            _ => Walk { max_depth, include_hidden, stack, visited, out, phase },
        }
    }

    /// Tells the walk the details of the element.
    pub fn on_details(self, d: Details) -> (r: Walk)
        ensures
            r@ == self@.read(d),
    {
        proof {
            use_type_invariant(&self);
        }
        let ghost before = self@;
        let Walk { max_depth, include_hidden, stack, visited, out, phase } = self;
        match phase {
            Phase::Reading { at, depth, showing } => {
                let mut out: Vec<UiNode> = out;
                let mut stack: Vec<(AccRef, usize)> = stack;
                let Details { role, name, rect, children } = d;
                out.push(UiNode { depth, role, name, rect, showing });
                if depth < max_depth {
                    let mut kids: Vec<AccRef> = match children {
                        Some(refs) => acc_children(refs),
                        None => Vec::new(),
                    };
                    assert(kids@ =~= below(d));
                    let ghost pile = piled(kids@, (depth + 1) as usize);
                    let ghost start = stack@;
                    let ghost all = kids@;
                    assert(start + pile.take(0) =~= start);
                    while kids.len() > 0
                        invariant
                            depth < max_depth,
                            kids@.len() <= all.len(),
                            kids@ == all.take(kids@.len() as int),
                            pile == piled(all, (depth + 1) as usize),
                            stack@ == start + pile.take(all.len() - kids@.len()),
                        decreases kids.len(),
                    {
                        let ghost left = kids@;
                        if let Some(k) = kids.pop() {
                            assert(k == all[left.len() - 1]);
                            stack.push((k, depth + 1));
                            assert(kids@ =~= all.take(kids@.len() as int));
                            assert(stack@ =~= start + pile.take(all.len() - kids@.len()));
                        }
                    }
                    assert(pile.take(all.len() as int) =~= pile);
                }
                let w: Walk = Walk {
                    max_depth,
                    include_hidden,
                    stack,
                    visited,
                    out,
                    phase: Phase::Reading { at, depth, showing },
                };
                w.go_on()
            },
            _ => Walk { max_depth, include_hidden, stack, visited, out, phase },
        }
    }

    /// The elements that were found, and whether there would have been more.
    pub fn finish(self) -> (r: (Vec<UiNode>, bool))
        ensures
            r.0@ == self@.out,
            r.1 == (self@.phase matches Phase::Over { truncated } && truncated),
    {
        let truncated: bool = match self.phase {
            Phase::Over { truncated } => truncated,
            _ => false,
        };
        (self.out, truncated)
    }
}

// ---------------------------------------------------------------------------
// What a walk finds
// ---------------------------------------------------------------------------

/// The elements from one on, depth first and children in order, each with its
/// depth.  `showing` and `details` say what the application tells of its
/// elements.  Nothing below an element that is passed over, or at the greatest
/// depth, belongs to them.
pub open spec fn trail(
    showing: spec_fn(AccRef) -> bool,
    details: spec_fn(AccRef) -> Details,
    max_depth: usize,
    include_hidden: bool,
    r: AccRef,
    depth: usize,
) -> Seq<(AccRef, usize)>
    decreases max_depth - depth, 0nat,
{
    seq![(r, depth)] + (if (!showing(r) && !include_hidden) || depth >= max_depth {
        Seq::<(AccRef, usize)>::empty()
    } else {
        trails(
            showing,
            details,
            max_depth,
            include_hidden,
            below(details(r)),
            (depth + 1) as usize,
        )
    })
}

/// The elements from each of a list on.
pub open spec fn trails(
    showing: spec_fn(AccRef) -> bool,
    details: spec_fn(AccRef) -> Details,
    max_depth: usize,
    include_hidden: bool,
    kids: Seq<AccRef>,
    depth: usize,
) -> Seq<(AccRef, usize)>
    decreases max_depth - depth, kids.len() + 1,
{
    if kids.len() == 0 {
        Seq::<(AccRef, usize)>::empty()
    } else {
        trail(showing, details, max_depth, include_hidden, kids[0], depth) + trails(
            showing,
            details,
            max_depth,
            include_hidden,
            kids.skip(1),
            depth,
        )
    }
}

/// What is found of the elements of a trail: those that are not passed over.
pub open spec fn findings(
    showing: spec_fn(AccRef) -> bool,
    details: spec_fn(AccRef) -> Details,
    include_hidden: bool,
    t: Seq<(AccRef, usize)>,
) -> Seq<UiNode>
    decreases t.len(),
{
    if t.len() == 0 {
        Seq::<UiNode>::empty()
    } else {
        let before = findings(showing, details, include_hidden, t.drop_last());
        let (r, depth) = t.last();
        if !showing(r) && !include_hidden {
            before
        } else {
            before.push(
                UiNode {
                    depth,
                    role: details(r).role,
                    name: details(r).name,
                    rect: details(r).rect,
                    showing: showing(r),
                },
            )
        }
    }
}

/// A walk after one more element was visited.
pub open spec fn visit(
    showing: spec_fn(AccRef) -> bool,
    details: spec_fn(AccRef) -> Details,
    v: WalkView,
) -> WalkView {
    match v.phase {
        Phase::Looking { at, depth } => match v.looked(showing(at)).phase {
            Phase::Reading { at: _, depth: _, showing: _ } => v.looked(showing(at)).read(
                details(at),
            ),
            _ => v.looked(showing(at)),
        },
        _ => v,
    }
}

/// A walk after some more elements were visited.
pub open spec fn visits(
    showing: spec_fn(AccRef) -> bool,
    details: spec_fn(AccRef) -> Details,
    v: WalkView,
    n: nat,
) -> WalkView
    decreases n,
{
    if n == 0 {
        v
    } else {
        visit(showing, details, visits(showing, details, v, (n - 1) as nat))
    }
}

spec fn pending(
    showing: spec_fn(AccRef) -> bool,
    details: spec_fn(AccRef) -> Details,
    max_depth: usize,
    include_hidden: bool,
    stack: Seq<(AccRef, usize)>,
) -> Seq<(AccRef, usize)>
    decreases stack.len(),
{
    if stack.len() == 0 {
        Seq::<(AccRef, usize)>::empty()
    } else {
        trail(
            showing,
            details,
            max_depth,
            include_hidden,
            stack.last().0,
            stack.last().1,
        ) + pending(showing, details, max_depth, include_hidden, stack.drop_last())
    }
}

proof fn pending_pile(
    showing: spec_fn(AccRef) -> bool,
    details: spec_fn(AccRef) -> Details,
    max_depth: usize,
    include_hidden: bool,
    stack: Seq<(AccRef, usize)>,
    kids: Seq<AccRef>,
    depth: usize,
)
    ensures
        pending(showing, details, max_depth, include_hidden, stack + piled(kids, depth)) == trails(
            showing,
            details,
            max_depth,
            include_hidden,
            kids,
            depth,
        ) + pending(showing, details, max_depth, include_hidden, stack),
    decreases kids.len(),
{
    let pile = piled(kids, depth);
    let under = pending(showing, details, max_depth, include_hidden, stack);
    if kids.len() == 0 {
        assert(stack + pile =~= stack);
        assert(Seq::<(AccRef, usize)>::empty() + under =~= under);
    } else {
        let rest = kids.skip(1);
        pending_pile(showing, details, max_depth, include_hidden, stack, rest, depth);
        assert((stack + pile).drop_last() =~= stack + piled(rest, depth));
        assert((stack + pile).last() == (kids[0], depth));
        let first = trail(showing, details, max_depth, include_hidden, kids[0], depth);
        let others = trails(showing, details, max_depth, include_hidden, rest, depth);
        assert(first + (others + under) =~= (first + others) + under);
    }
}

spec fn ahead(
    showing: spec_fn(AccRef) -> bool,
    details: spec_fn(AccRef) -> Details,
    v: WalkView,
) -> Seq<(AccRef, usize)> {
    match v.phase {
        Phase::Looking { at, depth } => trail(
            showing,
            details,
            v.max_depth,
            v.include_hidden,
            at,
            depth,
        ) + pending(showing, details, v.max_depth, v.include_hidden, v.stack),
        _ => Seq::<(AccRef, usize)>::empty(),
    }
}

proof fn visit_advances(
    showing: spec_fn(AccRef) -> bool,
    details: spec_fn(AccRef) -> Details,
    v: WalkView,
)
    requires
        v.phase is Looking,
    ensures
        ahead(showing, details, v).len() > 0,
        visit(showing, details, v).max_depth == v.max_depth,
        visit(showing, details, v).include_hidden == v.include_hidden,
        visit(showing, details, v).out == v.out + findings(
            showing,
            details,
            v.include_hidden,
            ahead(showing, details, v).take(1),
        ),
        ahead(showing, details, v).len() == 1 ==> visit(showing, details, v).phase
            == (Phase::Over { truncated: false }),
        ahead(showing, details, v).len() > 1 && v.visited >= UI_WALK_BUDGET ==> visit(
            showing,
            details,
            v,
        ).phase == (Phase::Over { truncated: true }),
        ahead(showing, details, v).len() > 1 && v.visited < UI_WALK_BUDGET ==> {
            &&& visit(showing, details, v).phase is Looking
            &&& visit(showing, details, v).visited == v.visited + 1
            &&& ahead(showing, details, visit(showing, details, v)) == ahead(
                showing,
                details,
                v,
            ).skip(1)
        },
{
    let (at, depth) = (v.phase->Looking_at, v.phase->Looking_depth);
    let a = ahead(showing, details, v);
    let under = pending(showing, details, v.max_depth, v.include_hidden, v.stack);
    let w = visit(showing, details, v);
    let stack = if (!showing(at) && !v.include_hidden) || depth >= v.max_depth {
        v.stack
    } else {
        v.stack + piled(below(details(at)), (depth + 1) as usize)
    };
    let p = pending(showing, details, v.max_depth, v.include_hidden, stack);
    assert(a.take(1) =~= seq![(at, depth)]);
    assert(a.take(1).drop_last() =~= Seq::<(AccRef, usize)>::empty());
    assert(findings(showing, details, v.include_hidden, a.take(1).drop_last()) =~= Seq::<
        UiNode,
    >::empty());
    assert(w.out =~= v.out + findings(showing, details, v.include_hidden, a.take(1)));
    assert(a.skip(1) =~= p) by {
        if (!showing(at) && !v.include_hidden) || depth >= v.max_depth {
            assert(a =~= seq![(at, depth)] + under);
        } else {
            let kids = below(details(at));
            pending_pile(
                showing,
                details,
                v.max_depth,
                v.include_hidden,
                v.stack,
                kids,
                (depth + 1) as usize,
            );
            let t = trails(
                showing,
                details,
                v.max_depth,
                v.include_hidden,
                kids,
                (depth + 1) as usize,
            );
            assert(a =~= seq![(at, depth)] + (t + under));
        }
    }
    if stack.len() > 0 {
        assert(p.len() > 0);
    }
}

proof fn findings_add_up(
    showing: spec_fn(AccRef) -> bool,
    details: spec_fn(AccRef) -> Details,
    include_hidden: bool,
    t: Seq<(AccRef, usize)>,
    n: int,
)
    requires
        0 <= n < t.len(),
    ensures
        findings(showing, details, include_hidden, t.take(n + 1)) == findings(
            showing,
            details,
            include_hidden,
            t.take(n),
        ) + findings(showing, details, include_hidden, t.skip(n).take(1)),
{
    assert(t.take(n + 1).drop_last() =~= t.take(n));
    assert(t.skip(n).take(1).drop_last() =~= Seq::<(AccRef, usize)>::empty());
    assert(findings(showing, details, include_hidden, t.skip(n).take(1).drop_last()) =~= Seq::<
        UiNode,
    >::empty());
    assert(findings(showing, details, include_hidden, t.take(n + 1)) =~= findings(
        showing,
        details,
        include_hidden,
        t.take(n),
    ) + findings(showing, details, include_hidden, t.skip(n).take(1)));
}

proof fn walk_follows_trail(
    showing: spec_fn(AccRef) -> bool,
    details: spec_fn(AccRef) -> Details,
    top: AccRef,
    max_depth: usize,
    include_hidden: bool,
    n: nat,
)
    requires
        n < trail(showing, details, max_depth, include_hidden, top, 0).len(),
        n < UI_WALK_BUDGET,
    ensures
        ({
            let t = trail(showing, details, max_depth, include_hidden, top, 0);
            let v = visits(
                showing,
                details,
                WalkView::begun(top, max_depth, include_hidden),
                n,
            );
            &&& v.phase is Looking
            &&& v.visited == n + 1
            &&& v.max_depth == max_depth
            &&& v.include_hidden == include_hidden
            &&& ahead(showing, details, v) == t.skip(n as int)
            &&& v.out == findings(showing, details, include_hidden, t.take(n as int))
        }),
    decreases n,
{
    let t = trail(showing, details, max_depth, include_hidden, top, 0);
    if n == 0 {
        let v = WalkView::begun(top, max_depth, include_hidden);
        assert(pending(showing, details, max_depth, include_hidden, v.stack) =~= Seq::<
            (AccRef, usize),
        >::empty());
        assert(ahead(showing, details, v) =~= t.skip(0));
        assert(findings(showing, details, include_hidden, t.take(0)) =~= Seq::<UiNode>::empty());
    } else {
        let m = (n - 1) as nat;
        walk_follows_trail(showing, details, top, max_depth, include_hidden, m);
        let v = visits(showing, details, WalkView::begun(top, max_depth, include_hidden), m);
        visit_advances(showing, details, v);
        findings_add_up(showing, details, include_hidden, t, m as int);
        assert(t.skip(m as int).skip(1) =~= t.skip(n as int));
    }
}

/// Law: a walk visits the elements depth first and in order, and finds those
/// that are not passed over.  It stops when the budget is spent, and then, and
/// only then, it says that there would have been more.
pub proof fn walks_go_depth_first(
    showing: spec_fn(AccRef) -> bool,
    details: spec_fn(AccRef) -> Details,
    top: AccRef,
    max_depth: usize,
    include_hidden: bool,
)
    ensures
        ({
            let t = trail(showing, details, max_depth, include_hidden, top, 0);
            let n: nat = if t.len() > UI_WALK_BUDGET {
                UI_WALK_BUDGET as nat
            } else {
                t.len()
            };
            let v = visits(
                showing,
                details,
                WalkView::begun(top, max_depth, include_hidden),
                n,
            );
            &&& v.phase == (Phase::Over { truncated: t.len() > UI_WALK_BUDGET })
            &&& v.out == findings(showing, details, include_hidden, t.take(n as int))
        }),
{
    let t = trail(showing, details, max_depth, include_hidden, top, 0);
    let n: nat = if t.len() > UI_WALK_BUDGET {
        UI_WALK_BUDGET as nat
    } else {
        t.len()
    };
    let m = (n - 1) as nat;
    walk_follows_trail(showing, details, top, max_depth, include_hidden, m);
    let v = visits(showing, details, WalkView::begun(top, max_depth, include_hidden), m);
    visit_advances(showing, details, v);
    findings_add_up(showing, details, include_hidden, t, m as int);
}

/// Law: no element deeper than the greatest depth is visited.
pub proof fn trails_stay_within_depth(
    showing: spec_fn(AccRef) -> bool,
    details: spec_fn(AccRef) -> Details,
    max_depth: usize,
    include_hidden: bool,
    r: AccRef,
    depth: usize,
)
    requires
        depth <= max_depth,
    ensures
        forall|i: int|
            0 <= i < trail(showing, details, max_depth, include_hidden, r, depth).len() ==> (
            #[trigger] trail(showing, details, max_depth, include_hidden, r, depth)[i]).1
                <= max_depth,
    decreases max_depth - depth, 0nat,
{
    if depth < max_depth {
        lists_stay_within_depth(
            showing,
            details,
            max_depth,
            include_hidden,
            below(details(r)),
            (depth + 1) as usize,
        );
        let t = trail(showing, details, max_depth, include_hidden, r, depth);
        let rest = trails(
            showing,
            details,
            max_depth,
            include_hidden,
            below(details(r)),
            (depth + 1) as usize,
        );
        assert forall|i: int| 0 <= i < t.len() implies (#[trigger] t[i]).1 <= max_depth by {
            if i > 0 {
                assert(t[i] == rest[i - 1]);
            }
        }
    }
}

proof fn lists_stay_within_depth(
    showing: spec_fn(AccRef) -> bool,
    details: spec_fn(AccRef) -> Details,
    max_depth: usize,
    include_hidden: bool,
    kids: Seq<AccRef>,
    depth: usize,
)
    requires
        depth <= max_depth,
    ensures
        forall|i: int|
            0 <= i < trails(showing, details, max_depth, include_hidden, kids, depth).len() ==> (
            #[trigger] trails(showing, details, max_depth, include_hidden, kids, depth)[i]).1
                <= max_depth,
    decreases max_depth - depth, kids.len() + 1,
{
    if kids.len() > 0 {
        trails_stay_within_depth(showing, details, max_depth, include_hidden, kids[0], depth);
        lists_stay_within_depth(
            showing,
            details,
            max_depth,
            include_hidden,
            kids.skip(1),
            depth,
        );
        let all = trails(showing, details, max_depth, include_hidden, kids, depth);
        let first = trail(showing, details, max_depth, include_hidden, kids[0], depth);
        let rest = trails(showing, details, max_depth, include_hidden, kids.skip(1), depth);
        assert forall|i: int| 0 <= i < all.len() implies (#[trigger] all[i]).1 <= max_depth by {
            if i < first.len() {
                assert(all[i] == first[i]);
            } else {
                assert(all[i] == rest[i - first.len()]);
            }
        }
    }
}

} // verus!
