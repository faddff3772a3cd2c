//! Steps: what the portal is asked to do, one thing after the other.

use vstd::prelude::*;
use vstd::string::*;

use crate::keys::{char_keysym, keysym, keysym_for_char, keysym_from_name};
use crate::text::{chars_of, quote, quoted, texts};

verus! {

/// Something that can be pressed and released.
#[derive(Clone, Copy, Debug, PartialEq, Eq, Structural)]
pub enum Control {
    Keysym(i32),
    Keycode(i32),
    Button(i32),
}

/// One thing that the portal is asked to do.
#[derive(Clone, Copy, Debug, PartialEq, Eq, Structural)]
pub enum Step {
    Press(Control),
    Release(Control),
    /// Move the pointer on a stream, to coordinates given by their bits.
    Motion { node: u32, x: u64, y: u64 },
    /// Wait for some milliseconds.
    Pause(u64),
}

/// A press and a release.
pub open spec fn tap(c: Control) -> Seq<Step> {
    seq![Step::Press(c), Step::Release(c)]
}

/// Presses in order, and releases in reverse order.
pub open spec fn chord(syms: Seq<i32>) -> Seq<Step> {
    Seq::new(
        2 * syms.len(),
        |i: int|
            if i < syms.len() {
                Step::Press(Control::Keysym(syms[i]))
            } else {
                Step::Release(Control::Keysym(syms[2 * syms.len() - 1 - i]))
            },
    )
}

/// A text typed character by character, with a delay after each.
pub open spec fn typing(text: Seq<char>, delay: Option<u64>) -> Seq<Step>
    decreases text.len(),
{
    if text.len() == 0 {
        Seq::<Step>::empty()
    } else {
        typing(text.drop_last(), delay) + tap(Control::Keysym(char_keysym(text.last()))) + (
        match delay {
            Some(ms) => seq![Step::Pause(ms)],
            None => Seq::<Step>::empty(),
        })
    }
}

/// Presses and releases a control.
pub fn tap_steps(c: Control) -> (r: Vec<Step>)
    ensures
        r@ == tap(c),
{
    let r: Vec<Step> = vec![Step::Press(c), Step::Release(c)];
    r
}

/// Presses keys in order and releases them in reverse order.
pub fn chord_steps(syms: &Vec<i32>) -> (r: Vec<Step>)
    ensures
        r@ == chord(syms@),
{
    let mut r: Vec<Step> = Vec::new();
    let n: usize = syms.len();
    for i in 0..n
        invariant
            n == syms.len(),
            r@ == chord(syms@).take(i as int),
    {
        r.push(Step::Press(Control::Keysym(syms[i])));
        assert(r@ =~= chord(syms@).take(i + 1));
    }
    for i in 0..n
        invariant
            n == syms.len(),
            r@ == chord(syms@).take(n + i),
    {
        r.push(Step::Release(Control::Keysym(syms[n - 1 - i])));
        assert(r@ =~= chord(syms@).take(n + i + 1));
    }
    assert(r@ =~= chord(syms@));
    r
}

/// Types a text.
pub fn type_text(text: &str, delay: Option<u64>) -> (r: Vec<Step>)
    ensures
        r@ == typing(text@, delay),
{
    let chars: Vec<char> = chars_of(text);
    let mut r: Vec<Step> = Vec::new();
    for i in 0..chars.len()
        invariant
            chars@ == text@,
            r@ == typing(chars@.take(i as int), delay),
    {
        let ghost before = r@;
        assert(chars@.take(i + 1).drop_last() =~= chars@.take(i as int));
        if let Some(sym) = keysym_for_char(chars[i]) {
            r.push(Step::Press(Control::Keysym(sym)));
            r.push(Step::Release(Control::Keysym(sym)));
            if let Some(ms) = delay {
                r.push(Step::Pause(ms));
            }
        }
        assert(r@ =~= typing(chars@.take(i + 1), delay));
    }
    assert(chars@.take(chars@.len() as int) =~= text@);
    r
}

// ---------------------------------------------------------------------------
// Names of chords
// ---------------------------------------------------------------------------

/// What is said of a key that does not exist.
pub open spec fn unknown_key(name: Seq<char>) -> Seq<char> {
    "unknown keysym "@ + quoted(name)
}

/// What is said of a key of a chord that does not exist.
pub open spec fn unknown_chord_key(name: Seq<char>) -> Seq<char> {
    "unknown keysym in chord: "@ + quoted(name)
}

/// The keysyms of several names, or what is wrong with the first that has none.
pub open spec fn keysyms(names: Seq<Seq<char>>) -> Result<Seq<i32>, Seq<char>>
    decreases names.len(),
{
    if names.len() == 0 {
        Ok(Seq::<i32>::empty())
    } else {
        match keysyms(names.drop_last()) {
            Err(e) => Err(e),
            Ok(syms) => match keysym(names.last()) {
                Some(sym) => Ok(syms.push(sym)),
                None => Err(unknown_chord_key(names.last())),
            },
        }
    }
}

proof fn keysyms_fail_early(names: Seq<Seq<char>>, k: int)
    requires
        0 <= k <= names.len(),
        keysyms(names.take(k)) is Err,
    ensures
        keysyms(names) == keysyms(names.take(k)),
    decreases names.len(),
{
    if k < names.len() {
        assert(names.drop_last().take(k) =~= names.take(k));
        keysyms_fail_early(names.drop_last(), k);
    } else {
        assert(names.take(k) =~= names);
    }
}

/// Finds the keysym of a key by its name.
pub fn find_key(name: &str) -> (r: Result<i32, String>)
    ensures
        match r {
            Ok(sym) => keysym(name@) == Some(sym),
            Err(e) => keysym(name@) is None && e@ == unknown_key(name@),
        },
{
    match keysym_from_name(name) {
        Some(sym) => Ok(sym),
        None => {
            let mut e: String = "unknown keysym ".to_owned();
            e.append(quote(name).as_str());
            Err(e)
        },
    }
}

/// Finds the keysyms of several keys by their names.
pub fn find_keys(names: &Vec<String>) -> (r: Result<Vec<i32>, String>)
    ensures
        match r {
            Ok(syms) => keysyms(texts(names@)) == Ok::<Seq<i32>, Seq<char>>(syms@),
            Err(e) => keysyms(texts(names@)) == Err::<Seq<i32>, Seq<char>>(e@),
        },
{
    let ghost all = texts(names@);
    let mut syms: Vec<i32> = Vec::new();
    for i in 0..names.len()
        invariant
            all == texts(names@),
            keysyms(all.take(i as int)) == Ok::<Seq<i32>, Seq<char>>(syms@),
    {
        assert(all.take(i + 1).drop_last() =~= all.take(i as int));
        assert(all.take(i + 1).last() == names@[i as int]@);
        match keysym_from_name(names[i].as_str()) {
            Some(sym) => {
                syms.push(sym);
            },
            None => {
                let mut e: String = "unknown keysym in chord: ".to_owned();
                e.append(quote(names[i].as_str()).as_str());
                proof {
                    keysyms_fail_early(all, i + 1);
                }
                return Err(e);
            },
        }
    }
    assert(all.take(all.len() as int) =~= all);
    Ok(syms)
}

// ---------------------------------------------------------------------------
// What is held
// ---------------------------------------------------------------------------

/// How often a control has been pressed more than it has been released.
pub open spec fn held(steps: Seq<Step>, c: Control) -> int
    decreases steps.len(),
{
    if steps.len() == 0 {
        0
    } else {
        held(steps.drop_last(), c) + (if steps.last() == Step::Press(c) {
            1int
        } else if steps.last() == Step::Release(c) {
            -1int
        } else {
            0int
        })
    }
}

/// Whether every press is followed by its release, and nothing is released that
/// was not pressed.
pub open spec fn balanced(steps: Seq<Step>) -> bool {
    &&& forall|c: Control| #[trigger] held(steps, c) == 0
    &&& forall|c: Control, k: int| 0 <= k <= steps.len() ==> #[trigger] held(steps.take(k), c) >= 0
}

proof fn held_adds_up(a: Seq<Step>, b: Seq<Step>, c: Control)
    ensures
        held(a + b, c) == held(a, c) + held(b, c),
    decreases b.len(),
{
    if b.len() == 0 {
        assert(a + b =~= a);
    } else {
        assert((a + b).drop_last() =~= a + b.drop_last());
        held_adds_up(a, b.drop_last(), c);
    }
}

proof fn balanced_parts(a: Seq<Step>, b: Seq<Step>)
    requires
        balanced(a),
        balanced(b),
    ensures
        balanced(a + b),
{
    assert forall|c: Control| #[trigger] held(a + b, c) == 0 by {
        held_adds_up(a, b, c);
    }
    assert forall|c: Control, k: int| 0 <= k <= (a + b).len() implies #[trigger] held(
        (a + b).take(k),
        c,
    ) >= 0 by {
        if k <= a.len() {
            assert((a + b).take(k) =~= a.take(k));
        } else {
            assert((a + b).take(k) =~= a + b.take(k - a.len()));
            held_adds_up(a, b.take(k - a.len()), c);
        }
    }
}

proof fn balanced_within(a: Seq<Step>, d: Control)
    requires
        balanced(a),
    ensures
        balanced(seq![Step::Press(d)] + a + seq![Step::Release(d)]),
{
    let first = seq![Step::Press(d)];
    let last = seq![Step::Release(d)];
    let all = first + a + last;
    assert forall|c: Control| held(first, c) == (if c == d {
        1int
    } else {
        0
    }) && held(last, c) == (if c == d {
        -1int
    } else {
        0
    }) by {
        assert(first.drop_last() =~= Seq::<Step>::empty());
        assert(last.drop_last() =~= Seq::<Step>::empty());
        assert(held(Seq::<Step>::empty(), c) == 0);
    }
    assert forall|c: Control| #[trigger] held(all, c) == 0 by {
        held_adds_up(first + a, last, c);
        held_adds_up(first, a, c);
    }
    assert forall|c: Control, k: int| 0 <= k <= all.len() implies #[trigger] held(all.take(k), c)
        >= 0 by {
        if k == 0 {
            assert(all.take(k) =~= Seq::<Step>::empty());
        } else if k <= a.len() + 1 {
            assert(all.take(k) =~= first + a.take(k - 1));
            held_adds_up(first, a.take(k - 1), c);
        } else {
            assert(all.take(k) =~= all);
        }
    }
}

/// Law: no steps hold nothing.
pub proof fn nothing_is_balanced()
    ensures
        balanced(Seq::<Step>::empty()),
{
    assert forall|c: Control, k: int| 0 <= k <= 0 implies #[trigger] held(
        Seq::<Step>::empty().take(k),
        c,
    ) >= 0 by {
        assert(Seq::<Step>::empty().take(k) =~= Seq::<Step>::empty());
    }
}

/// Law: a tap releases what it presses.
pub proof fn taps_are_balanced(c: Control)
    ensures
        balanced(tap(c)),
{
    nothing_is_balanced();
    balanced_within(Seq::<Step>::empty(), c);
    assert(tap(c) =~= seq![Step::Press(c)] + Seq::<Step>::empty() + seq![Step::Release(c)]);
}

/// Law: a step that presses and releases nothing leaves nothing held.
pub proof fn other_steps_are_balanced(s: Step)
    requires
        !(s is Press),
        !(s is Release),
    ensures
        balanced(seq![s]),
{
    let one = seq![s];
    assert forall|c: Control| #[trigger] held(one, c) == 0 by {
        assert(one.drop_last() =~= Seq::<Step>::empty());
        assert(held(Seq::<Step>::empty(), c) == 0);
    }
    assert forall|c: Control, k: int| 0 <= k <= one.len() implies #[trigger] held(one.take(k), c)
        >= 0 by {
        if k == 0 {
            assert(one.take(k) =~= Seq::<Step>::empty());
        } else {
            assert(one.take(k) =~= one);
        }
    }
}

/// Law: a chord releases all that it presses, the first key last: what is
/// pressed later is released within.
pub proof fn chords_are_balanced(syms: Seq<i32>)
    ensures
        balanced(chord(syms)),
        syms.len() > 0 ==> chord(syms) == seq![Step::Press(Control::Keysym(syms[0]))] + chord(
            syms.skip(1),
        ) + seq![Step::Release(Control::Keysym(syms[0]))],
    decreases syms.len(),
{
    if syms.len() == 0 {
        nothing_is_balanced();
        assert(chord(syms) =~= Seq::<Step>::empty());
    } else {
        let d = Control::Keysym(syms[0]);
        let inner = chord(syms.skip(1));
        chords_are_balanced(syms.skip(1));
        balanced_within(inner, d);
        assert(chord(syms) =~= seq![Step::Press(d)] + inner + seq![Step::Release(d)]);
    }
}

/// Law: typing a text leaves nothing held.
pub proof fn typing_is_balanced(text: Seq<char>, delay: Option<u64>)
    ensures
        balanced(typing(text, delay)),
    decreases text.len(),
{
    if text.len() == 0 {
        nothing_is_balanced();
    } else {
        let start = typing(text.drop_last(), delay);
        let key = tap(Control::Keysym(char_keysym(text.last())));
        typing_is_balanced(text.drop_last(), delay);
        taps_are_balanced(Control::Keysym(char_keysym(text.last())));
        balanced_parts(start, key);
        match delay {
            Some(ms) => {
                other_steps_are_balanced(Step::Pause(ms));
                balanced_parts(start + key, seq![Step::Pause(ms)]);
            },
            None => {
                assert(start + key + Seq::<Step>::empty() =~= start + key);
            },
        }
    }
}

/// Law: moving the pointer and then tapping leaves nothing held.
pub proof fn moving_and_tapping_is_balanced(node: u32, x: u64, y: u64, c: Control)
    ensures
        balanced(seq![Step::Motion { node, x, y }] + tap(c)),
{
    other_steps_are_balanced(Step::Motion { node, x, y });
    taps_are_balanced(c);
    balanced_parts(seq![Step::Motion { node, x, y }], tap(c));
}

/// Law: typing two texts one after the other is typing them as one.
pub proof fn typing_adds_up(a: Seq<char>, b: Seq<char>, delay: Option<u64>)
    ensures
        typing(a + b, delay) == typing(a, delay) + typing(b, delay),
    decreases b.len(),
{
    if b.len() == 0 {
        assert(a + b =~= a);
        assert(typing(a, delay) + typing(b, delay) =~= typing(a, delay));
    } else {
        assert((a + b).drop_last() =~= a + b.drop_last());
        typing_adds_up(a, b.drop_last(), delay);
        assert(typing(a + b, delay) =~= typing(a, delay) + typing(b, delay));
    }
}

/// Law: a text is typed character by character, in order: each by a press and a
/// release of its own keysym and, if there is a delay, by that pause after them.
pub proof fn every_character_is_typed(text: Seq<char>, delay: Option<u64>, i: int)
    ensures
        ({
            let steps = typing(text, delay);
            let sym = Control::Keysym(char_keysym(text[i]));
            match delay {
                None => {
                    &&& steps.len() == 2 * text.len()
                    &&& 0 <= i < text.len() ==> steps[2 * i] == Step::Press(sym)
                    &&& 0 <= i < text.len() ==> steps[2 * i + 1] == Step::Release(sym)
                },
                Some(ms) => {
                    &&& steps.len() == 3 * text.len()
                    &&& 0 <= i < text.len() ==> steps[3 * i] == Step::Press(sym)
                    &&& 0 <= i < text.len() ==> steps[3 * i + 1] == Step::Release(sym)
                    &&& 0 <= i < text.len() ==> steps[3 * i + 2] == Step::Pause(ms)
                },
            }
        }),
    decreases text.len(),
{
    typing_has_length(text, delay);
    typing_has_length(text.drop_last(), delay);
    if 0 <= i < text.len() - 1 {
        every_character_is_typed(text.drop_last(), delay, i);
        assert(text.drop_last()[i] == text[i]);
    }
}

proof fn typing_has_length(text: Seq<char>, delay: Option<u64>)
    ensures
        typing(text, delay).len() == (if delay is None {
            2 * text.len()
        } else {
            3 * text.len()
        }),
    decreases text.len(),
{
    if text.len() > 0 {
        typing_has_length(text.drop_last(), delay);
    }
}

/// Law: one character is typed by the key of that very character: by the keysym
/// with its code in Latin-1, by the one 0x1000000 above it beyond, and by Return,
/// Tab and BackSpace where it is a line feed, a tab or a backspace.
pub proof fn one_character_is_typed_by_its_key(c: char)
    ensures
        ({
            let k: int = if c == '\n' {
                0xff0d
            } else if c == '\t' {
                0xff09
            } else if c == '\u{8}' {
                0xff08
            } else if c as int <= 0xff {
                c as int
            } else {
                0x100_0000 + c as int
            };
            typing(seq![c], None) == seq![
                Step::Press(Control::Keysym(k as i32)),
                Step::Release(Control::Keysym(k as i32)),
            ]
        }),
{
    every_character_is_typed(seq![c], None, 0);
    typing_has_length(seq![c], None);
    let steps = typing(seq![c], None);
    assert(steps =~= seq![steps[0], steps[1]]);
}

/// Law: texts that differ are typed by steps that differ.
pub proof fn different_texts_are_typed_differently(a: Seq<char>, b: Seq<char>, delay: Option<u64>)
    requires
        typing(a, delay) == typing(b, delay),
    ensures
        a == b,
{
    typing_has_length(a, delay);
    typing_has_length(b, delay);
    assert forall|i: int| 0 <= i < a.len() implies a[i] == b[i] by {
        every_character_is_typed(a, delay, i);
        every_character_is_typed(b, delay, i);
        crate::keys::char_keysyms_differ(a[i], b[i]);
    }
    assert(a =~= b);
}

/// Law: names stand for keysyms place by place: there is a keysym for each name,
/// in the order of the names, if every name has one; if not, there are none, and
/// the first name without one is what is complained of.
pub proof fn names_stand_for_keysyms(names: Seq<Seq<char>>)
    ensures
        keysyms(names) is Ok <==> forall|i: int|
            0 <= i < names.len() ==> keysym(#[trigger] names[i]) is Some,
        keysyms(names) matches Ok(syms) ==> syms.len() == names.len() && forall|i: int|
            0 <= i < names.len() ==> keysym(#[trigger] names[i]) == Some(syms[i]),
        keysyms(names) matches Err(e) ==> exists|i: int|
            0 <= i < names.len() && keysym(#[trigger] names[i]) is None && e
                == "unknown keysym in chord: "@ + quoted(names[i]) && forall|j: int|
                0 <= j < i ==> keysym(#[trigger] names[j]) is Some,
    decreases names.len(),
{
    if names.len() > 0 {
        let rest = names.drop_last();
        names_stand_for_keysyms(rest);
        assert forall|i: int| 0 <= i < rest.len() implies rest[i] == names[i] by {}
        let last = names.len() - 1;
        match keysyms(rest) {
            Err(e) => {
                let i = choose|i: int|
                    0 <= i < rest.len() && keysym(#[trigger] rest[i]) is None && e
                        == "unknown keysym in chord: "@ + quoted(rest[i]) && forall|j: int|
                        0 <= j < i ==> keysym(#[trigger] rest[j]) is Some;
                assert(keysym(names[i]) is None);
                assert forall|j: int| 0 <= j < i implies keysym(#[trigger] names[j]) is Some by {
                    assert(keysym(rest[j]) is Some);
                }
            },
            Ok(syms) => {
                assert forall|i: int| 0 <= i < last implies keysym(#[trigger] names[i])
                    == Some(syms[i]) by {
                    assert(keysym(rest[i]) == Some(syms[i]));
                }
                if keysym(names[last]) is None {
                    assert(keysym(names.last()) is None);
                }
            },
        }
    }
}

/// Law: a chord presses its keys in order and then releases them in reverse order.
pub proof fn chords_press_in_order_and_release_in_reverse(syms: Seq<i32>, i: int)
    ensures
        chord(syms).len() == 2 * syms.len(),
        0 <= i < syms.len() ==> chord(syms)[i] == Step::Press(Control::Keysym(syms[i])),
        0 <= i < syms.len() ==> chord(syms)[2 * syms.len() - 1 - i] == Step::Release(Control::Keysym(syms[i])),
{
}

/// Law: a control is tapped by one press and one release of it.
pub proof fn taps_press_and_release(c: Control)
    ensures
        tap(c) == seq![Step::Press(c), Step::Release(c)],
{
}

} // verus!
