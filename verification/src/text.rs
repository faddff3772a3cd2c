//! Text as the daemon reads and prints it.
//!
//! A text is modelled by its sequence of characters.  What is printed is built
//! by appending; what is read is taken apart into characters.

use vstd::prelude::*;
use vstd::string::*;

verus! {

// ---------------------------------------------------------------------------
// What std decides
// ---------------------------------------------------------------------------

/// Trusted: `String::push` appends one character at the end.
pub assume_specification[ String::push ](s: &mut String, c: char)
    ensures
        final(s)@ == old(s)@.push(c),
;

/// The text that the `Debug` form of a string shows: the text in quotes, with
/// what needs it escaped.
pub uninterp spec fn quoted(s: Seq<char>) -> Seq<char>;

/// Trusted: formatting a `str` with `{:?}`.  The outcome depends on the text
/// alone; which characters are escaped, and how, is left unsaid.
#[verifier::external_body]
pub(crate) fn quote(s: &str) -> (r: String)
    ensures
        r@ == quoted(s@),
{
    format!("{s:?}")
}

/// An ASCII letter in lower case; any other character as it is.
pub open spec fn ascii_lower(c: char) -> char {
    if 'A' <= c && c <= 'Z' {
        (c as int + 32) as char
    } else {
        c
    }
}

/// Whether a text is of ASCII characters alone.
pub open spec fn is_ascii_text(s: Seq<char>) -> bool {
    forall|i: int| 0 <= i < s.len() ==> (#[trigger] s[i]) as int <= 127
}

/// A text with its ASCII letters in lower case.
pub open spec fn ascii_lowered(s: Seq<char>) -> Seq<char> {
    s.map_values(|c: char| ascii_lower(c))
}

/// The lower-case form of a text.
pub uninterp spec fn lowercase(s: Seq<char>) -> Seq<char>;

/// Trusted: `str::to_lowercase`.  The outcome depends on the text alone.  That of
/// an empty text is empty, and that of an ASCII text has its letters in lower
/// case; the Unicode tables behind the rest are left unsaid.
#[verifier::external_body]
pub(crate) fn to_lower(s: &str) -> (r: String)
    ensures
        r@ == lowercase(s@),
        s@.len() == 0 ==> r@.len() == 0,
        is_ascii_text(s@) ==> r@ == ascii_lowered(s@),
{
    s.to_lowercase()
}

/// Whether a character is white space: whether it has the White_Space property of
/// Unicode.
pub open spec fn white_space(c: char) -> bool {
    let n = c as int;
    ||| 0x9 <= n <= 0xd
    ||| n == 0x20
    ||| n == 0x85
    ||| n == 0xa0
    ||| n == 0x1680
    ||| 0x2000 <= n <= 0x200a
    ||| n == 0x2028
    ||| n == 0x2029
    ||| n == 0x202f
    ||| n == 0x205f
    ||| n == 0x3000
}

/// Trusted: `char::is_whitespace`.  It tells whether the character has the
/// White_Space property of Unicode.
pub assume_specification[ char::is_whitespace ](c: char) -> (b: bool)
    ensures
        b == white_space(c),
;

// ---------------------------------------------------------------------------
// Taking text apart
// ---------------------------------------------------------------------------

/// Whether two texts are the same.
pub fn same(a: &str, b: &str) -> (r: bool)
    ensures
        r == (a@ == b@),
{
    a.to_owned() == b.to_owned()
}

/// The characters of a text.
pub fn chars_of(s: &str) -> (v: Vec<char>)
    ensures
        v@ == s@,
{
    let mut v: Vec<char> = Vec::new();
    for c in it: s.chars()
        invariant
            v@ == s@.take(it.index()),
            it.seq() == s@,
    {
        v.push(c);
        assert(s@.take(it.index() + 1) =~= s@.take(it.index()).push(c));
    }
    assert(s@.take(s@.len() as int) =~= s@);
    v
}

/// The text made of the given characters.
pub fn text_of(v: &Vec<char>) -> (s: String)
    ensures
        s@ == v@,
{
    let mut s: String = String::new();
    for i in 0..v.len()
        invariant
            s@ == v@.take(i as int),
    {
        s.push(v[i]);
        assert(v@.take(i + 1) =~= v@.take(i as int).push(v@[i as int]));
    }
    assert(v@.take(v@.len() as int) =~= v@);
    s
}

/// Whether `needle` stands in `hay` from position `at` on.
pub open spec fn stands_at(hay: Seq<char>, needle: Seq<char>, at: int) -> bool {
    0 <= at && at + needle.len() <= hay.len() && hay.subrange(at, at + needle.len()) == needle
}

/// Whether `needle` occurs somewhere in `hay`.
pub open spec fn occurs(hay: Seq<char>, needle: Seq<char>) -> bool {
    exists|at: int| #[trigger] stands_at(hay, needle, at)
}

/// Whether one text occurs in another.
pub fn contains_text(hay: &str, needle: &str) -> (r: bool)
    ensures
        r == occurs(hay@, needle@),
{
    let h: Vec<char> = chars_of(hay);
    let n: Vec<char> = chars_of(needle);
    if n.len() > h.len() {
        return false;
    }
    let last: usize = h.len() - n.len();
    let mut at: usize = 0;
    loop
        invariant
            at <= last,
            h@ == hay@,
            n@ == needle@,
            n.len() <= h.len(),
            last == h.len() - n.len(),
            forall|k: int| 0 <= k < at ==> !#[trigger] stands_at(hay@, needle@, k),
        decreases last - at,
    {
        let mut i: usize = 0;
        while i < n.len() && h[at + i] == n[i]
            invariant
                i <= n.len(),
                at <= last,
                n.len() <= h.len(),
                last == h.len() - n.len(),
                forall|k: int| 0 <= k < i ==> #[trigger] n@[k] == h@[at + k],
            ensures
                i < n.len() ==> h@[at + i] != n@[i as int],
            decreases n.len() - i,
        {
            i = i + 1;
        }
        if i == n.len() {
            assert(hay@.subrange(at as int, at + needle@.len()) =~= needle@);
            assert(stands_at(hay@, needle@, at as int));
            return true;
        }
        assert(!stands_at(hay@, needle@, at as int)) by {
            if stands_at(hay@, needle@, at as int) {
                assert(hay@.subrange(at as int, at + needle@.len())[i as int] == needle@[i as int]);
            }
        }
        if at == last {
            assert forall|k: int| !#[trigger] stands_at(hay@, needle@, k) by {
                if k > last {
                    assert(k + needle@.len() > hay@.len());
                }
            }
            return false;
        }
        at = at + 1;
    }
}

/// Law: the empty text occurs in every text.
pub proof fn empty_occurs_everywhere(hay: Seq<char>)
    ensures
        occurs(hay, Seq::<char>::empty()),
{
    assert(hay.subrange(0, 0) =~= Seq::<char>::empty());
    assert(stands_at(hay, Seq::<char>::empty(), 0));
}

/// Law: what occurs in a part of a text occurs in the text.
pub proof fn occurring_is_transitive(hay: Seq<char>, part: Seq<char>, needle: Seq<char>)
    requires
        occurs(hay, part),
        occurs(part, needle),
    ensures
        occurs(hay, needle),
{
    let a = choose|a: int| #[trigger] stands_at(hay, part, a);
    let b = choose|b: int| #[trigger] stands_at(part, needle, b);
    assert(hay.subrange(a + b, a + b + needle.len()) =~= part.subrange(b, b + needle.len()));
    assert(stands_at(hay, needle, a + b));
}

/// A text without its trailing white space.
pub open spec fn trimmed_end(s: Seq<char>) -> Seq<char>
    decreases s.len(),
{
    if s.len() > 0 && white_space(s.last()) {
        trimmed_end(s.drop_last())
    } else {
        s
    }
}

/// Drops the white space at the end of a text.
pub fn trim_end(s: &str) -> (r: String)
    ensures
        r@ == trimmed_end(s@),
{
    let mut v: Vec<char> = chars_of(s);
    while v.len() > 0 && v[v.len() - 1].is_whitespace()
        invariant
            trimmed_end(v@) == trimmed_end(s@),
        ensures
            trimmed_end(v@) == trimmed_end(s@),
            v@.len() > 0 ==> !white_space(v@.last()),
        decreases v@.len(),
    {
        let ghost before = v@;
        v.pop();
        assert(v@ =~= before.drop_last());
    }
    text_of(&v)
}

/// A text without its leading white space.
pub open spec fn trimmed_start(s: Seq<char>) -> Seq<char>
    decreases s.len(),
{
    if s.len() > 0 && white_space(s[0]) {
        trimmed_start(s.skip(1))
    } else {
        s
    }
}

/// A text without the white space around it.
pub open spec fn trimmed(s: Seq<char>) -> Seq<char> {
    trimmed_start(trimmed_end(s))
}

/// Drops the white space around a text.
pub fn trim(s: &str) -> (r: String)
    ensures
        r@ == trimmed(s@),
{
    let v: Vec<char> = chars_of(trim_end(s).as_str());
    let mut i: usize = 0;
    assert(v@.skip(0) =~= v@);
    while i < v.len() && v[i].is_whitespace()
        invariant
            i <= v@.len(),
            trimmed_start(v@.skip(i as int)) == trimmed_start(v@),
        ensures
            i <= v@.len(),
            trimmed_start(v@.skip(i as int)) == trimmed_start(v@),
            i < v@.len() ==> !white_space(v@[i as int]),
        decreases v@.len() - i,
    {
        assert(v@.skip(i as int).skip(1) =~= v@.skip(i + 1));
        i = i + 1;
    }
    let mut rest: Vec<char> = Vec::new();
    for k in i..v.len()
        invariant
            i <= v@.len(),
            rest@ == v@.subrange(i as int, k as int),
    {
        rest.push(v[k]);
        assert(rest@ =~= v@.subrange(i as int, k + 1));
    }
    assert(rest@ =~= v@.skip(i as int));
    text_of(&rest)
}

/// The pieces of a text between the occurrences of a separator.  There is
/// always one piece more than there are separators.
pub open spec fn pieces(s: Seq<char>, sep: char) -> Seq<Seq<char>>
    decreases s.len(),
{
    if s.len() == 0 {
        seq![Seq::<char>::empty()]
    } else {
        let before = pieces(s.drop_last(), sep);
        if s.last() == sep {
            before.push(Seq::<char>::empty())
        } else {
            before.update(before.len() - 1, before.last().push(s.last()))
        }
    }
}

/// The pieces of a text that are not empty.
pub open spec fn full_pieces(s: Seq<char>, sep: char) -> Seq<Seq<char>> {
    pieces(s, sep).filter(|p: Seq<char>| p.len() > 0)
}

/// The texts of a list of strings.
pub open spec fn texts(v: Seq<String>) -> Seq<Seq<char>> {
    v.map_values(|s: String| s@)
}

/// Splits a text at a separator and drops the empty pieces.
pub fn split_full(s: &str, sep: char) -> (r: Vec<String>)
    ensures
        texts(r@) == full_pieces(s@, sep),
{
    let chars: Vec<char> = chars_of(s);
    let ghost full = |p: Seq<char>| p.len() > 0;
    let mut done: Vec<String> = Vec::new();
    let mut piece: String = String::new();
    assert(chars@.take(0) =~= Seq::<char>::empty());
    proof {
        reveal(Seq::filter);
    }
    assert(seq![Seq::<char>::empty()].drop_last() =~= Seq::<Seq<char>>::empty());
    assert(texts(done@) =~= Seq::<Seq<char>>::empty());
    for i in 0..chars.len()
        invariant
            chars@ == s@,
            full == (|p: Seq<char>| p.len() > 0),
            pieces(chars@.take(i as int), sep).len() > 0,
            piece@ == pieces(chars@.take(i as int), sep).last(),
            texts(done@) == pieces(chars@.take(i as int), sep).drop_last().filter(full),
    {
        let ghost before = pieces(chars@.take(i as int), sep);
        let ghost after = pieces(chars@.take(i + 1), sep);
        let ghost done_before = done@;
        assert(chars@.take(i + 1).drop_last() =~= chars@.take(i as int));
        assert(chars@.take(i + 1).last() == chars@[i as int]);
        if chars[i] == sep {
            assert(after.drop_last() =~= before);
            proof {
                reveal(Seq::filter);
            }
            if !piece.as_str().is_empty() {
                done.push(piece);
                assert(texts(done@) =~= texts(done_before).push(piece@));
            }
            assert(texts(done@) == before.filter(full));
            piece = String::new();
        } else {
            piece.push(chars[i]);
            assert(after.drop_last() =~= before.drop_last());
        }
    }
    let ghost all = pieces(s@, sep);
    assert(chars@.take(chars@.len() as int) =~= s@);
    let ghost done_before = done@;
    proof {
        reveal(Seq::filter);
    }
    if !piece.as_str().is_empty() {
        done.push(piece);
        assert(texts(done@) =~= texts(done_before).push(piece@));
    }
    done
}

// ---------------------------------------------------------------------------
// Putting text together
// ---------------------------------------------------------------------------

/// Texts one after the other, with a separator between them.
pub open spec fn joined(parts: Seq<Seq<char>>, sep: Seq<char>) -> Seq<char>
    decreases parts.len(),
{
    if parts.len() == 0 {
        Seq::<char>::empty()
    } else if parts.len() == 1 {
        parts[0]
    } else {
        joined(parts.drop_last(), sep) + sep + parts.last()
    }
}

/// Joins texts with a separator.
pub fn join(parts: &Vec<String>, sep: &str) -> (r: String)
    ensures
        r@ == joined(texts(parts@), sep@),
{
    let mut r: String = String::new();
    for i in 0..parts.len()
        invariant
            r@ == joined(texts(parts@).take(i as int), sep@),
    {
        let ghost next = texts(parts@).take(i + 1);
        assert(next.drop_last() =~= texts(parts@).take(i as int));
        assert(next.last() == parts@[i as int]@);
        if i > 0 {
            r.append(sep);
        }
        r.append(parts[i].as_str());
        if i == 0 {
            assert(r@ =~= next[0]);
        }
    }
    assert(texts(parts@).take(parts@.len() as int) =~= texts(parts@));
    r
}

/// A text, `n` times over.
pub open spec fn repeated(unit: Seq<char>, n: nat) -> Seq<char>
    decreases n,
{
    if n == 0 {
        Seq::<char>::empty()
    } else {
        repeated(unit, (n - 1) as nat) + unit
    }
}

/// Repeats a text.
pub fn repeat(unit: &str, n: usize) -> (r: String)
    ensures
        r@ == repeated(unit@, n as nat),
{
    let mut r: String = String::new();
    for i in 0..n
        invariant
            r@ == repeated(unit@, i as nat),
    {
        r.append(unit);
    }
    r
}

/// Law: the pieces of a text, joined again, are the text, and none of them holds
/// the separator.
pub proof fn pieces_make_up_the_text(s: Seq<char>, sep: char)
    ensures
        pieces(s, sep).len() > 0,
        joined(pieces(s, sep), seq![sep]) == s,
        forall|i: int|
            0 <= i < pieces(s, sep).len() ==> !(#[trigger] pieces(s, sep)[i]).contains(sep),
    decreases s.len(),
{
    let all = pieces(s, sep);
    let by = seq![sep];
    if s.len() == 0 {
        assert(joined(all, by) =~= s);
    } else {
        let front = s.drop_last();
        let before = pieces(front, sep);
        pieces_make_up_the_text(front, sep);
        assert(s =~= front.push(s.last()));
        if s.last() == sep {
            assert(all.drop_last() =~= before);
            assert(joined(all, by) =~= s);
        } else {
            let last = before.last();
            assert(all.drop_last() =~= before.drop_last());
            assert(all.last() == last.push(s.last()));
            assert(joined(all, by) =~= joined(before, by).push(s.last()));
            assert forall|i: int| 0 <= i < all.len() implies !(#[trigger] all[i]).contains(
                sep,
            ) by {
                assert(!before[i].contains(sep));
                if i == before.len() - 1 {
                    assert forall|k: int| 0 <= k < all[i].len() implies all[i][k] != sep by {
                        if k < last.len() {
                            assert(all[i][k] == last[k]);
                            assert(before[i][k] == last[k]);
                        }
                    }
                }
            }
        }
    }
}

/// Law: a text occurs in another just where the other can be cut into something,
/// the text, and something.
pub proof fn what_occurs_can_be_cut_out(hay: Seq<char>, needle: Seq<char>)
    ensures
        occurs(hay, needle) <==> exists|a: Seq<char>, b: Seq<char>|
            hay == #[trigger] (a + needle + b),
{
    if occurs(hay, needle) {
        let at = choose|at: int| #[trigger] stands_at(hay, needle, at);
        let (a, b) = (hay.take(at), hay.skip(at + needle.len()));
        assert(hay.subrange(at, at + needle.len()) == needle);
        assert forall|i: int| 0 <= i < hay.len() implies hay[i] == (a + needle + b)[i] by {
            if at <= i < at + needle.len() {
                assert(needle[i - at] == hay.subrange(at, at + needle.len())[i - at]);
            }
        }
        assert(hay =~= a + needle + b);
    }
    if exists|a: Seq<char>, b: Seq<char>| hay == #[trigger] (a + needle + b) {
        let (a, b) = choose|a: Seq<char>, b: Seq<char>| hay == #[trigger] (a + needle + b);
        assert(hay.subrange(a.len() as int, (a.len() + needle.len()) as int) =~= needle);
        assert(stands_at(hay, needle, a.len() as int));
    }
}

/// Whether a text is nothing but white space.
pub open spec fn is_blank(s: Seq<char>) -> bool {
    forall|i: int| 0 <= i < s.len() ==> white_space(#[trigger] s[i])
}

proof fn ends_are_trimmed(s: Seq<char>)
    ensures
        trimmed_end(s).len() <= s.len(),
        trimmed_end(s) == s.take(trimmed_end(s).len() as int),
        is_blank(s.skip(trimmed_end(s).len() as int)),
        trimmed_end(s).len() > 0 ==> !white_space(trimmed_end(s).last()),
    decreases s.len(),
{
    let t = trimmed_end(s);
    if s.len() > 0 && white_space(s.last()) {
        let rest = s.drop_last();
        ends_are_trimmed(rest);
        assert(rest.take(t.len() as int) =~= s.take(t.len() as int));
        assert forall|i: int| 0 <= i < s.len() - t.len() implies white_space(
            #[trigger] s.skip(t.len() as int)[i],
        ) by {
            if i < rest.len() - t.len() {
                assert(rest.skip(t.len() as int)[i] == s.skip(t.len() as int)[i]);
            }
        }
    } else {
        assert(s.take(s.len() as int) =~= s);
    }
}

proof fn starts_are_trimmed(s: Seq<char>)
    ensures
        trimmed_start(s).len() <= s.len(),
        trimmed_start(s) == s.skip(s.len() - trimmed_start(s).len()),
        is_blank(s.take(s.len() - trimmed_start(s).len())),
        trimmed_start(s).len() > 0 ==> !white_space(trimmed_start(s)[0]),
    decreases s.len(),
{
    let t = trimmed_start(s);
    if s.len() > 0 && white_space(s[0]) {
        let rest = s.skip(1);
        starts_are_trimmed(rest);
        assert(rest.skip(rest.len() - t.len()) =~= s.skip(s.len() - t.len()));
        assert forall|i: int| 0 <= i < s.len() - t.len() implies white_space(
            #[trigger] s.take(s.len() - t.len())[i],
        ) by {
            if i > 0 {
                assert(rest.take(rest.len() - t.len())[i - 1] == s.take(s.len() - t.len())[i]);
            }
        }
    } else {
        assert(s.skip(0) =~= s);
    }
}

/// Law: trimming takes white space off both ends of a text, all of it, and nothing
/// else; and trimming the end takes it off the end alone.
pub proof fn only_white_space_is_trimmed(s: Seq<char>)
    ensures
        exists|a: Seq<char>, b: Seq<char>|
            is_blank(a) && is_blank(b) && s == #[trigger] (a + trimmed(s) + b),
        trimmed(s).len() > 0 ==> !white_space(trimmed(s)[0]) && !white_space(trimmed(s).last()),
        exists|b: Seq<char>| is_blank(b) && s == #[trigger] (trimmed_end(s) + b),
        trimmed_end(s).len() > 0 ==> !white_space(trimmed_end(s).last()),
{
    let e = trimmed_end(s);
    ends_are_trimmed(s);
    starts_are_trimmed(e);
    let t = trimmed(s);
    let a = e.take(e.len() - t.len());
    let b = s.skip(e.len() as int);
    assert(s =~= e + b);
    assert(e =~= a + t);
    assert(s =~= a + t + b);
    if t.len() > 0 {
        assert(t.last() == e.last());
    }
}

proof fn pieces_around_a_separator(a: Seq<char>, b: Seq<char>, sep: char)
    ensures
        pieces(a.push(sep) + b, sep) == pieces(a, sep) + pieces(b, sep),
    decreases b.len(),
{
    let s = a.push(sep) + b;
    pieces_make_up_the_text(a, sep);
    pieces_make_up_the_text(b, sep);
    if b.len() == 0 {
        assert(s.drop_last() =~= a);
        assert(pieces(s, sep) =~= pieces(a, sep) + pieces(b, sep));
    } else {
        pieces_around_a_separator(a, b.drop_last(), sep);
        pieces_make_up_the_text(b.drop_last(), sep);
        assert(s.drop_last() =~= a.push(sep) + b.drop_last());
        assert(pieces(s, sep) =~= pieces(a, sep) + pieces(b, sep));
    }
}

proof fn pieces_without_a_separator(s: Seq<char>, sep: char)
    requires
        !s.contains(sep),
    ensures
        pieces(s, sep) == seq![s],
    decreases s.len(),
{
    if s.len() == 0 {
        assert(s =~= Seq::<char>::empty());
    } else {
        let front = s.drop_last();
        assert forall|i: int| 0 <= i < front.len() implies front[i] != sep by {
            assert(front[i] == s[i]);
        }
        pieces_without_a_separator(front, sep);
        assert(s[s.len() - 1] != sep);
        assert(front.push(s.last()) =~= s);
        assert(pieces(s, sep) =~= seq![s]);
    }
}

/// Law: a text without the separator is a piece, unless it is empty; and a text cut
/// at a separator has the pieces of what stands before it and then those of what
/// stands behind it.
pub proof fn texts_are_split_at_separators(a: Seq<char>, b: Seq<char>, sep: char)
    ensures
        full_pieces(Seq::<char>::empty(), sep) == Seq::<Seq<char>>::empty(),
        a.len() > 0 && !a.contains(sep) ==> full_pieces(a, sep) == seq![a],
        full_pieces(a + seq![sep] + b, sep) == full_pieces(a, sep) + full_pieces(b, sep),
{
    let full = |p: Seq<char>| p.len() > 0;
    let none = Seq::<Seq<char>>::empty();
    reveal(Seq::filter);
    assert(none.filter(full) =~= none);
    let one = seq![Seq::<char>::empty()];
    assert(one.drop_last() =~= none);
    assert(one.filter(full) =~= none);
    if a.len() > 0 && !a.contains(sep) {
        pieces_without_a_separator(a, sep);
        assert(seq![a].drop_last() =~= none);
        assert(seq![a].filter(full) =~= seq![a]);
    }
    pieces_around_a_separator(a, b, sep);
    assert(a + seq![sep] + b =~= a.push(sep) + b);
    filters_add_up(pieces(a, sep), pieces(b, sep));
}

proof fn filters_add_up(a: Seq<Seq<char>>, b: Seq<Seq<char>>)
    ensures
        (a + b).filter(|p: Seq<char>| p.len() > 0) == a.filter(|p: Seq<char>| p.len() > 0)
            + b.filter(|p: Seq<char>| p.len() > 0),
    decreases b.len(),
{
    let full = |p: Seq<char>| p.len() > 0;
    reveal(Seq::filter);
    if b.len() == 0 {
        assert(a + b =~= a);
        assert(a.filter(full) + b.filter(full) =~= a.filter(full));
    } else {
        filters_add_up(a, b.drop_last());
        assert((a + b).drop_last() =~= a + b.drop_last());
        assert((a + b).filter(full) =~= a.filter(full) + b.filter(full));
    }
}

/// Law: joined texts stand one after the other with one separator between any two,
/// and none before the first or behind the last.
pub proof fn texts_are_joined_by_separators(
    a: Seq<Seq<char>>,
    b: Seq<Seq<char>>,
    s: Seq<char>,
    sep: Seq<char>,
)
    ensures
        joined(Seq::<Seq<char>>::empty(), sep) == Seq::<char>::empty(),
        joined(seq![s], sep) == s,
        a.len() > 0 && b.len() > 0 ==> joined(a + b, sep) == joined(a, sep) + sep + joined(b, sep),
    decreases b.len(),
{
    if a.len() > 0 && b.len() > 0 {
        assert((a + b).drop_last() =~= a + b.drop_last());
        if b.len() == 1 {
            assert(a + b.drop_last() =~= a);
        } else {
            texts_are_joined_by_separators(a, b.drop_last(), s, sep);
            assert(joined(a, sep) + sep + joined(b.drop_last(), sep) + sep + b.last() =~= joined(
                a,
                sep,
            ) + sep + (joined(b.drop_last(), sep) + sep + b.last()));
        }
    }
}

/// Law: a text that is repeated none or one time is empty or the text, and the times
/// that it is repeated add up.
pub proof fn repetitions_add_up(unit: Seq<char>, m: nat, n: nat)
    ensures
        repeated(unit, 0) == Seq::<char>::empty(),
        repeated(unit, 1) == unit,
        repeated(unit, m + n) == repeated(unit, m) + repeated(unit, n),
    decreases n,
{
    assert(repeated(unit, 1) =~= repeated(unit, 0) + unit);
    assert(repeated(unit, 1) =~= unit);
    if n == 0 {
        assert(repeated(unit, m) + repeated(unit, 0) =~= repeated(unit, m));
    } else {
        repetitions_add_up(unit, m, (n - 1) as nat);
        assert(repeated(unit, m) + repeated(unit, (n - 1) as nat) + unit =~= repeated(unit, m) + (
        repeated(unit, (n - 1) as nat) + unit));
    }
}

/// Law: the 26 capital letters of ASCII become the small letters in their place of
/// the alphabet; every other character, and the length of a text, stay as they are.
pub proof fn capital_letters_are_lowered(s: Seq<char>, i: int)
    requires
        0 <= i < s.len(),
    ensures
        ascii_lowered(s).len() == s.len(),
        65 <= s[i] as int <= 90 ==> ascii_lowered(s)[i] as int == s[i] as int + 32,
        !(65 <= s[i] as int <= 90) ==> ascii_lowered(s)[i] == s[i],
{
}

/// Law: the texts of a list of strings are those of its strings, in order.
pub proof fn strings_have_their_texts(v: Seq<String>, i: int)
    ensures
        texts(v).len() == v.len(),
        0 <= i < v.len() ==> texts(v)[i] == v[i]@,
{
}

/// Law: a text is an ASCII text just where none of its characters has a code above
/// 127.
pub proof fn ascii_ends_at_127(s: Seq<char>)
    ensures
        !is_ascii_text(s) <==> exists|i: int| 0 <= i < s.len() && (#[trigger] s[i]) as int > 127,
{
}

} // verus!
