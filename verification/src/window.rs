//! Windows: how they are shown, matched and selected.

use vstd::prelude::*;
use vstd::string::*;

use crate::dict::{lists_keys, sorted_keys, Scalar, Value, WindowDict};
use crate::number::{decimal, parse_u64, parsed_u64, show_i64, show_u64};
use crate::protocol::{detailed, Response, ResponseView};
use crate::text::{
    ascii_lowered, contains_text, is_ascii_text, join, joined, lowercase,
    occurring_is_transitive, occurs, quote, quoted, texts, to_lower, trim_end, trimmed_end,
};

verus! {

// ---------------------------------------------------------------------------
// Showing
// ---------------------------------------------------------------------------

/// A truth value as text.
pub open spec fn truth(b: bool) -> Seq<char> {
    if b {
        "true"@
    } else {
        "false"@
    }
}

/// A value as it is shown.
pub open spec fn rendered(v: Value) -> Seq<char> {
    match v.scalar {
        Scalar::Str(s) => s@,
        Scalar::U64(n) => decimal(n as int),
        Scalar::U32(n) => decimal(n as int),
        Scalar::U16(n) => decimal(n as int),
        Scalar::U8(n) => decimal(n as int),
        Scalar::I64(n) => decimal(n as int),
        Scalar::I32(n) => decimal(n as int),
        Scalar::I16(n) => decimal(n as int),
        Scalar::Bool(b) => truth(b),
        Scalar::Double(s) => s@,
        Scalar::Signature(s) => s@,
        Scalar::ObjectPath(s) => s@,
        Scalar::Other => v.debug@,
    }
}

/// Shows a value.
pub fn render_value(v: &Value) -> (r: String)
    ensures
        r@ == rendered(*v),
{
    match &v.scalar {
        Scalar::Str(s) => s.clone(),
        Scalar::U64(n) => show_u64(*n),
        Scalar::U32(n) => show_u64(*n as u64),
        Scalar::U16(n) => show_u64(*n as u64),
        Scalar::U8(n) => show_u64(*n as u64),
        Scalar::I64(n) => show_i64(*n),
        Scalar::I32(n) => show_i64(*n as i64),
        Scalar::I16(n) => show_i64(*n as i64),
        Scalar::Bool(b) => if *b {
            "true".to_owned()
        } else {
            "false".to_owned()
        },
        Scalar::Double(s) => s.clone(),
        Scalar::Signature(s) => s.clone(),
        Scalar::ObjectPath(s) => s.clone(),
        Scalar::Other => v.debug.clone(),
    }
}

/// The lines of a dictionary: key, tab and value, in the order of the keys.
pub open spec fn dict_lines(d: Map<Seq<char>, Value>) -> Seq<Seq<char>> {
    Seq::new(
        sorted_keys(d).len(),
        |i: int| sorted_keys(d)[i] + "\t"@ + rendered(d[sorted_keys(d)[i]]),
    )
}

/// Shows a dictionary, one entry per line, sorted by key.
pub fn dict_to_lines(dict: &WindowDict) -> (r: Vec<String>)
    ensures
        texts(r@) == dict_lines(dict@),
        lists_keys(sorted_keys(dict@), dict@),
{
    let mut r: Vec<String> = Vec::new();
    let n: usize = dict.len();
    for i in 0..n
        invariant
            n == sorted_keys(dict@).len(),
            texts(r@) == dict_lines(dict@).take(i as int),
    {
        let (key, value) = dict.entry(i);
        let mut line: String = key.to_owned();
        line.append("\t");
        line.append(render_value(value).as_str());
        assert(line@ == dict_lines(dict@)[i as int]);
        let ghost before = texts(r@);
        r.push(line);
        assert(texts(r@) =~= before.push(line@));
        assert(dict_lines(dict@).take(i + 1) =~= before.push(line@));
    }
    assert(dict_lines(dict@).take(n as int) =~= dict_lines(dict@));
    r
}

/// Lines one after the other, each with its line end.
pub open spec fn ended(lines: Seq<Seq<char>>) -> Seq<char>
    decreases lines.len(),
{
    if lines.len() == 0 {
        Seq::<char>::empty()
    } else {
        ended(lines.drop_last()) + (lines.last() + "\n"@)
    }
}

/// Puts lines one after the other, each with its line end.
pub fn end_lines(lines: &Vec<String>) -> (r: String)
    ensures
        r@ == ended(texts(lines@)),
{
    let mut r: String = String::new();
    for i in 0..lines.len()
        invariant
            r@ == ended(texts(lines@).take(i as int)),
    {
        let ghost next = texts(lines@).take(i + 1);
        assert(next.drop_last() =~= texts(lines@).take(i as int));
        assert(next.last() == lines@[i as int]@);
        let mut line: String = lines[i].clone();
        line.append("\n");
        r.append(line.as_str());
    }
    assert(texts(lines@).take(lines@.len() as int) =~= texts(lines@));
    r
}

/// One dictionary under its heading.
pub open spec fn dict_block(label: Seq<char>, i: int, d: Map<Seq<char>, Value>) -> Seq<char> {
    "--- "@ + label + "["@ + decimal(i) + "] ---\n"@ + ended(dict_lines(d))
}

/// Dictionaries under their headings, one after the other.
pub open spec fn dict_blocks(label: Seq<char>, dicts: Seq<WindowDict>) -> Seq<char>
    decreases dicts.len(),
{
    if dicts.len() == 0 {
        Seq::<char>::empty()
    } else {
        dict_blocks(label, dicts.drop_last()) + dict_block(label, dicts.len() - 1, dicts.last()@)
    }
}

/// Dictionaries as they are shown.
pub open spec fn dicts_text(label: Seq<char>, dicts: Seq<WindowDict>) -> Seq<char> {
    if dicts.len() == 0 {
        "no "@ + label
    } else {
        trimmed_end(dict_blocks(label, dicts))
    }
}

/// Shows dictionaries, each under a heading.
pub fn fmt_dicts(label: &str, dicts: &Vec<WindowDict>) -> (r: String)
    ensures
        r@ == dicts_text(label@, dicts@),
{
    if dicts.len() == 0 {
        let mut r: String = "no ".to_owned();
        r.append(label);
        return r;
    }
    let mut out: String = String::new();
    for i in 0..dicts.len()
        invariant
            out@ == dict_blocks(label@, dicts@.take(i as int)),
    {
        let ghost next = dicts@.take(i + 1);
        assert(next.drop_last() =~= dicts@.take(i as int));
        let mut block: String = "--- ".to_owned();
        block.append(label);
        block.append("[");
        block.append(show_u64(i as u64).as_str());
        block.append("] ---\n");
        block.append(end_lines(&dict_to_lines(&dicts[i])).as_str());
        out.append(block.as_str());
    }
    assert(dicts@.take(dicts@.len() as int) =~= dicts@);
    trim_end(out.as_str())
}

// ---------------------------------------------------------------------------
// Reading
// ---------------------------------------------------------------------------

/// The signed number with the same bits as an unsigned one.
pub open spec fn signed(n: u64) -> i64 {
    if n <= i64::MAX {
        n as i64
    } else {
        (n - 0x1_0000_0000_0000_0000) as i64
    }
}

/// The unsigned number with the same bits as a signed one.
pub open spec fn unsigned(n: i64) -> u64 {
    if n >= 0 {
        n as u64
    } else {
        (n + 0x1_0000_0000_0000_0000) as u64
    }
}

/// The unsigned number with the same bits as a signed one.
pub fn to_unsigned(n: i64) -> (r: u64)
    ensures
        r == unsigned(n),
{
    if n >= 0 {
        n as u64
    } else {
        (n + i64::MAX + 1) as u64 + 0x8000_0000_0000_0000
    }
}

/// What is said of a dictionary without a key.
pub open spec fn missing_key(key: Seq<char>) -> Seq<char> {
    "window dict missing "@ + quoted(key)
}

/// What is said of a value that is not an integer.
pub open spec fn not_an_integer(key: Seq<char>, v: Value) -> Seq<char> {
    "window dict "@ + quoted(key) + " is not an integer: "@ + v.debug@
}

/// The integer under a key of a dictionary.
pub open spec fn int_field(w: Map<Seq<char>, Value>, key: Seq<char>) -> Result<i64, Seq<char>> {
    if !w.contains_key(key) {
        Err(missing_key(key))
    } else {
        match w[key].scalar {
            Scalar::U64(n) => Ok(signed(n)),
            Scalar::U32(n) => Ok(n as i64),
            Scalar::I64(n) => Ok(n),
            Scalar::I32(n) => Ok(n as i64),
            _ => Err(not_an_integer(key, w[key])),
        }
    }
}

/// Reads the integer under a key.
pub fn dict_i64(w: &WindowDict, key: &str) -> (r: Result<i64, String>)
    ensures
        match r {
            Ok(n) => int_field(w@, key@) == Ok::<i64, Seq<char>>(n),
            Err(e) => int_field(w@, key@) == Err::<i64, Seq<char>>(e@),
        },
{
    match w.get(key) {
        None => {
            let mut e: String = "window dict missing ".to_owned();
            e.append(quote(key).as_str());
            Err(e)
        },
        Some(v) => match &v.scalar {
            Scalar::U64(n) => {
                if *n <= i64::MAX as u64 {
                    Ok(*n as i64)
                } else {
                    Ok((*n - 0x8000_0000_0000_0000) as i64 + i64::MIN)
                }
            },
            Scalar::U32(n) => Ok(*n as i64),
            Scalar::I64(n) => Ok(*n),
            Scalar::I32(n) => Ok(*n as i64),
            _ => {
                let mut e: String = "window dict ".to_owned();
                e.append(quote(key).as_str());
                e.append(" is not an integer: ");
                e.append(v.debug.as_str());
                Err(e)
            },
        },
    }
}

/// Whether a key of a dictionary holds true.
pub open spec fn flag_set(w: Map<Seq<char>, Value>, key: Seq<char>) -> bool {
    w.contains_key(key) && (w[key].scalar matches Scalar::Bool(b) && b)
}

/// Reads the truth value under a key.  Anything but true is false.
pub fn dict_bool(w: &WindowDict, key: &str) -> (r: bool)
    ensures
        r == flag_set(w@, key@),
{
    match w.get(key) {
        Some(v) => match &v.scalar {
            Scalar::Bool(b) => *b,
            _ => false,
        },
        None => false,
    }
}

/// A value of a dictionary as it is shown, or nothing.
pub open spec fn shown(w: Map<Seq<char>, Value>, key: Seq<char>) -> Seq<char> {
    if w.contains_key(key) {
        rendered(w[key])
    } else {
        Seq::<char>::empty()
    }
}

/// Shows a value of a dictionary, or nothing.
pub fn show_field(w: &WindowDict, key: &str) -> (r: String)
    ensures
        r@ == shown(w@, key@),
{
    match w.get(key) {
        Some(v) => render_value(v),
        None => String::new(),
    }
}

// ---------------------------------------------------------------------------
// Matching
// ---------------------------------------------------------------------------

/// Whether the value of a key, in lower case, contains a text.
pub open spec fn field_holds(
    w: Map<Seq<char>, Value>,
    key: Seq<char>,
    needle: Seq<char>,
) -> bool {
    w.contains_key(key) && occurs(lowercase(rendered(w[key])), needle)
}

/// Whether the class, the application or the title of a window, in lower case,
/// contains a text.
pub open spec fn holds_text(w: Map<Seq<char>, Value>, needle: Seq<char>) -> bool {
    field_holds(w, "wm_class"@, needle) || field_holds(w, "app_id"@, needle) || field_holds(
        w,
        "title"@,
        needle,
    )
}

/// Whether a window matches a pattern: whether its class, its application or
/// its title contains it, in any case.
pub open spec fn matches_pattern(w: Map<Seq<char>, Value>, pattern: Seq<char>) -> bool {
    holds_text(w, lowercase(pattern))
}

/// Whether the value of a key, if there is one, is an ASCII text.
pub open spec fn is_ascii_field(w: Map<Seq<char>, Value>, key: Seq<char>) -> bool {
    w.contains_key(key) ==> is_ascii_text(rendered(w[key]))
}

/// Whether the class, the application and the title of a window, as far as it has
/// them, are ASCII texts.
pub open spec fn is_ascii_window(w: Map<Seq<char>, Value>) -> bool {
    is_ascii_field(w, "wm_class"@) && is_ascii_field(w, "app_id"@) && is_ascii_field(w, "title"@)
}

/// Whether the value of a key contains a text, the ASCII letters of both in lower
/// case.
pub open spec fn ascii_field_matches(
    w: Map<Seq<char>, Value>,
    key: Seq<char>,
    pattern: Seq<char>,
) -> bool {
    w.contains_key(key) && occurs(ascii_lowered(rendered(w[key])), ascii_lowered(pattern))
}

/// Whether the class, the application or the title of a window contains a text,
/// the ASCII letters of both in lower case.
pub open spec fn ascii_matches(w: Map<Seq<char>, Value>, pattern: Seq<char>) -> bool {
    ascii_field_matches(w, "wm_class"@, pattern) || ascii_field_matches(w, "app_id"@, pattern)
        || ascii_field_matches(w, "title"@, pattern)
}

/// Whether one of several texts contains another.
pub open spec fn one_holds(values: Seq<Seq<char>>, needle: Seq<char>) -> bool {
    exists|i: int| 0 <= i < values.len() && occurs(#[trigger] values[i], needle)
}

/// Tests whether one of several texts in lower case contains another.
pub fn any_holds(values: &Vec<String>, needle: &str) -> (r: bool)
    ensures
        r == one_holds(texts(values@), needle@),
{
    for i in 0..values.len()
        invariant
            forall|k: int| 0 <= k < i ==> !occurs(#[trigger] texts(values@)[k], needle@),
    {
        assert(texts(values@)[i as int] == values@[i as int]@);
        if contains_text(values[i].as_str(), needle) {
            return true;
        }
    }
    false
}

/// The value of a key in lower case, if there is one.
spec fn lowered_field(w: Map<Seq<char>, Value>, key: Seq<char>) -> Seq<Seq<char>> {
    if w.contains_key(key) {
        seq![lowercase(rendered(w[key]))]
    } else {
        Seq::<Seq<char>>::empty()
    }
}

fn push_lowered(values: &mut Vec<String>, w: &WindowDict, key: &str)
    ensures
        texts(final(values)@) == texts(old(values)@) + lowered_field(w@, key@),
        w@.contains_key(key@) && is_ascii_text(rendered(w@[key@])) ==> lowercase(
            rendered(w@[key@]),
        ) == ascii_lowered(rendered(w@[key@])),
{
    let ghost before = texts(values@);
    if let Some(v) = w.get(key) {
        let lowered: String = to_lower(render_value(v).as_str());
        values.push(lowered);
        assert(texts(values@) =~= before + seq![lowered@]);
    } else {
        assert(texts(values@) =~= before + Seq::<Seq<char>>::empty());
    }
}

/// Tests whether a window matches a pattern.  An ASCII pattern is looked for with
/// its letters in lower case, and so are ASCII texts of the window searched.
pub fn window_matches(w: &WindowDict, pattern: &str) -> (r: bool)
    ensures
        r == matches_pattern(w@, pattern@),
        is_ascii_text(pattern@) ==> r == holds_text(w@, ascii_lowered(pattern@)),
        is_ascii_text(pattern@) && is_ascii_window(w@) ==> r == ascii_matches(w@, pattern@),
{
    let needle: String = to_lower(pattern);
    let mut values: Vec<String> = Vec::new();
    assert(texts(values@) =~= Seq::<Seq<char>>::empty());
    push_lowered(&mut values, w, "wm_class");
    push_lowered(&mut values, w, "app_id");
    push_lowered(&mut values, w, "title");
    proof {
        let (a, b, c) = (
            lowered_field(w@, "wm_class"@),
            lowered_field(w@, "app_id"@),
            lowered_field(w@, "title"@),
        );
        let all = texts(values@);
        assert(all =~= a + b + c);
        if field_holds(w@, "wm_class"@, needle@) {
            assert(all[0] == a[0]);
        }
        if field_holds(w@, "app_id"@, needle@) {
            assert(all[a.len() as int] == b[0]);
        }
        if field_holds(w@, "title"@, needle@) {
            assert(all[(a.len() + b.len()) as int] == c[0]);
        }
    }
    any_holds(&values, needle.as_str())
}

/// One line of the list of candidates.
pub open spec fn summary_line(w: Map<Seq<char>, Value>) -> Seq<char> {
    "  id="@ + shown(w, "id"@) + "\twm_class="@ + quoted(shown(w, "wm_class"@)) + "\tapp_id="@
        + quoted(shown(w, "app_id"@)) + "\tfocused="@ + shown(w, "focused"@) + "\ttitle="@ + quoted(
        shown(w, "title"@),
    )
}

/// The lines of the list of candidates.
pub open spec fn summary_lines(windows: Seq<WindowDict>) -> Seq<Seq<char>> {
    windows.map_values(|w: WindowDict| summary_line(w@))
}

/// The list of candidates.
pub open spec fn summary(windows: Seq<WindowDict>) -> Seq<char> {
    joined(summary_lines(windows), "\n"@)
}

/// Lists windows, one per line, so that one of them can be picked.
pub fn summarize_windows(windows: &Vec<WindowDict>) -> (r: String)
    ensures
        r@ == summary(windows@),
{
    let mut lines: Vec<String> = Vec::new();
    for i in 0..windows.len()
        invariant
            texts(lines@) == summary_lines(windows@).take(i as int),
    {
        let w: &WindowDict = &windows[i];
        let mut line: String = "  id=".to_owned();
        line.append(show_field(w, "id").as_str());
        line.append("\twm_class=");
        line.append(quote(show_field(w, "wm_class").as_str()).as_str());
        line.append("\tapp_id=");
        line.append(quote(show_field(w, "app_id").as_str()).as_str());
        line.append("\tfocused=");
        line.append(show_field(w, "focused").as_str());
        line.append("\ttitle=");
        line.append(quote(show_field(w, "title").as_str()).as_str());
        assert(line@ == summary_lines(windows@)[i as int]);
        let ghost before = texts(lines@);
        lines.push(line);
        assert(texts(lines@) =~= before.push(line@));
        assert(summary_lines(windows@).take(i + 1) =~= before.push(line@));
    }
    assert(summary_lines(windows@).take(windows@.len() as int) =~= summary_lines(windows@));
    join(&lines, "\n")
}

/// The windows that match a pattern, in order.
pub open spec fn matching(windows: Seq<WindowDict>, pattern: Seq<char>) -> Seq<WindowDict> {
    windows.filter(|w: WindowDict| matches_pattern(w@, pattern))
}

/// The windows that contain a text, the ASCII letters in lower case, in order.
pub open spec fn ascii_matching(windows: Seq<WindowDict>, pattern: Seq<char>) -> Seq<WindowDict> {
    windows.filter(|w: WindowDict| ascii_matches(w@, pattern))
}

/// Whether a pattern, and what is searched of windows, are ASCII texts.
pub open spec fn all_ascii(windows: Seq<WindowDict>, pattern: Seq<char>) -> bool {
    is_ascii_text(pattern) && forall|i: int|
        0 <= i < windows.len() ==> is_ascii_window((#[trigger] windows[i])@)
}

/// Keeps the windows that match a pattern.
pub fn keep_matching(windows: Vec<WindowDict>, pattern: &str) -> (r: Vec<WindowDict>)
    ensures
        r@ == matching(windows@, pattern@),
        all_ascii(windows@, pattern@) ==> r@ == ascii_matching(windows@, pattern@),
{
    let ghost all = windows@;
    let ghost pred = |w: WindowDict| matches_pattern(w@, pattern@);
    let ghost ascii = |w: WindowDict| ascii_matches(w@, pattern@);
    let mut kept: Vec<WindowDict> = Vec::new();
    proof {
        reveal(Seq::filter);
    }
    assert(all.take(0).filter(pred) =~= Seq::<WindowDict>::empty());
    assert(all.take(0).filter(ascii) =~= Seq::<WindowDict>::empty());
    for w in it: windows
        invariant
            it.seq() == all,
            pred == (|w: WindowDict| matches_pattern(w@, pattern@)),
            ascii == (|w: WindowDict| ascii_matches(w@, pattern@)),
            kept@ == all.take(it.index()).filter(pred),
            all_ascii(all, pattern@) ==> kept@ == all.take(it.index()).filter(ascii),
    {
        proof {
            reveal(Seq::filter);
        }
        assert(all.take(it.index() + 1).drop_last() =~= all.take(it.index()));
        assert(all.take(it.index() + 1).last() == w);
        assert(all[it.index()] == w);
        if window_matches(&w, pattern) {
            kept.push(w);
        }
    }
    assert(all.take(all.len() as int) =~= all);
    kept
}

// ---------------------------------------------------------------------------
// Selecting
// ---------------------------------------------------------------------------

/// The id of a window, as the extension tells it: without a sign, or with one.
#[derive(Clone, Copy, Debug, PartialEq, Eq, Structural)]
pub enum WindowId {
    Unsigned(u64),
    Signed(i64),
}

impl WindowId {
    /// The id as a number.
    pub open spec fn number(self) -> int {
        match self {
            WindowId::Unsigned(n) => n as int,
            WindowId::Signed(n) => n as int,
        }
    }

    /// The id as the extension takes it: the unsigned number with the same bits.
    pub open spec fn bits(self) -> u64 {
        match self {
            WindowId::Unsigned(n) => n,
            WindowId::Signed(n) => unsigned(n),
        }
    }

    /// Shows the id.
    pub fn text(&self) -> (r: String)
        ensures
            r@ == decimal(self.number()),
    {
        match self {
            WindowId::Unsigned(n) => show_u64(*n),
            WindowId::Signed(n) => show_i64(*n),
        }
    }

    /// The id as the extension takes it.
    pub fn to_bits(&self) -> (r: u64)
        ensures
            r == self.bits(),
    {
        match self {
            WindowId::Unsigned(n) => *n,
            WindowId::Signed(n) => to_unsigned(*n),
        }
    }

    /// Tests whether the id is a number.
    pub fn equals(&self, id: u64) -> (r: bool)
        ensures
            r == (self.number() == id),
    {
        match self {
            WindowId::Unsigned(n) => *n == id,
            WindowId::Signed(n) => *n >= 0 && *n as u64 == id,
        }
    }
}

/// The id of a window.
pub open spec fn window_id(w: Map<Seq<char>, Value>) -> Result<WindowId, Seq<char>> {
    if !w.contains_key("id"@) {
        Err(missing_key("id"@))
    } else {
        match w["id"@].scalar {
            Scalar::U64(n) => Ok(WindowId::Unsigned(n)),
            Scalar::U32(n) => Ok(WindowId::Unsigned(n as u64)),
            Scalar::I64(n) => Ok(WindowId::Signed(n)),
            Scalar::I32(n) => Ok(WindowId::Signed(n as i64)),
            _ => Err(not_an_integer("id"@, w["id"@])),
        }
    }
}

/// Reads the id of a window.
pub fn dict_id(w: &WindowDict) -> (r: Result<WindowId, String>)
    ensures
        match r {
            Ok(id) => window_id(w@) == Ok::<WindowId, Seq<char>>(id),
            Err(e) => window_id(w@) == Err::<WindowId, Seq<char>>(e@),
        },
{
    match dict_i64(w, "id") {
        Err(e) => Err(e),
        Ok(n) => match w.get("id") {
            Some(v) => match &v.scalar {
                Scalar::U64(id) => Ok(WindowId::Unsigned(*id)),
                Scalar::U32(id) => Ok(WindowId::Unsigned(*id as u64)),
                _ => Ok(WindowId::Signed(n)),
            },
            None => Ok(WindowId::Signed(n)),
        },
    }
}

/// Law: the id of a window has the bits of the integer under its key, and it can
/// be read just where that integer can.
pub proof fn ids_are_integers(w: Map<Seq<char>, Value>)
    ensures
        match int_field(w, "id"@) {
            Ok(n) => window_id(w) matches Ok(id) && id.bits() == unsigned(n),
            Err(e) => window_id(w) == Err::<WindowId, Seq<char>>(e),
        },
{
}

/// Whether a window has an id.
pub open spec fn has_id(w: Map<Seq<char>, Value>, id: u64) -> bool {
    window_id(w) matches Ok(i) && i.number() == id
}

/// The first window with an id.
pub open spec fn first_with_id(windows: Seq<WindowDict>, id: u64) -> Option<int>
    decreases windows.len(),
{
    if windows.len() == 0 {
        None
    } else {
        match first_with_id(windows.drop_last(), id) {
            Some(i) => Some(i),
            None => if has_id(windows.last()@, id) {
                Some(windows.len() - 1)
            } else {
                None
            },
        }
    }
}

/// What is said of a pattern that no window matches.
pub open spec fn no_match(pattern: Seq<char>) -> Seq<char> {
    "no window matched "@ + quoted(pattern)
}

/// What is said of a selector that several windows match.
pub open spec fn ambiguous(windows: Seq<WindowDict>, sel: Seq<char>) -> Seq<char> {
    decimal(windows.len() as int) + " windows match "@ + quoted(sel)
        + " — refine the pattern or use a window id:\n"@ + summary(windows)
}

/// The only window that was found, or what is wrong.
pub open spec fn only_one(found: Seq<WindowDict>, sel: Seq<char>) -> Result<
    WindowDict,
    Seq<char>,
> {
    if found.len() == 0 {
        Err(no_match(sel))
    } else if found.len() == 1 {
        Ok(found[0])
    } else {
        Err(ambiguous(found, sel))
    }
}

/// The first window whose id a selector is, or else the only one that was found.
pub open spec fn by_id_or(
    windows: Seq<WindowDict>,
    sel: Seq<char>,
    found: Seq<WindowDict>,
) -> Result<WindowDict, Seq<char>> {
    match parsed_u64(sel) {
        Some(id) => match first_with_id(windows, id) {
            Some(i) => Ok(windows[i]),
            None => only_one(found, sel),
        },
        None => only_one(found, sel),
    }
}

/// The window that a selector stands for: the first one whose id it is, or else
/// the only one that it matches as a pattern.
pub open spec fn selected(windows: Seq<WindowDict>, sel: Seq<char>) -> Result<
    WindowDict,
    Seq<char>,
> {
    by_id_or(windows, sel, matching(windows, sel))
}

/// Tests whether a window has an id.
pub fn window_has_id(w: &WindowDict, id: u64) -> (r: bool)
    ensures
        r == has_id(w@, id),
{
    match dict_id(w) {
        Ok(i) => i.equals(id),
        Err(_) => false,
    }
}

/// Law: the window that is found by an id has it, and no earlier one does; if
/// none is found, none has it.
pub proof fn found_window_is_the_first(windows: Seq<WindowDict>, id: u64)
    ensures
        match first_with_id(windows, id) {
            Some(i) => 0 <= i < windows.len() && has_id(windows[i]@, id) && forall|j: int|
                0 <= j < i ==> !has_id((#[trigger] windows[j])@, id),
            None => forall|j: int|
                0 <= j < windows.len() ==> !has_id((#[trigger] windows[j])@, id),
        },
    decreases windows.len(),
{
    if windows.len() > 0 {
        let rest = windows.drop_last();
        found_window_is_the_first(rest, id);
        match first_with_id(rest, id) {
            Some(i) => {
                assert forall|j: int| 0 <= j < i implies !has_id((#[trigger] windows[j])@, id) by {
                    assert(!has_id(rest[j]@, id));
                }
            },
            None => {
                assert forall|j: int| 0 <= j < rest.len() implies !has_id(
                    (#[trigger] windows[j])@,
                    id,
                ) by {
                    assert(!has_id(rest[j]@, id));
                }
            },
        }
    }
}

/// Finds the first window with an id.
pub fn find_id(windows: &Vec<WindowDict>, id: u64) -> (r: Option<usize>)
    ensures
        match r {
            Some(i) => first_with_id(windows@, id) == Some(i as int),
            None => first_with_id(windows@, id) is None,
        },
{
    for i in 0..windows.len()
        invariant
            first_with_id(windows@.take(i as int), id) is None,
    {
        assert(windows@.take(i + 1).drop_last() =~= windows@.take(i as int));
        if window_has_id(&windows[i], id) {
            proof {
                found_window_is_the_first(windows@.take(i as int), id);
                found_window_is_the_first(windows@, id);
                assert forall|j: int| 0 <= j < i implies !has_id((#[trigger] windows@[j])@, id) by {
                    assert(!has_id(windows@.take(i as int)[j]@, id));
                }
            }
            return Some(i);
        }
    }
    assert(windows@.take(windows@.len() as int) =~= windows@);
    None
}

/// Finds the window that a selector stands for.
pub fn resolve_window_selector(windows: Vec<WindowDict>, sel: &str) -> (r: Result<
    WindowDict,
    String,
>)
    ensures
        match r {
            Ok(w) => selected(windows@, sel@) == Ok::<WindowDict, Seq<char>>(w),
            Err(e) => selected(windows@, sel@) == Err::<WindowDict, Seq<char>>(e@),
        },
        all_ascii(windows@, sel@) ==> selected(windows@, sel@) == by_id_or(
            windows@,
            sel@,
            ascii_matching(windows@, sel@),
        ),
{
    let mut windows: Vec<WindowDict> = windows;
    if let Some(id) = parse_u64(sel) {
        if let Some(i) = find_id(&windows, id) {
            proof {
                found_window_is_the_first(windows@, id);
            }
            return Ok(windows.remove(i));
        }
    }
    let mut found: Vec<WindowDict> = keep_matching(windows, sel);
    if found.len() == 0 {
        let mut e: String = "no window matched ".to_owned();
        e.append(quote(sel).as_str());
        Err(e)
    } else if found.len() == 1 {
        Ok(found.remove(0))
    } else {
        let mut e: String = show_u64(found.len() as u64);
        e.append(" windows match ");
        e.append(quote(sel).as_str());
        e.append(" — refine the pattern or use a window id:\n");
        e.append(summarize_windows(&found).as_str());
        Err(e)
    }
}

/// Law: the id that a list of candidates shows selects the window again,
/// whatever else the digits match.
pub proof fn shown_id_selects_the_window(windows: Seq<WindowDict>, i: int, id: u64)
    requires
        0 <= i < windows.len(),
        windows[i]@.contains_key("id"@),
        windows[i]@["id"@].scalar == Scalar::U64(id),
        forall|j: int| 0 <= j < i ==> !has_id((#[trigger] windows[j])@, id),
    ensures
        selected(windows, shown(windows[i]@, "id"@)) == Ok::<WindowDict, Seq<char>>(windows[i]),
{
    crate::number::parse_undoes_show(id);
    found_window_is_the_first(windows, id);
    assert(has_id(windows[i]@, id));
}

/// Law: the id that is told of a window selects it again, if it is an id that a
/// selector can be.
pub proof fn told_id_selects_the_window(windows: Seq<WindowDict>, i: int, id: WindowId)
    requires
        0 <= i < windows.len(),
        window_id(windows[i]@) == Ok::<WindowId, Seq<char>>(id),
        id.number() >= 0,
        forall|j: int| 0 <= j < i ==> !has_id((#[trigger] windows[j])@, id.number() as u64),
    ensures
        selected(windows, decimal(id.number())) == Ok::<WindowDict, Seq<char>>(windows[i]),
{
    let n = id.number() as u64;
    crate::number::parse_undoes_show(n);
    found_window_is_the_first(windows, n);
    assert(has_id(windows[i]@, n));
}

/// Law: whether a window matches a pattern does not depend on the case of the
/// pattern.
pub proof fn patterns_ignore_case(w: Map<Seq<char>, Value>, pattern: Seq<char>, other: Seq<char>)
    requires
        lowercase(pattern) == lowercase(other),
    ensures
        matches_pattern(w, pattern) == matches_pattern(w, other),
{
}

/// Law: what contains a text contains every part of it.
pub proof fn parts_of_texts_are_held(
    w: Map<Seq<char>, Value>,
    needle: Seq<char>,
    part: Seq<char>,
)
    requires
        occurs(needle, part),
        holds_text(w, needle),
    ensures
        holds_text(w, part),
{
    if field_holds(w, "wm_class"@, needle) {
        occurring_is_transitive(lowercase(rendered(w["wm_class"@])), needle, part);
    } else if field_holds(w, "app_id"@, needle) {
        occurring_is_transitive(lowercase(rendered(w["app_id"@])), needle, part);
    } else {
        occurring_is_transitive(lowercase(rendered(w["title"@])), needle, part);
    }
}

/// Law: a window that matches a pattern matches every part of it too, in any
/// case.
pub proof fn parts_of_patterns_match(
    w: Map<Seq<char>, Value>,
    pattern: Seq<char>,
    part: Seq<char>,
)
    requires
        occurs(lowercase(pattern), lowercase(part)),
    ensures
        matches_pattern(w, pattern) ==> matches_pattern(w, part),
{
    if matches_pattern(w, pattern) {
        parts_of_texts_are_held(w, lowercase(pattern), lowercase(part));
    }
}

/// Whether two dictionaries agree on a key: whether both have the same value for
/// it, or both have none.
pub open spec fn agree_on(
    w: Map<Seq<char>, Value>,
    other: Map<Seq<char>, Value>,
    key: Seq<char>,
) -> bool {
    w.contains_key(key) == other.contains_key(key) && (w.contains_key(key) ==> w[key]
        == other[key])
}

/// Law: only the class, the application and the title of a window are searched:
/// windows that agree on these match the same patterns.
pub proof fn other_keys_are_not_searched(
    w: Map<Seq<char>, Value>,
    other: Map<Seq<char>, Value>,
    pattern: Seq<char>,
)
    requires
        agree_on(w, other, "wm_class"@),
        agree_on(w, other, "app_id"@),
        agree_on(w, other, "title"@),
    ensures
        matches_pattern(w, pattern) == matches_pattern(other, pattern),
{
}

/// Law: a selector that is no id of a window selects the window that it matches
/// if and only if it matches one window and no more.
pub proof fn pattern_must_match_one(windows: Seq<WindowDict>, sel: Seq<char>)
    requires
        forall|j: int, id: u64|
            0 <= j < windows.len() && parsed_u64(sel) == Some(id) ==> !(#[trigger] has_id(
                windows[j]@,
                id,
            )),
    ensures
        selected(windows, sel) is Ok <==> matching(windows, sel).len() == 1,
        selected(windows, sel) is Ok ==> matches_pattern(selected(windows, sel)->Ok_0@, sel),
{
    if let Some(id) = parsed_u64(sel) {
        found_window_is_the_first(windows, id);
    }
    broadcast use vstd::seq_lib::group_filter_ensures;

}

/// What is said of a pattern that several windows match.
pub open spec fn several(windows: Seq<WindowDict>, pattern: Seq<char>) -> Seq<char> {
    decimal(windows.len() as int) + " windows match "@ + quoted(pattern)
        + " — refine the pattern, target one by id (`window <id>` / `click-in <id> ...`), or pass --all to list every match:\n"@
        + summary(windows)
}

/// What comes of looking for a window, given what was found.
pub open spec fn found_outcome(found: Seq<WindowDict>, pattern: Seq<char>, all: bool) -> Result<
    ResponseView,
    Seq<char>,
> {
    if found.len() == 0 {
        Err(no_match(pattern))
    } else if found.len() == 1 || all {
        Ok(detailed(dicts_text("match"@, found)))
    } else {
        Err(several(found, pattern))
    }
}

/// What comes of looking for a window.
pub open spec fn search_outcome(windows: Seq<WindowDict>, pattern: Seq<char>, all: bool) -> Result<
    ResponseView,
    Seq<char>,
> {
    found_outcome(matching(windows, pattern), pattern, all)
}

/// Looks for the window that matches a pattern, or for all of them.
pub fn find_window(windows: Vec<WindowDict>, pattern: &str, all: bool) -> (r: Result<
    Response,
    String,
>)
    ensures
        match r {
            Ok(resp) => search_outcome(windows@, pattern@, all) == Ok::<ResponseView, Seq<char>>(
                resp@,
            ),
            Err(e) => search_outcome(windows@, pattern@, all) == Err::<ResponseView, Seq<char>>(
                e@,
            ),
        },
        all_ascii(windows@, pattern@) ==> search_outcome(windows@, pattern@, all) == found_outcome(
            ascii_matching(windows@, pattern@),
            pattern@,
            all,
        ),
{
    let found: Vec<WindowDict> = keep_matching(windows, pattern);
    if found.len() == 0 {
        let mut e: String = "no window matched ".to_owned();
        e.append(quote(pattern).as_str());
        Err(e)
    } else if found.len() == 1 || all {
        Ok(Response::ok_detail(fmt_dicts("match", &found)))
    } else {
        let mut e: String = show_u64(found.len() as u64);
        e.append(" windows match ");
        e.append(quote(pattern).as_str());
        e.append(
            " — refine the pattern, target one by id (`window <id>` / `click-in <id> ...`), or pass --all to list every match:\n",
        );
        e.append(summarize_windows(&found).as_str());
        Err(e)
    }
}

// ---------------------------------------------------------------------------
// More laws
// ---------------------------------------------------------------------------

/// Law: a text is shown as it is, an integer of any width in decimal, a truth value
/// by its name, and what is none of these as a programmer sees it.
pub proof fn values_are_shown_by_what_they_are(v: Value)
    ensures
        v.scalar matches Scalar::Str(s) ==> rendered(v) == s@,
        v.scalar matches Scalar::U64(n) ==> rendered(v) == decimal(n as int),
        v.scalar matches Scalar::U32(n) ==> rendered(v) == decimal(n as int),
        v.scalar matches Scalar::U16(n) ==> rendered(v) == decimal(n as int),
        v.scalar matches Scalar::U8(n) ==> rendered(v) == decimal(n as int),
        v.scalar matches Scalar::I64(n) ==> rendered(v) == decimal(n as int),
        v.scalar matches Scalar::I32(n) ==> rendered(v) == decimal(n as int),
        v.scalar matches Scalar::I16(n) ==> rendered(v) == decimal(n as int),
        v.scalar matches Scalar::Bool(b) ==> rendered(v) == (if b {
            "true"@
        } else {
            "false"@
        }),
        v.scalar matches Scalar::Double(s) ==> rendered(v) == s@,
        v.scalar matches Scalar::Signature(s) ==> rendered(v) == s@,
        v.scalar matches Scalar::ObjectPath(s) ==> rendered(v) == s@,
        v.scalar is Other ==> rendered(v) == v.debug@,
{
}

/// Law: what is shown of a key is its value, or nothing if there is none.
pub proof fn keys_are_shown_by_their_values(w: Map<Seq<char>, Value>, key: Seq<char>)
    ensures
        w.contains_key(key) ==> shown(w, key) == rendered(w[key]),
        !w.contains_key(key) ==> shown(w, key).len() == 0,
{
}

/// Law: an integer of 32 or 64 bits is read as the number that it is; one above the
/// greatest signed number is read as the number below zero with the same bits.
/// Nothing else is an integer.
pub proof fn integers_keep_their_bits(w: Map<Seq<char>, Value>, key: Seq<char>)
    ensures
        !w.contains_key(key) ==> int_field(w, key) == Err::<i64, Seq<char>>(
            "window dict missing "@ + quoted(key),
        ),
        w.contains_key(key) ==> match w[key].scalar {
            Scalar::U64(n) => int_field(w, key) matches Ok(i) && (i == n || i + 0x1_0000_0000_0000_0000
                == n),
            Scalar::U32(n) => int_field(w, key) matches Ok(i) && i == n,
            Scalar::I64(n) => int_field(w, key) matches Ok(i) && i == n,
            Scalar::I32(n) => int_field(w, key) matches Ok(i) && i == n,
            _ => int_field(w, key) == Err::<i64, Seq<char>>(
                "window dict "@ + quoted(key) + " is not an integer: "@ + w[key].debug@,
            ),
        },
{
}

/// Law: the id of a window is the number under its key, with its sign; the extension
/// is given the unsigned number with the same bits.
pub proof fn ids_keep_their_numbers(w: Map<Seq<char>, Value>)
    ensures
        window_id(w) is Err <==> int_field(w, "id"@) is Err,
        window_id(w) matches Ok(id) ==> {
            &&& id.bits() == id.number() || id.bits() == id.number() + 0x1_0000_0000_0000_0000
            &&& w.contains_key("id"@)
            &&& match w["id"@].scalar {
                Scalar::U64(n) => id.number() == n,
                Scalar::U32(n) => id.number() == n,
                Scalar::I64(n) => id.number() == n,
                Scalar::I32(n) => id.number() == n,
                _ => false,
            }
        },
        forall|id: u64| #[trigger]
            has_id(w, id) <==> w.contains_key("id"@) && match w["id"@].scalar {
                Scalar::U64(n) => n == id,
                Scalar::U32(n) => n == id,
                Scalar::I64(n) => n == id,
                Scalar::I32(n) => n == id,
                _ => false,
            },
{
}

/// Law: a flag is set just where its key holds the truth value true.
pub proof fn only_true_sets_a_flag(w: Map<Seq<char>, Value>, key: Seq<char>)
    ensures
        flag_set(w, key) <==> w.contains_key(key) && w[key].scalar == Scalar::Bool(true),
{
}

/// Law: a window matches a pattern just where it has a class, an application or a
/// title of which the lower-case form contains that of the pattern.
pub proof fn three_keys_are_searched(w: Map<Seq<char>, Value>, pattern: Seq<char>)
    ensures
        matches_pattern(w, pattern) <==> exists|key: Seq<char>|
            (key == "wm_class"@ || key == "app_id"@ || key == "title"@) && #[trigger] w.contains_key(
                key,
            ) && occurs(lowercase(rendered(w[key])), lowercase(pattern)),
        ascii_matches(w, pattern) <==> exists|key: Seq<char>|
            (key == "wm_class"@ || key == "app_id"@ || key == "title"@) && #[trigger] w.contains_key(
                key,
            ) && occurs(ascii_lowered(rendered(w[key])), ascii_lowered(pattern)),
{
    let low = lowercase(pattern);
    if matches_pattern(w, pattern) {
        if field_holds(w, "wm_class"@, low) {
            assert(w.contains_key("wm_class"@));
        } else if field_holds(w, "app_id"@, low) {
            assert(w.contains_key("app_id"@));
        } else {
            assert(w.contains_key("title"@));
        }
    }
    if ascii_matches(w, pattern) {
        if ascii_field_matches(w, "wm_class"@, pattern) {
            assert(w.contains_key("wm_class"@));
        } else if ascii_field_matches(w, "app_id"@, pattern) {
            assert(w.contains_key("app_id"@));
        } else {
            assert(w.contains_key("title"@));
        }
    }
}

/// Law: of several windows those are kept that match, all of them, and in order.
pub proof fn all_that_match_are_kept(
    windows: Seq<WindowDict>,
    w: WindowDict,
    pattern: Seq<char>,
)
    ensures
        matching(Seq::<WindowDict>::empty(), pattern).len() == 0,
        matching(windows.push(w), pattern) == (if matches_pattern(w@, pattern) {
            matching(windows, pattern).push(w)
        } else {
            matching(windows, pattern)
        }),
        ascii_matching(Seq::<WindowDict>::empty(), pattern).len() == 0,
        ascii_matching(windows.push(w), pattern) == (if ascii_matches(w@, pattern) {
            ascii_matching(windows, pattern).push(w)
        } else {
            ascii_matching(windows, pattern)
        }),
{
    reveal(Seq::filter);
    assert(windows.push(w).drop_last() =~= windows);
}

/// Law: a selector that is the id of a window stands for the first window with that
/// id, whatever it matches; any other stands for the only window that it matches,
/// and for none if it matches none or several.
pub proof fn ids_come_before_patterns(windows: Seq<WindowDict>, sel: Seq<char>)
    ensures
        ({
            let found = matching(windows, sel);
            let by_id = |i: int|
                0 <= i < windows.len() && parsed_u64(sel) is Some && has_id(
                    windows[i]@,
                    parsed_u64(sel)->0,
                );
            &&& forall|i: int| #[trigger]
                by_id(i) && (forall|j: int| j < i ==> !#[trigger] by_id(j)) ==> selected(
                    windows,
                    sel,
                ) == Ok::<WindowDict, Seq<char>>(windows[i])
            &&& (forall|i: int| !#[trigger] by_id(i)) ==> {
                &&& found.len() == 0 ==> selected(windows, sel) == Err::<WindowDict, Seq<char>>(
                    "no window matched "@ + quoted(sel),
                )
                &&& found.len() == 1 ==> selected(windows, sel) == Ok::<WindowDict, Seq<char>>(
                    found[0],
                )
                &&& found.len() > 1 ==> selected(windows, sel) == Err::<WindowDict, Seq<char>>(
                    decimal(found.len() as int) + " windows match "@ + quoted(sel)
                        + " — refine the pattern or use a window id:\n"@ + summary(found),
                )
            }
        }),
{
    let by_id = |i: int|
        0 <= i < windows.len() && parsed_u64(sel) is Some && has_id(
            windows[i]@,
            parsed_u64(sel)->0,
        );
    if let Some(id) = parsed_u64(sel) {
        found_window_is_the_first(windows, id);
        match first_with_id(windows, id) {
            Some(k) => {
                assert(by_id(k));
                assert forall|i: int| #[trigger]
                    by_id(i) && (forall|j: int| j < i ==> !#[trigger] by_id(j)) implies i == k by {
                    if i < k {
                        assert(!has_id(windows[i]@, id));
                    }
                }
            },
            None => {
                assert forall|i: int| !#[trigger] by_id(i) by {
                    if 0 <= i < windows.len() {
                        assert(!has_id(windows[i]@, id));
                    }
                }
            },
        }
    }
}

/// Law: a search that finds nothing says so; one that finds one window shows it; one
/// that finds several shows them if all were asked for, and else lists them.
pub proof fn searches_show_what_they_find(windows: Seq<WindowDict>, pattern: Seq<char>, all: bool)
    ensures
        ({
            let found = matching(windows, pattern);
            let shows = Ok::<ResponseView, Seq<char>>(
                ResponseView::Done { detail: Some(dicts_text("match"@, found)), paths: None },
            );
            &&& found.len() == 0 ==> search_outcome(windows, pattern, all) == Err::<
                ResponseView,
                Seq<char>,
            >("no window matched "@ + quoted(pattern))
            &&& found.len() == 1 ==> search_outcome(windows, pattern, all) == shows
            &&& found.len() > 1 && all ==> search_outcome(windows, pattern, all) == shows
            &&& found.len() > 1 && !all ==> search_outcome(windows, pattern, all) == Err::<
                ResponseView,
                Seq<char>,
            >(
                decimal(found.len() as int) + " windows match "@ + quoted(pattern)
                    + " — refine the pattern, target one by id (`window <id>` / `click-in <id> ...`), or pass --all to list every match:\n"@
                    + summary(found),
            )
        }),
{
}

/// Law: a list of candidates has one line for each, in order: its id, its class, its
/// application, whether it has the focus, and its title.
pub proof fn candidates_are_listed_in_order(windows: Seq<WindowDict>, w: WindowDict)
    ensures
        summary(Seq::<WindowDict>::empty()).len() == 0,
        ({
            let line = "  id="@ + shown(w@, "id"@) + "\twm_class="@ + quoted(
                shown(w@, "wm_class"@),
            ) + "\tapp_id="@ + quoted(shown(w@, "app_id"@)) + "\tfocused="@ + shown(
                w@,
                "focused"@,
            ) + "\ttitle="@ + quoted(shown(w@, "title"@));
            summary(windows.push(w)) == (if windows.len() == 0 {
                line
            } else {
                summary(windows) + "\n"@ + line
            })
        }),
{
    let all = summary_lines(windows.push(w));
    assert(all.drop_last() =~= summary_lines(windows));
    assert(all.last() == summary_line(w@));
    assert(summary_lines(Seq::<WindowDict>::empty()) =~= Seq::<Seq<char>>::empty());
}

/// Law: a dictionary has one line for each key, in the order of the keys: the key, a
/// tab and its value.
pub proof fn dictionaries_have_a_line_for_each_key(
    d: Map<Seq<char>, Value>,
    keys: Seq<Seq<char>>,
    i: int,
)
    requires
        lists_keys(keys, d),
    ensures
        dict_lines(d).len() == keys.len(),
        0 <= i < keys.len() ==> dict_lines(d)[i] == keys[i] + "\t"@ + rendered(d[keys[i]]),
{
    crate::dict::sorted_keys_are_unique(keys, d);
}

/// Law: dictionaries are shown one after the other, each under a heading with its
/// number, with a line end behind each line; white space at the end is dropped.
pub proof fn dictionaries_are_shown_in_order(
    label: Seq<char>,
    dicts: Seq<WindowDict>,
    d: WindowDict,
    lines: Seq<Seq<char>>,
    line: Seq<char>,
)
    ensures
        dicts_text(label, Seq::<WindowDict>::empty()) == "no "@ + label,
        dicts_text(label, dicts.push(d)) == trimmed_end(dict_blocks(label, dicts.push(d))),
        dict_blocks(label, Seq::<WindowDict>::empty()).len() == 0,
        dict_blocks(label, dicts.push(d)) == dict_blocks(label, dicts) + ("--- "@ + label + "["@
            + decimal(dicts.len() as int) + "] ---\n"@ + ended(dict_lines(d@))),
        ended(Seq::<Seq<char>>::empty()).len() == 0,
        ended(lines.push(line)) == ended(lines) + line + "\n"@,
{
    assert(dicts.push(d).drop_last() =~= dicts);
    assert(lines.push(line).drop_last() =~= lines);
    assert(ended(lines) + (line + "\n"@) =~= ended(lines) + line + "\n"@);
}

/// Law: what is searched of a window is ASCII just where each of its class, its
/// application and its title, as far as it has them, is.
pub proof fn ascii_windows_have_ascii_fields(
    w: Map<Seq<char>, Value>,
    windows: Seq<WindowDict>,
    pattern: Seq<char>,
)
    ensures
        is_ascii_window(w) <==> forall|key: Seq<char>|
            (key == "wm_class"@ || key == "app_id"@ || key == "title"@) && #[trigger] w.contains_key(
                key,
            ) ==> is_ascii_text(rendered(w[key])),
        all_ascii(windows, pattern) <==> is_ascii_text(pattern) && forall|i: int|
            0 <= i < windows.len() ==> is_ascii_window((#[trigger] windows[i])@),
{
    if forall|key: Seq<char>|
        (key == "wm_class"@ || key == "app_id"@ || key == "title"@) && #[trigger] w.contains_key(
            key,
        ) ==> is_ascii_text(rendered(w[key])) {
        assert(is_ascii_field(w, "wm_class"@));
        assert(is_ascii_field(w, "app_id"@));
        assert(is_ascii_field(w, "title"@));
    }
}

/// Law: one of several texts contains another just where the last of them does, or one
/// of those before it.
pub proof fn any_text_may_hold(values: Seq<Seq<char>>, value: Seq<char>, needle: Seq<char>)
    ensures
        !one_holds(Seq::<Seq<char>>::empty(), needle),
        one_holds(values.push(value), needle) <==> one_holds(values, needle) || occurs(
            value,
            needle,
        ),
{
    let all = values.push(value);
    if one_holds(values, needle) {
        let i = choose|i: int| 0 <= i < values.len() && occurs(#[trigger] values[i], needle);
        assert(all[i] == values[i]);
    }
    if occurs(value, needle) {
        assert(all[values.len() as int] == value);
    }
    if one_holds(all, needle) {
        let i = choose|i: int| 0 <= i < all.len() && occurs(#[trigger] all[i], needle);
        if i < values.len() {
            assert(values[i] == all[i]);
        }
    }
}

} // verus!
