//! Keys and buttons: names and characters to the codes that the portal takes.

use vstd::prelude::*;
use vstd::string::*;

use crate::text::{ascii_lower, chars_of, quote, quoted, same, text_of};

verus! {

// ---------------------------------------------------------------------------
// Pointer buttons
// ---------------------------------------------------------------------------

/// The Linux evdev code of a pointer button, by name or by number.
pub open spec fn button(name: Seq<char>) -> Option<i32> {
    if name == "left"@ || name == "1"@ {
        Some(0x110)
    } else if name == "right"@ || name == "2"@ {
        Some(0x111)
    } else if name == "middle"@ || name == "3"@ {
        Some(0x112)
    } else if name == "back"@ || name == "8"@ {
        Some(0x116)
    } else if name == "forward"@ || name == "9"@ {
        Some(0x117)
    } else {
        None
    }
}

/// What a client is told of a button that does not exist.
pub open spec fn unknown_button(name: Seq<char>) -> Seq<char> {
    "unknown button "@ + quoted(name) + " (use left/right/middle/back/forward)"@
}

/// The outcome of naming a button: its code, or what is wrong.
pub open spec fn button_outcome(name: Seq<char>) -> Result<i32, Seq<char>> {
    match button(name) {
        Some(code) => Ok(code),
        None => Err(unknown_button(name)),
    }
}

/// Finds the code of a pointer button.
pub fn button_code(name: &str) -> (r: Result<i32, String>)
    ensures
        match r {
            Ok(code) => button_outcome(name@) == Ok::<i32, Seq<char>>(code),
            Err(e) => button_outcome(name@) == Err::<i32, Seq<char>>(e@),
        },
{
    if same(name, "left") || same(name, "1") {
        Ok(0x110)
    } else if same(name, "right") || same(name, "2") {
        Ok(0x111)
    } else if same(name, "middle") || same(name, "3") {
        Ok(0x112)
    } else if same(name, "back") || same(name, "8") {
        Ok(0x116)
    } else if same(name, "forward") || same(name, "9") {
        Ok(0x117)
    } else {
        let mut e: String = "unknown button ".to_owned();
        e.append(quote(name).as_str());
        e.append(" (use left/right/middle/back/forward)");
        Err(e)
    }
}

// ---------------------------------------------------------------------------
// Keysyms by name
// ---------------------------------------------------------------------------

/// An ASCII letter in upper case; any other character as it is.
pub open spec fn ascii_upper(c: char) -> char {
    if 'a' <= c && c <= 'z' {
        (c as int - 32) as char
    } else {
        c
    }
}

/// A key name as the table of names spells it: the first character in upper
/// case, the others in lower case.
pub open spec fn canonical(name: Seq<char>) -> Seq<char> {
    Seq::new(
        name.len(),
        |i: int|
            if i == 0 {
                ascii_upper(name[i])
            } else {
                ascii_lower(name[i])
            },
    )
}

/// The X11 keysym of a key that has a name.  The short names of the modifiers
/// are those of the left side.
pub open spec fn named_key(name: Seq<char>) -> Option<i32> {
    if name == "Space"@ || name == "space"@ {
        Some(0x0020)
    } else if name == "Return"@ || name == "Enter"@ {
        Some(0xff0d)
    } else if name == "Tab"@ {
        Some(0xff09)
    } else if name == "Backspace"@ {
        Some(0xff08)
    } else if name == "Escape"@ || name == "Esc"@ {
        Some(0xff1b)
    } else if name == "Delete"@ {
        Some(0xffff)
    } else if name == "Insert"@ {
        Some(0xff63)
    } else if name == "Up"@ {
        Some(0xff52)
    } else if name == "Down"@ {
        Some(0xff54)
    } else if name == "Left"@ {
        Some(0xff51)
    } else if name == "Right"@ {
        Some(0xff53)
    } else if name == "Home"@ {
        Some(0xff50)
    } else if name == "End"@ {
        Some(0xff57)
    } else if name == "Pageup"@ || name == "Page_up"@ {
        Some(0xff55)
    } else if name == "Pagedown"@ || name == "Page_down"@ {
        Some(0xff56)
    } else if name == "F1"@ {
        Some(0xffbe)
    } else if name == "F2"@ {
        Some(0xffbf)
    } else if name == "F3"@ {
        Some(0xffc0)
    } else if name == "F4"@ {
        Some(0xffc1)
    } else if name == "F5"@ {
        Some(0xffc2)
    } else if name == "F6"@ {
        Some(0xffc3)
    } else if name == "F7"@ {
        Some(0xffc4)
    } else if name == "F8"@ {
        Some(0xffc5)
    } else if name == "F9"@ {
        Some(0xffc6)
    } else if name == "F10"@ {
        Some(0xffc7)
    } else if name == "F11"@ {
        Some(0xffc8)
    } else if name == "F12"@ {
        Some(0xffc9)
    } else if name == "Ctrl"@ || name == "Control"@ || name == "Control_l"@ {
        Some(0xffe3)
    } else if name == "Control_r"@ {
        Some(0xffe4)
    } else if name == "Shift"@ || name == "Shift_l"@ {
        Some(0xffe1)
    } else if name == "Shift_r"@ {
        Some(0xffe2)
    } else if name == "Alt"@ || name == "Alt_l"@ {
        Some(0xffe9)
    } else if name == "Alt_r"@ {
        Some(0xffea)
    } else if name == "Meta"@ || name == "Meta_l"@ {
        Some(0xffe7)
    } else if name == "Meta_r"@ {
        Some(0xffe8)
    } else if name == "Super"@ || name == "Super_l"@ {
        Some(0xffeb)
    } else if name == "Super_r"@ {
        Some(0xffec)
    } else {
        None
    }
}

/// The keysym that a key name stands for: a name of the table, in any case, or
/// else a single character, which stands for itself.
pub open spec fn keysym(name: Seq<char>) -> Option<i32> {
    match named_key(canonical(name)) {
        Some(sym) => Some(sym),
        None => if name.len() == 1 {
            Some(name[0] as i32)
        } else {
            None
        },
    }
}

fn to_ascii_upper(c: char) -> (r: char)
    ensures
        r == ascii_upper(c),
{
    if 'a' <= c && c <= 'z' {
        (c as u8 - 32) as char
    } else {
        c
    }
}

fn to_ascii_lower(c: char) -> (r: char)
    ensures
        r == ascii_lower(c),
{
    if 'A' <= c && c <= 'Z' {
        (c as u8 + 32) as char
    } else {
        c
    }
}

fn find_named_key(name: &str) -> (r: Option<i32>)
    ensures
        r == named_key(name@),
{
    if same(name, "Space") || same(name, "space") {
        Some(0x0020)
    } else if same(name, "Return") || same(name, "Enter") {
        Some(0xff0d)
    } else if same(name, "Tab") {
        Some(0xff09)
    } else if same(name, "Backspace") {
        Some(0xff08)
    } else if same(name, "Escape") || same(name, "Esc") {
        Some(0xff1b)
    } else if same(name, "Delete") {
        Some(0xffff)
    } else if same(name, "Insert") {
        Some(0xff63)
    } else if same(name, "Up") {
        Some(0xff52)
    } else if same(name, "Down") {
        Some(0xff54)
    } else if same(name, "Left") {
        Some(0xff51)
    } else if same(name, "Right") {
        Some(0xff53)
    } else if same(name, "Home") {
        Some(0xff50)
    } else if same(name, "End") {
        Some(0xff57)
    } else if same(name, "Pageup") || same(name, "Page_up") {
        Some(0xff55)
    } else if same(name, "Pagedown") || same(name, "Page_down") {
        Some(0xff56)
    } else if same(name, "F1") {
        Some(0xffbe)
    } else if same(name, "F2") {
        Some(0xffbf)
    } else if same(name, "F3") {
        Some(0xffc0)
    } else if same(name, "F4") {
        Some(0xffc1)
    } else if same(name, "F5") {
        Some(0xffc2)
    } else if same(name, "F6") {
        Some(0xffc3)
    } else if same(name, "F7") {
        Some(0xffc4)
    } else if same(name, "F8") {
        Some(0xffc5)
    } else if same(name, "F9") {
        Some(0xffc6)
    } else if same(name, "F10") {
        Some(0xffc7)
    } else if same(name, "F11") {
        Some(0xffc8)
    } else if same(name, "F12") {
        Some(0xffc9)
    } else if same(name, "Ctrl") || same(name, "Control") || same(name, "Control_l") {
        Some(0xffe3)
    } else if same(name, "Control_r") {
        Some(0xffe4)
    } else if same(name, "Shift") || same(name, "Shift_l") {
        Some(0xffe1)
    } else if same(name, "Shift_r") {
        Some(0xffe2)
    } else if same(name, "Alt") || same(name, "Alt_l") {
        Some(0xffe9)
    } else if same(name, "Alt_r") {
        Some(0xffea)
    } else if same(name, "Meta") || same(name, "Meta_l") {
        Some(0xffe7)
    } else if same(name, "Meta_r") {
        Some(0xffe8)
    } else if same(name, "Super") || same(name, "Super_l") {
        Some(0xffeb)
    } else if same(name, "Super_r") {
        Some(0xffec)
    } else {
        None
    }
}

/// Finds the keysym of a key by its name.
pub fn keysym_from_name(name: &str) -> (r: Option<i32>)
    ensures
        r == keysym(name@),
{
    let chars: Vec<char> = chars_of(name);
    let mut canon: Vec<char> = Vec::new();
    for i in 0..chars.len()
        invariant
            chars@ == name@,
            canon@ == canonical(name@).take(i as int),
    {
        let c: char = if i == 0 {
            to_ascii_upper(chars[i])
        } else {
            to_ascii_lower(chars[i])
        };
        canon.push(c);
        assert(canon@ =~= canonical(name@).take(i + 1));
    }
    assert(canon@ =~= canonical(name@));
    let spelled: String = text_of(&canon);
    match find_named_key(spelled.as_str()) {
        Some(sym) => Some(sym),
        None => {
            if chars.len() == 1 {
                Some(chars[0] as i32)
            } else {
                None
            }
        },
    }
}

/// Law: a key that is named by more than one character is named in any case.
pub proof fn key_names_ignore_case(a: Seq<char>, b: Seq<char>)
    requires
        a.len() == b.len(),
        a.len() != 1,
        forall|i: int| 0 <= i < a.len() ==> ascii_lower(#[trigger] a[i]) == ascii_lower(b[i]),
    ensures
        keysym(a) == keysym(b),
{
    assert forall|i: int| 0 <= i < a.len() implies canonical(a)[i] == canonical(b)[i] by {
        assert(ascii_lower(a[i]) == ascii_lower(b[i]));
    }
    assert(canonical(a) =~= canonical(b));
}

// ---------------------------------------------------------------------------
// Keysyms by character
// ---------------------------------------------------------------------------

/// The keysym that types a character: the keys of the three control characters
/// that have one, the Latin-1 characters as they are, and the others in the
/// Unicode range of keysyms.
pub open spec fn char_keysym(c: char) -> i32 {
    if c == '\n' {
        0xff0d
    } else if c == '\t' {
        0xff09
    } else if c == '\u{8}' {
        0xff08
    } else if (c as int) < 0x100 {
        c as i32
    } else {
        (c as int + 0x0100_0000) as i32
    }
}

/// Finds the keysym that types a character.  Every character has one.
pub fn keysym_for_char(ch: char) -> (r: Option<i32>)
    ensures
        r == Some(char_keysym(ch)),
{
    if ch == '\n' {
        Some(0xff0d)
    } else if ch == '\t' {
        Some(0xff09)
    } else if ch == '\u{8}' {
        Some(0xff08)
    } else if (ch as u32) < 0x100 {
        Some(ch as i32)
    } else if (ch as u32) <= 0x10ffff {
        let code: i32 = ch as i32;
        assert(code | 0x0100_0000 == code + 0x0100_0000) by (bit_vector)
            requires
                0 <= code <= 0x10ffff,
        ;
        Some(code | 0x0100_0000)
    } else {
        None
    }
}

/// Law: different characters are typed by different keysyms.
pub proof fn char_keysyms_differ(a: char, b: char)
    requires
        char_keysym(a) == char_keysym(b),
    ensures
        a == b,
{
}

/// Law: a character that has no key of its own is typed by the keysym with its
/// code, up to the end of Latin-1, and beyond by the one that lies 0x1000000 above
/// its code.  A line feed is typed by Return, a tab by Tab and a backspace by
/// BackSpace.
pub proof fn characters_are_typed_by_their_codes(c: char)
    ensures
        c == '\n' ==> char_keysym(c) == 0xff0d,
        c == '\t' ==> char_keysym(c) == 0xff09,
        c == '\u{8}' ==> char_keysym(c) == 0xff08,
        c != '\n' && c != '\t' && c != '\u{8}' && c as int <= 0xff ==> char_keysym(c) == c as int,
        c as int > 0xff ==> char_keysym(c) == 0x100_0000 + c as int,
{
}

/// Law: a button goes by its name or by its number, and by nothing else; the
/// codes of the buttons are those of Linux.
pub proof fn buttons_have_codes(name: Seq<char>)
    ensures
        button(name) == Some(0x110i32) <==> name == "left"@ || name == "1"@,
        button(name) == Some(0x111i32) <==> name == "right"@ || name == "2"@,
        button(name) == Some(0x112i32) <==> name == "middle"@ || name == "3"@,
        button(name) == Some(0x116i32) <==> name == "back"@ || name == "8"@,
        button(name) == Some(0x117i32) <==> name == "forward"@ || name == "9"@,
        button(name) matches Some(c) ==> c == 0x110 || c == 0x111 || c == 0x112 || c == 0x116 || c
            == 0x117,
        button_outcome(name) is Err <==> button(name) is None,
        button_outcome(name) matches Ok(c) ==> button(name) == Some(c),
{
    reveal_strlit("left");
    reveal_strlit("right");
    reveal_strlit("middle");
    reveal_strlit("back");
    reveal_strlit("forward");
    reveal_strlit("1");
    reveal_strlit("2");
    reveal_strlit("3");
    reveal_strlit("8");
    reveal_strlit("9");
    assert("1"@[0] != "2"@[0] && "1"@[0] != "3"@[0] && "2"@[0] != "3"@[0]);
    assert("8"@[0] != "9"@[0] && "8"@[0] != "1"@[0] && "8"@[0] != "2"@[0] && "8"@[0] != "3"@[0]);
    assert("9"@[0] != "1"@[0] && "9"@[0] != "2"@[0] && "9"@[0] != "3"@[0]);
    assert("left"@[0] != "back"@[0]);
    assert("left"@.len() == 4 && "right"@.len() == 5 && "middle"@.len() == 6 && "back"@.len() == 4
        && "forward"@.len() == 7);
    assert("1"@.len() == 1 && "2"@.len() == 1 && "3"@.len() == 1 && "8"@.len() == 1 && "9"@.len()
        == 1);
}

/// Law: a name of one character stands for the keysym with the code of that
/// character, and no name stands for a keysym unless it is one character or a name
/// of a function key, a modifier or the space bar.
pub proof fn characters_name_themselves(name: Seq<char>)
    ensures
        name.len() == 1 ==> keysym(name) == Some(name[0] as i32),
        name.len() == 0 ==> keysym(name) is None,
        name.len() > 1 ==> (keysym(name) matches Some(k) ==> k == 0x20 || 0xff00 <= k <= 0xffff),
{
    if name.len() <= 1 {
        reveal_strlit("Space");
        reveal_strlit("space");
        reveal_strlit("Return");
        reveal_strlit("Enter");
        reveal_strlit("Tab");
        reveal_strlit("Backspace");
        reveal_strlit("Escape");
        reveal_strlit("Esc");
        reveal_strlit("Delete");
        reveal_strlit("Insert");
        reveal_strlit("Up");
        reveal_strlit("Down");
        reveal_strlit("Left");
        reveal_strlit("Right");
        reveal_strlit("Home");
        reveal_strlit("End");
        reveal_strlit("Pageup");
        reveal_strlit("Page_up");
        reveal_strlit("Pagedown");
        reveal_strlit("Page_down");
        reveal_strlit("F1");
        reveal_strlit("F2");
        reveal_strlit("F3");
        reveal_strlit("F4");
        reveal_strlit("F5");
        reveal_strlit("F6");
        reveal_strlit("F7");
        reveal_strlit("F8");
        reveal_strlit("F9");
        reveal_strlit("F10");
        reveal_strlit("F11");
        reveal_strlit("F12");
        reveal_strlit("Ctrl");
        reveal_strlit("Control");
        reveal_strlit("Control_l");
        reveal_strlit("Control_r");
        reveal_strlit("Shift");
        reveal_strlit("Shift_l");
        reveal_strlit("Shift_r");
        reveal_strlit("Alt");
        reveal_strlit("Alt_l");
        reveal_strlit("Alt_r");
        reveal_strlit("Meta");
        reveal_strlit("Meta_l");
        reveal_strlit("Meta_r");
        reveal_strlit("Super");
        reveal_strlit("Super_l");
        reveal_strlit("Super_r");
        assert(canonical(name).len() == name.len());
    }
}

/// Law: the function keys have keysyms one after the other, from the first to the
/// twelfth.
pub proof fn function_keys_are_numbered(n: int)
    requires
        1 <= n <= 12,
    ensures
        keysym(seq!['F'] + crate::number::decimal(n)) == Some((0xffbd + n) as i32),
        keysym(seq!['f'] + crate::number::decimal(n)) == Some((0xffbd + n) as i32),
{
    let d = crate::number::decimal(n);
    let upper = canonical(seq!['F'] + d);
    let lower = canonical(seq!['f'] + d);
    assert(upper =~= lower) by {
        assert(ascii_upper('f') == 'F');
    }
    crate::number::numbers_are_printed_in_base_ten(n as nat);
    if n >= 10 {
        crate::number::numbers_are_printed_in_base_ten((n / 10) as nat);
        assert(d =~= seq!['1', ((48 + n - 10) as char)]);
    } else {
        assert(d =~= seq![((48 + n) as char)]);
    }
    reveal_strlit("Space");
    reveal_strlit("space");
    reveal_strlit("Return");
    reveal_strlit("Enter");
    reveal_strlit("Tab");
    reveal_strlit("Backspace");
    reveal_strlit("Escape");
    reveal_strlit("Esc");
    reveal_strlit("Delete");
    reveal_strlit("Insert");
    reveal_strlit("Up");
    reveal_strlit("Down");
    reveal_strlit("Left");
    reveal_strlit("Right");
    reveal_strlit("Home");
    reveal_strlit("End");
    reveal_strlit("Pageup");
    reveal_strlit("Page_up");
    reveal_strlit("Pagedown");
    reveal_strlit("Page_down");
    reveal_strlit("F1");
    reveal_strlit("F2");
    reveal_strlit("F3");
    reveal_strlit("F4");
    reveal_strlit("F5");
    reveal_strlit("F6");
    reveal_strlit("F7");
    reveal_strlit("F8");
    reveal_strlit("F9");
    reveal_strlit("F10");
    reveal_strlit("F11");
    reveal_strlit("F12");
    reveal_strlit("Ctrl");
    reveal_strlit("Control");
    reveal_strlit("Control_l");
    reveal_strlit("Control_r");
    reveal_strlit("Shift");
    reveal_strlit("Shift_l");
    reveal_strlit("Shift_r");
    reveal_strlit("Alt");
    reveal_strlit("Alt_l");
    reveal_strlit("Alt_r");
    reveal_strlit("Meta");
    reveal_strlit("Meta_l");
    reveal_strlit("Meta_r");
    reveal_strlit("Super");
    reveal_strlit("Super_l");
    reveal_strlit("Super_r");
    if n == 1 {
        assert(upper =~= seq!['F', '1']);
        assert(upper =~= "F1"@);
    }
    if n == 2 {
        assert(upper =~= seq!['F', '2']);
        assert(upper =~= "F2"@);
    }
    if n == 3 {
        assert(upper =~= seq!['F', '3']);
        assert(upper =~= "F3"@);
    }
    if n == 4 {
        assert(upper =~= seq!['F', '4']);
        assert(upper =~= "F4"@);
    }
    if n == 5 {
        assert(upper =~= seq!['F', '5']);
        assert(upper =~= "F5"@);
    }
    if n == 6 {
        assert(upper =~= seq!['F', '6']);
        assert(upper =~= "F6"@);
    }
    if n == 7 {
        assert(upper =~= seq!['F', '7']);
        assert(upper =~= "F7"@);
    }
    if n == 8 {
        assert(upper =~= seq!['F', '8']);
        assert(upper =~= "F8"@);
    }
    if n == 9 {
        assert(upper =~= seq!['F', '9']);
        assert(upper =~= "F9"@);
    }
    if n == 10 {
        assert(upper =~= seq!['F', '1', '0']);
        assert(upper =~= "F10"@);
    }
    if n == 11 {
        assert(upper =~= seq!['F', '1', '1']);
        assert(upper =~= "F11"@);
    }
    if n == 12 {
        assert(upper =~= seq!['F', '1', '2']);
        assert(upper =~= "F12"@);
    }
}

/// Law: a name is read with its first character in upper case and the others in
/// lower case; that is as far as ASCII letters go, and other characters stay as
/// they are.
pub proof fn names_are_spelled_as_in_the_table(name: Seq<char>, i: int)
    requires
        0 <= i < name.len(),
    ensures
        canonical(name).len() == name.len(),
        i == 0 && 97 <= name[i] as int <= 122 ==> canonical(name)[i] as int == name[i] as int - 32,
        i > 0 && 65 <= name[i] as int <= 90 ==> canonical(name)[i] as int == name[i] as int + 32,
        i == 0 && !(97 <= name[i] as int <= 122) ==> canonical(name)[i] == name[i],
        i > 0 && !(65 <= name[i] as int <= 90) ==> canonical(name)[i] == name[i],
{
}

/// Law: a name of more than one character stands for a key just where it is one of
/// these, in any case.
pub proof fn only_these_names_are_keys(name: Seq<char>)
    requires
        name.len() > 1,
    ensures
        ({
            let n = canonical(name);
            keysym(name) is Some <==> n == "Space"@
            || n == "space"@
            || n == "Return"@
            || n == "Enter"@
            || n == "Tab"@
            || n == "Backspace"@
            || n == "Escape"@
            || n == "Esc"@
            || n == "Delete"@
            || n == "Insert"@
            || n == "Up"@
            || n == "Down"@
            || n == "Left"@
            || n == "Right"@
            || n == "Home"@
            || n == "End"@
            || n == "Pageup"@
            || n == "Page_up"@
            || n == "Pagedown"@
            || n == "Page_down"@
            || n == "F1"@
            || n == "F2"@
            || n == "F3"@
            || n == "F4"@
            || n == "F5"@
            || n == "F6"@
            || n == "F7"@
            || n == "F8"@
            || n == "F9"@
            || n == "F10"@
            || n == "F11"@
            || n == "F12"@
            || n == "Ctrl"@
            || n == "Control"@
            || n == "Control_l"@
            || n == "Control_r"@
            || n == "Shift"@
            || n == "Shift_l"@
            || n == "Shift_r"@
            || n == "Alt"@
            || n == "Alt_l"@
            || n == "Alt_r"@
            || n == "Meta"@
            || n == "Meta_l"@
            || n == "Meta_r"@
            || n == "Super"@
            || n == "Super_l"@
            || n == "Super_r"@
        }),
{
}

} // verus!
