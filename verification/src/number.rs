//! Integers as text, and text as integers.

use vstd::prelude::*;
use vstd::string::*;

use crate::text::chars_of;

verus! {

/// The character of one decimal digit.
pub open spec fn digit(d: int) -> char {
    (48 + d) as char
}

/// The digits of a natural number, without leading zeros.
pub open spec fn digits(n: nat) -> Seq<char>
    decreases n,
{
    if n < 10 {
        seq![digit(n as int)]
    } else {
        digits(n / 10).push(digit((n % 10) as int))
    }
}

/// An integer in decimal.
pub open spec fn decimal(n: int) -> Seq<char> {
    if n < 0 {
        seq!['-'] + digits((-n) as nat)
    } else {
        digits(n as nat)
    }
}

fn push_digits(s: &mut String, n: u64)
    ensures
        final(s)@ == old(s)@ + digits(n as nat),
    decreases n,
{
    let ghost start = s@;
    if n >= 10 {
        push_digits(s, n / 10);
    }
    let d: u8 = (n % 10) as u8;
    s.push((48u8 + d) as char);
    assert(s@ =~= start + digits(n as nat));
}

/// An unsigned integer as text.
pub fn show_u64(n: u64) -> (r: String)
    ensures
        r@ == decimal(n as int),
{
    let mut r: String = String::new();
    push_digits(&mut r, n);
    assert(r@ =~= digits(n as nat));
    r
}

/// A signed integer as text.
pub fn show_i64(n: i64) -> (r: String)
    ensures
        r@ == decimal(n as int),
{
    if n >= 0 {
        return show_u64(n as u64);
    }
    let mut r: String = String::new();
    r.push('-');
    let size: u64 = (-(n + 1)) as u64 + 1;
    push_digits(&mut r, size);
    assert(r@ =~= seq!['-'] + digits((-n) as nat));
    r
}

/// Whether a character is a decimal digit.
pub open spec fn is_digit(c: char) -> bool {
    '0' <= c && c <= '9'
}

/// The number that a sequence of digits stands for.
pub open spec fn value(s: Seq<char>) -> nat
    decreases s.len(),
{
    if s.len() == 0 {
        0
    } else {
        value(s.drop_last()) * 10 + (s.last() as int - 48) as nat
    }
}

/// What is left of a number after an optional plus sign.
pub open spec fn after_sign(s: Seq<char>) -> Seq<char> {
    if s.len() > 0 && s[0] == '+' {
        s.skip(1)
    } else {
        s
    }
}

/// The unsigned number that a text is: an optional plus sign and at least one
/// digit, nothing else, and a value that fits.
pub open spec fn parsed_u64(s: Seq<char>) -> Option<u64> {
    let body = after_sign(s);
    if body.len() > 0 && (forall|i: int| 0 <= i < body.len() ==> is_digit(#[trigger] body[i]))
        && value(body) <= u64::MAX {
        Some(value(body) as u64)
    } else {
        None
    }
}

proof fn value_of_prefix(s: Seq<char>, k: int)
    requires
        0 <= k <= s.len(),
    ensures
        value(s.take(k)) <= value(s),
    decreases s.len() - k,
{
    if k < s.len() {
        value_of_prefix(s, k + 1);
        assert(s.take(k + 1).drop_last() =~= s.take(k));
    } else {
        assert(s.take(k) =~= s);
    }
}

/// Reads an unsigned integer.
pub fn parse_u64(s: &str) -> (r: Option<u64>)
    ensures
        r == parsed_u64(s@),
{
    let chars: Vec<char> = chars_of(s);
    let first: usize = if chars.len() > 0 && chars[0] == '+' { 1 } else { 0 };
    let ghost body = after_sign(s@);
    assert(s@.skip(0) =~= s@);
    assert(body == s@.skip(first as int));
    if first == chars.len() {
        return None;
    }
    let mut n: u64 = 0;
    for i in first..chars.len()
        invariant
            chars@ == s@,
            first < chars.len(),
            body == s@.skip(first as int),
            body == after_sign(s@),
            n == value(body.take(i - first)),
            forall|k: int| 0 <= k < i - first ==> is_digit(#[trigger] body[k]),
    {
        let c: char = chars[i];
        assert(c == body[i - first]);
        if c < '0' || '9' < c {
            return None;
        }
        let d: u64 = (c as u32 - 48) as u64;
        assert(body.take(i + 1 - first).drop_last() =~= body.take(i - first));
        assert(value(body.take(i + 1 - first)) == n * 10 + d);
        if n > (u64::MAX - d) / 10 {
            proof {
                value_of_prefix(body, i + 1 - first);
            }
            return None;
        }
        n = n * 10 + d;
    }
    assert(body.take(chars.len() - first) =~= body);
    Some(n)
}

proof fn digits_are_digits(n: nat)
    ensures
        digits(n).len() > 0,
        forall|i: int| 0 <= i < digits(n).len() ==> is_digit(#[trigger] digits(n)[i]),
        value(digits(n)) == n,
    decreases n,
{
    if n < 10 {
        assert(digits(n).drop_last() =~= Seq::<char>::empty());
        assert(value(Seq::<char>::empty()) == 0);
    } else {
        digits_are_digits(n / 10);
        assert(digits(n).drop_last() =~= digits(n / 10));
    }
}

/// Law: reading a printed number gives the number back.
pub proof fn parse_undoes_show(n: u64)
    ensures
        parsed_u64(decimal(n as int)) == Some(n),
{
    digits_are_digits(n as nat);
    assert(is_digit(digits(n as nat)[0]));
}

/// Law: a number is printed in base ten: its last digit is what is left of it after
/// a division by ten, what stands before that is the quotient, and a number below
/// zero has a minus sign before it.
pub proof fn numbers_are_printed_in_base_ten(n: nat)
    ensures
        decimal(n as int).len() > 0,
        decimal(n as int).last() as int == '0' as int + n % 10,
        n < 10 ==> decimal(n as int).len() == 1,
        n >= 10 ==> decimal(n as int).drop_last() == decimal((n / 10) as int),
        n > 0 ==> decimal(-n) == seq!['-'] + decimal(n as int),
{
    if n >= 10 {
        assert(decimal(n as int).drop_last() =~= digits(n / 10));
    }
}

/// Law: different integers are printed differently.
pub proof fn different_numbers_are_printed_differently(a: int, b: int)
    requires
        decimal(a) == decimal(b),
    ensures
        a == b,
{
    let (m, n) = (if a < 0 { -a } else { a }, if b < 0 { -b } else { b });
    digits_are_digits(m as nat);
    digits_are_digits(n as nat);
    assert(is_digit(digits(m as nat)[0]));
    assert(is_digit(digits(n as nat)[0]));
    assert(decimal(a)[0] == '-' <==> a < 0);
    assert(decimal(b)[0] == '-' <==> b < 0);
    if a < 0 {
        assert(decimal(a).skip(1) =~= digits(m as nat));
        assert(decimal(b).skip(1) =~= digits(n as nat));
    }
}

/// Law: a number is read digit by digit: one more digit makes it ten times as
/// large, and adds the digit, as long as it fits in 64 bits.  Anything but a digit
/// spoils it, and what does not fit is not read; one plus sign before it changes
/// nothing.
pub proof fn numbers_are_read_in_base_ten(s: Seq<char>, c: char)
    ensures
        parsed_u64(Seq::<char>::empty()) is None,
        parsed_u64(seq!['+']) is None,
        parsed_u64(seq![c]) == (if '0' <= c && c <= '9' {
            Some((c as int - '0' as int) as u64)
        } else {
            None
        }),
        s.len() > 0 && s != seq!['+'] ==> parsed_u64(s.push(c)) == (match parsed_u64(s) {
            Some(n) => if '0' <= c && c <= '9' && 10 * n + (c as int - '0' as int)
                <= 0xffff_ffff_ffff_ffff {
                Some((10 * n + (c as int - '0' as int)) as u64)
            } else {
                None
            },
            None => None,
        }),
        s.len() > 0 && s[0] != '+' ==> parsed_u64(seq!['+'] + s) == parsed_u64(s),
{
    assert(seq!['+'].skip(1) =~= Seq::<char>::empty());
    let one = seq![c];
    assert(one.drop_last() =~= Seq::<char>::empty());
    assert(value(one.drop_last()) == 0);
    if c == '+' {
        assert(one.skip(1) =~= Seq::<char>::empty());
    } else {
        assert(after_sign(one) == one);
        assert(one[0] == c);
        if is_digit(c) {
            assert forall|i: int| 0 <= i < one.len() implies is_digit(#[trigger] one[i]) by {}
        }
    }
    if s.len() > 0 && s != seq!['+'] {
        let t = s.push(c);
        let body = after_sign(s);
        let more = after_sign(t);
        assert(more =~= body.push(c));
        assert(more.drop_last() =~= body);
        if body.len() == 0 {
            assert(s =~= seq!['+']);
        }
        assert(more[more.len() - 1] == c);
        assert forall|i: int| 0 <= i < body.len() implies body[i] == more[i] by {}
        if forall|i: int| 0 <= i < more.len() ==> is_digit(#[trigger] more[i]) {
            assert forall|i: int| 0 <= i < body.len() implies is_digit(#[trigger] body[i]) by {
                assert(is_digit(more[i]));
            }
            assert(is_digit(c));
        }
    }
    if s.len() > 0 && s[0] != '+' {
        assert((seq!['+'] + s).skip(1) =~= s);
    }
}

} // verus!
