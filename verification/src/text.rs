//! Comparing and building text.

use vstd::prelude::*;
use vstd::utf8::encode_utf8_decode_utf8;

verus! {

/// Whether `a` and `b` hold the same bytes.
pub fn bytes_eq(a: &[u8], b: &[u8]) -> (same: bool)
    ensures
        same == (a@ == b@),
{
    if a.len() != b.len() {
        return false;
    }
    let mut i: usize = 0;
    while i < a.len()
        invariant
            a.len() == b.len(),
            i <= a.len(),
            forall|k: int| 0 <= k < i ==> a@[k] == b@[k],
        decreases a.len() - i,
    {
        if a[i] != b[i] {
            return false;
        }
        i += 1;
    }
    assert(a@ =~= b@);
    true
}

/// Whether `a` and `b` hold the same characters.
pub fn str_eq(a: &str, b: &str) -> (same: bool)
    ensures
        same == (a@ == b@),
{
    let same = bytes_eq(a.as_bytes(), b.as_bytes());
    proof {
        // Two texts with the same encoding decode to the same characters.
        encode_utf8_decode_utf8(a@);
        encode_utf8_decode_utf8(b@);
    }
    same
}

/// The first place at or after `from` and before `end` where `text` holds
/// `wanted`; `end` where it holds none there.
pub open spec fn find_in(text: Seq<char>, wanted: char, from: int, end: int) -> int
    decreases end - from,
{
    if from >= end {
        end
    } else if text[from] == wanted {
        from
    } else {
        find_in(text, wanted, from + 1, end)
    }
}

/// `find_in` returns a place between `from` and `end`, no character before
/// it is the wanted one, and the one at it is, unless it is `end`.
pub proof fn lemma_find_in(text: Seq<char>, wanted: char, from: int, end: int)
    requires
        from <= end,
    ensures
        from <= find_in(text, wanted, from, end) <= end,
        forall|k: int| from <= k < find_in(text, wanted, from, end) ==> text[k] != wanted,
        find_in(text, wanted, from, end) < end ==> text[find_in(text, wanted, from, end)]
            == wanted,
    decreases end - from,
{
    if from < end && text[from] != wanted {
        lemma_find_in(text, wanted, from + 1, end);
    }
}

/// The place of the first `wanted` in `text` between `from` and `end`.
pub fn find_char(text: &str, wanted: char, from: usize, end: usize) -> (at: usize)
    requires
        from <= end <= text@.len(),
    ensures
        at == find_in(text@, wanted, from as int, end as int),
        from <= at <= end,
{
    let mut at: usize = from;
    while at < end
        invariant
            from <= at <= end <= text@.len(),
            find_in(text@, wanted, from as int, end as int) == find_in(
                text@,
                wanted,
                at as int,
                end as int,
            ),
        decreases end - at,
    {
        if text.get_char(at) == wanted {
            return at;
        }
        at += 1;
    }
    at
}

/// The one-character text of a decimal digit.
pub open spec fn digit(d: nat) -> char {
    if d == 0 {
        '0'
    } else if d == 1 {
        '1'
    } else if d == 2 {
        '2'
    } else if d == 3 {
        '3'
    } else if d == 4 {
        '4'
    } else if d == 5 {
        '5'
    } else if d == 6 {
        '6'
    } else if d == 7 {
        '7'
    } else if d == 8 {
        '8'
    } else {
        '9'
    }
}

/// A natural number in decimal, without leading zeros.
pub open spec fn decimal(n: nat) -> Seq<char>
    decreases n,
{
    if n < 10 {
        seq![digit(n)]
    } else {
        decimal(n / 10).push(digit(n % 10))
    }
}

/// An integer in decimal: a minus sign in front of a negative one.
pub open spec fn signed_decimal(i: int) -> Seq<char> {
    if i < 0 {
        seq!['-'] + decimal((-i) as nat)
    } else {
        decimal(i as nat)
    }
}

fn digit_str(d: u64) -> (text: &'static str)
    requires
        d < 10,
    ensures
        text@ == seq![digit(d as nat)],
{
    proof {
        reveal_strlit("0");
        reveal_strlit("1");
        reveal_strlit("2");
        reveal_strlit("3");
        reveal_strlit("4");
        reveal_strlit("5");
        reveal_strlit("6");
        reveal_strlit("7");
        reveal_strlit("8");
        reveal_strlit("9");
    }
    let text = if d == 0 {
        "0"
    } else if d == 1 {
        "1"
    } else if d == 2 {
        "2"
    } else if d == 3 {
        "3"
    } else if d == 4 {
        "4"
    } else if d == 5 {
        "5"
    } else if d == 6 {
        "6"
    } else if d == 7 {
        "7"
    } else if d == 8 {
        "8"
    } else {
        "9"
    };
    assert(text@ =~= seq![digit(d as nat)]);
    text
}

/// Appends `n` in decimal to `out`.
pub fn push_decimal(out: &mut String, n: u64)
    ensures
        final(out)@ == old(out)@ + decimal(n as nat),
    decreases n,
{
    if n >= 10 {
        push_decimal(out, n / 10);
    }
    out.append(digit_str(n % 10));
    assert(out@ =~= old(out)@ + decimal(n as nat));
}

/// Appends `i` in decimal to `out`, with a minus sign if it is negative.
pub fn push_signed_decimal(out: &mut String, i: i64)
    ensures
        final(out)@ == old(out)@ + signed_decimal(i as int),
{
    if i < 0 {
        proof {
            reveal_strlit("-");
        }
        out.append("-");
        // -(i + 1) fits where -i may not.
        let magnitude: u64 = (-(i + 1)) as u64 + 1;
        push_decimal(out, magnitude);
        assert(out@ =~= old(out)@ + signed_decimal(i as int));
    } else {
        push_decimal(out, i as u64);
    }
}

/// `count` copies of `fill`.
pub open spec fn repeated(fill: char, count: int) -> Seq<char> {
    Seq::new(
        if count < 0 {
            0
        } else {
            count as nat
        },
        |i: int| fill,
    )
}

/// `text` with `fill` in front of it up to `width` characters; `text` as it
/// is where it has that many.
pub open spec fn filled_left(text: Seq<char>, width: int, fill: char) -> Seq<char> {
    repeated(fill, width - text.len()) + text
}

/// `text` with spaces behind it up to `width` characters; `text` as it is
/// where it has that many.
pub open spec fn filled_right(text: Seq<char>, width: int) -> Seq<char> {
    text + repeated(' ', width - text.len())
}

/// The first `max` characters of `text`; all of it where it has no more.
pub open spec fn cut(text: Seq<char>, max: int) -> Seq<char> {
    if text.len() <= max {
        text
    } else {
        text.take(max)
    }
}

/// Appends `count` copies of the one-character text `fill` to `out`.
fn push_repeated(out: &mut String, fill: &str, count: usize)
    requires
        fill@.len() == 1,
    ensures
        final(out)@ == old(out)@ + repeated(fill@[0], count as int),
{
    let mut i: usize = 0;
    assert(out@ =~= old(out)@ + repeated(fill@[0], 0));
    while i < count
        invariant
            i <= count,
            fill@.len() == 1,
            out@ == old(out)@ + repeated(fill@[0], i as int),
        decreases count - i,
    {
        out.append(fill);
        i += 1;
        assert(out@ =~= old(out)@ + repeated(fill@[0], i as int));
    }
}

/// Appends `text` to `out`, with spaces in front of it up to `width`
/// characters.
pub fn push_right_aligned(out: &mut String, text: &str, width: usize)
    ensures
        final(out)@ == old(out)@ + filled_left(text@, width as int, ' '),
{
    let len = text.unicode_len();
    proof {
        reveal_strlit(" ");
    }
    if len < width {
        push_repeated(out, " ", width - len);
    }
    out.append(text);
    assert(out@ =~= old(out)@ + filled_left(text@, width as int, ' '));
}

/// Appends `text` to `out`, with spaces behind it up to `width` characters.
pub fn push_left_aligned(out: &mut String, text: &str, width: usize)
    ensures
        final(out)@ == old(out)@ + filled_right(text@, width as int),
{
    let len = text.unicode_len();
    proof {
        reveal_strlit(" ");
    }
    out.append(text);
    if len < width {
        push_repeated(out, " ", width - len);
    }
    assert(out@ =~= old(out)@ + filled_right(text@, width as int));
}

/// The first `max` characters of `text`.
pub fn truncated(text: &str, max: usize) -> (head: &str)
    ensures
        head@ == cut(text@, max as int),
{
    let len = text.unicode_len();
    if len <= max {
        text
    } else {
        let head = text.substring_char(0, max);
        assert(head@ =~= text@.take(max as int));
        head
    }
}

/// The one-character text of a hexadecimal digit, in lower case.
pub open spec fn hex_digit(d: nat) -> char {
    if d < 10 {
        digit(d)
    } else if d == 10 {
        'a'
    } else if d == 11 {
        'b'
    } else if d == 12 {
        'c'
    } else if d == 13 {
        'd'
    } else if d == 14 {
        'e'
    } else {
        'f'
    }
}

/// A natural number in hexadecimal, in lower case, without leading zeros.
pub open spec fn hexadecimal(n: nat) -> Seq<char>
    decreases n,
{
    if n < 16 {
        seq![hex_digit(n)]
    } else {
        hexadecimal(n / 16).push(hex_digit(n % 16))
    }
}

fn hex_digit_str(d: u64) -> (text: &'static str)
    requires
        d < 16,
    ensures
        text@ == seq![hex_digit(d as nat)],
{
    if d < 10 {
        digit_str(d)
    } else {
        proof {
            reveal_strlit("a");
            reveal_strlit("b");
            reveal_strlit("c");
            reveal_strlit("d");
            reveal_strlit("e");
            reveal_strlit("f");
        }
        let text = if d == 10 {
            "a"
        } else if d == 11 {
            "b"
        } else if d == 12 {
            "c"
        } else if d == 13 {
            "d"
        } else if d == 14 {
            "e"
        } else {
            "f"
        };
        assert(text@ =~= seq![hex_digit(d as nat)]);
        text
    }
}

/// Appends `n` in hexadecimal to `out`.
pub fn push_hexadecimal(out: &mut String, n: u64)
    ensures
        final(out)@ == old(out)@ + hexadecimal(n as nat),
    decreases n,
{
    if n >= 16 {
        push_hexadecimal(out, n / 16);
    }
    out.append(hex_digit_str(n % 16));
    assert(out@ =~= old(out)@ + hexadecimal(n as nat));
}

/// `n` in hexadecimal behind `0x`, with zeros between the two up to `width`
/// characters in all.
pub open spec fn prefixed_hexadecimal(n: nat, width: int) -> Seq<char> {
    "0x"@ + filled_left(hexadecimal(n), width - 2, '0')
}

/// `n` in hexadecimal behind `0x`, with zeros between the two up to `width`
/// characters in all.
pub fn prefixed_hex(n: u64, width: usize) -> (text: String)
    ensures
        text@ == prefixed_hexadecimal(n as nat, width as int),
{
    let mut digits = String::new();
    push_hexadecimal(&mut digits, n);
    assert(digits@ =~= hexadecimal(n as nat));
    let len = digits.as_str().unicode_len();
    let mut text = "0x".to_owned();
    proof {
        reveal_strlit("0");
    }
    if width >= 2 && len < width - 2 {
        push_repeated(&mut text, "0", width - 2 - len);
    }
    text.append(digits.as_str());
    assert(text@ =~= prefixed_hexadecimal(n as nat, width as int));
    text
}

/// `n` in decimal.
pub fn decimal_string(n: u64) -> (text: String)
    ensures
        text@ == decimal(n as nat),
{
    let mut text = String::new();
    push_decimal(&mut text, n);
    assert(text@ =~= decimal(n as nat));
    text
}

/// Whether `text` begins with `prefix`.
pub fn starts_with(text: &str, prefix: &str) -> (yes: bool)
    ensures
        yes == prefix@.is_prefix_of(text@),
{
    let len = prefix.unicode_len();
    if text.unicode_len() < len {
        return false;
    }
    let mut i: usize = 0;
    while i < len
        invariant
            i <= len,
            len == prefix@.len(),
            len <= text@.len(),
            forall|k: int| 0 <= k < i ==> text@[k] == prefix@[k],
        decreases len - i,
    {
        if text.get_char(i) != prefix.get_char(i) {
            assert(text@.subrange(0, len as int)[i as int] != prefix@[i as int]);
            return false;
        }
        i += 1;
    }
    assert(text@.subrange(0, len as int) =~= prefix@);
    true
}

/// The number that a decimal digit stands for; nothing for any other
/// character.
pub open spec fn digit_value(c: char) -> Option<nat> {
    if c == '0' {
        Some(0)
    } else if c == '1' {
        Some(1)
    } else if c == '2' {
        Some(2)
    } else if c == '3' {
        Some(3)
    } else if c == '4' {
        Some(4)
    } else if c == '5' {
        Some(5)
    } else if c == '6' {
        Some(6)
    } else if c == '7' {
        Some(7)
    } else if c == '8' {
        Some(8)
    } else if c == '9' {
        Some(9)
    } else {
        None
    }
}

/// Whether `text` holds decimal digits and nothing else.
pub open spec fn all_digits(text: Seq<char>) -> bool {
    forall|i: int| 0 <= i < text.len() ==> digit_value(#[trigger] text[i]) is Some
}

/// The number that the first `count` characters of `digits` write in
/// decimal; a character that is no digit counts as 0.
pub open spec fn number_of(digits: Seq<char>, count: int) -> nat
    decreases count,
{
    if count <= 0 {
        0
    } else {
        let last: nat = match digit_value(digits[count - 1]) {
            Some(value) => value,
            None => 0,
        };
        number_of(digits, count - 1) * 10 + last
    }
}

/// More digits write no smaller number.
pub proof fn lemma_number_grows(digits: Seq<char>, count: int, more: int)
    requires
        0 <= count <= more,
    ensures
        number_of(digits, count) <= number_of(digits, more),
    decreases more - count,
{
    if count < more {
        lemma_number_grows(digits, count, more - 1);
    }
}

/// The number that a decimal digit stands for.
pub fn digit_of(c: char) -> (value: Option<u32>)
    ensures
        match value {
            Some(value) => digit_value(c) == Some(value as nat),
            None => digit_value(c).is_none(),
        },
{
    if c == '0' {
        Some(0)
    } else if c == '1' {
        Some(1)
    } else if c == '2' {
        Some(2)
    } else if c == '3' {
        Some(3)
    } else if c == '4' {
        Some(4)
    } else if c == '5' {
        Some(5)
    } else if c == '6' {
        Some(6)
    } else if c == '7' {
        Some(7)
    } else if c == '8' {
        Some(8)
    } else if c == '9' {
        Some(9)
    } else {
        None
    }
}

} // verus!
