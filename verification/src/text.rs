//! Text operations on Unicode strings and the decimal and hexadecimal notation of numbers.

use vstd::prelude::*;
use vstd::utf8::{decode_utf8, valid_utf8};

verus! {

/// The characters of `text`.
pub fn chars_of(text: &str) -> (chars: Vec<char>)
    ensures
        chars@ == text@,
{
    let mut chars: Vec<char> = Vec::new();
    for c in iter: text.chars()
        invariant
            iter.seq() == text@,
            chars@ == text@.take(iter.index()),
    {
        chars.push(c);
        proof {
            assert(text@.take(iter.index() + 1) =~= text@.take(iter.index()).push(c));
        }
    }
    proof {
        assert(text@.take(text@.len() as int) =~= text@);
    }
    chars
}

/// Whether `text` starts with `prefix`.
pub open spec fn starts_with(text: Seq<char>, prefix: Seq<char>) -> bool {
    prefix.len() <= text.len() && text.take(prefix.len() as int) == prefix
}

/// Tells whether `text` starts with `prefix`.
pub fn has_prefix(text: &str, prefix: &str) -> (found: bool)
    ensures
        found == starts_with(text@, prefix@),
{
    let text_chars = chars_of(text);
    let prefix_chars = chars_of(prefix);
    if prefix_chars.len() > text_chars.len() {
        return false;
    }
    let mut index: usize = 0;
    while index < prefix_chars.len()
        invariant
            index <= prefix@.len() <= text@.len(),
            text_chars@ == text@,
            prefix_chars@ == prefix@,
            forall|i: int| 0 <= i < index ==> text@[i] == prefix@[i],
        decreases prefix@.len() - index,
    {
        if text_chars[index] != prefix_chars[index] {
            proof {
                assert(text@.take(prefix@.len() as int)[index as int] != prefix@[index as int]);
            }
            return false;
        }
        index += 1;
    }
    proof {
        assert(text@.take(prefix@.len() as int) =~= prefix@);
    }
    true
}

/// Tells whether two texts are the same.
pub fn same_text(left: &str, right: &str) -> (same: bool)
    ensures
        same == (left@ == right@),
{
    if left.unicode_len() != right.unicode_len() {
        return false;
    }
    let same = has_prefix(left, right);
    proof {
        assert(left@.take(left@.len() as int) =~= left@);
    }
    same
}

/// Two texts, one after the other.
pub fn joined(left: &str, right: &str) -> (text: String)
    ensures
        text@ == left@ + right@,
{
    let mut text = left.to_owned();
    text.append(right);
    text
}

/// Whether a character has the Unicode property `White_Space`.
pub open spec fn is_space(c: char) -> bool {
    let code = c as u32;
    ||| 0x09 <= code <= 0x0d
    ||| code == 0x20
    ||| code == 0x85
    ||| code == 0xa0
    ||| code == 0x1680
    ||| 0x2000 <= code <= 0x200a
    ||| code == 0x2028
    ||| code == 0x2029
    ||| code == 0x202f
    ||| code == 0x205f
    ||| code == 0x3000
}

fn space(c: char) -> (found: bool)
    ensures
        found == is_space(c),
{
    let code = c as u32;
    (0x09 <= code && code <= 0x0d) || code == 0x20 || code == 0x85 || code == 0xa0 || code == 0x1680
        || (0x2000 <= code && code <= 0x200a) || code == 0x2028 || code == 0x2029 || code == 0x202f
        || code == 0x205f || code == 0x3000
}

/// `text` without the white space at its end.
pub open spec fn trimmed_end(text: Seq<char>) -> Seq<char>
    decreases text.len(),
{
    if text.len() > 0 && is_space(text.last()) {
        trimmed_end(text.drop_last())
    } else {
        text
    }
}

/// `text` without the white space at its start and at its end.
pub open spec fn trimmed(text: Seq<char>) -> Seq<char>
    decreases text.len(),
{
    if text.len() > 0 && is_space(text.first()) {
        trimmed(text.drop_first())
    } else {
        trimmed_end(text)
    }
}

/// What trimming keeps is a stretch of the text that neither starts nor ends in white space, and
/// only white space surrounds it.
pub proof fn trimming_removes_outer_space(text: Seq<char>) -> (bounds: (int, int))
    ensures
        0 <= bounds.0 <= bounds.1 <= text.len(),
        trimmed(text) == text.subrange(bounds.0, bounds.1),
        forall|i: int| 0 <= i < bounds.0 ==> is_space(text[i]),
        forall|i: int| bounds.1 <= i < text.len() ==> is_space(text[i]),
        trimmed(text).len() > 0 ==> !is_space(trimmed(text).first()) && !is_space(
            trimmed(text).last(),
        ),
    decreases text.len(),
{
    if text.len() > 0 && is_space(text.first()) {
        let rest = text.drop_first();
        let bounds = trimming_removes_outer_space(rest);
        assert forall|i: int| bounds.1 + 1 <= i < text.len() implies is_space(text[i]) by {
            assert(rest[i - 1] == text[i]);
        }
        assert forall|i: int| 0 <= i < bounds.0 + 1 implies is_space(text[i]) by {
            if i > 0 {
                assert(rest[i - 1] == text[i]);
            }
        }
        assert(rest.subrange(bounds.0, bounds.1) =~= text.subrange(bounds.0 + 1, bounds.1 + 1));
        (bounds.0 + 1, bounds.1 + 1)
    } else {
        let end = trimming_removes_space_at_the_end(text);
        (0, end)
    }
}

proof fn trimming_removes_space_at_the_end(text: Seq<char>) -> (end: int)
    ensures
        0 <= end <= text.len(),
        trimmed_end(text) == text.subrange(0, end),
        forall|i: int| end <= i < text.len() ==> is_space(text[i]),
        end > 0 ==> !is_space(text[end - 1]),
    decreases text.len(),
{
    if text.len() > 0 && is_space(text.last()) {
        let end = trimming_removes_space_at_the_end(text.drop_last());
        assert(text.drop_last().subrange(0, end) =~= text.subrange(0, end));
        assert forall|i: int| end <= i < text.len() implies is_space(text[i]) by {
            if i < text.len() - 1 {
                assert(text.drop_last()[i] == text[i]);
            }
        }
        if end > 0 {
            assert(text.drop_last()[end - 1] == text[end - 1]);
        }
        end
    } else {
        assert(text.subrange(0, text.len() as int) =~= text);
        text.len() as int
    }
}

/// Trimming a trimmed text changes nothing.
pub proof fn trimming_is_idempotent(text: Seq<char>)
    ensures
        trimmed(trimmed(text)) == trimmed(text),
{
    let bounds = trimming_removes_outer_space(text);
}

proof fn trimmed_bounds(text: Seq<char>, start: int, end: int)
    requires
        0 <= start <= end <= text.len(),
        forall|i: int| 0 <= i < start ==> is_space(text[i]),
        forall|i: int| end <= i < text.len() ==> is_space(text[i]),
        start < end ==> !is_space(text[start]) && !is_space(text[end - 1]),
        start == end ==> end == text.len(),
    ensures
        trimmed(text) == text.subrange(start, end),
    decreases text.len(),
{
    if start > 0 {
        let rest = text.drop_first();
        assert forall|i: int| 0 <= i < start - 1 implies is_space(rest[i]) by {
            assert(rest[i] == text[i + 1]);
        }
        trimmed_bounds(rest, start - 1, end - 1);
        assert(rest.subrange(start - 1, end - 1) =~= text.subrange(start, end));
    } else {
        trimmed_end_bound(text, end);
    }
}

proof fn trimmed_end_bound(text: Seq<char>, end: int)
    requires
        0 <= end <= text.len(),
        forall|i: int| end <= i < text.len() ==> is_space(text[i]),
        0 < end ==> !is_space(text[end - 1]),
    ensures
        trimmed_end(text) == text.subrange(0, end),
    decreases text.len(),
{
    if end < text.len() {
        trimmed_end_bound(text.drop_last(), end);
        assert(text.drop_last().subrange(0, end) =~= text.subrange(0, end));
    } else {
        assert(text.subrange(0, end) =~= text);
    }
}

/// Where the trimmed part of `chars[from..to]` starts and ends.
pub(crate) fn trim_range(chars: &Vec<char>, from: usize, to: usize) -> (bounds: (usize, usize))
    requires
        from <= to <= chars@.len(),
    ensures
        from <= bounds.0 <= bounds.1 <= to,
        chars@.subrange(bounds.0 as int, bounds.1 as int) == trimmed(
            chars@.subrange(from as int, to as int),
        ),
{
    let ghost part = chars@.subrange(from as int, to as int);
    let mut start: usize = from;
    while start < to && space(chars[start])
        invariant
            from <= start <= to <= chars@.len(),
            part == chars@.subrange(from as int, to as int),
            forall|i: int| 0 <= i < start - from ==> is_space(part[i]),
        decreases to - start,
    {
        proof {
            assert(part[start - from] == chars@[start as int]);
        }
        start += 1;
    }
    let mut end: usize = to;
    while end > start && space(chars[end - 1])
        invariant
            from <= start <= end <= to <= chars@.len(),
            part == chars@.subrange(from as int, to as int),
            forall|i: int| end - from <= i < part.len() ==> is_space(part[i]),
            start < to ==> !is_space(part[start - from]),
        decreases end - start,
    {
        proof {
            assert(part[end - 1 - from] == chars@[end - 1]);
        }
        end -= 1;
    }
    proof {
        if start < end {
            assert(part[end - 1 - from] == chars@[end - 1]);
        }
        trimmed_bounds(part, start - from, end - from);
        assert(part.subrange(start - from, end - from) =~= chars@.subrange(
            start as int,
            end as int,
        ));
    }
    (start, end)
}

/// `text` without the white space at its start and at its end.
pub fn trim<'a>(text: &'a str) -> (inner: &'a str)
    ensures
        inner@ == trimmed(text@),
{
    let chars = chars_of(text);
    let bounds = trim_range(&chars, 0, chars.len());
    proof {
        assert(text@.subrange(0, text@.len() as int) =~= text@);
    }
    text.substring_char(bounds.0, bounds.1)
}

/// A character with an ASCII capital letter made small.
pub open spec fn ascii_lower(c: char) -> char {
    if 'A' <= c <= 'Z' {
        (c as u32 + 32) as char
    } else {
        c
    }
}

/// Whether two texts differ at most in the case of ASCII letters.
pub open spec fn same_ignoring_case(left: Seq<char>, right: Seq<char>) -> bool {
    &&& left.len() == right.len()
    &&& forall|i: int| 0 <= i < left.len() ==> ascii_lower(#[trigger] left[i]) == ascii_lower(right[i])
}

fn lower_code(c: char) -> (code: u32)
    ensures
        code == ascii_lower(c) as u32,
{
    if 'A' <= c && c <= 'Z' {
        c as u32 + 32
    } else {
        c as u32
    }
}

/// Tells whether `chars[from..to]` is `word`, apart from the case of ASCII letters.
pub(crate) fn matches_word(chars: &Vec<char>, from: usize, to: usize, word: &str) -> (same: bool)
    requires
        from <= to <= chars@.len(),
    ensures
        same == same_ignoring_case(chars@.subrange(from as int, to as int), word@),
{
    let ghost part = chars@.subrange(from as int, to as int);
    let letters = chars_of(word);
    if to - from != letters.len() {
        return false;
    }
    let mut index: usize = 0;
    while index < letters.len()
        invariant
            index <= letters@.len() == to - from,
            from <= to <= chars@.len(),
            letters@ == word@,
            part == chars@.subrange(from as int, to as int),
            forall|i: int|
                0 <= i < index ==> ascii_lower(#[trigger] part[i]) == ascii_lower(word@[i]),
        decreases letters@.len() - index,
    {
        if lower_code(chars[from + index]) != lower_code(letters[index]) {
            proof {
                assert(part[index as int] == chars@[from + index]);
            }
            return false;
        }
        index += 1;
    }
    true
}

/// Tells whether `chars[from..to]` is exactly `word`.
pub(crate) fn is_word(chars: &Vec<char>, from: usize, to: usize, word: &str) -> (same: bool)
    requires
        from <= to <= chars@.len(),
    ensures
        same == (chars@.subrange(from as int, to as int) == word@),
{
    let ghost part = chars@.subrange(from as int, to as int);
    let letters = chars_of(word);
    if to - from != letters.len() {
        return false;
    }
    let mut index: usize = 0;
    while index < letters.len()
        invariant
            index <= letters@.len() == to - from,
            from <= to <= chars@.len(),
            letters@ == word@,
            part == chars@.subrange(from as int, to as int),
            forall|i: int| 0 <= i < index ==> part[i] == word@[i],
        decreases letters@.len() - index,
    {
        if chars[from + index] != letters[index] {
            proof {
                assert(part[index as int] == chars@[from + index]);
            }
            return false;
        }
        index += 1;
    }
    proof {
        assert(part =~= word@);
    }
    true
}

/// The ASCII digit of a number below sixteen.
pub open spec fn digit(value: nat) -> char {
    if value < 10 {
        (48 + value) as char
    } else {
        (87 + value) as char
    }
}

/// The decimal notation of a number.
pub open spec fn decimal(value: nat) -> Seq<char>
    decreases value,
{
    if value < 10 {
        seq![digit(value)]
    } else {
        decimal(value / 10).push(digit(value % 10))
    }
}

/// The decimal notation of a number, with a minus sign before a negative one.
pub open spec fn signed_decimal(value: int) -> Seq<char> {
    if value < 0 {
        "-"@ + decimal((-value) as nat)
    } else {
        decimal(value as nat)
    }
}

/// The two-digit hexadecimal notation of a byte.
pub open spec fn hex_byte(value: u8) -> Seq<char> {
    seq![digit((value / 16) as nat), digit((value % 16) as nat)]
}

fn digit_text(value: u8) -> (text: &'static str)
    requires
        value < 16,
    ensures
        text@ == seq![digit(value as nat)],
{
    proof {
        reveal_strlit("0");
        reveal_strlit("1");
        reveal_strlit("2");
        reveal_strlit("3");
        reveal_strlit("4");
        reveal_strlit("5");
        reveal_strlit("6");
        reveal_strlit("7");
        reveal_strlit("8");
        reveal_strlit("9");
        reveal_strlit("a");
        reveal_strlit("b");
        reveal_strlit("c");
        reveal_strlit("d");
        reveal_strlit("e");
        reveal_strlit("f");
    }
    match value {
        0 => "0",
        1 => "1",
        2 => "2",
        3 => "3",
        4 => "4",
        5 => "5",
        6 => "6",
        7 => "7",
        8 => "8",
        9 => "9",
        10 => "a",
        11 => "b",
        12 => "c",
        13 => "d",
        14 => "e",
        _ => "f",
    }
}

/// Appends the decimal notation of `value`.
pub fn push_decimal(out: &mut String, value: u64)
    ensures
        final(out)@ == old(out)@ + decimal(value as nat),
    decreases value,
{
    if value < 10 {
        out.append(digit_text(value as u8));
    } else {
        push_decimal(out, value / 10);
        out.append(digit_text((value % 10) as u8));
        proof {
            assert(out@ =~= old(out)@ + decimal(value as nat));
        }
    }
}

/// Appends the decimal notation of a signed number.
pub fn push_signed_decimal(out: &mut String, value: i64)
    ensures
        final(out)@ == old(out)@ + signed_decimal(value as int),
{
    if value < 0 {
        out.append("-");
        push_decimal(out, (-(value as i128)) as u64);
        proof {
            assert(out@ =~= old(out)@ + signed_decimal(value as int));
        }
    } else {
        push_decimal(out, value as u64);
    }
}

/// Appends the two-digit hexadecimal notation of `value`.
pub fn push_hex_byte(out: &mut String, value: u8)
    ensures
        final(out)@ == old(out)@ + hex_byte(value),
{
    out.append(digit_text(value / 16));
    out.append(digit_text(value % 16));
    proof {
        assert(out@ =~= old(out)@ + hex_byte(value));
    }
}

/// The elements of a list of bytes in decimal, each after a comma and a blank but for the first.
pub open spec fn joined_decimals(values: Seq<u8>) -> Seq<char>
    decreases values.len(),
{
    if values.len() == 0 {
        Seq::empty()
    } else if values.len() == 1 {
        decimal(values[0] as nat)
    } else {
        joined_decimals(values.drop_last()) + ", "@ + decimal(values.last() as nat)
    }
}

/// The list notation of bytes, as in `[1, 2]`.
pub open spec fn list_notation(values: Seq<u8>) -> Seq<char> {
    "["@ + joined_decimals(values) + "]"@
}

/// Appends the list notation of `values`.
pub fn push_list(out: &mut String, values: &Vec<u8>)
    ensures
        final(out)@ == old(out)@ + list_notation(values@),
{
    out.append("[");
    let mut index: usize = 0;
    while index < values.len()
        invariant
            index <= values@.len(),
            out@ == old(out)@ + "["@ + joined_decimals(values@.take(index as int)),
        decreases values@.len() - index,
    {
        proof {
            assert(values@.take(index + 1).drop_last() =~= values@.take(index as int));
        }
        if index > 0 {
            out.append(", ");
        }
        push_decimal(out, values[index] as u64);
        proof {
            assert(out@ =~= old(out)@ + "["@ + joined_decimals(values@.take(index + 1)));
        }
        index += 1;
    }
    out.append("]");
    proof {
        assert(values@.take(index as int) =~= values@);
        assert(out@ =~= old(out)@ + list_notation(values@));
    }
}

#[verifier::external_type_specification]
#[verifier::external_body]
pub struct ExUtf8Error(core::str::Utf8Error);

/// Calls `core::str::from_utf8`. It succeeds exactly on valid UTF-8, and the text then has the
/// given bytes.
#[verifier::external_body]
fn std_from_utf8<'a>(bytes: &'a [u8]) -> (text: Result<&'a str, core::str::Utf8Error>)
    ensures
        text is Ok <==> valid_utf8(bytes@),
        text matches Ok(text) ==> text@ == decode_utf8(bytes@),
{
    core::str::from_utf8(bytes)
}

/// The text with the given UTF-8 bytes, if they are valid UTF-8.
pub fn utf8_text<'a>(bytes: &'a [u8]) -> (text: Option<&'a str>)
    ensures
        text is Some <==> valid_utf8(bytes@),
        text matches Some(text) ==> text@ == decode_utf8(bytes@),
{
    match std_from_utf8(bytes) {
        Ok(text) => Some(text),
        Err(_) => None,
    }
}

/// The number that a text of digits stands for.
pub open spec fn numeral_value(text: Seq<char>) -> int
    decreases text.len(),
{
    if text.len() == 0 {
        0
    } else {
        10 * numeral_value(text.drop_last()) + (text.last() as int - 48)
    }
}

/// Whether a text consists of the digits from 0 to 9.
pub open spec fn all_digits(text: Seq<char>) -> bool {
    forall|i: int| 0 <= i < text.len() ==> '0' <= #[trigger] text[i] <= '9'
}

/// The decimal notation of a number consists of digits, stands for the number, and has no zero in
/// front but for the number zero.
pub proof fn decimals_stand_for_their_number(value: nat)
    ensures
        all_digits(decimal(value)),
        numeral_value(decimal(value)) == value,
        decimal(value).len() >= 1,
        decimal(value)[0] == '0' ==> value == 0 && decimal(value).len() == 1,
    decreases value,
{
    if value < 10 {
        assert(decimal(value).drop_last() =~= Seq::<char>::empty());
        reveal_with_fuel(numeral_value, 2);
    } else {
        decimals_stand_for_their_number(value / 10);
        assert(decimal(value).drop_last() =~= decimal(value / 10));
    }
}

/// A negative number is written as a minus sign and the digits of its negative.
pub proof fn signed_decimals_stand_for_their_number(value: int)
    ensures
        value >= 0 ==> all_digits(signed_decimal(value)) && numeral_value(signed_decimal(value))
            == value,
        value < 0 ==> {
            let text = signed_decimal(value);
            &&& text.len() >= 2 && text[0] == '-'
            &&& all_digits(text.skip(1)) && numeral_value(text.skip(1)) == -value
        },
{
    if value < 0 {
        decimals_stand_for_their_number((-value) as nat);
        reveal_strlit("-");
        assert(signed_decimal(value).skip(1) =~= decimal((-value) as nat));
    } else {
        decimals_stand_for_their_number(value as nat);
    }
}

/// The value of a hexadecimal digit.
pub open spec fn hex_digit_value(c: char) -> int {
    if '0' <= c <= '9' {
        c as int - '0' as int
    } else if 'a' <= c <= 'f' {
        c as int - 'a' as int + 10
    } else {
        -1000
    }
}

/// A byte is written as two hexadecimal digits, with small letters, that stand for it.
pub proof fn hexadecimals_stand_for_their_byte(value: u8)
    ensures
        hex_byte(value).len() == 2,
        16 * hex_digit_value(hex_byte(value)[0]) + hex_digit_value(hex_byte(value)[1]) == value,
{
}

/// The list notation grows by a comma, a blank and the new number before its closing bracket.
pub proof fn lists_grow_at_their_end(values: Seq<u8>, value: u8)
    ensures
        list_notation(Seq::empty()) == "[]"@,
        list_notation(seq![value]) == "["@ + decimal(value as nat) + "]"@,
        values.len() > 0 ==> list_notation(values.push(value)) == list_notation(values).drop_last()
            + ", "@ + decimal(value as nat) + "]"@,
{
    reveal_strlit("[]");
    reveal_strlit("[");
    reveal_strlit("]");
    assert(list_notation(Seq::empty()) =~= "[]"@);
    if values.len() > 0 {
        assert(values.push(value).drop_last() =~= values);
        assert(list_notation(values).drop_last() =~= "["@ + joined_decimals(values));
        assert(list_notation(values.push(value)) =~= list_notation(values).drop_last() + ", "@
            + decimal(value as nat) + "]"@);
    }
}

/// White space is the tabulator, the line ends, the blank and what else Unicode counts to it, and
/// nothing else; so no printable ASCII character is.
pub proof fn white_space_is_that_of_unicode(c: char)
    ensures
        is_space(c) <==> set![
            9int, 10, 11, 12, 13, 32, 133, 160, 5760, 8192, 8193, 8194, 8195, 8196, 8197, 8198,
            8199, 8200, 8201, 8202, 8232, 8233, 8239, 8287, 12288,
        ].contains(c as int),
        33 <= c as int <= 126 ==> !is_space(c),
{
}

/// Whether a text consists of white space.
pub open spec fn all_space(text: Seq<char>) -> bool {
    forall|i: int| 0 <= i < text.len() ==> is_space(#[trigger] text[i])
}

/// Whether a text neither starts nor ends in white space.
pub open spec fn is_bare(text: Seq<char>) -> bool {
    text.len() > 0 ==> !is_space(text[0]) && !is_space(text[text.len() - 1])
}

/// Trimming takes away all white space around a text, and nothing of the text.
pub proof fn trimming_keeps_what_is_between_space(
    left: Seq<char>,
    inner: Seq<char>,
    right: Seq<char>,
)
    requires
        all_space(left),
        all_space(right),
        is_bare(inner),
    ensures
        trimmed(left + inner + right) == inner,
{
    let text = left + inner + right;
    assert forall|i: int| 0 <= i < left.len() implies is_space(text[i]) by {
        assert(text[i] == left[i]);
    }
    assert forall|i: int| left.len() + inner.len() <= i < text.len() implies is_space(text[i]) by {
        assert(text[i] == right[i - left.len() - inner.len()]);
    }
    if inner.len() > 0 {
        assert(text[left.len() as int] == inner[0]);
        assert(text[left.len() + inner.len() - 1] == inner[inner.len() - 1]);
        trimmed_bounds(text, left.len() as int, (left.len() + inner.len()) as int);
        assert(text.subrange(left.len() as int, (left.len() + inner.len()) as int) =~= inner);
    } else {
        assert forall|i: int| 0 <= i < text.len() implies is_space(text[i]) by {}
        trimmed_bounds(text, text.len() as int, text.len() as int);
        assert(text.subrange(text.len() as int, text.len() as int) =~= inner);
    }
}

/// Whether a text spells a word, in small letters, capitals or both.
pub open spec fn spells(text: Seq<char>, word: Seq<char>) -> bool {
    &&& text.len() == word.len()
    &&& forall|i: int|
        0 <= i < text.len() ==> #[trigger] text[i] == word[i] || 'a' <= word[i] <= 'z'
            && text[i] as int == word[i] as int - 32
}

/// A text is the same as a word without capitals, apart from case, exactly if it spells it.
pub proof fn words_are_compared_by_their_letters(text: Seq<char>, word: Seq<char>)
    requires
        forall|i: int| 0 <= i < word.len() ==> !('A' <= #[trigger] word[i] <= 'Z'),
    ensures
        same_ignoring_case(text, word) <==> spells(text, word),
{
    if same_ignoring_case(text, word) {
        assert forall|i: int| 0 <= i < text.len() implies #[trigger] text[i] == word[i] || 'a'
            <= word[i] <= 'z' && text[i] as int == word[i] as int - 32 by {
            assert(ascii_lower(text[i]) == ascii_lower(word[i]));
            assert(!('A' <= word[i] <= 'Z'));
        }
    }
    if spells(text, word) {
        assert forall|i: int| 0 <= i < text.len() implies ascii_lower(#[trigger] text[i])
            == ascii_lower(word[i]) by {
            assert(!('A' <= word[i] <= 'Z'));
        }
    }
}

/// A text starts with a prefix exactly if something comes after the prefix to make it up.
pub proof fn prefixes_are_completed(text: Seq<char>, prefix: Seq<char>, rest: Seq<char>)
    ensures
        starts_with(prefix + rest, prefix),
        starts_with(text, prefix) ==> text == prefix + text.skip(prefix.len() as int),
        starts_with(text, prefix) ==> text.len() >= prefix.len(),
{
    assert((prefix + rest).take(prefix.len() as int) =~= prefix);
    if starts_with(text, prefix) {
        assert(text =~= text.take(prefix.len() as int) + text.skip(prefix.len() as int));
    }
}

} // verus!
