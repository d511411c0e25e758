//! Text as sequences of characters: the models and helpers every other module
//! builds its strings with.

use vstd::prelude::*;
use vstd::string::*;
use vstd::utf8::*;

verus! {

/// The number of bytes that the UTF-8 encoding of `text` takes.
pub open spec fn utf8_len(text: Seq<char>) -> nat {
    encode_utf8(text).len()
}

/// `String::push` appends one character.
pub assume_specification[ String::push ](text: &mut String, character: char)
    ensures
        final(text)@ == old(text)@.push(character),
;

/// `==` on string slices compares their characters.
pub assume_specification[ <str as PartialEq>::eq ](left: &str, right: &str) -> (same: bool)
    ensures
        same == (left@ == right@),
;

/// Encoding two texts one after the other takes the bytes of both.
pub proof fn lemma_utf8_len_concat(left: Seq<char>, right: Seq<char>)
    ensures
        encode_utf8(left + right) == encode_utf8(left) + encode_utf8(right),
        utf8_len(left + right) == utf8_len(left) + utf8_len(right),
    decreases left.len(),
{
    if left.len() == 0 {
        assert(left + right =~= right);
        assert(encode_utf8(left) + encode_utf8(right) =~= encode_utf8(right));
    } else {
        let whole = left + right;
        assert(whole.drop_first() =~= left.drop_first() + right);
        lemma_utf8_len_concat(left.drop_first(), right);
        assert(encode_utf8(whole) =~= encode_utf8(left) + encode_utf8(right));
    }
}

/// Every character takes between one and four bytes.
pub proof fn lemma_utf8_len_char(character: char)
    ensures
        1 <= utf8_len(seq![character]) <= 4,
{
    char_is_scalar(character);
    let one = seq![character];
    assert(one.drop_first() =~= Seq::<char>::empty());
    assert(encode_utf8(one.drop_first()) =~= Seq::<u8>::empty());
    assert(encode_utf8(one) =~= encode_scalar(character as u32));
}

/// A character of ASCII takes one byte.
pub proof fn lemma_utf8_len_ascii(character: char)
    requires
        character as u32 <= 0x7f,
    ensures
        utf8_len(seq![character]) == 1,
{
    let one = seq![character];
    assert(one.drop_first() =~= Seq::<char>::empty());
    assert(encode_utf8(one.drop_first()) =~= Seq::<u8>::empty());
    assert(encode_utf8(one) =~= encode_scalar(character as u32));
}

/// A text takes at least one byte for each character, and no bytes only when
/// it is empty.
pub proof fn lemma_utf8_len_bounds(text: Seq<char>)
    ensures
        text.len() <= utf8_len(text) <= 4 * text.len(),
    decreases text.len(),
{
    if text.len() > 0 {
        let head = seq![text[0]];
        assert(text =~= head + text.drop_first());
        lemma_utf8_len_concat(head, text.drop_first());
        lemma_utf8_len_char(text[0]);
        lemma_utf8_len_bounds(text.drop_first());
    }
}

/// Whether both texts have the same characters.
pub fn same_text(left: &str, right: &str) -> (same: bool)
    ensures
        same == (left@ == right@),
{
    left.eq(right)
}

/// The number of bytes of `text`.
pub fn byte_len(text: &str) -> (length: usize)
    ensures
        length == utf8_len(text@),
{
    text.as_bytes().len()
}

/// The characters of `text` in order.
pub fn chars_of(text: &str) -> (characters: Vec<char>)
    ensures
        characters@ == text@,
{
    let mut characters: Vec<char> = Vec::new();
    for character in iter: text.chars()
        invariant
            iter.seq() == text@,
            characters@ == text@.take(iter.index()),
    {
        characters.push(character);
        assert(text@.take(iter.index() + 1) =~= text@.take(iter.index()).push(character));
    }
    assert(text@.take(text@.len() as int) =~= text@);
    characters
}

/// The text made of the characters at positions `start..end`.
pub fn string_of(characters: &Vec<char>, start: usize, end: usize) -> (text: String)
    requires
        start <= end <= characters.len(),
    ensures
        text@ == characters@.subrange(start as int, end as int),
{
    let mut text = String::new();
    let mut index: usize = start;
    while index < end
        invariant
            start <= index <= end <= characters.len(),
            text@ == characters@.subrange(start as int, index as int),
        decreases end - index,
    {
        text.push(characters[index]);
        index = index + 1;
        assert(characters@.subrange(start as int, index as int) =~= characters@.subrange(
            start as int,
            index - 1,
        ).push(characters@[index - 1]));
    }
    text
}

/// The decimal digit of `value`, for a value below ten.
pub open spec fn digit_char(value: nat) -> char {
    (value + 48) as char
}

/// `value` written in decimal, without leading zeros.
pub open spec fn decimal_digits(value: nat) -> Seq<char>
    decreases value,
{
    if value < 10 {
        seq![digit_char(value)]
    } else {
        decimal_digits(value / 10).push(digit_char(value % 10))
    }
}

/// The number that a run of decimal digits stands for.
pub open spec fn decimal_value(digits: Seq<char>) -> nat
    decreases digits.len(),
{
    if digits.len() == 0 {
        0
    } else {
        decimal_value(digits.drop_last()) * 10 + (digits.last() as nat - 48) as nat
    }
}

/// Whether `character` is one of the ten ASCII digits.
pub open spec fn is_digit(character: char) -> bool {
    '0' <= character <= '9'
}

/// A decimal number consists of digits, has at least one, and reads back as
/// the number it was written from.
pub proof fn lemma_decimal_digits(value: nat)
    ensures
        decimal_digits(value).len() >= 1,
        forall|i: int| 0 <= i < decimal_digits(value).len() ==> is_digit(decimal_digits(value)[i]),
        decimal_value(decimal_digits(value)) == value,
    decreases value,
{
    reveal_with_fuel(decimal_value, 2);
    if value >= 10 {
        lemma_decimal_digits(value / 10);
        let digits = decimal_digits(value);
        assert(digits.drop_last() =~= decimal_digits(value / 10));
    } else {
        let digits = decimal_digits(value);
        assert(digits.drop_last() =~= Seq::<char>::empty());
    }
}

/// The digit character of `value`.
pub fn digit(value: u8) -> (character: char)
    requires
        value < 10,
    ensures
        character == digit_char(value as nat),
{
    (value + 48u8) as char
}

/// Appends `value` in decimal.
pub fn append_decimal(text: &mut String, value: u64)
    ensures
        final(text)@ == old(text)@ + decimal_digits(value as nat),
    decreases value,
{
    if value < 10 {
        text.push(digit(value as u8));
        assert(text@ =~= old(text)@ + decimal_digits(value as nat));
    } else {
        append_decimal(text, value / 10);
        text.push(digit((value % 10) as u8));
        assert(text@ =~= old(text)@ + decimal_digits(value as nat));
    }
}

/// The characters with Unicode's `White_Space` property.
pub open spec fn is_space(character: char) -> bool {
    let code = character as u32;
    ||| 0x9 <= code <= 0xd
    ||| code == 0x20
    ||| code == 0x85
    ||| code == 0xa0
    ||| code == 0x1680
    ||| 0x2000 <= code <= 0x200a
    ||| code == 0x2028
    ||| code == 0x2029
    ||| code == 0x202f
    ||| code == 0x205f
    ||| code == 0x3000
}

/// Whether `character` is white space.
pub fn is_whitespace(character: char) -> (space: bool)
    ensures
        space == is_space(character),
{
    let code: u32 = character as u32;
    (0x9 <= code && code <= 0xd) || code == 0x20 || code == 0x85 || code == 0xa0 || code == 0x1680
        || (0x2000 <= code && code <= 0x200a) || code == 0x2028 || code == 0x2029 || code == 0x202f
        || code == 0x205f || code == 0x3000
}

/// The control characters: Unicode's general category `Cc`.
pub open spec fn is_control_char(character: char) -> bool {
    (character as u32) < 0x20 || 0x7f <= character as u32 <= 0x9f
}

/// Whether `character` is a control character.
pub fn is_control(character: char) -> (control: bool)
    ensures
        control == is_control_char(character),
{
    let code: u32 = character as u32;
    code < 0x20 || (0x7f <= code && code <= 0x9f)
}

/// Whether `text` holds white space or a control character.
pub open spec fn has_space_or_control(text: Seq<char>) -> bool {
    exists|i: int| 0 <= i < text.len() && (is_space(#[trigger] text[i]) || is_control_char(text[i]))
}

/// Whether `text` holds white space or a control character.
pub fn contains_space_or_control(text: &str) -> (found: bool)
    ensures
        found == has_space_or_control(text@),
{
    let characters = chars_of(text);
    let mut index: usize = 0;
    while index < characters.len()
        invariant
            index <= characters.len(),
            characters@ == text@,
            forall|i: int|
                0 <= i < index ==> !is_space(#[trigger] text@[i]) && !is_control_char(text@[i]),
        decreases characters.len() - index,
    {
        if is_whitespace(characters[index]) || is_control(characters[index]) {
            return true;
        }
        index = index + 1;
    }
    false
}

/// Whether `text` holds `character`.
pub fn contains_char(text: &str, character: char) -> (found: bool)
    ensures
        found == text@.contains(character),
{
    let characters = chars_of(text);
    let mut index: usize = 0;
    while index < characters.len()
        invariant
            index <= characters.len(),
            characters@ == text@,
            forall|i: int| 0 <= i < index ==> #[trigger] text@[i] != character,
        decreases characters.len() - index,
    {
        if characters[index] == character {
            return true;
        }
        index = index + 1;
    }
    false
}

/// The characters of `text` that are not white space, with one space wherever
/// white space separates two of them.
pub open spec fn collapsed(text: Seq<char>) -> Seq<char>
    decreases text.len(),
{
    if text.len() == 0 {
        Seq::empty()
    } else {
        let before = text.drop_last();
        let done = collapsed(before);
        if is_space(text.last()) {
            done
        } else if done.len() > 0 && is_space(before.last()) {
            done.push(' ').push(text.last())
        } else {
            done.push(text.last())
        }
    }
}

/// Once its words are joined by single spaces, a text stays as it is; and no space
/// stands at its end.
pub proof fn law_collapsing_twice_changes_nothing(text: Seq<char>)
    ensures
        collapsed(collapsed(text)) == collapsed(text),
        collapsed(text).len() > 0 ==> !is_space(collapsed(text).last()),
    decreases text.len(),
{
    if text.len() > 0 {
        let before = text.drop_last();
        let done = collapsed(before);
        law_collapsing_twice_changes_nothing(before);
        if !is_space(text.last()) {
            if done.len() > 0 && is_space(before.last()) {
                let spaced = done.push(' ');
                assert(spaced.drop_last() =~= done);
                assert(is_space(spaced.last()));
                assert(collapsed(spaced) == done);
                assert(spaced.push(text.last()).drop_last() =~= spaced);
            } else {
                assert(done.push(text.last()).drop_last() =~= done);
            }
        }
    }
}

/// Joins the words of `text` with single spaces.
pub fn collapse(text: &str) -> (result: String)
    ensures
        result@ == collapsed(text@),
{
    let characters = chars_of(text);
    let mut result = String::new();
    let mut pending = false;
    let mut any = false;
    let mut index: usize = 0;
    while index < characters.len()
        invariant
            index <= characters.len(),
            characters@ == text@,
            result@ == collapsed(text@.take(index as int)),
            any == (result@.len() > 0),
            pending == (index > 0 && is_space(text@[index - 1])),
        decreases characters.len() - index,
    {
        let character = characters[index];
        assert(text@.take(index + 1).drop_last() =~= text@.take(index as int));
        if is_whitespace(character) {
            pending = true;
        } else {
            if pending && any {
                result.push(' ');
            }
            result.push(character);
            any = true;
            pending = false;
        }
        index = index + 1;
    }
    assert(text@.take(text@.len() as int) =~= text@);
    result
}

/// `text` without the white space at its start.
pub open spec fn trimmed_start(text: Seq<char>) -> Seq<char>
    decreases text.len(),
{
    if text.len() > 0 && is_space(text[0]) {
        trimmed_start(text.drop_first())
    } else {
        text
    }
}

/// `text` without the white space at its end.
pub open spec fn trimmed_end(text: Seq<char>) -> Seq<char>
    decreases text.len(),
{
    if text.len() > 0 && is_space(text.last()) {
        trimmed_end(text.drop_last())
    } else {
        text
    }
}

/// `text` without the white space around it.
pub open spec fn trimmed(text: Seq<char>) -> Seq<char> {
    trimmed_end(trimmed_start(text))
}

proof fn lemma_trimmed_start(text: Seq<char>) -> (count: int)
    ensures
        0 <= count <= text.len(),
        trimmed_start(text) == text.skip(count),
        count < text.len() ==> !is_space(text[count]),
    decreases text.len(),
{
    if text.len() > 0 && is_space(text[0]) {
        let count = lemma_trimmed_start(text.drop_first());
        assert(text.drop_first().skip(count) =~= text.skip(count + 1));
        count + 1
    } else {
        assert(text.skip(0) =~= text);
        0
    }
}

proof fn lemma_trimmed_end(text: Seq<char>) -> (count: int)
    ensures
        0 <= count <= text.len(),
        trimmed_end(text) == text.take(count),
        count > 0 ==> !is_space(text[count - 1]),
    decreases text.len(),
{
    if text.len() > 0 && is_space(text.last()) {
        let count = lemma_trimmed_end(text.drop_last());
        assert(text.drop_last().take(count) =~= text.take(count));
        count
    } else {
        assert(text.take(text.len() as int) =~= text);
        text.len() as int
    }
}

/// What is left of a trimmed text is a part of it, takes no more bytes, and stays
/// as it is when it is trimmed again.
pub proof fn lemma_trimmed(text: Seq<char>)
    ensures
        trimmed(trimmed(text)) == trimmed(text),
        utf8_len(trimmed(text)) <= utf8_len(text),
        forall|i: int|
            0 <= i < trimmed(text).len() ==> text.contains(#[trigger] trimmed(text)[i]),
{
    let start = lemma_trimmed_start(text);
    let rest = text.skip(start);
    let end = lemma_trimmed_end(rest);
    let kept = rest.take(end);
    assert(kept == trimmed(text));
    if kept.len() > 0 {
        assert(kept[0] == text[start]);
        assert(kept.last() == rest[end - 1]);
    }
    assert(trimmed(kept) == kept);
    lemma_utf8_len_concat(text.take(start), rest);
    assert(text.take(start) + rest =~= text);
    lemma_utf8_len_concat(kept, rest.skip(end));
    assert(kept + rest.skip(end) =~= rest);
    assert forall|i: int| 0 <= i < kept.len() implies text.contains(#[trigger] kept[i]) by {
        assert(text[start + i] == kept[i]);
    }
}

/// `text` without the white space around it.
pub fn trim(text: &str) -> (result: String)
    ensures
        result@ == trimmed(text@),
{
    let characters = chars_of(text);
    let mut start: usize = 0;
    assert(text@.skip(0) =~= text@);
    while start < characters.len() && is_whitespace(characters[start])
        invariant
            start <= characters.len(),
            characters@ == text@,
            trimmed_start(text@) == trimmed_start(text@.skip(start as int)),
        decreases characters.len() - start,
    {
        assert(text@.skip(start as int).drop_first() =~= text@.skip(start + 1));
        start = start + 1;
    }
    let ghost rest = text@.skip(start as int);
    let mut end: usize = characters.len();
    assert(rest.take(rest.len() as int) =~= rest);
    while end > start && is_whitespace(characters[end - 1])
        invariant
            start <= end <= characters.len(),
            characters@ == text@,
            rest == text@.skip(start as int),
            trimmed_end(rest) == trimmed_end(rest.take(end - start)),
        decreases end,
    {
        assert(rest.take(end - start).drop_last() =~= rest.take(end - start - 1));
        end = end - 1;
    }
    assert(rest.take(end - start) =~= text@.subrange(start as int, end as int));
    string_of(&characters, start, end)
}

/// The pieces of `text` between the places where `separator` stands.
pub open spec fn split_on(text: Seq<char>, separator: char) -> Seq<Seq<char>>
    decreases text.len(),
{
    if text.len() == 0 {
        seq![Seq::empty()]
    } else {
        let before = split_on(text.drop_last(), separator);
        if text.last() == separator {
            before.push(Seq::empty())
        } else {
            before.update(before.len() - 1, before.last().push(text.last()))
        }
    }
}

/// The pieces of `text` between the places where `separator` stands.
pub fn split(text: &str, separator: char) -> (pieces: Vec<String>)
    ensures
        crate::domain::texts(pieces@) == split_on(text@, separator),
{
    let characters = chars_of(text);
    let mut pieces: Vec<String> = Vec::new();
    let mut piece = String::new();
    let mut index: usize = 0;
    assert(crate::domain::texts(pieces@).push(piece@) =~= split_on(text@.take(0), separator)) by {
        assert(text@.take(0) =~= Seq::empty());
    }
    while index < characters.len()
        invariant
            index <= characters.len(),
            characters@ == text@,
            crate::domain::texts(pieces@).push(piece@) == split_on(
                text@.take(index as int),
                separator,
            ),
        decreases characters.len() - index,
    {
        let ghost done = crate::domain::texts(pieces@);
        let ghost part = piece@;
        assert(text@.take(index + 1).drop_last() =~= text@.take(index as int));
        if characters[index] == separator {
            pieces.push(piece);
            piece = String::new();
            assert(crate::domain::texts(pieces@) =~= done.push(part));
        } else {
            piece.push(characters[index]);
            assert(done.push(part).update(done.len() as int, part.push(characters@[index as int]))
                =~= done.push(piece@));
        }
        index = index + 1;
    }
    let ghost done = crate::domain::texts(pieces@);
    let ghost part = piece@;
    pieces.push(piece);
    assert(crate::domain::texts(pieces@) =~= done.push(part));
    assert(text@.take(text@.len() as int) =~= text@);
    pieces
}

/// The digits of a number that may start with a plus sign.
pub open spec fn unsigned_digits(text: Seq<char>) -> Seq<char> {
    if text.len() > 0 && text[0] == '+' {
        text.skip(1)
    } else {
        text
    }
}

/// The number that `text` writes in decimal, where it fits 64 bits.
pub open spec fn parsed_u64(text: Seq<char>) -> Option<u64> {
    let digits = unsigned_digits(text);
    if digits.len() > 0 && (forall|i: int| 0 <= i < digits.len() ==> is_digit(#[trigger] digits[i]))
        && decimal_value(digits) <= u64::MAX {
        Some(decimal_value(digits) as u64)
    } else {
        None
    }
}

/// Reading more digits does not make a number smaller.
proof fn lemma_decimal_value_grows(digits: Seq<char>, count: int)
    requires
        0 <= count <= digits.len(),
    ensures
        decimal_value(digits.take(count)) <= decimal_value(digits),
    decreases digits.len(),
{
    if count == digits.len() {
        assert(digits.take(count) =~= digits);
    } else {
        lemma_decimal_value_grows(digits.drop_last(), count);
        assert(digits.drop_last().take(count) =~= digits.take(count));
    }
}

/// Reads a decimal number that fits 64 bits. A plus sign may precede it.
pub fn parse_u64(text: &str) -> (number: Option<u64>)
    ensures
        number == parsed_u64(text@),
{
    let characters = chars_of(text);
    let start: usize = if characters.len() > 0 && characters[0] == '+' {
        1
    } else {
        0
    };
    let ghost digits = unsigned_digits(text@);
    if start == characters.len() {
        return None;
    }
    let mut value: u64 = 0;
    let mut index: usize = start;
    assert(digits.take(0) =~= Seq::empty());
    while index < characters.len()
        invariant
            start <= index <= characters.len(),
            characters@ == text@,
            digits == unsigned_digits(text@),
            start == (if text@.len() > 0 && text@[0] == '+' {
                1int
            } else {
                0int
            }),
            forall|i: int| 0 <= i < index - start ==> is_digit(#[trigger] digits[i]),
            value == decimal_value(digits.take(index - start)),
        decreases characters.len() - index,
    {
        let character = characters[index];
        assert(digits[index - start] == character);
        if character < '0' || character > '9' {
            return None;
        }
        let ghost step = index - start + 1;
        proof {
            assert(digits.take(step).drop_last() =~= digits.take(step - 1));
            lemma_decimal_value_grows(digits, step);
        }
        let digit_value: u64 = (character as u32 - '0' as u32) as u64;
        value = match value.checked_mul(10) {
            Some(scaled) => match scaled.checked_add(digit_value) {
                Some(sum) => sum,
                None => {
                    return None;
                },
            },
            None => {
                return None;
            },
        };
        index = index + 1;
    }
    assert(digits.take(digits.len() as int) =~= digits);
    Some(value)
}

/// A number below a hundred with two digits.
pub open spec fn two_digits(value: nat) -> Seq<char> {
    seq![digit_char(value / 10), digit_char(value % 10)]
}

/// A number below a thousand with three digits.
pub open spec fn three_digits(value: nat) -> Seq<char> {
    seq![digit_char(value / 100), digit_char(value / 10 % 10), digit_char(value % 10)]
}

/// Appends a number below a hundred with two digits.
pub fn append_two_digits(text: &mut String, value: u64)
    requires
        value < 100,
    ensures
        final(text)@ == old(text)@ + two_digits(value as nat),
{
    text.push(digit((value / 10) as u8));
    text.push(digit((value % 10) as u8));
    assert(text@ =~= old(text)@ + two_digits(value as nat));
}

/// Appends a number below a thousand with three digits.
pub fn append_three_digits(text: &mut String, value: u64)
    requires
        value < 1_000,
    ensures
        final(text)@ == old(text)@ + three_digits(value as nat),
{
    text.push(digit((value / 100) as u8));
    text.push(digit((value / 10 % 10) as u8));
    text.push(digit((value % 10) as u8));
    assert(text@ =~= old(text)@ + three_digits(value as nat));
}

/// `value` in decimal.
pub fn decimal(value: u64) -> (text: String)
    ensures
        text@ == decimal_digits(value as nat),
{
    let mut text = String::new();
    append_decimal(&mut text, value);
    assert(text@ =~= decimal_digits(value as nat));
    text
}

/// Milliseconds as seconds with three decimals.
pub open spec fn seconds_text(milliseconds: nat) -> Seq<char> {
    decimal_digits(milliseconds / 1_000) + "."@ + three_digits(milliseconds % 1_000)
}

/// Milliseconds as seconds with three decimals.
pub fn format_seconds(milliseconds: u64) -> (text: String)
    ensures
        text@ == seconds_text(milliseconds as nat),
{
    let mut text = decimal(milliseconds / 1_000);
    text.append(".");
    append_three_digits(&mut text, milliseconds % 1_000);
    text
}

/// `character` with an ASCII capital letter made small.
pub open spec fn lower_char(character: char) -> char {
    if 'A' <= character <= 'Z' {
        (character as u32 + 32) as char
    } else {
        character
    }
}

/// `text` with ASCII capital letters made small.
pub open spec fn lowercase(text: Seq<char>) -> Seq<char> {
    text.map_values(|character: char| lower_char(character))
}

fn small(character: char) -> (result: char)
    ensures
        result == lower_char(character),
{
    if 'A' <= character && character <= 'Z' {
        (character as u8 + 32) as char
    } else {
        character
    }
}

/// The characters of `text` with ASCII capital letters made small.
pub fn lowercase_chars(text: &str) -> (result: Vec<char>)
    ensures
        result@ == lowercase(text@),
{
    let characters = chars_of(text);
    let mut result: Vec<char> = Vec::new();
    let mut index: usize = 0;
    while index < characters.len()
        invariant
            characters@ == text@,
            index <= characters.len(),
            result@ == lowercase(text@.take(index as int)),
        decreases characters.len() - index,
    {
        result.push(small(characters[index]));
        index = index + 1;
        assert(result@ =~= lowercase(text@.take(index as int)));
    }
    assert(text@.take(text@.len() as int) =~= text@);
    result
}

/// Whether `part` stands in `whole` at `at`.
pub open spec fn stands_at(whole: Seq<char>, part: Seq<char>, at: int) -> bool {
    0 <= at <= whole.len() - part.len() && whole.subrange(at, at + part.len()) == part
}

/// Whether `part` stands somewhere in `whole`.
pub open spec fn contains_part(whole: Seq<char>, part: Seq<char>) -> bool {
    exists|at: int| #[trigger] stands_at(whole, part, at)
}

/// Whether `part` stands somewhere in `whole`.
pub fn contains_chars(whole: &Vec<char>, part: &Vec<char>) -> (found: bool)
    ensures
        found == contains_part(whole@, part@),
{
    if part.len() > whole.len() {
        return false;
    }
    let last: usize = whole.len() - part.len();
    let mut at: usize = 0;
    while at <= last
        invariant
            part@.len() <= whole@.len(),
            last == whole@.len() - part@.len(),
            at <= last + 1,
            forall|i: int| 0 <= i < at ==> !#[trigger] stands_at(whole@, part@, i),
        decreases last + 1 - at,
    {
        let mut matched: usize = 0;
        while matched < part.len() && whole[at + matched] == part[matched]
            invariant
                at + part.len() <= whole.len(),
                matched <= part.len(),
                forall|i: int| 0 <= i < matched ==> whole@[at + i] == #[trigger] part@[i],
            decreases part.len() - matched,
        {
            matched = matched + 1;
        }
        if matched == part.len() {
            assert(whole@.subrange(at as int, at + part@.len()) =~= part@);
            assert(stands_at(whole@, part@, at as int));
            return true;
        }
        assert(!stands_at(whole@, part@, at as int)) by {
            if stands_at(whole@, part@, at as int) {
                assert(whole@.subrange(at as int, at + part@.len())[matched as int]
                    == part@[matched as int]);
            }
        }
        if at == last {
            return false;
        }
        at = at + 1;
    }
    false
}

/// The longest beginning of `text` that takes no more than `budget` bytes.
pub open spec fn byte_prefix(text: Seq<char>, budget: nat) -> Seq<char>
    decreases text.len(),
{
    if text.len() == 0 || utf8_len(text) <= budget {
        text
    } else {
        byte_prefix(text.drop_last(), budget)
    }
}

/// A beginning that fits, while one character more does not, is the longest.
pub proof fn lemma_byte_prefix(text: Seq<char>, budget: nat, count: int)
    requires
        0 <= count < text.len(),
        utf8_len(text.take(count)) <= budget,
        utf8_len(text.take(count + 1)) > budget,
    ensures
        byte_prefix(text, budget) == text.take(count),
    decreases text.len(),
{
    let longer = text.take(count + 1);
    assert(text =~= longer + text.skip(count + 1));
    lemma_utf8_len_concat(longer, text.skip(count + 1));
    assert(utf8_len(text) > budget);
    if count == text.len() - 1 {
        assert(text.drop_last() =~= text.take(count));
        assert(byte_prefix(text.drop_last(), budget) == text.drop_last());
    } else {
        let shorter = text.drop_last();
        assert(shorter.take(count) =~= text.take(count));
        assert(shorter.take(count + 1) =~= text.take(count + 1));
        lemma_byte_prefix(shorter, budget, count);
    }
}

/// The longest beginning of `text` that takes no more than `budget` bytes, and
/// whether something was cut off.
pub fn cap_bytes(text: &str, budget: usize) -> (result: (String, bool))
    ensures
        result.0@ == byte_prefix(text@, budget as nat),
        result.1 == (byte_prefix(text@, budget as nat) != text@),
{
    if byte_len(text) <= budget {
        return (text.to_owned(), false);
    }
    let characters = chars_of(text);
    let mut prefix = String::new();
    let mut taken: usize = 0;
    let mut used: usize = 0;
    proof {
        assert(text@.take(0) =~= Seq::<char>::empty());
        lemma_utf8_len_bounds(Seq::<char>::empty());
        assert(text@.take(text@.len() as int) =~= text@);
    }
    while taken < characters.len()
        invariant
            characters@ == text@,
            utf8_len(text@) > budget,
            taken <= characters.len(),
            prefix@ == text@.take(taken as int),
            used == utf8_len(text@.take(taken as int)),
            used <= budget,
            text@.take(text@.len() as int) == text@,
        decreases characters.len() - taken,
    {
        let mut next = String::new();
        next.push(characters[taken]);
        let size: usize = byte_len(next.as_str());
        proof {
            let one = seq![text@[taken as int]];
            assert(next@ =~= one);
            assert(text@.take(taken + 1) =~= text@.take(taken as int) + one);
            lemma_utf8_len_concat(text@.take(taken as int), one);
        }
        if size > budget - used {
            proof {
                lemma_byte_prefix(text@, budget as nat, taken as int);
                assert(text@.take(taken as int).len() != text@.len());
            }
            return (prefix, true);
        }
        prefix.push(characters[taken]);
        used = used + size;
        taken = taken + 1;
        assert(prefix@ =~= text@.take(taken as int));
    }
    assert(false);
    (prefix, true)
}

/// Whether `text` holds a control character.
pub open spec fn has_control(text: Seq<char>) -> bool {
    exists|index: int| 0 <= index < text.len() && is_control_char(#[trigger] text[index])
}

/// Whether `text` holds a control character.
pub fn contains_control(text: &str) -> (found: bool)
    ensures
        found == has_control(text@),
{
    let characters = chars_of(text);
    let mut index: usize = 0;
    while index < characters.len()
        invariant
            characters@ == text@,
            index <= characters.len(),
            forall|i: int| 0 <= i < index ==> !is_control_char(#[trigger] text@[i]),
        decreases characters.len() - index,
    {
        if is_control(characters[index]) {
            assert(is_control_char(text@[index as int]));
            return true;
        }
        index = index + 1;
    }
    false
}

/// The pieces one after the other.
pub open spec fn joined(pieces: Seq<Seq<char>>) -> Seq<char>
    decreases pieces.len(),
{
    if pieces.len() == 0 {
        Seq::empty()
    } else {
        joined(pieces.drop_last()) + pieces.last()
    }
}

/// The first `count` pieces one after the other.
pub fn join_first(pieces: &Vec<String>, count: usize) -> (text: String)
    requires
        count <= pieces.len(),
    ensures
        text@ == joined(crate::domain::texts(pieces@).take(count as int)),
{
    let mut text = String::new();
    let mut index: usize = 0;
    let ghost all = crate::domain::texts(pieces@);
    assert(all.take(0) =~= Seq::<Seq<char>>::empty());
    while index < count
        invariant
            index <= count <= pieces.len(),
            all == crate::domain::texts(pieces@),
            text@ == joined(all.take(index as int)),
        decreases count - index,
    {
        text.append(pieces[index].as_str());
        index = index + 1;
        assert(all.take(index as int).drop_last() =~= all.take(index - 1));
    }
    text
}

/// How std writes a text for debugging: between quotes, with escapes.
pub uninterp spec fn quoted(text: Seq<char>) -> Seq<char>;

/// Writes a text as `<str as Debug>::fmt` does. Which characters are escaped, and
/// how, is left to std.
#[verifier::external_body]
pub(crate) fn quote(text: &str) -> (result: String)
    ensures
        result@ == quoted(text@),
{
    format!("{:?}", text)
}

} // verus!
