//! What texts are.

use vstd::prelude::*;
use vstd::string::*;
use vstd::utf8::*;

use crate::domain::{ascii_upper, is_ascii_letter};
use crate::lyrics::normalized_lyrics;
use crate::text::{
    byte_prefix, collapsed, contains_part, decimal_digits, decimal_value, is_control_char, is_space,
    lemma_decimal_digits, lowercase, parsed_u64, seconds_text, split_on, stands_at, three_digits,
    trimmed, trimmed_end, trimmed_start, two_digits, unsigned_digits, utf8_len,
};

verus! {

/// Blanks, tabs and line ends are white space; what can be seen of ASCII is not.
pub proof fn law_white_space_is_not_seen(character: char)
    ensures
        character == ' ' || character == '\t' || character == '\n' || character == '\r'
            ==> is_space(character),
        '!' <= character <= '~' ==> !is_space(character),
        is_space(' '),
        is_space('\u{a0}'),
        is_space('\u{2003}'),
        is_space('\u{3000}'),
        !is_space('\u{200b}'),
{
}

/// The control characters are those before the blank, and those from the last one of ASCII
/// up to the one before the blank that does not break.
pub proof fn law_control_characters_stand_before_the_blanks(character: char)
    ensures
        is_control_char(character) <==> character < ' ' || '~' < character < '\u{a0}',
{
}

/// Writing a line of lyrics keeps what can be seen, writes a tab as a blank and a line end as
/// a line feed, and leaves the other control characters out.
pub proof fn law_lyrics_are_written_by_character(character: char)
    ensures
        !is_control_char(character) ==> normalized_lyrics(seq![character]) == seq![character],
        character == '\n' || character == '\r' ==> normalized_lyrics(seq![character]) == seq!['\n'],
        character == '\t' ==> normalized_lyrics(seq![character]) == seq![' '],
        is_control_char(character) && character != '\n' && character != '\r' && character != '\t'
            ==> normalized_lyrics(seq![character]).len() == 0,
        normalized_lyrics(seq!['\r', '\n']) == seq!['\n'],
{
    reveal_with_fuel(normalized_lyrics, 3);
    assert(seq![character].drop_last() =~= Seq::<char>::empty());
    let end = seq!['\r', '\n'];
    assert(end.drop_last() =~= seq!['\r']);
    assert(end.drop_last().drop_last() =~= Seq::<char>::empty());
}

/// Lyrics can be written part by part, as long as no line end is torn apart.
pub proof fn law_lyrics_are_written_part_by_part(first: Seq<char>, second: Seq<char>)
    requires
        first.len() > 0 && second.len() > 0 ==> !(first.last() == '\r' && second[0] == '\n'),
    ensures
        normalized_lyrics(first + second) == normalized_lyrics(first) + normalized_lyrics(second),
    decreases second.len(),
{
    if second.len() == 0 {
        assert(first + second =~= first);
        assert(normalized_lyrics(first) + normalized_lyrics(second) =~= normalized_lyrics(first));
    } else {
        let whole = first + second;
        assert(whole.drop_last() =~= first + second.drop_last());
        law_lyrics_are_written_part_by_part(first, second.drop_last());
        if second.len() == 1 {
            assert(second.drop_last() =~= Seq::<char>::empty());
        } else {
            assert(whole.drop_last().last() == second.drop_last().last());
        }
        assert(normalized_lyrics(whole) =~= normalized_lyrics(first) + normalized_lyrics(second));
    }
}

/// Whether a text is nothing but white space.
pub open spec fn is_blank(text: Seq<char>) -> bool {
    forall|i: int| 0 <= i < text.len() ==> is_space(#[trigger] text[i])
}

/// Whether a text is `middle` with the two parts around it.
pub open spec fn is_around(text: Seq<char>, before: Seq<char>, middle: Seq<char>, after: Seq<char>) -> bool {
    text == before + middle + after
}

proof fn lemma_start(text: Seq<char>) -> (before: Seq<char>)
    ensures
        is_blank(before),
        text == before + trimmed_start(text),
        trimmed_start(text).len() > 0 ==> !is_space(trimmed_start(text)[0]),
    decreases text.len(),
{
    if text.len() > 0 && is_space(text[0]) {
        let rest = lemma_start(text.drop_first());
        let before = seq![text[0]] + rest;
        let kept = trimmed_start(text.drop_first());
        assert(text =~= seq![text[0]] + text.drop_first());
        assert(seq![text[0]] + (rest + kept) =~= before + kept);
        assert(text =~= before + trimmed_start(text));
        before
    } else {
        assert(text =~= Seq::<char>::empty() + text);
        Seq::empty()
    }
}

proof fn lemma_end(text: Seq<char>) -> (after: Seq<char>)
    ensures
        is_blank(after),
        text == trimmed_end(text) + after,
        trimmed_end(text).len() > 0 ==> !is_space(trimmed_end(text).last()),
    decreases text.len(),
{
    if text.len() > 0 && is_space(text.last()) {
        let rest = lemma_end(text.drop_last());
        let after = rest.push(text.last());
        let kept = trimmed_end(text.drop_last());
        assert(text =~= text.drop_last().push(text.last()));
        assert((kept + rest).push(text.last()) =~= kept + after);
        assert(text =~= trimmed_end(text) + after);
        after
    } else {
        assert(text =~= text + Seq::<char>::empty());
        Seq::empty()
    }
}

/// Only the white space around a text is trimmed, and all of it.
pub proof fn law_trimming_takes_the_white_space_around(text: Seq<char>)
    ensures
        exists|before: Seq<char>, after: Seq<char>|
            {
                &&& #[trigger] is_around(text, before, trimmed(text), after)
                &&& is_blank(before)
                &&& is_blank(after)
            },
        trimmed(text).len() > 0 ==> !is_space(trimmed(text)[0]) && !is_space(trimmed(text).last()),
{
    let before = lemma_start(text);
    let after = lemma_end(trimmed_start(text));
    assert(text =~= before + trimmed(text) + after);
    assert(is_around(text, before, trimmed(text), after));
    if trimmed(text).len() > 0 {
        assert(trimmed(text)[0] == trimmed_start(text)[0]);
    }
}

/// The pieces with a separator between each two of them.
pub open spec fn put_together(pieces: Seq<Seq<char>>, separator: char) -> Seq<char>
    decreases pieces.len(),
{
    if pieces.len() == 0 {
        Seq::empty()
    } else if pieces.len() == 1 {
        pieces[0]
    } else {
        put_together(pieces.drop_last(), separator).push(separator) + pieces.last()
    }
}

/// The pieces of a text with the separator between them are the text, and no piece holds a
/// separator.
pub proof fn law_pieces_make_up_the_text(text: Seq<char>, separator: char)
    ensures
        split_on(text, separator).len() > 0,
        put_together(split_on(text, separator), separator) == text,
        forall|i: int|
            0 <= i < split_on(text, separator).len() ==> !(#[trigger] split_on(
                text,
                separator,
            )[i]).contains(separator),
    decreases text.len(),
{
    reveal_with_fuel(put_together, 2);
    let pieces = split_on(text, separator);
    if text.len() > 0 {
        law_pieces_make_up_the_text(text.drop_last(), separator);
        let before = split_on(text.drop_last(), separator);
        if text.last() == separator {
            assert(pieces.drop_last() =~= before);
            assert(put_together(pieces, separator) =~= text);
        } else {
            let last = before.last().push(text.last());
            assert(pieces.drop_last() =~= before.drop_last());
            assert(pieces.last() == last);
            assert(put_together(pieces, separator) =~= put_together(before, separator).push(
                text.last(),
            ));
            assert(text =~= text.drop_last().push(text.last()));
            assert forall|i: int| 0 <= i < pieces.len() implies !(#[trigger] pieces[i]).contains(
                separator,
            ) by {
                if i == pieces.len() - 1 {
                    assert(!before.last().contains(separator)) by {
                        assert(!before[before.len() - 1].contains(separator));
                    }
                    assert forall|j: int| 0 <= j < last.len() implies last[j] != separator by {
                        if j < last.len() - 1 {
                            assert(last[j] == before.last()[j]);
                        }
                    }
                } else {
                    assert(pieces[i] == before[i]);
                }
            }
        }
    } else {
        assert(pieces =~= seq![Seq::<char>::empty()]);
    }
}

/// A number is written with the digits of ASCII, the last of them that of its rest by ten.
pub proof fn law_numbers_are_written_by_digits(tens: nat, rest: nat)
    requires
        rest < 10,
    ensures
        decimal_digits(rest).len() == 1,
        decimal_digits(rest)[0] as int == '0' as int + rest,
        tens > 0 ==> decimal_digits(10 * tens + rest) == decimal_digits(tens).push(
            decimal_digits(rest)[0],
        ),
{
    assert((10 * tens + rest) / 10 == tens);
    assert((10 * tens + rest) % 10 == rest);
}

/// A number reads back as it was written, with a plus sign in front of it too.
pub proof fn law_numbers_read_back(value: u64)
    ensures
        parsed_u64(decimal_digits(value as nat)) == Some(value),
        parsed_u64(seq!['+'] + decimal_digits(value as nat)) == Some(value),
{
    let digits = decimal_digits(value as nat);
    lemma_decimal_digits(value as nat);
    assert(crate::text::is_digit(digits[0]));
    assert(digits[0] != '+');
    assert((seq!['+'] + digits).skip(1) =~= digits);
}

/// Only digits are read, behind a plus sign at most.
pub proof fn law_only_digits_are_read(text: Seq<char>, index: int)
    requires
        0 <= index < text.len(),
        !('0' <= text[index] <= '9'),
        index > 0 || text[index] != '+',
    ensures
        parsed_u64(text) is None,
        parsed_u64(Seq::<char>::empty()) is None,
        parsed_u64(seq!['+']) is None,
{
    let digits = unsigned_digits(text);
    if text[0] == '+' {
        assert(digits[index - 1] == text[index]);
    } else {
        assert(digits[index] == text[index]);
    }
}

/// Two and three digits are the number with zeros in front.
pub proof fn law_short_numbers_are_filled_with_zeros(value: nat)
    ensures
        value < 10 ==> two_digits(value) == seq!['0'] + decimal_digits(value),
        10 <= value < 100 ==> two_digits(value) == decimal_digits(value),
        value < 10 ==> three_digits(value) == seq!['0', '0'] + decimal_digits(value),
        10 <= value < 100 ==> three_digits(value) == seq!['0'] + decimal_digits(value),
        100 <= value < 1_000 ==> three_digits(value) == decimal_digits(value),
{
    reveal_with_fuel(decimal_digits, 4);
    assert(value / 10 / 10 == value / 100);
    if value < 10 {
        assert(two_digits(value) =~= seq!['0'] + decimal_digits(value));
        assert(three_digits(value) =~= seq!['0', '0'] + decimal_digits(value));
    } else if value < 100 {
        assert(two_digits(value) =~= decimal_digits(value));
        assert(three_digits(value) =~= seq!['0'] + decimal_digits(value));
    } else if value < 1_000 {
        assert(three_digits(value) =~= decimal_digits(value));
    }
}

/// Milliseconds are written as seconds, a point and three digits.
pub proof fn law_seconds_have_three_decimals(seconds: nat, milliseconds: nat)
    requires
        milliseconds < 1_000,
    ensures
        seconds_text(1_000 * seconds + milliseconds) == decimal_digits(seconds).push('.')
            + three_digits(milliseconds),
{
    reveal_strlit(".");
    assert((1_000 * seconds + milliseconds) / 1_000 == seconds);
    assert((1_000 * seconds + milliseconds) % 1_000 == milliseconds);
    assert("."@ =~= seq!['.']);
    assert(seconds_text(1_000 * seconds + milliseconds) =~= decimal_digits(seconds).push('.')
        + three_digits(milliseconds));
}

/// Small letters have no capital letter of ASCII among them, and everything else stays.
pub proof fn law_small_letters_replace_capitals(text: Seq<char>, index: int)
    requires
        0 <= index < text.len(),
    ensures
        lowercase(text).len() == text.len(),
        'A' <= text[index] <= 'Z' ==> lowercase(text)[index] as int - 'a' as int
            == text[index] as int - 'A' as int,
        !('A' <= text[index] <= 'Z') ==> lowercase(text)[index] == text[index],
{
}

/// Capital letters replace the small ones of ASCII, and everything else stays.
pub proof fn law_capitals_replace_small_letters(character: char)
    ensures
        'a' <= character <= 'z' ==> ascii_upper(character) as int - 'A' as int == character as int
            - 'a' as int,
        !('a' <= character <= 'z') ==> ascii_upper(character) == character,
        is_ascii_letter(character) <==> 'A' <= ascii_upper(character) <= 'Z',
{
}

/// A text holds a part if it is the part with something around it.
pub proof fn law_a_part_has_the_rest_around_it(before: Seq<char>, part: Seq<char>, after: Seq<char>)
    ensures
        contains_part(before + part + after, part),
        part.len() > 0 ==> !contains_part(Seq::empty(), part),
{
    let whole = before + part + after;
    assert(whole.subrange(before.len() as int, (before.len() + part.len()) as int) =~= part);
    assert(stands_at(whole, part, before.len() as int));
}

/// What a text holds stands in it.
pub proof fn law_what_is_held_stands_there(whole: Seq<char>, part: Seq<char>)
    requires
        contains_part(whole, part),
    ensures
        exists|before: Seq<char>, after: Seq<char>| #[trigger]
            is_around(whole, before, part, after),
{
    let at = choose|at: int| #[trigger] stands_at(whole, part, at);
    let before = whole.take(at);
    let after = whole.skip(at + part.len());
    assert(whole =~= before + part + after);
    assert(is_around(whole, before, part, after));
}

/// What is kept of a text is a beginning that fits, and no longer one does.
pub proof fn law_the_longest_beginning_is_kept(text: Seq<char>, budget: nat, count: int)
    requires
        0 <= count <= text.len(),
    ensures
        byte_prefix(text, budget).is_prefix_of(text),
        utf8_len(byte_prefix(text, budget)) <= budget,
        utf8_len(text.take(count)) <= budget ==> count <= byte_prefix(text, budget).len(),
    decreases text.len(),
{
    crate::text::lemma_utf8_len_bounds(Seq::<char>::empty());
    if text.len() == 0 {
        assert(text =~= Seq::<char>::empty());
    } else if utf8_len(text) > budget {
        let shorter = text.drop_last();
        if count < text.len() {
            assert(shorter.take(count) =~= text.take(count));
            law_the_longest_beginning_is_kept(shorter, budget, count);
        } else {
            assert(text.take(count) =~= text);
            law_the_longest_beginning_is_kept(shorter, budget, 0);
        }
        assert(byte_prefix(shorter, budget).is_prefix_of(text));
    }
}

/// Words are put together with one blank between them, however much white space there was.
pub proof fn law_words_are_put_together_with_one_blank(
    first: Seq<char>,
    space: char,
    second: Seq<char>,
)
    requires
        is_space(space),
        collapsed(first).len() > 0,
        second.len() > 0,
        !is_space(second[0]),
    ensures
        collapsed(first.push(space)) == collapsed(first),
        collapsed(first.push(space) + second) == collapsed(first).push(' ') + collapsed(second),
    decreases second.len(),
{
    reveal_with_fuel(collapsed, 2);
    let before = first.push(space);
    assert(before.drop_last() =~= first);
    let whole = before + second;
    let shorter = second.drop_last();
    assert(whole.drop_last() =~= before + shorter);
    if shorter.len() == 0 {
        assert(before + shorter =~= before);
        assert(shorter =~= Seq::<char>::empty());
        assert(collapsed(whole) =~= collapsed(first).push(' ') + collapsed(second));
    } else {
        law_words_are_put_together_with_one_blank(first, space, shorter);
        assert(whole.drop_last().last() == shorter.last());
        lemma_word_is_kept(shorter);
        assert(collapsed(whole) =~= collapsed(first).push(' ') + collapsed(second));
    }
}

proof fn lemma_word_is_kept(text: Seq<char>)
    requires
        text.len() > 0,
        !is_space(text[0]),
    ensures
        collapsed(text).len() > 0,
    decreases text.len(),
{
    if text.len() > 1 {
        lemma_word_is_kept(text.drop_last());
    }
}

} // verus!
