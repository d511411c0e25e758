//! Lyrics text.

use vstd::prelude::*;
use vstd::string::*;

use crate::text::{
    chars_of, is_control, is_control_char, lemma_utf8_len_ascii, lemma_utf8_len_char,
    lemma_utf8_len_concat, utf8_len,
};

verus! {

/// The largest lyrics text that is accepted, in bytes.
pub const MAX_LYRICS_TEXT_BYTES: usize = 262_144;

/// `text` with every line ending written as one line feed, tabs as spaces, and
/// without other control characters.
pub open spec fn normalized_lyrics(text: Seq<char>) -> Seq<char>
    decreases text.len(),
{
    if text.len() == 0 {
        Seq::empty()
    } else {
        let before = text.drop_last();
        let done = normalized_lyrics(before);
        let character = text.last();
        if character == '\n' {
            if before.len() > 0 && before.last() == '\r' {
                done
            } else {
                done.push('\n')
            }
        } else if character == '\r' {
            done.push('\n')
        } else if character == '\t' {
            done.push(' ')
        } else if is_control_char(character) {
            done
        } else {
            done.push(character)
        }
    }
}

/// Writes every line ending as one line feed and tabs as spaces, and drops
/// other control characters.
pub fn normalize_lyrics_text(text: &str) -> (result: String)
    ensures
        result@ == normalized_lyrics(text@),
{
    let characters = chars_of(text);
    let mut result = String::new();
    let mut index: usize = 0;
    while index < characters.len()
        invariant
            index <= characters.len(),
            characters@ == text@,
            result@ == normalized_lyrics(text@.take(index as int)),
        decreases characters.len() - index,
    {
        let character = characters[index];
        assert(text@.take(index + 1).drop_last() =~= text@.take(index as int));
        if character == '\n' {
            if !(index > 0 && characters[index - 1] == '\r') {
                result.push('\n');
            }
        } else if character == '\r' {
            result.push('\n');
        } else if character == '\t' {
            result.push(' ');
        } else if !is_control(character) {
            result.push(character);
        }
        index = index + 1;
    }
    assert(text@.take(text@.len() as int) =~= text@);
    result
}

/// Normalized lyrics hold no control character but line feeds.
pub proof fn law_normalized_lyrics_are_printable(text: Seq<char>)
    ensures
        forall|i: int|
            0 <= i < normalized_lyrics(text).len() ==> (#[trigger] normalized_lyrics(text)[i]
                == '\n' || !is_control_char(normalized_lyrics(text)[i])),
    decreases text.len(),
{
    if text.len() > 0 {
        law_normalized_lyrics_are_printable(text.drop_last());
        let done = normalized_lyrics(text.drop_last());
        let all = normalized_lyrics(text);
        assert forall|i: int| 0 <= i < all.len() implies (#[trigger] all[i] == '\n'
            || !is_control_char(all[i])) by {
            if i < done.len() {
                assert(all[i] == done[i]);
            }
        }
    }
}

/// Normalizing twice is normalizing once.
pub proof fn law_normalized_lyrics_are_stable(text: Seq<char>)
    ensures
        normalized_lyrics(normalized_lyrics(text)) == normalized_lyrics(text),
{
    law_normalized_lyrics_are_printable(text);
    lemma_printable_is_kept(normalized_lyrics(text));
}

/// Normalized lyrics take no more bytes than the text they come from.
pub proof fn law_normalized_lyrics_are_no_longer(text: Seq<char>)
    ensures
        utf8_len(normalized_lyrics(text)) <= utf8_len(text),
    decreases text.len(),
{
    if text.len() > 0 {
        let before = text.drop_last();
        let done = normalized_lyrics(before);
        law_normalized_lyrics_are_no_longer(before);
        lemma_utf8_len_concat(before, seq![text.last()]);
        assert(before + seq![text.last()] =~= text);
        let all = normalized_lyrics(text);
        lemma_utf8_len_char(text.last());
        if all.len() > done.len() {
            lemma_utf8_len_concat(done, seq![all.last()]);
            if all.last() != text.last() {
                lemma_utf8_len_ascii(all.last());
            }
            assert(done + seq![all.last()] =~= all);
        }
    }
}

/// A text without control characters other than line feeds is normalized.
pub proof fn lemma_printable_is_kept(text: Seq<char>)
    requires
        forall|i: int|
            0 <= i < text.len() ==> (#[trigger] text[i] == '\n' || !is_control_char(text[i])),
    ensures
        normalized_lyrics(text) == text,
    decreases text.len(),
{
    if text.len() > 0 {
        let before = text.drop_last();
        lemma_printable_is_kept(before);
        assert(text[text.len() - 1] == '\n' || !is_control_char(text[text.len() - 1]));
        if before.len() > 0 {
            assert(text[before.len() - 1] == '\n' || !is_control_char(text[before.len() - 1]));
        }
        assert(normalized_lyrics(text) =~= text);
    }
}

} // verus!
