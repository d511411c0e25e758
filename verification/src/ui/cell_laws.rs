//! How texts are cut to the cells that there are.

use vstd::prelude::*;
use vstd::string::*;

use crate::text::{byte_prefix, has_control, is_control_char, joined, utf8_len};
use crate::ui::cells::{
    cells, fitting, grapheme_prefix, graphemes, kept_pieces, piece_width, prefix_in_cells,
    restyled, showable, total_width, truncated, with_text,
};
use crate::ui::line::{contents, LineView, SpanView};
use crate::ui::theme::Style;

verus! {

/// As many pieces are kept as fit: they fit, and one more would not.
pub proof fn law_as_many_pieces_are_kept_as_fit(pieces: Seq<Seq<char>>, limit: int)
    requires
        0 <= limit,
    ensures
        fitting(pieces, limit) <= pieces.len(),
        total_width(pieces.take(fitting(pieces, limit) as int)) <= limit,
        fitting(pieces, limit) < pieces.len() ==> total_width(
            pieces.take((fitting(pieces, limit) + 1) as int),
        ) > limit,
        total_width(pieces) <= limit ==> fitting(pieces, limit) == pieces.len(),
    decreases pieces.len(),
{
    if pieces.len() == 0 || total_width(pieces) <= limit {
        assert(pieces.take(pieces.len() as int) =~= pieces);
    } else {
        let shorter = pieces.drop_last();
        law_as_many_pieces_are_kept_as_fit(shorter, limit);
        let kept = fitting(pieces, limit) as int;
        assert(shorter.take(kept) =~= pieces.take(kept));
        if kept < shorter.len() {
            assert(shorter.take(kept + 1) =~= pieces.take(kept + 1));
        } else {
            assert(pieces.take(kept + 1) =~= pieces);
        }
    }
}

/// Pieces are as wide together as they are one by one; one with a control character takes no
/// room, and one of a single byte takes a cell.
pub proof fn law_widths_add_up(pieces: Seq<Seq<char>>, piece: Seq<char>)
    ensures
        total_width(Seq::<Seq<char>>::empty()) == 0,
        has_control(piece) ==> total_width(pieces.push(piece)) == total_width(pieces),
        !has_control(piece) && utf8_len(piece) == 1 ==> total_width(pieces.push(piece))
            == total_width(pieces) + 1,
        !has_control(piece) ==> total_width(pieces.push(piece)) == total_width(pieces) + cells(
            piece,
        ),
{
    assert(pieces.push(piece).drop_last() =~= pieces);
}

/// A text is shown as it is where it fits, and not at all where there is no room.
pub proof fn law_what_fits_is_not_cut(text: Seq<char>, width: nat)
    requires
        utf8_len(text) <= 65_536,
        graphemes(text).len() <= 4_096,
    ensures
        truncated(text, 0).len() == 0,
        width > 0 && total_width(graphemes(text)) <= width ==> truncated(text, width) == text,
{
    let pieces = graphemes(text);
    assert(pieces.take(pieces.len() as int) =~= pieces);
}

/// Whether a text is cut so that it ends with the sign for what is left out, behind as many
/// clusters as fit before it.
pub open spec fn is_cut_to(shown: Seq<char>, text: Seq<char>, width: nat, count: int) -> bool {
    &&& 0 <= count <= graphemes(text).len()
    &&& shown == joined(graphemes(text).take(count)) + "…"@
    &&& count > 0 ==> total_width(graphemes(text).take(count)) + cells("…"@) <= width
    &&& count < graphemes(text).len() ==> total_width(graphemes(text).take(count + 1)) + cells(
        "…"@,
    ) > width
}

/// A text that does not fit begins as it does, with as many clusters as leave room for the
/// sign of what is left out, and ends with that sign.
pub proof fn law_what_does_not_fit_is_cut(text: Seq<char>, width: nat)
    requires
        utf8_len(text) <= 65_536,
        graphemes(text).len() <= 4_096,
        text.len() > 0,
        0 < width < total_width(graphemes(text)),
        cells("…"@) <= width,
    ensures
        exists|count: int| #[trigger] is_cut_to(truncated(text, width), text, width, count),
{
    let pieces = graphemes(text);
    let limit = width - cells("…"@);
    assert(pieces.take(pieces.len() as int) =~= pieces);
    law_as_many_pieces_are_kept_as_fit(pieces, limit);
    let count = fitting(pieces, limit) as int;
    assert(is_cut_to(truncated(text, width), text, width, count));
}

proof fn lemma_filtered(pieces: Seq<Seq<char>>, wanted: spec_fn(Seq<char>) -> bool)
    requires
        forall|piece: Seq<char>| #[trigger] wanted(piece) <==> !has_control(piece),
    ensures
        showable(pieces) == pieces.filter(wanted),
    decreases pieces.len(),
{
    reveal(Seq::filter);
    if pieces.len() > 0 {
        lemma_filtered(pieces.drop_last(), wanted);
        assert(wanted(pieces.last()) <==> !has_control(pieces.last()));
    }
}

/// What can be shown is what holds no control character, in its order.
pub proof fn law_what_can_be_shown_has_no_control_characters(pieces: Seq<Seq<char>>)
    ensures
        showable(pieces) == pieces.filter(
            |piece: Seq<char>|
                forall|i: int| 0 <= i < piece.len() ==> !is_control_char(#[trigger] piece[i]),
        ),
{
    let wanted = |piece: Seq<char>|
        forall|i: int| 0 <= i < piece.len() ==> !is_control_char(#[trigger] piece[i]);
    assert forall|piece: Seq<char>| #[trigger] wanted(piece) <==> !has_control(piece) by {}
    lemma_filtered(pieces, wanted);
}

/// A short text is kept whole; of a longer one so many clusters are kept, and it is said that
/// something is missing.
pub proof fn law_a_typed_text_is_kept_up_to_its_limit(
    text: Seq<char>,
    byte_budget: nat,
    grapheme_budget: nat,
)
    requires
        grapheme_budget > 0,
        utf8_len(text) <= byte_budget,
    ensures
        graphemes(text).len() <= grapheme_budget ==> grapheme_prefix(
            text,
            byte_budget,
            grapheme_budget,
        ) == (text, false),
        graphemes(text).len() > grapheme_budget ==> grapheme_prefix(
            text,
            byte_budget,
            grapheme_budget,
        ) == (joined(graphemes(text).take(grapheme_budget as int)), true),
{
}

proof fn lemma_joined_push(pieces: Seq<Seq<char>>, piece: Seq<char>)
    ensures
        joined(pieces.push(piece)) == joined(pieces) + piece,
{
    assert(pieces.push(piece).drop_last() =~= pieces);
}

/// Text is put behind the text that is there, in its style.
pub proof fn law_text_is_put_behind(spans: Seq<SpanView>, content: Seq<char>, style: Style)
    ensures
        joined(contents(with_text(spans, content, style))) == joined(contents(spans)) + content,
        with_text(spans, content, style).last().style == style,
        content.is_suffix_of(with_text(spans, content, style).last().content),
{
    let after = with_text(spans, content, style);
    if spans.len() > 0 && spans.last().style == style {
        let before = contents(spans.drop_last());
        assert(contents(spans) =~= before.push(spans.last().content));
        assert(contents(after) =~= before.push(spans.last().content + content));
        lemma_joined_push(before, spans.last().content);
        lemma_joined_push(before, spans.last().content + content);
        assert(joined(contents(after)) =~= joined(contents(spans)) + content);
        let last = spans.last().content + content;
        assert(last.subrange(last.len() - content.len(), last.len() as int) =~= content);
    } else {
        assert(contents(after) =~= contents(spans).push(content));
        lemma_joined_push(contents(spans), content);
        assert(content.subrange(0, content.len() as int) =~= content);
    }
}

/// Styling pieces again keeps their text.
pub proof fn law_styling_keeps_the_text(line: LineView, pieces: Seq<Seq<char>>)
    ensures
        joined(contents(restyled(line, pieces))) == joined(pieces),
    decreases pieces.len(),
{
    if pieces.len() > 0 {
        let shorter = pieces.drop_last();
        law_styling_keeps_the_text(line, shorter);
        law_text_is_put_behind(
            restyled(line, shorter),
            pieces.last(),
            crate::ui::cells::style_at(line, joined(shorter).len() as int),
        );
        assert(shorter.push(pieces.last()) =~= pieces);
        lemma_joined_push(shorter, pieces.last());
    }
}

} // verus!
