//! Text in terminal cells: how wide it is, and how it is cut to fit. Whatever
//! the length of a text, only a bounded part of it is looked at.

use ratatui::buffer::CellWidth;
use unicode_segmentation::UnicodeSegmentation;
use vstd::prelude::*;
use vstd::string::*;

use crate::domain::texts;
use crate::text::{
    byte_len, byte_prefix, cap_bytes, contains_control, has_control, join_first, joined,
    lemma_utf8_len_bounds, lemma_utf8_len_concat, utf8_len,
};
use crate::ui::layout::{floored_difference, least};
use crate::ui::line::{
    contents, span_views, styled_span, text_of_line, Line, LineView, Span, SpanView,
};
use crate::ui::theme::Style;

verus! {

/// The most bytes of one text that are looked at.
pub const CLIP_BYTE_INSPECTION_BUDGET: usize = 65_536;

/// The most extended grapheme clusters of one text that are looked at.
pub const CLIP_GRAPHEME_INSPECTION_BUDGET: usize = 4_096;

/// The most spans of one line that are looked at.
pub const CLIP_SPAN_INSPECTION_BUDGET: usize = 4_096;

/// The extended grapheme clusters of a text, as the Unicode tables of
/// `unicode_segmentation` give them.
pub uninterp spec fn graphemes(text: Seq<char>) -> Seq<Seq<char>>;

/// `UnicodeSegmentation::graphemes` with extended clusters: it parts the text
/// into pieces that are not empty and that make up the text. Whether a cluster
/// ends somewhere is decided by the characters before that place and the one right
/// behind it, and the end of a text ends a cluster; so the first pieces, taken as a
/// text of their own, are parted as they are.
#[verifier::external_body]
pub(crate) fn split_graphemes(text: &str) -> (pieces: Vec<String>)
    ensures
        texts(pieces@) == graphemes(text@),
        joined(texts(pieces@)) == text@,
        forall|index: int| 0 <= index < pieces@.len() ==> (#[trigger] pieces@[index])@.len() > 0,
        forall|count: int|
            0 <= count <= pieces@.len() ==> graphemes(
                joined(#[trigger] texts(pieces@).take(count)),
            ) == texts(pieces@).take(count),
{
    UnicodeSegmentation::graphemes(text, true).map(str::to_owned).collect()
}

/// The columns that a text of no or of several bytes takes in a terminal, as
/// `ratatui` measures it.
pub uninterp spec fn measured_width(text: Seq<char>) -> u16;

/// `CellWidth::cell_width` of a string slice. A single byte is left out: with
/// debug assertions the outside function panics on a control byte.
#[verifier::external_body]
fn measure(text: &str) -> (width: u16)
    requires
        utf8_len(text@) != 1,
    ensures
        width == measured_width(text@),
{
    CellWidth::cell_width(text)
}

/// The columns that a text takes. A single byte takes one.
pub open spec fn cells(text: Seq<char>) -> int {
    if utf8_len(text) == 1 {
        1
    } else {
        measured_width(text) as int
    }
}

/// The columns that a text takes.
pub fn cell_width(text: &str) -> (width: u16)
    ensures
        width == cells(text@),
{
    if byte_len(text) == 1 {
        1
    } else {
        measure(text)
    }
}

/// The columns that a cluster takes: none, when it holds a control character.
pub open spec fn piece_width(piece: Seq<char>) -> int {
    if has_control(piece) {
        0
    } else {
        cells(piece)
    }
}

/// The columns that clusters take together.
pub open spec fn total_width(pieces: Seq<Seq<char>>) -> int
    decreases pieces.len(),
{
    if pieces.len() == 0 {
        0
    } else {
        total_width(pieces.drop_last()) + piece_width(pieces.last())
    }
}

/// How many clusters fit into `limit` columns, counted from the first on.
pub open spec fn fitting(pieces: Seq<Seq<char>>, limit: int) -> nat
    decreases pieces.len(),
{
    if pieces.len() == 0 || total_width(pieces) <= limit {
        pieces.len()
    } else {
        fitting(pieces.drop_last(), limit)
    }
}

/// How many clusters of `text` are kept in front of an ellipsis, or `None` when
/// the whole text fits. `cut` tells that the text is only the beginning of a
/// longer one, whose last cluster may not be whole.
pub open spec fn kept_pieces(text: Seq<char>, max_width: nat, cut: bool) -> Option<nat> {
    let pieces = graphemes(text);
    let seen = pieces.take(
        least(pieces.len() as int, CLIP_GRAPHEME_INSPECTION_BUDGET as int),
    );
    let content_width = floored_difference(max_width as int, cells("…"@));
    if text.len() == 0 {
        if cut {
            Some(0)
        } else {
            None
        }
    } else if max_width == 0 {
        Some(0)
    } else if total_width(seen) > max_width || seen.len() < pieces.len() {
        Some(fitting(seen, content_width))
    } else if cut {
        Some(fitting(pieces.drop_last(), content_width))
    } else {
        None
    }
}

/// `text` cut to `max_width` columns, with an ellipsis where something is
/// missing.
pub open spec fn truncated(text: Seq<char>, max_width: nat) -> Seq<char> {
    let prefix = byte_prefix(text, CLIP_BYTE_INSPECTION_BUDGET as nat);
    if max_width == 0 {
        Seq::empty()
    } else {
        match kept_pieces(prefix, max_width, prefix != text) {
            Some(kept) => joined(graphemes(prefix).take(kept as int)) + "…"@,
            None => text,
        }
    }
}

proof fn lemma_piece_width(piece: Seq<char>)
    ensures
        0 <= piece_width(piece) <= u16::MAX,
{
}

proof fn lemma_total_width_grows(pieces: Seq<Seq<char>>, count: int)
    requires
        0 <= count <= pieces.len(),
    ensures
        total_width(pieces.take(count)) <= total_width(pieces),
    decreases pieces.len(),
{
    if count == pieces.len() {
        assert(pieces.take(count) =~= pieces);
    } else {
        lemma_total_width_grows(pieces.drop_last(), count);
        assert(pieces.drop_last().take(count) =~= pieces.take(count));
        lemma_piece_width(pieces.last());
    }
}

proof fn lemma_fitting(pieces: Seq<Seq<char>>, limit: int)
    requires
        limit >= 0,
    ensures
        fitting(pieces, limit) <= pieces.len(),
        total_width(pieces.take(fitting(pieces, limit) as int)) <= limit,
    decreases pieces.len(),
{
    if pieces.len() == 0 || total_width(pieces) <= limit {
        assert(pieces.take(pieces.len() as int) =~= pieces);
    } else {
        lemma_fitting(pieces.drop_last(), limit);
        let count = fitting(pieces.drop_last(), limit) as int;
        assert(pieces.drop_last().take(count) =~= pieces.take(count));
    }
}

/// Clusters after the first that no longer fits do not count.
proof fn lemma_fitting_stops(pieces: Seq<Seq<char>>, count: int, limit: int)
    requires
        0 <= count < pieces.len(),
        total_width(pieces.take(count + 1)) > limit,
    ensures
        fitting(pieces, limit) == fitting(pieces.take(count), limit),
    decreases pieces.len(),
{
    lemma_total_width_grows(pieces, count + 1);
    if count == pieces.len() - 1 {
        assert(pieces.drop_last() =~= pieces.take(count));
    } else {
        assert(pieces.drop_last().take(count + 1) =~= pieces.take(count + 1));
        assert(pieces.drop_last().take(count) =~= pieces.take(count));
        lemma_fitting_stops(pieces.drop_last(), count, limit);
    }
}

fn width_of_piece(piece: &str) -> (width: u16)
    ensures
        width == piece_width(piece@),
{
    if contains_control(piece) {
        0
    } else {
        cell_width(piece)
    }
}

/// How many clusters of a text are kept in front of an ellipsis, or `None` when
/// the whole text fits.
fn truncation_boundary(text: &str, pieces: &Vec<String>, max_width: usize, cut: bool) -> (kept:
    Option<usize>)
    requires
        texts(pieces@) == graphemes(text@),
        joined(texts(pieces@)) == text@,
    ensures
        match kept {
            Some(kept) => {
                &&& kept_pieces(text@, max_width as nat, cut) == Some(kept as nat)
                &&& kept <= pieces.len()
            },
            None => kept_pieces(text@, max_width as nat, cut) is None,
        },
{
    let ghost all = texts(pieces@);
    proof {
        lemma_utf8_len_bounds(text@);
    }
    if byte_len(text) == 0 {
        return if cut {
            Some(0)
        } else {
            None
        };
    }
    if max_width == 0 {
        return Some(0);
    }
    let ellipsis: usize = cell_width("…") as usize;
    let content_width: usize = max_width.saturating_sub(ellipsis);
    let seen: usize = if pieces.len() < CLIP_GRAPHEME_INSPECTION_BUDGET {
        pieces.len()
    } else {
        CLIP_GRAPHEME_INSPECTION_BUDGET
    };
    let mut index: usize = 0;
    let mut width: usize = 0;
    let mut kept: usize = 0;
    let mut kept_before_last: usize = 0;
    assert(all.take(0) =~= Seq::<Seq<char>>::empty());
    while index < seen
        invariant
            all == texts(pieces@),
            all == graphemes(text@),
            text@.len() > 0,
            max_width > 0,
            seen == least(pieces.len() as int, CLIP_GRAPHEME_INSPECTION_BUDGET as int),
            content_width == floored_difference(max_width as int, cells("…"@)),
            content_width <= max_width,
            index <= seen <= pieces.len(),
            width == total_width(all.take(index as int)),
            width <= index * 65_535,
            width <= max_width,
            kept == fitting(all.take(index as int), content_width as int),
            kept <= index,
            index > 0 ==> kept_before_last == fitting(
                all.take(index - 1),
                content_width as int,
            ),
            kept_before_last <= index,
        decreases seen - index,
    {
        let piece_columns: usize = width_of_piece(pieces[index].as_str()) as usize;
        let next_width: usize = width + piece_columns;
        proof {
            let longer = all.take(index + 1);
            assert(longer.drop_last() =~= all.take(index as int));
            assert(longer.last() == pieces@[index as int]@);
            assert(total_width(longer) == next_width);
        }
        if next_width > max_width {
            proof {
                let inspected = all.take(seen as int);
                assert(inspected.take(index + 1) =~= all.take(index + 1));
                assert(inspected.take(index as int) =~= all.take(index as int));
                lemma_fitting_stops(inspected, index as int, content_width as int);
                lemma_total_width_grows(inspected, index + 1);
            }
            return Some(kept);
        }
        kept_before_last = kept;
        width = next_width;
        index = index + 1;
        if width <= content_width {
            kept = index;
        }
    }
    if seen < pieces.len() {
        return Some(kept);
    }
    assert(all.take(seen as int) =~= all);
    if cut {
        assert(pieces.len() > 0);
        assert(all.drop_last() =~= all.take(seen - 1));
        return Some(kept_before_last);
    }
    None
}

/// `input` cut to `max_width` columns.
pub fn truncate_cells(input: &str, max_width: usize) -> (result: String)
    ensures
        result@ == truncated(input@, max_width as nat),
{
    if max_width == 0 {
        return String::new();
    }
    let (prefix, cut) = cap_bytes(input, CLIP_BYTE_INSPECTION_BUDGET);
    let pieces = split_graphemes(prefix.as_str());
    match truncation_boundary(prefix.as_str(), &pieces, max_width, cut) {
        Some(kept) => {
            let mut result = join_first(&pieces, kept);
            result.append("…");
            result
        },
        None => input.to_owned(),
    }
}

/// The beginning of `text` within both budgets, and whether something is
/// missing. A cluster that may not be whole is left out.
pub open spec fn grapheme_prefix(text: Seq<char>, byte_budget: nat, grapheme_budget: nat) -> (
    Seq<char>,
    bool,
) {
    let capped = byte_prefix(text, byte_budget);
    let pieces = graphemes(capped);
    if grapheme_budget == 0 {
        (Seq::empty(), text.len() > 0)
    } else if pieces.len() > grapheme_budget {
        (joined(pieces.take(grapheme_budget as int)), true)
    } else if capped != text {
        (joined(pieces.take(floored_difference(pieces.len() as int, 1))), true)
    } else {
        (text, false)
    }
}

/// The beginning of `input` within both budgets, and whether something is
/// missing.
pub fn bounded_grapheme_prefix(input: &str, byte_budget: usize, grapheme_budget: usize) -> (result:
    (String, bool))
    ensures
        result.0@ == grapheme_prefix(input@, byte_budget as nat, grapheme_budget as nat).0,
        result.1 == grapheme_prefix(input@, byte_budget as nat, grapheme_budget as nat).1,
{
    if grapheme_budget == 0 {
        proof {
            lemma_utf8_len_bounds(input@);
        }
        return (String::new(), byte_len(input) > 0);
    }
    let (capped, cut) = cap_bytes(input, byte_budget);
    let pieces = split_graphemes(capped.as_str());
    if pieces.len() > grapheme_budget {
        return (join_first(&pieces, grapheme_budget), true);
    }
    if cut {
        return (join_first(&pieces, pieces.len().saturating_sub(1)), true);
    }
    (capped, false)
}

/// The clusters that can be shown: those without control characters.
pub open spec fn showable(pieces: Seq<Seq<char>>) -> Seq<Seq<char>>
    decreases pieces.len(),
{
    if pieces.len() == 0 {
        Seq::empty()
    } else if has_control(pieces.last()) {
        showable(pieces.drop_last())
    } else {
        showable(pieces.drop_last()).push(pieces.last())
    }
}

/// The clusters of `text` that are looked at.
pub open spec fn inspected(text: Seq<char>) -> Seq<Seq<char>> {
    graphemes(text).take(
        least(graphemes(text).len() as int, CLIP_GRAPHEME_INSPECTION_BUDGET as int),
    )
}

/// The columns that the first cluster takes that can be shown.
pub open spec fn first_width(text: Seq<char>) -> int {
    let shown = showable(inspected(text));
    if shown.len() == 0 {
        0
    } else {
        cells(shown[0])
    }
}

/// As many clusters of `text` as fit into `max_width` columns, without those
/// that cannot be shown.
pub open spec fn prefix_in_cells(text: Seq<char>, max_width: nat) -> Seq<char> {
    let shown = showable(inspected(text));
    if max_width == 0 {
        Seq::empty()
    } else {
        joined(shown.take(fitting(shown, max_width as int) as int))
    }
}

proof fn lemma_showable(pieces: Seq<Seq<char>>)
    ensures
        forall|index: int|
            0 <= index < showable(pieces).len() ==> !has_control(
                #[trigger] showable(pieces)[index],
            ),
        showable(pieces).len() <= pieces.len(),
    decreases pieces.len(),
{
    if pieces.len() > 0 {
        lemma_showable(pieces.drop_last());
    }
}

proof fn lemma_showable_prefix(pieces: Seq<Seq<char>>, count: int)
    requires
        0 <= count <= pieces.len(),
    ensures
        showable(pieces.take(count)).len() <= showable(pieces).len(),
        showable(pieces.take(count)) == showable(pieces).take(
            showable(pieces.take(count)).len() as int,
        ),
    decreases pieces.len(),
{
    if count == pieces.len() {
        assert(pieces.take(count) =~= pieces);
        assert(showable(pieces).take(showable(pieces).len() as int) =~= showable(pieces));
    } else {
        lemma_showable_prefix(pieces.drop_last(), count);
        assert(pieces.drop_last().take(count) =~= pieces.take(count));
        let shown = showable(pieces.take(count)).len() as int;
        assert(showable(pieces).take(shown) =~= showable(pieces.drop_last()).take(shown));
    }
}

/// How many clusters of a text are looked at.
fn inspected_count(pieces: &Vec<String>) -> (count: usize)
    ensures
        count == least(pieces@.len() as int, CLIP_GRAPHEME_INSPECTION_BUDGET as int),
{
    if pieces.len() < CLIP_GRAPHEME_INSPECTION_BUDGET {
        pieces.len()
    } else {
        CLIP_GRAPHEME_INSPECTION_BUDGET
    }
}

/// The columns that the first cluster takes that can be shown.
pub fn first_grapheme_width(value: &str) -> (width: usize)
    ensures
        width == first_width(value@),
{
    let pieces = split_graphemes(value);
    let count: usize = inspected_count(&pieces);
    let ghost all = texts(pieces@);
    let mut index: usize = 0;
    assert(all.take(0) =~= Seq::<Seq<char>>::empty());
    while index < count
        invariant
            all == texts(pieces@),
            all == graphemes(value@),
            count == least(pieces@.len() as int, CLIP_GRAPHEME_INSPECTION_BUDGET as int),
            index <= count <= pieces.len(),
            showable(all.take(index as int)).len() == 0,
        decreases count - index,
    {
        let piece = &pieces[index];
        proof {
            assert(all.take(index + 1).drop_last() =~= all.take(index as int));
            assert(all.take(index + 1).last() == pieces@[index as int]@);
        }
        if !contains_control(piece.as_str()) {
            proof {
                let seen = all.take(count as int);
                assert(seen.take(index + 1) =~= all.take(index + 1));
                lemma_showable_prefix(seen, index + 1);
                assert(showable(all.take(index + 1)) =~= seq![piece@]);
                assert(showable(seen).take(1)[0] == piece@);
            }
            return cell_width(piece.as_str()) as usize;
        }
        index = index + 1;
    }
    0
}

/// As many clusters of `value` as fit into `max_width` columns, without those
/// that cannot be shown.
pub fn cell_prefix(value: &str, max_width: usize) -> (prefix: String)
    ensures
        prefix@ == prefix_in_cells(value@, max_width as nat),
{
    if max_width == 0 {
        return String::new();
    }
    let pieces = split_graphemes(value);
    let count: usize = inspected_count(&pieces);
    let ghost all = texts(pieces@);
    let ghost seen = all.take(count as int);
    let mut prefix = String::new();
    let mut width: usize = 0;
    let mut index: usize = 0;
    assert(seen.take(0) =~= Seq::<Seq<char>>::empty());
    while index < count
        invariant
            all == texts(pieces@),
            all == graphemes(value@),
            seen == all.take(count as int),
            count == least(pieces@.len() as int, CLIP_GRAPHEME_INSPECTION_BUDGET as int),
            index <= count <= pieces.len(),
            max_width > 0,
            width == total_width(showable(seen.take(index as int))),
            width <= max_width,
            width <= index * 65_535,
            prefix@ == joined(showable(seen.take(index as int))),
        decreases count - index,
    {
        let piece = &pieces[index];
        let ghost before = showable(seen.take(index as int));
        let ghost after = showable(seen.take(index + 1));
        proof {
            assert(seen.take(index + 1).drop_last() =~= seen.take(index as int));
            assert(seen.take(index + 1).last() == piece@);
        }
        if contains_control(piece.as_str()) {
            index = index + 1;
            continue;
        }
        let piece_columns: usize = cell_width(piece.as_str()) as usize;
        assert(after.drop_last() =~= before);
        if width + piece_columns > max_width {
            proof {
                let shown = showable(seen);
                lemma_showable_prefix(seen, index + 1);
                lemma_showable_prefix(seen, index as int);
                assert(shown.take(before.len() as int + 1) =~= after);
                assert(shown.take(before.len() as int) =~= before);
                lemma_fitting_stops(shown, before.len() as int, max_width as int);
                assert(fitting(before, max_width as int) == before.len());
            }
            return prefix;
        }
        prefix.append(piece.as_str());
        width = width + piece_columns;
        index = index + 1;
    }
    proof {
        assert(seen.take(count as int) =~= seen);
        let shown = showable(seen);
        assert(fitting(shown, max_width as int) == shown.len());
        assert(shown.take(shown.len() as int) =~= shown);
    }
    prefix
}

/// The spans of a line that are looked at.
pub open spec fn inspected_spans(line: LineView) -> Seq<SpanView> {
    line.spans.take(least(line.spans.len() as int, CLIP_SPAN_INSPECTION_BUDGET as int))
}

/// The part of a line's text that is looked at.
pub open spec fn inspected_text(line: LineView) -> Seq<char> {
    byte_prefix(joined(contents(inspected_spans(line))), CLIP_BYTE_INSPECTION_BUDGET as nat)
}

/// Whether a line has more text than is looked at, or may have: spans that
/// follow after the last byte of the budget are not looked at.
pub open spec fn line_is_cut(line: LineView) -> bool {
    let spans = line.spans;
    ||| spans.len() > CLIP_SPAN_INSPECTION_BUDGET
    ||| utf8_len(joined(contents(inspected_spans(line)))) > CLIP_BYTE_INSPECTION_BUDGET
    ||| spans.len() > 0 && utf8_len(joined(contents(spans.drop_last())))
        == CLIP_BYTE_INSPECTION_BUDGET
}

/// The style at the character `offset` of spans; past their end, that of the
/// last, or `fallback` when there is none.
pub open spec fn style_in(spans: Seq<SpanView>, offset: int, fallback: Style) -> Style
    decreases spans.len(),
{
    if spans.len() == 0 {
        fallback
    } else if offset < spans[0].content.len() {
        spans[0].style
    } else {
        style_in(spans.skip(1), offset - spans[0].content.len(), spans[0].style)
    }
}

/// The style at the character `offset` of a line.
pub open spec fn style_at(line: LineView, offset: int) -> Style {
    style_in(inspected_spans(line), offset, line.style)
}

/// Spans with one more text, which joins the last span where the style is the
/// same.
pub open spec fn with_text(spans: Seq<SpanView>, content: Seq<char>, style: Style) -> Seq<
    SpanView,
> {
    if spans.len() > 0 && spans.last().style == style {
        spans.drop_last().push(styled_span(spans.last().content + content, style))
    } else {
        spans.push(styled_span(content, style))
    }
}

/// The spans of clusters from the beginning of a line, each in the style of its
/// first character.
pub open spec fn restyled(line: LineView, pieces: Seq<Seq<char>>) -> Seq<SpanView>
    decreases pieces.len(),
{
    if pieces.len() == 0 {
        Seq::empty()
    } else {
        with_text(
            restyled(line, pieces.drop_last()),
            pieces.last(),
            style_at(line, joined(pieces.drop_last()).len() as int),
        )
    }
}

/// The text that is kept of a line which is cut to `max_width` columns.
pub open spec fn retained_text(line: LineView, max_width: nat) -> Seq<char> {
    let text = inspected_text(line);
    match kept_pieces(text, max_width, line_is_cut(line)) {
        Some(kept) => joined(graphemes(text).take(kept as int)),
        None => text,
    }
}

/// A line cut to `max_width` columns, with an ellipsis where something is
/// missing.
pub open spec fn clipped(line: LineView, max_width: nat) -> LineView {
    let kept = kept_pieces(inspected_text(line), max_width, line_is_cut(line));
    let retained = retained_text(line, max_width);
    let spans = restyled(line, inspected(retained));
    LineView {
        spans: if kept is Some && max_width > 0 {
            with_text(spans, "…"@, style_at(line, retained.len() as int))
        } else {
            spans
        },
        ..line
    }
}

/// Pieces up to a place and pieces from there on make up the whole.
pub proof fn lemma_joined_parts(pieces: Seq<Seq<char>>, count: int)
    requires
        0 <= count <= pieces.len(),
    ensures
        joined(pieces) == joined(pieces.take(count)) + joined(pieces.skip(count)),
    decreases pieces.len(),
{
    if count == pieces.len() {
        assert(pieces.take(count) =~= pieces);
        assert(pieces.skip(count) =~= Seq::<Seq<char>>::empty());
        assert(joined(pieces) =~= joined(pieces.take(count)) + joined(pieces.skip(count)));
    } else {
        lemma_joined_parts(pieces.drop_last(), count);
        assert(pieces.drop_last().take(count) =~= pieces.take(count));
        assert(pieces.drop_last().skip(count) =~= pieces.skip(count).drop_last());
        assert(joined(pieces) =~= joined(pieces.take(count)) + joined(pieces.skip(count)));
    }
}

/// The longest beginning that fits is followed by a character that does not.
proof fn lemma_byte_prefix_is_longest(text: Seq<char>, budget: nat)
    requires
        utf8_len(text) > budget,
    ensures
        byte_prefix(text, budget).len() < text.len(),
        byte_prefix(text, budget) == text.take(byte_prefix(text, budget).len() as int),
        utf8_len(byte_prefix(text, budget)) <= budget,
        utf8_len(text.take(byte_prefix(text, budget).len() as int + 1)) > budget,
    decreases text.len(),
{
    lemma_utf8_len_bounds(text);
    let shorter = text.drop_last();
    if utf8_len(shorter) <= budget {
        assert(byte_prefix(shorter, budget) == shorter);
        assert(text.take(shorter.len() as int) =~= shorter);
        assert(text.take(shorter.len() as int + 1) =~= text);
    } else {
        lemma_byte_prefix_is_longest(shorter, budget);
        let count = byte_prefix(shorter, budget).len() as int;
        assert(shorter.take(count) =~= text.take(count));
        assert(shorter.take(count + 1) =~= text.take(count + 1));
    }
}

/// The longest beginning of three texts in a row, where the second is the one
/// that no longer fits.
proof fn lemma_byte_prefix_within(
    first: Seq<char>,
    second: Seq<char>,
    third: Seq<char>,
    budget: nat,
)
    requires
        utf8_len(first) <= budget,
        utf8_len(first) + utf8_len(second) > budget,
    ensures
        byte_prefix(first + second + third, budget) == first + byte_prefix(
            second,
            (budget - utf8_len(first)) as nat,
        ),
        utf8_len(first + second + third) > budget,
{
    let rest = (budget - utf8_len(first)) as nat;
    let whole = first + second + third;
    lemma_byte_prefix_is_longest(second, rest);
    let part = byte_prefix(second, rest);
    let count = (first.len() + part.len()) as int;
    assert(whole.take(count) =~= first + part);
    lemma_utf8_len_concat(first, part);
    let longer = second.take(part.len() as int + 1);
    assert(whole.take(count + 1) =~= first + longer);
    lemma_utf8_len_concat(first, longer);
    crate::text::lemma_byte_prefix(whole, budget, count);
    lemma_utf8_len_concat(first + second, third);
    lemma_utf8_len_concat(first, second);
}

/// A beginning that takes the whole budget is the longest that fits.
proof fn lemma_byte_prefix_exact(first: Seq<char>, second: Seq<char>, budget: nat)
    requires
        utf8_len(first) == budget,
    ensures
        byte_prefix(first + second, budget) == first,
{
    lemma_utf8_len_bounds(second);
    if second.len() == 0 {
        assert(first + second =~= first);
    } else {
        lemma_byte_prefix_within(first, second, Seq::empty(), budget);
        assert(first + second + Seq::<char>::empty() =~= first + second);
        lemma_byte_prefix_is_longest(second, 0);
        lemma_utf8_len_bounds(byte_prefix(second, 0));
        assert(first + byte_prefix(second, 0) =~= first);
    }
}

proof fn lemma_contents_take(spans: Seq<SpanView>, count: int)
    requires
        0 <= count <= spans.len(),
    ensures
        contents(spans.take(count)) == contents(spans).take(count),
{
    assert(contents(spans.take(count)) =~= contents(spans).take(count));
}

proof fn lemma_joined_take_grows(pieces: Seq<Seq<char>>, count: int)
    requires
        0 <= count <= pieces.len(),
    ensures
        utf8_len(joined(pieces.take(count))) <= utf8_len(joined(pieces)),
{
    lemma_joined_parts(pieces, count);
    lemma_utf8_len_concat(joined(pieces.take(count)), joined(pieces.skip(count)));
}

/// The part of a line's text that is looked at, and whether there is or may be
/// more.
fn capped_line_text(line: &Line) -> (result: (String, bool))
    ensures
        result.0@ == inspected_text(line@),
        result.1 == line_is_cut(line@),
{
    let ghost spans = line@.spans;
    let ghost all = contents(spans);
    let count: usize = if line.spans.len() < CLIP_SPAN_INSPECTION_BUDGET {
        line.spans.len()
    } else {
        CLIP_SPAN_INSPECTION_BUDGET
    };
    let ghost seen = all.take(count as int);
    proof {
        lemma_contents_take(spans, count as int);
        assert(all.take(0) =~= Seq::<Seq<char>>::empty());
        lemma_utf8_len_bounds(Seq::<char>::empty());
    }
    let mut logical = String::new();
    let mut used: usize = 0;
    let mut index: usize = 0;
    while index < count
        invariant
            spans == line@.spans,
            all == contents(spans),
            count == least(spans.len() as int, CLIP_SPAN_INSPECTION_BUDGET as int),
            count == least(line.spans.len() as int, CLIP_SPAN_INSPECTION_BUDGET as int),
            seen == all.take(count as int),
            seen == contents(inspected_spans(line@)),
            index <= count,
            logical@ == joined(all.take(index as int)),
            used == utf8_len(logical@),
            used <= CLIP_BYTE_INSPECTION_BUDGET,
            index < spans.len() ==> used < CLIP_BYTE_INSPECTION_BUDGET,
            index > 0 ==> utf8_len(joined(all.take(index - 1))) < CLIP_BYTE_INSPECTION_BUDGET,
        decreases count - index,
    {
        let content = &line.spans[index].content;
        let size: usize = byte_len(content.as_str());
        let remaining: usize = CLIP_BYTE_INSPECTION_BUDGET - used;
        proof {
            assert(all.take(index + 1).drop_last() =~= all.take(index as int));
            assert(all[index as int] == content@);
            assert(seen.take(index + 1) =~= all.take(index + 1));
            lemma_joined_parts(seen, index + 1);
            lemma_utf8_len_concat(logical@, content@);
        }
        if size > remaining {
            proof {
                lemma_byte_prefix_within(
                    logical@,
                    content@,
                    joined(seen.skip(index + 1)),
                    CLIP_BYTE_INSPECTION_BUDGET as nat,
                );
            }
            let (part, _cut) = cap_bytes(content.as_str(), remaining);
            logical.append(part.as_str());
            return (logical, true);
        }
        let ghost before = logical@;
        logical.append(content.as_str());
        used = used + size;
        index = index + 1;
        if used == CLIP_BYTE_INSPECTION_BUDGET && index < line.spans.len() {
            proof {
                lemma_byte_prefix_exact(
                    logical@,
                    joined(seen.skip(index as int)),
                    CLIP_BYTE_INSPECTION_BUDGET as nat,
                );
                if spans.len() <= CLIP_SPAN_INSPECTION_BUDGET {
                    assert(seen =~= all);
                    lemma_contents_take(spans, spans.len() - 1);
                    assert(spans.drop_last() =~= spans.take(spans.len() - 1));
                    let without_last = all.take(spans.len() - 1);
                    assert(without_last.take(index as int) =~= all.take(index as int));
                    lemma_joined_take_grows(without_last, index as int);
                    lemma_joined_take_grows(all, spans.len() - 1);
                }
            }
            return (logical, true);
        }
    }
    proof {
        assert(seen.take(count as int) =~= seen);
        assert(joined(seen) == logical@);
        assert(byte_prefix(logical@, CLIP_BYTE_INSPECTION_BUDGET as nat) == logical@);
        if spans.len() <= CLIP_SPAN_INSPECTION_BUDGET && spans.len() > 0 {
            lemma_contents_take(spans, spans.len() - 1);
            assert(spans.drop_last() =~= spans.take(spans.len() - 1));
        }
    }
    (logical, line.spans.len() > CLIP_SPAN_INSPECTION_BUDGET)
}

/// The style at the character `target` of a line.
fn style_at_offset(line: &Line, target: usize) -> (style: Style)
    ensures
        style == style_at(line@, target as int),
{
    let ghost spans = inspected_spans(line@);
    let mut fallback = line.style;
    let mut left: usize = target;
    let mut index: usize = 0;
    assert(spans.skip(0) =~= spans);
    while index < line.spans.len() && index < CLIP_SPAN_INSPECTION_BUDGET
        invariant
            spans == inspected_spans(line@),
            index <= spans.len(),
            spans.len() == least(line.spans.len() as int, CLIP_SPAN_INSPECTION_BUDGET as int),
            style_at(line@, target as int) == style_in(
                spans.skip(index as int),
                left as int,
                fallback,
            ),
        decreases line.spans.len() - index,
    {
        let span = &line.spans[index];
        let size: usize = char_count(span.content.as_str());
        assert(spans.skip(index as int)[0] == span@);
        assert(spans.skip(index as int).skip(1) =~= spans.skip(index + 1));
        if left < size {
            return span.style;
        }
        fallback = span.style;
        left = left - size;
        index = index + 1;
    }
    assert(spans.skip(index as int) =~= Seq::<SpanView>::empty());
    fallback
}

/// How many characters a text has.
fn char_count(text: &str) -> (count: usize)
    ensures
        count == text@.len(),
{
    crate::text::chars_of(text).len()
}

/// Adds a text, which joins the last span where the style is the same.
fn push_styled_text(spans: &mut Vec<Span>, content: &str, style: Style)
    ensures
        span_views(final(spans)@) == with_text(span_views(old(spans)@), content@, style),
{
    let ghost before = span_views(spans@);
    match spans.pop() {
        Some(previous) => {
            assert(before.last() == previous@);
            assert(span_views(spans@) =~= before.drop_last());
            if previous.style == style {
                let mut joint = previous.content;
                joint.append(content);
                spans.push(Span::styled(joint, style));
                assert(span_views(spans@) =~= with_text(before, content@, style));
            } else {
                spans.push(previous);
                spans.push(Span::styled(content.to_owned(), style));
                assert(span_views(spans@) =~= with_text(before, content@, style));
            }
        },
        None => {
            spans.push(Span::styled(content.to_owned(), style));
            assert(span_views(spans@) =~= with_text(before, content@, style));
        },
    }
}

/// The spans of a text from the beginning of a line, each cluster in the style
/// of its first character.
fn normalized_spans(line: &Line, logical: &str) -> (spans: Vec<Span>)
    ensures
        span_views(spans@) == restyled(line@, inspected(logical@)),
{
    let pieces = split_graphemes(logical);
    let count: usize = inspected_count(&pieces);
    let total: usize = char_count(logical);
    let ghost seen = inspected(logical@);
    let mut spans: Vec<Span> = Vec::new();
    let mut offset: usize = 0;
    let mut index: usize = 0;
    proof {
        assert(seen.take(0) =~= Seq::<Seq<char>>::empty());
        assert(span_views(spans@) =~= Seq::<SpanView>::empty());
    }
    while index < count
        invariant
            texts(pieces@) == graphemes(logical@),
            joined(texts(pieces@)) == logical@,
            logical@.len() == total,
            seen == inspected(logical@),
            count == seen.len(),
            count <= pieces.len(),
            index <= count,
            offset == joined(seen.take(index as int)).len(),
            span_views(spans@) == restyled(line@, seen.take(index as int)),
        decreases count - index,
    {
        let piece = &pieces[index];
        proof {
            assert(seen.take(index + 1).drop_last() =~= seen.take(index as int));
            assert(seen.take(index + 1).last() == piece@);
            assert(seen.take(index + 1) =~= texts(pieces@).take(index + 1));
            lemma_joined_parts(texts(pieces@), index + 1);
        }
        let style = style_at_offset(line, offset);
        push_styled_text(&mut spans, piece.as_str(), style);
        offset = offset + char_count(piece.as_str());
        index = index + 1;
    }
    assert(seen.take(count as int) =~= seen);
    spans
}

/// Whether all spans of a line are looked at, and none of its text is taken to be
/// missing where nothing is: that happens to a text that fits and takes the whole
/// budget of bytes before an empty last span.
pub open spec fn is_seen_whole(line: LineView, max_width: nat) -> bool {
    let text = text_of_line(line);
    &&& line.spans.len() <= CLIP_SPAN_INSPECTION_BUDGET
    &&& line.spans.len() > 0 && line.spans.last().content.len() == 0 && utf8_len(text)
        == CLIP_BYTE_INSPECTION_BUDGET ==> max_width == 0 || kept_pieces(
        text,
        max_width,
        false,
    ) is Some
}

proof fn lemma_joined_push(pieces: Seq<Seq<char>>, piece: Seq<char>)
    ensures
        joined(pieces.push(piece)) == joined(pieces) + piece,
{
    assert(pieces.push(piece).drop_last() =~= pieces);
}

proof fn lemma_with_text(spans: Seq<SpanView>, content: Seq<char>, style: Style)
    ensures
        joined(contents(with_text(spans, content, style))) == joined(contents(spans)) + content,
{
    if spans.len() > 0 && spans.last().style == style {
        let before = spans.drop_last();
        let grown = styled_span(spans.last().content + content, style);
        assert(contents(before.push(grown)) =~= contents(before).push(grown.content));
        assert(contents(spans) =~= contents(before).push(spans.last().content));
        lemma_joined_push(contents(before), grown.content);
        lemma_joined_push(contents(before), spans.last().content);
        assert(joined(contents(before)) + grown.content =~= joined(contents(spans)) + content);
    } else {
        let added = styled_span(content, style);
        assert(contents(spans.push(added)) =~= contents(spans).push(content));
        lemma_joined_push(contents(spans), content);
    }
}

proof fn lemma_restyled_text(line: LineView, pieces: Seq<Seq<char>>)
    ensures
        joined(contents(restyled(line, pieces))) == joined(pieces),
    decreases pieces.len(),
{
    if pieces.len() > 0 {
        let before = pieces.drop_last();
        lemma_restyled_text(line, before);
        lemma_with_text(
            restyled(line, before),
            pieces.last(),
            style_at(line, joined(before).len() as int),
        );
    } else {
        assert(contents(Seq::<SpanView>::empty()) =~= Seq::<Seq<char>>::empty());
    }
}

/// A text whose clusters are the first of another, and no more than are looked at,
/// is kept whole when it is styled.
proof fn lemma_retained_text(line: LineView, pieces: Seq<Seq<char>>, count: int)
    requires
        0 <= count <= pieces.len(),
        count <= CLIP_GRAPHEME_INSPECTION_BUDGET,
        graphemes(joined(pieces.take(count))) == pieces.take(count),
    ensures
        joined(contents(restyled(line, inspected(joined(pieces.take(count)))))) == joined(
            pieces.take(count),
        ),
{
    let kept = pieces.take(count);
    assert(kept.take(count) =~= kept);
    lemma_restyled_text(line, inspected(joined(kept)));
}

/// How many clusters are kept is bounded by how many are looked at.
proof fn lemma_kept_pieces(text: Seq<char>, max_width: nat, cut: bool)
    requires
        joined(graphemes(text)) == text,
    ensures
        kept_pieces(text, max_width, cut) matches Some(kept) ==> kept <= graphemes(text).len()
            && kept <= CLIP_GRAPHEME_INSPECTION_BUDGET,
        max_width > 0 && text.len() > 0 && kept_pieces(text, max_width, cut) is None
            ==> graphemes(text).len() <= CLIP_GRAPHEME_INSPECTION_BUDGET,
{
    let pieces = graphemes(text);
    let content_width = floored_difference(max_width as int, cells("…"@));
    let seen = pieces.take(least(pieces.len() as int, CLIP_GRAPHEME_INSPECTION_BUDGET as int));
    lemma_fitting(seen, content_width);
    if pieces.len() > 0 {
        lemma_fitting(pieces.drop_last(), content_width);
    }
}

proof fn lemma_byte_prefix_of_short(text: Seq<char>, budget: nat)
    ensures
        byte_prefix(text, budget) == text <==> utf8_len(text) <= budget,
{
    if utf8_len(text) > budget {
        lemma_byte_prefix_is_longest(text, budget);
    }
}

/// The text of a clipped line is the clipped text of the line.
proof fn lemma_clipped_text(line: LineView, max_width: nat)
    requires
        is_seen_whole(line, max_width),
        ({
            let pieces = graphemes(inspected_text(line));
            &&& joined(pieces) == inspected_text(line)
            &&& forall|count: int|
                0 <= count <= pieces.len() ==> graphemes(joined(#[trigger] pieces.take(count)))
                    == pieces.take(count)
        }),
    ensures
        text_of_line(clipped(line, max_width)) == truncated(text_of_line(line), max_width),
{
    let budget = CLIP_BYTE_INSPECTION_BUDGET as nat;
    let spans = line.spans;
    let text = text_of_line(line);
    let seen = inspected_text(line);
    let pieces = graphemes(seen);
    let cut = line_is_cut(line);
    assert(inspected_spans(line) =~= spans);
    lemma_byte_prefix_of_short(text, budget);
    lemma_utf8_len_bounds(text);
    assert(seen == byte_prefix(text, budget));
    if spans.len() > 0 {
        let before = contents(spans.drop_last());
        assert(contents(spans) =~= before.push(spans.last().content));
        lemma_joined_push(before, spans.last().content);
        lemma_utf8_len_concat(joined(before), spans.last().content);
        lemma_utf8_len_bounds(spans.last().content);
    }
    lemma_kept_pieces(seen, max_width, cut);
    if utf8_len(text) > budget {
        lemma_byte_prefix_is_longest(text, budget);
        lemma_utf8_len_bounds(text.take(seen.len() as int + 1));
    }
    let kept = kept_pieces(seen, max_width, cut);
    let count = match kept {
        Some(kept) => kept as int,
        None => pieces.len() as int,
    };
    assert(pieces.take(pieces.len() as int) =~= pieces);
    assert(pieces.take(0) =~= Seq::<Seq<char>>::empty());
    if seen.len() == 0 {
        assert(joined(pieces.take(0)) =~= seen);
        assert(pieces.len() == 0);
    }
    let retained = joined(pieces.take(count));
    lemma_retained_text(line, pieces, count);
    if kept is Some && max_width > 0 {
        lemma_with_text(
            restyled(line, inspected(retained)),
            "…"@,
            style_at(line, retained.len() as int),
        );
    }
}

/// Cuts a styled line to `max_width` columns, between clusters, and keeps the
/// styles. Its text is then that of a text which is cut.
pub fn clip_line(line: &Line, max_width: usize) -> (result: Line)
    ensures
        result@ == clipped(line@, max_width as nat),
        is_seen_whole(line@, max_width as nat) ==> text_of_line(result@) == truncated(
            text_of_line(line@),
            max_width as nat,
        ),
{
    let (logical, cut) = capped_line_text(line);
    let pieces = split_graphemes(logical.as_str());
    proof {
        if is_seen_whole(line@, max_width as nat) {
            lemma_clipped_text(line@, max_width as nat);
        }
    }
    let boundary = truncation_boundary(logical.as_str(), &pieces, max_width, cut);
    let retained = match boundary {
        Some(kept) => join_first(&pieces, kept),
        None => logical,
    };
    let mut spans = normalized_spans(line, retained.as_str());
    if boundary.is_some() && max_width > 0 {
        let style = style_at_offset(line, char_count(retained.as_str()));
        push_styled_text(&mut spans, "…", style);
    }
    Line { style: line.style, alignment: line.alignment, spans }
}

/// Lines cut to `width` columns each.
pub open spec fn clipped_lines(lines: Seq<LineView>, width: nat) -> Seq<LineView> {
    lines.map_values(|line: LineView| clipped(line, width))
}

/// Cuts each line to `width` columns.
pub fn clip_lines(lines: &Vec<Line>, width: usize) -> (result: Vec<Line>)
    ensures
        crate::ui::line::line_views(result@) == clipped_lines(
            crate::ui::line::line_views(lines@),
            width as nat,
        ),
{
    let mut result: Vec<Line> = Vec::new();
    let mut index: usize = 0;
    while index < lines.len()
        invariant
            index <= lines.len(),
            result.len() == index,
            forall|i: int|
                0 <= i < index ==> (#[trigger] result@[i])@ == clipped(lines@[i]@, width as nat),
        decreases lines.len() - index,
    {
        result.push(clip_line(&lines[index], width));
        index = index + 1;
    }
    assert(crate::ui::line::line_views(result@) =~= clipped_lines(
        crate::ui::line::line_views(lines@),
        width as nat,
    ));
    result
}

/// What is kept of a text that is cut leaves room for the ellipsis.
pub proof fn law_truncation_leaves_room(text: Seq<char>, max_width: nat, cut: bool)
    requires
        text.len() > 0,
        joined(graphemes(text)) == text,
        max_width > 0,
    ensures
        kept_pieces(text, max_width, cut) matches Some(kept) ==> {
            &&& kept <= graphemes(text).len()
            &&& total_width(graphemes(text).take(kept as int)) <= floored_difference(
                max_width as int,
                cells("…"@),
            )
        },
{
    let pieces = graphemes(text);
    let content_width = floored_difference(max_width as int, cells("…"@));
    let seen = pieces.take(least(pieces.len() as int, CLIP_GRAPHEME_INSPECTION_BUDGET as int));
    lemma_fitting(seen, content_width);
    let kept = fitting(seen, content_width) as int;
    assert(seen.take(kept) =~= pieces.take(kept));
    lemma_fitting(pieces.drop_last(), content_width);
    let kept_before = fitting(pieces.drop_last(), content_width) as int;
    assert(pieces.drop_last().take(kept_before) =~= pieces.take(kept_before));
}

/// A text within all budgets whose clusters fit is not changed.
pub proof fn law_fitting_text_is_kept(text: Seq<char>, max_width: nat)
    requires
        max_width > 0,
        utf8_len(text) <= CLIP_BYTE_INSPECTION_BUDGET,
        graphemes(text).len() <= CLIP_GRAPHEME_INSPECTION_BUDGET,
        total_width(graphemes(text)) <= max_width,
    ensures
        truncated(text, max_width) == text,
{
    assert(graphemes(text).take(graphemes(text).len() as int) =~= graphemes(text));
}

/// The clusters that a prefix in cells keeps fit into its width.
pub proof fn law_cell_prefix_fits(text: Seq<char>, max_width: nat)
    ensures
        ({
            let shown = showable(inspected(text));
            let kept = shown.take(fitting(shown, max_width as int) as int);
            &&& total_width(kept) <= max_width
            &&& forall|index: int| 0 <= index < kept.len() ==> !has_control(#[trigger] kept[index])
        }),
{
    let shown = showable(inspected(text));
    lemma_fitting(shown, max_width as int);
    lemma_showable(inspected(text));
}

/// The style at a place behind some spans is that of the span there.
proof fn lemma_style_behind(spans: Seq<SpanView>, more: SpanView, offset: int, fallback: Style)
    requires
        0 <= offset < joined(contents(spans)).len() + more.content.len(),
    ensures
        style_in(spans.push(more), offset, fallback) == if offset < joined(contents(spans)).len() {
            style_in(spans, offset, fallback)
        } else {
            more.style
        },
    decreases spans.len(),
{
    let all = spans.push(more);
    if spans.len() == 0 {
        assert(contents(spans) =~= Seq::<Seq<char>>::empty());
        assert(all[0] == more);
    } else {
        let first = spans[0].content;
        assert(all.skip(1) =~= spans.skip(1).push(more));
        assert(contents(spans).take(1) =~= Seq::<Seq<char>>::empty().push(first));
        assert(contents(spans).skip(1) =~= contents(spans.skip(1)));
        lemma_joined_parts(contents(spans), 1);
        lemma_joined_push(Seq::empty(), first);
        assert(joined(contents(spans).take(1)) =~= first);
        if offset >= first.len() {
            lemma_style_behind(spans.skip(1), more, offset - first.len(), spans[0].style);
        }
    }
}

proof fn lemma_style_with_text(
    spans: Seq<SpanView>,
    content: Seq<char>,
    style: Style,
    offset: int,
    fallback: Style,
)
    requires
        0 <= offset < joined(contents(spans)).len() + content.len(),
    ensures
        style_in(with_text(spans, content, style), offset, fallback) == if offset < joined(
            contents(spans),
        ).len() {
            style_in(spans, offset, fallback)
        } else {
            style
        },
{
    if spans.len() > 0 && spans.last().style == style {
        let before = spans.drop_last();
        assert(contents(spans) =~= contents(before).push(spans.last().content));
        lemma_joined_push(contents(before), spans.last().content);
        assert(before.push(spans.last()) =~= spans);
        lemma_style_behind(
            before,
            styled_span(spans.last().content + content, style),
            offset,
            fallback,
        );
        if offset < joined(contents(spans)).len() {
            lemma_style_behind(before, spans.last(), offset, fallback);
        }
    } else {
        lemma_style_behind(spans, styled_span(content, style), offset, fallback);
    }
}

/// Every cluster of a styled text has the style that the line has at the cluster's
/// first character.
proof fn lemma_restyled_clusters(
    line: LineView,
    pieces: Seq<Seq<char>>,
    index: int,
    offset: int,
)
    requires
        0 <= index < pieces.len(),
        0 <= offset < pieces[index].len(),
    ensures
        style_in(
            restyled(line, pieces),
            joined(pieces.take(index)).len() + offset,
            line.style,
        ) == style_at(line, joined(pieces.take(index)).len() as int),
    decreases pieces.len(),
{
    let before = pieces.drop_last();
    let place = joined(pieces.take(index)).len() + offset;
    lemma_restyled_text(line, before);
    if index < before.len() {
        lemma_restyled_clusters(line, before, index, offset);
        assert(before.take(index) =~= pieces.take(index));
        lemma_joined_parts(before, index + 1);
        assert(before.take(index + 1) =~= before.take(index).push(before[index]));
        lemma_joined_push(before.take(index), before[index]);
    } else {
        assert(pieces.take(index) =~= before);
    }
    lemma_style_with_text(
        restyled(line, before),
        pieces.last(),
        style_at(line, joined(before).len() as int),
        place,
        line.style,
    );
}

/// In a line that is cut, every cluster that is kept has the style that the line has
/// at the cluster's first character.
pub proof fn law_clusters_keep_their_style(line: LineView, max_width: nat, index: int, offset: int)
    requires
        ({
            let pieces = inspected(retained_text(line, max_width));
            0 <= index < pieces.len() && 0 <= offset < pieces[index].len()
        }),
    ensures
        ({
            let begin = joined(inspected(retained_text(line, max_width)).take(index)).len();
            style_in(clipped(line, max_width).spans, begin + offset, line.style) == style_at(
                line,
                begin as int,
            )
        }),
{
    let retained = retained_text(line, max_width);
    let pieces = inspected(retained);
    lemma_restyled_clusters(line, pieces, index, offset);
    lemma_restyled_text(line, pieces);
    lemma_joined_parts(pieces, index + 1);
    assert(pieces.take(index + 1) =~= pieces.take(index).push(pieces[index]));
    lemma_joined_push(pieces.take(index), pieces[index]);
    lemma_style_with_text(
        restyled(line, pieces),
        "…"@,
        style_at(line, retained.len() as int),
        joined(pieces.take(index)).len() + offset,
        line.style,
    );
}

/// Cutting a line keeps its own style and where it stands; and where something is
/// missing, the ellipsis has the style that the line has there.
pub proof fn law_clipping_keeps_styles(line: LineView, max_width: nat)
    ensures
        clipped(line, max_width).style == line.style,
        clipped(line, max_width).alignment == line.alignment,
        max_width > 0 ==> (kept_pieces(
            inspected_text(line),
            max_width,
            line_is_cut(line),
        ) is Some ==> {
            let missing = retained_text(line, max_width).len() as int;
            let spans = clipped(line, max_width).spans;
            &&& spans.len() > 0
            &&& spans.last().style == style_at(line, missing)
            &&& spans.last().content.len() > 0
            &&& spans.last().content.last() == '…'
        }),
{
    reveal_strlit("…");
}

} // verus!
