//! Lists of which some rows are shown.

use vstd::prelude::*;
use vstd::string::*;

use crate::domain::{texts, MediaItem, MediaItemView};
use crate::ui::cells::{truncate_cells, truncated};
use crate::ui::interaction::ListSurface;
use crate::ui::line::{line_views, raw_line, Line, LineView};
use crate::ui::viewport::{
    row_target_view, target_views, RenderedRowTarget, RowTargetView, SelectionViewport,
    ViewportView,
};

verus! {

/// What is drawn of a list: its lines and which of them are rows.
pub struct ListLines {
    pub lines: Vec<Line>,
    pub targets: Vec<RenderedRowTarget>,
}

/// What a list leaves behind: what its viewport remembers, its lines and its
/// rows.
#[verifier::ext_equal]
pub struct ListPicture {
    pub viewport: ViewportView,
    pub lines: Seq<LineView>,
    pub targets: Seq<RowTargetView>,
}

/// Lines of which none is a row.
pub open spec fn only_lines(viewport: ViewportView, lines: Seq<LineView>) -> ListPicture {
    ListPicture { viewport, lines, targets: Seq::empty() }
}

/// Whether `drawn` and what `viewport` remembers are `picture`.
pub open spec fn is_picture(drawn: ListLines, viewport: ViewportView, picture: ListPicture) -> bool {
    &&& viewport == picture.viewport
    &&& line_views(drawn.lines@) == picture.lines
    &&& target_views(drawn.targets@) == picture.targets
}

/// The lines of rows.
pub open spec fn row_lines(rows: Seq<Seq<char>>, width: nat) -> Seq<LineView> {
    rows.map_values(|row: Seq<char>| raw_line(truncated(row, width)))
}

/// Rows of which the first stands on the line `first_line` and is the row `start`
/// of the list.
pub open spec fn row_targets(
    viewport: ViewportView,
    count: nat,
    first_line: int,
    surface: ListSurface,
    start: int,
) -> Seq<RowTargetView> {
    Seq::new(
        count,
        |offset: int|
            row_target_view(
                viewport,
                (first_line + offset) as usize,
                surface,
                (start + offset) as usize,
            ),
    )
}

/// Draws rows below the lines that are there.
pub fn push_rows(
    drawn: &mut ListLines,
    viewport: &SelectionViewport,
    rows: &Vec<String>,
    surface: ListSurface,
    start: usize,
    width: usize,
)
    requires
        old(drawn).lines@.len() + rows@.len() <= usize::MAX,
        start + rows@.len() <= usize::MAX,
    ensures
        line_views(final(drawn).lines@) == line_views(old(drawn).lines@) + row_lines(
            texts(rows@),
            width as nat,
        ),
        target_views(final(drawn).targets@) == target_views(old(drawn).targets@) + row_targets(
            viewport@,
            rows@.len(),
            old(drawn).lines@.len() as int,
            surface,
            start as int,
        ),
{
    let ghost all = texts(rows@);
    let ghost lines = line_views(drawn.lines@);
    let ghost targets = target_views(drawn.targets@);
    let ghost first_line = drawn.lines@.len() as int;
    let mut index: usize = 0;
    assert(row_lines(all.take(0), width as nat) =~= Seq::<LineView>::empty());
    assert(lines + row_lines(all.take(0), width as nat) =~= lines);
    assert(targets + row_targets(viewport@, 0, first_line, surface, start as int) =~= targets);
    assert(lines.len() == first_line);
    while index < rows.len()
        invariant
            all == texts(rows@),
            first_line + rows@.len() <= usize::MAX,
            start + rows@.len() <= usize::MAX,
            lines.len() == first_line,
            index <= rows.len(),
            drawn.lines@.len() == first_line + index,
            line_views(drawn.lines@) == lines + row_lines(all.take(index as int), width as nat),
            target_views(drawn.targets@) == targets + row_targets(
                viewport@,
                index as nat,
                first_line,
                surface,
                start as int,
            ),
        decreases rows.len() - index,
    {
        let ghost before = *drawn;
        let line_index: usize = drawn.lines.len();
        drawn.targets.push(viewport.row_target(line_index, surface, start + index));
        drawn.lines.push(Line::from_text(truncate_cells(rows[index].as_str(), width)));
        proof {
            let line = raw_line(truncated(all[index as int], width as nat));
            let target = row_target_view(
                viewport@,
                line_index,
                surface,
                (start + index) as usize,
            );
            assert(line_views(drawn.lines@) =~= line_views(before.lines@).push(line));
            assert(row_lines(all.take(index + 1), width as nat) =~= row_lines(
                all.take(index as int),
                width as nat,
            ).push(line));
            assert(line_views(drawn.lines@) =~= lines + row_lines(
                all.take(index + 1),
                width as nat,
            ));
            assert(target_views(drawn.targets@) =~= target_views(before.targets@).push(target));
            assert(row_targets(
                viewport@,
                (index + 1) as nat,
                first_line,
                surface,
                start as int,
            ) =~= row_targets(viewport@, index as nat, first_line, surface, start as int).push(
                target,
            ));
            assert(target_views(drawn.targets@) =~= targets + row_targets(
                viewport@,
                (index + 1) as nat,
                first_line,
                surface,
                start as int,
            ));
        }
        index = index + 1;
    }
    assert(all.take(index as int) =~= all);
}

/// Draws a line that is no row.
pub fn push_line(drawn: &mut ListLines, line: Line)
    ensures
        line_views(final(drawn).lines@) == line_views(old(drawn).lines@).push(line@),
        final(drawn).lines@.len() == old(drawn).lines@.len() + 1,
        final(drawn).targets == old(drawn).targets,
{
    let ghost before = drawn.lines@;
    drawn.lines.push(line);
    assert(line_views(drawn.lines@) =~= line_views(before).push(line@));
}

/// Nothing drawn.
pub fn blank() -> (drawn: ListLines)
    ensures
        drawn.lines@.len() == 0,
        line_views(drawn.lines@) == Seq::<LineView>::empty(),
        target_views(drawn.targets@) == Seq::<RowTargetView>::empty(),
{
    let drawn = ListLines { lines: Vec::new(), targets: Vec::new() };
    assert(line_views(drawn.lines@) =~= Seq::<LineView>::empty());
    assert(target_views(drawn.targets@) =~= Seq::<RowTargetView>::empty());
    drawn
}

/// What stands in front of a row: whether it is the selected one.
pub open spec fn marker(selected: bool) -> Seq<char> {
    if selected {
        "▶"@
    } else {
        " "@
    }
}

/// What stands in front of a row.
pub fn marker_text(selected: bool) -> (text: &'static str)
    ensures
        text@ == marker(selected),
{
    if selected {
        "▶"
    } else {
        " "
    }
}

/// The first creator of an item, or that there is none.
pub open spec fn artist(media: MediaItemView) -> Seq<char> {
    if media.creators.len() > 0 {
        media.creators[0]
    } else {
        "Unknown artist"@
    }
}

/// A row for an item.
pub open spec fn media_row(media: MediaItemView, selected: bool) -> Seq<char> {
    marker(selected) + " "@ + media.title + " — "@ + artist(media)
}

/// A row for an item.
pub fn row_of_media(media: &MediaItem, selected: bool) -> (row: String)
    ensures
        row@ == media_row(media@, selected),
{
    let mut row = marker_text(selected).to_owned();
    row.append(" ");
    row.append(media.title.as_str());
    row.append(" — ");
    if media.creators.len() > 0 {
        assert(media@.creators[0] == media.creators@[0]@);
        row.append(media.creators[0].as_str());
    } else {
        row.append("Unknown artist");
    }
    row
}

} // verus!
