//! Rows of lists: how the selected row is drawn, and which rows can be clicked.

use vstd::prelude::*;
use vstd::string::*;

use crate::text::chars_of;
use crate::ui::cells::{truncate_cells, truncated};
use crate::ui::interaction::{with_hit, Hit, HitTarget, InteractionMap, ListSurface};
use crate::ui::layout::{capped_sum, limited, Rect};
use crate::ui::line::{
    line_of, line_views, raw_line, styled_span, text_of_line, Line, LineView, Span,
};
use crate::ui::memory::{MemoryView, SelectionPresentation, ViewportMemory, LIST_SURFACE_COUNT};
use crate::ui::motion::{spinner_frame, spinner_picture};
use crate::ui::theme::{plain, Style, Theme};
use crate::ui::viewport::{target_views, RenderedRowTarget, RowRange, RowTargetView};

verus! {

/// A line that tells that something is being loaded.
pub open spec fn loading_line(spinner_index: usize, text: Seq<char>, width: nat) -> LineView {
    raw_line(truncated(spinner_picture(spinner_index as int) + " "@ + text, width))
}

/// A line that tells that something is being loaded.
pub fn loading_label(spinner_index: usize, text: &str, available_width: usize) -> (line: Line)
    ensures
        line@ == loading_line(spinner_index, text@, available_width as nat),
{
    let mut label = spinner_frame(spinner_index).to_owned();
    label.append(" ");
    label.append(text);
    Line::from_text(truncate_cells(label.as_str(), available_width))
}

/// The rows of one list among the rows that are drawn.
pub open spec fn on_surface(targets: Seq<RowTargetView>, surface: ListSurface) -> Seq<RowTargetView>
    decreases targets.len(),
{
    if targets.len() == 0 {
        Seq::empty()
    } else if targets.last().surface == surface {
        on_surface(targets.drop_last(), surface).push(targets.last())
    } else {
        on_surface(targets.drop_last(), surface)
    }
}

/// Whether a row is drawn as the selected one.
pub open spec fn is_marked(lines: Seq<LineView>, row: RowTargetView) -> bool {
    &&& row.line_index < lines.len()
    &&& text_of_line(lines[row.line_index as int]).len() > 0
    &&& text_of_line(lines[row.line_index as int])[0] == '▶'
}

/// The first row that is drawn as the selected one.
pub open spec fn marked_row(lines: Seq<LineView>, rows: Seq<RowTargetView>) -> Option<usize>
    decreases rows.len(),
{
    if rows.len() == 0 {
        None
    } else {
        match marked_row(lines, rows.drop_last()) {
            Some(row) => Some(row),
            None => if is_marked(lines, rows.last()) {
                Some(rows.last().stable_index)
            } else {
                None
            },
        }
    }
}

/// The line of the first row with this number.
pub open spec fn line_of_row(rows: Seq<RowTargetView>, number: Option<usize>) -> Option<usize>
    decreases rows.len(),
{
    if rows.len() == 0 {
        None
    } else {
        match line_of_row(rows.drop_last(), number) {
            Some(line) => Some(line),
            None => if Some(rows.last().stable_index) == number {
                Some(rows.last().line_index)
            } else {
                None
            },
        }
    }
}

/// A row as it is drawn: with the cursor, or a dot where the selection is going,
/// in front of it.
pub open spec fn selection_row(line: LineView, cursor: bool, logical: bool, theme: Theme) -> LineView {
    let text = text_of_line(line);
    let content = if text.len() == 0 {
        text
    } else {
        text.skip(1)
    };
    line_of(
        seq![
            styled_span(
                if cursor {
                    "▶"@
                } else if logical {
                    "●"@
                } else {
                    " "@
                },
                if cursor || logical {
                    plain().on_fg(theme.accent).in_bold()
                } else {
                    plain()
                },
            ),
            styled_span(
                content,
                if logical {
                    plain().on_fg(theme.foreground).in_bold()
                } else {
                    plain().on_fg(theme.foreground)
                },
            ),
        ],
    )
}

/// The lines with the rows of a list drawn for its selection.
pub open spec fn selection_drawn(
    lines: Seq<LineView>,
    rows: Seq<RowTargetView>,
    presentation: SelectionPresentation,
    theme: Theme,
) -> Seq<LineView>
    decreases rows.len(),
{
    if rows.len() == 0 {
        lines
    } else {
        let before = selection_drawn(lines, rows.drop_last(), presentation, theme);
        let row = rows.last();
        if row.line_index < before.len() {
            before.update(
                row.line_index as int,
                selection_row(
                    before[row.line_index as int],
                    row.stable_index == cursor_number(presentation),
                    row.stable_index == logical_number(presentation),
                    theme,
                ),
            )
        } else {
            before
        }
    }
}

/// The row where the cursor is; the largest number when there is none.
pub open spec fn cursor_number(presentation: SelectionPresentation) -> usize {
    match presentation.cursor_index {
        Some(row) => row,
        None => usize::MAX,
    }
}

/// The row that is selected; the largest number when there is none.
pub open spec fn logical_number(presentation: SelectionPresentation) -> usize {
    match presentation.logical_index {
        Some(row) => row,
        None => usize::MAX,
    }
}

/// Where the selection of a list moves.
pub open spec fn motion_region(
    rows: Seq<RowTargetView>,
    presentation: SelectionPresentation,
    visible: Rect,
) -> Option<Rect> {
    if presentation.transitioning {
        let line = match line_of_row(rows, presentation.cursor_index) {
            Some(line) => line as int,
            None => 0,
        };
        Some(limited(visible.x, capped_sum(visible.y as int, line), 1, 1))
    } else {
        None
    }
}

/// One row past `row`, as far as numbers reach.
pub open spec fn row_after(row: usize) -> usize {
    if row == usize::MAX {
        row
    } else {
        (row + 1) as usize
    }
}

/// Memory and lines after the selection of one list was drawn.
pub open spec fn list_selected(
    memory: MemoryView,
    lines: Seq<LineView>,
    targets: Seq<RowTargetView>,
    surface: ListSurface,
    theme: Theme,
    now_ms: u64,
    visible: Rect,
) -> (MemoryView, Seq<LineView>) {
    let rows = on_surface(targets, surface);
    if rows.len() == 0 {
        (memory, lines)
    } else {
        let range = RowRange {
            start: rows[0].stable_index,
            end: row_after(rows.last().stable_index),
        };
        let (after, presentation) = memory.with_selection(
            surface,
            range.end,
            marked_row(lines, rows),
            range,
            rows[0].dataset_key,
            now_ms,
        );
        (
            after.with_motion_region(surface, motion_region(rows, presentation, visible)),
            selection_drawn(lines, rows, presentation, theme),
        )
    }
}

/// The list with this number.
pub open spec fn surface_at(number: int) -> ListSurface {
    if number == 0 {
        ListSurface::Home
    } else if number == 1 {
        ListSurface::Search
    } else if number == 2 {
        ListSurface::Charts
    } else if number == 3 {
        ListSurface::PodcastRecommendations
    } else if number == 4 {
        ListSurface::PodcastEpisodes
    } else if number == 5 {
        ListSurface::Library
    } else if number == 6 {
        ListSurface::Favorites
    } else if number == 7 {
        ListSurface::History
    } else if number == 8 {
        ListSurface::Queue
    } else if number == 9 {
        ListSurface::CommandPalette
    } else if number == 10 {
        ListSurface::CountryPicker
    } else if number == 11 {
        ListSurface::BrowserPicker
    } else {
        ListSurface::Lyrics
    }
}

/// Memory and lines after the selections of the first `count` lists were drawn.
pub open spec fn selections_drawn(
    memory: MemoryView,
    lines: Seq<LineView>,
    targets: Seq<RowTargetView>,
    theme: Theme,
    now_ms: u64,
    visible: Rect,
    count: nat,
) -> (MemoryView, Seq<LineView>)
    decreases count,
{
    if count == 0 {
        (memory, lines)
    } else {
        let before = selections_drawn(
            memory,
            lines,
            targets,
            theme,
            now_ms,
            visible,
            (count - 1) as nat,
        );
        list_selected(
            before.0,
            before.1,
            targets,
            surface_at(count - 1),
            theme,
            now_ms,
            visible,
        )
    }
}

/// Memory and lines after every selection was drawn.
pub open spec fn all_selections_drawn(
    memory: MemoryView,
    lines: Seq<LineView>,
    targets: Seq<RowTargetView>,
    theme: Theme,
    now_ms: u64,
    visible: Rect,
) -> (MemoryView, Seq<LineView>) {
    selections_drawn(
        memory,
        lines,
        targets,
        theme,
        now_ms,
        visible,
        LIST_SURFACE_COUNT as nat,
    )
}

fn surface_numbered(number: usize) -> (surface: ListSurface)
    requires
        number < LIST_SURFACE_COUNT,
    ensures
        surface == surface_at(number as int),
{
    match number {
        0 => ListSurface::Home,
        1 => ListSurface::Search,
        2 => ListSurface::Charts,
        3 => ListSurface::PodcastRecommendations,
        4 => ListSurface::PodcastEpisodes,
        5 => ListSurface::Library,
        6 => ListSurface::Favorites,
        7 => ListSurface::History,
        8 => ListSurface::Queue,
        9 => ListSurface::CommandPalette,
        10 => ListSurface::CountryPicker,
        11 => ListSurface::BrowserPicker,
        _ => ListSurface::Lyrics,
    }
}

fn rows_on(targets: &Vec<RenderedRowTarget>, surface: ListSurface) -> (rows: Vec<
    &RenderedRowTarget,
>)
    ensures
        rows@.map_values(|row: &RenderedRowTarget| row@) == on_surface(
            target_views(targets@),
            surface,
        ),
{
    let ghost all = target_views(targets@);
    let mut rows: Vec<&RenderedRowTarget> = Vec::new();
    let mut index: usize = 0;
    proof {
        assert(all.take(0) =~= Seq::<RowTargetView>::empty());
        assert(rows@.map_values(|row: &RenderedRowTarget| row@) =~= Seq::<RowTargetView>::empty());
    }
    while index < targets.len()
        invariant
            all == target_views(targets@),
            index <= targets.len(),
            rows@.map_values(|row: &RenderedRowTarget| row@) == on_surface(
                all.take(index as int),
                surface,
            ),
        decreases targets.len() - index,
    {
        let ghost before = rows@;
        assert(all.take(index + 1).drop_last() =~= all.take(index as int));
        assert(all.take(index + 1).last() == targets@[index as int]@);
        if targets[index].surface == surface {
            rows.push(&targets[index]);
            assert(rows@.map_values(|row: &RenderedRowTarget| row@) =~= before.map_values(
                |row: &RenderedRowTarget| row@,
            ).push(targets@[index as int]@));
        }
        index = index + 1;
    }
    assert(all.take(index as int) =~= all);
    rows
}

fn starts_with_marker(line: &Line) -> (marked: bool)
    ensures
        marked == (text_of_line(line@).len() > 0 && text_of_line(line@)[0] == '▶'),
{
    let characters = chars_of(line.text().as_str());
    characters.len() > 0 && characters[0] == '▶'
}

/// What the rows say.
pub open spec fn row_views(rows: Seq<&RenderedRowTarget>) -> Seq<RowTargetView> {
    rows.map_values(|row: &RenderedRowTarget| row@)
}

proof fn lemma_marked_row_prefix(lines: Seq<LineView>, rows: Seq<RowTargetView>, count: int)
    requires
        0 <= count <= rows.len(),
        marked_row(lines, rows.take(count)) is Some,
    ensures
        marked_row(lines, rows) == marked_row(lines, rows.take(count)),
    decreases rows.len(),
{
    if count == rows.len() {
        assert(rows.take(count) =~= rows);
    } else {
        assert(rows.drop_last().take(count) =~= rows.take(count));
        lemma_marked_row_prefix(lines, rows.drop_last(), count);
    }
}

fn find_marked_row(lines: &Vec<Line>, rows: &Vec<&RenderedRowTarget>) -> (row: Option<usize>)
    ensures
        row == marked_row(line_views(lines@), row_views(rows@)),
{
    let ghost all = row_views(rows@);
    let mut index: usize = 0;
    assert(all.take(0) =~= Seq::<RowTargetView>::empty());
    while index < rows.len()
        invariant
            all == row_views(rows@),
            index <= rows.len(),
            marked_row(line_views(lines@), all.take(index as int)) is None,
        decreases rows.len() - index,
    {
        let row = rows[index];
        assert(all.take(index + 1).drop_last() =~= all.take(index as int));
        assert(all.take(index + 1).last() == row@);
        if row.line_index < lines.len() && starts_with_marker(&lines[row.line_index]) {
            proof {
                lemma_marked_row_prefix(line_views(lines@), all, index + 1);
            }
            return Some(row.stable_index);
        }
        index = index + 1;
    }
    assert(all.take(index as int) =~= all);
    None
}

proof fn lemma_line_of_row_prefix(rows: Seq<RowTargetView>, number: Option<usize>, count: int)
    requires
        0 <= count <= rows.len(),
        line_of_row(rows.take(count), number) is Some,
    ensures
        line_of_row(rows, number) == line_of_row(rows.take(count), number),
    decreases rows.len(),
{
    if count == rows.len() {
        assert(rows.take(count) =~= rows);
    } else {
        assert(rows.drop_last().take(count) =~= rows.take(count));
        lemma_line_of_row_prefix(rows.drop_last(), number, count);
    }
}

fn find_line_of_row(rows: &Vec<&RenderedRowTarget>, number: Option<usize>) -> (line: Option<usize>)
    ensures
        line == line_of_row(row_views(rows@), number),
{
    let ghost all = row_views(rows@);
    let mut index: usize = 0;
    assert(all.take(0) =~= Seq::<RowTargetView>::empty());
    while index < rows.len()
        invariant
            all == row_views(rows@),
            index <= rows.len(),
            line_of_row(all.take(index as int), number) is None,
        decreases rows.len() - index,
    {
        let row = rows[index];
        assert(all.take(index + 1).drop_last() =~= all.take(index as int));
        assert(all.take(index + 1).last() == row@);
        let found = match number {
            Some(number) => number == row.stable_index,
            None => false,
        };
        if found {
            proof {
                lemma_line_of_row_prefix(all, number, index + 1);
            }
            return Some(row.line_index);
        }
        index = index + 1;
    }
    assert(all.take(index as int) =~= all);
    None
}

fn style_selection_row(line: &Line, cursor: bool, logical: bool, theme: &Theme) -> (result: Line)
    ensures
        result@ == selection_row(line@, cursor, logical, *theme),
{
    let characters = chars_of(line.text().as_str());
    let content = if characters.len() == 0 {
        String::new()
    } else {
        crate::text::string_of(&characters, 1, characters.len())
    };
    proof {
        let text = text_of_line(line@);
        assert(content@ =~= if text.len() == 0 {
            text
        } else {
            text.skip(1)
        });
    }
    let marker = if cursor {
        "▶"
    } else if logical {
        "●"
    } else {
        " "
    };
    let marker_style = if cursor || logical {
        Style::new().fg(theme.accent).bold()
    } else {
        Style::new()
    };
    let content_style = if logical {
        Style::new().fg(theme.foreground).bold()
    } else {
        Style::new().fg(theme.foreground)
    };
    let spans = vec![
        Span::styled(marker.to_owned(), marker_style),
        Span::styled(content, content_style),
    ];
    let result = Line::from_spans(spans);
    assert(result@.spans =~= selection_row(line@, cursor, logical, *theme).spans);
    result
}

fn draw_selection(
    lines: &mut Vec<Line>,
    rows: &Vec<&RenderedRowTarget>,
    presentation: SelectionPresentation,
    theme: &Theme,
)
    ensures
        line_views(final(lines)@) == selection_drawn(
            line_views(old(lines)@),
            row_views(rows@),
            presentation,
            *theme,
        ),
{
    let cursor: usize = match presentation.cursor_index {
        Some(row) => row,
        None => usize::MAX,
    };
    let logical: usize = match presentation.logical_index {
        Some(row) => row,
        None => usize::MAX,
    };
    let ghost all = row_views(rows@);
    let ghost first = line_views(lines@);
    let mut index: usize = 0;
    assert(all.take(0) =~= Seq::<RowTargetView>::empty());
    while index < rows.len()
        invariant
            all == row_views(rows@),
            cursor == cursor_number(presentation),
            logical == logical_number(presentation),
            index <= rows.len(),
            line_views(lines@) == selection_drawn(
                first,
                all.take(index as int),
                presentation,
                *theme,
            ),
        decreases rows.len() - index,
    {
        let row = rows[index];
        let ghost before = lines@;
        assert(all.take(index + 1).drop_last() =~= all.take(index as int));
        assert(all.take(index + 1).last() == row@);
        if row.line_index < lines.len() {
            let drawn = style_selection_row(
                &lines[row.line_index],
                row.stable_index == cursor,
                row.stable_index == logical,
                theme,
            );
            lines.set(row.line_index, drawn);
            assert(line_views(lines@) =~= line_views(before).update(
                row.line_index as int,
                drawn@,
            ));
        }
        index = index + 1;
    }
    assert(all.take(index as int) =~= all);
}

/// Draws the selections of the lists whose rows `targets` names.
pub fn apply_selection_motion(
    lines: &mut Vec<Line>,
    targets: &Vec<RenderedRowTarget>,
    viewports: &mut ViewportMemory,
    theme: &Theme,
    now_ms: u64,
    visible: Rect,
)
    requires
        old(viewports)@.wf(),
    ensures
        final(viewports)@.wf(),
        (final(viewports)@, line_views(final(lines)@)) == all_selections_drawn(
            old(viewports)@,
            line_views(old(lines)@),
            target_views(targets@),
            *theme,
            now_ms,
            visible,
        ),
{
    let ghost memory = viewports@;
    let ghost first = line_views(lines@);
    let mut number: usize = 0;
    while number < LIST_SURFACE_COUNT
        invariant
            number <= LIST_SURFACE_COUNT,
            viewports@.wf(),
            (viewports@, line_views(lines@)) == selections_drawn(
                memory,
                first,
                target_views(targets@),
                *theme,
                now_ms,
                visible,
                number as nat,
            ),
        decreases LIST_SURFACE_COUNT - number,
    {
        let surface = surface_numbered(number);
        select_in_list(lines, targets, viewports, surface, theme, now_ms, visible);
        number = number + 1;
    }
}

fn select_in_list(
    lines: &mut Vec<Line>,
    targets: &Vec<RenderedRowTarget>,
    viewports: &mut ViewportMemory,
    surface: ListSurface,
    theme: &Theme,
    now_ms: u64,
    visible: Rect,
)
    requires
        old(viewports)@.wf(),
    ensures
        final(viewports)@.wf(),
        (final(viewports)@, line_views(final(lines)@)) == list_selected(
            old(viewports)@,
            line_views(old(lines)@),
            target_views(targets@),
            surface,
            *theme,
            now_ms,
            visible,
        ),
{
    let rows = rows_on(targets, surface);
    if rows.len() == 0 {
        return;
    }
    let ghost views = row_views(rows@);
    assert(views == on_surface(target_views(targets@), surface));
    assert(views[0] == rows@[0]@);
    assert(views.last() == rows@.last()@);
    let first = rows[0];
    let last = rows[rows.len() - 1];
    let range = RowRange {
        start: first.stable_index,
        end: last.stable_index.saturating_add(1),
    };
    let logical_index = find_marked_row(lines, &rows);
    let presentation = viewports.present_selection(
        surface,
        range.end,
        logical_index,
        range,
        first.dataset_key.clone(),
        now_ms,
    );
    let region = if presentation.transitioning {
        let line_index: usize = match find_line_of_row(&rows, presentation.cursor_index) {
            Some(line) => line,
            None => 0,
        };
        let offset: u16 = if line_index <= 65_535 {
            line_index as u16
        } else {
            u16::MAX
        };
        Some(Rect::new(visible.x, visible.y.saturating_add(offset), 1, 1))
    } else {
        None
    };
    viewports.set_selection_motion_region(surface, region);
    draw_selection(lines, &rows, presentation, theme);
}

/// The places of rows that can be clicked, after those that could already.
pub open spec fn row_hits(hits: Seq<Hit>, visible: Rect, targets: Seq<RowTargetView>) -> Seq<Hit>
    decreases targets.len(),
{
    if targets.len() == 0 {
        hits
    } else {
        let before = row_hits(hits, visible, targets.drop_last());
        let target = targets.last();
        if target.line_index <= u16::MAX {
            with_hit(
                before,
                limited(
                    visible.x,
                    capped_sum(visible.y as int, target.line_index as int),
                    visible.width,
                    1,
                ),
                visible,
                HitTarget::ListRow {
                    surface: target.surface,
                    stable_index: target.stable_index,
                },
            )
        } else {
            before
        }
    }
}

/// Makes rows clickable.
pub fn register_row_targets(
    interactions: &mut InteractionMap,
    visible: Rect,
    targets: &Vec<RenderedRowTarget>,
)
    ensures
        final(interactions)@ == row_hits(old(interactions)@, visible, target_views(targets@)),
{
    let ghost all = target_views(targets@);
    let ghost first = interactions@;
    let mut index: usize = 0;
    assert(all.take(0) =~= Seq::<RowTargetView>::empty());
    while index < targets.len()
        invariant
            all == target_views(targets@),
            index <= targets.len(),
            interactions@ == row_hits(first, visible, all.take(index as int)),
        decreases targets.len() - index,
    {
        let target = &targets[index];
        assert(all.take(index + 1).drop_last() =~= all.take(index as int));
        assert(all.take(index + 1).last() == target@);
        if target.line_index <= 65_535 {
            interactions.push_clipped(
                Rect::new(
                    visible.x,
                    visible.y.saturating_add(target.line_index as u16),
                    visible.width,
                    1,
                ),
                visible,
                HitTarget::ListRow { surface: target.surface, stable_index: target.stable_index },
            );
        }
        index = index + 1;
    }
    assert(all.take(index as int) =~= all);
}

} // verus!
