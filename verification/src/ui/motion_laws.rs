//! How the screen moves, and what it remembers.

use vstd::prelude::*;
use vstd::string::*;

use crate::ui::artwork::{frame_cell, CellSize, RgbColor};
use crate::ui::interaction::{Hit, HitTarget, ListSurface};
use crate::ui::layout::{capped_sum, limited, lies_within, Rect};
use crate::ui::line::{contents, raw_line, text_of_line, LineView};
use crate::ui::memory::{
    empty_slot, not_covered, presented, selection_preserves, spinner_regions, surface_number,
    MemoryView, SelectionPresentation, SlotView,
};
use crate::ui::motion::{
    begins_with_spinner, moves, resting, row_of, spinner_picture, turned, Glide,
};
use crate::ui::rows::{
    is_marked, line_of_row, marked_row, on_surface, row_hits, selection_drawn, selection_row,
    surface_at,
};
use crate::ui::theme::{Style, Theme};
use crate::ui::viewport::{
    ordered_key, preserves, shown, DatasetKeyView, DatasetUpdate, RowRange, RowTargetView,
    ViewportView,
};

verus! {

/// A glide starts where it is from, goes on towards its row, never back, and never past it.
pub proof fn law_a_glide_goes_straight(glide: Glide, earlier: u64, later: u64)
    requires
        glide.wf(),
        glide.started_ms <= earlier <= later,
    ensures
        glide.place(glide.started_ms) == glide.from,
        glide.from <= glide.target * 1_000 ==> glide.from <= glide.place(earlier)
            <= glide.place(later) <= glide.target * 1_000,
        glide.from >= glide.target * 1_000 ==> glide.from >= glide.place(earlier)
            >= glide.place(later) >= glide.target * 1_000,
{
    let soon = glide.elapsed(earlier);
    let late = glide.elapsed(later);
    let distance = if glide.from <= glide.goal() {
        glide.goal() - glide.from
    } else {
        glide.from - glide.goal()
    };
    assert(distance * 0 == 0);
    assert(0 <= distance * soon <= distance * late) by (nonlinear_arith)
        requires
            0 <= distance,
            0 <= soon <= late,
    ;
    if soon < 150 {
        assert(distance * soon <= distance * 150) by (nonlinear_arith)
            requires
                0 <= distance,
                0 <= soon < 150,
        ;
    }
    if late < 150 {
        assert(distance * late <= distance * 150) by (nonlinear_arith)
            requires
                0 <= distance,
                0 <= late < 150,
        ;
    }
}

/// A glide takes 150 milliseconds and is as fast at its end as at its start: what it has
/// covered is to its whole way as the time is to the whole time, down to a thousandth of a
/// row.
pub proof fn law_a_glide_is_steady(glide: Glide, now_ms: u64)
    requires
        glide.wf(),
        glide.started_ms <= now_ms < glide.started_ms + 150,
    ensures
        ({
            let covered = if glide.from <= glide.target * 1_000 {
                glide.place(now_ms) - glide.from
            } else {
                glide.from - glide.place(now_ms)
            };
            let way = if glide.from <= glide.target * 1_000 {
                glide.target * 1_000 - glide.from
            } else {
                glide.from - glide.target * 1_000
            };
            150 * covered <= way * (now_ms - glide.started_ms) < 150 * covered + 150
        }),
{
}

/// The cursor stands on the row that is nearest.
pub proof fn law_the_cursor_stands_on_the_nearest_row(glide: Glide, now_ms: u64)
    requires
        glide.wf(),
    ensures
        row_of(Some(glide), now_ms) matches Some(row) && -500 <= glide.place(now_ms) - 1_000 * row
            < 500,
        row_of(None, now_ms) is None,
{
}

/// A selection that turns goes from where it is to its new row, over six rows at the most;
/// one that was nowhere rests there at once.
pub proof fn law_a_turn_goes_from_where_it_is(glide: Glide, target: usize, now_ms: u64)
    requires
        glide.wf(),
    ensures
        ({
            let turn = turned(Some(glide), target, now_ms);
            &&& turn.target == target
            &&& turn.started_ms == now_ms
            &&& glide.place(now_ms) < target * 1_000 - 6_000 ==> turn.from == target * 1_000
                - 6_000
            &&& glide.place(now_ms) > target * 1_000 + 6_000 ==> turn.from == target * 1_000
                + 6_000
            &&& target * 1_000 - 6_000 <= glide.place(now_ms) <= target * 1_000 + 6_000
                ==> turn.from == glide.place(now_ms)
        }),
        turned(None, target, now_ms).target == target,
        turned(None, target, now_ms).from == target * 1_000,
        !moves(Some(turned(None, target, now_ms)), now_ms),
{
    let elapsed = glide.elapsed(now_ms);
    let distance = if glide.from <= glide.goal() {
        glide.goal() - glide.from
    } else {
        glide.from - glide.goal()
    };
    if elapsed < 150 {
        assert(0 <= distance * elapsed <= distance * 150) by (nonlinear_arith)
            requires
                0 <= distance,
                0 <= elapsed < 150,
        ;
    }
}

/// A spinner turns through ten pictures, and then again.
pub proof fn law_a_spinner_goes_round(index: int)
    requires
        index >= 0,
    ensures
        spinner_picture(index).len() == 1,
        spinner_picture(index + 10) == spinner_picture(index),
        spinner_picture(index)[0] == '⠋' <==> index % 10 == 0,
        spinner_picture(index)[0] == '⠙' <==> index % 10 == 1,
        spinner_picture(index)[0] == '⠹' <==> index % 10 == 2,
        spinner_picture(index)[0] == '⠸' <==> index % 10 == 3,
        spinner_picture(index)[0] == '⠼' <==> index % 10 == 4,
        spinner_picture(index)[0] == '⠴' <==> index % 10 == 5,
        spinner_picture(index)[0] == '⠦' <==> index % 10 == 6,
        spinner_picture(index)[0] == '⠧' <==> index % 10 == 7,
        spinner_picture(index)[0] == '⠇' <==> index % 10 == 8,
        spinner_picture(index)[0] == '⠏' <==> index % 10 == 9,
{
    reveal_strlit("⠋");
    reveal_strlit("⠙");
    reveal_strlit("⠹");
    reveal_strlit("⠸");
    reveal_strlit("⠼");
    reveal_strlit("⠴");
    reveal_strlit("⠦");
    reveal_strlit("⠧");
    reveal_strlit("⠇");
    reveal_strlit("⠏");
}

/// The rows of one list are those rows, in their order.
pub proof fn law_a_list_has_its_rows(targets: Seq<RowTargetView>, surface: ListSurface)
    ensures
        on_surface(targets, surface) == targets.filter(
            |target: RowTargetView| target.surface == surface,
        ),
    decreases targets.len(),
{
    reveal(Seq::filter);
    if targets.len() > 0 {
        law_a_list_has_its_rows(targets.drop_last(), surface);
    }
}

/// A row is the marked one where its line begins with the cursor; the first such row counts.
pub proof fn law_the_first_marked_row_counts(
    lines: Seq<LineView>,
    rows: Seq<RowTargetView>,
    index: int,
)
    requires
        0 <= index < rows.len(),
        forall|i: int|
            0 <= i < index ==> (#[trigger] rows[i]).line_index < lines.len() && text_of_line(
                lines[rows[i].line_index as int],
            ).len() > 0 && text_of_line(lines[rows[i].line_index as int])[0] != '▶',
        rows[index].line_index < lines.len(),
        text_of_line(lines[rows[index].line_index as int]).len() > 0,
    ensures
        text_of_line(lines[rows[index].line_index as int])[0] == '▶' ==> marked_row(lines, rows)
            == Some(rows[index].stable_index),
        index == rows.len() - 1 && text_of_line(lines[rows[index].line_index as int])[0] != '▶'
            ==> marked_row(lines, rows) is None,
    decreases rows.len(),
{
    let shorter = rows.drop_last();
    assert(forall|i: int| 0 <= i < shorter.len() ==> shorter[i] == rows[i]);
    if index < rows.len() - 1 {
        law_the_first_marked_row_counts(lines, shorter, index);
    } else if index > 0 {
        assert(rows[index - 1].line_index < lines.len());
        law_the_first_marked_row_counts(lines, shorter, index - 1);
    }
}

proof fn lemma_text_of_two(line: LineView)
    requires
        line.spans.len() == 2,
    ensures
        text_of_line(line) == line.spans[0].content + line.spans[1].content,
{
    let pieces = contents(line.spans);
    reveal_with_fuel(crate::text::joined, 3);
    assert(pieces.drop_last().drop_last() =~= Seq::<Seq<char>>::empty());
    assert(pieces.drop_last().last() == line.spans[0].content);
    assert(pieces.last() == line.spans[1].content);
    assert(text_of_line(line) =~= line.spans[0].content + line.spans[1].content);
}

/// A row keeps its text behind its sign: the cursor where the cursor is, a dot where the
/// selection is going, else nothing; the selected row is bold, and the sign has a color of
/// its own.
pub proof fn law_a_row_keeps_its_text(line: LineView, cursor: bool, logical: bool, theme: Theme)
    requires
        text_of_line(line).len() > 0,
    ensures
        ({
            let row = selection_row(line, cursor, logical, theme);
            &&& text_of_line(row) == seq![
                if cursor {
                    '▶'
                } else if logical {
                    '●'
                } else {
                    ' '
                },
            ] + text_of_line(line).skip(1)
            &&& row.spans[0].content.len() == 1
            &&& row.spans[0].style.bold <==> cursor || logical
            &&& row.spans[0].style.fg == (if cursor || logical {
                Some(theme.accent)
            } else {
                None
            })
            &&& row.spans[1].style.bold <==> logical
            &&& row.spans[1].style.fg == Some(theme.foreground)
        }),
{
    reveal_strlit("▶");
    reveal_strlit("●");
    reveal_strlit(" ");
    let row = selection_row(line, cursor, logical, theme);
    lemma_text_of_two(row);
    assert(row.spans[0].content =~= seq![
        if cursor {
            '▶'
        } else if logical {
            '●'
        } else {
            ' '
        },
    ]);
    assert(text_of_line(row) =~= row.spans[0].content + row.spans[1].content);
}

/// Every row of a list is drawn as what it is, and no other line is touched.
pub proof fn law_rows_are_drawn_as_what_they_are(
    lines: Seq<LineView>,
    rows: Seq<RowTargetView>,
    presentation: SelectionPresentation,
    theme: Theme,
    index: int,
    line: int,
)
    requires
        0 <= index < rows.len(),
        0 <= line < lines.len(),
        forall|i: int| 0 <= i < rows.len() ==> (#[trigger] rows[i]).line_index < lines.len(),
        forall|i: int, j: int|
            0 <= i < j < rows.len() ==> (#[trigger] rows[i]).line_index != (
            #[trigger] rows[j]).line_index,
        rows[index].stable_index < usize::MAX,
        forall|i: int| 0 <= i < rows.len() ==> (#[trigger] rows[i]).line_index != line,
    ensures
        selection_drawn(lines, rows, presentation, theme).len() == lines.len(),
        selection_drawn(lines, rows, presentation, theme)[rows[index].line_index as int]
            == selection_row(
            lines[rows[index].line_index as int],
            presentation.cursor_index == Some(rows[index].stable_index),
            presentation.logical_index == Some(rows[index].stable_index),
            theme,
        ),
        selection_drawn(lines, rows, presentation, theme)[line] == lines[line],
    decreases rows.len(),
{
    lemma_rows_drawn(lines, rows, presentation, theme);
    assert(!(exists|i: int| 0 <= i < rows.len() && (#[trigger] rows[i]).line_index == line));
}

/// What is drawn of rows: each line as often as a row stands on it.
proof fn lemma_rows_drawn(
    lines: Seq<LineView>,
    rows: Seq<RowTargetView>,
    presentation: SelectionPresentation,
    theme: Theme,
)
    requires
        forall|i: int| 0 <= i < rows.len() ==> (#[trigger] rows[i]).line_index < lines.len(),
        forall|i: int, j: int|
            0 <= i < j < rows.len() ==> (#[trigger] rows[i]).line_index != (
            #[trigger] rows[j]).line_index,
    ensures
        selection_drawn(lines, rows, presentation, theme).len() == lines.len(),
        forall|i: int|
            0 <= i < rows.len() && (#[trigger] rows[i]).stable_index < usize::MAX
                ==> selection_drawn(lines, rows, presentation, theme)[rows[i].line_index as int]
                == selection_row(
                lines[rows[i].line_index as int],
                presentation.cursor_index == Some(rows[i].stable_index),
                presentation.logical_index == Some(rows[i].stable_index),
                theme,
            ),
        forall|line: int|
            0 <= line < lines.len() && (forall|i: int|
                0 <= i < rows.len() ==> (#[trigger] rows[i]).line_index != line)
                ==> #[trigger] selection_drawn(lines, rows, presentation, theme)[line]
                == lines[line],
    decreases rows.len(),
{
    if rows.len() > 0 {
        let shorter = rows.drop_last();
        assert(forall|i: int| 0 <= i < shorter.len() ==> shorter[i] == rows[i]);
        lemma_rows_drawn(lines, shorter, presentation, theme);
        let last = rows.last();
        let before = selection_drawn(lines, shorter, presentation, theme);
        assert forall|i: int| 0 <= i < shorter.len() implies (
        #[trigger] shorter[i]).line_index != last.line_index by {
            assert(rows[i].line_index != rows[rows.len() - 1].line_index);
        }
        assert(before[last.line_index as int] == lines[last.line_index as int]);
        assert forall|i: int|
            0 <= i < rows.len() && (#[trigger] rows[i]).stable_index
                < usize::MAX implies selection_drawn(
            lines,
            rows,
            presentation,
            theme,
        )[rows[i].line_index as int] == selection_row(
            lines[rows[i].line_index as int],
            presentation.cursor_index == Some(rows[i].stable_index),
            presentation.logical_index == Some(rows[i].stable_index),
            theme,
        ) by {
            if i < rows.len() - 1 {
                assert(shorter[i] == rows[i]);
                assert(rows[i].line_index != rows[rows.len() - 1].line_index);
            }
        }
        assert forall|line: int|
            0 <= line < lines.len() && (forall|i: int|
                0 <= i < rows.len() ==> (#[trigger] rows[i]).line_index
                    != line) implies #[trigger] selection_drawn(
            lines,
            rows,
            presentation,
            theme,
        )[line] == lines[line] by {
            assert(rows[rows.len() - 1].line_index != line);
            assert(forall|i: int|
                0 <= i < shorter.len() ==> (#[trigger] shorter[i]).line_index != line);
            assert(before[line] == lines[line]);
        }
    }
}

/// Each row that is drawn can be clicked over its whole width, on its own line, and a click
/// on it is a click on that row of its list.
pub proof fn law_rows_are_clicked_where_they_are_drawn(
    hits: Seq<Hit>,
    visible: Rect,
    targets: Seq<RowTargetView>,
    index: int,
)
    requires
        0 <= index < targets.len(),
        visible.width > 0,
        visible.x + visible.width <= u16::MAX,
        visible.y + visible.height <= u16::MAX,
        forall|i: int|
            0 <= i < targets.len() ==> (#[trigger] targets[i]).line_index < visible.height,
    ensures
        row_hits(hits, visible, targets).len() == hits.len() + targets.len(),
        hits.is_prefix_of(row_hits(hits, visible, targets)),
        row_hits(hits, visible, targets)[hits.len() + index] == (Hit {
            area: Rect {
                x: visible.x,
                y: (visible.y + targets[index].line_index) as u16,
                width: visible.width,
                height: 1,
            },
            target: HitTarget::ListRow {
                surface: targets[index].surface,
                stable_index: targets[index].stable_index,
            },
        }),
    decreases targets.len(),
{
    reveal_with_fuel(row_hits, 2);
    let shorter = targets.drop_last();
    assert(forall|i: int| 0 <= i < shorter.len() ==> shorter[i] == targets[i]);
    assert(targets[targets.len() - 1].line_index < visible.height);
    if shorter.len() > 0 {
        if index < shorter.len() {
            law_rows_are_clicked_where_they_are_drawn(hits, visible, shorter, index);
        } else {
            law_rows_are_clicked_where_they_are_drawn(hits, visible, shorter, 0);
        }
    }
}

/// The lists are told apart by their numbers.
pub proof fn law_a_list_has_its_number(surface: ListSurface)
    ensures
        0 <= surface_number(surface) < 13,
        surface_at(surface_number(surface)) == surface,
{
}

/// What is selected is shown as selected, with the cursor among the rows that are shown; a
/// list that was not shown before has its cursor there at once.
pub proof fn law_the_selected_row_is_presented(
    slot: SlotView,
    total: usize,
    row: usize,
    range: RowRange,
    key: DatasetKeyView,
    now_ms: u64,
)
    requires
        range.start <= row < range.end,
        row < total,
    ensures
        ({
            let (after, presentation) = presented(slot, total, Some(row), range, key, now_ms);
            &&& presentation.logical_index == Some(row)
            &&& presentation.cursor_index matches Some(cursor) ==> range.start <= cursor
                < range.end
            &&& slot.dataset_key is None ==> presentation.cursor_index == Some(row)
                && !presentation.transitioning
            &&& after.dataset_key == Some(key)
            &&& after.visible_range == range
            &&& after.seen
            &&& after.motion matches Some(glide) && (glide.target == row - range.start)
        }),
{
    assert((row - range.start) * 0 == 0);
}

/// What is not selected, or not in the list, is not shown as selected.
pub proof fn law_nothing_is_presented_without_a_selection(
    slot: SlotView,
    total: usize,
    row: usize,
    range: RowRange,
    key: DatasetKeyView,
    now_ms: u64,
)
    requires
        row >= total,
    ensures
        presented(slot, total, None, range, key, now_ms).1.logical_index is None,
        presented(slot, total, None, range, key, now_ms).1.cursor_index is None,
        presented(slot, total, Some(row), range, key, now_ms).1.logical_index is None,
        presented(slot, total, Some(row), range, key, now_ms).1.cursor_index is None,
{
}

/// What lies behind a window does not move; everything else goes on.
pub proof fn law_what_is_covered_stands_still(regions: Seq<Rect>, popup: Rect)
    ensures
        not_covered(regions, popup) == regions.filter(|region: Rect| !lies_within(region, popup)),
    decreases regions.len(),
{
    reveal(Seq::filter);
    if regions.len() > 0 {
        law_what_is_covered_stands_still(regions.drop_last(), popup);
    }
}

/// A picture begins with nothing that moves, and with the lists as they were, unless the
/// screen has another size; when it is done, only the lists that it showed are remembered.
pub proof fn law_a_picture_remembers_what_it_showed(
    memory: MemoryView,
    area: Rect,
    now_ms: u64,
    index: int,
)
    requires
        memory.wf(),
        0 <= index < 13,
    ensures
        ({
            let begun = memory.begun(area, now_ms);
            &&& begun.wf()
            &&& begun.frame_area == Some(area)
            &&& begun.frame_now_ms == now_ms
            &&& begun.progress_motion_regions.len() == 0
            &&& begun.spinner_motion_regions.len() == 0
            &&& !begun.slots[index].seen
            &&& memory.frame_area is None || memory.frame_area == Some(area)
                ==> begun.slots[index].motion == memory.slots[index].motion
            &&& memory.frame_area is Some && memory.frame_area != Some(area)
                ==> begun.slots[index].motion is None
            &&& begun.queue == memory.queue
            &&& begun.search == memory.search
        }),
        memory.slots[index].seen ==> memory.ended().slots[index] == memory.slots[index],
        !memory.slots[index].seen ==> memory.ended().slots[index].motion is None
            && memory.ended().slots[index].dataset_key is None,
{
}

/// A spinner moves where it is drawn: at the start of its line.
pub proof fn law_spinners_move_where_they_are_drawn(lines: Seq<LineView>, area: Rect, line: int)
    requires
        0 <= line < lines.len() <= area.height,
        area.x + area.width <= u16::MAX,
        area.y + area.height <= u16::MAX,
        begins_with_spinner(text_of_line(lines[line])),
    ensures
        exists|i: int|
            0 <= i < spinner_regions(lines, area).len() && (#[trigger] spinner_regions(
                lines,
                area,
            )[i]).x == area.x && spinner_regions(lines, area)[i].y == area.y + line
                && spinner_regions(lines, area)[i].height == 1,
    decreases lines.len(),
{
    let before = spinner_regions(lines.drop_last(), area);
    let all = spinner_regions(lines, area);
    if line < lines.len() - 1 {
        law_spinners_move_where_they_are_drawn(lines.drop_last(), area, line);
        let i = choose|i: int|
            0 <= i < before.len() && (#[trigger] before[i]).x == area.x && before[i].y == area.y
                + line && before[i].height == 1;
        assert(all[i] == before[i]);
    } else {
        assert(all[before.len() as int].y == area.y + line);
    }
}

/// A list stays the same list where nothing of it changed, where more of it is on its way
/// and nothing else changed, and where what came was put at its end.
pub proof fn law_a_growing_list_is_the_same(
    context: Seq<char>,
    generation: u64,
    identities: Seq<Seq<char>>,
    more: Seq<Seq<char>>,
    update: DatasetUpdate,
    other_generation: u64,
)
    ensures
        preserves(
            ordered_key(context, generation, identities, update),
            ordered_key(context, generation, identities, update),
        ),
        preserves(
            ordered_key(context, generation, identities, update),
            ordered_key(context, other_generation, identities, DatasetUpdate::AppendInProgress),
        ),
        preserves(
            ordered_key(context, generation, identities, DatasetUpdate::AppendInProgress),
            ordered_key(context, generation, identities + more, DatasetUpdate::Replace),
        ),
{
    assert((identities + more).take(identities.len() as int) =~= identities);
}

/// A list with another name, or with other rows at its start, is another list.
pub proof fn law_other_rows_are_another_list(
    context: Seq<char>,
    other: Seq<char>,
    generation: u64,
    identities: Seq<Seq<char>>,
    changed: Seq<Seq<char>>,
    update: DatasetUpdate,
    next_update: DatasetUpdate,
    row: int,
)
    requires
        context != other,
        0 <= row < identities.len(),
        row >= changed.len() || changed[row] != identities[row],
    ensures
        !preserves(
            ordered_key(context, generation, identities, update),
            ordered_key(other, generation, identities, next_update),
        ),
        !preserves(
            ordered_key(context, generation, identities, update),
            ordered_key(context, generation, changed, next_update),
        ),
{
    if row < changed.len() && identities.len() <= changed.len() {
        assert(changed.take(identities.len() as int)[row] == changed[row]);
    }
}

/// A list remembers which row is its first, and where on the screen the selected one is.
pub proof fn law_a_list_remembers_its_place(
    viewport: ViewportView,
    total: usize,
    row: usize,
    max_rows: usize,
    key: DatasetKeyView,
)
    requires
        row < total,
        max_rows > 0,
    ensures
        ({
            let (after, range) = shown(viewport, total, Some(row), max_rows, key);
            &&& after.start == range.start
            &&& after.dataset_key == Some(key)
            &&& after.selected_offset + range.start == row
            &&& key matches DatasetKeyView::Ordered(ordered) ==> row < ordered.identities.len()
                ==> after.selected_identity == Some(ordered.identities[row as int])
        }),
{
    crate::ui::viewport::lemma_kept_start(viewport, key, Some(row));
}

/// Pixels are read row by row, three bytes each: red, green and blue. A cell shows one above
/// the other.
pub proof fn law_a_cell_shows_one_pixel_above_the_other(
    pixels: Seq<RgbColor>,
    bytes: Seq<u8>,
    width: int,
    height: int,
    column: int,
    row: int,
)
    requires
        0 <= column < width,
        0 <= row < height,
        pixels.len() == width * (2 * height),
        bytes.len() == 3 * pixels.len(),
        forall|i: int|
            0 <= i < pixels.len() ==> (#[trigger] pixels[i]).red == bytes[3 * i]
                && pixels[i].green == bytes[3 * i + 1] && pixels[i].blue == bytes[3 * i + 2],
    ensures
        frame_cell(bytes, width, column, row).foreground == pixels[(2 * row) * width + column],
        frame_cell(bytes, width, column, row).background == pixels[(2 * row + 1) * width + column],
{
    let upper = (2 * row) * width + column;
    let lower = (2 * row + 1) * width + column;
    assert(0 <= upper < width * (2 * height)) by (nonlinear_arith)
        requires
            upper == (2 * row) * width + column,
            0 <= column < width,
            0 <= row < height,
    ;
    assert(0 <= lower < width * (2 * height)) by (nonlinear_arith)
        requires
            lower == (2 * row + 1) * width + column,
            0 <= column < width,
            0 <= row < height,
    ;
    assert((row * 2) * width + column == upper);
    assert((row * 2 + 1) * width + column == lower);
    assert(pixels[upper].red == bytes[3 * upper]);
    assert(pixels[lower].red == bytes[3 * lower]);
}

/// A picture has between 1 and 256 columns and rows, and no more than 16384 cells.
pub proof fn law_a_picture_has_a_size(size: CellSize)
    ensures
        size.drawable() <==> 1 <= size.width <= 256 && 1 <= size.height <= 256 && size.width
            * size.height <= 16_384,
{
}

} // verus!
