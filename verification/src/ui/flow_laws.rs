//! How what is remembered flows into what is drawn.

use vstd::prelude::*;
use vstd::string::*;

use crate::domain::{MediaKind, PlaybackStatus};
use crate::text::joined;
use crate::ui::animation::AnimationStoreView;
use crate::ui::artwork::{ArtworkPresentation, CellSize};
use crate::ui::cell_laws::{law_styling_keeps_the_text, law_text_is_put_behind};
use crate::ui::cells::{
    cells, clipped, clipped_lines, inspected, inspected_text, kept_pieces, line_is_cut, restyled,
    retained_text, style_at,
};
use crate::ui::input::{meaning, InputMode, KeyEvent, KeyEventKind};
use crate::ui::interaction::ListSurface;
use crate::ui::layout::{help_room, inside, lyrics_room, LayoutMode, Rect};
use crate::ui::line::{contents, LineView};
use crate::ui::memory::{presented, selection_preserves, surface_number, MemoryView, SelectionPresentation, SlotView};
use crate::ui::model::{
    short_view_label, view_at, CompactPanel, FocusRegion, Overlay, RenderModelView,
};
use crate::ui::palette::PaletteStateView;
use crate::ui::motion::{turned, Glide};
use crate::ui::player::controls_for_mode;
use crate::ui::render::{
    animated_artwork, artwork_panel_drawn, is_condensed, player_drawn, progress_moves, progress_of,
    queue_drawn, roomy_width, rows_panel, selected_entry, window_of,
};
use crate::ui::rows::{
    list_selected, marked_row, on_surface, row_hits, selection_drawn, all_selections_drawn,
};
use crate::ui::scene::{CanvasView, DrawView};
use crate::ui::spectrum::SpectrumPresentationView;
use crate::ui::state::AppState;
use crate::ui::theme::Theme;
use crate::ui::viewport::{
    identity_at, preserves, shown, DatasetKeyView, DatasetUpdate, OrderedKeyView, RowRange,
    RowTargetView, ViewportView,
};
use crate::ui::views::queue::queue_picture;

verus! {

/// A key does something when it is pressed or held, and nothing when it is let go.
pub proof fn law_a_key_that_is_let_go_does_nothing(mode: InputMode, event: KeyEvent)
    ensures
        event.kind == KeyEventKind::Release ==> meaning(mode, event) is None,
        meaning(mode, KeyEvent { kind: KeyEventKind::Repeat, ..event }) == meaning(
            mode,
            KeyEvent { kind: KeyEventKind::Press, ..event },
        ),
{
}

/// The selection of a list that is still the same goes on from where it is; of a list that is
/// not, it is at its row at once.
pub proof fn law_a_selection_goes_on_in_the_same_list(
    slot: SlotView,
    total: usize,
    row: usize,
    range: RowRange,
    key: DatasetKeyView,
    now_ms: u64,
    previous: DatasetKeyView,
    glide: Glide,
)
    requires
        range.start <= row < range.end,
        row < total,
        slot.dataset_key == Some(previous),
        slot.motion == Some(glide),
    ensures
        ({
            let after = presented(slot, total, Some(row), range, key, now_ms).0;
            let offset = (row - range.start) as usize;
            &&& slot.visible_range == range && preserves(previous, key) && glide.target == offset
                ==> after.motion == Some(glide)
            &&& slot.visible_range == range && preserves(previous, key) && glide.target != offset
                ==> after.motion == Some(turned(Some(glide), offset, now_ms))
            &&& slot.visible_range != range ==> (after.motion matches Some(resting)
                && resting.from == resting.target * 1_000 && resting.target == offset)
        }),
{
}

/// A selection goes on where rows moved as long as the same row is selected, and not where
/// another is.
pub proof fn law_a_selection_follows_its_row(
    previous: OrderedKeyView,
    next: OrderedKeyView,
    identity: Seq<char>,
    other: Option<Seq<char>>,
)
    requires
        previous.context == next.context,
        next.update == DatasetUpdate::Reconcile,
        !preserves(DatasetKeyView::Ordered(previous), DatasetKeyView::Ordered(next)),
        other != Some(identity),
    ensures
        selection_preserves(
            DatasetKeyView::Ordered(previous),
            DatasetKeyView::Ordered(next),
            Some(identity),
            Some(identity),
        ),
        !selection_preserves(
            DatasetKeyView::Ordered(previous),
            DatasetKeyView::Ordered(next),
            Some(identity),
            other,
        ),
        !selection_preserves(
            DatasetKeyView::Ordered(previous),
            DatasetKeyView::Ordered(next),
            None,
            None,
        ),
{
}

/// A list remembers where its selection moves; the others are not touched.
pub proof fn law_a_list_remembers_where_it_moves(
    memory: MemoryView,
    surface: ListSurface,
    region: Option<Rect>,
    other: int,
)
    requires
        memory.wf(),
        0 <= other < 13,
        other != surface_number(surface),
    ensures
        memory.with_motion_region(surface, region).slots[surface_number(surface)].motion_region
            == region,
        memory.with_motion_region(surface, region).slots[surface_number(surface)].motion
            == memory.slots[surface_number(surface)].motion,
        memory.with_motion_region(surface, region).slots[other] == memory.slots[other],
{
}

/// Where rows come, go or move and nothing is selected, the row at the top stays there, as far
/// as the list reaches.
pub proof fn law_the_first_row_stays(
    viewport: ViewportView,
    total: usize,
    max_rows: usize,
    previous: OrderedKeyView,
    key: OrderedKeyView,
    place: int,
)
    requires
        viewport.dataset_key == Some(DatasetKeyView::Ordered(previous)),
        !preserves(DatasetKeyView::Ordered(previous), DatasetKeyView::Ordered(key)),
        previous.context == key.context,
        key.update == DatasetUpdate::Reconcile,
        viewport.start < previous.identities.len(),
        total == key.identities.len(),
        0 <= place,
        place + max_rows <= total,
        max_rows > 0,
        key.identities[place] == previous.identities[viewport.start as int],
        forall|i: int|
            0 <= i < place ==> #[trigger] key.identities[i]
                != previous.identities[viewport.start as int],
    ensures
        shown(viewport, total, None, max_rows, DatasetKeyView::Ordered(key)).1.start == place,
{
    let top = previous.identities[viewport.start as int];
    crate::ui::views::list_laws::lemma_found(key.identities, top, place);
}

/// The row that a list marks is the one that is drawn as selected, among the rows that it
/// shows.
pub proof fn law_a_marked_row_is_drawn_as_selected(
    memory: MemoryView,
    lines: Seq<LineView>,
    targets: Seq<RowTargetView>,
    surface: ListSurface,
    theme: Theme,
    now_ms: u64,
    visible: Rect,
    row: usize,
)
    requires
        memory.wf(),
        on_surface(targets, surface).len() > 0,
        marked_row(lines, on_surface(targets, surface)) == Some(row),
        on_surface(targets, surface)[0].stable_index <= row,
        row <= on_surface(targets, surface).last().stable_index < usize::MAX,
    ensures
        ({
            let rows = on_surface(targets, surface);
            let (after, drawn) = list_selected(
                memory,
                lines,
                targets,
                surface,
                theme,
                now_ms,
                visible,
            );
            let slot = after.slots[surface_number(surface)];
            &&& slot.visible_range.start == rows[0].stable_index
            &&& slot.visible_range.end == rows.last().stable_index + 1
            &&& slot.seen
            &&& exists|presentation: SelectionPresentation|
                presentation.logical_index == Some(row) && drawn == #[trigger] selection_drawn(
                    lines,
                    rows,
                    presentation,
                    theme,
                )
        }),
{
    let rows = on_surface(targets, surface);
    let range = RowRange {
        start: rows[0].stable_index,
        end: (rows.last().stable_index + 1) as usize,
    };
    let presentation = memory.with_selection(
        surface,
        range.end,
        Some(row),
        range,
        rows[0].dataset_key,
        now_ms,
    ).1;
    let drawn = list_selected(memory, lines, targets, surface, theme, now_ms, visible).1;
    assert(presentation.logical_index == Some(row));
    assert(drawn == selection_drawn(lines, rows, presentation, theme));
}

/// A list without rows on the screen is left alone.
pub proof fn law_a_list_without_rows_is_left_alone(
    memory: MemoryView,
    lines: Seq<LineView>,
    targets: Seq<RowTargetView>,
    surface: ListSurface,
    theme: Theme,
    now_ms: u64,
    visible: Rect,
)
    requires
        on_surface(targets, surface).len() == 0,
    ensures
        list_selected(memory, lines, targets, surface, theme, now_ms, visible) == (memory, lines),
{
}

/// The tabs are put close together where they would not fit with their gaps.
pub proof fn law_tabs_are_close_where_they_must_be(width: int)
    ensures
        is_condensed(width) <==> 2 * 8 + 3 * 7 + cells(short_view_label(view_at(0))) + cells(
            short_view_label(view_at(1)),
        ) + cells(short_view_label(view_at(2))) + cells(short_view_label(view_at(3))) + cells(
            short_view_label(view_at(4)),
        ) + cells(short_view_label(view_at(5))) + cells(short_view_label(view_at(6))) + cells(
            short_view_label(view_at(7)),
        ) > width,
{
    reveal_with_fuel(roomy_width, 9);
}

/// The rows of a panel can be clicked where the panel shows them.
pub proof fn law_the_rows_of_a_panel_can_be_clicked(
    canvas: CanvasView,
    area: Rect,
    title: Seq<char>,
    focused: bool,
    theme: Theme,
    lines: Seq<LineView>,
    targets: Seq<RowTargetView>,
    now_ms: u64,
    watches_spinners: bool,
)
    ensures
        rows_panel(
            canvas,
            area,
            title,
            focused,
            theme,
            lines,
            targets,
            now_ms,
            watches_spinners,
        ).hits == row_hits(canvas.hits, inside(area), targets),
{
    reveal(rows_panel);
}

/// A picture fills its panel, as far as pictures go.
pub proof fn law_a_picture_fits_its_panel(
    canvas: CanvasView,
    area: Rect,
    theme: Theme,
    artwork: ArtworkPresentation,
    maximum: CellSize,
)
    requires
        area.x + area.width <= u16::MAX,
        area.y + area.height <= u16::MAX,
    ensures
        artwork_panel_drawn(canvas, area, theme, artwork, maximum).ops.last() matches
            DrawView::Artwork { area: place, presentation, .. } && {
            &&& presentation == artwork
            &&& place.x == inside(area).x
            &&& place.y == inside(area).y
            &&& place.width <= maximum.width && place.width <= inside(area).width
            &&& place.width == maximum.width || place.width == inside(area).width
            &&& place.height <= maximum.height && place.height <= inside(area).height
            &&& place.height == maximum.height || place.height == inside(area).height
        },
{
    reveal(artwork_panel_drawn);
}

/// Moving artwork is shown for a video that is played or paused on a wide screen, where it is
/// switched on and its picture is there.
pub proof fn law_moving_artwork_belongs_to_a_video(
    state: AppState,
    animation: Option<AnimationStoreView>,
    size: CellSize,
    layout: LayoutMode,
)
    requires
        animated_artwork(state, animation, size, layout) is Some,
    ensures
        layout == LayoutMode::Wide,
        state.switches.animated_artwork,
        state.playback.status == PlaybackStatus::Playing || state.playback.status
            == PlaybackStatus::Paused,
        ({
            &&& state.queue@.current_item() matches Some(item)
            &&& item.media.kind == MediaKind::Video
            &&& state.playback.current matches Some(id)
            &&& item.media.id == id@
        }),
        ({
            &&& animation matches Some(store)
            &&& store.slot matches Some(slot)
            &&& !slot.failed
            &&& slot.key.size == size
            &&& slot.frame matches Some(frame)
            &&& animated_artwork(state, animation, size, layout) == Some(
                ArtworkPresentation::Grid(frame),
            )
        }),
{
}

/// The queue is drawn with what is selected in it, and remembers where it is.
pub proof fn law_the_queue_is_drawn_with_its_selection(
    canvas: CanvasView,
    area: Rect,
    state: AppState,
    theme: Theme,
    model: RenderModelView,
)
    ensures
        ({
            let visible = inside(area);
            let rows = if visible.height < 128 {
                visible.height as usize
            } else {
                128
            };
            let picture = queue_picture(
                canvas.memory.queue,
                state.queue@,
                selected_entry(model),
                rows,
                visible.width as nat,
            );
            queue_drawn(canvas, area, state, theme, model).hits == row_hits(
                canvas.hits,
                visible,
                picture.targets,
            )
        }),
{
    reveal(queue_drawn);
    reveal(rows_panel);
}

/// The bar that moves is where the player draws it: in its third line.
pub proof fn law_the_bar_moves_where_it_is_drawn(
    canvas: CanvasView,
    area: Rect,
    state: AppState,
    theme: Theme,
    model: RenderModelView,
    compact: bool,
    spectrum: Option<SpectrumPresentationView>,
)
    requires
        area.height >= 5,
        area.x + area.width <= u16::MAX,
        area.y + area.height <= u16::MAX,
        progress_moves(state),
    ensures
        ({
            let visible = inside(area);
            let controls = controls_for_mode(
                state,
                compact,
                visible.width as nat,
                theme,
                progress_of(state, model),
            );
            let after = player_drawn(canvas, area, state, theme, model, compact, spectrum).memory;
            &&& controls.progress matches Some((offset, width)) ==> visible.x + offset + width
                <= u16::MAX ==> {
                &&& after.progress_motion_regions.len()
                    == canvas.memory.progress_motion_regions.len() + 1
                &&& after.progress_motion_regions.last() == (Rect {
                    x: (visible.x + offset) as u16,
                    y: (area.y + 3) as u16,
                    width,
                    height: 1,
                })
            }
            &&& controls.progress is None ==> after == canvas.memory
        }),
{
    reveal(player_drawn);
}

/// A line that is cut ends with the sign for what is left out.
pub proof fn law_a_cut_line_ends_with_its_sign(line: LineView, width: nat)
    requires
        width > 0,
    ensures
        ({
            let kept = kept_pieces(inspected_text(line), width, line_is_cut(line));
            let text = joined(contents(clipped(line, width).spans));
            let retained = joined(inspected(retained_text(line, width)));
            &&& kept is Some ==> text == retained + "…"@
            &&& kept is None ==> text == retained
        }),
{
    let retained = retained_text(line, width);
    let spans = restyled(line, inspected(retained));
    law_styling_keeps_the_text(line, inspected(retained));
    law_text_is_put_behind(spans, "…"@, style_at(line, retained.len() as int));
}

/// Toggling shows the other panel and gives it the focus, and toggling again the one before.
pub proof fn law_toggling_shows_the_other_panel(model: RenderModelView)
    ensures
        model.toggled().compact_panel != model.compact_panel,
        model.toggled().toggled().compact_panel == model.compact_panel,
        model.toggled().compact_panel == CompactPanel::Queue <==> model.toggled().focus
            == FocusRegion::Queue,
        model.toggled().compact_panel == CompactPanel::Content <==> model.toggled().focus
            == FocusRegion::Content,
        model.toggled().view == model.view,
        model.toggled().overlay == model.overlay,
{
}

/// What fits into the lyrics window is what its inside holds below the line for its source;
/// what fits into the help window is what its inside holds.
pub proof fn law_windows_hold_what_fits_inside(area: Rect)
    requires
        area.width >= 12,
        area.height >= 4,
        area.x + area.width <= u16::MAX,
        area.y + area.height <= u16::MAX,
    ensures
        lyrics_room(area) matches Some((rows, columns)) && columns == inside(
            window_of(area, Overlay::Lyrics),
        ).width && (rows + 1 == inside(window_of(area, Overlay::Lyrics)).height || rows == 0),
        help_room(area) == inside(window_of(area, Overlay::Help)).height,
{
}

/// Without room for windows nothing fits into them.
pub proof fn law_windows_need_room(area: Rect)
    requires
        area.width < 12 || area.height < 4,
    ensures
        lyrics_room(area) is None,
        help_room(area) == 0,
{
}

/// What the palette does is the command of the selected entry, or of the last one where the
/// selection is behind it.
pub proof fn law_the_palette_does_what_is_selected(palette: PaletteStateView)
    ensures
        palette.matching().len() == 0 ==> palette.chosen() is None,
        palette.selected < palette.matching().len() ==> palette.chosen() == Some(
            palette.matching()[palette.selected as int].action,
        ),
        0 < palette.matching().len() <= palette.selected ==> palette.chosen() == Some(
            palette.matching().last().action,
        ),
{
}

} // verus!
