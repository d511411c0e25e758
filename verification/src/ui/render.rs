//! The picture of the whole interface.

use vstd::prelude::*;
use vstd::string::*;

use crate::domain::{MediaKind, PlaybackStatus};
use crate::queue::QueueItemId;
use crate::text::{append_decimal, decimal_digits};
use crate::ui::animation::{
    AnimationFrameStore, AnimationKey, AnimationKeyView, AnimationStoreView,
};
use crate::ui::artwork::{
    ArtworkFallback, ArtworkPresentation, CellSize, PRODUCTION_ARTWORK_HEIGHT, PRODUCTION_ARTWORK_WIDTH,
};
use crate::ui::bars::{repeat, repeated};
use crate::ui::cells::{
    cell_width, cells, clip_lines, clipped_lines, truncate_cells, truncated,
};
use crate::ui::interaction::{with_hit, Hit, HitTarget, InteractionMap};
use crate::ui::layout::{
    capped_sum, centered, centered_rect, inside, least, limited, panel_inner, smaller,
    smaller_count, LayoutMode, Rect, MAX_RENDERED_ROWS, WIDE_MIN_WIDTH,
};
use crate::ui::line::{
    line_in_style, line_of, line_views, raw_line, raw_span, span_views, styled_span, Line,
    LineView, Span, SpanView,
};
use crate::ui::memory::{fresh_memory, MemoryView, ViewportMemory};
use crate::ui::model::{
    default_model, short_view_label, view_at, view_label, CompactPanel, FocusRegion, NavigationItem, Overlay,
    RenderModel, RenderModelView, NAVIGATION_ITEM_COUNT,
};
use crate::ui::motion::{ProgressPresentation, ProgressView};
use crate::ui::rows::{
    all_selections_drawn, apply_selection_motion, register_row_targets, row_hits,
};
use crate::ui::lyrics_panel::{
    automatic_lyrics_lines, current_lyrics, has_timed, has_timed_lyrics,
    lyrics_overlay_lines_with_motion, lyrics_window,
};
use crate::ui::palette::{palette_content, palette_lines_with_targets, palette_rows};
use crate::ui::player::{
    control_hits, controls_for_mode, optional_spectrum, player_content,
    player_controls_layout_for_mode, player_hits, player_lines, register_controls,
    register_player_interactions, tiny_player, tiny_player_layout,
};
use crate::ui::scene::{
    arranged, growing_parts, op_views, panel, panel_block, part, part_offset, split, total_asked,
    total_fixed, Canvas, CanvasView, Direction, DrawOp, DrawView, Extent,
};
use crate::ui::spectrum::{SpectrumPresentation, SpectrumPresentationView};
use crate::ui::state::AppState;
use crate::ui::theme::{optional_str, plain, ColorCapability, Style, Theme};
use crate::ui::viewport::{target_views, RenderedRowTarget, RowTargetView};
use crate::ui::views::favorites::favorites_picture;
use crate::ui::views::list::{blank, ListLines};
use crate::ui::views::pickers::{
    browser_picker_lines_with_viewport_and_targets, browser_picture,
    country_picker_lines_with_viewport_and_targets, country_picture, help_lines, help_page,
};
use crate::ui::views::queue::queue_picture;
use crate::ui::views::search::search_picture;
use crate::ui::views::settings::settings_lines;
use crate::ui::views::{favorites, queue, search, settings};

verus! {

/// A model as a layout can show it.
pub struct EffectiveModel<'a> {
    pub model: &'a RenderModel,
    pub focus: FocusRegion,
    pub compact_panel: CompactPanel,
}

impl<'a> View for EffectiveModel<'a> {
    type V = RenderModelView;

    open spec fn view(&self) -> RenderModelView {
        RenderModelView {
            focus: self.focus,
            compact_panel: self.compact_panel,
            ..self.model@
        }
    }
}

/// The model as a layout can show it.
pub fn effective_for_layout(model: &RenderModel, layout: LayoutMode) -> (effective: EffectiveModel<
    '_,
>)
    ensures
        effective@ == model@.normalized(layout),
{
    EffectiveModel {
        model,
        focus: model.focus_for(layout),
        compact_panel: model.compact_panel_for(layout),
    }
}

/// The picture with a panel of lines, of which some are rows of lists: the
/// selections are drawn, and the rows can be clicked.
#[verifier::opaque]
pub open spec fn rows_panel(
    canvas: CanvasView,
    area: Rect,
    title: Seq<char>,
    focused: bool,
    theme: Theme,
    lines: Seq<LineView>,
    targets: Seq<RowTargetView>,
    now_ms: u64,
    watches_spinners: bool,
) -> CanvasView {
    let visible = inside(area);
    let memory = if watches_spinners {
        canvas.memory.with_spinners(lines, visible)
    } else {
        canvas.memory
    };
    let (after, drawn) = all_selections_drawn(memory, lines, targets, theme, now_ms, visible);
    CanvasView {
        ops: canvas.ops.push(
            DrawView::Text {
                area,
                block: Some(panel(title, focused, theme)),
                style: plain(),
                lines: clipped_lines(drawn, visible.width as nat),
            },
        ),
        memory: after,
        hits: row_hits(canvas.hits, visible, targets),
    }
}

fn draw_rows_panel(
    canvas: &mut Canvas,
    area: Rect,
    title: &str,
    focused: bool,
    theme: &Theme,
    content: ListLines,
    now_ms: u64,
    watches_spinners: bool,
)
    requires
        old(canvas)@.memory.wf(),
    ensures
        final(canvas)@.memory.wf(),
        final(canvas)@ == rows_panel(
            old(canvas)@,
            area,
            title@,
            focused,
            *theme,
            line_views(content.lines@),
            target_views(content.targets@),
            now_ms,
            watches_spinners,
        ),
{
    proof {
        reveal(rows_panel);
    }
    let visible = panel_inner(area);
    let mut lines = content.lines;
    if watches_spinners {
        canvas.memory.observe_spinner_lines(&lines, visible);
    }
    apply_selection_motion(
        &mut lines,
        &content.targets,
        &mut canvas.memory,
        theme,
        now_ms,
        visible,
    );
    register_row_targets(&mut canvas.interactions, visible, &content.targets);
    let clipped = clip_lines(&lines, visible.width as usize);
    canvas.draw(
        DrawOp::Text {
            area,
            block: Some(panel_block(title, focused, theme)),
            style: Style::new(),
            lines: clipped,
        },
    );
}

/// The picture with a panel of lines.
pub open spec fn text_panel(
    canvas: CanvasView,
    area: Rect,
    title: Seq<char>,
    focused: bool,
    theme: Theme,
    lines: Seq<LineView>,
) -> CanvasView {
    canvas.with_op(
        DrawView::Text {
            area,
            block: Some(panel(title, focused, theme)),
            style: plain(),
            lines,
        },
    )
}

fn draw_text_panel(
    canvas: &mut Canvas,
    area: Rect,
    title: &str,
    focused: bool,
    theme: &Theme,
    lines: Vec<Line>,
)
    ensures
        final(canvas)@ == text_panel(
            old(canvas)@,
            area,
            title@,
            focused,
            *theme,
            line_views(lines@),
        ),
{
    canvas.draw(
        DrawOp::Text {
            area,
            block: Some(panel_block(title, focused, theme)),
            style: Style::new(),
            lines,
        },
    );
}

/// The style of a view's name.
pub open spec fn navigation_style_of(selected: bool, theme: Theme) -> Style {
    if selected {
        plain().on_fg(theme.selection).in_bold()
    } else {
        plain().on_fg(theme.foreground)
    }
}

fn navigation_style(selected: bool, theme: &Theme) -> (style: Style)
    ensures
        style == navigation_style_of(selected, *theme),
{
    if selected {
        Style::new().fg(theme.selection).bold()
    } else {
        Style::new().fg(theme.foreground)
    }
}

/// The columns that the names of the first `count` views take with room around
/// them.
pub open spec fn roomy_width(count: nat) -> int
    decreases count,
{
    if count == 0 {
        0
    } else {
        roomy_width((count - 1) as nat) + 2 + cells(short_view_label(view_at(count - 1)))
    }
}

/// Whether the names of the views stand close together.
pub open spec fn is_condensed(width: int) -> bool {
    roomy_width(NAVIGATION_ITEM_COUNT as nat) + 3 * (NAVIGATION_ITEM_COUNT - 1) > width
}

/// What stands in front of the name of a view.
pub open spec fn view_marker(selected: bool, condensed: bool) -> Seq<char> {
    if selected {
        "▶ "@
    } else if condensed {
        ""@
    } else {
        "  "@
    }
}

/// What stands behind the name of a view.
pub open spec fn view_separator(index: int, condensed: bool) -> Seq<char> {
    if index + 1 == NAVIGATION_ITEM_COUNT {
        ""@
    } else if condensed {
        " "@
    } else {
        " │ "@
    }
}

/// The columns behind the name of a view.
pub open spec fn separator_width(index: int, condensed: bool) -> int {
    if index + 1 == NAVIGATION_ITEM_COUNT {
        0
    } else if condensed {
        1
    } else {
        3
    }
}

/// The column at which the name of a view begins with its marker.
pub open spec fn view_column(start: u16, view: NavigationItem, condensed: bool, count: nat) -> u16
    decreases count,
{
    if count == 0 {
        start
    } else {
        let item = view_at(count - 1);
        capped_sum(
            capped_sum(
                capped_sum(
                    view_column(start, view, condensed, (count - 1) as nat) as int,
                    cells(view_marker(item == view, condensed)),
                ) as int,
                cells(short_view_label(item)),
            ) as int,
            separator_width(count - 1, condensed),
        )
    }
}

/// The places of the names of the first `count` views in a row, after those that
/// could already be clicked.
pub open spec fn tab_hits(
    hits: Seq<Hit>,
    visible: Rect,
    view: NavigationItem,
    condensed: bool,
    count: nat,
) -> Seq<Hit>
    decreases count,
{
    if count == 0 {
        hits
    } else {
        let item = view_at(count - 1);
        with_hit(
            tab_hits(hits, visible, view, condensed, (count - 1) as nat),
            limited(
                capped_sum(
                    view_column(visible.x, view, condensed, (count - 1) as nat) as int,
                    cells(view_marker(item == view, condensed)),
                ),
                visible.y,
                cells(short_view_label(item)) as u16,
                1,
            ),
            visible,
            HitTarget::Navigation(item),
        )
    }
}

/// The places of the names of the first `count` views in a column, after those
/// that could already be clicked.
pub open spec fn menu_hits(hits: Seq<Hit>, visible: Rect, count: nat) -> Seq<Hit>
    decreases count,
{
    if count == 0 {
        hits
    } else {
        with_hit(
            menu_hits(hits, visible, (count - 1) as nat),
            limited(
                capped_sum(visible.x as int, 2),
                capped_sum(visible.y as int, count - 1),
                cells(view_label(view_at(count - 1))) as u16,
                1,
            ),
            visible,
            HitTarget::Navigation(view_at(count - 1)),
        )
    }
}

/// The names of the views in a row.
pub open spec fn tab_spans(view: NavigationItem, condensed: bool, theme: Theme) -> Seq<SpanView> {
    Seq::new(
        2 * NAVIGATION_ITEM_COUNT as nat,
        |index: int|
            if index % 2 == 0 {
                let item = view_at(index / 2);
                styled_span(
                    view_marker(item == view, condensed) + short_view_label(item),
                    navigation_style_of(item == view, theme),
                )
            } else {
                raw_span(view_separator(index / 2, condensed))
            },
    )
}

/// The names of the views in a column.
pub open spec fn menu_lines(view: NavigationItem, theme: Theme) -> Seq<LineView> {
    Seq::new(
        NAVIGATION_ITEM_COUNT as nat,
        |index: int|
            {
                let item = view_at(index);
                line_in_style(
                    (if item == view {
                        "▶"@
                    } else {
                        " "@
                    }) + " "@ + view_label(item),
                    navigation_style_of(item == view, theme),
                )
            },
    )
}

/// The title of the navigation where there is little room: it tells which of
/// content and queue is shown.
pub open spec fn navigation_title(compact_panel: CompactPanel, queue_count: nat) -> Seq<char> {
    match compact_panel {
        CompactPanel::Content => "Navigation · [* Content] [Q Queue · "@ + decimal_digits(
            queue_count,
        ) + "]"@,
        CompactPanel::Queue => "Navigation · [Content] [* Q Queue · "@ + decimal_digits(
            queue_count,
        ) + "]"@,
    }
}

/// The picture with the navigation.
#[verifier::opaque]
pub open spec fn navigation_drawn(
    canvas: CanvasView,
    area: Rect,
    theme: Theme,
    model: RenderModelView,
    compact: bool,
    state: AppState,
) -> CanvasView {
    let focused = model.focus == FocusRegion::Navigation;
    let visible = inside(area);
    if compact {
        let condensed = is_condensed(visible.width as int);
        text_panel(
            CanvasView {
                hits: tab_hits(
                    canvas.hits,
                    visible,
                    model.view,
                    condensed,
                    NAVIGATION_ITEM_COUNT as nat,
                ),
                ..canvas
            },
            area,
            navigation_title(model.compact_panel, state.queue@.logical.len()),
            focused,
            theme,
            seq![line_of(tab_spans(model.view, condensed, theme))],
        )
    } else {
        text_panel(
            CanvasView {
                hits: menu_hits(canvas.hits, visible, NAVIGATION_ITEM_COUNT as nat),
                ..canvas
            },
            area,
            "Navigation"@,
            focused,
            theme,
            menu_lines(model.view, theme),
        )
    }
}

fn roomy_width_of_views() -> (width: usize)
    ensures
        width == roomy_width(NAVIGATION_ITEM_COUNT as nat),
        width <= 8 * 65_537,
{
    let mut width: usize = 0;
    let mut index: usize = 0;
    while index < NAVIGATION_ITEM_COUNT
        invariant
            index <= NAVIGATION_ITEM_COUNT,
            width == roomy_width(index as nat),
            width <= index * 65_537,
        decreases NAVIGATION_ITEM_COUNT - index,
    {
        width = width + 2 + cell_width(NavigationItem::at(index).compact_label()) as usize;
        index = index + 1;
    }
    width
}

fn marker_of_view(selected: bool, condensed: bool) -> (marker: &'static str)
    ensures
        marker@ == view_marker(selected, condensed),
{
    if selected {
        "▶ "
    } else if condensed {
        ""
    } else {
        "  "
    }
}

fn register_tabs(
    interactions: &mut InteractionMap,
    visible: Rect,
    view: NavigationItem,
    condensed: bool,
)
    ensures
        final(interactions)@ == tab_hits(
            old(interactions)@,
            visible,
            view,
            condensed,
            NAVIGATION_ITEM_COUNT as nat,
        ),
{
    let mut column: u16 = visible.x;
    let mut index: usize = 0;
    while index < NAVIGATION_ITEM_COUNT
        invariant
            index <= NAVIGATION_ITEM_COUNT,
            column == view_column(visible.x, view, condensed, index as nat),
            interactions@ == tab_hits(
                old(interactions)@,
                visible,
                view,
                condensed,
                index as nat,
            ),
        decreases NAVIGATION_ITEM_COUNT - index,
    {
        let item = NavigationItem::at(index);
        let marker: u16 = cell_width(marker_of_view(item == view, condensed));
        let label: u16 = cell_width(item.compact_label());
        let separator: u16 = if index + 1 == NAVIGATION_ITEM_COUNT {
            0
        } else if condensed {
            1
        } else {
            3
        };
        interactions.push_clipped(
            Rect::new(column.saturating_add(marker), visible.y, label, 1),
            visible,
            HitTarget::Navigation(item),
        );
        column = column.saturating_add(marker).saturating_add(label).saturating_add(separator);
        index = index + 1;
    }
}

fn register_menu(interactions: &mut InteractionMap, visible: Rect)
    ensures
        final(interactions)@ == menu_hits(
            old(interactions)@,
            visible,
            NAVIGATION_ITEM_COUNT as nat,
        ),
{
    let mut index: usize = 0;
    while index < NAVIGATION_ITEM_COUNT
        invariant
            index <= NAVIGATION_ITEM_COUNT,
            interactions@ == menu_hits(old(interactions)@, visible, index as nat),
        decreases NAVIGATION_ITEM_COUNT - index,
    {
        let item = NavigationItem::at(index);
        interactions.push_clipped(
            Rect::new(
                visible.x.saturating_add(2),
                visible.y.saturating_add(index as u16),
                cell_width(item.label()),
                1,
            ),
            visible,
            HitTarget::Navigation(item),
        );
        index = index + 1;
    }
}

fn tabs(view: NavigationItem, condensed: bool, theme: &Theme) -> (spans: Vec<Span>)
    ensures
        span_views(spans@) == tab_spans(view, condensed, *theme),
{
    let ghost expected = tab_spans(view, condensed, *theme);
    let mut spans: Vec<Span> = Vec::new();
    let mut index: usize = 0;
    assert(span_views(spans@) =~= expected.take(0));
    while index < NAVIGATION_ITEM_COUNT
        invariant
            expected == tab_spans(view, condensed, *theme),
            index <= NAVIGATION_ITEM_COUNT,
            span_views(spans@) == expected.take(2 * index as int),
        decreases NAVIGATION_ITEM_COUNT - index,
    {
        let ghost before = span_views(spans@);
        let item = NavigationItem::at(index);
        let selected = item == view;
        let mut text = marker_of_view(selected, condensed).to_owned();
        text.append(item.compact_label());
        spans.push(Span::styled(text, navigation_style(selected, theme)));
        assert(span_views(spans@) =~= before.push(expected[2 * index as int]));
        let separator = if index + 1 == NAVIGATION_ITEM_COUNT {
            ""
        } else if condensed {
            " "
        } else {
            " │ "
        };
        spans.push(Span::raw(separator.to_owned()));
        proof {
            let last = expected[2 * index as int + 1];
            assert((2 * index as int + 1) / 2 == index as int);
            assert(last == raw_span(view_separator(index as int, condensed)));
            assert(span_views(spans@) =~= before.push(expected[2 * index as int]).push(last));
            assert(span_views(spans@) =~= expected.take(2 * (index + 1)));
        }
        index = index + 1;
    }
    assert(expected.take(2 * index as int) =~= expected);
    spans
}

fn menu(view: NavigationItem, theme: &Theme) -> (lines: Vec<Line>)
    ensures
        line_views(lines@) == menu_lines(view, *theme),
{
    let ghost expected = menu_lines(view, *theme);
    let mut lines: Vec<Line> = Vec::new();
    let mut index: usize = 0;
    while index < NAVIGATION_ITEM_COUNT
        invariant
            expected == menu_lines(view, *theme),
            index <= NAVIGATION_ITEM_COUNT,
            lines.len() == index,
            forall|i: int| 0 <= i < index ==> (#[trigger] lines@[i])@ == expected[i],
        decreases NAVIGATION_ITEM_COUNT - index,
    {
        let item = NavigationItem::at(index);
        let selected = item == view;
        let mut text = if selected {
            "▶".to_owned()
        } else {
            " ".to_owned()
        };
        text.append(" ");
        text.append(item.label());
        lines.push(Line::in_style(text, navigation_style(selected, theme)));
        index = index + 1;
    }
    assert(line_views(lines@) =~= expected);
    lines
}

/// Draws the navigation.
pub fn render_navigation(
    canvas: &mut Canvas,
    area: Rect,
    theme: &Theme,
    model: &EffectiveModel<'_>,
    compact: bool,
    state: &AppState,
)
    ensures
        final(canvas)@ == navigation_drawn(
            old(canvas)@,
            area,
            *theme,
            model@,
            compact,
            *state,
        ),
        old(canvas)@.memory.wf() ==> final(canvas)@.memory.wf(),
{
    proof {
        reveal(navigation_drawn);
    }
    let focused = model.focus == FocusRegion::Navigation;
    let visible = panel_inner(area);
    let view = model.model.view;
    if compact {
        let count: usize = state.queue.items().len();
        assert(count == state.queue@.logical.len());
        let mut title = match model.compact_panel {
            CompactPanel::Content => "Navigation · [* Content] [Q Queue · ".to_owned(),
            CompactPanel::Queue => "Navigation · [Content] [* Q Queue · ".to_owned(),
        };
        append_decimal(&mut title, count as u64);
        title.append("]");
        let condensed = roomy_width_of_views() + 3 * (NAVIGATION_ITEM_COUNT - 1)
            > visible.width as usize;
        register_tabs(&mut canvas.interactions, visible, view, condensed);
        let line = Line::from_spans(tabs(view, condensed, theme));
        let lines: Vec<Line> = vec![line];
        assert(line_views(lines@) =~= seq![line@]);
        draw_text_panel(canvas, area, title.as_str(), focused, theme, lines);
    } else {
        register_menu(&mut canvas.interactions, visible);
        draw_text_panel(canvas, area, "Navigation", focused, theme, menu(view, theme));
    }
}

/// The first lines of a list, as far as there is room.
pub open spec fn first_lines(lines: Seq<LineView>, count: int) -> Seq<LineView> {
    lines.take(least(count, lines.len() as int))
}

/// What a view leaves behind: what is remembered, its lines and its rows.
#[verifier::ext_equal]
pub struct ContentView {
    pub memory: MemoryView,
    pub lines: Seq<LineView>,
    pub targets: Seq<RowTargetView>,
}

/// The lines of the view that is shown, and its rows. Views other than search,
/// favorites and settings come prepared.
#[verifier::opaque]
pub open spec fn content_of(
    memory: MemoryView,
    state: AppState,
    view: NavigationItem,
    available_rows: int,
    width: nat,
    draft: Option<Seq<char>>,
    max_fps: u8,
    spinner_index: usize,
) -> ContentView {
    let row_limit = least(available_rows, MAX_RENDERED_ROWS as int) as usize;
    if row_limit == 0 {
        ContentView { memory, lines: Seq::empty(), targets: Seq::empty() }
    } else {
        match view {
            NavigationItem::Search => {
                let picture = search_picture(
                    memory.search,
                    state.search,
                    row_limit,
                    width,
                    draft,
                    spinner_index,
                );
                ContentView {
                    memory: MemoryView { search: picture.viewport, ..memory },
                    lines: first_lines(picture.lines, row_limit as int),
                    targets: picture.targets,
                }
            },
            NavigationItem::Favorites => {
                let picture = favorites_picture(
                    memory.favorites,
                    state.favorites,
                    row_limit,
                    width,
                    spinner_index,
                );
                ContentView {
                    memory: MemoryView { favorites: picture.viewport, ..memory },
                    lines: first_lines(picture.lines, row_limit as int),
                    targets: picture.targets,
                }
            },
            NavigationItem::Settings => ContentView {
                memory,
                lines: first_lines(
                    settings_lines(state, row_limit as nat, width, max_fps),
                    row_limit as int,
                ),
                targets: Seq::empty(),
            },
            _ => ContentView {
                memory,
                lines: first_lines(line_views(state.prepared.lines@), row_limit as int),
                targets: target_views(state.prepared.targets@),
            },
        }
    }
}

fn prepared_content(state: &AppState) -> (drawn: ListLines)
    ensures
        line_views(drawn.lines@) == line_views(state.prepared.lines@),
        target_views(drawn.targets@) == target_views(state.prepared.targets@),
{
    let prepared = &state.prepared;
    let mut lines: Vec<Line> = Vec::new();
    let mut index: usize = 0;
    while index < prepared.lines.len()
        invariant
            index <= prepared.lines.len(),
            lines.len() == index,
            forall|i: int| 0 <= i < index ==> (#[trigger] lines@[i])@ == prepared.lines@[i]@,
        decreases prepared.lines.len() - index,
    {
        lines.push(prepared.lines[index].clone());
        index = index + 1;
    }
    assert(line_views(lines@) =~= line_views(prepared.lines@));
    let mut targets: Vec<RenderedRowTarget> = Vec::new();
    index = 0;
    while index < prepared.targets.len()
        invariant
            index <= prepared.targets.len(),
            targets.len() == index,
            forall|i: int| 0 <= i < index ==> (#[trigger] targets@[i])@ == prepared.targets@[i]@,
        decreases prepared.targets.len() - index,
    {
        targets.push(prepared.targets[index].clone());
        index = index + 1;
    }
    assert(target_views(targets@) =~= target_views(prepared.targets@));
    ListLines { lines, targets }
}

/// The lines of the view that is shown, and its rows.
pub fn content_lines_with_viewports_and_targets_with_spinner(
    state: &AppState,
    view: NavigationItem,
    available_rows: usize,
    available_width: usize,
    search_draft: Option<&str>,
    visualizer_max_fps: u8,
    viewports: &mut ViewportMemory,
    spinner_index: usize,
) -> (drawn: ListLines)
    ensures
        ({
            let content = content_of(
                old(viewports)@,
                *state,
                view,
                available_rows as int,
                available_width as nat,
                optional_str(search_draft),
                visualizer_max_fps,
                spinner_index,
            );
            &&& final(viewports)@ == content.memory
            &&& line_views(drawn.lines@) == content.lines
            &&& target_views(drawn.targets@) == content.targets
        }),
        old(viewports)@.wf() ==> final(viewports)@.wf(),
{
    proof {
        reveal(content_of);
    }
    let row_limit: usize = smaller_count(available_rows, MAX_RENDERED_ROWS);
    if row_limit == 0 {
        return blank();
    }
    let mut drawn = match view {
        NavigationItem::Search => search::lines_with_viewport_and_targets_with_spinner(
            state,
            row_limit,
            available_width,
            search_draft,
            &mut viewports.search,
            spinner_index,
        ),
        NavigationItem::Favorites => favorites::lines_with_viewport_and_targets_with_spinner(
            state,
            row_limit,
            available_width,
            &mut viewports.favorites,
            spinner_index,
        ),
        NavigationItem::Settings => {
            let lines = settings::lines(state, row_limit, available_width, visualizer_max_fps);
            let drawn = ListLines { lines, targets: Vec::new() };
            assert(target_views(drawn.targets@) =~= Seq::<RowTargetView>::empty());
            drawn
        },
        _ => prepared_content(state),
    };
    let ghost before = drawn.lines@;
    drawn.lines.truncate(row_limit);
    assert(line_views(drawn.lines@) =~= first_lines(line_views(before), row_limit as int));
    drawn
}

/// The title of the panel with the view.
pub open spec fn content_title(view: NavigationItem, focused: bool) -> Seq<char> {
    if focused {
        view_label(view) + " · focused content"@
    } else {
        view_label(view) + " · content"@
    }
}

/// The picture with the view that is shown.
#[verifier::opaque]
pub open spec fn content_drawn(
    canvas: CanvasView,
    area: Rect,
    state: AppState,
    theme: Theme,
    model: RenderModelView,
    max_fps: u8,
) -> CanvasView {
    let focused = model.focus == FocusRegion::Content;
    let visible = inside(area);
    let content = content_of(
        canvas.memory,
        state,
        model.view,
        visible.height as int,
        visible.width as nat,
        model.draft(),
        max_fps,
        model.motion_frame.spinner_index,
    );
    rows_panel(
        CanvasView { memory: content.memory, ..canvas },
        area,
        content_title(model.view, focused),
        focused,
        theme,
        content.lines,
        content.targets,
        model.motion_frame.elapsed_ms,
        true,
    )
}

/// Draws the view that is shown.
pub fn render_content(
    canvas: &mut Canvas,
    area: Rect,
    state: &AppState,
    theme: &Theme,
    model: &EffectiveModel<'_>,
    visualizer_max_fps: u8,
)
    requires
        old(canvas)@.memory.wf(),
    ensures
        final(canvas)@.memory.wf(),
        final(canvas)@ == content_drawn(
            old(canvas)@,
            area,
            *state,
            *theme,
            model@,
            visualizer_max_fps,
        ),
{
    proof {
        reveal(content_drawn);
    }
    let focused = model.focus == FocusRegion::Content;
    let visible = panel_inner(area);
    let drawn = content_lines_with_viewports_and_targets_with_spinner(
        state,
        model.model.view,
        visible.height as usize,
        visible.width as usize,
        model.model.search_draft(),
        visualizer_max_fps,
        &mut canvas.memory,
        model.model.motion_frame.spinner_index,
    );
    let mut title = model.model.view.label().to_owned();
    if focused {
        title.append(" · focused content");
    } else {
        title.append(" · content");
    }
    draw_rows_panel(
        canvas,
        area,
        title.as_str(),
        focused,
        theme,
        drawn,
        model.model.motion_frame.elapsed_ms,
        true,
    );
}

/// The entry of the queue that is selected, where the queue has the focus.
pub open spec fn selected_entry(model: RenderModelView) -> Option<Seq<char>> {
    if model.focus == FocusRegion::Queue {
        model.queue_selected_id
    } else {
        None
    }
}

/// The picture with the queue.
#[verifier::opaque]
pub open spec fn queue_drawn(
    canvas: CanvasView,
    area: Rect,
    state: AppState,
    theme: Theme,
    model: RenderModelView,
) -> CanvasView {
    let visible = inside(area);
    let picture = queue_picture(
        canvas.memory.queue,
        state.queue@,
        selected_entry(model),
        least(visible.height as int, MAX_RENDERED_ROWS as int) as usize,
        visible.width as nat,
    );
    rows_panel(
        CanvasView {
            memory: MemoryView { queue: picture.viewport, ..canvas.memory },
            ..canvas
        },
        area,
        "Queue · "@ + decimal_digits(state.queue@.logical.len()),
        model.focus == FocusRegion::Queue,
        theme,
        picture.lines,
        picture.targets,
        model.motion_frame.elapsed_ms,
        false,
    )
}

/// Draws the queue.
pub fn render_queue(
    canvas: &mut Canvas,
    area: Rect,
    state: &AppState,
    theme: &Theme,
    model: &EffectiveModel<'_>,
)
    requires
        old(canvas)@.memory.wf(),
        state.queue@.wf(),
    ensures
        final(canvas)@.memory.wf(),
        final(canvas)@ == queue_drawn(old(canvas)@, area, *state, *theme, model@),
{
    proof {
        reveal(queue_drawn);
    }
    let focused = model.focus == FocusRegion::Queue;
    let visible = panel_inner(area);
    let selected: Option<&QueueItemId> = if focused {
        model.model.queue_selected_id()
    } else {
        None
    };
    let drawn = queue::lines_with_viewport_and_targets(
        &state.queue,
        selected,
        smaller_count(visible.height as usize, MAX_RENDERED_ROWS),
        visible.width as usize,
        &mut canvas.memory.queue,
    );
    let count: usize = state.queue.items().len();
    assert(count == state.queue@.logical.len());
    let mut title = "Queue · ".to_owned();
    append_decimal(&mut title, count as u64);
    draw_rows_panel(
        canvas,
        area,
        title.as_str(),
        focused,
        theme,
        drawn,
        model.model.motion_frame.elapsed_ms,
        false,
    );
}

/// How far playback is: as the moment that is drawn tells, or else as it is.
pub open spec fn progress_of(state: AppState, model: RenderModelView) -> ProgressView {
    if model.motion_frame_set {
        model.motion_frame.progress
    } else {
        state.progress@
    }
}

/// Whether the progress bar moves: something is played that has not ended.
pub open spec fn progress_moves(state: AppState) -> bool {
    &&& state.playback.status == PlaybackStatus::Playing
    &&& state.playback.duration_ms matches Some(duration)
    &&& state.playback.position_ms < duration
}

/// The picture with the player.
#[verifier::opaque]
pub open spec fn player_drawn(
    canvas: CanvasView,
    area: Rect,
    state: AppState,
    theme: Theme,
    model: RenderModelView,
    compact: bool,
    spectrum: Option<SpectrumPresentationView>,
) -> CanvasView {
    let visible = inside(area);
    let width = visible.width as nat;
    let controls = controls_for_mode(state, compact, width, theme, progress_of(state, model));
    text_panel(
        CanvasView {
            memory: match controls.progress {
                Some((offset, bar_width)) => if progress_moves(state) {
                    canvas.memory.with_progress(
                        limited(
                            capped_sum(visible.x as int, offset as int),
                            capped_sum(visible.y as int, 2),
                            bar_width,
                            1,
                        ),
                    )
                } else {
                    canvas.memory
                },
                None => canvas.memory,
            },
            hits: player_hits(canvas.hits, area, controls),
            ..canvas
        },
        area,
        "Player · persistent"@,
        model.focus == FocusRegion::Player,
        theme,
        clipped_lines(
            player_content(state, compact, width, theme, spectrum, controls.line),
            width,
        ),
    )
}

/// Draws the player.
pub fn render_player(
    canvas: &mut Canvas,
    area: Rect,
    state: &AppState,
    theme: &Theme,
    model: &EffectiveModel<'_>,
    compact: bool,
    spectrum: Option<&SpectrumPresentation>,
)
    requires
        old(canvas)@.memory.wf(),
        state.queue@.wf(),
    ensures
        final(canvas)@.memory.wf(),
        final(canvas)@ == player_drawn(
            old(canvas)@,
            area,
            *state,
            *theme,
            model@,
            compact,
            optional_spectrum(spectrum),
        ),
{
    proof {
        reveal(player_drawn);
    }
    let visible = panel_inner(area);
    let width: usize = visible.width as usize;
    let progress: &ProgressPresentation = if model.model.motion_frame_set {
        &model.model.motion_frame.progress
    } else {
        &state.progress
    };
    let controls = player_controls_layout_for_mode(state, compact, width, theme, progress);
    let moves = match state.playback.status {
        PlaybackStatus::Playing => match state.playback.duration_ms {
            Some(duration) => state.playback.position_ms < duration,
            None => false,
        },
        _ => false,
    };
    match controls.progress {
        Some((offset, bar_width)) => {
            if moves {
                canvas.memory.note_progress(
                    Rect::new(
                        visible.x.saturating_add(offset),
                        visible.y.saturating_add(2),
                        bar_width,
                        1,
                    ),
                );
            }
        },
        None => {},
    }
    register_player_interactions(&mut canvas.interactions, area, &controls);
    let lines = player_lines(state, compact, width, theme, spectrum, controls.line);
    let clipped = clip_lines(&lines, width);
    draw_text_panel(
        canvas,
        area,
        "Player · persistent",
        model.focus == FocusRegion::Player,
        theme,
        clipped,
    );
}

/// The columns that what is played must have for lyrics to stand there.
pub const TINY_LYRICS_MIN_IDENTITY_WIDTH: u16 = 8;

/// The style that ends all modifiers, in the theme's colors.
pub open spec fn neutral_style(theme: Theme) -> Style {
    Style {
        fg: Some(theme.foreground),
        bg: Some(theme.background),
        bold: false,
        dim: false,
        clears_modifiers: true,
    }
}

/// The picture with a player of one line. What is sung takes the place of what is
/// played, where there is room for it.
#[verifier::opaque]
pub open spec fn player_line_drawn(
    canvas: CanvasView,
    area: Rect,
    state: AppState,
    theme: Theme,
) -> CanvasView {
    if area.width == 0 || area.height == 0 {
        canvas
    } else {
        let layout = tiny_player(state, area.width as nat);
        let (offset, width) = layout.identity;
        let base = canvas.with_op(
            DrawView::Text {
                area,
                block: None,
                style: plain().on_fg(theme.foreground).on_bg(theme.background).in_bold(),
                lines: seq![raw_line(layout.text)],
            },
        );
        let lyrics = current_lyrics(state, 1, width as nat, theme);
        let lyric_area = limited(capped_sum(area.x as int, offset as int), area.y, width, 1);
        let drawn = if width >= TINY_LYRICS_MIN_IDENTITY_WIDTH && lyrics.len() > 0 {
            base.with_op(
                DrawView::Text {
                    area: lyric_area,
                    block: None,
                    style: neutral_style(theme),
                    lines: seq![raw_line(repeated(' ', width as nat))],
                },
            ).with_op(
                DrawView::Text {
                    area: lyric_area,
                    block: None,
                    style: plain().on_bg(theme.background),
                    lines: seq![lyrics.last()],
                },
            )
        } else {
            base
        };
        CanvasView { hits: control_hits(canvas.hits, area, area.y, layout.controls), ..drawn }
    }
}

fn draw_line(canvas: &mut Canvas, area: Rect, style: Style, line: Line)
    ensures
        final(canvas)@ == old(canvas)@.with_op(
            DrawView::Text { area, block: None, style, lines: seq![line@] },
        ),
{
    let lines: Vec<Line> = vec![line];
    assert(line_views(lines@) =~= seq![line@]);
    canvas.draw(DrawOp::Text { area, block: None, style, lines });
}

/// Draws a player of one line.
pub fn render_player_line(canvas: &mut Canvas, area: Rect, state: &AppState, theme: &Theme)
    requires
        old(canvas)@.memory.wf(),
        state.queue@.wf(),
    ensures
        final(canvas)@.memory.wf(),
        final(canvas)@ == player_line_drawn(old(canvas)@, area, *state, *theme),
{
    proof {
        reveal(player_line_drawn);
    }
    if area.width == 0 || area.height == 0 {
        return;
    }
    let layout = tiny_player_layout(state, area.width as usize);
    let base_style = Style::new().fg(theme.foreground).bg(theme.background).bold();
    let (offset, width): (u16, u16) = layout.identity;
    draw_line(canvas, area, base_style, Line::from_text(layout.text));
    if width >= TINY_LYRICS_MIN_IDENTITY_WIDTH {
        let mut lyrics = automatic_lyrics_lines(state, 1, width as usize, theme);
        let ghost sung = line_views(lyrics@);
        assert(sung.len() == lyrics@.len());
        match lyrics.pop() {
            Some(lyric) => {
                assert(lyric@ == sung.last());
                let lyric_area = Rect::new(area.x.saturating_add(offset), area.y, width, 1);
                let neutral = Style::reset().fg(theme.foreground).bg(theme.background);
                draw_line(
                    canvas,
                    lyric_area,
                    neutral,
                    Line::from_text(repeat(' ', width as usize)),
                );
                draw_line(canvas, lyric_area, Style::new().bg(theme.background), lyric);
            },
            None => {},
        }
    }
    register_controls(&mut canvas.interactions, area, area.y, &layout.controls);
}

/// What stands on a screen that is too small for a window.
pub open spec fn overlay_label(overlay: Overlay) -> Seq<char> {
    match overlay {
        Overlay::Help => "Help · Esc"@,
        Overlay::CommandPalette => "Commands · Esc"@,
        Overlay::CountryPicker => "Country · Esc"@,
        Overlay::BrowserPicker => "Browser · Esc"@,
        Overlay::Lyrics => "Lyrics · Esc"@,
    }
}

/// The size of a window, where there is room for it.
pub open spec fn overlay_size(overlay: Overlay) -> (u16, u16) {
    match overlay {
        Overlay::Help => (74, 15),
        Overlay::CommandPalette => (68, 22),
        Overlay::CountryPicker => (48, 20),
        Overlay::BrowserPicker => (36, 12),
        Overlay::Lyrics => (84, 28),
    }
}

/// The title of a window.
pub open spec fn overlay_title(overlay: Overlay, model: RenderModelView) -> Seq<char> {
    match overlay {
        Overlay::Help => "Help · ? or Esc to close"@,
        Overlay::CommandPalette => "Command palette · type to filter · Esc"@,
        Overlay::CountryPicker => "Country picker · Enter select · Esc"@,
        Overlay::BrowserPicker => "Browser picker · Enter import · Esc"@,
        Overlay::Lyrics => if model.lyrics.follow_active {
            "Lyrics · following · arrows/j/k scroll · Enter recenter · L/Esc"@
        } else {
            "Lyrics · manual · Enter recenter · L/Esc"@
        },
    }
}

/// Whether a screen has room for windows.
pub open spec fn has_room_for_windows(area: Rect) -> bool {
    area.width >= 12 && area.height >= 4
}

/// The window on a screen.
pub open spec fn window_of(area: Rect, overlay: Overlay) -> Rect {
    centered(area, overlay_size(overlay).0, overlay_size(overlay).1)
}

/// The lines of a window, and its rows.
#[verifier::opaque]
pub open spec fn overlay_content(
    memory: MemoryView,
    state: AppState,
    theme: Theme,
    overlay: Overlay,
    model: RenderModelView,
    rows: usize,
    width: nat,
) -> ContentView {
    match overlay {
        Overlay::Help => ContentView {
            memory,
            lines: help_page(model.help_scroll as nat, rows as nat),
            targets: Seq::empty(),
        },
        Overlay::CommandPalette => ContentView {
            memory,
            lines: palette_content(model.palette, rows as nat, width),
            targets: palette_rows(model.palette, rows as nat),
        },
        Overlay::CountryPicker => {
            let picture = country_picture(
                memory.country_picker,
                model.country_picker,
                rows,
                width,
            );
            ContentView {
                memory: MemoryView { country_picker: picture.viewport, ..memory },
                lines: picture.lines,
                targets: picture.targets,
            }
        },
        Overlay::BrowserPicker => {
            let picture = browser_picture(
                memory.browser_picker,
                model.browser_picker,
                rows,
                width,
            );
            ContentView {
                memory: MemoryView { browser_picker: picture.viewport, ..memory },
                lines: picture.lines,
                targets: picture.targets,
            }
        },
        Overlay::Lyrics => {
            let (after, lines) = lyrics_window(
                memory,
                state,
                model.lyrics,
                rows as nat,
                width,
                theme,
                model.motion_frame.spinner_index,
                model.motion_frame.elapsed_ms,
            );
            ContentView { memory: after, lines, targets: Seq::empty() }
        },
    }
}

/// The picture with a window over it.
#[verifier::opaque]
pub open spec fn overlay_drawn(
    canvas: CanvasView,
    area: Rect,
    state: AppState,
    theme: Theme,
    overlay: Overlay,
    model: RenderModelView,
) -> CanvasView {
    if area.width == 0 || area.height == 0 {
        canvas
    } else if !has_room_for_windows(area) {
        CanvasView { memory: canvas.memory.covered(area), ..canvas }.with_op(
            DrawView::Clear { area },
        ).with_op(
            DrawView::Text {
                area,
                block: None,
                style: plain().on_fg(theme.foreground).on_bg(theme.background).in_bold(),
                lines: seq![raw_line(truncated(overlay_label(overlay), area.width as nat))],
            },
        )
    } else {
        let popup = window_of(area, overlay);
        let visible = inside(popup);
        let content = overlay_content(
            canvas.memory.covered(popup),
            state,
            theme,
            overlay,
            model,
            visible.height as usize,
            visible.width as nat,
        );
        rows_panel(
            CanvasView { memory: content.memory, ..canvas }.with_op(
                DrawView::Clear { area: popup },
            ),
            popup,
            overlay_title(overlay, model),
            true,
            theme,
            first_lines(content.lines, visible.height as int),
            content.targets,
            model.motion_frame.elapsed_ms,
            true,
        )
    }
}

/// Where the rows of a window go that can be clicked, for windows that have such
/// rows.
pub fn overlay_target_buffer(
    overlay: Overlay,
    interactions_enabled: bool,
    available_rows: usize,
) -> (buffer: Option<Vec<RenderedRowTarget>>)
    ensures
        buffer is Some == (interactions_enabled && (overlay == Overlay::CommandPalette || overlay
            == Overlay::CountryPicker || overlay == Overlay::BrowserPicker)),
        buffer matches Some(targets) ==> targets@.len() == 0,
{
    match overlay {
        Overlay::CommandPalette | Overlay::CountryPicker | Overlay::BrowserPicker => {
            if interactions_enabled {
                Some(Vec::with_capacity(smaller_count(available_rows, MAX_RENDERED_ROWS)))
            } else {
                None
            }
        },
        _ => None,
    }
}

fn label_of_overlay(overlay: Overlay) -> (label: &'static str)
    ensures
        label@ == overlay_label(overlay),
{
    match overlay {
        Overlay::Help => "Help · Esc",
        Overlay::CommandPalette => "Commands · Esc",
        Overlay::CountryPicker => "Country · Esc",
        Overlay::BrowserPicker => "Browser · Esc",
        Overlay::Lyrics => "Lyrics · Esc",
    }
}

fn size_of_overlay(overlay: Overlay) -> (size: (u16, u16))
    ensures
        size == overlay_size(overlay),
{
    match overlay {
        Overlay::Help => (74, 15),
        Overlay::CommandPalette => (68, 22),
        Overlay::CountryPicker => (48, 20),
        Overlay::BrowserPicker => (36, 12),
        Overlay::Lyrics => (84, 28),
    }
}

fn title_of_overlay(overlay: Overlay, model: &EffectiveModel<'_>) -> (title: &'static str)
    ensures
        title@ == overlay_title(overlay, model@),
{
    match overlay {
        Overlay::Help => "Help · ? or Esc to close",
        Overlay::CommandPalette => "Command palette · type to filter · Esc",
        Overlay::CountryPicker => "Country picker · Enter select · Esc",
        Overlay::BrowserPicker => "Browser picker · Enter import · Esc",
        Overlay::Lyrics => if model.model.lyrics.follow_active {
            "Lyrics · following · arrows/j/k scroll · Enter recenter · L/Esc"
        } else {
            "Lyrics · manual · Enter recenter · L/Esc"
        },
    }
}

fn lines_of_overlay(
    memory: &mut ViewportMemory,
    state: &AppState,
    theme: &Theme,
    overlay: Overlay,
    model: &EffectiveModel<'_>,
    rows: usize,
    width: usize,
) -> (drawn: ListLines)
    requires
        old(memory)@.wf(),
    ensures
        final(memory)@.wf(),
        ({
            let content = overlay_content(
                old(memory)@,
                *state,
                *theme,
                overlay,
                model@,
                rows,
                width as nat,
            );
            &&& final(memory)@ == content.memory
            &&& line_views(drawn.lines@) == content.lines
            &&& target_views(drawn.targets@) == content.targets
        }),
{
    proof {
        reveal(overlay_content);
    }
    match overlay {
        Overlay::Help => {
            let drawn = ListLines {
                lines: help_lines(model.model.help_scroll, rows),
                targets: Vec::new(),
            };
            assert(target_views(drawn.targets@) =~= Seq::<RowTargetView>::empty());
            drawn
        },
        Overlay::CommandPalette => {
            let (lines, targets) = palette_lines_with_targets(&model.model.palette, rows, width);
            ListLines { lines, targets }
        },
        Overlay::CountryPicker => country_picker_lines_with_viewport_and_targets(
            &model.model.country_picker,
            rows,
            width,
            &mut memory.country_picker,
        ),
        Overlay::BrowserPicker => browser_picker_lines_with_viewport_and_targets(
            &model.model.browser_picker,
            rows,
            width,
            &mut memory.browser_picker,
        ),
        Overlay::Lyrics => {
            let lines = lyrics_overlay_lines_with_motion(
                state,
                &model.model.lyrics,
                rows,
                width,
                theme,
                model.model.motion_frame.spinner_index,
                memory,
                model.model.motion_frame.elapsed_ms,
            );
            let drawn = ListLines { lines, targets: Vec::new() };
            assert(target_views(drawn.targets@) =~= Seq::<RowTargetView>::empty());
            drawn
        },
    }
}

/// Draws a window.
pub fn render_overlay(
    canvas: &mut Canvas,
    area: Rect,
    state: &AppState,
    theme: &Theme,
    overlay: Overlay,
    model: &EffectiveModel<'_>,
)
    requires
        old(canvas)@.memory.wf(),
    ensures
        final(canvas)@.memory.wf(),
        final(canvas)@ == overlay_drawn(
            old(canvas)@,
            area,
            *state,
            *theme,
            overlay,
            model@,
        ),
{
    proof {
        reveal(overlay_drawn);
    }
    if area.width == 0 || area.height == 0 {
        return;
    }
    if area.width < 12 || area.height < 4 {
        canvas.memory.occlude_motion(area);
        canvas.draw(DrawOp::Clear { area });
        let label = truncate_cells(label_of_overlay(overlay), area.width as usize);
        draw_line(
            canvas,
            area,
            Style::new().fg(theme.foreground).bg(theme.background).bold(),
            Line::from_text(label),
        );
        return;
    }
    let size = size_of_overlay(overlay);
    let popup = centered_rect(area, size.0, size.1);
    let visible = panel_inner(popup);
    canvas.memory.occlude_motion(popup);
    canvas.draw(DrawOp::Clear { area: popup });
    let mut drawn = lines_of_overlay(
        &mut canvas.memory,
        state,
        theme,
        overlay,
        model,
        visible.height as usize,
        visible.width as usize,
    );
    let ghost before = drawn.lines@;
    drawn.lines.truncate(visible.height as usize);
    assert(line_views(drawn.lines@) =~= first_lines(line_views(before), visible.height as int));
    draw_rows_panel(
        canvas,
        popup,
        title_of_overlay(overlay, model),
        true,
        theme,
        drawn,
        model.model.motion_frame.elapsed_ms,
        true,
    );
}

/// The width of the picture on a compact screen.
pub const COMPACT_ARTWORK_WIDTH: u16 = 12;

/// The height of the picture on a compact screen.
pub const COMPACT_ARTWORK_HEIGHT: u16 = 5;

/// The width of the panel with the picture on a compact screen.
pub const COMPACT_ARTWORK_PANEL_WIDTH: u16 = 14;

/// The height of the panel with the picture on a compact screen.
pub const COMPACT_ARTWORK_PANEL_HEIGHT: u16 = 7;

/// The columns that a compact screen keeps for content and queue.
pub const COMPACT_MIN_MAIN_WIDTH: u16 = 44;

/// The step that draws a picture.
pub fn render_artwork(
    area: Rect,
    presentation: &ArtworkPresentation,
    capability: ColorCapability,
) -> (op: DrawOp)
    ensures
        op@ == (DrawView::Artwork {
            area,
            presentation: *presentation,
            fitted: false,
            capability,
        }),
{
    DrawOp::Artwork { area, presentation: presentation.clone(), fitted: false, capability }
}

fn render_fitted_artwork(
    area: Rect,
    presentation: &ArtworkPresentation,
    capability: ColorCapability,
) -> (op: DrawOp)
    ensures
        op@ == (DrawView::Artwork {
            area,
            presentation: *presentation,
            fitted: true,
            capability,
        }),
{
    DrawOp::Artwork { area, presentation: presentation.clone(), fitted: true, capability }
}

/// The picture with the artwork panel. On a compact screen the artwork is made
/// smaller.
#[verifier::opaque]
pub open spec fn artwork_panel_drawn(
    canvas: CanvasView,
    area: Rect,
    theme: Theme,
    artwork: ArtworkPresentation,
    maximum: CellSize,
) -> CanvasView {
    let visible = inside(area);
    canvas.with_op(DrawView::Panel { area, border: panel("Artwork"@, false, theme) }).with_op(
        DrawView::Artwork {
            area: limited(
                visible.x,
                visible.y,
                least(visible.width as int, maximum.width as int) as u16,
                least(visible.height as int, maximum.height as int) as u16,
            ),
            presentation: artwork,
            fitted: maximum == (CellSize {
                width: COMPACT_ARTWORK_WIDTH,
                height: COMPACT_ARTWORK_HEIGHT,
            }),
            capability: theme.shows(),
        },
    )
}

/// Draws the artwork panel.
pub fn render_artwork_panel(
    canvas: &mut Canvas,
    area: Rect,
    theme: &Theme,
    artwork: &ArtworkPresentation,
    maximum_size: CellSize,
)
    ensures
        final(canvas)@ == artwork_panel_drawn(
            old(canvas)@,
            area,
            *theme,
            *artwork,
            maximum_size,
        ),
        old(canvas)@.memory.wf() ==> final(canvas)@.memory.wf(),
{
    proof {
        reveal(artwork_panel_drawn);
    }
    canvas.draw(DrawOp::Panel { area, border: panel_block("Artwork", false, theme) });
    let visible = panel_inner(area);
    let inner = Rect::new(
        visible.x,
        visible.y,
        smaller(visible.width, maximum_size.width),
        smaller(visible.height, maximum_size.height),
    );
    let compact = maximum_size.width == COMPACT_ARTWORK_WIDTH && maximum_size.height
        == COMPACT_ARTWORK_HEIGHT;
    canvas.draw(
        if compact {
            render_fitted_artwork(inner, artwork, theme.capability())
        } else {
            render_artwork(inner, artwork, theme.capability())
        },
    );
}

/// What is drawn besides the player's own state: artwork and spectrum.
#[derive(Clone, Copy)]
pub struct RenderEnhancements<'a> {
    pub artwork: Option<&'a ArtworkPresentation>,
    pub spectrum: Option<&'a SpectrumPresentation>,
    pub visualizer_max_fps: u8,
}

/// What [`RenderEnhancements`] hold.
pub struct EnhancementsView {
    pub artwork: Option<ArtworkPresentation>,
    pub spectrum: Option<SpectrumPresentationView>,
    pub visualizer_max_fps: u8,
}

impl<'a> View for RenderEnhancements<'a> {
    type V = EnhancementsView;

    open spec fn view(&self) -> EnhancementsView {
        EnhancementsView {
            artwork: match self.artwork {
                Some(artwork) => Some(*artwork),
                None => None,
            },
            spectrum: optional_spectrum(self.spectrum),
            visualizer_max_fps: self.visualizer_max_fps,
        }
    }
}

impl<'a> RenderEnhancements<'a> {
    pub fn new(
        artwork: Option<&'a ArtworkPresentation>,
        spectrum: Option<&'a SpectrumPresentation>,
        visualizer_max_fps: u8,
    ) -> (enhancements: Self)
        ensures
            enhancements.artwork == artwork,
            enhancements.spectrum == spectrum,
            enhancements.visualizer_max_fps == visualizer_max_fps,
    {
        RenderEnhancements { artwork, spectrum, visualizer_max_fps }
    }
}

/// The height of the player on a wide screen.
pub open spec fn wide_player_height(state: AppState, spectrum: bool) -> u16 {
    (5 + (if spectrum {
        3int
    } else {
        0int
    }) + (if has_timed(state) {
        3int
    } else {
        0int
    })) as u16
}

/// The height of the player on a compact screen.
pub open spec fn compact_player_height(state: AppState, spectrum: bool) -> u16 {
    (5 + (if spectrum {
        1int
    } else {
        0int
    }) + (if has_timed(state) {
        1int
    } else {
        0int
    })) as u16
}

/// The size of the picture on a wide screen.
pub open spec fn wide_artwork_size() -> CellSize {
    CellSize { width: PRODUCTION_ARTWORK_WIDTH, height: PRODUCTION_ARTWORK_HEIGHT }
}

/// The size of the picture on a compact screen.
pub open spec fn compact_artwork_size() -> CellSize {
    CellSize { width: COMPACT_ARTWORK_WIDTH, height: COMPACT_ARTWORK_HEIGHT }
}

/// The rows of a wide screen: above the player, and the player.
pub open spec fn wide_rows(area: Rect, player_height: u16) -> Seq<Rect> {
    arranged(
        area,
        Direction::Vertical,
        seq![Extent::AtLeast(0), Extent::Exactly(player_height)],
    )
}

/// The columns of a wide screen: navigation, content, artwork where there is any,
/// and queue.
pub open spec fn wide_columns(area: Rect, artwork: bool) -> Seq<Rect> {
    arranged(
        area,
        Direction::Horizontal,
        if artwork {
            seq![
                Extent::Exactly(22),
                Extent::AtLeast(24),
                Extent::Exactly((PRODUCTION_ARTWORK_WIDTH + 2) as u16),
                Extent::Exactly(34),
            ]
        } else {
            seq![Extent::Exactly(22), Extent::AtLeast(24), Extent::Exactly(34)]
        },
    )
}

/// A wide screen.
#[verifier::opaque]
pub open spec fn wide_drawn(
    canvas: CanvasView,
    area: Rect,
    state: AppState,
    theme: Theme,
    model: RenderModelView,
    enhancements: EnhancementsView,
) -> CanvasView {
    let rows = wide_rows(area, wide_player_height(state, enhancements.spectrum is Some));
    let columns = wide_columns(rows[0], enhancements.artwork is Some);
    let navigation = navigation_drawn(canvas, columns[0], theme, model, false, state);
    let content = content_drawn(
        navigation,
        columns[1],
        state,
        theme,
        model,
        enhancements.visualizer_max_fps,
    );
    let lists = match enhancements.artwork {
        Some(artwork) => queue_drawn(
            artwork_panel_drawn(content, columns[2], theme, artwork, wide_artwork_size()),
            columns[3],
            state,
            theme,
            model,
        ),
        None => queue_drawn(content, columns[2], state, theme, model),
    };
    player_drawn(lists, rows[1], state, theme, model, false, enhancements.spectrum)
}

pub proof fn lemma_one_part(part: Extent)
    ensures
        growing_parts(seq![part]) == match part {
            Extent::AtLeast(size) => 1int,
            Extent::Exactly(size) => 0int,
        },
        total_asked(seq![part]) == match part {
            Extent::AtLeast(size) => size as int,
            Extent::Exactly(size) => size as int,
        },
        total_fixed(seq![part]) == match part {
            Extent::AtLeast(size) => 0,
            Extent::Exactly(size) => size as int,
        },
{
    reveal_with_fuel(growing_parts, 2);
    reveal_with_fuel(total_asked, 2);
    reveal_with_fuel(total_fixed, 2);
    assert(seq![part].drop_last() =~= Seq::<Extent>::empty());
}

pub proof fn lemma_push_part(parts: Seq<Extent>, part: Extent)
    ensures
        growing_parts(parts.push(part)) == growing_parts(parts) + growing_parts(seq![part]),
        total_asked(parts.push(part)) == total_asked(parts) + total_asked(seq![part]),
        total_fixed(parts.push(part)) == total_fixed(parts) + total_fixed(seq![part]),
{
    lemma_one_part(part);
    assert(parts.push(part).drop_last() =~= parts);
}

fn split_wide_rows(area: Rect, player_height: u16) -> (rows: Vec<Rect>)
    requires
        player_height <= area.height,
        area.x + area.width <= u16::MAX,
        area.y + area.height <= u16::MAX,
    ensures
        rows@ == wide_rows(area, player_height),
        rows@.len() == 2,
        rows@[0].x == area.x,
        rows@[0].width == area.width,
        rows@[0].y + rows@[0].height <= u16::MAX,
{
    let parts: Vec<Extent> = vec![Extent::AtLeast(0), Extent::Exactly(player_height)];
    proof {
        lemma_one_part(parts@[0]);
        lemma_one_part(parts@[1]);
        lemma_push_part(seq![parts@[0]], parts@[1]);
        assert(parts@ =~= seq![parts@[0]].push(parts@[1]));
        assert(parts@ =~= seq![Extent::AtLeast(0), Extent::Exactly(player_height)]);
        assert(part_offset(parts@, area.height as int, 0) == 0);
    }
    split(area, Direction::Vertical, &parts)
}

fn split_wide_columns(area: Rect, artwork: bool) -> (columns: Vec<Rect>)
    requires
        area.width >= WIDE_MIN_WIDTH,
        area.x + area.width <= u16::MAX,
        area.y + area.height <= u16::MAX,
    ensures
        columns@ == wide_columns(area, artwork),
        columns@.len() == if artwork {
            4int
        } else {
            3int
        },
{
    let mut parts: Vec<Extent> = vec![Extent::Exactly(22), Extent::AtLeast(24)];
    proof {
        lemma_one_part(parts@[0]);
        lemma_one_part(parts@[1]);
        lemma_push_part(seq![parts@[0]], parts@[1]);
        assert(parts@ =~= seq![parts@[0]].push(parts@[1]));
    }
    if artwork {
        let ghost before = parts@;
        parts.push(Extent::Exactly(PRODUCTION_ARTWORK_WIDTH + 2));
        proof {
            lemma_one_part(parts@[2]);
            lemma_push_part(before, parts@[2]);
        }
    }
    let ghost before = parts@;
    parts.push(Extent::Exactly(34));
    proof {
        lemma_one_part(parts@.last());
        lemma_push_part(before, parts@.last());
        if artwork {
            assert(parts@ =~= seq![
                Extent::Exactly(22),
                Extent::AtLeast(24),
                Extent::Exactly((PRODUCTION_ARTWORK_WIDTH + 2) as u16),
                Extent::Exactly(34),
            ]);
        } else {
            assert(parts@ =~= seq![
                Extent::Exactly(22),
                Extent::AtLeast(24),
                Extent::Exactly(34),
            ]);
        }
    }
    split(area, Direction::Horizontal, &parts)
}

/// Draws a wide screen.
pub fn render_wide(
    canvas: &mut Canvas,
    area: Rect,
    state: &AppState,
    theme: &Theme,
    model: &EffectiveModel<'_>,
    enhancements: RenderEnhancements<'_>,
)
    requires
        old(canvas)@.memory.wf(),
        state.queue@.wf(),
        LayoutMode::of(area.width, area.height) == LayoutMode::Wide,
        area.x + area.width <= u16::MAX,
        area.y + area.height <= u16::MAX,
    ensures
        final(canvas)@.memory.wf(),
        final(canvas)@ == wide_drawn(
            old(canvas)@,
            area,
            *state,
            *theme,
            model@,
            enhancements@,
        ),
{
    proof {
        reveal(wide_drawn);
    }
    let mut player_height: u16 = 5;
    if enhancements.spectrum.is_some() {
        player_height = player_height + 3;
    }
    if has_timed_lyrics(state) {
        player_height = player_height + 3;
    }
    let rows = split_wide_rows(area, player_height);
    let columns = split_wide_columns(rows[0], enhancements.artwork.is_some());
    render_navigation(canvas, columns[0], theme, model, false, state);
    render_content(canvas, columns[1], state, theme, model, enhancements.visualizer_max_fps);
    match enhancements.artwork {
        Some(artwork) => {
            render_artwork_panel(canvas, columns[2], theme, artwork, CellSize::production());
            render_queue(canvas, columns[3], state, theme, model);
        },
        None => {
            render_queue(canvas, columns[2], state, theme, model);
        },
    }
    render_player(canvas, rows[1], state, theme, model, false, enhancements.spectrum);
}

/// The rows of a compact screen: navigation, content or queue, and player.
pub open spec fn compact_rows(area: Rect, player_height: u16) -> Seq<Rect> {
    arranged(
        area,
        Direction::Vertical,
        seq![Extent::Exactly(3), Extent::AtLeast(0), Extent::Exactly(player_height)],
    )
}

/// Whether a compact screen has room for artwork beside content or queue.
pub open spec fn compact_artwork_fits(main: Rect) -> bool {
    main.width >= COMPACT_MIN_MAIN_WIDTH + COMPACT_ARTWORK_PANEL_WIDTH && main.height
        >= COMPACT_ARTWORK_PANEL_HEIGHT
}

/// The middle of a compact screen: content or queue, and artwork.
pub open spec fn compact_columns(main: Rect) -> Seq<Rect> {
    arranged(
        main,
        Direction::Horizontal,
        seq![
            Extent::AtLeast(COMPACT_MIN_MAIN_WIDTH),
            Extent::Exactly(COMPACT_ARTWORK_PANEL_WIDTH),
        ],
    )
}

/// A compact screen.
#[verifier::opaque]
pub open spec fn compact_drawn(
    canvas: CanvasView,
    area: Rect,
    state: AppState,
    theme: Theme,
    model: RenderModelView,
    enhancements: EnhancementsView,
) -> CanvasView {
    let rows = compact_rows(area, compact_player_height(state, enhancements.spectrum is Some));
    let shows_artwork = enhancements.artwork is Some && compact_artwork_fits(rows[1]);
    let main = if shows_artwork {
        compact_columns(rows[1])[0]
    } else {
        rows[1]
    };
    let navigation = navigation_drawn(canvas, rows[0], theme, model, true, state);
    let middle = match model.compact_panel {
        CompactPanel::Content => content_drawn(
            navigation,
            main,
            state,
            theme,
            model,
            enhancements.visualizer_max_fps,
        ),
        CompactPanel::Queue => queue_drawn(navigation, main, state, theme, model),
    };
    let pictured = if shows_artwork {
        artwork_panel_drawn(
            middle,
            compact_columns(rows[1])[1],
            theme,
            enhancements.artwork->0,
            compact_artwork_size(),
        )
    } else {
        middle
    };
    player_drawn(pictured, rows[2], state, theme, model, true, enhancements.spectrum)
}

fn split_compact_rows(area: Rect, player_height: u16) -> (rows: Vec<Rect>)
    requires
        3 + player_height <= area.height,
        area.x + area.width <= u16::MAX,
        area.y + area.height <= u16::MAX,
    ensures
        rows@ == compact_rows(area, player_height),
        rows@.len() == 3,
        rows@[1].x == area.x,
        rows@[1].width == area.width,
        rows@[1].y + rows@[1].height <= u16::MAX,
{
    let parts: Vec<Extent> = vec![
        Extent::Exactly(3),
        Extent::AtLeast(0),
        Extent::Exactly(player_height),
    ];
    proof {
        lemma_one_part(parts@[0]);
        lemma_one_part(parts@[1]);
        lemma_one_part(parts@[2]);
        lemma_push_part(seq![parts@[0]], parts@[1]);
        lemma_push_part(seq![parts@[0]].push(parts@[1]), parts@[2]);
        assert(parts@ =~= seq![parts@[0]].push(parts@[1]).push(parts@[2]));
        assert(parts@ =~= seq![
            Extent::Exactly(3),
            Extent::AtLeast(0),
            Extent::Exactly(player_height),
        ]);
        assert(part_offset(parts@, area.height as int, 0) == 0);
        assert(part_offset(parts@, area.height as int, 1) == 3);
    }
    split(area, Direction::Vertical, &parts)
}

fn split_compact_columns(main: Rect) -> (columns: Vec<Rect>)
    requires
        compact_artwork_fits(main),
        main.x + main.width <= u16::MAX,
        main.y + main.height <= u16::MAX,
    ensures
        columns@ == compact_columns(main),
        columns@.len() == 2,
{
    let parts: Vec<Extent> = vec![
        Extent::AtLeast(COMPACT_MIN_MAIN_WIDTH),
        Extent::Exactly(COMPACT_ARTWORK_PANEL_WIDTH),
    ];
    proof {
        lemma_one_part(parts@[0]);
        lemma_one_part(parts@[1]);
        lemma_push_part(seq![parts@[0]], parts@[1]);
        assert(parts@ =~= seq![parts@[0]].push(parts@[1]));
        assert(parts@ =~= seq![
            Extent::AtLeast(COMPACT_MIN_MAIN_WIDTH),
            Extent::Exactly(COMPACT_ARTWORK_PANEL_WIDTH),
        ]);
    }
    split(main, Direction::Horizontal, &parts)
}

/// Draws a compact screen.
pub fn render_compact(
    canvas: &mut Canvas,
    area: Rect,
    state: &AppState,
    theme: &Theme,
    model: &EffectiveModel<'_>,
    enhancements: RenderEnhancements<'_>,
)
    requires
        old(canvas)@.memory.wf(),
        state.queue@.wf(),
        LayoutMode::of(area.width, area.height) == LayoutMode::Compact,
        area.x + area.width <= u16::MAX,
        area.y + area.height <= u16::MAX,
    ensures
        final(canvas)@.memory.wf(),
        final(canvas)@ == compact_drawn(
            old(canvas)@,
            area,
            *state,
            *theme,
            model@,
            enhancements@,
        ),
{
    proof {
        reveal(compact_drawn);
    }
    let mut player_height: u16 = 5;
    if enhancements.spectrum.is_some() {
        player_height = player_height + 1;
    }
    if has_timed_lyrics(state) {
        player_height = player_height + 1;
    }
    let rows = split_compact_rows(area, player_height);
    render_navigation(canvas, rows[0], theme, model, true, state);
    let fits = rows[1].width >= COMPACT_MIN_MAIN_WIDTH + COMPACT_ARTWORK_PANEL_WIDTH
        && rows[1].height >= COMPACT_ARTWORK_PANEL_HEIGHT;
    let shows_artwork = enhancements.artwork.is_some() && fits;
    let mut main = rows[1];
    let mut artwork_area = rows[1];
    if shows_artwork {
        let columns = split_compact_columns(rows[1]);
        main = columns[0];
        artwork_area = columns[1];
    }
    match model.compact_panel {
        CompactPanel::Content => {
            render_content(canvas, main, state, theme, model, enhancements.visualizer_max_fps);
        },
        CompactPanel::Queue => {
            render_queue(canvas, main, state, theme, model);
        },
    }
    match enhancements.artwork {
        Some(artwork) => {
            if shows_artwork {
                render_artwork_panel(
                    canvas,
                    artwork_area,
                    theme,
                    artwork,
                    CellSize::new(COMPACT_ARTWORK_WIDTH, COMPACT_ARTWORK_HEIGHT),
                );
            }
        },
        None => {},
    }
    render_player(canvas, rows[2], state, theme, model, true, enhancements.spectrum);
}

/// A tiny screen: the view that is shown, and a player of one line below it.
#[verifier::opaque]
pub open spec fn tiny_drawn(
    canvas: CanvasView,
    area: Rect,
    state: AppState,
    theme: Theme,
    model: RenderModelView,
    max_fps: u8,
) -> CanvasView {
    let player_height: int = if area.height > 0 {
        1
    } else {
        0
    };
    let row = limited(area.x, area.y, area.width, (area.height - player_height) as u16);
    let visible = inside(row);
    let content = content_of(
        canvas.memory,
        state,
        model.view,
        visible.height as int,
        visible.width as nat,
        model.draft(),
        max_fps,
        model.motion_frame.spinner_index,
    );
    let shown = if row.height > 0 {
        rows_panel(
            CanvasView { memory: content.memory, ..canvas },
            row,
            "▶ "@ + view_label(model.view),
            true,
            theme,
            content.lines,
            content.targets,
            model.motion_frame.elapsed_ms,
            true,
        )
    } else {
        canvas
    };
    player_line_drawn(
        shown,
        limited(
            area.x,
            capped_sum(area.y as int, row.height as int),
            area.width,
            player_height as u16,
        ),
        state,
        theme,
    )
}

/// Draws a tiny screen.
pub fn render_tiny(
    canvas: &mut Canvas,
    area: Rect,
    state: &AppState,
    theme: &Theme,
    model: &EffectiveModel<'_>,
    visualizer_max_fps: u8,
)
    requires
        old(canvas)@.memory.wf(),
        state.queue@.wf(),
    ensures
        final(canvas)@.memory.wf(),
        final(canvas)@ == tiny_drawn(
            old(canvas)@,
            area,
            *state,
            *theme,
            model@,
            visualizer_max_fps,
        ),
{
    proof {
        reveal(tiny_drawn);
    }
    let player_height: u16 = if area.height > 0 {
        1
    } else {
        0
    };
    let row = Rect::new(area.x, area.y, area.width, area.height - player_height);
    if row.height > 0 {
        let visible = panel_inner(row);
        let drawn = content_lines_with_viewports_and_targets_with_spinner(
            state,
            model.model.view,
            visible.height as usize,
            visible.width as usize,
            model.model.search_draft(),
            visualizer_max_fps,
            &mut canvas.memory,
            model.model.motion_frame.spinner_index,
        );
        let mut title = "▶ ".to_owned();
        title.append(model.model.view.label());
        draw_rows_panel(
            canvas,
            row,
            title.as_str(),
            true,
            theme,
            drawn,
            model.model.motion_frame.elapsed_ms,
            true,
        );
    }
    let player = Rect::new(
        area.x,
        area.y.saturating_add(row.height),
        area.width,
        player_height,
    );
    render_player_line(canvas, player, state, theme);
}

/// The picture of the whole interface. A window takes the place of everything
/// that could be clicked.
pub open spec fn screen(
    memory: MemoryView,
    hits: Seq<Hit>,
    area: Rect,
    state: AppState,
    theme: Theme,
    model: RenderModelView,
    enhancements: EnhancementsView,
) -> CanvasView {
    if area.width == 0 || area.height == 0 {
        CanvasView { ops: Seq::empty(), memory, hits }
    } else {
        let layout = LayoutMode::of(area.width, area.height);
        let model = model.normalized(layout);
        let enhancements = EnhancementsView {
            spectrum: if state.switches.visualizer {
                enhancements.spectrum
            } else {
                None
            },
            ..enhancements
        };
        let begun = CanvasView {
            ops: seq![
                DrawView::Fill {
                    area,
                    style: plain().on_fg(theme.foreground).on_bg(theme.background),
                },
            ],
            memory: memory.begun(area, model.motion_frame.elapsed_ms),
            hits,
        };
        let drawn = match layout {
            LayoutMode::Wide => wide_drawn(begun, area, state, theme, model, enhancements),
            LayoutMode::Compact => compact_drawn(begun, area, state, theme, model, enhancements),
            LayoutMode::Tiny => tiny_drawn(
                begun,
                area,
                state,
                theme,
                model,
                enhancements.visualizer_max_fps,
            ),
        };
        let covered = match model.overlay {
            Some(overlay) => overlay_drawn(
                CanvasView { hits: Seq::empty(), ..drawn },
                area,
                state,
                theme,
                overlay,
                model,
            ),
            None => drawn,
        };
        CanvasView { memory: covered.memory.ended(), ..covered }
    }
}

/// Draws the whole interface.
pub fn render_with_model_and_viewports_and_interactions(
    area: Rect,
    state: &AppState,
    theme: &Theme,
    model: &RenderModel,
    enhancements: RenderEnhancements<'_>,
    viewports: &mut ViewportMemory,
    interactions: &mut InteractionMap,
) -> (ops: Vec<DrawOp>)
    requires
        old(viewports)@.wf(),
        state.queue@.wf(),
        area.x + area.width <= u16::MAX,
        area.y + area.height <= u16::MAX,
    ensures
        final(viewports)@.wf(),
        ({
            let expected = screen(
                old(viewports)@,
                old(interactions)@,
                area,
                *state,
                *theme,
                model@,
                enhancements@,
            );
            &&& op_views(ops@) == expected.ops
            &&& final(viewports)@ == expected.memory
            &&& final(interactions)@ == expected.hits
        }),
{
    let mut canvas = Canvas {
        ops: Vec::new(),
        memory: ViewportMemory::new(),
        interactions: InteractionMap::new(),
    };
    assert(op_views(canvas.ops@) =~= Seq::<DrawView>::empty());
    if area.width == 0 || area.height == 0 {
        return canvas.ops;
    }
    std::mem::swap(&mut canvas.memory, viewports);
    std::mem::swap(&mut canvas.interactions, interactions);
    canvas.memory.begin_selection_frame(area, model.motion_frame.elapsed_ms);
    canvas.draw(
        DrawOp::Fill { area, style: Style::new().fg(theme.foreground).bg(theme.background) },
    );
    let layout = LayoutMode::for_area(area);
    let effective = effective_for_layout(model, layout);
    let enhancements = RenderEnhancements {
        spectrum: if state.switches.visualizer {
            enhancements.spectrum
        } else {
            None
        },
        ..enhancements
    };
    match layout {
        LayoutMode::Wide => {
            render_wide(&mut canvas, area, state, theme, &effective, enhancements);
        },
        LayoutMode::Compact => {
            render_compact(&mut canvas, area, state, theme, &effective, enhancements);
        },
        LayoutMode::Tiny => {
            render_tiny(
                &mut canvas,
                area,
                state,
                theme,
                &effective,
                enhancements.visualizer_max_fps,
            );
        },
    }
    match model.overlay {
        Some(overlay) => {
            canvas.interactions.clear();
            render_overlay(&mut canvas, area, state, theme, overlay, &effective);
        },
        None => {},
    }
    canvas.memory.end_selection_frame();
    std::mem::swap(&mut canvas.memory, viewports);
    std::mem::swap(&mut canvas.interactions, interactions);
    canvas.ops
}

/// Draws the whole interface.
pub fn render_with_model_and_viewports(
    area: Rect,
    state: &AppState,
    theme: &Theme,
    model: &RenderModel,
    enhancements: RenderEnhancements<'_>,
    viewports: &mut ViewportMemory,
) -> (ops: Vec<DrawOp>)
    requires
        old(viewports)@.wf(),
        state.queue@.wf(),
        area.x + area.width <= u16::MAX,
        area.y + area.height <= u16::MAX,
    ensures
        final(viewports)@.wf(),
        ({
            let expected = screen(
                old(viewports)@,
                Seq::empty(),
                area,
                *state,
                *theme,
                model@,
                enhancements@,
            );
            &&& op_views(ops@) == expected.ops
            &&& final(viewports)@ == expected.memory
        }),
{
    let mut interactions = InteractionMap::new();
    render_with_model_and_viewports_and_interactions(
        area,
        state,
        theme,
        model,
        enhancements,
        viewports,
        &mut interactions,
    )
}

/// No artwork and no spectrum.
pub open spec fn no_enhancements(max_fps: u8) -> EnhancementsView {
    EnhancementsView { artwork: None, spectrum: None, visualizer_max_fps: max_fps }
}

/// Draws the default interface.
pub fn render(area: Rect, state: &AppState, theme: &Theme) -> (ops: Vec<DrawOp>)
    requires
        state.queue@.wf(),
        area.x + area.width <= u16::MAX,
        area.y + area.height <= u16::MAX,
    ensures
        op_views(ops@) == screen(
            fresh_memory(),
            Seq::empty(),
            area,
            *state,
            *theme,
            default_model(),
            no_enhancements(15),
        ).ops,
{
    let model = RenderModel::default();
    render_with_model(area, state, theme, &model)
}

/// Draws the interface as `model` says.
pub fn render_with_model(area: Rect, state: &AppState, theme: &Theme, model: &RenderModel) -> (ops:
    Vec<DrawOp>)
    requires
        state.queue@.wf(),
        area.x + area.width <= u16::MAX,
        area.y + area.height <= u16::MAX,
    ensures
        op_views(ops@) == screen(
            fresh_memory(),
            Seq::empty(),
            area,
            *state,
            *theme,
            model@,
            no_enhancements(model.visualizer_max_fps),
        ).ops,
{
    let mut memory = ViewportMemory::new();
    render_with_model_and_viewports(
        area,
        state,
        theme,
        model,
        RenderEnhancements::new(None, None, model.visualizer_max_fps),
        &mut memory,
    )
}

/// Draws the interface, and remembers what moves.
pub fn render_with_model_and_motion_memory(
    area: Rect,
    state: &AppState,
    theme: &Theme,
    model: &RenderModel,
    memory: &mut ViewportMemory,
) -> (ops: Vec<DrawOp>)
    requires
        old(memory)@.wf(),
        state.queue@.wf(),
        area.x + area.width <= u16::MAX,
        area.y + area.height <= u16::MAX,
    ensures
        final(memory)@.wf(),
        ({
            let expected = screen(
                old(memory)@,
                Seq::empty(),
                area,
                *state,
                *theme,
                model@,
                no_enhancements(model.visualizer_max_fps),
            );
            &&& op_views(ops@) == expected.ops
            &&& final(memory)@ == expected.memory
        }),
{
    render_with_model_and_viewports(
        area,
        state,
        theme,
        model,
        RenderEnhancements::new(None, None, model.visualizer_max_fps),
        memory,
    )
}

/// Draws the interface, remembers what moves, and tells what can be clicked.
pub fn render_with_model_and_motion_memory_and_interactions(
    area: Rect,
    state: &AppState,
    theme: &Theme,
    model: &RenderModel,
    memory: &mut ViewportMemory,
    interactions: &mut InteractionMap,
) -> (ops: Vec<DrawOp>)
    requires
        old(memory)@.wf(),
        state.queue@.wf(),
        area.x + area.width <= u16::MAX,
        area.y + area.height <= u16::MAX,
    ensures
        final(memory)@.wf(),
        ({
            let expected = screen(
                old(memory)@,
                old(interactions)@,
                area,
                *state,
                *theme,
                model@,
                no_enhancements(model.visualizer_max_fps),
            );
            &&& op_views(ops@) == expected.ops
            &&& final(memory)@ == expected.memory
            &&& final(interactions)@ == expected.hits
        }),
{
    render_with_model_and_viewports_and_interactions(
        area,
        state,
        theme,
        model,
        RenderEnhancements::new(None, None, model.visualizer_max_fps),
        memory,
        interactions,
    )
}

/// Draws the interface, and tells what can be clicked.
pub fn render_with_model_and_interactions(
    area: Rect,
    state: &AppState,
    theme: &Theme,
    model: &RenderModel,
    interactions: &mut InteractionMap,
) -> (ops: Vec<DrawOp>)
    requires
        state.queue@.wf(),
        area.x + area.width <= u16::MAX,
        area.y + area.height <= u16::MAX,
    ensures
        ({
            let expected = screen(
                fresh_memory(),
                old(interactions)@,
                area,
                *state,
                *theme,
                model@,
                no_enhancements(model.visualizer_max_fps),
            );
            &&& op_views(ops@) == expected.ops
            &&& final(interactions)@ == expected.hits
        }),
{
    let mut memory = ViewportMemory::new();
    render_with_model_and_motion_memory_and_interactions(
        area,
        state,
        theme,
        model,
        &mut memory,
        interactions,
    )
}

/// Draws the interface with artwork.
pub fn render_with_model_and_artwork(
    area: Rect,
    state: &AppState,
    theme: &Theme,
    model: &RenderModel,
    artwork: &ArtworkPresentation,
) -> (ops: Vec<DrawOp>)
    requires
        state.queue@.wf(),
        area.x + area.width <= u16::MAX,
        area.y + area.height <= u16::MAX,
    ensures
        op_views(ops@) == screen(
            fresh_memory(),
            Seq::empty(),
            area,
            *state,
            *theme,
            model@,
            (EnhancementsView {
                artwork: Some(*artwork),
                spectrum: None,
                visualizer_max_fps: model.visualizer_max_fps,
            }),
        ).ops,
{
    let mut memory = ViewportMemory::new();
    render_with_model_and_viewports(
        area,
        state,
        theme,
        model,
        RenderEnhancements::new(Some(artwork), None, model.visualizer_max_fps),
        &mut memory,
    )
}

/// Draws the interface with a spectrum.
pub fn render_with_model_and_spectrum(
    area: Rect,
    state: &AppState,
    theme: &Theme,
    model: &RenderModel,
    spectrum: &SpectrumPresentation,
) -> (ops: Vec<DrawOp>)
    requires
        state.queue@.wf(),
        area.x + area.width <= u16::MAX,
        area.y + area.height <= u16::MAX,
    ensures
        op_views(ops@) == screen(
            fresh_memory(),
            Seq::empty(),
            area,
            *state,
            *theme,
            model@,
            (EnhancementsView {
                artwork: None,
                spectrum: Some(spectrum@),
                visualizer_max_fps: model.visualizer_max_fps,
            }),
        ).ops,
{
    let mut memory = ViewportMemory::new();
    render_with_model_and_viewports(
        area,
        state,
        theme,
        model,
        RenderEnhancements::new(None, Some(spectrum), model.visualizer_max_fps),
        &mut memory,
    )
}

/// The moving picture that a screen shows: only a wide one, only where moving
/// pictures are switched on, and only for a video that is played or paused and is
/// the current entry of the queue.
pub open spec fn animated_artwork(
    state: AppState,
    animation: Option<AnimationStoreView>,
    size: CellSize,
    layout: LayoutMode,
) -> Option<ArtworkPresentation> {
    match (
        animation,
        state.current_attempt_generation,
        state.playback.current,
        state.queue@.current_item(),
    ) {
        (Some(store), Some(generation), Some(media_id), Some(item)) => {
            let key = AnimationKeyView { generation, media_id: media_id@, size };
            if layout == LayoutMode::Wide && state.switches.animated_artwork && (
            state.playback.status == PlaybackStatus::Playing || state.playback.status
                == PlaybackStatus::Paused) && item.media.kind == MediaKind::Video
                && item.media.id == media_id@ && store.shows(key) && !store.slot->0.failed {
                match store.slot->0.frame {
                    Some(frame) => Some(ArtworkPresentation::Grid(frame)),
                    None => None,
                }
            } else {
                None
            }
        },
        _ => None,
    }
}

/// The artwork that a screen shows: a moving picture, or else the still one that
/// was found, or else that there is none. A tiny screen shows none.
pub open spec fn chosen_artwork(
    state: AppState,
    still: Option<Option<ArtworkPresentation>>,
    animation: Option<AnimationStoreView>,
    size: CellSize,
    layout: LayoutMode,
) -> Option<ArtworkPresentation> {
    if layout == LayoutMode::Tiny {
        None
    } else {
        match animated_artwork(state, animation, size, layout) {
            Some(artwork) => Some(artwork),
            None => match still {
                Some(Some(artwork)) => Some(artwork),
                Some(None) => Some(ArtworkPresentation::Fallback(ArtworkFallback)),
                None => None,
            },
        }
    }
}

fn animated_presentation(
    state: &AppState,
    animation: Option<&AnimationFrameStore>,
    size: CellSize,
    layout: LayoutMode,
) -> (artwork: Option<ArtworkPresentation>)
    requires
        state.queue@.wf(),
    ensures
        artwork == animated_artwork(
            *state,
            match animation {
                Some(store) => Some(store@),
                None => None,
            },
            size,
            layout,
        ),
{
    if layout != LayoutMode::Wide || !state.switches.animated_artwork {
        return None;
    }
    match state.playback.status {
        PlaybackStatus::Playing | PlaybackStatus::Paused => {},
        _ => {
            return None;
        },
    }
    match (animation, state.current_attempt_generation, &state.playback.current) {
        (Some(store), Some(generation), Some(media_id)) => match state.queue.current() {
            Some(item) => {
                let media = item.media();
                let video = match media.kind {
                    MediaKind::Video => true,
                    _ => false,
                };
                if !video || !media.id.same(media_id) {
                    return None;
                }
                let key = AnimationKey::new(generation, media_id.clone(), size);
                match store.presentation(&key) {
                    Some(frame) => Some(ArtworkPresentation::Grid(frame)),
                    None => None,
                }
            },
            None => None,
        },
        _ => None,
    }
}

/// The artwork that a screen shows. `still` is what was found of a still picture,
/// where such pictures are shown at all.
pub fn artwork_presentation_from_stores(
    state: &AppState,
    still: Option<Option<ArtworkPresentation>>,
    animation: Option<&AnimationFrameStore>,
    size: CellSize,
    layout: LayoutMode,
) -> (artwork: Option<ArtworkPresentation>)
    requires
        state.queue@.wf(),
    ensures
        artwork == chosen_artwork(
            *state,
            still,
            match animation {
                Some(store) => Some(store@),
                None => None,
            },
            size,
            layout,
        ),
{
    if layout == LayoutMode::Tiny {
        return None;
    }
    match animated_presentation(state, animation, size, layout) {
        Some(artwork) => Some(artwork),
        None => match still {
            Some(Some(artwork)) => Some(artwork),
            Some(None) => Some(ArtworkPresentation::unavailable()),
            None => None,
        },
    }
}

} // verus!
