//! What holds of every picture of the interface.

use vstd::prelude::*;

use crate::domain::PlaybackStatus;
use crate::ui::animation::AnimationStoreView;
use crate::ui::artwork::{ArtworkPresentation, CellSize};
use crate::ui::interaction::{with_hit, Hit, HitTarget};
use crate::ui::layout::{
    capped_sum, inside, law_centered_window_fits, lies_within, limited, LayoutMode, Rect,
};
use crate::ui::line::LineView;
use crate::ui::memory::MemoryView;
use crate::ui::model::{
    CompactPanel, NavigationItem, Overlay, RenderModelView, NAVIGATION_ITEM_COUNT,
};
use crate::ui::player::{control_hits, player_hits, progress_hits, ControlRegion, ControlsView};
use crate::ui::render::{
    animated_artwork, artwork_panel_drawn, chosen_artwork, compact_artwork_fits,
    compact_artwork_size, compact_columns, compact_drawn, compact_player_height, compact_rows,
    content_drawn, content_of, has_room_for_windows, lemma_one_part,
    lemma_push_part, menu_hits, navigation_drawn, overlay_content, overlay_drawn, player_drawn,
    player_line_drawn, queue_drawn, rows_panel, screen, tab_hits, tiny_drawn, wide_artwork_size,
    wide_columns, wide_drawn, wide_player_height, wide_rows, window_of, EnhancementsView,
};
use crate::ui::rows::row_hits;
use crate::ui::scene::{
    area_of, arranged, law_parts_lie_within, parts_fit, CanvasView, Direction, DrawView, Extent,
};
use crate::ui::spectrum::SpectrumPresentationView;
use crate::ui::state::AppState;
use crate::ui::theme::Theme;
use crate::ui::viewport::RowTargetView;

verus! {

/// Whether every place that can be clicked lies within an area.
pub open spec fn hits_within(hits: Seq<Hit>, area: Rect) -> bool {
    forall|i: int|
        0 <= i < hits.len() ==> {
            &&& lies_within((#[trigger] hits[i]).area, area)
            &&& hits[i].area.width > 0
            &&& hits[i].area.height > 0
        }
}

/// Whether every step draws within an area.
pub open spec fn ops_within(ops: Seq<DrawView>, area: Rect) -> bool {
    forall|i: int| 0 <= i < ops.len() ==> lies_within(area_of(#[trigger] ops[i]), area)
}

/// Whether what is visible lies within an area, or nothing is visible.
pub open spec fn visible_within(visible: Rect, area: Rect) -> bool {
    visible.width > 0 && visible.height > 0 ==> lies_within(visible, area)
}

/// Whether an area has its end on the screen's coordinates.
pub open spec fn has_edges(area: Rect) -> bool {
    area.x + area.width <= u16::MAX && area.y + area.height <= u16::MAX
}

proof fn lemma_inside(panel: Rect, area: Rect)
    requires
        has_edges(panel),
        has_edges(area),
        lies_within(panel, area),
    ensures
        visible_within(inside(panel), area),
        panel.width >= 2 && panel.height >= 2 ==> lies_within(inside(panel), area),
{
}

proof fn lemma_with_hit(hits: Seq<Hit>, place: Rect, visible: Rect, target: HitTarget, area: Rect)
    requires
        hits_within(hits, area),
        visible_within(visible, area),
    ensures
        hits_within(with_hit(hits, place, visible, target), area),
{
}

proof fn lemma_row_hits(hits: Seq<Hit>, visible: Rect, targets: Seq<RowTargetView>, area: Rect)
    requires
        hits_within(hits, area),
        visible_within(visible, area),
    ensures
        hits_within(row_hits(hits, visible, targets), area),
    decreases targets.len(),
{
    if targets.len() > 0 {
        lemma_row_hits(hits, visible, targets.drop_last(), area);
        let target = targets.last();
        lemma_with_hit(
            row_hits(hits, visible, targets.drop_last()),
            limited(
                visible.x,
                capped_sum(visible.y as int, target.line_index as int),
                visible.width,
                1,
            ),
            visible,
            HitTarget::ListRow { surface: target.surface, stable_index: target.stable_index },
            area,
        );
    }
}

proof fn lemma_control_hits(
    hits: Seq<Hit>,
    visible: Rect,
    row: u16,
    controls: Seq<ControlRegion>,
    area: Rect,
)
    requires
        hits_within(hits, area),
        visible_within(visible, area),
    ensures
        hits_within(control_hits(hits, visible, row, controls), area),
    decreases controls.len(),
{
    if controls.len() > 0 {
        lemma_control_hits(hits, visible, row, controls.drop_last(), area);
        lemma_with_hit(
            control_hits(hits, visible, row, controls.drop_last()),
            limited(
                capped_sum(visible.x as int, controls.last().offset as int),
                row,
                controls.last().width,
                1,
            ),
            visible,
            HitTarget::Semantic(controls.last().action),
            area,
        );
    }
}

proof fn lemma_progress_hits(
    hits: Seq<Hit>,
    visible: Rect,
    row: u16,
    offset: u16,
    width: u16,
    count: nat,
    area: Rect,
)
    requires
        hits_within(hits, area),
        visible_within(visible, area),
    ensures
        hits_within(progress_hits(hits, visible, row, offset, width, count), area),
    decreases count,
{
    if count > 0 {
        lemma_progress_hits(hits, visible, row, offset, width, (count - 1) as nat, area);
    }
}

proof fn lemma_player_hits(hits: Seq<Hit>, panel: Rect, layout: ControlsView, area: Rect)
    requires
        hits_within(hits, area),
        visible_within(inside(panel), area),
    ensures
        hits_within(player_hits(hits, panel, layout), area),
{
    let visible = inside(panel);
    let row = capped_sum(visible.y as int, 2);
    lemma_control_hits(hits, visible, row, layout.controls, area);
    match layout.progress {
        Some((offset, width)) => {
            lemma_progress_hits(
                control_hits(hits, visible, row, layout.controls),
                visible,
                row,
                offset,
                width,
                width as nat,
                area,
            );
        },
        None => {},
    }
}

proof fn lemma_tab_hits(
    hits: Seq<Hit>,
    visible: Rect,
    view: NavigationItem,
    condensed: bool,
    count: nat,
    area: Rect,
)
    requires
        hits_within(hits, area),
        visible_within(visible, area),
    ensures
        hits_within(tab_hits(hits, visible, view, condensed, count), area),
    decreases count,
{
    if count > 0 {
        lemma_tab_hits(hits, visible, view, condensed, (count - 1) as nat, area);
    }
}

proof fn lemma_menu_hits(hits: Seq<Hit>, visible: Rect, count: nat, area: Rect)
    requires
        hits_within(hits, area),
        visible_within(visible, area),
    ensures
        hits_within(menu_hits(hits, visible, count), area),
    decreases count,
{
    if count > 0 {
        lemma_menu_hits(hits, visible, (count - 1) as nat, area);
    }
}

/// Whether all that a picture shows and offers lies within an area.
pub open spec fn canvas_within(canvas: CanvasView, area: Rect) -> bool {
    ops_within(canvas.ops, area) && hits_within(canvas.hits, area)
}

proof fn lemma_navigation(
    canvas: CanvasView,
    panel: Rect,
    theme: Theme,
    model: RenderModelView,
    compact: bool,
    state: AppState,
    area: Rect,
)
    requires
        canvas_within(canvas, area),
        has_edges(panel),
        has_edges(area),
        lies_within(panel, area),
    ensures
        canvas_within(navigation_drawn(canvas, panel, theme, model, compact, state), area),
{
    reveal(navigation_drawn);
    lemma_inside(panel, area);
    let visible = inside(panel);
    lemma_tab_hits(
        canvas.hits,
        visible,
        model.view,
        crate::ui::render::is_condensed(visible.width as int),
        NAVIGATION_ITEM_COUNT as nat,
        area,
    );
    lemma_menu_hits(canvas.hits, visible, NAVIGATION_ITEM_COUNT as nat, area);
}

proof fn lemma_content(
    canvas: CanvasView,
    panel: Rect,
    state: AppState,
    theme: Theme,
    model: RenderModelView,
    max_fps: u8,
    area: Rect,
)
    requires
        canvas_within(canvas, area),
        has_edges(panel),
        has_edges(area),
        lies_within(panel, area),
    ensures
        canvas_within(content_drawn(canvas, panel, state, theme, model, max_fps), area),
{
    reveal(content_drawn);
    reveal(rows_panel);
    lemma_inside(panel, area);
    let content = crate::ui::render::content_of(
        canvas.memory,
        state,
        model.view,
        inside(panel).height as int,
        inside(panel).width as nat,
        model.draft(),
        max_fps,
        model.motion_frame.spinner_index,
    );
    lemma_row_hits(canvas.hits, inside(panel), content.targets, area);
}

proof fn lemma_queue(
    canvas: CanvasView,
    panel: Rect,
    state: AppState,
    theme: Theme,
    model: RenderModelView,
    area: Rect,
)
    requires
        canvas_within(canvas, area),
        has_edges(panel),
        has_edges(area),
        lies_within(panel, area),
    ensures
        canvas_within(queue_drawn(canvas, panel, state, theme, model), area),
{
    reveal(queue_drawn);
    reveal(rows_panel);
    lemma_inside(panel, area);
    let picture = crate::ui::views::queue::queue_picture(
        canvas.memory.queue,
        state.queue@,
        crate::ui::render::selected_entry(model),
        crate::ui::layout::least(
            inside(panel).height as int,
            crate::ui::layout::MAX_RENDERED_ROWS as int,
        ) as usize,
        inside(panel).width as nat,
    );
    lemma_row_hits(canvas.hits, inside(panel), picture.targets, area);
}

proof fn lemma_player(
    canvas: CanvasView,
    panel: Rect,
    state: AppState,
    theme: Theme,
    model: RenderModelView,
    compact: bool,
    spectrum: Option<SpectrumPresentationView>,
    area: Rect,
)
    requires
        canvas_within(canvas, area),
        has_edges(panel),
        has_edges(area),
        lies_within(panel, area),
    ensures
        canvas_within(
            player_drawn(canvas, panel, state, theme, model, compact, spectrum),
            area,
        ),
{
    reveal(player_drawn);
    lemma_inside(panel, area);
    let controls = crate::ui::player::controls_for_mode(
        state,
        compact,
        inside(panel).width as nat,
        theme,
        crate::ui::render::progress_of(state, model),
    );
    lemma_player_hits(canvas.hits, panel, controls, area);
}

proof fn lemma_artwork(
    canvas: CanvasView,
    panel: Rect,
    theme: Theme,
    artwork: crate::ui::artwork::ArtworkPresentation,
    maximum: crate::ui::artwork::CellSize,
    area: Rect,
)
    requires
        canvas_within(canvas, area),
        has_edges(panel),
        has_edges(area),
        lies_within(panel, area),
        panel.width >= 2,
        panel.height >= 2,
    ensures
        canvas_within(artwork_panel_drawn(canvas, panel, theme, artwork, maximum), area),
{
    reveal(artwork_panel_drawn);
    lemma_inside(panel, area);
}

proof fn lemma_part(area: Rect, direction: Direction, parts: Seq<Extent>, index: int)
    requires
        parts_fit(area, direction, parts),
        0 <= index < parts.len(),
    ensures
        lies_within(arranged(area, direction, parts)[index], area),
        has_edges(arranged(area, direction, parts)[index]),
{
    law_parts_lie_within(area, direction, parts, index);
    crate::ui::scene::lemma_part_edges(area, direction, parts, index);
}

proof fn lemma_wide(
    canvas: CanvasView,
    area: Rect,
    state: AppState,
    theme: Theme,
    model: RenderModelView,
    enhancements: EnhancementsView,
)
    requires
        canvas_within(canvas, area),
        has_edges(area),
        LayoutMode::of(area.width, area.height) == LayoutMode::Wide,
    ensures
        canvas_within(
            wide_drawn(canvas, area, state, theme, model, enhancements),
            area,
        ),
{
    reveal(wide_drawn);
    let height = wide_player_height(state, enhancements.spectrum is Some);
    let row_parts = seq![Extent::AtLeast(0), Extent::Exactly(height)];
    lemma_one_part(row_parts[0]);
    lemma_one_part(row_parts[1]);
    lemma_push_part(seq![row_parts[0]], row_parts[1]);
    assert(row_parts =~= seq![row_parts[0]].push(row_parts[1]));
    let rows = wide_rows(area, height);
    lemma_part(area, Direction::Vertical, row_parts, 0);
    lemma_part(area, Direction::Vertical, row_parts, 1);
    let parts = if enhancements.artwork is Some {
        seq![
            Extent::Exactly(22),
            Extent::AtLeast(24),
            Extent::Exactly((crate::ui::artwork::PRODUCTION_ARTWORK_WIDTH + 2) as u16),
            Extent::Exactly(34),
        ]
    } else {
        seq![Extent::Exactly(22), Extent::AtLeast(24), Extent::Exactly(34)]
    };
    lemma_one_part(parts[0]);
    lemma_one_part(parts[1]);
    lemma_one_part(parts[2]);
    lemma_push_part(seq![parts[0]], parts[1]);
    lemma_push_part(seq![parts[0]].push(parts[1]), parts[2]);
    if enhancements.artwork is Some {
        lemma_one_part(parts[3]);
        lemma_push_part(seq![parts[0]].push(parts[1]).push(parts[2]), parts[3]);
        assert(parts =~= seq![parts[0]].push(parts[1]).push(parts[2]).push(parts[3]));
        lemma_part(rows[0], Direction::Horizontal, parts, 3);
    } else {
        assert(parts =~= seq![parts[0]].push(parts[1]).push(parts[2]));
    }
    lemma_part(rows[0], Direction::Horizontal, parts, 0);
    lemma_part(rows[0], Direction::Horizontal, parts, 1);
    lemma_part(rows[0], Direction::Horizontal, parts, 2);
    let columns = wide_columns(rows[0], enhancements.artwork is Some);
    assert(columns == arranged(rows[0], Direction::Horizontal, parts));
    let navigation = navigation_drawn(canvas, columns[0], theme, model, false, state);
    lemma_navigation(canvas, columns[0], theme, model, false, state, area);
    let content = content_drawn(
        navigation,
        columns[1],
        state,
        theme,
        model,
        enhancements.visualizer_max_fps,
    );
    lemma_content(
        navigation,
        columns[1],
        state,
        theme,
        model,
        enhancements.visualizer_max_fps,
        area,
    );
    let lists = match enhancements.artwork {
        Some(artwork) => {
            let pictured = artwork_panel_drawn(
                content,
                columns[2],
                theme,
                artwork,
                wide_artwork_size(),
            );
            lemma_artwork(content, columns[2], theme, artwork, wide_artwork_size(), area);
            lemma_queue(pictured, columns[3], state, theme, model, area);
            queue_drawn(pictured, columns[3], state, theme, model)
        },
        None => {
            lemma_queue(content, columns[2], state, theme, model, area);
            queue_drawn(content, columns[2], state, theme, model)
        },
    };
    lemma_player(lists, rows[1], state, theme, model, false, enhancements.spectrum, area);
}

proof fn lemma_compact(
    canvas: CanvasView,
    area: Rect,
    state: AppState,
    theme: Theme,
    model: RenderModelView,
    enhancements: EnhancementsView,
)
    requires
        canvas_within(canvas, area),
        has_edges(area),
        LayoutMode::of(area.width, area.height) == LayoutMode::Compact,
    ensures
        canvas_within(
            compact_drawn(canvas, area, state, theme, model, enhancements),
            area,
        ),
{
    reveal(compact_drawn);
    let height = compact_player_height(state, enhancements.spectrum is Some);
    let row_parts = seq![Extent::Exactly(3), Extent::AtLeast(0), Extent::Exactly(height)];
    lemma_one_part(row_parts[0]);
    lemma_one_part(row_parts[1]);
    lemma_one_part(row_parts[2]);
    lemma_push_part(seq![row_parts[0]], row_parts[1]);
    lemma_push_part(seq![row_parts[0]].push(row_parts[1]), row_parts[2]);
    assert(row_parts =~= seq![row_parts[0]].push(row_parts[1]).push(row_parts[2]));
    let rows = compact_rows(area, height);
    lemma_part(area, Direction::Vertical, row_parts, 0);
    lemma_part(area, Direction::Vertical, row_parts, 1);
    lemma_part(area, Direction::Vertical, row_parts, 2);
    let shows_artwork = enhancements.artwork is Some && compact_artwork_fits(rows[1]);
    let columns = compact_columns(rows[1]);
    if shows_artwork {
        let parts = seq![
            Extent::AtLeast(crate::ui::render::COMPACT_MIN_MAIN_WIDTH),
            Extent::Exactly(crate::ui::render::COMPACT_ARTWORK_PANEL_WIDTH),
        ];
        lemma_one_part(parts[0]);
        lemma_one_part(parts[1]);
        lemma_push_part(seq![parts[0]], parts[1]);
        assert(parts =~= seq![parts[0]].push(parts[1]));
        lemma_part(rows[1], Direction::Horizontal, parts, 0);
        lemma_part(rows[1], Direction::Horizontal, parts, 1);
    }
    let main = if shows_artwork {
        columns[0]
    } else {
        rows[1]
    };
    let navigation = navigation_drawn(canvas, rows[0], theme, model, true, state);
    lemma_navigation(canvas, rows[0], theme, model, true, state, area);
    lemma_content(
        navigation,
        main,
        state,
        theme,
        model,
        enhancements.visualizer_max_fps,
        area,
    );
    lemma_queue(navigation, main, state, theme, model, area);
    let middle = match model.compact_panel {
        CompactPanel::Content => content_drawn(
            navigation,
            main,
            state,
            theme,
            model,
            enhancements.visualizer_max_fps,
        ),
        CompactPanel::Queue => queue_drawn(navigation, main, state, theme, model),
    };
    let pictured = if shows_artwork {
        lemma_artwork(
            middle,
            columns[1],
            theme,
            enhancements.artwork->0,
            compact_artwork_size(),
            area,
        );
        artwork_panel_drawn(
            middle,
            columns[1],
            theme,
            enhancements.artwork->0,
            compact_artwork_size(),
        )
    } else {
        middle
    };
    lemma_player(pictured, rows[2], state, theme, model, true, enhancements.spectrum, area);
}

proof fn lemma_tiny(
    canvas: CanvasView,
    area: Rect,
    state: AppState,
    theme: Theme,
    model: RenderModelView,
    max_fps: u8,
)
    requires
        hits_within(canvas.hits, area),
        has_edges(area),
    ensures
        hits_within(tiny_drawn(canvas, area, state, theme, model, max_fps).hits, area),
{
    reveal(tiny_drawn);
    reveal(rows_panel);
    reveal(player_line_drawn);
    let player_height: int = if area.height > 0 {
        1
    } else {
        0
    };
    let row = limited(area.x, area.y, area.width, (area.height - player_height) as u16);
    let player = limited(
        area.x,
        capped_sum(area.y as int, row.height as int),
        area.width,
        player_height as u16,
    );
    let visible = inside(row);
    lemma_inside(row, area);
    let content = crate::ui::render::content_of(
        canvas.memory,
        state,
        model.view,
        visible.height as int,
        visible.width as nat,
        model.draft(),
        max_fps,
        model.motion_frame.spinner_index,
    );
    lemma_row_hits(canvas.hits, visible, content.targets, area);
    let hits = if row.height > 0 {
        row_hits(canvas.hits, visible, content.targets)
    } else {
        canvas.hits
    };
    let layout = crate::ui::player::tiny_player(state, player.width as nat);
    lemma_control_hits(hits, player, player.y, layout.controls, area);
}

proof fn lemma_overlay(
    canvas: CanvasView,
    area: Rect,
    state: AppState,
    theme: Theme,
    overlay: Overlay,
    model: RenderModelView,
)
    requires
        hits_within(canvas.hits, area),
        has_edges(area),
        area.width > 0,
        area.height > 0,
    ensures
        hits_within(overlay_drawn(canvas, area, state, theme, overlay, model).hits, area),
        ops_within(canvas.ops, area) ==> ops_within(
            overlay_drawn(canvas, area, state, theme, overlay, model).ops,
            area,
        ),
{
    reveal(overlay_drawn);
    reveal(rows_panel);
    if has_room_for_windows(area) {
        let popup = window_of(area, overlay);
        let size = crate::ui::render::overlay_size(overlay);
        law_centered_window_fits(area, size.0, size.1);
        lemma_inside(popup, area);
        let content = overlay_content(
            canvas.memory.covered(popup),
            state,
            theme,
            overlay,
            model,
            inside(popup).height as usize,
            inside(popup).width as nat,
        );
        lemma_row_hits(canvas.hits, inside(popup), content.targets, area);
    }
}

/// What can be clicked lies on the screen, and is not empty.
pub proof fn law_clicks_lie_on_the_screen(
    memory: MemoryView,
    area: Rect,
    state: AppState,
    theme: Theme,
    model: RenderModelView,
    enhancements: EnhancementsView,
)
    requires
        area.x + area.width <= u16::MAX,
        area.y + area.height <= u16::MAX,
    ensures
        hits_within(
            screen(memory, Seq::empty(), area, state, theme, model, enhancements).hits,
            area,
        ),
{
    lemma_screen(memory, area, state, theme, model, enhancements);
}

/// On a wide or a compact screen everything is drawn on the screen.
pub proof fn law_everything_is_drawn_on_the_screen(
    memory: MemoryView,
    area: Rect,
    state: AppState,
    theme: Theme,
    model: RenderModelView,
    enhancements: EnhancementsView,
)
    requires
        area.x + area.width <= u16::MAX,
        area.y + area.height <= u16::MAX,
        LayoutMode::of(area.width, area.height) != LayoutMode::Tiny,
    ensures
        ops_within(
            screen(memory, Seq::empty(), area, state, theme, model, enhancements).ops,
            area,
        ),
{
    lemma_screen(memory, area, state, theme, model, enhancements);
}

proof fn lemma_screen(
    memory: MemoryView,
    area: Rect,
    state: AppState,
    theme: Theme,
    model: RenderModelView,
    enhancements: EnhancementsView,
)
    requires
        has_edges(area),
    ensures
        hits_within(
            screen(memory, Seq::empty(), area, state, theme, model, enhancements).hits,
            area,
        ),
        LayoutMode::of(area.width, area.height) != LayoutMode::Tiny ==> ops_within(
            screen(memory, Seq::empty(), area, state, theme, model, enhancements).ops,
            area,
        ),
{
    if area.width > 0 && area.height > 0 {
        let layout = LayoutMode::of(area.width, area.height);
        let model = model.normalized(layout);
        let enhancements = EnhancementsView {
            spectrum: if state.switches.visualizer {
                enhancements.spectrum
            } else {
                None
            },
            ..enhancements
        };
        let begun = CanvasView {
            ops: seq![
                DrawView::Fill {
                    area,
                    style: crate::ui::theme::plain().on_fg(theme.foreground).on_bg(
                        theme.background,
                    ),
                },
            ],
            memory: memory.begun(area, model.motion_frame.elapsed_ms),
            hits: Seq::empty(),
        };
        let drawn = match layout {
            LayoutMode::Wide => {
                lemma_wide(begun, area, state, theme, model, enhancements);
                wide_drawn(begun, area, state, theme, model, enhancements)
            },
            LayoutMode::Compact => {
                lemma_compact(begun, area, state, theme, model, enhancements);
                compact_drawn(begun, area, state, theme, model, enhancements)
            },
            LayoutMode::Tiny => {
                lemma_tiny(begun, area, state, theme, model, enhancements.visualizer_max_fps);
                tiny_drawn(
                    begun,
                    area,
                    state,
                    theme,
                    model,
                    enhancements.visualizer_max_fps,
                )
            },
        };
        match model.overlay {
            Some(overlay) => {
                lemma_overlay(
                    CanvasView { hits: Seq::empty(), ..drawn },
                    area,
                    state,
                    theme,
                    overlay,
                    model,
                );
            },
            None => {},
        }
    }
}

/// Whether only rows of lists can be clicked.
pub open spec fn only_rows(hits: Seq<Hit>) -> bool {
    forall|i: int| 0 <= i < hits.len() ==> (#[trigger] hits[i]).target is ListRow
}

proof fn lemma_only_rows(visible: Rect, targets: Seq<RowTargetView>)
    ensures
        only_rows(row_hits(Seq::empty(), visible, targets)),
        hits_within(row_hits(Seq::empty(), visible, targets), visible),
    decreases targets.len(),
{
    if targets.len() > 0 {
        lemma_only_rows(visible, targets.drop_last());
    }
}

/// Under a window nothing can be clicked but the window's own rows; the help and
/// the lyrics window have none.
pub proof fn law_window_takes_every_click(
    memory: MemoryView,
    hits: Seq<Hit>,
    area: Rect,
    state: AppState,
    theme: Theme,
    model: RenderModelView,
    enhancements: EnhancementsView,
    overlay: Overlay,
)
    requires
        area.width > 0,
        area.height > 0,
        model.overlay == Some(overlay),
    ensures
        ({
            let offered = screen(memory, hits, area, state, theme, model, enhancements).hits;
            &&& only_rows(offered)
            &&& hits_within(offered, inside(window_of(area, overlay)))
            &&& overlay == Overlay::Help || overlay == Overlay::Lyrics
                || !has_room_for_windows(area) ==> offered.len() == 0
        }),
{
    reveal(overlay_drawn);
    reveal(overlay_content);
    reveal(rows_panel);
    let layout = LayoutMode::of(area.width, area.height);
    let model = model.normalized(layout);
    let visible = inside(window_of(area, overlay));
    assert forall|targets: Seq<RowTargetView>|
        only_rows(#[trigger] row_hits(Seq::empty(), visible, targets)) && hits_within(
            row_hits(Seq::empty(), visible, targets),
            visible,
        ) by {
        lemma_only_rows(visible, targets);
    }
}

/// Nothing is drawn on an empty screen, and nothing is remembered of it.
pub proof fn law_empty_screen_is_left_alone(
    memory: MemoryView,
    hits: Seq<Hit>,
    area: Rect,
    state: AppState,
    theme: Theme,
    model: RenderModelView,
    enhancements: EnhancementsView,
)
    requires
        area.width == 0 || area.height == 0,
    ensures
        screen(memory, hits, area, state, theme, model, enhancements) == (CanvasView {
            ops: Seq::empty(),
            memory,
            hits,
        }),
{
}

/// A spectrum is drawn only while spectra are switched on.
pub proof fn law_spectrum_needs_its_switch(
    memory: MemoryView,
    hits: Seq<Hit>,
    area: Rect,
    state: AppState,
    theme: Theme,
    model: RenderModelView,
    enhancements: EnhancementsView,
)
    requires
        !state.switches.visualizer,
    ensures
        screen(memory, hits, area, state, theme, model, enhancements) == screen(
            memory,
            hits,
            area,
            state,
            theme,
            model,
            (EnhancementsView { spectrum: None, ..enhancements }),
        ),
{
}

/// A tiny screen shows neither artwork nor a spectrum: it is the same whatever
/// there is of them.
pub proof fn law_tiny_screen_shows_no_pictures(
    memory: MemoryView,
    hits: Seq<Hit>,
    area: Rect,
    state: AppState,
    theme: Theme,
    model: RenderModelView,
    enhancements: EnhancementsView,
)
    requires
        LayoutMode::of(area.width, area.height) == LayoutMode::Tiny,
    ensures
        screen(memory, hits, area, state, theme, model, enhancements) == screen(
            memory,
            hits,
            area,
            state,
            theme,
            model,
            (EnhancementsView { artwork: None, spectrum: None, ..enhancements }),
        ),
{
}

/// A view keeps what the lists of other views remember.
pub proof fn law_views_keep_each_others_place(
    memory: MemoryView,
    state: AppState,
    view: NavigationItem,
    available_rows: int,
    width: nat,
    draft: Option<Seq<char>>,
    max_fps: u8,
    spinner_index: usize,
)
    ensures
        ({
            let after = content_of(
                memory,
                state,
                view,
                available_rows,
                width,
                draft,
                max_fps,
                spinner_index,
            ).memory;
            &&& view != NavigationItem::Search ==> after.search == memory.search
            &&& view != NavigationItem::Favorites ==> after.favorites == memory.favorites
            &&& after == (MemoryView {
                search: after.search,
                favorites: after.favorites,
                ..memory
            })
        }),
{
    reveal(content_of);
}

/// A moving picture is shown only on a wide screen, while moving pictures are
/// switched on and what it belongs to is played or paused; and never one that
/// failed or belongs to another attempt. Where none is shown, the still one is.
pub proof fn law_moving_pictures_are_rare(
    state: AppState,
    still: Option<Option<ArtworkPresentation>>,
    store: AnimationStoreView,
    size: CellSize,
    layout: LayoutMode,
)
    requires
        ({
            ||| layout == LayoutMode::Compact
            ||| !state.switches.animated_artwork
            ||| state.playback.status != PlaybackStatus::Playing && state.playback.status
                != PlaybackStatus::Paused
            ||| store.slot is None
            ||| store.slot->0.failed
            ||| store.slot->0.frame is None
            ||| Some(store.slot->0.key.generation) != state.current_attempt_generation
            ||| store.slot->0.key.size != size
        }),
    ensures
        animated_artwork(state, Some(store), size, layout) is None,
        chosen_artwork(state, still, Some(store), size, layout) == chosen_artwork(
            state,
            still,
            None,
            size,
            layout,
        ),
{
}

} // verus!
