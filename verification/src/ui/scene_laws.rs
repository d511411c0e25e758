//! What stands where on the screen.

use vstd::prelude::*;
use vstd::string::*;

use crate::domain::PlaybackStatus;
use crate::text::decimal_digits;
use crate::ui::artwork::{ArtworkFallback, ArtworkPresentation, CellSize};
use crate::ui::cells::{cells, clipped_lines, truncated};
use crate::ui::animation::AnimationStoreView;
use crate::ui::interaction::{overlap, with_hit, Hit, HitTarget};
use crate::ui::layout::{capped_sum, inside, limited, LayoutMode, Rect};
use crate::ui::line::{line_views, raw_line, LineView};
use crate::ui::lyrics_panel::has_timed;
use crate::ui::memory::MemoryView;
use crate::ui::model::{
    short_view_label, view_at, view_label, CompactPanel, FocusRegion, NavigationItem, Overlay,
    RenderModelView,
};
use crate::ui::palette::{palette_content, palette_rows};
use crate::ui::render::{
    artwork_panel_drawn, chosen_artwork, compact_artwork_fits, compact_artwork_size,
    compact_columns, compact_drawn,
    compact_player_height, compact_rows, content_drawn, content_of, content_title, first_lines,
    is_condensed, menu_hits, menu_lines, navigation_drawn, navigation_title, overlay_content,
    overlay_drawn, overlay_label, overlay_size, overlay_title, player_drawn, progress_moves,
    progress_of, queue_drawn, rows_panel, screen, selected_entry, tab_hits, tab_spans, view_column,
    wide_artwork_size, wide_columns, wide_drawn, wide_player_height, wide_rows, window_of, ContentView,
    EnhancementsView,
};
use crate::ui::scene::{panel, CanvasView, DrawView, PanelView};
use crate::ui::spectrum::SpectrumPresentationView;
use crate::ui::state::AppState;
use crate::ui::theme::Theme;
use crate::ui::viewport::target_views;
use crate::ui::views::favorites::favorites_picture;
use crate::ui::views::pickers::{browser_picture, country_picture, help_page};
use crate::ui::views::queue::queue_picture;
use crate::ui::views::search::search_picture;
use crate::ui::views::settings::settings_lines;

verus! {

/// A panel says in front of its title whether it has the focus, and has its border and its
/// color by it.
pub proof fn law_a_panel_shows_its_focus(title: Seq<char>, theme: Theme)
    ensures
        ({
            let focused = panel(title, true, theme);
            let other = panel(title, false, theme);
            &&& focused.title == "[*] "@ + title
            &&& other.title == "[ ] "@ + title
            &&& focused.double_border && !other.double_border
            &&& focused.title_style.fg == Some(theme.selection)
            &&& other.title_style.fg == Some(theme.muted)
            &&& focused.border_style.fg == Some(theme.accent)
            &&& other.border_style.fg == Some(theme.muted)
            &&& focused.style.fg == Some(theme.foreground)
            &&& focused.style.bg == Some(theme.background)
        }),
{
    reveal_strlit("[*] ");
    reveal_strlit("[ ] ");
    reveal_strlit("[*]");
    reveal_strlit("[ ]");
    reveal_strlit(" ");
    assert("[*]"@ + " "@ =~= "[*] "@);
    assert("[ ]"@ + " "@ =~= "[ ] "@);
}

/// The menu names every view in its place, the one that is shown behind the cursor and in
/// the color of what is selected.
pub proof fn law_the_menu_names_every_view(view: NavigationItem, theme: Theme, index: int)
    requires
        0 <= index < 8,
    ensures
        menu_lines(view, theme).len() == 8,
        ({
            let line = menu_lines(view, theme)[index];
            let here = view_at(index) == view;
            &&& line.spans.len() == 1
            &&& line.spans[0].content == (if here {
                "▶ "@
            } else {
                "  "@
            }) + view_label(view_at(index))
            &&& line.style.fg == Some(
                if here {
                    theme.selection
                } else {
                    theme.foreground
                },
            )
            &&& line.style.bold <==> here
        }),
{
    reveal_strlit("▶");
    reveal_strlit("▶ ");
    reveal_strlit(" ");
    reveal_strlit("  ");
    assert("▶"@ + " "@ =~= "▶ "@);
    assert(" "@ + " "@ =~= "  "@);
}

/// Whether a click leads to a view from the line where the menu names it.
pub open spec fn leads_to_its_view(hit: Hit, visible: Rect, index: int) -> bool {
    &&& 0 <= index < 8
    &&& hit.target == HitTarget::Navigation(view_at(index))
    &&& hit.area.y == visible.y + index
    &&& hit.area.x == visible.x + 2
    &&& hit.area.height == 1
}

/// A click on a name in the menu leads to that view.
pub proof fn law_the_menu_leads_to_its_views(hits: Seq<Hit>, visible: Rect, count: nat, at: int)
    requires
        count <= 8,
        visible.x + visible.width <= u16::MAX,
        visible.y + visible.height <= u16::MAX,
        visible.width >= 2,
        visible.height >= 8,
        hits.len() <= at < menu_hits(hits, visible, count).len(),
    ensures
        exists|index: int| #[trigger]
            leads_to_its_view(menu_hits(hits, visible, count)[at], visible, index),
    decreases count,
{
    if count > 0 {
        let before = menu_hits(hits, visible, (count - 1) as nat);
        if at < before.len() {
            law_the_menu_leads_to_its_views(hits, visible, (count - 1) as nat, at);
            let index = choose|index: int| #[trigger] leads_to_its_view(before[at], visible, index);
            assert(leads_to_its_view(menu_hits(hits, visible, count)[at], visible, index));
        } else {
            assert(leads_to_its_view(
                menu_hits(hits, visible, count)[at],
                visible,
                count - 1,
            ));
        }
    }
}

/// The tabs name every view in its place, the one that is shown behind the cursor.
pub proof fn law_the_tabs_name_every_view(
    view: NavigationItem,
    condensed: bool,
    theme: Theme,
    index: int,
)
    requires
        0 <= index < 8,
    ensures
        tab_spans(view, condensed, theme).len() == 16,
        ({
            let span = tab_spans(view, condensed, theme)[2 * index];
            let here = view_at(index) == view;
            &&& here ==> span.content == "▶ "@ + short_view_label(view_at(index))
            &&& !here && condensed ==> span.content == short_view_label(view_at(index))
            &&& !here && !condensed ==> span.content == "  "@ + short_view_label(view_at(index))
            &&& span.style.bold <==> here
            &&& span.style.fg == Some(
                if here {
                    theme.selection
                } else {
                    theme.foreground
                },
            )
        }),
        ({
            let gap = tab_spans(view, condensed, theme)[2 * index + 1].content;
            &&& index == 7 ==> gap == ""@
            &&& index < 7 && condensed ==> gap == " "@
            &&& index < 7 && !condensed ==> gap == " │ "@
        }),
{
    reveal_strlit("");
    assert((2 * index) % 2 == 0 && (2 * index) / 2 == index);
    assert((2 * index + 1) % 2 == 1 && (2 * index + 1) / 2 == index);
    assert(""@ + short_view_label(view_at(index)) =~= short_view_label(view_at(index)));
}

/// Whether a click leads to a view from the place where its tab stands.
pub open spec fn is_tab_of(
    hit: Hit,
    visible: Rect,
    view: NavigationItem,
    condensed: bool,
    index: int,
) -> bool {
    &&& 0 <= index < 8
    &&& hit.target == HitTarget::Navigation(view_at(index))
    &&& hit.area.y == visible.y
    &&& hit.area.height == 1
    &&& hit.area.x >= view_column(visible.x, view, condensed, index as nat)
}

/// A click on a tab leads to its view.
pub proof fn law_the_tabs_lead_to_their_views(
    hits: Seq<Hit>,
    visible: Rect,
    view: NavigationItem,
    condensed: bool,
    count: nat,
    at: int,
)
    requires
        count <= 8,
        visible.x + visible.width <= u16::MAX,
        visible.y + visible.height <= u16::MAX,
        hits.len() <= at < tab_hits(hits, visible, view, condensed, count).len(),
    ensures
        exists|index: int| #[trigger]
            is_tab_of(
                tab_hits(hits, visible, view, condensed, count)[at],
                visible,
                view,
                condensed,
                index,
            ),
    decreases count,
{
    if count > 0 {
        let before = tab_hits(hits, visible, view, condensed, (count - 1) as nat);
        let all = tab_hits(hits, visible, view, condensed, count);
        if at < before.len() {
            law_the_tabs_lead_to_their_views(
                hits,
                visible,
                view,
                condensed,
                (count - 1) as nat,
                at,
            );
            let index = choose|index: int| #[trigger]
                is_tab_of(before[at], visible, view, condensed, index);
            assert(is_tab_of(all[at], visible, view, condensed, index));
        } else {
            assert(is_tab_of(all[at], visible, view, condensed, count - 1));
        }
    }
}

/// The tabs follow each other: each begins where the one before and its gap end.
pub proof fn law_tabs_follow_each_other(
    start: u16,
    view: NavigationItem,
    condensed: bool,
    index: int,
)
    requires
        0 <= index < 8,
        view_column(start, view, condensed, (index + 1) as nat) < u16::MAX,
    ensures
        view_column(start, view, condensed, 0) == start,
        view_column(start, view, condensed, (index + 1) as nat) - view_column(
            start,
            view,
            condensed,
            index as nat,
        ) == cells(
            if view_at(index) == view {
                "▶ "@
            } else if condensed {
                ""@
            } else {
                "  "@
            },
        ) + cells(short_view_label(view_at(index))) + (if index == 7 {
            0int
        } else if condensed {
            1int
        } else {
            3int
        }),
{
}

/// The title of the navigation says which of content and queue is shown, and how long the
/// queue is.
pub proof fn law_the_title_says_which_panel_is_shown(count: nat)
    ensures
        navigation_title(CompactPanel::Content, count) == "Navigation · [* Content] [Q Queue · "@
            + decimal_digits(count) + "]"@,
        navigation_title(CompactPanel::Queue, count) == "Navigation · [Content] [* Q Queue · "@
            + decimal_digits(count) + "]"@,
{
}

/// The search shows what was found, as many lines as there is room for.
pub proof fn law_the_search_is_shown(
    memory: MemoryView,
    state: AppState,
    rows: int,
    width: nat,
    draft: Option<Seq<char>>,
    max_fps: u8,
    spinner_index: usize,
)
    requires
        0 < rows <= 128,
    ensures
        ({
            let search = content_of(
                memory,
                state,
                NavigationItem::Search,
                rows,
                width,
                draft,
                max_fps,
                spinner_index,
            );
            let picture = search_picture(
                memory.search,
                state.search,
                rows as usize,
                width,
                draft,
                spinner_index,
            );
            &&& search.lines.is_prefix_of(picture.lines)
            &&& picture.lines.len() <= rows ==> search.lines == picture.lines
            &&& search.targets == picture.targets
            &&& search.memory.search == picture.viewport
            &&& search.memory.favorites == memory.favorites
        }),
{
    reveal(content_of);
    let lines = search_picture(
        memory.search,
        state.search,
        rows as usize,
        width,
        draft,
        spinner_index,
    ).lines;
    assert(lines.take(lines.len() as int) =~= lines);
}

/// The favorites are shown, as many lines as there is room for.
pub proof fn law_the_favorites_are_shown(
    memory: MemoryView,
    state: AppState,
    rows: int,
    width: nat,
    draft: Option<Seq<char>>,
    max_fps: u8,
    spinner_index: usize,
)
    requires
        0 < rows <= 128,
    ensures
        ({
            let favorites = content_of(
                memory,
                state,
                NavigationItem::Favorites,
                rows,
                width,
                draft,
                max_fps,
                spinner_index,
            );
            let picture = favorites_picture(
                memory.favorites,
                state.favorites,
                rows as usize,
                width,
                spinner_index,
            );
            &&& favorites.lines.is_prefix_of(picture.lines)
            &&& picture.lines.len() <= rows ==> favorites.lines == picture.lines
            &&& favorites.targets == picture.targets
            &&& favorites.memory.favorites == picture.viewport
            &&& favorites.memory.search == memory.search
        }),
{
    reveal(content_of);
    let lines = favorites_picture(
        memory.favorites,
        state.favorites,
        rows as usize,
        width,
        spinner_index,
    ).lines;
    assert(lines.take(lines.len() as int) =~= lines);
}

/// The settings are shown, as many lines as there is room for.
pub proof fn law_the_settings_are_shown(
    memory: MemoryView,
    state: AppState,
    rows: int,
    width: nat,
    draft: Option<Seq<char>>,
    max_fps: u8,
    spinner_index: usize,
)
    requires
        0 < rows <= 128,
    ensures
        ({
            let settings = content_of(
                memory,
                state,
                NavigationItem::Settings,
                rows,
                width,
                draft,
                max_fps,
                spinner_index,
            );
            &&& settings.lines == settings_lines(state, rows as nat, width, max_fps)
            &&& settings.targets.len() == 0
            &&& settings.memory == memory
        }),
{
    reveal(content_of);
    let lines = settings_lines(state, rows as nat, width, max_fps);
    assert(lines.take(lines.len() as int) =~= lines);
}

/// The views that are laid out elsewhere show the lines that were laid out, from the first
/// on.
pub proof fn law_a_prepared_view_is_shown(
    memory: MemoryView,
    state: AppState,
    view: NavigationItem,
    rows: int,
    width: nat,
    draft: Option<Seq<char>>,
    max_fps: u8,
    spinner_index: usize,
    line: int,
)
    requires
        0 < rows <= 128,
        view != NavigationItem::Search,
        view != NavigationItem::Favorites,
        view != NavigationItem::Settings,
        0 <= line < state.prepared.lines@.len(),
        line < rows,
    ensures
        ({
            let content = content_of(
                memory,
                state,
                view,
                rows,
                width,
                draft,
                max_fps,
                spinner_index,
            );
            &&& content.lines[line] == state.prepared.lines@[line]@
            &&& content.targets == target_views(state.prepared.targets@)
            &&& content.memory == memory
        }),
{
    reveal(content_of);
}

/// A window shows what it is for.
pub proof fn law_a_window_shows_its_own(
    memory: MemoryView,
    state: AppState,
    theme: Theme,
    model: RenderModelView,
    rows: usize,
    width: nat,
)
    ensures
        overlay_content(memory, state, theme, Overlay::Help, model, rows, width).lines == help_page(
            model.help_scroll as nat,
            rows as nat,
        ),
        overlay_content(memory, state, theme, Overlay::CommandPalette, model, rows, width).lines
            == palette_content(model.palette, rows as nat, width),
        overlay_content(memory, state, theme, Overlay::CommandPalette, model, rows, width).targets
            == palette_rows(model.palette, rows as nat),
        overlay_content(memory, state, theme, Overlay::CountryPicker, model, rows, width).lines
            == country_picture(memory.country_picker, model.country_picker, rows, width).lines,
        overlay_content(memory, state, theme, Overlay::CountryPicker, model, rows, width).targets
            == country_picture(memory.country_picker, model.country_picker, rows, width).targets,
        overlay_content(memory, state, theme, Overlay::BrowserPicker, model, rows, width).lines
            == browser_picture(memory.browser_picker, model.browser_picker, rows, width).lines,
        overlay_content(memory, state, theme, Overlay::BrowserPicker, model, rows, width).targets
            == browser_picture(memory.browser_picker, model.browser_picker, rows, width).targets,
        overlay_content(memory, state, theme, Overlay::Help, model, rows, width).targets.len() == 0,
        overlay_content(memory, state, theme, Overlay::Lyrics, model, rows, width).targets.len()
            == 0,
{
    reveal(overlay_content);
}

/// A window has its name and its size.
pub proof fn law_a_window_has_its_name(overlay: Overlay, model: RenderModelView)
    ensures
        overlay == Overlay::Help ==> overlay_label(overlay) == "Help · Esc"@ && overlay_title(
            overlay,
            model,
        ) == "Help · ? or Esc to close"@ && overlay_size(overlay) == (74u16, 15u16),
        overlay == Overlay::CommandPalette ==> overlay_label(overlay) == "Commands · Esc"@
            && overlay_title(overlay, model) == "Command palette · type to filter · Esc"@
            && overlay_size(overlay) == (68u16, 22u16),
        overlay == Overlay::CountryPicker ==> overlay_label(overlay) == "Country · Esc"@
            && overlay_title(overlay, model) == "Country picker · Enter select · Esc"@
            && overlay_size(overlay) == (48u16, 20u16),
        overlay == Overlay::BrowserPicker ==> overlay_label(overlay) == "Browser · Esc"@
            && overlay_title(overlay, model) == "Browser picker · Enter import · Esc"@
            && overlay_size(overlay) == (36u16, 12u16),
        overlay == Overlay::Lyrics ==> overlay_label(overlay) == "Lyrics · Esc"@ && overlay_size(
            overlay,
        ) == (84u16, 28u16),
        overlay == Overlay::Lyrics && model.lyrics.follow_active ==> overlay_title(overlay, model)
            == "Lyrics · following · arrows/j/k scroll · Enter recenter · L/Esc"@,
        overlay == Overlay::Lyrics && !model.lyrics.follow_active ==> overlay_title(overlay, model)
            == "Lyrics · manual · Enter recenter · L/Esc"@,
{
}

/// Whether something is drawn as a panel with a title in an area.
pub open spec fn is_panel(op: DrawView, area: Rect, title: Seq<char>, focused: bool, theme: Theme) -> bool {
    op matches DrawView::Text { area: drawn, block: Some(block), style, lines } && drawn == area
        && block == panel(title, focused, theme)
}

/// Whether something is drawn as the picture of an item.
pub open spec fn shows_picture(op: DrawView, artwork: Option<ArtworkPresentation>) -> bool {
    op matches DrawView::Artwork { presentation, .. } && artwork == Some(presentation)
}

/// Whether one panel was drawn on a canvas, and nothing else.
pub open spec fn adds_panel(
    before: CanvasView,
    after: CanvasView,
    area: Rect,
    title: Seq<char>,
    focused: bool,
    theme: Theme,
) -> bool {
    &&& after.ops.len() == before.ops.len() + 1
    &&& before.ops.is_prefix_of(after.ops)
    &&& is_panel(after.ops.last(), area, title, focused, theme)
}

proof fn lemma_navigation(
    canvas: CanvasView,
    area: Rect,
    theme: Theme,
    model: RenderModelView,
    compact: bool,
    state: AppState,
)
    ensures
        adds_panel(
            canvas,
            navigation_drawn(canvas, area, theme, model, compact, state),
            area,
            if compact {
                navigation_title(model.compact_panel, state.queue@.logical.len())
            } else {
                "Navigation"@
            },
            model.focus == FocusRegion::Navigation,
            theme,
        ),
{
    reveal(navigation_drawn);
}

proof fn lemma_content(
    canvas: CanvasView,
    area: Rect,
    state: AppState,
    theme: Theme,
    model: RenderModelView,
    max_fps: u8,
)
    ensures
        adds_panel(
            canvas,
            content_drawn(canvas, area, state, theme, model, max_fps),
            area,
            content_title(model.view, model.focus == FocusRegion::Content),
            model.focus == FocusRegion::Content,
            theme,
        ),
{
    reveal(content_drawn);
    reveal(rows_panel);
}

proof fn lemma_queue(
    canvas: CanvasView,
    area: Rect,
    state: AppState,
    theme: Theme,
    model: RenderModelView,
)
    ensures
        adds_panel(
            canvas,
            queue_drawn(canvas, area, state, theme, model),
            area,
            "Queue · "@ + decimal_digits(state.queue@.logical.len()),
            model.focus == FocusRegion::Queue,
            theme,
        ),
{
    reveal(queue_drawn);
    reveal(rows_panel);
}

proof fn lemma_player(
    canvas: CanvasView,
    area: Rect,
    state: AppState,
    theme: Theme,
    model: RenderModelView,
    compact: bool,
    spectrum: Option<SpectrumPresentationView>,
)
    ensures
        adds_panel(
            canvas,
            player_drawn(canvas, area, state, theme, model, compact, spectrum),
            area,
            "Player · persistent"@,
            model.focus == FocusRegion::Player,
            theme,
        ),
{
    reveal(player_drawn);
}

proof fn lemma_picture(
    canvas: CanvasView,
    area: Rect,
    theme: Theme,
    artwork: ArtworkPresentation,
    maximum: CellSize,
)
    ensures
        artwork_panel_drawn(canvas, area, theme, artwork, maximum).ops.len() == canvas.ops.len()
            + 2,
        canvas.ops.is_prefix_of(artwork_panel_drawn(canvas, area, theme, artwork, maximum).ops),
        shows_picture(
            artwork_panel_drawn(canvas, area, theme, artwork, maximum).ops.last(),
            Some(artwork),
        ),
{
    reveal(artwork_panel_drawn);
}

/// A wide screen shows the navigation on the left, then the content, the picture where there
/// is one, and the queue on the right; below them all is the player.
pub proof fn law_a_wide_screen_has_its_panels(
    canvas: CanvasView,
    area: Rect,
    state: AppState,
    theme: Theme,
    model: RenderModelView,
    enhancements: EnhancementsView,
)
    ensures
        ({
            let drawn = wide_drawn(canvas, area, state, theme, model, enhancements);
            let rows = wide_rows(area, wide_player_height(state, enhancements.spectrum is Some));
            let pictured = enhancements.artwork is Some;
            let columns = wide_columns(rows[0], pictured);
            let start = canvas.ops.len() as int;
            let more = if pictured {
                2int
            } else {
                0int
            };
            &&& drawn.ops.len() == start + 4 + more
            &&& canvas.ops.is_prefix_of(drawn.ops)
            &&& is_panel(
                drawn.ops[start],
                columns[0],
                "Navigation"@,
                model.focus == FocusRegion::Navigation,
                theme,
            )
            &&& is_panel(
                drawn.ops[start + 1],
                columns[1],
                content_title(model.view, model.focus == FocusRegion::Content),
                model.focus == FocusRegion::Content,
                theme,
            )
            &&& pictured ==> shows_picture(drawn.ops[start + 3], enhancements.artwork)
            &&& is_panel(
                drawn.ops[start + 2 + more],
                columns.last(),
                "Queue · "@ + decimal_digits(state.queue@.logical.len()),
                model.focus == FocusRegion::Queue,
                theme,
            )
            &&& is_panel(
                drawn.ops[start + 3 + more],
                rows[1],
                "Player · persistent"@,
                model.focus == FocusRegion::Player,
                theme,
            )
        }),
{
    reveal(wide_drawn);
    let rows = wide_rows(area, wide_player_height(state, enhancements.spectrum is Some));
    let columns = wide_columns(rows[0], enhancements.artwork is Some);
    let navigation = navigation_drawn(canvas, columns[0], theme, model, false, state);
    lemma_navigation(canvas, columns[0], theme, model, false, state);
    let fps = enhancements.visualizer_max_fps;
    let content = content_drawn(navigation, columns[1], state, theme, model, fps);
    lemma_content(navigation, columns[1], state, theme, model, fps);
    let pictured = match enhancements.artwork {
        Some(artwork) => {
            lemma_picture(content, columns[2], theme, artwork, wide_artwork_size());
            artwork_panel_drawn(content, columns[2], theme, artwork, wide_artwork_size())
        },
        None => content,
    };
    lemma_queue(pictured, columns.last(), state, theme, model);
    let lists = queue_drawn(pictured, columns.last(), state, theme, model);
    lemma_player(lists, rows[1], state, theme, model, false, enhancements.spectrum);
}

/// On a wide screen the navigation takes 22 columns and the queue 34; the content has the
/// rest, and the player is as high as what it shows.
pub proof fn law_a_wide_screen_is_shared(area: Rect, state: AppState, spectrum: bool)
    requires
        area.width >= 120,
        area.height >= 32,
        area.x + area.width <= u16::MAX,
        area.y + area.height <= u16::MAX,
    ensures
        ({
            let height = wide_player_height(state, spectrum);
            let rows = wide_rows(area, height);
            let columns = wide_columns(rows[0], false);
            &&& height == 5 + (if spectrum {
                3int
            } else {
                0int
            }) + (if has_timed(state) {
                3int
            } else {
                0int
            })
            &&& rows[0].y == area.y
            &&& rows[0].height == area.height - height
            &&& rows[1].y == area.y + area.height - height
            &&& rows[1].height == height
            &&& rows[1].width == area.width
            &&& columns[0].x == area.x
            &&& columns[0].width == 22
            &&& columns[1].x == area.x + 22
            &&& columns[1].width == area.width - 22 - 34
            &&& columns[2].x == area.x + area.width - 34
            &&& columns[2].width == 34
        }),
{
    reveal_with_fuel(crate::ui::scene::total_fixed, 4);
    reveal_with_fuel(crate::ui::scene::part_offset, 4);
    let height = wide_player_height(state, spectrum);
    let parts = seq![
        crate::ui::scene::Extent::AtLeast(0),
        crate::ui::scene::Extent::Exactly(height),
    ];
    assert(parts.drop_last().drop_last() =~= Seq::<crate::ui::scene::Extent>::empty());
    assert(crate::ui::scene::total_fixed(parts) == height);
    let across = seq![
        crate::ui::scene::Extent::Exactly(22),
        crate::ui::scene::Extent::AtLeast(24),
        crate::ui::scene::Extent::Exactly(34),
    ];
    assert(across.drop_last().drop_last().drop_last()
        =~= Seq::<crate::ui::scene::Extent>::empty());
    assert(crate::ui::scene::total_fixed(across) == 56);
}

/// A compact screen shows the navigation above, then content or queue, with the picture at
/// their right where it fits, and the player below.
pub proof fn law_a_compact_screen_has_its_panels(
    canvas: CanvasView,
    area: Rect,
    state: AppState,
    theme: Theme,
    model: RenderModelView,
    enhancements: EnhancementsView,
)
    ensures
        ({
            let drawn = compact_drawn(canvas, area, state, theme, model, enhancements);
            let rows = compact_rows(
                area,
                compact_player_height(state, enhancements.spectrum is Some),
            );
            let pictured = enhancements.artwork is Some && rows[1].width >= 58 && rows[1].height
                >= 7;
            let main = if pictured {
                compact_columns(rows[1])[0]
            } else {
                rows[1]
            };
            let start = canvas.ops.len() as int;
            &&& canvas.ops.is_prefix_of(drawn.ops)
            &&& is_panel(
                drawn.ops[start],
                rows[0],
                navigation_title(model.compact_panel, state.queue@.logical.len()),
                model.focus == FocusRegion::Navigation,
                theme,
            )
            &&& model.compact_panel == CompactPanel::Content ==> is_panel(
                drawn.ops[start + 1],
                main,
                content_title(model.view, model.focus == FocusRegion::Content),
                model.focus == FocusRegion::Content,
                theme,
            )
            &&& model.compact_panel == CompactPanel::Queue ==> is_panel(
                drawn.ops[start + 1],
                main,
                "Queue · "@ + decimal_digits(state.queue@.logical.len()),
                model.focus == FocusRegion::Queue,
                theme,
            )
            &&& pictured ==> drawn.ops.len() == start + 5 && shows_picture(
                drawn.ops[start + 3],
                enhancements.artwork,
            )
            &&& !pictured ==> drawn.ops.len() == start + 3
            &&& is_panel(
                drawn.ops.last(),
                rows[2],
                "Player · persistent"@,
                model.focus == FocusRegion::Player,
                theme,
            )
        }),
{
    reveal(compact_drawn);
    let rows = compact_rows(area, compact_player_height(state, enhancements.spectrum is Some));
    let pictured = enhancements.artwork is Some && compact_artwork_fits(rows[1]);
    let main = if pictured {
        compact_columns(rows[1])[0]
    } else {
        rows[1]
    };
    let navigation = navigation_drawn(canvas, rows[0], theme, model, true, state);
    lemma_navigation(canvas, rows[0], theme, model, true, state);
    let fps = enhancements.visualizer_max_fps;
    lemma_content(navigation, main, state, theme, model, fps);
    lemma_queue(navigation, main, state, theme, model);
    let middle = match model.compact_panel {
        CompactPanel::Content => content_drawn(navigation, main, state, theme, model, fps),
        CompactPanel::Queue => queue_drawn(navigation, main, state, theme, model),
    };
    let side = compact_columns(rows[1])[1];
    let size = compact_artwork_size();
    let shown = if pictured {
        lemma_picture(middle, side, theme, enhancements.artwork->0, size);
        artwork_panel_drawn(middle, side, theme, enhancements.artwork->0, size)
    } else {
        middle
    };
    lemma_player(shown, rows[2], state, theme, model, true, enhancements.spectrum);
}

/// On a compact screen the navigation takes three rows, and the player is as high as what it
/// shows.
pub proof fn law_a_compact_screen_is_shared(area: Rect, state: AppState, spectrum: bool)
    requires
        area.width >= 60,
        area.height >= 18,
        area.x + area.width <= u16::MAX,
        area.y + area.height <= u16::MAX,
    ensures
        ({
            let height = compact_player_height(state, spectrum);
            let rows = compact_rows(area, height);
            &&& height == 5 + (if spectrum {
                1int
            } else {
                0int
            }) + (if has_timed(state) {
                1int
            } else {
                0int
            })
            &&& rows[0].y == area.y
            &&& rows[0].height == 3
            &&& rows[1].y == area.y + 3
            &&& rows[1].height == area.height - 3 - height
            &&& rows[2].y == area.y + area.height - height
            &&& rows[2].height == height
        }),
{
    reveal_with_fuel(crate::ui::scene::total_fixed, 4);
    reveal_with_fuel(crate::ui::scene::part_offset, 4);
    let height = compact_player_height(state, spectrum);
    let parts = seq![
        crate::ui::scene::Extent::Exactly(3),
        crate::ui::scene::Extent::AtLeast(0),
        crate::ui::scene::Extent::Exactly(height),
    ];
    assert(parts.drop_last().drop_last().drop_last()
        =~= Seq::<crate::ui::scene::Extent>::empty());
    assert(crate::ui::scene::total_fixed(parts) == 3 + height);
}

/// The content says which view it shows.
pub proof fn law_the_content_names_its_view(view: NavigationItem)
    ensures
        content_title(view, true) == view_label(view) + " · focused content"@,
        content_title(view, false) == view_label(view) + " · content"@,
{
}

/// The queue shows what is selected in it only while it has the focus.
pub proof fn law_the_queue_is_selected_with_the_focus(model: RenderModelView)
    ensures
        model.focus == FocusRegion::Queue ==> selected_entry(model) == model.queue_selected_id,
        model.focus != FocusRegion::Queue ==> selected_entry(model) is None,
{
}

/// The progress bar moves while something is played that has not come to its end.
pub proof fn law_the_bar_moves_while_something_is_played(state: AppState)
    ensures
        progress_moves(state) <==> state.playback.status == PlaybackStatus::Playing
            && state.playback.duration_ms is Some && state.playback.position_ms
            < state.playback.duration_ms->0,
{
}

/// The picture is the moving one where there is one, else the one that does not move, or the
/// sign that there is none; a tiny screen shows neither.
pub proof fn law_a_picture_is_chosen(
    state: AppState,
    still: ArtworkPresentation,
    animation: Option<AnimationStoreView>,
    size: CellSize,
)
    requires
        !state.switches.animated_artwork,
    ensures
        chosen_artwork(state, Some(Some(still)), animation, size, LayoutMode::Wide) == Some(still),
        chosen_artwork(state, Some(Some(still)), animation, size, LayoutMode::Compact) == Some(
            still,
        ),
        chosen_artwork(state, Some(Some(still)), animation, size, LayoutMode::Tiny) is None,
        chosen_artwork(state, Some(None), animation, size, LayoutMode::Wide) == Some(
            ArtworkPresentation::Fallback(ArtworkFallback),
        ),
        chosen_artwork(state, None, animation, size, LayoutMode::Wide) is None,
{
}

/// A window is drawn over everything else, in the middle of the screen, and what it covers is
/// cleared.
pub proof fn law_a_window_is_drawn_last(
    canvas: CanvasView,
    area: Rect,
    state: AppState,
    theme: Theme,
    overlay: Overlay,
    model: RenderModelView,
)
    requires
        area.width >= 12,
        area.height >= 4,
    ensures
        ({
            let drawn = overlay_drawn(canvas, area, state, theme, overlay, model);
            &&& canvas.ops.is_prefix_of(drawn.ops)
            &&& drawn.ops.len() == canvas.ops.len() + 2
            &&& drawn.ops[canvas.ops.len() as int] == (DrawView::Clear {
                area: window_of(area, overlay),
            })
            &&& is_panel(
                drawn.ops.last(),
                window_of(area, overlay),
                overlay_title(overlay, model),
                true,
                theme,
            )
        }),
{
    reveal(overlay_drawn);
    reveal(rows_panel);
}

} // verus!
