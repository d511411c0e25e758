//! What empty views, the smallest screen and moving cursors show.

use vstd::prelude::*;
use vstd::string::*;

use crate::queue::QueueView;
use crate::text::decimal_digits;
use crate::ui::cells::truncated;
use crate::ui::interaction::ListSurface;
use crate::ui::layout::{Rect, LayoutMode};
use crate::ui::line::raw_line;
use crate::ui::lyrics_panel::current_lyrics;
use crate::ui::memory::{surface_number, MemoryView, SelectionPresentation};
use crate::ui::model::{view_label, NavigationItem, RenderModelView};
use crate::ui::player::tiny_player;
use crate::ui::render::{
    content_of, player_line_drawn, progress_of, rows_panel, tiny_drawn,
};
use crate::ui::rows::{line_of_row, loading_line, motion_region};
use crate::ui::scene::{CanvasView, DrawView};
use crate::ui::scene_laws::is_panel;
use crate::ui::state::{
    AppState, FavoritesState, SearchEntryKind, SearchMetadataKind, SearchState,
};
use crate::ui::theme::Theme;
use crate::ui::viewport::{
    ordered_key, preserves, shown, DatasetKeyView, DatasetUpdate, RowTargetView, ViewportView,
};
use crate::ui::views::favorites::{favorites_head, favorites_picture};
use crate::ui::views::queue::queue_picture;
use crate::ui::views::search::{kind_name, result_identity};

verus! {

/// A queue without entries says so.
pub proof fn law_an_empty_queue_says_so(
    viewport: ViewportView,
    queue: QueueView,
    selected: Option<Seq<char>>,
    rows: usize,
    width: nat,
)
    requires
        queue.logical.len() == 0,
    ensures
        rows > 0 ==> queue_picture(viewport, queue, selected, rows, width).lines == seq![
            raw_line("Queue is empty"@),
        ],
        queue_picture(viewport, queue, selected, rows, width).targets.len() == 0,
        queue_picture(viewport, queue, selected, 0, width).lines.len() == 0,
{
}

/// The favorites say that they are on their way, or what went wrong, below their title.
pub proof fn law_favorites_say_how_they_are(favorites: FavoritesState, width: nat, spinner: usize)
    ensures
        ({
            let head = favorites_head(favorites, width, spinner);
            let waits = favorites.loading || (!favorites.loaded && favorites.error is None);
            let line = loading_line(spinner, "Loading favorites"@, width);
            &&& head[0] == raw_line("Favorites"@)
            &&& head.len() == 1 + (if waits {
                1int
            } else {
                0int
            }) + (if favorites.error is Some {
                1int
            } else {
                0int
            })
            &&& waits ==> head[1] == line
            &&& favorites.error matches Some(error) ==> head.last() == raw_line(
                truncated("! "@ + error@, width),
            )
        }),
{
}

/// Favorites that are there but none say how there can be some.
pub proof fn law_no_favorites_say_how_to_have_some(
    viewport: ViewportView,
    favorites: FavoritesState,
    rows: usize,
    width: nat,
    spinner: usize,
)
    requires
        favorites.entries@.len() == 0,
        rows >= 4,
    ensures
        ({
            let picture = favorites_picture(viewport, favorites, rows, width, spinner);
            let known = favorites.loaded && !favorites.loading && favorites.error is None;
            &&& picture.targets.len() == 0
            &&& known ==> picture.lines == seq![
                raw_line("Favorites"@),
                raw_line("No favorites yet · press f on any song"@),
            ]
            &&& !known ==> picture.lines == favorites_head(favorites, width, spinner)
        }),
{
}

/// Results that cannot be played are told apart by their kind and their id, or by their place.
pub proof fn law_results_are_told_apart_by_kind(
    kind: SearchMetadataKind,
    id: String,
    title: String,
    index: int,
)
    ensures
        result_identity(
            SearchEntryKind::Metadata { kind, provider_id: Some(id), title },
            index,
        ) == "named:"@ + kind_name(kind) + ":"@ + id@,
        result_identity(SearchEntryKind::Metadata { kind, provider_id: None, title }, index)
            == "placed:"@ + kind_name(kind) + ":"@ + decimal_digits(index as nat),
        kind_name(kind) == "album"@ <==> kind == SearchMetadataKind::Album,
        kind_name(kind) == "artist"@ <==> kind == SearchMetadataKind::Artist,
        kind_name(kind) == "playlist"@ <==> kind == SearchMetadataKind::Playlist,
        kind_name(kind) == "podcast"@ <==> kind == SearchMetadataKind::Podcast,
{
    reveal_strlit("album");
    reveal_strlit("artist");
    reveal_strlit("playlist");
    reveal_strlit("podcast");
    assert("album"@.len() == 5 && "artist"@.len() == 6);
    assert("playlist"@.len() == 8 && "podcast"@.len() == 7);
}

/// Something moves where the cursor of a list is, as long as it is on its way.
pub proof fn law_the_moving_cursor_is_drawn_again(
    rows: Seq<RowTargetView>,
    presentation: SelectionPresentation,
    visible: Rect,
    line: usize,
)
    requires
        line_of_row(rows, presentation.cursor_index) == Some(line),
        line < visible.height,
        visible.x < u16::MAX,
        visible.y + visible.height <= u16::MAX,
    ensures
        presentation.transitioning ==> motion_region(rows, presentation, visible) == Some(
            Rect { x: visible.x, y: (visible.y + line) as u16, width: 1, height: 1 },
        ),
        !presentation.transitioning ==> motion_region(rows, presentation, visible) is None,
{
}

/// The line of a row is that of the first row with its number.
pub proof fn law_the_line_of_a_row_is_found(rows: Seq<RowTargetView>, index: int)
    requires
        0 <= index < rows.len(),
        forall|i: int|
            0 <= i < index ==> (#[trigger] rows[i]).stable_index != rows[index].stable_index,
    ensures
        line_of_row(rows, Some(rows[index].stable_index)) == Some(rows[index].line_index),
    decreases rows.len(),
{
    let shorter = rows.drop_last();
    assert(forall|i: int| 0 <= i < shorter.len() ==> shorter[i] == rows[i]);
    if index < shorter.len() {
        law_the_line_of_a_row_is_found(shorter, index);
    } else {
        lemma_no_line(shorter, rows[index].stable_index);
    }
}

proof fn lemma_no_line(rows: Seq<RowTargetView>, number: usize)
    requires
        forall|i: int| 0 <= i < rows.len() ==> (#[trigger] rows[i]).stable_index != number,
    ensures
        line_of_row(rows, Some(number)) is None,
    decreases rows.len(),
{
    if rows.len() > 0 {
        let shorter = rows.drop_last();
        assert(forall|i: int| 0 <= i < shorter.len() ==> shorter[i] == rows[i]);
        assert(rows[rows.len() - 1].stable_index != number);
        lemma_no_line(shorter, number);
    }
}

/// A spinner and a text tell that something is on its way.
pub proof fn law_a_spinner_stands_before_its_text(spinner: usize, text: Seq<char>, width: nat)
    ensures
        loading_line(spinner, text, width) == raw_line(
            truncated(crate::ui::motion::spinner_picture(spinner as int) + " "@ + text, width),
        ),
{
}

/// How far playback is comes with the moment that is drawn, where there is one.
pub proof fn law_progress_comes_with_its_moment(state: AppState, model: RenderModelView)
    ensures
        model.motion_frame_set ==> progress_of(state, model) == model.motion_frame.progress,
        !model.motion_frame_set ==> progress_of(state, model) == state.progress@,
{
}

/// The line of the smallest player is written as it is laid out; where lyrics are sung and
/// there is room, they stand in the place of the title.
pub proof fn law_the_smallest_player_shows_its_line(
    canvas: CanvasView,
    area: Rect,
    state: AppState,
    theme: Theme,
)
    requires
        area.width > 0,
        area.height > 0,
    ensures
        ({
            let drawn = player_line_drawn(canvas, area, state, theme);
            let layout = tiny_player(state, area.width as nat);
            let (offset, width) = layout.identity;
            let lyrics = current_lyrics(state, 1, width as nat, theme);
            let start = canvas.ops.len() as int;
            &&& canvas.ops.is_prefix_of(drawn.ops)
            &&& drawn.ops[start] matches DrawView::Text { area: place, lines, .. } && place == area
                && lines == seq![raw_line(layout.text)]
            &&& width < 8 || lyrics.len() == 0 ==> drawn.ops.len() == start + 1
            &&& width >= 8 && lyrics.len() > 0 ==> drawn.ops.len() == start + 3 && shows_line(
                drawn.ops.last(),
                lyrics.last(),
            )
        }),
{
    reveal(player_line_drawn);
}

/// Whether a single line is drawn.
pub open spec fn shows_line(op: DrawView, line: crate::ui::line::LineView) -> bool {
    op matches DrawView::Text { lines, .. } && lines == seq![line]
}

/// The smallest screen shows one view under its name, and the player in its last line.
pub proof fn law_the_smallest_screen_shows_one_view(
    canvas: CanvasView,
    area: Rect,
    state: AppState,
    theme: Theme,
    model: RenderModelView,
    max_fps: u8,
)
    requires
        area.width > 0,
        area.height > 1,
        area.x + area.width <= u16::MAX,
        area.y + area.height <= u16::MAX,
    ensures
        ({
            let drawn = tiny_drawn(canvas, area, state, theme, model, max_fps);
            let start = canvas.ops.len() as int;
            let view = Rect { x: area.x, y: area.y, width: area.width, height: (area.height - 1) as u16 };
            let line = Rect {
                x: area.x,
                y: (area.y + area.height - 1) as u16,
                width: area.width,
                height: 1,
            };
            &&& canvas.ops.is_prefix_of(drawn.ops)
            &&& is_panel(drawn.ops[start], view, "▶ "@ + view_label(model.view), true, theme)
            &&& drawn.ops[start + 1] matches DrawView::Text { area: place, .. } && place == line
        }),
{
    reveal(tiny_drawn);
    reveal(rows_panel);
    reveal(player_line_drawn);
}

} // verus!
