//! The items that were marked as favorites.

use vstd::prelude::*;
use vstd::string::*;

use crate::domain::{media_views, texts, MediaId, MediaIdView, MediaItem, MediaItemView};
use crate::queue::{stable_id, stable_queue_item_id};
use crate::ui::cells::{truncate_cells, truncated};
use crate::ui::interaction::ListSurface;
use crate::ui::layout::least;
use crate::ui::line::{line_views, raw_line, Line, LineView};
use crate::ui::rows::{loading_label, loading_line};
use crate::ui::state::{AppState, FavoritesState};
use crate::ui::viewport::{
    lemma_position_in_prefix, lemma_shown_rows, ordered_dataset_key, ordered_key, position_in,
    shown, target_views, DatasetKeyView, DatasetUpdate, RowTargetView, SelectionViewport,
    ViewportView,
};
use crate::ui::views::list::{
    blank, is_picture, media_row, only_lines, push_line, push_rows, row_lines, row_of_media,
    row_targets, ListLines, ListPicture,
};

verus! {

/// Whether it is shown that favorites are being loaded.
pub open spec fn shows_loading(favorites: FavoritesState) -> bool {
    favorites.loading || (!favorites.loaded && favorites.error is None)
}

/// The lines above the favorites.
pub open spec fn favorites_head(
    favorites: FavoritesState,
    width: nat,
    spinner_index: usize,
) -> Seq<LineView> {
    seq![raw_line("Favorites"@)] + (if shows_loading(favorites) {
        seq![loading_line(spinner_index, "Loading favorites"@, width)]
    } else {
        Seq::empty()
    }) + match favorites.error {
        Some(error) => seq![raw_line(truncated("! "@ + error@, width))],
        None => Seq::empty(),
    }
}

/// The ids of items.
pub open spec fn media_ids(items: Seq<MediaItemView>) -> Seq<MediaIdView> {
    items.map_values(|item: MediaItemView| item.id)
}

/// What tells items apart.
pub open spec fn media_identities(items: Seq<MediaItemView>) -> Seq<Seq<char>> {
    items.map_values(|item: MediaItemView| stable_id(item.id))
}

/// The row of an item.
pub open spec fn position_of(items: Seq<MediaItemView>, id: Option<MediaId>) -> Option<usize> {
    match id {
        Some(id) => match position_in(media_ids(items), id@) {
            Some(position) => Some(position as usize),
            None => None,
        },
        None => None,
    }
}

/// Whether an item is the selected one.
pub open spec fn is_selected(selected: Option<MediaId>, item: MediaItemView) -> bool {
    match selected {
        Some(id) => id@ == item.id,
        None => false,
    }
}

/// The list of favorites, as the key of a list.
pub open spec fn favorites_key(favorites: FavoritesState) -> DatasetKeyView {
    ordered_key(
        "favorites"@,
        favorites.generation.0,
        media_identities(media_views(favorites.entries@)),
        DatasetUpdate::Reconcile,
    )
}

/// The items that were marked as favorites.
pub open spec fn favorites_picture(
    viewport: ViewportView,
    favorites: FavoritesState,
    row_limit: usize,
    width: nat,
    spinner_index: usize,
) -> ListPicture {
    let head = favorites_head(favorites, width, spinner_index);
    let entries = media_views(favorites.entries@);
    if row_limit <= head.len() {
        only_lines(viewport, head.take(row_limit as int))
    } else if entries.len() == 0 {
        only_lines(
            viewport,
            if favorites.loaded && !favorites.loading && favorites.error is None {
                head.push(raw_line("No favorites yet · press f on any song"@))
            } else {
                head
            },
        )
    } else {
        let (after, range) = shown(
            viewport,
            entries.len() as usize,
            position_of(entries, favorites.selected_id),
            (row_limit - head.len()) as usize,
            favorites_key(favorites),
        );
        let count = (range.end - range.start) as nat;
        ListPicture {
            viewport: after,
            lines: head + row_lines(favorite_rows(favorites, range.start as int, count), width),
            targets: row_targets(
                after,
                count,
                head.len() as int,
                ListSurface::Favorites,
                range.start as int,
            ),
        }
    }
}

fn position_of_media(items: &Vec<MediaItem>, id: &MediaId) -> (position: Option<usize>)
    ensures
        match position {
            Some(position) => position_in(media_ids(media_views(items@)), id@) == Some(
                position as int,
            ),
            None => position_in(media_ids(media_views(items@)), id@) is None,
        },
{
    let ghost all = media_ids(media_views(items@));
    let mut index: usize = 0;
    assert(all.take(0) =~= Seq::<MediaIdView>::empty());
    while index < items.len()
        invariant
            all == media_ids(media_views(items@)),
            index <= items.len(),
            position_in(all.take(index as int), id@) is None,
        decreases items.len() - index,
    {
        assert(all.take(index + 1).drop_last() =~= all.take(index as int));
        assert(all.take(index + 1).last() == items@[index as int]@.id);
        if items[index].id.same(id) {
            proof {
                lemma_position_in_prefix(all, index + 1, id@);
            }
            return Some(index);
        }
        index = index + 1;
    }
    assert(all.take(index as int) =~= all);
    None
}

fn identities_of(items: &Vec<MediaItem>) -> (identities: Vec<String>)
    ensures
        texts(identities@) == media_identities(media_views(items@)),
{
    let mut identities: Vec<String> = Vec::new();
    let mut index: usize = 0;
    while index < items.len()
        invariant
            index <= items.len(),
            identities.len() == index,
            forall|i: int|
                0 <= i < index ==> (#[trigger] identities@[i])@ == stable_id(items@[i]@.id),
        decreases items.len() - index,
    {
        identities.push(stable_queue_item_id(&items[index].id).as_str().to_owned());
        index = index + 1;
    }
    assert(texts(identities@) =~= media_identities(media_views(items@)));
    identities
}

/// Draws the lines above the favorites, as many as there is room for.
fn draw_head(
    favorites: &FavoritesState,
    row_limit: usize,
    available_width: usize,
    spinner_index: usize,
) -> (drawn: ListLines)
    ensures
        ({
            let head = favorites_head(*favorites, available_width as nat, spinner_index);
            let count = least(row_limit as int, head.len() as int);
            &&& line_views(drawn.lines@) == head.take(count)
            &&& drawn.lines@.len() == count
        }),
        target_views(drawn.targets@) == Seq::<RowTargetView>::empty(),
{
    let ghost head = favorites_head(*favorites, available_width as nat, spinner_index);
    let mut drawn = blank();
    if row_limit == 0 {
        assert(line_views(drawn.lines@) =~= head.take(0));
        return drawn;
    }
    push_line(&mut drawn, Line::from_text("Favorites".to_owned()));
    if row_limit == 1 {
        assert(line_views(drawn.lines@) =~= head.take(1));
        return drawn;
    }
    if favorites.loading || (!favorites.loaded && favorites.error.is_none()) {
        push_line(
            &mut drawn,
            loading_label(spinner_index, "Loading favorites", available_width),
        );
        if drawn.lines.len() >= row_limit {
            assert(line_views(drawn.lines@) =~= head.take(row_limit as int));
            return drawn;
        }
    }
    if let Some(error) = &favorites.error {
        let mut text = "! ".to_owned();
        text.append(error.as_str());
        push_line(&mut drawn, Line::from_text(truncate_cells(text.as_str(), available_width)));
    }
    assert(line_views(drawn.lines@) =~= head);
    assert(head.take(head.len() as int) =~= head);
    drawn
}

/// The texts of some rows of the favorites.
pub open spec fn favorite_rows(favorites: FavoritesState, start: int, count: nat) -> Seq<
    Seq<char>,
> {
    let entries = media_views(favorites.entries@);
    Seq::new(
        count,
        |offset: int|
            media_row(
                entries[start + offset],
                is_selected(favorites.selected_id, entries[start + offset]),
            ),
    )
}

fn rows_of_favorites(favorites: &FavoritesState, start: usize, end: usize) -> (rows: Vec<String>)
    requires
        start <= end <= favorites.entries@.len(),
    ensures
        texts(rows@) == favorite_rows(*favorites, start as int, (end - start) as nat),
        rows@.len() == end - start,
{
    let ghost entries = media_views(favorites.entries@);
    let mut rows: Vec<String> = Vec::new();
    let mut index: usize = start;
    while index < end
        invariant
            entries == media_views(favorites.entries@),
            start <= index <= end <= favorites.entries@.len(),
            rows.len() == index - start,
            forall|i: int|
                0 <= i < rows.len() ==> (#[trigger] rows@[i])@ == media_row(
                    entries[start + i],
                    is_selected(favorites.selected_id, entries[start + i]),
                ),
        decreases end - index,
    {
        let entry = &favorites.entries[index];
        assert(entries[index as int] == entry@);
        let selected = match &favorites.selected_id {
            Some(id) => id.same(&entry.id),
            None => false,
        };
        rows.push(row_of_media(entry, selected));
        index = index + 1;
    }
    assert(texts(rows@) =~= favorite_rows(*favorites, start as int, (end - start) as nat));
    rows
}

/// The items that were marked as favorites.
pub fn lines_with_viewport_and_targets_with_spinner(
    state: &AppState,
    row_limit: usize,
    available_width: usize,
    viewport_memory: &mut SelectionViewport,
    spinner_index: usize,
) -> (drawn: ListLines)
    ensures
        is_picture(
            drawn,
            final(viewport_memory)@,
            favorites_picture(
                old(viewport_memory)@,
                state.favorites,
                row_limit,
                available_width as nat,
                spinner_index,
            ),
        ),
{
    let favorites = &state.favorites;
    let ghost head = favorites_head(*favorites, available_width as nat, spinner_index);
    let mut drawn = draw_head(favorites, row_limit, available_width, spinner_index);
    if drawn.lines.len() >= row_limit {
        return drawn;
    }
    assert(head.take(head.len() as int) =~= head);
    let ghost entries = media_views(favorites.entries@);
    assert(entries.len() == favorites.entries@.len());
    if favorites.entries.len() == 0 {
        if favorites.loaded && !favorites.loading && favorites.error.is_none() {
            push_line(
                &mut drawn,
                Line::from_text("No favorites yet · press f on any song".to_owned()),
            );
        }
        return drawn;
    }
    let selected_index: Option<usize> = match &favorites.selected_id {
        Some(id) => position_of_media(&favorites.entries, id),
        None => None,
    };
    assert(selected_index == position_of(entries, favorites.selected_id));
    let key = ordered_dataset_key(
        "favorites",
        favorites.generation.0,
        identities_of(&favorites.entries),
        DatasetUpdate::Reconcile,
    );
    let total: usize = favorites.entries.len();
    let available_rows: usize = row_limit - drawn.lines.len();
    proof {
        lemma_shown_rows(viewport_memory@, total, selected_index, available_rows, key@);
    }
    let range = viewport_memory.visible_range(total, selected_index, available_rows, key);
    let rows = rows_of_favorites(favorites, range.start, range.end);
    push_rows(
        &mut drawn,
        viewport_memory,
        &rows,
        ListSurface::Favorites,
        range.start,
        available_width,
    );
    assert(target_views(drawn.targets@) =~= row_targets(
        viewport_memory@,
        (range.end - range.start) as nat,
        head.len() as int,
        ListSurface::Favorites,
        range.start as int,
    ));
    drawn
}

/// The favorites take no more lines than there are rows for.
pub proof fn law_favorites_fit(
    viewport: ViewportView,
    favorites: FavoritesState,
    row_limit: usize,
    width: nat,
    spinner_index: usize,
)
    ensures
        favorites_picture(viewport, favorites, row_limit, width, spinner_index).lines.len()
            <= row_limit,
{
    let head = favorites_head(favorites, width, spinner_index);
    let entries = media_views(favorites.entries@);
    if row_limit > head.len() {
        lemma_shown_rows(
            viewport,
            entries.len() as usize,
            position_of(entries, favorites.selected_id),
            (row_limit - head.len()) as usize,
            favorites_key(favorites),
        );
    }
}

} // verus!
