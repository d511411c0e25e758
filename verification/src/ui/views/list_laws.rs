//! What lists show.

use vstd::prelude::*;
use vstd::string::*;

use crate::domain::{media_views, MediaItemView, SearchFilter};
use crate::queue::QueueView;
use crate::text::decimal_digits;
use crate::ui::cells::truncated;
use crate::ui::interaction::ListSurface;
use crate::ui::line::{raw_line, LineView};
use crate::ui::model::{BrowserPickerView, CountryPickerView};
use crate::ui::rows::loading_line;
use crate::ui::state::{AppState, FavoritesState, SearchEntryKind, SearchState};
use crate::ui::viewport::{
    law_selection_stays_in_sight, lemma_position_in, lemma_shown_rows, position_in, shown,
    DatasetKeyView, ViewportView,
};
use crate::ui::views::favorites::{
    favorite_rows, favorites_head, favorites_key, favorites_picture, media_ids, position_of,
};
use crate::ui::views::list::{media_row, row_lines, row_targets, ListPicture};
use crate::ui::views::pickers::{
    browser_picture, country_picture, country_row, help_page, help_text, regions_of, selected_browser,
};
use crate::ui::views::queue::{marked_position, queue_picture, queue_row};
use crate::ui::views::search::{
    filter_name, has_results_footer, result_ids, result_row, results_key, search_head,
    search_picture, selected_result,
};
use crate::ui::views::settings::{all_settings, settings_lines};

verus! {

/// Whether a picture shows `count` rows of a list, from the row `first` on and one a line,
/// below `above` lines: each with its text, and each to be clicked as the row it is.
pub open spec fn shows_rows(
    picture: ListPicture,
    above: int,
    first: int,
    count: int,
    surface: ListSurface,
    texts: Seq<Seq<char>>,
    width: nat,
) -> bool {
    &&& 0 <= first
    &&& first + count <= texts.len()
    &&& picture.lines.len() >= above + count
    &&& picture.targets.len() == count
    &&& forall|i: int|
        0 <= i < count ==> {
            &&& (#[trigger] picture.targets[i]).line_index == above + i
            &&& picture.targets[i].stable_index == first + i
            &&& picture.targets[i].surface == surface
            &&& picture.lines[above + i] == raw_line(truncated(texts[first + i], width))
        }
}

/// Whether a picture shows `count` rows of a list, all of them in a row, below `above` lines.
pub open spec fn shows_list(
    picture: ListPicture,
    above: int,
    count: int,
    surface: ListSurface,
    texts: Seq<Seq<char>>,
    width: nat,
) -> bool {
    exists|first: int| #[trigger]
        shows_rows(picture, above, first, count, surface, texts, width)
}

/// Whether a row of a list is among those that a picture shows.
pub open spec fn is_in_sight(picture: ListPicture, index: int) -> bool {
    exists|i: int|
        0 <= i < picture.targets.len() && (#[trigger] picture.targets[i]).stable_index == index
}

/// What stands in front of a row.
pub open spec fn sign(selected: bool) -> Seq<char> {
    if selected {
        "▶ "@
    } else {
        "  "@
    }
}

proof fn lemma_sign(selected: bool, rest: Seq<char>)
    ensures
        crate::ui::views::list::marker(selected) + " "@ + rest == sign(selected) + rest,
{
    reveal_strlit("▶");
    reveal_strlit(" ");
    reveal_strlit("▶ ");
    reveal_strlit("  ");
    assert(crate::ui::views::list::marker(selected) + " "@ =~= sign(selected));
}

/// What a list holds is found, at its first place or before.
pub proof fn lemma_found<T>(list: Seq<T>, entry: T, index: int)
    requires
        0 <= index < list.len(),
        list[index] == entry,
    ensures
        position_in(list, entry) matches Some(position) && 0 <= position <= index && list[position]
            == entry,
    decreases list.len(),
{
    lemma_position_in(list, entry);
    if index < list.len() - 1 {
        lemma_found(list.drop_last(), entry, index);
    } else if position_in(list.drop_last(), entry) is Some {
        lemma_position_in(list.drop_last(), entry);
    }
}

/// The rows that are shown of a list show it, and the row that is wanted is in sight.
proof fn lemma_shows(
    picture: ListPicture,
    above: int,
    surface: ListSurface,
    texts: Seq<Seq<char>>,
    width: nat,
    rows: Seq<Seq<char>>,
    first: int,
)
    requires
        0 <= above,
        0 <= first,
        first + rows.len() <= texts.len() <= usize::MAX,
        above + rows.len() <= usize::MAX,
        picture.lines.len() >= above + rows.len(),
        picture.targets == row_targets(
            picture.viewport,
            rows.len(),
            above,
            surface,
            first,
        ),
        picture.lines.subrange(above, above + rows.len()) == row_lines(rows, width),
        forall|i: int| 0 <= i < rows.len() ==> #[trigger] rows[i] == texts[first + i],
    ensures
        shows_list(picture, above, rows.len() as int, surface, texts, width),
        forall|index: int|
            first <= index < first + rows.len() ==> #[trigger] is_in_sight(picture, index),
{
    assert forall|i: int| 0 <= i < rows.len() implies {
        &&& (#[trigger] picture.targets[i]).line_index == above + i
        &&& picture.targets[i].stable_index == first + i
        &&& picture.targets[i].surface == surface
        &&& picture.lines[above + i] == raw_line(truncated(texts[first + i], width))
    } by {
        assert(picture.lines[above + i] == picture.lines.subrange(
            above,
            above + rows.len(),
        )[i]);
        assert(rows[i] == texts[first + i]);
    }
    assert(shows_rows(picture, above, first, rows.len() as int, surface, texts, width));
    assert forall|index: int| first <= index < first + rows.len() implies #[trigger] is_in_sight(
        picture,
        index,
    ) by {
        assert(picture.targets[index - first].stable_index == index);
    }
}

/// The text of a row of the queue: its title behind the sign of the entry that is selected,
/// or else of the one that is played.
pub open spec fn queue_texts(queue: QueueView, selected: Option<Seq<char>>) -> Seq<Seq<char>> {
    queue.active.map_values(
        |id: Seq<char>|
            sign(
                if selected is Some {
                    selected == Some(id)
                } else {
                    queue.current == Some(id)
                },
            ) + queue.item(id).media.title,
    )
}

/// The queue is shown in the order in which it is played, as many rows as fit, with the
/// selected entry, or else the one that is played, among them and marked.
pub proof fn law_the_queue_is_shown_as_it_is_played(
    viewport: ViewportView,
    queue: QueueView,
    selected: Option<Seq<char>>,
    rows: usize,
    width: nat,
)
    requires
        queue.wf(),
        rows > 0,
        0 < queue.active.len() <= usize::MAX,
    ensures
        ({
            let picture = queue_picture(viewport, queue, selected, rows, width);
            &&& picture.lines.len() == if queue.active.len() < rows {
                queue.active.len() as int
            } else {
                rows as int
            }
            &&& shows_list(
                picture,
                0,
                picture.lines.len() as int,
                ListSurface::Queue,
                queue_texts(queue, selected),
                width,
            )
            &&& forall|i: int|
                0 <= i < queue.active.len() && (selected == Some(queue.active[i]) || (
                selected is None && queue.current == Some(queue.active[i])))
                    ==> #[trigger] is_in_sight(picture, i)
        }),
{
    let picture = queue_picture(viewport, queue, selected, rows, width);
    let key = DatasetKeyView::Listed(queue.active);
    let total = queue.active.len() as usize;
    let marked = marked_position(queue, selected);
    law_selection_stays_in_sight(viewport, total, marked, rows, key);
    let range = shown(viewport, total, marked, rows, key).1;
    let first = range.start as int;
    let list = Seq::new(
        (range.end - range.start) as nat,
        |offset: int| queue_row(queue, selected, range.start + offset),
    );
    let texts = queue_texts(queue, selected);
    assert forall|i: int| 0 <= i < list.len() implies #[trigger] list[i] == texts[first + i] by {
        let id = queue.active[first + i];
        lemma_sign(
            if selected is Some {
                selected == Some(id)
            } else {
                queue.current == Some(id)
            },
            queue.item(id).media.title,
        );
    }
    assert(picture.lines.subrange(0, list.len() as int) =~= row_lines(list, width));
    lemma_shows(picture, 0, ListSurface::Queue, texts, width, list, first);
    assert forall|i: int|
        0 <= i < queue.active.len() && (selected == Some(queue.active[i]) || (selected is None
            && queue.current == Some(queue.active[i]))) implies #[trigger] is_in_sight(
        picture,
        i,
    ) by {
        lemma_found(queue.active, queue.active[i], i);
    }
}

/// The text of a row of an item: its title and its first creator behind its sign.
pub open spec fn item_text(media: MediaItemView, selected: bool) -> Seq<char> {
    sign(selected) + media.title + " — "@ + if media.creators.len() > 0 {
        media.creators[0]
    } else {
        "Unknown artist"@
    }
}

proof fn lemma_media_row(media: MediaItemView, selected: bool)
    ensures
        media_row(media, selected) == item_text(media, selected),
{
    lemma_sign(selected, media.title);
}

/// The texts of the rows of the favorites.
pub open spec fn favorite_texts(favorites: FavoritesState) -> Seq<Seq<char>> {
    media_views(favorites.entries@).map_values(
        |media: MediaItemView|
            item_text(media, favorites.selected_id matches Some(id) && id@ == media.id),
    )
}

/// Favorites are shown in their order below their head, as many as fit, the selected one
/// among them and marked.
pub proof fn law_favorites_are_shown_in_order(
    viewport: ViewportView,
    favorites: FavoritesState,
    rows: usize,
    width: nat,
    spinner_index: usize,
)
    requires
        0 < favorites.entries@.len(),
        rows > favorites_head(favorites, width, spinner_index).len(),
    ensures
        ({
            let picture = favorites_picture(viewport, favorites, rows, width, spinner_index);
            let head = favorites_head(favorites, width, spinner_index);
            &&& picture.lines.len() == if head.len() + favorites.entries@.len() < rows {
                head.len() + favorites.entries@.len()
            } else {
                rows as nat
            }
            &&& head.is_prefix_of(picture.lines)
            &&& head[0] == raw_line("Favorites"@)
            &&& shows_list(
                picture,
                head.len() as int,
                picture.lines.len() - head.len(),
                ListSurface::Favorites,
                favorite_texts(favorites),
                width,
            )
            &&& favorites.selected_id matches Some(id) ==> forall|i: int|
                0 <= i < favorites.entries@.len() && favorites.entries@[i].id@ == id@ && (forall|
                    j: int,
                |
                    0 <= j < i ==> (#[trigger] favorites.entries@[j]).id@ != id@)
                    ==> #[trigger] is_in_sight(picture, i)
        }),
{
    let picture = favorites_picture(viewport, favorites, rows, width, spinner_index);
    let entries = media_views(favorites.entries@);
    let head = favorites_head(favorites, width, spinner_index);
    let room = (rows - head.len()) as usize;
    let selected = position_of(entries, favorites.selected_id);
    let key = favorites_key(favorites);
    let total = entries.len() as usize;
    assert(entries.len() == favorites.entries@.len());
    assert(favorites.entries@.len() == favorites.entries.len());
    law_selection_stays_in_sight(viewport, total, selected, room, key);
    let range = shown(viewport, total, selected, room, key).1;
    let first = range.start as int;
    let list = favorite_rows(favorites, first, (range.end - range.start) as nat);
    let texts = favorite_texts(favorites);
    assert forall|i: int| 0 <= i < list.len() implies #[trigger] list[i] == texts[first + i] by {
        lemma_media_row(
            entries[first + i],
            favorites.selected_id matches Some(id) && id@ == entries[first + i].id,
        );
    }
    assert(picture.lines.subrange(head.len() as int, (head.len() + list.len()) as int)
        =~= row_lines(list, width));
    lemma_shows(
        picture,
        head.len() as int,
        ListSurface::Favorites,
        texts,
        width,
        list,
        first,
    );
    if let Some(id) = favorites.selected_id {
        let ids = media_ids(entries);
        assert forall|i: int|
            0 <= i < favorites.entries@.len() && favorites.entries@[i].id@ == id@ && (forall|
                j: int,
            |
                0 <= j < i ==> (#[trigger] favorites.entries@[j]).id@ != id@) implies #[trigger]
        is_in_sight(picture, i) by {
            assert(ids[i] == favorites.entries@[i].id@);
            lemma_found(ids, id@, i);
            let position = position_in(ids, id@)->0;
            assert(ids[position] == favorites.entries@[position].id@);
        }
    }
}

/// The text of a row of a search: that of an item that can be played, or the title of what
/// can be opened behind another sign.
pub open spec fn result_text(search: SearchState, index: int) -> Seq<char> {
    let entry = search.items@[index];
    let selected = search.selected_id matches Some(id) && id@ == entry.stable_id@;
    match entry.kind {
        SearchEntryKind::Playable(media) => item_text(media@, selected),
        SearchEntryKind::Metadata { kind, provider_id, title } => sign(selected) + "◇ "@ + title@,
    }
}

/// The texts of the rows of a search.
pub open spec fn result_texts(search: SearchState) -> Seq<Seq<char>> {
    Seq::new(search.items@.len(), |i: int| result_text(search, i))
}

proof fn lemma_result_row(search: SearchState, index: int)
    ensures
        result_row(search, index) == result_text(search, index),
{
    let entry = search.items@[index];
    let selected = search.selected_id matches Some(id) && id@ == entry.stable_id@;
    match entry.kind {
        SearchEntryKind::Playable(media) => {
            lemma_media_row(media@, selected);
        },
        SearchEntryKind::Metadata { kind, provider_id, title } => {
            reveal_strlit(" ◇ ");
            reveal_strlit("◇ ");
            reveal_strlit(" ");
            lemma_sign(selected, "◇ "@ + title@);
            assert(result_row(search, index) =~= crate::ui::views::list::marker(selected) + " "@ + (
            "◇ "@ + title@));
            assert(sign(selected) + ("◇ "@ + title@) =~= sign(selected) + "◇ "@ + title@);
        },
    }
}

/// What a search found is shown in order below its head, as many results as fit, the
/// selected one among them and marked; below the last of them it says that there are more.
pub proof fn law_results_are_shown_in_order(
    viewport: ViewportView,
    search: SearchState,
    rows: usize,
    width: nat,
    draft: Option<Seq<char>>,
    spinner_index: usize,
)
    requires
        0 < search.items@.len(),
        !search.loading,
        search.error is None,
        rows > search_head(search, draft, width).len(),
    ensures
        ({
            let picture = search_picture(viewport, search, rows, width, draft, spinner_index);
            let head = search_head(search, draft, width);
            let count = picture.targets.len();
            &&& head.is_prefix_of(picture.lines)
            &&& picture.lines.len() <= rows
            &&& head.len() + count == picture.lines.len() || head.len() + count + 1
                == picture.lines.len()
            &&& picture.lines.len() == rows || count == search.items@.len()
            &&& head.len() + count + 1 == picture.lines.len() ==> {
                &&& search.loading_more || search.has_continuation
                &&& picture.lines.last() == if search.loading_more {
                    loading_line(spinner_index, "Loading more"@, width)
                } else {
                    raw_line("[m] Load more"@)
                }
            }
            &&& shows_list(
                picture,
                head.len() as int,
                count as int,
                ListSurface::Search,
                result_texts(search),
                width,
            )
            &&& search.selected_id matches Some(id) ==> forall|i: int|
                0 <= i < search.items@.len() && search.items@[i].stable_id@ == id@ && (forall|
                    j: int,
                |
                    0 <= j < i ==> (#[trigger] search.items@[j]).stable_id@ != id@)
                    ==> #[trigger] is_in_sight(picture, i)
        }),
{
    let picture = search_picture(viewport, search, rows, width, draft, spinner_index);
    let head = search_head(search, draft, width);
    let all_room = (rows - head.len()) as usize;
    let footer = has_results_footer(viewport, search, all_room);
    let room = (all_room - if footer {
        1int
    } else {
        0int
    }) as usize;
    let selected = selected_result(search);
    let key = results_key(search.filter, search.generation, search.loading_more, search.items@);
    let total = search.items@.len() as usize;
    assert(search.items@.len() == search.items.len());
    law_selection_stays_in_sight(viewport, total, selected, room, key);
    let range = shown(viewport, total, selected, room, key).1;
    let first = range.start as int;
    let list = Seq::new(
        (range.end - range.start) as nat,
        |offset: int| result_row(search, range.start + offset),
    );
    let texts = result_texts(search);
    assert forall|i: int| 0 <= i < list.len() implies #[trigger] list[i] == texts[first + i] by {
        lemma_result_row(search, first + i);
    }
    assert(picture.lines.subrange(head.len() as int, (head.len() + list.len()) as int)
        =~= row_lines(list, width));
    lemma_shows(picture, head.len() as int, ListSurface::Search, texts, width, list, first);
    if let Some(id) = search.selected_id {
        let ids = result_ids(search.items@);
        assert forall|i: int|
            0 <= i < search.items@.len() && search.items@[i].stable_id@ == id@ && (forall|j: int|
                0 <= j < i ==> (#[trigger] search.items@[j]).stable_id@ != id@) implies #[trigger]
        is_in_sight(picture, i) by {
            assert(ids[i] == search.items@[i].stable_id@);
            lemma_found(ids, id@, i);
            let position = position_in(ids, id@)->0;
            assert(ids[position] == search.items@[position].stable_id@);
        }
    }
}

/// The head of a search tells what is searched for, as it is typed while it is typed, with
/// which filter, and whether the results are old.
pub proof fn law_a_search_tells_what_it_is_for(
    search: SearchState,
    draft: Option<Seq<char>>,
    width: nat,
)
    ensures
        ({
            let head = search_head(search, draft, width);
            let query = if draft is Some {
                draft->0
            } else {
                search.query@
            };
            &&& head[0] == raw_line(
                truncated("Query: "@ + query + "  ·  Filter: "@ + filter_name(search.filter), width),
            )
            &&& head[1] == raw_line(""@)
            &&& search.stale ==> head.len() == 3 && head[2] == raw_line(
                "STALE · cached search results"@,
            )
            &&& !search.stale ==> head.len() == 2
        }),
{
}

/// A search that has no results to show tells why: it is on its way, it failed, or it found
/// nothing.
pub proof fn law_a_search_tells_why_it_is_empty(
    viewport: ViewportView,
    search: SearchState,
    rows: usize,
    width: nat,
    draft: Option<Seq<char>>,
    spinner_index: usize,
)
    requires
        rows > search_head(search, draft, width).len(),
    ensures
        ({
            let picture = search_picture(viewport, search, rows, width, draft, spinner_index);
            &&& search.loading ==> picture.targets.len() == 0 && picture.lines.last()
                == loading_line(spinner_index, "Searching"@, width)
            &&& !search.loading ==> (search.error matches Some(error) ==> picture.targets.len()
                == 0 && picture.lines.last() == raw_line(truncated("! "@ + error@, width)))
            &&& !search.loading && search.error is None && search.items@.len() == 0
                ==> picture.targets.len() == 0 && picture.lines.last() == raw_line("No results"@)
        }),
{
}

/// A filter has its name.
pub proof fn law_a_filter_has_its_name(filter: SearchFilter)
    ensures
        filter_name(filter) == "All"@ <==> filter == SearchFilter::All,
        filter_name(filter) == "Songs"@ <==> filter == SearchFilter::Songs,
        filter_name(filter) == "Albums"@ <==> filter == SearchFilter::Albums,
        filter_name(filter) == "Artists"@ <==> filter == SearchFilter::Artists,
        filter_name(filter) == "Playlists"@ <==> filter == SearchFilter::Playlists,
        filter_name(filter) == "Podcasts"@ <==> filter == SearchFilter::Podcasts,
        filter_name(filter) == "Episodes"@ <==> filter == SearchFilter::Episodes,
{
    reveal_strlit("All");
    reveal_strlit("Songs");
    reveal_strlit("Albums");
    reveal_strlit("Artists");
    reveal_strlit("Playlists");
    reveal_strlit("Podcasts");
    reveal_strlit("Episodes");
    assert("All"@.len() == 3 && "Songs"@.len() == 5 && "Albums"@.len() == 6);
    assert("Artists"@.len() == 7 && "Playlists"@.len() == 9);
    assert("Podcasts"@.len() == 8 && "Podcasts"@[0] == 'P');
    assert("Episodes"@.len() == 8 && "Episodes"@[0] == 'E');
}

/// The texts of the rows of countries: the name and the region, behind the sign of the
/// selected one.
pub open spec fn country_texts(picker: CountryPickerView) -> Seq<Seq<char>> {
    Seq::new(
        picker.choices.len(),
        |i: int|
            sign(i == picker.selected_index) + picker.choices[i].label + " · "@
                + picker.choices[i].region,
    )
}

/// The countries are shown in order with their regions, the selected one among them and
/// marked.
pub proof fn law_countries_are_shown_in_order(
    viewport: ViewportView,
    picker: CountryPickerView,
    rows: usize,
    width: nat,
)
    requires
        0 < rows <= 128,
        picker.choices.len() <= usize::MAX,
        picker.selected_index < picker.choices.len(),
    ensures
        ({
            let picture = country_picture(viewport, picker, rows, width);
            &&& picture.lines.len() == if picker.choices.len() < rows {
                picker.choices.len() as int
            } else {
                rows as int
            }
            &&& shows_list(
                picture,
                0,
                picture.lines.len() as int,
                ListSurface::CountryPicker,
                country_texts(picker),
                width,
            )
            &&& is_in_sight(picture, picker.selected_index as int)
        }),
{
    let picture = country_picture(viewport, picker, rows, width);
    let key = DatasetKeyView::Listed(regions_of(picker.choices));
    let total = picker.choices.len() as usize;
    law_selection_stays_in_sight(viewport, total, Some(picker.selected_index), rows, key);
    let range = shown(viewport, total, Some(picker.selected_index), rows, key).1;
    let first = range.start as int;
    let list = Seq::new(
        (range.end - range.start) as nat,
        |offset: int| country_row(picker, range.start + offset),
    );
    let texts = country_texts(picker);
    assert forall|i: int| 0 <= i < list.len() implies #[trigger] list[i] == texts[first + i] by {
        lemma_sign(first + i == picker.selected_index, picker.choices[first + i].label);
    }
    assert(picture.lines.subrange(0, list.len() as int) =~= row_lines(list, width));
    lemma_shows(picture, 0, ListSurface::CountryPicker, texts, width, list, first);
}

/// The texts of the rows of browsers: the name behind the sign of the selected one.
pub open spec fn browser_texts(choices: Seq<Seq<char>>, selected: int) -> Seq<Seq<char>> {
    Seq::new(choices.len(), |i: int| sign(i == selected) + choices[i])
}

/// The browsers are shown in order, the selected one among them and marked.
pub proof fn law_browsers_are_shown_in_order(
    viewport: ViewportView,
    picker: BrowserPickerView,
    rows: usize,
    width: nat,
    selected: int,
)
    requires
        0 < rows <= 128,
        picker.choices.len() <= usize::MAX,
        0 <= selected < picker.choices.len(),
        picker.choices[selected] == picker.selected_browser,
        forall|i: int| 0 <= i < selected ==> #[trigger] picker.choices[i] != picker.selected_browser,
    ensures
        ({
            let picture = browser_picture(viewport, picker, rows, width);
            &&& picture.lines.len() == if picker.choices.len() < rows {
                picker.choices.len() as int
            } else {
                rows as int
            }
            &&& shows_list(
                picture,
                0,
                picture.lines.len() as int,
                ListSurface::BrowserPicker,
                browser_texts(picker.choices, selected),
                width,
            )
            &&& is_in_sight(picture, selected)
        }),
{
    let picture = browser_picture(viewport, picker, rows, width);
    let key = DatasetKeyView::Listed(picker.choices);
    let total = picker.choices.len() as usize;
    lemma_found(picker.choices, picker.selected_browser, selected);
    assert(selected_browser(picker) == selected);
    law_selection_stays_in_sight(viewport, total, Some(selected as usize), rows, key);
    let range = shown(viewport, total, Some(selected as usize), rows, key).1;
    let first = range.start as int;
    let list = Seq::new(
        (range.end - range.start) as nat,
        |offset: int|
            crate::ui::views::list::marker(range.start + offset == selected) + " "@
                + picker.choices[range.start + offset],
    );
    let texts = browser_texts(picker.choices, selected);
    assert forall|i: int| 0 <= i < list.len() implies #[trigger] list[i] == texts[first + i] by {
        lemma_sign(first + i == selected, picker.choices[first + i]);
    }
    assert(picture.lines.subrange(0, list.len() as int) =~= row_lines(list, width));
    lemma_shows(picture, 0, ListSurface::BrowserPicker, texts, width, list, first);
}

/// Whether a line says that something is on or off.
pub open spec fn says(line: LineView, label: Seq<char>, value: bool) -> bool {
    line == raw_line(
        label + if value {
            "on"@
        } else {
            "off"@
        },
    )
}

/// The settings tell of each switch whether it is on, and whether browsing and playback are
/// available; then what is needed for them, and last how to check it again.
pub proof fn law_settings_tell_what_is_on(state: AppState, width: nat, max_fps: u8)
    ensures
        ({
            let lines = all_settings(state, width, max_fps);
            let rows = state.dependencies.rows@;
            &&& lines.len() == 12 + rows.len()
            &&& says(lines[2], "Lyrics: "@, state.switches.lyrics)
            &&& says(lines[3], "External sync: "@, state.switches.lyrics_external_sync)
            &&& says(lines[4], "Animated artwork: "@, state.switches.animated_artwork)
            &&& says(lines[5], "Spectrum visualizer: "@, state.switches.visualizer)
            &&& lines[1] == raw_line(
                truncated(
                    "Target volume: "@ + decimal_digits(state.playback.target_volume as nat) + "%"@,
                    width,
                ),
            )
            &&& lines[6] == raw_line(
                truncated(
                    "Spectrum frame-rate cap: "@ + decimal_digits(max_fps as nat) + " FPS"@,
                    width,
                ),
            )
            &&& lines[8] == raw_line(
                truncated(
                    "Fade in/out: "@ + decimal_digits(state.presentation.fade_in_ms as nat)
                        + " ms / "@ + decimal_digits(state.presentation.fade_out_ms as nat)
                        + " ms"@,
                    width,
                ),
            )
            &&& lines[9] == raw_line("Browsing available"@) || !state.dependencies.browsing_available
            &&& lines[9] == raw_line("Browsing unavailable"@)
                || state.dependencies.browsing_available
            &&& lines[10] == raw_line("Playback available"@)
                || !state.dependencies.playback_available
            &&& lines[10] == raw_line("Playback unavailable"@)
                || state.dependencies.playback_available
            &&& forall|i: int|
                0 <= i < rows.len() ==> lines[11 + i] == raw_line(
                    truncated(
                        (#[trigger] rows[i]).component@ + " · "@ + rows[i].status@ + " · "@
                            + rows[i].detail@,
                        width,
                    ),
                )
            &&& lines.last() == raw_line("[d] Recheck dependencies"@)
                || state.dependencies.checking
            &&& lines.last() == raw_line("… Rechecking dependencies"@)
                || !state.dependencies.checking
        }),
{
}

/// Of the settings as many lines are shown as there is room for, from the first on.
pub proof fn law_settings_are_shown_from_the_top(
    state: AppState,
    rows: nat,
    width: nat,
    max_fps: u8,
)
    ensures
        settings_lines(state, rows, width, max_fps).is_prefix_of(
            all_settings(state, width, max_fps),
        ),
        rows >= all_settings(state, width, max_fps).len() ==> settings_lines(
            state,
            rows,
            width,
            max_fps,
        ) == all_settings(state, width, max_fps),
        rows < all_settings(state, width, max_fps).len() ==> settings_lines(
            state,
            rows,
            width,
            max_fps,
        ).len() == rows,
{
    let all = all_settings(state, width, max_fps);
    assert(all.take(all.len() as int) =~= all);
}

/// The help is shown from the line it was scrolled to, as long as that leaves no room behind
/// its end.
pub proof fn law_help_is_shown_in_order(scroll: nat, rows: nat, row: int)
    requires
        scroll + rows <= 13,
        0 <= row < rows,
    ensures
        help_page(scroll, rows).len() == rows,
        help_page(scroll, rows)[row] == raw_line(help_text(scroll + row)),
{
}

/// What each line of the help tells.
pub proof fn law_help_tells_the_keys()
    ensures
        help_text(0) == "Navigation     ↑ ↓ ← → or h j k l"@,
        help_text(1) == "Search         /"@,
        help_text(2) == "Commands       :"@,
        help_text(3) == "Play / pause   Space · F8 · Media Play/Pause"@,
        help_text(4) == "Track          n/F9/Media Next · p/F7/Media Previous"@,
        help_text(5) == "Seek           Shift+Left back · Shift+Right forward"@,
        help_text(6) == "Volume         + / -"@,
        help_text(7) == "Queue modes    s shuffle · r repeat · e radio"@,
        help_text(8) == "Queue order    [ up · ] down"@,
        help_text(9) == "Data           a connect · m more · d recheck"@,
        help_text(10) == "Region         c country"@,
        help_text(11) == "Close          Esc"@,
        help_text(12) == "Quit           q or Ctrl-c"@,
{
}

} // verus!
