//! A search and its results.

use vstd::prelude::*;
use vstd::string::*;

use crate::domain::{texts, Generation, SearchFilter};
use crate::queue::{stable_id, stable_queue_item_id};
use crate::text::{append_decimal, decimal_digits, same_text};
use crate::ui::cells::{truncate_cells, truncated};
use crate::ui::interaction::ListSurface;
use crate::ui::line::{line_views, raw_line, Line, LineView};
use crate::ui::rows::{loading_label, loading_line};
use crate::ui::state::{AppState, SearchEntry, SearchEntryKind, SearchMetadataKind, SearchState};
use crate::ui::theme::optional_str;
use crate::ui::viewport::{
    lemma_shown_rows, ordered_dataset_key, ordered_key, position_in, position_of_text, shown,
    target_views, DatasetKey, DatasetKeyView, DatasetUpdate, RowTargetView, SelectionViewport,
    ViewportView,
};
use crate::ui::views::list::{
    blank, is_picture, marker, marker_text, media_row, only_lines, push_line, push_rows,
    row_lines, row_of_media, row_targets, ListLines, ListPicture,
};

verus! {

/// How a filter is called.
pub open spec fn filter_name(filter: SearchFilter) -> Seq<char> {
    match filter {
        SearchFilter::All => "All"@,
        SearchFilter::Songs => "Songs"@,
        SearchFilter::Albums => "Albums"@,
        SearchFilter::Artists => "Artists"@,
        SearchFilter::Playlists => "Playlists"@,
        SearchFilter::Podcasts => "Podcasts"@,
        SearchFilter::Episodes => "Episodes"@,
    }
}

fn name_of_filter(filter: SearchFilter) -> (name: &'static str)
    ensures
        name@ == filter_name(filter),
{
    match filter {
        SearchFilter::All => "All",
        SearchFilter::Songs => "Songs",
        SearchFilter::Albums => "Albums",
        SearchFilter::Artists => "Artists",
        SearchFilter::Playlists => "Playlists",
        SearchFilter::Podcasts => "Podcasts",
        SearchFilter::Episodes => "Episodes",
    }
}

/// How a kind of result is called.
pub open spec fn kind_name(kind: SearchMetadataKind) -> Seq<char> {
    match kind {
        SearchMetadataKind::Album => "album"@,
        SearchMetadataKind::Artist => "artist"@,
        SearchMetadataKind::Playlist => "playlist"@,
        SearchMetadataKind::Podcast => "podcast"@,
    }
}

fn name_of_kind(kind: SearchMetadataKind) -> (name: &'static str)
    ensures
        name@ == kind_name(kind),
{
    match kind {
        SearchMetadataKind::Album => "album",
        SearchMetadataKind::Artist => "artist",
        SearchMetadataKind::Playlist => "playlist",
        SearchMetadataKind::Podcast => "podcast",
    }
}

/// What tells the result at `index` apart: its id, or where it stands. Never its
/// title.
pub open spec fn result_identity(kind: SearchEntryKind, index: int) -> Seq<char> {
    match kind {
        SearchEntryKind::Playable(media) => stable_id(media@.id),
        SearchEntryKind::Metadata { kind, provider_id, title } => match provider_id {
            Some(id) => "named:"@ + kind_name(kind) + ":"@ + id@,
            None => "placed:"@ + kind_name(kind) + ":"@ + decimal_digits(index as nat),
        },
    }
}

/// What tells results apart.
pub open spec fn result_identities(items: Seq<SearchEntry>) -> Seq<Seq<char>> {
    Seq::new(items.len(), |index: int| result_identity(items[index].kind, index))
}

/// The list of results, as the key of a list.
pub open spec fn results_key(
    filter: SearchFilter,
    generation: Generation,
    loading_more: bool,
    items: Seq<SearchEntry>,
) -> DatasetKeyView {
    ordered_key(
        filter_name(filter),
        generation.0,
        result_identities(items),
        if loading_more {
            DatasetUpdate::AppendInProgress
        } else {
            DatasetUpdate::Replace
        },
    )
}

/// The ids of results.
pub open spec fn result_ids(items: Seq<SearchEntry>) -> Seq<Seq<char>> {
    items.map_values(|item: SearchEntry| item.stable_id@)
}

/// The row of the selected result.
pub open spec fn selected_result(search: SearchState) -> Option<usize> {
    match search.selected_id {
        Some(id) => match position_in(result_ids(search.items@), id@) {
            Some(position) => Some(position as usize),
            None => None,
        },
        None => None,
    }
}

/// A row for a result.
pub open spec fn result_row(search: SearchState, index: int) -> Seq<char> {
    let item = search.items@[index];
    let selected = match search.selected_id {
        Some(id) => id@ == item.stable_id@,
        None => false,
    };
    match item.kind {
        SearchEntryKind::Playable(media) => media_row(media@, selected),
        SearchEntryKind::Metadata { kind, provider_id, title } => marker(selected) + " ◇ "@
            + title@,
    }
}

/// The lines above the results.
pub open spec fn search_head(
    search: SearchState,
    draft: Option<Seq<char>>,
    width: nat,
) -> Seq<LineView> {
    let query = match draft {
        Some(draft) => draft,
        None => search.query@,
    };
    seq![
        raw_line(
            truncated("Query: "@ + query + "  ·  Filter: "@ + filter_name(search.filter), width),
        ),
        raw_line(""@),
    ] + if search.stale {
        seq![raw_line("STALE · cached search results"@)]
    } else {
        Seq::empty()
    }
}

/// Whether there is a line below the results: the last of them is in sight, there
/// are more or more are on their way, and there is room.
pub open spec fn has_results_footer(
    viewport: ViewportView,
    search: SearchState,
    available_rows: usize,
) -> bool {
    &&& search.loading_more || search.has_continuation
    &&& available_rows > 1
    &&& shown(
        viewport,
        search.items@.len() as usize,
        selected_result(search),
        available_rows,
        results_key(search.filter, search.generation, search.loading_more, search.items@),
    ).1.end == search.items@.len()
}

/// The line below the results.
pub open spec fn results_footer(search: SearchState, width: nat, spinner_index: usize) -> LineView {
    if search.loading_more {
        loading_line(spinner_index, "Loading more"@, width)
    } else {
        raw_line("[m] Load more"@)
    }
}

/// The results of a search, below `head`.
pub open spec fn results_picture(
    viewport: ViewportView,
    search: SearchState,
    head: Seq<LineView>,
    available_rows: usize,
    width: nat,
    spinner_index: usize,
) -> ListPicture {
    let footer = has_results_footer(viewport, search, available_rows);
    let (after, range) = shown(
        viewport,
        search.items@.len() as usize,
        selected_result(search),
        (available_rows - if footer {
            1int
        } else {
            0int
        }) as usize,
        results_key(search.filter, search.generation, search.loading_more, search.items@),
    );
    let count = (range.end - range.start) as nat;
    ListPicture {
        viewport: after,
        lines: head + row_lines(
            Seq::new(count, |offset: int| result_row(search, range.start + offset)),
            width,
        ) + if footer {
            seq![results_footer(search, width, spinner_index)]
        } else {
            Seq::empty()
        },
        targets: row_targets(
            after,
            count,
            head.len() as int,
            ListSurface::Search,
            range.start as int,
        ),
    }
}

/// A search and its results.
pub open spec fn search_picture(
    viewport: ViewportView,
    search: SearchState,
    row_limit: usize,
    width: nat,
    draft: Option<Seq<char>>,
    spinner_index: usize,
) -> ListPicture {
    let head = search_head(search, draft, width);
    if row_limit <= head.len() {
        only_lines(viewport, head.take(row_limit as int))
    } else if search.loading {
        only_lines(viewport, head.push(loading_line(spinner_index, "Searching"@, width)))
    } else if search.error is Some {
        only_lines(viewport, head.push(raw_line(truncated("! "@ + search.error->0@, width))))
    } else if search.items@.len() == 0 {
        only_lines(viewport, head.push(raw_line("No results"@)))
    } else {
        results_picture(
            viewport,
            search,
            head,
            (row_limit - head.len()) as usize,
            width,
            spinner_index,
        )
    }
}

fn identity_of(item: &SearchEntry, index: usize) -> (identity: String)
    ensures
        identity@ == result_identity(item.kind, index as int),
{
    match &item.kind {
        SearchEntryKind::Playable(media) => stable_queue_item_id(&media.id).as_str().to_owned(),
        SearchEntryKind::Metadata { kind, provider_id, title } => match provider_id {
            Some(id) => {
                let mut text = "named:".to_owned();
                text.append(name_of_kind(*kind));
                text.append(":");
                text.append(id.as_str());
                text
            },
            None => {
                let mut text = "placed:".to_owned();
                text.append(name_of_kind(*kind));
                text.append(":");
                append_decimal(&mut text, index as u64);
                text
            },
        },
    }
}

/// The list of results, as the key of a list.
pub fn search_dataset_key(
    filter: SearchFilter,
    generation: Generation,
    loading_more: bool,
    items: &Vec<SearchEntry>,
) -> (key: DatasetKey)
    ensures
        key@ == results_key(filter, generation, loading_more, items@),
{
    let mut identities: Vec<String> = Vec::new();
    let mut index: usize = 0;
    while index < items.len()
        invariant
            index <= items.len(),
            identities.len() == index,
            forall|i: int|
                0 <= i < index ==> (#[trigger] identities@[i])@ == result_identity(
                    items@[i].kind,
                    i,
                ),
        decreases items.len() - index,
    {
        identities.push(identity_of(&items[index], index));
        index = index + 1;
    }
    assert(texts(identities@) =~= result_identities(items@));
    ordered_dataset_key(
        name_of_filter(filter),
        generation.0,
        identities,
        if loading_more {
            DatasetUpdate::AppendInProgress
        } else {
            DatasetUpdate::Replace
        },
    )
}

fn selected_index_of(search: &SearchState) -> (selected: Option<usize>)
    ensures
        selected == selected_result(*search),
{
    match &search.selected_id {
        Some(id) => {
            let mut ids: Vec<String> = Vec::new();
            let mut index: usize = 0;
            while index < search.items.len()
                invariant
                    index <= search.items.len(),
                    ids.len() == index,
                    forall|i: int|
                        0 <= i < index ==> (#[trigger] ids@[i])@ == search.items@[i].stable_id@,
                decreases search.items.len() - index,
            {
                ids.push(search.items[index].stable_id.clone());
                index = index + 1;
            }
            assert(texts(ids@) =~= result_ids(search.items@));
            position_of_text(&ids, id)
        },
        None => None,
    }
}

fn row_of_result(search: &SearchState, index: usize) -> (row: String)
    requires
        index < search.items@.len(),
    ensures
        row@ == result_row(*search, index as int),
{
    let item = &search.items[index];
    let selected = match &search.selected_id {
        Some(id) => same_text(id.as_str(), item.stable_id.as_str()),
        None => false,
    };
    match &item.kind {
        SearchEntryKind::Playable(media) => row_of_media(media, selected),
        SearchEntryKind::Metadata { kind, provider_id, title } => {
            let mut row = marker_text(selected).to_owned();
            row.append(" ◇ ");
            row.append(title.as_str());
            row
        },
    }
}

fn push_results(
    drawn: ListLines,
    search: &SearchState,
    available_rows: usize,
    available_width: usize,
    viewport_memory: &mut SelectionViewport,
    spinner_index: usize,
) -> (result: ListLines)
    requires
        drawn.lines@.len() + available_rows <= usize::MAX,
        target_views(drawn.targets@) == Seq::<RowTargetView>::empty(),
        search.items@.len() > 0,
    ensures
        is_picture(
            result,
            final(viewport_memory)@,
            results_picture(
                old(viewport_memory)@,
                *search,
                line_views(drawn.lines@),
                available_rows,
                available_width as nat,
                spinner_index,
            ),
        ),
{
    let mut drawn = drawn;
    let ghost head = line_views(drawn.lines@);
    assert(head.len() == drawn.lines@.len());
    let selected_index = selected_index_of(search);
    let total: usize = search.items.len();
    let key = search_dataset_key(
        search.filter,
        search.generation,
        search.loading_more,
        &search.items,
    );
    let mut probe = viewport_memory.clone();
    let probe_range = probe.visible_range(total, selected_index, available_rows, key.clone());
    let has_footer = search.loading_more || search.has_continuation;
    let show_footer = has_footer && available_rows > 1 && probe_range.end == total;
    assert(show_footer == has_results_footer(old(viewport_memory)@, *search, available_rows));
    let list_rows: usize = if show_footer {
        available_rows - 1
    } else {
        available_rows
    };
    proof {
        lemma_shown_rows(viewport_memory@, total, selected_index, list_rows, key@);
    }
    let range = viewport_memory.visible_range(total, selected_index, list_rows, key);
    let mut rows: Vec<String> = Vec::new();
    let mut index: usize = range.start;
    while index < range.end
        invariant
            range.start <= index <= range.end <= search.items.len(),
            rows.len() == index - range.start,
            forall|i: int|
                0 <= i < rows.len() ==> (#[trigger] rows@[i])@ == result_row(
                    *search,
                    range.start + i,
                ),
        decreases range.end - index,
    {
        rows.push(row_of_result(search, index));
        index = index + 1;
    }
    push_rows(
        &mut drawn,
        viewport_memory,
        &rows,
        ListSurface::Search,
        range.start,
        available_width,
    );
    let ghost expected = Seq::new(
        (range.end - range.start) as nat,
        |offset: int| result_row(*search, range.start + offset),
    );
    proof {
        assert(texts(rows@) =~= expected);
        assert(target_views(drawn.targets@) =~= row_targets(
            viewport_memory@,
            (range.end - range.start) as nat,
            head.len() as int,
            ListSurface::Search,
            range.start as int,
        ));
    }
    if show_footer {
        push_line(
            &mut drawn,
            if search.loading_more {
                loading_label(spinner_index, "Loading more", available_width)
            } else {
                Line::from_text("[m] Load more".to_owned())
            },
        );
        assert(line_views(drawn.lines@) =~= head + row_lines(expected, available_width as nat)
            + seq![results_footer(*search, available_width as nat, spinner_index)]);
    } else {
        assert(line_views(drawn.lines@) =~= head + row_lines(expected, available_width as nat)
            + Seq::<LineView>::empty());
    }
    drawn
}

/// A search and its results.
pub fn lines_with_viewport_and_targets_with_spinner(
    state: &AppState,
    row_limit: usize,
    available_width: usize,
    draft: Option<&str>,
    viewport_memory: &mut SelectionViewport,
    spinner_index: usize,
) -> (drawn: ListLines)
    ensures
        is_picture(
            drawn,
            final(viewport_memory)@,
            search_picture(
                old(viewport_memory)@,
                state.search,
                row_limit,
                available_width as nat,
                optional_str(draft),
                spinner_index,
            ),
        ),
{
    let search = &state.search;
    let ghost head = search_head(*search, optional_str(draft), available_width as nat);
    let mut drawn = blank();
    if row_limit == 0 {
        assert(line_views(drawn.lines@) =~= head.take(0));
        return drawn;
    }
    let mut query = "Query: ".to_owned();
    query.append(
        match draft {
            Some(draft) => draft,
            None => search.query.as_str(),
        },
    );
    query.append("  ·  Filter: ");
    query.append(name_of_filter(search.filter));
    push_line(&mut drawn, Line::from_text(truncate_cells(query.as_str(), available_width)));
    if row_limit == 1 {
        assert(line_views(drawn.lines@) =~= head.take(1));
        return drawn;
    }
    push_line(&mut drawn, Line::from_text("".to_owned()));
    if row_limit == 2 {
        assert(line_views(drawn.lines@) =~= head.take(2));
        return drawn;
    }
    if search.stale {
        push_line(&mut drawn, Line::from_text("STALE · cached search results".to_owned()));
        if row_limit == 3 {
            assert(line_views(drawn.lines@) =~= head.take(3));
            return drawn;
        }
    }
    assert(line_views(drawn.lines@) =~= head);
    assert(drawn.lines@.len() == head.len()) by {
        assert(line_views(drawn.lines@).len() == drawn.lines@.len());
    }
    if search.loading {
        push_line(&mut drawn, loading_label(spinner_index, "Searching", available_width));
        return drawn;
    }
    match &search.error {
        Some(error) => {
            let mut text = "! ".to_owned();
            text.append(error.as_str());
            push_line(
                &mut drawn,
                Line::from_text(truncate_cells(text.as_str(), available_width)),
            );
            return drawn;
        },
        None => {},
    }
    if search.items.len() == 0 {
        push_line(&mut drawn, Line::from_text("No results".to_owned()));
        return drawn;
    }
    let available_rows: usize = row_limit - drawn.lines.len();
    push_results(
        drawn,
        search,
        available_rows,
        available_width,
        viewport_memory,
        spinner_index,
    )
}

/// What tells a result apart does not depend on its title.
pub proof fn law_titles_tell_nothing_apart(
    kind: SearchMetadataKind,
    provider_id: Option<String>,
    title: String,
    other_title: String,
    index: int,
)
    ensures
        result_identity(SearchEntryKind::Metadata { kind, provider_id, title }, index)
            == result_identity(
            SearchEntryKind::Metadata { kind, provider_id, title: other_title },
            index,
        ),
{
}

/// A search fills at most the rows that there are.
pub proof fn law_search_fits(
    viewport: ViewportView,
    search: SearchState,
    row_limit: usize,
    width: nat,
    draft: Option<Seq<char>>,
    spinner_index: usize,
)
    ensures
        search_picture(viewport, search, row_limit, width, draft, spinner_index).lines.len()
            <= row_limit,
{
    let head = search_head(search, draft, width);
    if row_limit > head.len() {
        let available_rows = (row_limit - head.len()) as usize;
        let key = results_key(
            search.filter,
            search.generation,
            search.loading_more,
            search.items@,
        );
        lemma_shown_rows(
            viewport,
            search.items@.len() as usize,
            selected_result(search),
            available_rows,
            key,
        );
        lemma_shown_rows(
            viewport,
            search.items@.len() as usize,
            selected_result(search),
            (available_rows - 1) as usize,
            key,
        );
    }
}

} // verus!
