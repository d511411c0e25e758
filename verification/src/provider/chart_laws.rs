//! What the rows of charts and search results are read as.

use vstd::prelude::*;
use vstd::string::*;

use crate::domain::{ChartSectionView, MediaItemView, MediaKind};
use crate::json::{elements_of, member, number_of, step, text_of, JsonView};
use crate::provider::charts::{
    all_items, all_runs, album_name, best_thumbnail, chart_report, creator_names, duration_value,
    entry_item, entry_warnings, first_browse_id, is_explicit_badge, fixed_column_text, formatted, item_artwork,
    item_duration, item_is_explicit, item_kind, item_runs, item_video_id, normalized, parsed_item,
    playable, playlist_reference, response_shelves, run_browse_id, run_page_type, run_text,
    search_report, sections_of, shelf_contents, shelf_items, shelf_references, shelf_title,
    shelf_warnings, shelves, shows_duration, thumbnail_url, warnings_about, ParseError,
    ParseWarning, ParseWarningKind, ReferenceView,
};
use crate::provider::model::ItemView;
use crate::text::{collapsed, parsed_u64, split_on};

verus! {

/// Where the play button of a row leads.
pub open spec fn play_target(row: JsonView) -> Option<JsonView> {
    let overlay = step(member(row, "overlay"@), "musicItemThumbnailOverlayRenderer"@);
    let button = step(step(overlay, "content"@), "musicPlayButtonRenderer"@);
    step(step(button, "playNavigationEndpoint"@), "watchEndpoint"@)
}

/// The type of video that the play button of a row names.
pub open spec fn video_type(row: JsonView) -> Option<Seq<char>> {
    let configs = step(play_target(row), "watchEndpointMusicSupportedConfigs"@);
    text_of(step(step(configs, "watchEndpointMusicConfig"@), "musicVideoType"@))
}

/// The columns of a row.
pub open spec fn columns_of(row: JsonView) -> Seq<JsonView> {
    match elements_of(member(row, "flexColumns"@)) {
        Some(columns) => columns,
        None => Seq::empty(),
    }
}

/// The text of a column.
pub open spec fn column_text_of(column: JsonView) -> Option<JsonView> {
    step(member(column, "musicResponsiveListItemFlexColumnRenderer"@), "text"@)
}

/// The runs of text in a column.
pub open spec fn runs_in(column: JsonView) -> Seq<JsonView> {
    match elements_of(step(column_text_of(column), "runs"@)) {
        Some(runs) => runs,
        None => Seq::empty(),
    }
}

/// The page that a run of text leads to.
pub open spec fn page_of_run(run: JsonView) -> Option<Seq<char>> {
    let endpoint = step(member(run, "navigationEndpoint"@), "browseEndpoint"@);
    let configs = step(endpoint, "browseEndpointContextSupportedConfigs"@);
    text_of(step(step(configs, "browseEndpointContextMusicConfig"@), "pageType"@))
}

/// Whether a run of text leads to the page of an artist or of a podcast.
pub open spec fn leads_to_creator(run: JsonView) -> bool {
    page_of_run(run) == Some("MUSIC_PAGE_TYPE_ARTIST"@) || page_of_run(run) == Some(
        "MUSIC_PAGE_TYPE_PODCAST_SHOW_DETAIL_PAGE"@,
    )
}

/// Whether a run of text stands in one of the columns behind the first.
pub open spec fn describes(row: JsonView, run: JsonView) -> bool {
    exists|column: int, place: int|
        {
            &&& 1 <= column < columns_of(row).len()
            &&& 0 <= place < runs_in(columns_of(row)[column]).len()
            &&& #[trigger] runs_in(columns_of(row)[column])[place] == run
        }
}

/// Whether these are the creators that a row leads to, all of them and no others.
pub open spec fn are_its_creators(creators: Seq<Seq<char>>, row: JsonView) -> bool {
    &&& forall|i: int|
        0 <= i < creators.len() ==> names_a_creator(row, #[trigger] creators[i])
    &&& forall|run: JsonView|
        #[trigger] describes(row, run) && leads_to_creator(run) ==> (run_text(run) matches Some(
            name,
        ) ==> creators.contains(name))
}

/// Whether an item is what a row shows: its kind is that of the video that the play button
/// names, its id that of the row, its title the text of the first column, its creators those
/// that other columns lead to, and it is explicit where a badge says so.
#[verifier::opaque]
pub open spec fn is_read_from(item: MediaItemView, row: JsonView) -> bool {
    let listed = text_of(step(member(row, "playlistItemData"@), "videoId"@));
    let played = text_of(step(play_target(row), "videoId"@));
    &&& item.id.provider == "youtube-music"@
    &&& listed is Some || played is Some
    &&& listed matches Some(id) ==> item.id.video_id == id
    &&& played matches Some(id) ==> item.id.video_id == id
    &&& item.kind == MediaKind::Song <==> video_type(row) == Some("MUSIC_VIDEO_TYPE_ATV"@)
    &&& item.kind == MediaKind::Video <==> video_type(row) == Some("MUSIC_VIDEO_TYPE_OMV"@)
        || video_type(row) == Some("MUSIC_VIDEO_TYPE_UGC"@)
    &&& item.kind == MediaKind::PodcastEpisode <==> video_type(row) == Some(
        "MUSIC_VIDEO_TYPE_PODCAST_EPISODE"@,
    )
    &&& columns_of(row).len() > 0
    &&& formatted(column_text_of(columns_of(row)[0])) == Some(item.title)
    &&& are_its_creators(item.creators, row)
    &&& item.explicit <==> has_explicit_badge(row)
    &&& item.collection matches Some(name) ==> names_the_album(row, name)
}

/// Whether a name is that of a creator that a row leads to.
pub open spec fn names_a_creator(row: JsonView, name: Seq<char>) -> bool {
    exists|run: JsonView|
        #[trigger] describes(row, run) && leads_to_creator(run) && run_text(run) == Some(name)
}

/// Whether a name is that of an album that a row leads to.
pub open spec fn names_the_album(row: JsonView, name: Seq<char>) -> bool {
    exists|run: JsonView|
        #[trigger] describes(row, run) && page_of_run(run) == Some("MUSIC_PAGE_TYPE_ALBUM"@)
            && run_text(run) == Some(name)
}

/// Whether a badge of a row says that it is explicit.
pub open spec fn has_explicit_badge(row: JsonView) -> bool {
    elements_of(member(row, "badges"@)) matches Some(badges) && exists|i: int|
        0 <= i < badges.len() && text_of(
            step(step(member(#[trigger] badges[i], "musicInlineBadgeRenderer"@), "icon"@), "iconType"@),
        ) == Some("MUSIC_EXPLICIT_BADGE"@)
}

proof fn lemma_all_runs(row: JsonView, columns: Seq<JsonView>)
    requires
        columns.len() + 1 <= columns_of(row).len(),
        columns == columns_of(row).subrange(1, columns.len() as int + 1),
    ensures
        forall|i: int| 0 <= i < all_runs(columns).len() ==> describes(row, #[trigger] all_runs(columns)[i]),
        forall|column: int, place: int|
            0 <= column < columns.len() && 0 <= place < runs_in(columns[column]).len()
                ==> all_runs(columns).contains(#[trigger] runs_in(columns[column])[place]),
    decreases columns.len(),
{
    if columns.len() > 0 {
        let shorter = columns.drop_last();
        assert(shorter =~= columns_of(row).subrange(1, shorter.len() as int + 1));
        lemma_all_runs(row, shorter);
        let before = all_runs(shorter);
        let all = all_runs(columns);
        let last = columns.len() - 1;
        assert(columns[last] == columns_of(row)[1 + last]);
        let added = crate::provider::charts::column_runs(columns[last]);
        assert(all == before + added);
        assert forall|i: int| 0 <= i < all.len() implies describes(row, #[trigger] all[i]) by {
            if i < before.len() {
                assert(describes(row, before[i]));
            } else {
                let place = i - before.len();
                assert(runs_in(columns_of(row)[1 + last])[place] == all[i]);
            }
        }
        assert forall|column: int, place: int|
            0 <= column < columns.len() && 0 <= place < runs_in(columns[column]).len() implies all.contains(
        #[trigger] runs_in(columns[column])[place]) by {
            let runs = runs_in(columns[column]);
            if column < last {
                assert(shorter[column] == columns[column]);
                assert(before.contains(runs_in(shorter[column])[place]));
                let j = choose|j: int| 0 <= j < before.len() && before[j] == runs[place];
                assert(all[j] == runs[place]);
            } else {
                assert(all[before.len() + place] == runs[place]);
            }
        }
    }
}

proof fn lemma_creators(runs: Seq<JsonView>)
    ensures
        forall|i: int|
            0 <= i < creator_names(runs).len() ==> exists|j: int|
                0 <= j < runs.len() && leads_to_creator(#[trigger] runs[j]) && run_text(runs[j])
                    == Some(#[trigger] creator_names(runs)[i]),
        forall|j: int|
            0 <= j < runs.len() && leads_to_creator(#[trigger] runs[j]) ==> (run_text(runs[j])
                matches Some(name) ==> creator_names(runs).contains(name)),
    decreases runs.len(),
{
    if runs.len() > 0 {
        let shorter = runs.drop_last();
        lemma_creators(shorter);
        let before = creator_names(shorter);
        let all = creator_names(runs);
        let last = runs.len() - 1;
        assert(runs[last] == runs.last());
        assert forall|i: int| 0 <= i < all.len() implies exists|j: int|
            0 <= j < runs.len() && leads_to_creator(#[trigger] runs[j]) && run_text(runs[j]) == Some(
                #[trigger] all[i],
            ) by {
            if i < before.len() {
                assert(before[i] == all[i]);
                let j = choose|j: int|
                    0 <= j < shorter.len() && leads_to_creator(#[trigger] shorter[j]) && run_text(
                        shorter[j],
                    ) == Some(before[i]);
                assert(runs[j] == shorter[j]);
            } else {
                assert(leads_to_creator(runs[last]));
            }
        }
        assert forall|j: int| 0 <= j < runs.len() && leads_to_creator(#[trigger] runs[j]) implies (
        run_text(runs[j]) matches Some(name) ==> all.contains(name)) by {
            if let Some(name) = run_text(runs[j]) {
                if j < last {
                    assert(shorter[j] == runs[j]);
                    assert(before.contains(name));
                    let i = choose|i: int| 0 <= i < before.len() && before[i] == name;
                    assert(all[i] == name);
                } else if before.contains(name) {
                    let i = choose|i: int| 0 <= i < before.len() && before[i] == name;
                    assert(all[i] == name);
                } else {
                    assert(all[before.len() as int] == name);
                }
            }
        }
    }
}

proof fn lemma_video_types_differ()
    ensures
        "MUSIC_VIDEO_TYPE_ATV"@ != "MUSIC_VIDEO_TYPE_OMV"@,
        "MUSIC_VIDEO_TYPE_ATV"@ != "MUSIC_VIDEO_TYPE_UGC"@,
        "MUSIC_VIDEO_TYPE_ATV"@ != "MUSIC_VIDEO_TYPE_PODCAST_EPISODE"@,
        "MUSIC_VIDEO_TYPE_OMV"@ != "MUSIC_VIDEO_TYPE_PODCAST_EPISODE"@,
        "MUSIC_VIDEO_TYPE_UGC"@ != "MUSIC_VIDEO_TYPE_PODCAST_EPISODE"@,
{
    reveal_strlit("MUSIC_VIDEO_TYPE_ATV");
    reveal_strlit("MUSIC_VIDEO_TYPE_OMV");
    reveal_strlit("MUSIC_VIDEO_TYPE_UGC");
    reveal_strlit("MUSIC_VIDEO_TYPE_PODCAST_EPISODE");
    assert("MUSIC_VIDEO_TYPE_ATV"@[17] == 'A');
    assert("MUSIC_VIDEO_TYPE_OMV"@[17] == 'O');
    assert("MUSIC_VIDEO_TYPE_UGC"@[17] == 'U');
    assert("MUSIC_VIDEO_TYPE_PODCAST_EPISODE"@[17] == 'P');
}

/// A row is a song, a video or a podcast episode as the type of its video says, and is
/// nothing where that type is another.
pub proof fn law_the_video_type_is_the_kind(row: JsonView)
    ensures
        item_kind(row) == Ok::<MediaKind, ParseWarningKind>(MediaKind::Song) <==> video_type(row)
            == Some("MUSIC_VIDEO_TYPE_ATV"@),
        item_kind(row) == Ok::<MediaKind, ParseWarningKind>(MediaKind::Video) <==> video_type(row)
            == Some("MUSIC_VIDEO_TYPE_OMV"@) || video_type(row) == Some("MUSIC_VIDEO_TYPE_UGC"@),
        item_kind(row) == Ok::<MediaKind, ParseWarningKind>(MediaKind::PodcastEpisode)
            <==> video_type(row) == Some("MUSIC_VIDEO_TYPE_PODCAST_EPISODE"@),
{
    lemma_video_types_differ();
}

proof fn lemma_row_runs(row: JsonView)
    requires
        columns_of(row).len() > 0,
    ensures
        ({
            let runs = all_runs(columns_of(row).skip(1));
            &&& forall|i: int| 0 <= i < runs.len() ==> describes(row, #[trigger] runs[i])
            &&& forall|run: JsonView| #[trigger] describes(row, run) ==> runs.contains(run)
        }),
{
    let columns = columns_of(row);
    let rest = columns.skip(1);
    assert(rest =~= columns.subrange(1, rest.len() as int + 1));
    lemma_all_runs(row, rest);
    let runs = all_runs(rest);
    assert forall|run: JsonView| #[trigger] describes(row, run) implies runs.contains(run) by {
        let (column, place) = choose|column: int, place: int|
            {
                &&& 1 <= column < columns_of(row).len()
                &&& 0 <= place < runs_in(columns_of(row)[column]).len()
                &&& #[trigger] runs_in(columns_of(row)[column])[place] == run
            };
        assert(rest[column - 1] == columns[column]);
        assert(runs.contains(runs_in(rest[column - 1])[place]));
    }
}

proof fn lemma_row_creators(row: JsonView)
    requires
        columns_of(row).len() > 0,
    ensures
        are_its_creators(creator_names(all_runs(columns_of(row).skip(1))), row),
{
    let runs = all_runs(columns_of(row).skip(1));
    let creators = creator_names(runs);
    lemma_row_runs(row);
    lemma_creators(runs);
    assert forall|i: int| 0 <= i < creators.len() implies names_a_creator(
        row,
        #[trigger] creators[i],
    ) by {
        let j = choose|j: int|
            0 <= j < runs.len() && leads_to_creator(#[trigger] runs[j]) && run_text(runs[j])
                == Some(creators[i]);
        assert(describes(row, runs[j]));
    }
    assert forall|run: JsonView| #[trigger] describes(row, run) && leads_to_creator(run) implies (
    run_text(run) matches Some(name) ==> creators.contains(name)) by {
        let j = choose|j: int| 0 <= j < runs.len() && runs[j] == run;
        assert(leads_to_creator(runs[j]));
    }
}

proof fn lemma_row_album(row: JsonView)
    requires
        columns_of(row).len() > 0,
    ensures
        album_name(all_runs(columns_of(row).skip(1))) matches Some(name) ==> names_the_album(
            row,
            name,
        ),
{
    let runs = all_runs(columns_of(row).skip(1));
    lemma_row_runs(row);
    let is_album = |i: int| run_page_type(runs[i]) == Some("MUSIC_PAGE_TYPE_ALBUM"@);
    crate::seqs::lemma_first_where_sound(runs.len(), is_album);
    if let Some(first) = crate::seqs::first_where(runs.len(), is_album) {
        assert(is_album(first));
        assert(describes(row, runs[first]));
    }
}

proof fn lemma_row_badges(row: JsonView)
    ensures
        item_is_explicit(row) <==> has_explicit_badge(row),
{
    if let Some(badges) = elements_of(member(row, "badges"@)) {
        assert forall|i: int| 0 <= i < badges.len() implies is_explicit_badge(#[trigger] badges[i])
            == (text_of(
            step(step(member(badges[i], "musicInlineBadgeRenderer"@), "icon"@), "iconType"@),
        ) == Some("MUSIC_EXPLICIT_BADGE"@)) by {}
    }
}

/// A row is read as what it shows, or not at all.
pub proof fn law_rows_are_read_as_what_they_show(row: JsonView)
    ensures
        parsed_item(row) matches Ok(parsed) ==> is_read_from(parsed.0, row),
{
    reveal(is_read_from);
    if let Ok(parsed) = parsed_item(row) {
        law_the_video_type_is_the_kind(row);
        lemma_row_creators(row);
        lemma_row_album(row);
        lemma_row_badges(row);
    }
}

/// A row whose kind is not known is not read.
pub proof fn law_other_videos_are_left_out(row: JsonView)
    requires
        video_type(row) != Some("MUSIC_VIDEO_TYPE_ATV"@),
        video_type(row) != Some("MUSIC_VIDEO_TYPE_OMV"@),
        video_type(row) != Some("MUSIC_VIDEO_TYPE_UGC"@),
        video_type(row) != Some("MUSIC_VIDEO_TYPE_PODCAST_EPISODE"@),
    ensures
        parsed_item(row) is Err,
{
}

/// Whether an item is read from some row.
pub open spec fn stems_from_a_row(item: MediaItemView) -> bool {
    exists|row: JsonView| #[trigger] is_read_from(item, row)
}

/// Whether an entry of a shelf holds a row, and an item is what that row shows.
pub open spec fn is_read_from_entry(item: MediaItemView, entry: JsonView) -> bool {
    member(entry, "musicResponsiveListItemRenderer"@) matches Some(row) && parsed_item(row)
        matches Ok(parsed) && parsed.0 == item && is_read_from(item, row)
}

/// Whether an entry of a shelf can be read.
pub open spec fn is_readable(entry: JsonView) -> bool {
    member(entry, "musicResponsiveListItemRenderer"@) matches Some(row) && parsed_item(row) is Ok
}

/// The entries of a shelf that can be read.
pub open spec fn readable(entries: Seq<JsonView>) -> Seq<JsonView> {
    entries.filter(|entry: JsonView| is_readable(entry))
}

/// A shelf is read in order: its items are those of the entries that can be read, of each of
/// them one.
pub proof fn law_shelves_are_read_in_order(entries: Seq<JsonView>)
    ensures
        shelf_items(entries).len() == readable(entries).len(),
        forall|i: int|
            0 <= i < shelf_items(entries).len() ==> is_read_from_entry(
                #[trigger] shelf_items(entries)[i],
                readable(entries)[i],
            ),
    decreases entries.len(),
{
    reveal(Seq::filter);
    reveal(entry_item);
    if entries.len() > 0 {
        let shorter = entries.drop_last();
        law_shelves_are_read_in_order(shorter);
        if is_readable(entries.last()) {
            law_rows_are_read_as_what_they_show(
                member(entries.last(), "musicResponsiveListItemRenderer"@)->0,
            );
        }
        let before = shelf_items(shorter);
        let all = shelf_items(entries);
        assert forall|i: int| 0 <= i < all.len() implies is_read_from_entry(
            #[trigger] all[i],
            readable(entries)[i],
        ) by {
            if i < before.len() {
                assert(is_read_from_entry(before[i], readable(shorter)[i]));
                assert(all[i] == before[i]);
                assert(readable(entries)[i] == readable(shorter)[i]);
            }
        }
    }
}

/// What cannot be read is told: an entry that gives no item gives a warning.
pub proof fn law_what_is_left_out_is_told(entry: JsonView)
    ensures
        entry_item(entry) is None ==> entry_warnings(entry).len() == 1,
        member(entry, "musicResponsiveListItemRenderer"@) is None ==> entry_warnings(entry)
            == seq![ParseWarningKind::UnsupportedItemRenderer],
        member(entry, "musicResponsiveListItemRenderer"@) matches Some(row) ==> (parsed_item(row)
            matches Err(kind) ==> entry_warnings(entry) == seq![kind]),
{
    reveal(entry_item);
    reveal(entry_warnings);
}

/// Whether the sections of a chart are those of the shelves `name` of a document's sections,
/// in order: each with the title of its shelf and the items of its entries.
pub open spec fn are_shelves_of(
    sections: Seq<ChartSectionView>,
    found: Seq<JsonView>,
    name: Seq<char>,
) -> bool {
    let shelved = found.filter(|section: JsonView| shelf_contents(section, name) is Some);
    &&& sections.len() == shelved.len()
    &&& forall|i: int|
        0 <= i < sections.len() ==> {
            &&& shelf_contents(shelved[i], name) is Some
            &&& (#[trigger] sections[i]).items == shelf_items(shelf_contents(shelved[i], name)->0)
            &&& sections[i].title == shelf_title(member(shelved[i], name)->0)
        }
}

proof fn lemma_shelves_in_order(found: Seq<JsonView>, name: Seq<char>)
    ensures
        shelves(found, name) matches Ok(held) ==> are_shelves_of(held.sections, found, name),
    decreases found.len(),
{
    reveal(Seq::filter);
    if found.len() > 0 {
        lemma_shelves_in_order(found.drop_last(), name);
    }
}

/// The charts have a section for each of their shelves, in order, and every item in them is
/// read from a row of that shelf: a song from the row of a song, a video from that of a video
/// and an episode from that of an episode.
pub proof fn law_charts_show_the_rows_of_their_shelves(document: JsonView)
    ensures
        chart_report(document) matches Ok(report) ==> (sections_of(
            document,
            "singleColumnBrowseResultsRenderer"@,
        ) matches Some(found) && {
            &&& are_shelves_of(report.0, found, "musicCarouselShelfRenderer"@)
            &&& forall|s: int, i: int|
                0 <= s < report.0.len() && 0 <= i < report.0[s].items.len() ==> stems_from_a_row(
                    #[trigger] report.0[s].items[i],
                )
        }),
{
    if let Ok(report) = chart_report(document) {
        let found = sections_of(document, "singleColumnBrowseResultsRenderer"@)->0;
        let name = "musicCarouselShelfRenderer"@;
        lemma_shelves_in_order(found, name);
        let shelved = found.filter(|section: JsonView| shelf_contents(section, name) is Some);
        assert forall|s: int, i: int|
            0 <= s < report.0.len() && 0 <= i < report.0[s].items.len() implies stems_from_a_row(
            #[trigger] report.0[s].items[i],
        ) by {
            let entries = shelf_contents(shelved[s], name)->0;
            law_shelves_are_read_in_order(entries);
            assert(is_read_from_entry(shelf_items(entries)[i], readable(entries)[i]));
            let row = member(readable(entries)[i], "musicResponsiveListItemRenderer"@)->0;
            assert(is_read_from(report.0[s].items[i], row));
        }
    }
}

proof fn lemma_all_items_read(sections: Seq<ChartSectionView>)
    requires
        forall|s: int, i: int|
            0 <= s < sections.len() && 0 <= i < sections[s].items.len() ==> stems_from_a_row(
                #[trigger] sections[s].items[i],
            ),
    ensures
        forall|i: int|
            0 <= i < all_items(sections).len() ==> stems_from_a_row(
                #[trigger] all_items(sections)[i],
            ),
    decreases sections.len(),
{
    if sections.len() > 0 {
        let shorter = sections.drop_last();
        assert forall|s: int, i: int|
            0 <= s < shorter.len() && 0 <= i < shorter[s].items.len() implies stems_from_a_row(
            #[trigger] shorter[s].items[i],
        ) by {
            assert(shorter[s].items[i] == sections[s].items[i]);
        }
        lemma_all_items_read(shorter);
        let before = all_items(shorter);
        let all = all_items(sections);
        let last = sections.len() - 1;
        assert forall|i: int| 0 <= i < all.len() implies stems_from_a_row(#[trigger] all[i]) by {
            if i < before.len() {
                assert(all[i] == before[i]);
            } else {
                assert(all[i] == sections[last].items[i - before.len()]);
            }
        }
    }
}

/// What a search found is read from rows too, and can be played.
pub proof fn law_search_results_show_their_rows(document: JsonView)
    ensures
        search_report(document) matches Ok(report) ==> forall|i: int|
            0 <= i < report.0.len() ==> ((#[trigger] report.0[i]) matches ItemView::Playable(item)
                && stems_from_a_row(item)),
{
    if let Ok(report) = search_report(document) {
        let found = sections_of(document, "tabbedSearchResultsRenderer"@)->0;
        let name = "musicShelfRenderer"@;
        lemma_shelves_in_order(found, name);
        let held = shelves(found, name)->Ok_0;
        let shelved = found.filter(|section: JsonView| shelf_contents(section, name) is Some);
        assert forall|s: int, i: int|
            0 <= s < held.sections.len() && 0 <= i
                < held.sections[s].items.len() implies stems_from_a_row(
            #[trigger] held.sections[s].items[i],
        ) by {
            let entries = shelf_contents(shelved[s], name)->0;
            law_shelves_are_read_in_order(entries);
            assert(is_read_from_entry(shelf_items(entries)[i], readable(entries)[i]));
            let row = member(readable(entries)[i], "musicResponsiveListItemRenderer"@)->0;
            assert(is_read_from(held.sections[s].items[i], row));
        }
        lemma_all_items_read(held.sections);
        assert forall|i: int| 0 <= i < report.0.len() implies ((#[trigger] report.0[i])
            matches ItemView::Playable(item) && stems_from_a_row(item)) by {
            assert(report.0[i] == ItemView::Playable(all_items(held.sections)[i]));
        }
    }
}

/// The text of a row is its simple text or the texts of its runs, its words joined by single
/// spaces; where it has none it is not shown.
pub proof fn law_texts_are_shown_with_single_spaces(text: Option<JsonView>)
    ensures
        text_of(step(text, "simpleText"@)) matches Some(simple) ==> {
            &&& formatted(text) is Some <==> collapsed(simple).len() > 0
            &&& formatted(text) matches Some(shown) ==> shown == collapsed(simple)
        },
        text is None ==> formatted(text) is None,
{
}

/// The duration of a row is that of the first column that shows a clock; one that is no clock
/// is told.
pub proof fn law_durations_are_those_of_the_first_clock(row: JsonView)
    ensures
        ({
            let (duration, warning) = item_duration(row);
            &&& duration is Some ==> warning is None
            &&& warning matches Some(kind) ==> kind == ParseWarningKind::InvalidDuration
            &&& elements_of(member(row, "fixedColumns"@)) is None ==> duration is None
                && warning is None
            &&& elements_of(member(row, "fixedColumns"@)) matches Some(columns) ==> {
                ||| duration is None && warning is None && forall|i: int|
                    0 <= i < columns.len() ==> !shows_duration(#[trigger] columns[i])
                ||| exists|i: int|
                    {
                        &&& 0 <= i < columns.len()
                        &&& shows_duration(#[trigger] columns[i])
                        &&& forall|j: int| 0 <= j < i ==> !shows_duration(#[trigger] columns[j])
                        &&& duration == duration_value(fixed_column_text(columns[i])->0)
                        &&& duration is None <==> warning is Some
                    }
            }
        }),
{
    if let Some(columns) = elements_of(member(row, "fixedColumns"@)) {
        let shows = |i: int| shows_duration(columns[i]);
        crate::seqs::lemma_first_where_sound(columns.len(), shows);
        match crate::seqs::first_where(columns.len(), shows) {
            Some(first) => {
                assert(shows(first));
                assert forall|j: int| 0 <= j < first implies !shows_duration(
                    #[trigger] columns[j],
                ) by {
                    assert(!shows(j));
                }
            },
            None => {
                assert forall|j: int| 0 <= j < columns.len() implies !shows_duration(
                    #[trigger] columns[j],
                ) by {
                    assert(!shows(j));
                }
            },
        }
    }
}

/// How large a picture is.
pub open spec fn picture_area(thumbnail: JsonView) -> int {
    number_of(member(thumbnail, "width"@)) * number_of(member(thumbnail, "height"@))
}

/// The artwork of a row is the largest of its pictures with an address.
pub proof fn law_artwork_is_the_largest_thumbnail(thumbnails: Seq<JsonView>)
    requires
        forall|i: int| 0 <= i < thumbnails.len() ==> picture_area(#[trigger] thumbnails[i]) <= u64::MAX,
    ensures
        match best_thumbnail(thumbnails) {
            Some(best) => {
                &&& exists|i: int|
                    {
                        &&& 0 <= i < thumbnails.len()
                        &&& thumbnail_url(#[trigger] thumbnails[i]) == Some(best.1)
                        &&& best.0 == picture_area(thumbnails[i])
                    }
                &&& forall|j: int|
                    0 <= j < thumbnails.len() && thumbnail_url(#[trigger] thumbnails[j]) is Some
                        ==> picture_area(thumbnails[j]) <= best.0
            },
            None => forall|j: int|
                0 <= j < thumbnails.len() ==> thumbnail_url(#[trigger] thumbnails[j]) is None,
        },
    decreases thumbnails.len(),
{
    if thumbnails.len() > 0 {
        let shorter = thumbnails.drop_last();
        assert forall|i: int| 0 <= i < shorter.len() implies picture_area(#[trigger] shorter[i])
            <= u64::MAX && shorter[i] == thumbnails[i] by {
            assert(picture_area(thumbnails[i]) <= u64::MAX);
        }
        law_artwork_is_the_largest_thumbnail(shorter);
        let last = thumbnails[thumbnails.len() - 1];
        assert(picture_area(last) <= u64::MAX);
        if let Some(best) = best_thumbnail(shorter) {
            let i = choose|i: int|
                {
                    &&& 0 <= i < shorter.len()
                    &&& thumbnail_url(#[trigger] shorter[i]) == Some(best.1)
                    &&& best.0 == picture_area(shorter[i])
                };
            assert(thumbnail_url(thumbnails[i]) == Some(best.1));
        }
        assert forall|j: int| 0 <= j < shorter.len() implies thumbnail_url(
            #[trigger] thumbnails[j],
        ) == thumbnail_url(shorter[j]) by {}
    }
}

/// An entry refers to the playlist whose id the first link of its title names behind the two
/// letters that mark playlists, under the title it shows.
pub proof fn law_references_name_linked_playlists(entry: JsonView)
    ensures
        playlist_reference(entry) matches Some(reference) ==> {
            let title = step(member(entry, "musicTwoRowItemRenderer"@), "title"@);
            &&& formatted(title) == Some(reference.title)
            &&& elements_of(step(title, "runs"@)) matches Some(runs) && exists|i: int|
                {
                    &&& 0 <= i < runs.len()
                    &&& run_browse_id(#[trigger] runs[i]) == Some(
                        seq!['V', 'L'] + reference.playlist_id,
                    )
                    &&& forall|j: int| 0 <= j < i ==> run_browse_id(#[trigger] runs[j]) is None
                }
        },
{
    reveal(playlist_reference);
    if let Some(reference) = playlist_reference(entry) {
        let title = step(member(entry, "musicTwoRowItemRenderer"@), "title"@);
        let runs = elements_of(step(title, "runs"@))->0;
        let links = |i: int| run_browse_id(runs[i]) is Some;
        crate::seqs::lemma_first_where_sound(runs.len(), links);
        let first = crate::seqs::first_where(runs.len(), links)->0;
        let id = run_browse_id(runs[first])->0;
        assert(links(first));
        assert(id =~= seq!['V', 'L'] + id.skip(2));
        assert forall|j: int| 0 <= j < first implies run_browse_id(#[trigger] runs[j]) is None by {
            assert(!links(j));
        }
    }
}

} // verus!
