//! What is read of responses, and what is told of what cannot be.

use vstd::prelude::*;
use vstd::string::*;

use crate::json::{elements_of, member, step, text_of, JsonView};
use crate::provider::charts::{
    album_name, all_items, creator_names, document_references, entry_warnings, formatted,
    has_invalid_url, is_opaque_id, item_artwork, item_duration, item_is_explicit, item_kind,
    item_runs, item_video_id, joined_runs, names_creator, parsed_item, response_document,
    response_shelves, run_text, section_references, sections_of, shelf_contents,
    shelf_references, shelf_title, shelf_warnings, tab_sections,
    shelves, valid_video_id, warnings_about, watch_endpoint_of, ParseError, ParseResource,
    ParseWarning, ParseWarningKind,
};
use crate::json::json_document;
use crate::text::collapsed;

verus! {

/// The ids that a row names must be ids, and must agree.
pub proof fn law_the_ids_of_a_row_agree(row: JsonView, listed: Seq<char>, played: Seq<char>)
    ensures
        ({
            let first = step(member(row, "playlistItemData"@), "videoId"@);
            let second = step(watch_endpoint_of(row), "videoId"@);
            &&& first is None && second is None ==> item_video_id(row) == Err::<
                Seq<char>,
                ParseWarningKind,
            >(ParseWarningKind::MissingVideoId)
            &&& first == Some(JsonView::Text(listed)) && second == Some(JsonView::Text(played))
                && is_opaque_id(listed, 128) && is_opaque_id(played, 128) && listed != played
                ==> item_video_id(row) == Err::<Seq<char>, ParseWarningKind>(
                ParseWarningKind::ConflictingVideoId,
            )
            &&& first == Some(JsonView::Text(listed)) && second == Some(JsonView::Text(listed))
                && is_opaque_id(listed, 128) ==> item_video_id(row) == Ok::<
                Seq<char>,
                ParseWarningKind,
            >(listed)
            &&& first == Some(JsonView::Text(listed)) && !is_opaque_id(listed, 128)
                ==> item_video_id(row) == Err::<Seq<char>, ParseWarningKind>(
                ParseWarningKind::InvalidVideoId,
            )
            &&& first is None && second == Some(JsonView::Text(played)) && !is_opaque_id(
                played,
                128,
            ) ==> item_video_id(row) == Err::<Seq<char>, ParseWarningKind>(
                ParseWarningKind::InvalidVideoId,
            )
        }),
{
}

/// What a row cannot do without is asked for in order: its id, its title, its kind, and what
/// describes it.
pub proof fn law_a_row_says_what_it_lacks(row: JsonView)
    ensures
        item_video_id(row) matches Err(kind) ==> (parsed_item(row) matches Err(told) && told
            == kind),
        parsed_item(row) matches Ok(parsed) ==> {
            &&& item_video_id(row) matches Ok(id) && parsed.0.id.video_id == id
            &&& item_kind(row) matches Ok(kind) && parsed.0.kind == kind
            &&& item_runs(row) matches Ok(runs) && parsed.0.creators == creator_names(runs)
                && parsed.0.collection == album_name(runs)
            &&& parsed.0.duration_ms == item_duration(row).0
            &&& parsed.0.artwork_url == item_artwork(row).0
            &&& parsed.0.explicit == item_is_explicit(row)
            &&& parsed.1.len() == (if item_duration(row).1 is Some {
                1int
            } else {
                0int
            }) + (if item_artwork(row).1 is Some {
                1int
            } else {
                0int
            })
        },
{
}

/// Runs of text are joined in order, with nothing between them.
pub proof fn law_runs_are_joined_in_order(first: Seq<JsonView>, second: Seq<JsonView>, run: JsonView)
    ensures
        joined_runs(first + second) == joined_runs(first) + joined_runs(second),
        text_of(member(run, "text"@)) matches Some(text) ==> joined_runs(seq![run]) == text,
        text_of(member(run, "text"@)) is None ==> joined_runs(seq![run]).len() == 0,
    decreases second.len(),
{
    reveal_with_fuel(joined_runs, 2);
    assert(seq![run].drop_last() =~= Seq::<JsonView>::empty());
    if let Some(text) = text_of(member(run, "text"@)) {
        assert(Seq::<char>::empty() + text =~= text);
    }
    if second.len() == 0 {
        assert(first + second =~= first);
        assert(joined_runs(first) + joined_runs(second) =~= joined_runs(first));
    } else {
        law_runs_are_joined_in_order(first, second.drop_last(), run);
        assert((first + second).drop_last() =~= first + second.drop_last());
        assert(joined_runs(first + second) =~= joined_runs(first) + joined_runs(second));
    }
}

/// A response is read where it is no larger than it may be, and nothing else is.
pub proof fn law_a_response_has_its_limit(bytes: Seq<u8>, response: &'static str)
    ensures
        bytes.len() > 1_048_576 ==> response_document(bytes, response) == Err::<
            JsonView,
            ParseError,
        >(ParseError::InputTooLarge { response }),
        bytes.len() <= 1_048_576 ==> match json_document(bytes) {
            Some(document) => response_document(bytes, response) == Ok::<JsonView, ParseError>(
                document,
            ),
            None => response_document(bytes, response) == Err::<JsonView, ParseError>(
                ParseError::InvalidJson { response },
            ),
        },
{
}

/// A picture with an address that is none is told of, and so are too many pictures.
pub proof fn law_wrong_pictures_are_told(row: JsonView, thumbnails: Seq<JsonView>)
    requires
        elements_of(
            step(
                step(step(member(row, "thumbnail"@), "musicThumbnailRenderer"@), "thumbnail"@),
                "thumbnails"@,
            ),
        ) == Some(thumbnails),
    ensures
        thumbnails.len() > 32 ==> item_artwork(row) == (
            None::<Seq<char>>,
            Some(ParseWarningKind::ResourceLimit { resource: ParseResource::Thumbnails }),
        ),
        thumbnails.len() <= 32 ==> (item_artwork(row).1 == Some(
            ParseWarningKind::InvalidArtworkUrl,
        ) <==> exists|i: int|
            0 <= i < thumbnails.len() && has_invalid_url(#[trigger] thumbnails[i])),
        thumbnails.len() <= 32 ==> item_artwork(row).1 is None || item_artwork(row).1 == Some(
            ParseWarningKind::InvalidArtworkUrl,
        ),
{
}

/// Whether something is told of an entry that it is true of.
pub open spec fn is_told_of(warning: ParseWarning, entries: Seq<JsonView>, section: usize) -> bool {
    &&& warning.section_index == section
    &&& warning.item_index < entries.len()
    &&& entry_warnings(entries[warning.item_index as int]).contains(warning.kind)
}

/// What is told of a shelf is told of the entry that it is true of.
pub proof fn law_what_is_told_names_its_entry(entries: Seq<JsonView>, section: usize, index: int)
    requires
        entries.len() <= usize::MAX,
        0 <= index < shelf_warnings(entries, section).len(),
    ensures
        is_told_of(shelf_warnings(entries, section)[index], entries, section),
    decreases entries.len(),
{
    if entries.len() > 0 {
        let shorter = entries.drop_last();
        let before = shelf_warnings(shorter, section);
        if index < before.len() {
            law_what_is_told_names_its_entry(shorter, section, index);
            assert(shelf_warnings(entries, section)[index] == before[index]);
            let at = before[index].item_index as int;
            assert(shorter[at] == entries[at]);
        } else {
            let kinds = entry_warnings(entries.last());
            let told = shelf_warnings(entries, section)[index];
            assert(told.kind == kinds[index - before.len()]);
            assert(told.item_index == entries.len() - 1);
        }
    }
}

/// Lists that can be opened are given where there are any; where there are shelves with none,
/// the response cannot be used, and without a shelf it has another shape.
pub proof fn law_lists_are_given_where_there_are_any(document: JsonView, sections: Seq<JsonView>)
    requires
        sections_of(document, "singleColumnBrowseResultsRenderer"@) == Some(sections),
        sections.len() <= 64,
    ensures
        section_references(sections) matches Ok((references, found)) ==> {
            &&& found && references.len() > 0 ==> (document_references(document) matches Ok(given)
                && given == references)
            &&& found && references.len() == 0 ==> (document_references(document) matches Err(
                error,
            ) && error is UnusableResponse)
            &&& !found ==> (document_references(document) matches Err(error)
                && error is UnsupportedShape)
        },
{
}

/// A shelf has the title that it shows, or that of the charts.
pub proof fn law_a_shelf_has_its_title(shelf: JsonView)
    ensures
        ({
            let shown = formatted(
                step(
                    step(member(shelf, "header"@), "musicCarouselShelfBasicHeaderRenderer"@),
                    "title"@,
                ),
            );
            &&& shown matches Some(title) ==> shelf_title(shelf) == title
            &&& shown is None ==> shelf_title(shelf) == "Charts"@
        }),
{
}

/// Every creator is named once.
pub proof fn law_creators_are_named_once(runs: Seq<JsonView>, index: int)
    requires
        0 <= index < runs.len(),
    ensures
        creator_names(runs).no_duplicates(),
        names_creator(runs[index]) ==> (run_text(runs[index]) matches Some(name)
            ==> creator_names(runs).contains(name)),
    decreases runs.len(),
{
    let shorter = runs.drop_last();
    let before = creator_names(shorter);
    let after = creator_names(runs);
    if shorter.len() > 0 {
        law_creators_are_named_once(shorter, 0);
        if index < shorter.len() {
            law_creators_are_named_once(shorter, index);
            assert(shorter[index] == runs[index]);
        }
    } else {
        assert(before =~= Seq::<Seq<char>>::empty());
    }
    if after.len() > before.len() {
        assert(after == before.push(after.last()));
        if let Some(name) = run_text(runs[index]) {
            if before.contains(name) {
                let at = before.index_of(name);
                assert(after[at] == name);
            }
            assert(after[before.len() as int] == after.last());
        }
    }
}

/// A response without a shelf has another shape; one whose shelves have entries of which none
/// can be read cannot be used; one whose shelves have no entries is empty.
pub proof fn law_a_response_is_used_where_it_can_be(
    document: JsonView,
    renderer: Seq<char>,
    name: Seq<char>,
    response: &'static str,
    sections: Seq<JsonView>,
)
    requires
        sections_of(document, renderer) == Some(sections),
        sections.len() <= 64,
    ensures
        shelves(sections, name) matches Ok(found) ==> {
            let read = response_shelves(document, renderer, name, response);
            &&& !found.found ==> (read matches Err(error) && error is UnsupportedShape)
            &&& found.found && found.candidate && all_items(found.sections).len() == 0 ==> (
            read matches Err(error) && error is UnusableResponse)
            &&& found.found && (!found.candidate || all_items(found.sections).len() > 0) ==> (
            read matches Ok(used) && used == found)
        },
{
}

/// The sections of a response are those of its first tab that has any.
pub proof fn law_the_first_tab_with_sections_counts(
    document: JsonView,
    renderer: Seq<char>,
    tabs: Seq<JsonView>,
    index: int,
)
    requires
        elements_of(step(step(member(document, "contents"@), renderer), "tabs"@)) == Some(tabs),
        0 <= index < tabs.len(),
        tab_sections(tabs[index]) is Some,
        forall|i: int| 0 <= i < index ==> tab_sections(#[trigger] tabs[i]) is None,
    ensures
        sections_of(document, renderer) == tab_sections(tabs[index]),
{
    let listed = Some(tabs);
    let holds = |i: int| tab_sections(listed->0[i]) is Some;
    assert forall|j: int| 0 <= j < index implies !#[trigger] holds(j) by {
        assert(tab_sections(tabs[j]) is None);
    }
    assert(holds(index));
    crate::seqs::lemma_first_where(tabs.len(), holds, index);
}

/// The text of a run is shown with single blanks, and not at all where it is blank.
pub proof fn law_the_text_of_a_run_is_shown(run: JsonView)
    ensures
        text_of(member(run, "text"@)) matches Some(text) ==> {
            &&& collapsed(text).len() > 0 ==> run_text(run) == Some(collapsed(text))
            &&& collapsed(text).len() == 0 ==> run_text(run) is None
        },
        text_of(member(run, "text"@)) is None ==> run_text(run) is None,
{
}

/// The lists of one more shelf follow those before, up to 64 of them.
pub proof fn law_lists_follow_each_other(
    sections: Seq<JsonView>,
    section: JsonView,
    contents: Seq<JsonView>,
)
    requires
        shelf_contents(section, "musicCarouselShelfRenderer"@) == Some(contents),
        section_references(sections) is Ok,
    ensures
        ({
            let before = section_references(sections)->Ok_0.0;
            let all = before + shelf_references(contents);
            let read = section_references(sections.push(section));
            &&& contents.len() > 256 ==> (read matches Err(resource) && resource
                == ParseResource::Items)
            &&& contents.len() <= 256 && all.len() > 64 ==> (read matches Err(resource) && resource
                == ParseResource::Sections)
            &&& contents.len() <= 256 && all.len() <= 64 ==> (read matches Ok((references, found))
                && references == all && found)
        }),
{
    assert(sections.push(section).drop_last() =~= sections);
}

} // verus!
