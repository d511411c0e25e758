//! What is said of what went wrong, and what is read and written.

use vstd::prelude::*;
use vstd::string::*;

use crate::domain::{media_views, MediaIdView, MediaItem, MediaKind};
use crate::json::{elements_of, member, number_of, step, text_of, JsonView};
use crate::lyrics::normalized_lyrics;
use crate::provider::charts::{
    chart_report, document_references, resource_name, ParseError, ParseResource,
};
use crate::provider::item_laws::law_lists_are_read_whole;
use crate::provider::model::{
    bool_text, browse_summary, cleaned_lyrics, is_plain_lyrics, item_summary, kind_message,
    kind_text, operation_name, podcast_summary, BrowseItemView, ItemView, LibraryItem, Page,
    PodcastView, ProviderError, ProviderErrorKind, ProviderOperation, SearchItem,
};
use crate::provider::queries::{capped, chart_output, taken_bytes, OutputView};
use crate::provider::ytmusic::{
    accepts_media, collected, is_library_page, is_search_page, loaded_outcome, page_outcome,
};
use crate::queue::{error_message, QueueErrorView};
use crate::text::{is_control_char, is_space, trimmed, utf8_len};
use crate::text_laws::law_trimming_takes_the_white_space_around;
use crate::web_url::is_web_scheme;

verus! {

/// A failure is told in its own words.
pub proof fn law_a_failure_has_its_words(kind: ProviderErrorKind)
    ensures
        kind_message(kind) == "provider is unavailable"@ <==> kind
            == ProviderErrorKind::Unavailable,
        kind_message(kind) == "authentication is required"@ <==> kind
            == ProviderErrorKind::AuthenticationRequired,
        kind_message(kind) == "requested item was not found"@ <==> kind
            == ProviderErrorKind::NotFound,
        kind_message(kind) == "provider returned an invalid response"@ <==> kind
            == ProviderErrorKind::InvalidResponse,
        kind_message(kind) == "provider does not support this operation"@ <==> kind
            == ProviderErrorKind::Unsupported,
        kind_message(kind) == "operation was cancelled"@ <==> kind == ProviderErrorKind::Cancelled,
{
    reveal_strlit("provider is unavailable");
    reveal_strlit("authentication is required");
    reveal_strlit("requested item was not found");
    reveal_strlit("provider returned an invalid response");
    reveal_strlit("provider does not support this operation");
    reveal_strlit("operation was cancelled");
    assert("provider is unavailable"@.len() == 23 && "provider is unavailable"@[0] == 'p');
    assert("operation was cancelled"@.len() == 23 && "operation was cancelled"@[0] == 'o');
    assert("authentication is required"@.len() == 26);
    assert("requested item was not found"@.len() == 28);
    assert("provider returned an invalid response"@.len() == 37);
    assert("provider does not support this operation"@.len() == 40);
}

/// What was asked for has its name.
pub proof fn law_an_operation_has_its_name(operation: ProviderOperation)
    ensures
        operation_name(operation) == "search"@ <==> operation == ProviderOperation::Search,
        operation_name(operation) == "charts"@ <==> operation == ProviderOperation::Charts,
        operation_name(operation) == "playlist"@ <==> operation == ProviderOperation::Playlist,
        operation_name(operation) == "podcast"@ <==> operation == ProviderOperation::Podcast,
        operation_name(operation) == "radio"@ <==> operation == ProviderOperation::Radio,
        operation_name(operation) == "library"@ <==> operation == ProviderOperation::Library,
        operation_name(operation) == "authentication"@ <==> operation
            == ProviderOperation::Authentication,
        operation_name(operation) == "lyrics"@ <==> operation == ProviderOperation::Lyrics,
{
    reveal_strlit("search");
    reveal_strlit("charts");
    reveal_strlit("playlist");
    reveal_strlit("podcast");
    reveal_strlit("radio");
    reveal_strlit("library");
    reveal_strlit("authentication");
    reveal_strlit("lyrics");
    assert("search"@.len() == 6 && "search"@[0] == 's');
    assert("charts"@.len() == 6 && "charts"@[0] == 'c');
    assert("lyrics"@.len() == 6 && "lyrics"@[0] == 'l');
    assert("podcast"@.len() == 7 && "podcast"@[0] == 'p');
    assert("library"@.len() == 7 && "library"@[0] == 'l');
    assert("playlist"@.len() == 8 && "radio"@.len() == 5 && "authentication"@.len() == 14);
}

/// What a response has too much of has its name.
pub proof fn law_a_resource_has_its_name(resource: ParseResource)
    ensures
        resource_name(resource) == "sections"@ <==> resource == ParseResource::Sections,
        resource_name(resource) == "items"@ <==> resource == ParseResource::Items,
        resource_name(resource) == "metadata runs"@ <==> resource == ParseResource::MetadataRuns,
        resource_name(resource) == "thumbnails"@ <==> resource == ParseResource::Thumbnails,
        resource_name(resource) == "warnings"@ <==> resource == ParseResource::Warnings,
{
    reveal_strlit("sections");
    reveal_strlit("items");
    reveal_strlit("metadata runs");
    reveal_strlit("thumbnails");
    reveal_strlit("warnings");
    assert("sections"@.len() == 8 && "sections"@[0] == 's');
    assert("warnings"@.len() == 8 && "warnings"@[0] == 'w');
    assert("items"@.len() == 5 && "metadata runs"@.len() == 13 && "thumbnails"@.len() == 10);
}

/// What is wrong with a queue is told with the entry that it is wrong with.
pub proof fn law_a_queue_error_names_its_entry(id: Seq<char>)
    ensures
        error_message(QueueErrorView::DuplicateLogicalId { id })
            == "logical queue contains duplicate item id `"@ + id + "`"@,
        error_message(QueueErrorView::ItemNotFound { id }) == "queue item id `"@ + id
            + "` was not found"@,
        error_message(QueueErrorView::DuplicateActiveId { id })
            == "active queue contains duplicate item id `"@ + id + "`"@,
        error_message(QueueErrorView::ActiveIdNotFound { id })
            == "active queue references unknown item id `"@ + id + "`"@,
        error_message(QueueErrorView::CurrentIdNotFound { id }) == "current queue item id `"@ + id
            + "` is not present"@,
        error_message(QueueErrorView::MissingCurrent)
            == "a non-empty queue must have a current item"@,
{
}

/// A kind of media and a choice are logged by their names.
pub proof fn law_kinds_are_logged_by_name(kind: MediaKind, value: bool)
    ensures
        kind_text(kind) == "Song"@ <==> kind == MediaKind::Song,
        kind_text(kind) == "Video"@ <==> kind == MediaKind::Video,
        kind_text(kind) == "PodcastEpisode"@ <==> kind == MediaKind::PodcastEpisode,
        bool_text(value) == "true"@ <==> value,
        bool_text(value) == "false"@ <==> !value,
{
    reveal_strlit("Song");
    reveal_strlit("Video");
    reveal_strlit("PodcastEpisode");
    reveal_strlit("true");
    reveal_strlit("false");
    assert("Song"@.len() == 4 && "Video"@.len() == 5 && "PodcastEpisode"@.len() == 14);
    assert("true"@.len() == 4 && "false"@.len() == 5);
}

/// A page of what was found holds all of it in order, is new, and is the only one; where
/// something could not be read, there is no page.
pub proof fn law_a_page_of_results_is_whole(
    made: Result<Page<SearchItem>, ProviderError>,
    results: Seq<Result<ItemView, ProviderError>>,
)
    requires
        is_search_page(made, results),
    ensures
        made is Ok <==> forall|i: int| 0 <= i < results.len() ==> (#[trigger] results[i]) is Ok,
        made matches Ok(page) ==> {
            &&& page.items@.len() == results.len()
            &&& forall|i: int|
                0 <= i < results.len() ==> #[trigger] results[i] == Ok::<ItemView, ProviderError>(
                    page.items@[i]@,
                )
            &&& page.continuation is None
            &&& !page.stale
        },
{
    law_lists_are_read_whole(results);
    if let Ok(page) = made {
        let views = crate::provider::model::search_views(page.items@);
        assert(forall|i: int| 0 <= i < views.len() ==> #[trigger] views[i] == page.items@[i]@);
    }
}

/// A page of a library holds all of it in order, is new, and is the only one; where something
/// could not be read, there is no page.
pub proof fn law_a_page_of_a_library_is_whole(
    made: Result<Page<LibraryItem>, ProviderError>,
    results: Seq<Result<ItemView, ProviderError>>,
)
    requires
        is_library_page(made, results),
    ensures
        made is Ok <==> forall|i: int| 0 <= i < results.len() ==> (#[trigger] results[i]) is Ok,
        made matches Ok(page) ==> {
            &&& page.items@.len() == results.len()
            &&& forall|i: int|
                0 <= i < results.len() ==> #[trigger] results[i] == Ok::<ItemView, ProviderError>(
                    page.items@[i]@,
                )
            &&& page.continuation is None
            &&& !page.stale
        },
{
    law_lists_are_read_whole(results);
    if let Ok(page) = made {
        let views = crate::provider::model::library_views(page.items@);
        assert(forall|i: int| 0 <= i < views.len() ==> #[trigger] views[i] == page.items@[i]@);
    }
}

/// Only media of this provider with an id that is one can be asked for.
pub proof fn law_only_own_media_are_asked_for(id: MediaIdView)
    requires
        accepts_media(id),
    ensures
        id.provider == "youtube-music"@,
        0 < utf8_len(id.video_id) <= 128,
        forall|i: int|
            0 <= i < id.video_id.len() ==> !is_space(#[trigger] id.video_id[i])
                && !is_control_char(id.video_id[i]),
{
    crate::text::lemma_utf8_len_bounds(id.video_id);
}

/// What came of a page or a list is what it held, or how it failed.
pub proof fn law_outcomes_are_what_came(
    page: Page<SearchItem>,
    items: Vec<MediaItem>,
    error: ProviderError,
)
    ensures
        page_outcome(Ok(page)) matches Ok((found, stale)) && found.len() == page.items@.len()
            && stale == page.stale,
        page_outcome(Err(error)) == Err::<(Seq<ItemView>, bool), ProviderError>(error),
        loaded_outcome(Ok(items)) matches Ok(views) && views == media_views(items@),
        loaded_outcome(Err(error)) is Err,
{
}

/// Charts that can be read are shown; where there is nothing to show but lists that can be
/// opened, those are; else there is nothing.
pub proof fn law_charts_are_shown_or_opened(document: JsonView)
    ensures
        chart_report(document) matches Ok(report) ==> chart_output(document) == Some(
            OutputView { sections: report.0, references: Seq::empty() },
        ),
        chart_report(document) matches Err(ParseError::UnusableResponse { response }) ==> (
        document_references(document) matches Ok(references) ==> chart_output(document) == Some(
            OutputView { sections: Seq::empty(), references },
        )),
        chart_report(document) matches Err(ParseError::UnusableResponse { response }) ==> (
        document_references(document) is Err ==> chart_output(document) is None),
        chart_report(document) is Err && !(chart_report(document)->Err_0 is UnusableResponse)
            ==> chart_output(document) is None,
{
}

/// A writer keeps as much as there is room for, from the start on.
pub proof fn law_a_writer_keeps_what_fits(
    whole: Seq<u8>,
    limit: int,
    held: int,
    offered: int,
)
    requires
        0 <= limit,
        0 <= held,
        0 <= offered,
    ensures
        capped(whole, limit).is_prefix_of(whole),
        whole.len() <= limit ==> capped(whole, limit) == whole,
        whole.len() > limit ==> capped(whole, limit).len() == limit,
        held + offered <= limit ==> taken_bytes(held, offered, limit) == offered,
        held <= limit < held + offered ==> held + taken_bytes(held, offered, limit) == limit,
        limit < held ==> taken_bytes(held, offered, limit) == 0,
{
}

/// Lyrics that are kept hold nothing but text and line ends, and do not begin or end with
/// white space.
pub proof fn law_lyrics_that_are_kept_are_clean(text: Seq<char>)
    requires
        is_plain_lyrics(text),
    ensures
        0 < utf8_len(text) <= 262_144,
        text.len() > 0 ==> !is_space(text[0]) && !is_space(text.last()),
        forall|i: int|
            0 <= i < text.len() ==> (#[trigger] text[i] == '\n' || !is_control_char(text[i])),
{
    law_trimming_takes_the_white_space_around(text);
    crate::lyrics::law_normalized_lyrics_are_printable(text);
}

/// Cleaned lyrics can be kept, where anything is left of them and they are not too long.
pub proof fn law_cleaned_lyrics_can_be_kept(text: Seq<char>)
    requires
        0 < utf8_len(cleaned_lyrics(text)) <= 262_144,
    ensures
        is_plain_lyrics(cleaned_lyrics(text)),
        cleaned_lyrics(cleaned_lyrics(text)) == cleaned_lyrics(text),
{
    let written = normalized_lyrics(trimmed(text));
    let cleaned = cleaned_lyrics(text);
    crate::lyrics::law_normalized_lyrics_are_printable(trimmed(text));
    crate::text::lemma_trimmed(written);
    assert forall|i: int| 0 <= i < cleaned.len() implies (#[trigger] cleaned[i] == '\n'
        || !is_control_char(cleaned[i])) by {
        assert(written.contains(cleaned[i]));
        let j = choose|j: int| 0 <= j < written.len() && written[j] == cleaned[i];
        assert(written[j] == '\n' || !is_control_char(written[j]));
    }
    crate::lyrics::lemma_printable_is_kept(cleaned);
}

/// A member of an object is found by its key, the first where there are several; nothing else
/// has members.
pub proof fn law_members_are_found_by_their_key(
    members: Seq<(Seq<char>, JsonView)>,
    key: Seq<char>,
    index: int,
)
    requires
        0 <= index < members.len(),
        members[index].0 == key,
        forall|i: int| 0 <= i < index ==> (#[trigger] members[i]).0 != key,
    ensures
        member(JsonView::Object(members), key) == Some(members[index].1),
        step(Some(JsonView::Object(members)), key) == Some(members[index].1),
        step(None, key) is None,
{
    reveal(member);
    let object = Some(members);
    let sought = Some(key);
    let holds = |i: int| object->0[i].0 == sought->0;
    assert forall|j: int| 0 <= j < index implies !#[trigger] holds(j) by {
        assert(members[j].0 != key);
    }
    crate::seqs::lemma_first_where(members.len(), holds, index);
}

/// What an object does not hold is not found, and nothing but an object is searched.
pub proof fn law_other_members_are_not_found(
    members: Seq<(Seq<char>, JsonView)>,
    key: Seq<char>,
    value: JsonView,
)
    requires
        forall|i: int| 0 <= i < members.len() ==> (#[trigger] members[i]).0 != key,
        !(value is Object),
    ensures
        member(JsonView::Object(members), key) is None,
        member(value, key) is None,
{
    reveal(member);
    let holds = |i: int| members[i].0 == key;
    crate::seqs::lemma_first_where_sound(members.len(), holds);
    if let Some(position) = crate::seqs::first_where(members.len(), holds) {
        assert(holds(position));
        assert(members[position].0 != key);
    }
}

/// A value is read as what it is, and as nothing else.
pub proof fn law_values_are_read_as_what_they_are(
    text: Seq<char>,
    items: Seq<JsonView>,
    number: u64,
)
    ensures
        text_of(Some(JsonView::Text(text))) == Some(text),
        text_of(Some(JsonView::Array(items))) is None,
        text_of(Some(JsonView::Number(Some(number)))) is None,
        text_of(None) is None,
        elements_of(Some(JsonView::Array(items))) == Some(items),
        elements_of(Some(JsonView::Text(text))) is None,
        elements_of(None) is None,
        number_of(Some(JsonView::Number(Some(number)))) == number,
        number_of(Some(JsonView::Text(text))) == 0,
        number_of(None) == 0,
{
}

/// The web is reached with or without a key.
pub proof fn law_the_web_has_two_schemes(scheme: Seq<char>)
    ensures
        is_web_scheme(scheme) <==> scheme == "http"@ || scheme == "https"@,
{
}

} // verus!
