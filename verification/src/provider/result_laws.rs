//! What results tell beside what they are.

use vstd::prelude::*;
use vstd::string::*;

use crate::domain::{texts, ChartSectionView, MediaItemView};
use crate::provider::model::{BrowseItemView, ItemView, ProviderError, ProviderErrorKind, ProviderOperation};
use crate::provider::queries::OutputView;
use crate::provider::ytmusic::{
    album_item, artist_item, best_url, collected, detailed_podcast, episode_item, episode_results,
    filled, filled_values, first_chart_error, hydrated_sections, joined_names, library_artist_item,
    library_podcast_item, listed_song_item, merged_search, picture_url, playlist_item,
    podcast_episode_item, podcast_item, resolved_charts, shown_duration, song_item, watch_item,
    AlbumResult, ArtistResult, CategoryOutcome, EpisodeResult, LibraryArtist, LibraryPodcast,
    ListedPlaylist, ListedSong, PlaylistOutcome, PodcastDetail, PodcastEpisode, PodcastResult,
    SongResult, Thumbnail, WatchTrack,
};
use crate::text::trimmed;
use crate::web_url::parsed_url;

verus! {

/// A value that is blank is none; any other is kept as it is.
pub proof fn law_blank_values_are_none(value: Seq<char>)
    ensures
        trimmed(value).len() == 0 ==> filled(value) is None,
        trimmed(value).len() > 0 ==> filled(value) == Some(value),
{
}

/// A list that was found tells who made it, where that is known, and shows its largest
/// picture.
pub proof fn law_lists_tell_who_made_them(
    album: AlbumResult,
    artist: ArtistResult,
    podcast: PodcastResult,
    playlist: ListedPlaylist,
    operation: ProviderOperation,
)
    ensures
        album_item(album, operation) matches Ok(item) ==> item.id == album.album_id@ && item.title
            == album.title@ && item.subtitle == filled(album.artist@) && item.artwork_url
            == best_url(album.thumbnails@),
        podcast_item(podcast, operation) matches Ok(item) ==> item.id == podcast.podcast_id@
            && item.title == podcast.title@ && item.subtitle == filled(podcast.publisher@)
            && item.artwork_url == best_url(podcast.thumbnails@),
        playlist_item(playlist, operation) matches Ok(item) ==> item.id == playlist.playlist_id@
            && item.title == playlist.title@ && item.subtitle == filled(playlist.author@)
            && item.artwork_url == best_url(playlist.thumbnails@),
        artist_item(artist) matches Ok(item) ==> item.id == artist.browse_id@ && item.title
            == artist.artist@ && item.artwork_url == best_url(artist.thumbnails@) && (
        artist.subscribers matches Some(subscribers) ==> item.subtitle == filled(subscribers@)) && (
        artist.subscribers is None ==> item.subtitle is None),
{
}

/// What a library lists tells who made it too.
pub proof fn law_a_library_tells_who_made_it(artist: LibraryArtist, podcast: LibraryPodcast)
    ensures
        library_artist_item(artist) matches Ok(item) ==> (item matches ItemView::Artist(listed)
            && listed.title == artist.artist@ && listed.subtitle == filled(artist.byline@)
            && listed.artwork_url is None),
        library_podcast_item(podcast) matches Ok(item) ==> (item matches ItemView::Podcast(listed)
            && {
            let makers = filled_values(texts(podcast.channels@));
            &&& listed.title == podcast.title@
            &&& listed.artwork_url == best_url(podcast.thumbnails@)
            &&& makers.len() == 0 ==> listed.subtitle is None
            &&& makers.len() == 1 ==> listed.subtitle == Some(makers[0])
            &&& makers.len() == 2 ==> listed.subtitle == Some(makers[0] + ", "@ + makers[1])
        }),
{
    reveal_with_fuel(joined_names, 3);
    let makers = filled_values(texts(podcast.channels@));
    if makers.len() == 2 {
        assert(makers.drop_last()[0] == makers[0]);
    }
}

/// What can be played tells its album, how long it is and whether it is explicit, where the
/// result does.
pub proof fn law_media_tell_what_is_known(
    song: SongResult,
    listed: ListedSong,
    episode: EpisodeResult,
    track: WatchTrack,
    operation: ProviderOperation,
)
    ensures
        song_item(song) matches Ok(item) ==> {
            &&& item.title == song.title@
            &&& item.explicit == song.explicit
            &&& item.duration_ms == shown_duration(song.duration@)
            &&& item.artwork_url == best_url(song.thumbnails@)
            &&& song.album matches Some(album) ==> item.collection == filled(album@)
            &&& song.album is None ==> item.collection is None
        },
        listed_song_item(listed, operation) matches Ok(item) ==> {
            &&& item.title == listed.title@
            &&& item.explicit == listed.explicit
            &&& item.duration_ms == shown_duration(listed.duration@)
            &&& item.artwork_url == best_url(listed.thumbnails@)
            &&& item.collection == filled(listed.album@)
        },
        episode_item(episode) matches Ok(item) ==> {
            &&& item.title == episode.title@
            &&& !item.explicit
            &&& item.duration_ms is None
            &&& item.collection is None
            &&& item.artwork_url == best_url(episode.thumbnails@)
        },
        watch_item(track) matches Ok(item) ==> {
            &&& item.title == track.title@
            &&& !item.explicit
            &&& item.duration_ms == shown_duration(track.duration@)
            &&& item.collection is None
            &&& item.artwork_url == best_url(track.thumbnails@)
        },
{
}

/// A podcast tells what it is about and who makes it; its episodes belong to it.
pub proof fn law_a_podcast_tells_what_it_is_about(
    id: Seq<char>,
    detail: PodcastDetail,
    episode: PodcastEpisode,
    creators: Seq<Seq<char>>,
    operation: ProviderOperation,
)
    ensures
        detailed_podcast(id, detail) matches Ok(podcast) ==> {
            &&& podcast.id == id
            &&& podcast.title == detail.title@
            &&& podcast.description == filled(detail.description@)
            &&& podcast.creators == filled_values(texts(detail.channels@))
            &&& podcast.artwork_url is None
            &&& podcast.episodes.len() == detail.episodes@.len()
        },
        podcast_episode_item(episode, creators, Some(detail.title@), operation) matches Ok(item)
            ==> {
            &&& item.title == episode.title@
            &&& item.creators == creators
            &&& item.collection == filled(detail.title@)
            &&& item.duration_ms == shown_duration(episode.total_duration@)
            &&& item.artwork_url == best_url(episode.thumbnails@)
            &&& !item.explicit
        },
{
    crate::provider::item_laws::law_lists_are_read_whole(episode_results(detail));
}

/// A picture is shown where its address is one of the web and names a host.
pub proof fn law_pictures_are_on_the_web(thumbnail: Thumbnail)
    ensures
        picture_url(thumbnail) matches Some(shown) ==> (parsed_url(thumbnail.url@) matches Some(url)
            && (url.scheme == "http"@ || url.scheme == "https"@) && url.has_host && url.text
            == shown),
        parsed_url(thumbnail.url@) matches Some(url) ==> ((url.scheme == "http"@ || url.scheme
            == "https"@) && url.has_host ==> picture_url(thumbnail) == Some(url.text)),
{
}

/// A search is old where any part of it is, and fails only where all of it does.
pub proof fn law_a_search_is_as_old_as_its_parts(outcomes: Seq<CategoryOutcome>)
    ensures
        merged_search(outcomes) is Ok <==> exists|i: int|
            0 <= i < outcomes.len() && (#[trigger] outcomes[i]) is Ok,
        merged_search(outcomes) matches Ok((items, stale)) ==> (stale <==> exists|i: int|
            0 <= i < outcomes.len() && (#[trigger] outcomes[i]) is Ok && outcomes[i]->Ok_0.1),
{
}

proof fn lemma_first_chart_error(outcomes: Seq<PlaylistOutcome>, index: int)
    requires
        0 <= index < outcomes.len(),
        outcomes[index] is Err,
        forall|i: int| 0 <= i < index ==> (#[trigger] outcomes[i]) is Ok,
    ensures
        first_chart_error(outcomes) matches Some(error) && error.kind
            == outcomes[index]->Err_0.kind && error.operation == ProviderOperation::Charts,
    decreases outcomes.len(),
{
    let shorter = outcomes.drop_last();
    assert(forall|i: int| 0 <= i < shorter.len() ==> shorter[i] == outcomes[i]);
    if index < shorter.len() {
        lemma_first_chart_error(shorter, index);
    } else {
        lemma_no_chart_error(shorter);
    }
}

proof fn lemma_no_chart_error(outcomes: Seq<PlaylistOutcome>)
    requires
        forall|i: int| 0 <= i < outcomes.len() ==> (#[trigger] outcomes[i]) is Ok,
    ensures
        first_chart_error(outcomes) is None,
    decreases outcomes.len(),
{
    if outcomes.len() > 0 {
        let shorter = outcomes.drop_last();
        assert(forall|i: int| 0 <= i < shorter.len() ==> shorter[i] == outcomes[i]);
        assert(outcomes[outcomes.len() - 1] is Ok);
        lemma_no_chart_error(shorter);
    }
}

/// Charts are the sections that came with them, else those of the lists that were opened; and
/// where there are none, the first failure is told as one of the charts.
pub proof fn law_charts_are_what_came_of_them(
    output: OutputView,
    outcomes: Seq<PlaylistOutcome>,
    index: int,
)
    requires
        0 <= index < outcomes.len(),
        outcomes[index] is Err,
        forall|i: int| 0 <= i < index ==> (#[trigger] outcomes[i]) is Ok,
    ensures
        ({
            let hydrated = hydrated_sections(output.references, outcomes);
            let charts = resolved_charts(output, outcomes);
            &&& output.sections.len() > 0 ==> (charts matches Ok(sections) && sections
                == output.sections)
            &&& output.sections.len() == 0 && hydrated.len() > 0 ==> (charts matches Ok(sections)
                && sections == hydrated)
            &&& output.sections.len() == 0 && hydrated.len() == 0 ==> (charts matches Err(error)
                && error.operation == ProviderOperation::Charts && error.kind
                == outcomes[index]->Err_0.kind)
        }),
{
    lemma_first_chart_error(outcomes, index);
}

/// Where nothing failed and nothing came, the charts could not be read.
pub proof fn law_charts_of_nothing_are_invalid(output: OutputView, outcomes: Seq<PlaylistOutcome>)
    requires
        forall|i: int| 0 <= i < outcomes.len() ==> (#[trigger] outcomes[i]) is Ok,
        output.sections.len() == 0,
        hydrated_sections(output.references, outcomes).len() == 0,
    ensures
        resolved_charts(output, outcomes) matches Err(error) && error.operation
            == ProviderOperation::Charts && error.kind == ProviderErrorKind::InvalidResponse,
{
    lemma_no_chart_error(outcomes);
}

} // verus!
