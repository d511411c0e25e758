//! What the provider's results become.

use vstd::prelude::*;
use vstd::string::*;

use crate::domain::{texts, MediaIdView, MediaItemView, MediaKind, SearchFilter};
use crate::provider::charts::{duration_value, is_opaque_id};
use crate::provider::model::{BrowseItemView, ItemView, ProviderError, ProviderErrorKind, ProviderOperation};
use crate::provider::ytmusic::{
    album_search_item, artist_search_item, best_picture, best_url, category_at, clock_seconds,
    collected, detailed_podcast, entry_item, entry_results, episode_results, episode_search_item,
    filled_values, found_items, hydrated_sections, library_album_item, library_artist_item,
    library_playlist_item, library_podcast_item, library_song_item, picture_url,
    playlist_search_item, podcast_search_item, present, shown_duration, song_search_item,
    upstream_kind, watch_item, without_seed, AlbumResult, ArtistResult, CategoryOutcome,
    EpisodeResult, LibraryArtist, LibraryPodcast, ListedPlaylist, ListedSong, PlaylistEntry,
    PlaylistOutcome, PlaylistResult, PodcastDetail, PodcastEpisode, PodcastResult, SongResult,
    Thumbnail, UpstreamError, WatchTrack,
};
use crate::provider::charts::ReferenceView;
use crate::text::{parsed_u64, split_on, trimmed};

verus! {

/// Whether an entry of a playlist can be played. What the user uploaded always can.
pub open spec fn is_listed(entry: PlaylistEntry) -> bool {
    match entry {
        PlaylistEntry::Song(song) => song.is_available,
        PlaylistEntry::Video(video) => video.is_available,
        PlaylistEntry::Episode(episode) => episode.is_available,
        PlaylistEntry::UploadSong(_) => true,
    }
}

/// The id of an entry of a playlist.
pub open spec fn entry_id(entry: PlaylistEntry) -> Seq<char> {
    match entry {
        PlaylistEntry::Song(song) => song.video_id@,
        PlaylistEntry::Video(video) => video.video_id@,
        PlaylistEntry::Episode(episode) => episode.episode_id@,
        PlaylistEntry::UploadSong(song) => song.video_id@,
    }
}

/// Whether names are those of a list that are not blank, in order.
pub open spec fn are_the_names(names: Seq<Seq<char>>, all: Seq<Seq<char>>) -> bool {
    names == all.filter(|name: Seq<char>| trimmed(name).len() > 0)
}

proof fn lemma_filled_values(values: Seq<Seq<char>>)
    ensures
        are_the_names(filled_values(values), values),
{
    let filled = |value: Seq<char>| trimmed(value).len() != 0;
    let named = |name: Seq<char>| trimmed(name).len() > 0;
    assert(filled =~= named);
}

/// Whether a text is another one, or is missing where that one is blank.
pub open spec fn is_text_or_blank(shown: Option<Seq<char>>, text: Seq<char>) -> bool {
    match shown {
        Some(shown) => shown == text && trimmed(text).len() > 0,
        None => trimmed(text).len() == 0,
    }
}

/// Whether an item is what an entry of a playlist says.
pub open spec fn is_item_of(item: MediaItemView, entry: PlaylistEntry) -> bool {
    &&& item.id.provider == "youtube-music"@
    &&& item.id.video_id == entry_id(entry)
    &&& match entry {
        PlaylistEntry::Song(song) => {
            &&& item.kind == MediaKind::Song
            &&& item.title == song.title@
            &&& are_the_names(item.creators, texts(song.artists@))
            &&& is_text_or_blank(item.collection, song.album@)
            &&& item.duration_ms == shown_duration(song.duration@)
            &&& item.artwork_url == best_url(song.thumbnails@)
            &&& item.explicit == song.explicit
        },
        PlaylistEntry::Video(video) => {
            &&& item.kind == MediaKind::Video
            &&& item.title == video.title@
            &&& are_the_names(item.creators, seq![video.channel_name@])
            &&& item.collection is None
            &&& item.duration_ms == shown_duration(video.duration@)
            &&& item.artwork_url == best_url(video.thumbnails@)
            &&& !item.explicit
        },
        PlaylistEntry::Episode(episode) => {
            &&& item.kind == MediaKind::PodcastEpisode
            &&& item.title == episode.title@
            &&& are_the_names(item.creators, seq![episode.podcast_name@])
            &&& item.collection is None
            &&& item.duration_ms == (match episode.duration {
                Some(duration) => shown_duration(duration@),
                None => None,
            })
            &&& item.artwork_url == best_url(episode.thumbnails@)
            &&& !item.explicit
        },
        PlaylistEntry::UploadSong(song) => {
            &&& item.kind == MediaKind::Song
            &&& item.title == song.title@
            &&& are_the_names(item.creators, texts(song.artists@))
            &&& (song.album matches Some(album) ==> is_text_or_blank(item.collection, album@))
            &&& (song.album is None ==> item.collection is None)
            &&& item.duration_ms == shown_duration(song.duration@)
            &&& item.artwork_url == best_url(song.thumbnails@)
            &&& !item.explicit
        },
    }
}

proof fn lemma_item_of(entry: PlaylistEntry)
    ensures
        entry_item(entry) is Some <==> is_listed(entry),
        entry_item(entry) matches Some(made) ==> {
            &&& made is Ok <==> is_opaque_id(entry_id(entry), 128)
            &&& made matches Ok(item) ==> is_item_of(item, entry)
        },
{
    match entry {
        PlaylistEntry::Song(song) => {
            lemma_filled_values(texts(song.artists@));
        },
        PlaylistEntry::Video(video) => {
            lemma_filled_values(seq![video.channel_name@]);
        },
        PlaylistEntry::Episode(episode) => {
            lemma_filled_values(seq![episode.podcast_name@]);
        },
        PlaylistEntry::UploadSong(song) => {
            lemma_filled_values(texts(song.artists@));
        },
    }
}

/// The entries of a playlist that can be played.
pub open spec fn listed_entries(entries: Seq<PlaylistEntry>) -> Seq<PlaylistEntry> {
    entries.filter(|entry: PlaylistEntry| is_listed(entry))
}

/// A playlist becomes the items of the entries that can be played, of each of them one and
/// in their order; nothing else is in it. Where one of them has no id, that is an error.
pub proof fn law_playlists_hold_what_can_be_played(entries: Seq<PlaylistEntry>)
    ensures
        match collected(entry_results(entries)) {
            Ok(items) => {
                &&& items.len() == listed_entries(entries).len()
                &&& forall|i: int|
                    0 <= i < items.len() ==> {
                        &&& is_item_of(#[trigger] items[i], listed_entries(entries)[i])
                        &&& is_listed(listed_entries(entries)[i])
                        &&& is_opaque_id(entry_id(listed_entries(entries)[i]), 128)
                    }
            },
            Err(error) => {
                &&& error.operation == ProviderOperation::Playlist
                &&& error.kind == ProviderErrorKind::InvalidResponse
                &&& exists|i: int|
                    0 <= i < entries.len() && is_listed(#[trigger] entries[i]) && !is_opaque_id(
                        entry_id(entries[i]),
                        128,
                    )
            },
        },
    decreases entries.len(),
{
    reveal(Seq::filter);
    let all = entries.map_values(|entry: PlaylistEntry| entry_item(entry));
    if entries.len() > 0 {
        let shorter = entries.drop_last();
        law_playlists_hold_what_can_be_played(shorter);
        assert(all.drop_last() =~= shorter.map_values(|entry: PlaylistEntry| entry_item(entry)));
        let before = entry_results(shorter);
        let last = entries.last();
        assert(entries[entries.len() - 1] == last);
        if is_listed(last) {
            assert(entry_results(entries) == before.push(entry_item(last)->0));
            assert(entry_results(entries).drop_last() =~= before);
            if let Ok(item) = entry_item(last)->0 {
                lemma_item_of(last);
            }
        } else {
            assert(entry_results(entries) == before);
        }
        if let Err(error) = collected(before) {
            let i = choose|i: int|
                0 <= i < shorter.len() && is_listed(#[trigger] shorter[i]) && !is_opaque_id(
                    entry_id(shorter[i]),
                    128,
                );
            assert(entries[i] == shorter[i]);
        }
    }
}

/// The songs of the library are those that can be played, in their order.
pub proof fn law_the_library_lists_what_can_be_played(songs: Seq<ListedSong>)
    ensures
        ({
            let results = present(songs.map_values(|song: ListedSong| library_song_item(song)));
            let kept = songs.filter(|song: ListedSong| song.is_available);
            &&& results.len() == kept.len()
            &&& forall|i: int|
                0 <= i < results.len() ==> {
                    &&& kept[i].is_available
                    &&& ((#[trigger] results[i]) matches Ok(item) ==> (item matches ItemView::Playable(
                        media,
                    ) && is_item_of(media, PlaylistEntry::Song(kept[i]))))
                    &&& (results[i] is Ok <==> is_opaque_id(kept[i].video_id@, 128))
                }
        }),
    decreases songs.len(),
{
    reveal(Seq::filter);
    let all = songs.map_values(|song: ListedSong| library_song_item(song));
    if songs.len() > 0 {
        let shorter = songs.drop_last();
        law_the_library_lists_what_can_be_played(shorter);
        lemma_filled_values(texts(songs.last().artists@));
        assert(all.drop_last() =~= shorter.map_values(|song: ListedSong| library_song_item(song)));
    }
}

/// A list of results is read whole and in order, or fails with its first error.
pub proof fn law_lists_are_read_whole<V, E>(results: Seq<Result<V, E>>)
    ensures
        match collected(results) {
            Ok(values) => values.len() == results.len() && forall|i: int|
                0 <= i < results.len() ==> #[trigger] results[i] == Ok::<V, E>(values[i]),
            Err(error) => exists|i: int|
                0 <= i < results.len() && #[trigger] results[i] == Err::<V, E>(error) && forall|
                    j: int,
                |
                    0 <= j < i ==> (#[trigger] results[j]) is Ok,
        },
    decreases results.len(),
{
    if results.len() > 0 {
        let shorter = results.drop_last();
        law_lists_are_read_whole(shorter);
        assert(forall|i: int| 0 <= i < shorter.len() ==> #[trigger] shorter[i] == results[i]);
        match collected(shorter) {
            Ok(values) => {
                assert(results[results.len() - 1] == results.last());
                assert(forall|j: int|
                    0 <= j < shorter.len() ==> (#[trigger] results[j]) == shorter[j]);
            },
            Err(error) => {
                let i = choose|i: int|
                    0 <= i < shorter.len() && #[trigger] shorter[i] == Err::<V, E>(error)
                        && forall|j: int| 0 <= j < i ==> (#[trigger] shorter[j]) is Ok;
                assert(results[i] == Err::<V, E>(error));
                assert(forall|j: int| 0 <= j < i ==> (#[trigger] results[j]) == shorter[j]);
            },
        }
    }
}

/// A song that was found can be played as that song, an episode as that episode.
pub proof fn law_found_media_are_what_was_found(song: SongResult, episode: EpisodeResult)
    ensures
        song_search_item(song) is Ok <==> is_opaque_id(song.video_id@, 128),
        song_search_item(song) matches Ok(item) ==> (item matches ItemView::Playable(media) && {
            &&& media.id.provider == "youtube-music"@
            &&& media.id.video_id == song.video_id@
            &&& media.kind == MediaKind::Song
            &&& media.title == song.title@
            &&& are_the_names(media.creators, seq![song.artist@])
            &&& (song.album matches Some(album) ==> is_text_or_blank(media.collection, album@))
            &&& (song.album is None ==> media.collection is None)
            &&& media.duration_ms == shown_duration(song.duration@)
            &&& media.artwork_url == best_url(song.thumbnails@)
            &&& media.explicit == song.explicit
        }),
        episode_search_item(episode) is Ok <==> is_opaque_id(episode.episode_id@, 128),
        episode_search_item(episode) matches Ok(item) ==> (item matches ItemView::Playable(media)
            && {
            &&& media.id.provider == "youtube-music"@
            &&& media.id.video_id == episode.episode_id@
            &&& media.kind == MediaKind::PodcastEpisode
            &&& media.title == episode.title@
            &&& are_the_names(media.creators, seq![episode.channel_name@])
            &&& media.collection is None
            &&& media.duration_ms is None
            &&& media.artwork_url == best_url(episode.thumbnails@)
            &&& !media.explicit
        }),
{
    lemma_filled_values(seq![song.artist@]);
    lemma_filled_values(seq![episode.channel_name@]);
}

/// Whether an item to be opened has this id, this title and, unless it is blank, this text
/// below it.
pub open spec fn opens(
    item: BrowseItemView,
    id: Seq<char>,
    title: Seq<char>,
    below: Seq<char>,
    artwork: Option<Seq<char>>,
) -> bool {
    &&& item.id == id
    &&& item.title == title
    &&& is_text_or_blank(item.subtitle, below)
    &&& item.artwork_url == artwork
}

/// Albums, artists, podcasts and playlists that were found or are in the library can be
/// opened as what they are.
pub proof fn law_found_lists_are_what_was_found(
    album: AlbumResult,
    artist: ArtistResult,
    podcast: PodcastResult,
    playlist: ListedPlaylist,
    library_artist: LibraryArtist,
)
    ensures
        album_search_item(album) matches Ok(item) ==> (item matches ItemView::Album(found)
            && opens(found, album.album_id@, album.title@, album.artist@, best_url(album.thumbnails@))),
        library_album_item(album) matches Ok(item) ==> (item matches ItemView::Album(found)
            && opens(found, album.album_id@, album.title@, album.artist@, best_url(album.thumbnails@))),
        artist_search_item(artist) matches Ok(item) ==> (item matches ItemView::Artist(found)
            && found.id == artist.browse_id@ && found.title == artist.artist@ && found.artwork_url
            == best_url(artist.thumbnails@)),
        library_artist_item(library_artist) matches Ok(item) ==> (item matches ItemView::Artist(
            found,
        ) && opens(
            found,
            library_artist.channel_id@,
            library_artist.artist@,
            library_artist.byline@,
            None,
        )),
        podcast_search_item(podcast) matches Ok(item) ==> (item matches ItemView::Podcast(found)
            && opens(
            found,
            podcast.podcast_id@,
            podcast.title@,
            podcast.publisher@,
            best_url(podcast.thumbnails@),
        )),
        playlist_search_item(PlaylistResult::Featured(playlist)) matches Ok(item) ==> (
        item matches ItemView::Playlist(found) && opens(
            found,
            playlist.playlist_id@,
            playlist.title@,
            playlist.author@,
            best_url(playlist.thumbnails@),
        )),
        playlist_search_item(PlaylistResult::Community(playlist)) == playlist_search_item(
            PlaylistResult::Featured(playlist),
        ),
        playlist_search_item(PlaylistResult::Podcast(podcast)) == podcast_search_item(podcast),
        playlist_search_item(PlaylistResult::Unknown) is Err,
        library_playlist_item(playlist) matches Ok(item) ==> (item matches ItemView::Playlist(
            found,
        ) && opens(
            found,
            playlist.playlist_id@,
            playlist.title@,
            playlist.author@,
            best_url(playlist.thumbnails@),
        )),
{
}

/// What is found is an item exactly when its id can be asked for.
pub proof fn law_ids_decide_what_is_found(
    album: AlbumResult,
    artist: ArtistResult,
    podcast: PodcastResult,
    playlist: ListedPlaylist,
    library_artist: LibraryArtist,
    library_podcast: LibraryPodcast,
)
    ensures
        album_search_item(album) is Ok <==> is_opaque_id(album.album_id@, 512),
        library_album_item(album) is Ok <==> is_opaque_id(album.album_id@, 512),
        artist_search_item(artist) is Ok <==> is_opaque_id(artist.browse_id@, 512),
        library_artist_item(library_artist) is Ok <==> is_opaque_id(library_artist.channel_id@, 512),
        podcast_search_item(podcast) is Ok <==> is_opaque_id(podcast.podcast_id@, 512),
        library_podcast_item(library_podcast) is Ok <==> is_opaque_id(
            library_podcast.podcast_id@,
            512,
        ),
        library_playlist_item(playlist) is Ok <==> is_opaque_id(playlist.playlist_id@, 512),
        playlist_search_item(PlaylistResult::Featured(playlist)) is Ok <==> is_opaque_id(
            playlist.playlist_id@,
            512,
        ),
{
}

/// The tracks of a radio are songs of their author.
pub proof fn law_radio_tracks_are_songs(track: WatchTrack)
    ensures
        watch_item(track) is Ok <==> is_opaque_id(track.video_id@, 128),
        watch_item(track) matches Ok(item) ==> {
            &&& item.id.provider == "youtube-music"@
            &&& item.id.video_id == track.video_id@
            &&& item.kind == MediaKind::Song
            &&& item.title == track.title@
            &&& are_the_names(item.creators, seq![track.author@])
            &&& item.collection is None
            &&& item.duration_ms == shown_duration(track.duration@)
            &&& item.artwork_url == best_url(track.thumbnails@)
            &&& !item.explicit
        },
{
    lemma_filled_values(seq![track.author@]);
}

/// A podcast has all of its episodes, in their order and with its own creators, under the
/// id that was asked for.
pub proof fn law_podcasts_have_their_episodes(id: Seq<char>, detail: PodcastDetail)
    ensures
        detailed_podcast(id, detail) matches Ok(podcast) ==> {
            &&& podcast.id == id
            &&& podcast.title == detail.title@
            &&& are_the_names(podcast.creators, texts(detail.channels@))
            &&& podcast.episodes.len() == detail.episodes@.len()
            &&& forall|i: int|
                0 <= i < podcast.episodes.len() ==> {
                    let episode = detail.episodes@[i];
                    &&& (#[trigger] podcast.episodes[i]).id.video_id == episode.episode_id@
                    &&& podcast.episodes[i].kind == MediaKind::PodcastEpisode
                    &&& podcast.episodes[i].title == episode.title@
                    &&& podcast.episodes[i].creators == podcast.creators
                    &&& is_text_or_blank(podcast.episodes[i].collection, detail.title@)
                    &&& podcast.episodes[i].duration_ms == shown_duration(episode.total_duration@)
                    &&& podcast.episodes[i].artwork_url == best_url(episode.thumbnails@)
                }
        },
{
    law_lists_are_read_whole(episode_results(detail));
    lemma_filled_values(texts(detail.channels@));
    if let Ok(podcast) = detailed_podcast(id, detail) {
        let results = episode_results(detail);
        assert forall|i: int| 0 <= i < podcast.episodes.len() implies {
            let episode = detail.episodes@[i];
            &&& (#[trigger] podcast.episodes[i]).id.video_id == episode.episode_id@
            &&& podcast.episodes[i].kind == MediaKind::PodcastEpisode
            &&& podcast.episodes[i].title == episode.title@
            &&& podcast.episodes[i].creators == podcast.creators
            &&& is_text_or_blank(podcast.episodes[i].collection, detail.title@)
            &&& podcast.episodes[i].duration_ms == shown_duration(episode.total_duration@)
            &&& podcast.episodes[i].artwork_url == best_url(episode.thumbnails@)
        } by {
            assert(results[i] is Ok);
        }
    }
}

/// The picture of an item is the largest of those with an address.
pub proof fn law_artwork_is_the_largest_picture(thumbnails: Seq<Thumbnail>)
    requires
        forall|i: int|
            0 <= i < thumbnails.len() ==> (#[trigger] thumbnails[i]).width * thumbnails[i].height
                <= u64::MAX,
    ensures
        match best_url(thumbnails) {
            Some(url) => exists|i: int|
                {
                    &&& 0 <= i < thumbnails.len()
                    &&& picture_url(#[trigger] thumbnails[i]) == Some(url)
                    &&& forall|j: int|
                        0 <= j < thumbnails.len() && picture_url(#[trigger] thumbnails[j]) is Some
                            ==> thumbnails[j].width * thumbnails[j].height <= thumbnails[i].width
                            * thumbnails[i].height
                },
            None => forall|j: int|
                0 <= j < thumbnails.len() ==> picture_url(#[trigger] thumbnails[j]) is None,
        },
{
    lemma_best_picture(thumbnails);
}

proof fn lemma_best_picture(thumbnails: Seq<Thumbnail>)
    requires
        forall|i: int|
            0 <= i < thumbnails.len() ==> (#[trigger] thumbnails[i]).width * thumbnails[i].height
                <= u64::MAX,
    ensures
        match best_picture(thumbnails) {
            Some(best) => {
                &&& exists|i: int|
                    {
                        &&& 0 <= i < thumbnails.len()
                        &&& picture_url(#[trigger] thumbnails[i]) == Some(best.1)
                        &&& best.0 == thumbnails[i].width * thumbnails[i].height
                    }
                &&& forall|j: int|
                    0 <= j < thumbnails.len() && picture_url(#[trigger] thumbnails[j]) is Some
                        ==> thumbnails[j].width * thumbnails[j].height <= best.0
            },
            None => forall|j: int|
                0 <= j < thumbnails.len() ==> picture_url(#[trigger] thumbnails[j]) is None,
        },
    decreases thumbnails.len(),
{
    if thumbnails.len() > 0 {
        let shorter = thumbnails.drop_last();
        assert forall|i: int| 0 <= i < shorter.len() implies (#[trigger] shorter[i]).width
            * shorter[i].height <= u64::MAX && shorter[i] == thumbnails[i] by {
            assert(thumbnails[i].width * thumbnails[i].height <= u64::MAX);
        }
        lemma_best_picture(shorter);
        let last = thumbnails[thumbnails.len() - 1];
        assert(last.width * last.height <= u64::MAX);
        if let Some(best) = best_picture(shorter) {
            let i = choose|i: int|
                {
                    &&& 0 <= i < shorter.len()
                    &&& picture_url(#[trigger] shorter[i]) == Some(best.1)
                    &&& best.0 == shorter[i].width * shorter[i].height
                };
            assert(picture_url(thumbnails[i]) == Some(best.1));
        }
        assert forall|j: int| 0 <= j < shorter.len() implies picture_url(
            #[trigger] thumbnails[j],
        ) == picture_url(shorter[j]) by {}
    }
}

/// A clock counts its last part in seconds, the one before in minutes and the one before
/// that in hours.
pub proof fn law_clocks_count_hours_minutes_and_seconds(
    hours: Seq<char>,
    minutes: Seq<char>,
    seconds: Seq<char>,
    h: u64,
    m: u64,
    s: u64,
)
    requires
        parsed_u64(hours) == Some(h),
        parsed_u64(minutes) == Some(m),
        parsed_u64(seconds) == Some(s),
    ensures
        clock_seconds(seq![seconds]) == Some(s as int),
        s < 60 ==> clock_seconds(seq![minutes, seconds]) == Some(m * 60 + s),
        s >= 60 ==> clock_seconds(seq![minutes, seconds]) is None,
        m < 60 && s < 60 ==> clock_seconds(seq![hours, minutes, seconds]) == Some(
            h * 3_600 + m * 60 + s,
        ),
        m >= 60 || s >= 60 ==> clock_seconds(seq![hours, minutes, seconds]) is None,
{
    reveal_with_fuel(clock_seconds, 4);
    assert(seq![seconds].drop_last() =~= Seq::<Seq<char>>::empty());
    assert(seq![minutes, seconds].drop_last() =~= seq![minutes]);
    assert(seq![minutes].drop_last() =~= Seq::<Seq<char>>::empty());
    assert(seq![hours, minutes, seconds].drop_last() =~= seq![hours, minutes]);
    assert(seq![hours, minutes].drop_last() =~= seq![hours]);
    assert(seq![hours].drop_last() =~= Seq::<Seq<char>>::empty());
}

/// A duration that the charts show means the same everywhere: so many thousands of
/// milliseconds as its clock counts seconds.
pub proof fn law_durations_mean_the_same_everywhere(text: Seq<char>)
    requires
        text == trimmed(text),
        duration_value(text) is Some,
    ensures
        shown_duration(text) == duration_value(text),
        clock_seconds(split_on(text, ':')) matches Some(seconds) && duration_value(text)
            == Some((seconds * 1_000) as u64),
{
    let parts = split_on(text, ':');
    let numbers = parts.map_values(|part: Seq<char>| parsed_u64(part));
    assert(numbers.len() == parts.len());
    assert(forall|i: int| 0 <= i < parts.len() ==> #[trigger] numbers[i] == parsed_u64(parts[i]));
    if parts.len() == 2 {
        law_clocks_count_hours_minutes_and_seconds(
            parts[0],
            parts[0],
            parts[1],
            numbers[0]->0,
            numbers[0]->0,
            numbers[1]->0,
        );
        assert(parts =~= seq![parts[0], parts[1]]);
    } else {
        law_clocks_count_hours_minutes_and_seconds(
            parts[0],
            parts[1],
            parts[2],
            numbers[0]->0,
            numbers[1]->0,
            numbers[2]->0,
        );
        assert(parts =~= seq![parts[0], parts[1], parts[2]]);
    }
}

/// A radio does not play what it was started from, and leaves out nothing else.
pub proof fn law_radios_leave_out_their_seed(items: Seq<MediaItemView>, seed: MediaIdView)
    ensures
        forall|i: int|
            0 <= i < without_seed(items, seed).len() ==> {
                &&& (#[trigger] without_seed(items, seed)[i]).id != seed
                &&& items.contains(without_seed(items, seed)[i])
            },
        forall|i: int|
            0 <= i < items.len() && (#[trigger] items[i]).id != seed ==> without_seed(
                items,
                seed,
            ).contains(items[i]),
        (forall|i: int| 0 <= i < items.len() ==> (#[trigger] items[i]).id != seed)
            ==> without_seed(items, seed) == items,
    decreases items.len(),
{
    reveal(Seq::filter);
    if items.len() > 0 {
        let shorter = items.drop_last();
        law_radios_leave_out_their_seed(shorter, seed);
        let before = without_seed(shorter, seed);
        let all = without_seed(items, seed);
        let last = items[items.len() - 1];
        assert(forall|i: int| 0 <= i < shorter.len() ==> #[trigger] items[i] == shorter[i]);
        if last.id != seed {
            assert(all == before.push(last));
            assert(all[before.len() as int] == last);
        } else {
            assert(all == before);
        }
        assert forall|i: int| 0 <= i < all.len() implies items.contains(#[trigger] all[i]) by {
            if i < before.len() {
                assert(shorter.contains(before[i]));
                let j = choose|j: int| 0 <= j < shorter.len() && shorter[j] == before[i];
                assert(items[j] == all[i]);
            }
        }
        assert forall|i: int| 0 <= i < items.len() && (#[trigger] items[i]).id != seed implies all.contains(
        items[i]) by {
            if i < shorter.len() {
                assert(shorter[i].id != seed);
                assert(before.contains(shorter[i]));
                let j = choose|j: int| 0 <= j < before.len() && before[j] == shorter[i];
                assert(all[j] == items[i]);
            }
        }
        if forall|i: int| 0 <= i < items.len() ==> (#[trigger] items[i]).id != seed {
            assert(forall|i: int| 0 <= i < shorter.len() ==> (#[trigger] shorter[i]).id != seed) by {
                assert(forall|i: int|
                    0 <= i < shorter.len() ==> #[trigger] shorter[i] == items[i]);
            }
            assert(last.id != seed);
            assert(shorter.push(last) =~= items);
        }
    }
}

/// A search over everything asks for each category once: for songs first, and for nothing
/// when all were asked for.
pub proof fn law_every_category_is_asked_for_once(filter: SearchFilter)
    ensures
        filter != SearchFilter::All ==> exists|position: int|
            0 <= position < 6 && #[trigger] category_at(position) == Some(filter),
        forall|first: int, second: int|
            0 <= first < second < 6 ==> #[trigger] category_at(first) != #[trigger] category_at(
                second,
            ),
        forall|position: int|
            #[trigger] category_at(position) is Some <==> 0 <= position < 6,
        category_at(0) == Some(SearchFilter::Songs),
        forall|position: int| #[trigger] category_at(position) != Some(SearchFilter::All),
{
    assert(category_at(0) is Some && category_at(1) is Some && category_at(2) is Some);
    assert(category_at(3) is Some && category_at(4) is Some && category_at(5) is Some);
}

/// What a search over everything found is what its categories found, one behind the other;
/// a category that failed adds nothing.
pub proof fn law_found_items_follow_the_categories(
    outcomes: Seq<CategoryOutcome>,
    last: CategoryOutcome,
)
    ensures
        found_items(Seq::empty()).len() == 0,
        last matches Ok(page) ==> found_items(outcomes.push(last)) == found_items(outcomes)
            + page.0,
        last is Err ==> found_items(outcomes.push(last)) == found_items(outcomes),
{
    assert(outcomes.push(last).drop_last() =~= outcomes);
}

/// The playlists of the charts become sections in their order, each under the title it was
/// referred to with.
pub proof fn law_chart_playlists_keep_their_order(
    references: Seq<ReferenceView>,
    outcomes: Seq<PlaylistOutcome>,
)
    requires
        forall|i: int|
            0 <= i < outcomes.len() ==> ((#[trigger] outcomes[i]) matches Ok(items) && items.len()
                > 0),
    ensures
        hydrated_sections(references, outcomes).len() == outcomes.len(),
        forall|i: int|
            0 <= i < outcomes.len() ==> {
                &&& (#[trigger] hydrated_sections(references, outcomes)[i]).title
                    == references[i].title
                &&& outcomes[i] == Ok::<Seq<MediaItemView>, ProviderError>(
                    hydrated_sections(references, outcomes)[i].items,
                )
            },
    decreases outcomes.len(),
{
    if outcomes.len() > 0 {
        let shorter = outcomes.drop_last();
        assert forall|i: int| 0 <= i < shorter.len() implies ((#[trigger] shorter[i]) matches Ok(
            items,
        ) && items.len() > 0) by {
            assert(shorter[i] == outcomes[i]);
        }
        law_chart_playlists_keep_their_order(references, shorter);
        assert(outcomes[outcomes.len() - 1] == outcomes.last());
    }
}

/// Which failures are told apart: what needs signing in, what is not there, what was not
/// understood, and the rest.
pub proof fn law_failures_are_told_apart(error: UpstreamError)
    ensures
        upstream_kind(error) == ProviderErrorKind::AuthenticationRequired <==> {
            ||| error == UpstreamError::Header
            ||| error == UpstreamError::OAuthTokenExpired
            ||| error == UpstreamError::ErrorCode(401)
            ||| error == UpstreamError::ErrorCode(403)
        },
        upstream_kind(error) == ProviderErrorKind::NotFound <==> error == UpstreamError::ErrorCode(
            404,
        ),
        upstream_kind(error) == ProviderErrorKind::InvalidResponse <==> {
            ||| error == UpstreamError::JsonParsing
            ||| error == UpstreamError::InvalidResponse
            ||| error == UpstreamError::UnableToSerializeOAuthToken
            ||| error == UpstreamError::UnableToParseConfiguration
            ||| error == UpstreamError::ApiStatusFailed
        },
        upstream_kind(error) == ProviderErrorKind::Unavailable <==> {
            ||| error == UpstreamError::Other
            ||| (error matches UpstreamError::ErrorCode(code) && code != 401 && code != 403 && code
                != 404)
        },
{
}

} // verus!
