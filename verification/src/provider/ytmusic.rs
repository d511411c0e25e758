//! Turns what YouTube Music answers into the player's own values, and decides
//! how several answers become one.

use vstd::prelude::*;
use vstd::string::*;

use crate::domain::{
    clone_texts, media_views, optional_text, section_views, texts, ChartSection, ChartSectionView,
    MediaId, MediaIdView, MediaItem, MediaItemView, MediaKind, SearchFilter,
};
use crate::provider::charts::{check_opaque_id, is_opaque_id, ChartPlaylistReference, ReferenceView,
    MAX_VIDEO_ID_BYTES};
use crate::provider::model::{library_views, search_views, AuthenticationState, BrowseItem,
    BrowseItemView, ItemView, LibraryItem, LibrarySection, Page, PlainLyrics, Podcast, PodcastView,
    ProviderError, ProviderErrorKind, ProviderOperation, SearchItem};
use crate::provider::queries::{ChartsQueryOutput, OutputView};
use crate::text::{parse_u64, parsed_u64, same_text, split, split_on, trim, trimmed};
use crate::web_url::{has_web_scheme, is_web_scheme, parse_url, parsed_url};

verus! {

/// The provider's name in media identities.
pub const YOUTUBE_MUSIC_PROVIDER: &'static str = "youtube-music";

/// Maximum encoded byte length of an opaque identifier.
pub const MAX_OPAQUE_ID_BYTES: usize = 512;

/// The error for a response that cannot be used.
pub open spec fn invalid(operation: ProviderOperation) -> ProviderError {
    ProviderError { operation, kind: ProviderErrorKind::InvalidResponse }
}

pub fn invalid_response(operation: ProviderOperation) -> (error: ProviderError)
    ensures
        error == invalid(operation),
{
    ProviderError::new(operation, ProviderErrorKind::InvalidResponse)
}

pub fn unsupported(operation: ProviderOperation) -> (error: ProviderError)
    ensures
        error == (ProviderError { operation, kind: ProviderErrorKind::Unsupported }),
{
    ProviderError::new(operation, ProviderErrorKind::Unsupported)
}

pub fn unavailable(operation: ProviderOperation) -> (error: ProviderError)
    ensures
        error == (ProviderError { operation, kind: ProviderErrorKind::Unavailable }),
{
    ProviderError::new(operation, ProviderErrorKind::Unavailable)
}

pub fn authentication_required() -> (error: ProviderError)
    ensures
        error == (ProviderError {
            operation: ProviderOperation::Library,
            kind: ProviderErrorKind::AuthenticationRequired,
        }),
{
    ProviderError::new(ProviderOperation::Library, ProviderErrorKind::AuthenticationRequired)
}

/// Checks an identifier: not empty, not too long, and without white space or
/// control characters.
pub fn validate_id(value: &str, max_bytes: usize, operation: ProviderOperation) -> (checked: Result<
    (),
    ProviderError,
>)
    ensures
        checked == if is_opaque_id(value@, max_bytes as int) {
            Ok::<(), ProviderError>(())
        } else {
            Err(invalid(operation))
        },
{
    if check_opaque_id(value, max_bytes) {
        Ok(())
    } else {
        Err(invalid_response(operation))
    }
}

pub fn validate_opaque_id(value: &str, operation: ProviderOperation) -> (checked: Result<
    (),
    ProviderError,
>)
    ensures
        checked == if is_opaque_id(value@, MAX_OPAQUE_ID_BYTES as int) {
            Ok::<(), ProviderError>(())
        } else {
            Err(invalid(operation))
        },
{
    validate_id(value, MAX_OPAQUE_ID_BYTES, operation)
}

pub fn validate_media_id(value: &str, operation: ProviderOperation) -> (checked: Result<
    (),
    ProviderError,
>)
    ensures
        checked == if is_opaque_id(value@, MAX_VIDEO_ID_BYTES as int) {
            Ok::<(), ProviderError>(())
        } else {
            Err(invalid(operation))
        },
{
    validate_id(value, MAX_VIDEO_ID_BYTES, operation)
}

/// `value`, unless it is blank.
pub open spec fn filled(value: Seq<char>) -> Option<Seq<char>> {
    if trimmed(value).len() == 0 {
        None
    } else {
        Some(value)
    }
}

/// `value`, unless it is blank.
pub fn nonempty(value: String) -> (result: Option<String>)
    ensures
        optional_text(result) == filled(value@),
{
    if trim(value.as_str()).as_str().is_empty() {
        None
    } else {
        Some(value)
    }
}

/// `value`, unless it is absent or blank.
pub open spec fn optional_filled(value: Option<String>) -> Option<Seq<char>> {
    match value {
        Some(text) => filled(text@),
        None => None,
    }
}

fn optional_nonempty(value: &Option<String>) -> (result: Option<String>)
    ensures
        optional_text(result) == optional_filled(*value),
{
    match value {
        Some(text) => nonempty(text.clone()),
        None => None,
    }
}

/// The values that are not blank.
pub open spec fn filled_values(values: Seq<Seq<char>>) -> Seq<Seq<char>> {
    values.filter(|value: Seq<char>| trimmed(value).len() != 0)
}

/// The values that are not blank.
pub fn nonempty_values(values: &Vec<String>) -> (result: Vec<String>)
    ensures
        texts(result@) == filled_values(texts(values@)),
{
    let ghost all = texts(values@);
    let ghost keep = |value: Seq<char>| trimmed(value).len() != 0;
    let mut result: Vec<String> = Vec::new();
    let mut index: usize = 0;
    proof {
        reveal(Seq::filter);
        assert(all.take(0) =~= Seq::empty());
        assert(texts(result@) =~= Seq::empty());
    }
    while index < values.len()
        invariant
            index <= values.len(),
            all == texts(values@),
            keep == (|value: Seq<char>| trimmed(value).len() != 0),
            texts(result@) == all.take(index as int).filter(keep),
        decreases values.len() - index,
    {
        proof {
            reveal(Seq::filter);
            assert(all.take(index + 1).drop_last() =~= all.take(index as int));
            assert(all[index as int] == values@[index as int]@);
        }
        if let Some(value) = nonempty(values[index].clone()) {
            let ghost before = result@;
            result.push(value);
            assert(texts(result@) =~= texts(before).push(value@));
        }
        index = index + 1;
    }
    assert(all.take(all.len() as int) =~= all);
    result
}

/// One value as a list, unless it is blank.
fn nonempty_value(value: &String) -> (result: Vec<String>)
    ensures
        texts(result@) == filled_values(seq![value@]),
{
    let mut values: Vec<String> = Vec::new();
    values.push(value.clone());
    assert(texts(values@) =~= seq![value@]);
    nonempty_values(&values)
}

/// The seconds that up to three numbers, from hours or minutes down to
/// seconds, stand for: all but the first are below sixty.
pub open spec fn clock_seconds(parts: Seq<Seq<char>>) -> Option<int>
    decreases parts.len(),
{
    if parts.len() == 0 {
        Some(0)
    } else {
        match (clock_seconds(parts.drop_last()), parsed_u64(parts.last())) {
            (Some(before), Some(component)) => if parts.len() > 1 && component >= 60 {
                None
            } else {
                Some(before * 60 + component)
            },
            _ => None,
        }
    }
}

/// The milliseconds that a shown duration stands for.
pub open spec fn shown_duration(value: Seq<char>) -> Option<u64> {
    let parts = split_on(trimmed(value), ':');
    if parts.len() > 3 {
        None
    } else {
        match clock_seconds(parts) {
            Some(seconds) => if seconds * 1_000 <= u64::MAX {
                Some((seconds * 1_000) as u64)
            } else {
                None
            },
            None => None,
        }
    }
}

/// More parts stand for no fewer seconds.
proof fn lemma_clock_seconds_grow(parts: Seq<Seq<char>>, count: int)
    requires
        0 <= count <= parts.len(),
    ensures
        clock_seconds(parts) is Some ==> clock_seconds(parts.take(count)) is Some
            && 0 <= clock_seconds(parts.take(count))->0 <= clock_seconds(parts)->0,
    decreases parts.len(),
{
    if count == parts.len() {
        assert(parts.take(count) =~= parts);
        if parts.len() > 0 {
            lemma_clock_seconds_grow(parts.drop_last(), count - 1);
            assert(parts.drop_last().take(count - 1) =~= parts.drop_last());
        }
    } else {
        lemma_clock_seconds_grow(parts.drop_last(), count);
        assert(parts.drop_last().take(count) =~= parts.take(count));
    }
}

/// Reads a shown duration.
pub fn duration_ms(value: &str) -> (duration: Option<u64>)
    ensures
        duration == shown_duration(value@),
{
    let cleaned = trim(value);
    let parts = split(cleaned.as_str(), ':');
    let ghost all = split_on(trimmed(value@), ':');
    if parts.len() > 3 {
        return None;
    }
    let mut total_seconds: u64 = 0;
    let mut index: usize = 0;
    assert(all.take(0) =~= Seq::empty());
    while index < parts.len()
        invariant
            index <= parts.len() <= 3,
            all == split_on(trimmed(value@), ':'),
            all == texts(parts@),
            clock_seconds(all.take(index as int)) == Some(total_seconds as int),
        decreases parts.len() - index,
    {
        proof {
            assert(all.take(index + 1).drop_last() =~= all.take(index as int));
            assert(all[index as int] == parts@[index as int]@);
            lemma_clock_seconds_grow(all, index + 1);
        }
        let component = match parse_u64(parts[index].as_str()) {
            Some(component) => component,
            None => {
                return None;
            },
        };
        if index > 0 && component >= 60 {
            return None;
        }
        total_seconds = match total_seconds.checked_mul(60) {
            Some(scaled) => match scaled.checked_add(component) {
                Some(total) => total,
                None => {
                    return None;
                },
            },
            None => {
                return None;
            },
        };
        index = index + 1;
    }
    assert(all.take(all.len() as int) =~= all);
    total_seconds.checked_mul(1_000)
}

/// A picture that the provider offers.
pub struct Thumbnail {
    pub height: u64,
    pub width: u64,
    pub url: String,
}

/// The area of a picture.
pub open spec fn area(thumbnail: Thumbnail) -> int {
    if thumbnail.width * thumbnail.height <= u64::MAX {
        thumbnail.width * thumbnail.height
    } else {
        u64::MAX as int
    }
}

/// The address of a picture, if it is one of the web that names a host.
pub open spec fn picture_url(thumbnail: Thumbnail) -> Option<Seq<char>> {
    match parsed_url(thumbnail.url@) {
        Some(url) => if is_web_scheme(url.scheme) && url.has_host {
            Some(url.text)
        } else {
            None
        },
        None => None,
    }
}

/// The largest picture with an address, as its area and address. Of equally
/// large ones it is the last.
pub open spec fn best_picture(thumbnails: Seq<Thumbnail>) -> Option<(int, Seq<char>)>
    decreases thumbnails.len(),
{
    if thumbnails.len() == 0 {
        None
    } else {
        let before = best_picture(thumbnails.drop_last());
        let candidate = thumbnails.last();
        match (before, picture_url(candidate)) {
            (_, None) => before,
            (None, Some(url)) => Some((area(candidate), url)),
            (Some(best), Some(url)) => if best.0 > area(candidate) {
                before
            } else {
                Some((area(candidate), url))
            },
        }
    }
}

/// The address of the largest picture.
pub open spec fn best_url(thumbnails: Seq<Thumbnail>) -> Option<Seq<char>> {
    match best_picture(thumbnails) {
        Some(best) => Some(best.1),
        None => None,
    }
}

/// The address of the largest picture.
pub fn artwork_url(thumbnails: &Vec<Thumbnail>) -> (url: Option<String>)
    ensures
        optional_text(url) == best_url(thumbnails@),
{
    let mut best: Option<String> = None;
    let mut best_area: u64 = 0;
    let mut index: usize = 0;
    assert(thumbnails@.take(0) =~= Seq::empty());
    while index < thumbnails.len()
        invariant
            index <= thumbnails.len(),
            match best {
                Some(url) => best_picture(thumbnails@.take(index as int)) == Some(
                    (best_area as int, url@),
                ),
                None => best_picture(thumbnails@.take(index as int)) is None,
            },
        decreases thumbnails.len() - index,
    {
        let thumbnail = &thumbnails[index];
        proof {
            assert(thumbnails@.take(index + 1).drop_last() =~= thumbnails@.take(index as int));
            assert(thumbnails@.take(index + 1).last() == *thumbnail);
        }
        let mut address: Option<String> = None;
        if let Some(url) = parse_url(thumbnail.url.as_str()) {
            if has_web_scheme(&url) && url.has_host {
                address = Some(url.text);
            }
        }
        assert(optional_text(address) == picture_url(*thumbnail));
        if let Some(url) = address {
            let candidate_area: u64 = match thumbnail.width.checked_mul(thumbnail.height) {
                Some(product) => product,
                None => u64::MAX,
            };
            if best.is_none() || best_area <= candidate_area {
                best = Some(url);
                best_area = candidate_area;
            }
        }
        index = index + 1;
    }
    assert(thumbnails@.take(thumbnails@.len() as int) =~= thumbnails@);
    best
}

/// What a playable item is made of, before its identifier is checked.
#[verifier::ext_equal]
pub struct TrackView {
    pub raw_id: Seq<char>,
    pub kind: MediaKind,
    pub title: Seq<char>,
    pub creators: Seq<Seq<char>>,
    pub collection: Option<Seq<char>>,
    pub duration_ms: Option<u64>,
    pub artwork_url: Option<Seq<char>>,
    pub explicit: bool,
}

/// The playable item made of `track`, if its identifier is valid.
pub open spec fn playable_item(track: TrackView, operation: ProviderOperation) -> Result<
    MediaItemView,
    ProviderError,
> {
    if is_opaque_id(track.raw_id, MAX_VIDEO_ID_BYTES as int) {
        Ok(
            MediaItemView {
                id: MediaIdView { provider: YOUTUBE_MUSIC_PROVIDER@, video_id: track.raw_id },
                kind: track.kind,
                title: track.title,
                creators: track.creators,
                collection: track.collection,
                duration_ms: track.duration_ms,
                artwork_url: track.artwork_url,
                explicit: track.explicit,
            },
        )
    } else {
        Err(invalid(operation))
    }
}

/// What a result says.
pub open spec fn result_view<T: View, E>(result: Result<T, E>) -> Result<T::V, E> {
    match result {
        Ok(value) => Ok(value@),
        Err(error) => Err(error),
    }
}

fn media_item(
    raw_id: &String,
    kind: MediaKind,
    title: &String,
    creators: Vec<String>,
    collection: Option<String>,
    duration_ms: Option<u64>,
    artwork_url: Option<String>,
    explicit: bool,
    operation: ProviderOperation,
) -> (item: Result<MediaItem, ProviderError>)
    ensures
        result_view(item) == playable_item(
            TrackView {
                raw_id: raw_id@,
                kind,
                title: title@,
                creators: texts(creators@),
                collection: optional_text(collection),
                duration_ms,
                artwork_url: optional_text(artwork_url),
                explicit,
            },
            operation,
        ),
{
    match validate_media_id(raw_id.as_str(), operation) {
        Ok(()) => {},
        Err(error) => {
            return Err(error);
        },
    }
    Ok(
        MediaItem {
            id: MediaId { provider: YOUTUBE_MUSIC_PROVIDER.to_owned(), video_id: raw_id.clone() },
            kind,
            title: title.clone(),
            creators,
            collection,
            duration_ms,
            artwork_url,
            explicit,
        },
    )
}

/// The browsable item made of its parts, if its identifier is valid.
pub open spec fn browsable_item(item: BrowseItemView, operation: ProviderOperation) -> Result<
    BrowseItemView,
    ProviderError,
> {
    if is_opaque_id(item.id, MAX_OPAQUE_ID_BYTES as int) {
        Ok(item)
    } else {
        Err(invalid(operation))
    }
}

fn browse_item(
    raw_id: &String,
    title: &String,
    subtitle: Option<String>,
    artwork_url: Option<String>,
    operation: ProviderOperation,
) -> (item: Result<BrowseItem, ProviderError>)
    ensures
        result_view(item) == browsable_item(
            BrowseItemView {
                id: raw_id@,
                title: title@,
                subtitle: optional_text(subtitle),
                artwork_url: optional_text(artwork_url),
            },
            operation,
        ),
{
    match validate_opaque_id(raw_id.as_str(), operation) {
        Ok(()) => {},
        Err(error) => {
            return Err(error);
        },
    }
    Ok(BrowseItem { id: raw_id.clone(), title: title.clone(), subtitle, artwork_url })
}

/// The values of all results, or the first error.
pub open spec fn collected<V, E>(results: Seq<Result<V, E>>) -> Result<Seq<V>, E>
    decreases results.len(),
{
    if results.len() == 0 {
        Ok(Seq::empty())
    } else {
        match (collected(results.drop_last()), results.last()) {
            (Err(error), _) => Err(error),
            (_, Err(error)) => Err(error),
            (Ok(values), Ok(value)) => Ok(values.push(value)),
        }
    }
}

proof fn lemma_collected_fails_early<V, E>(results: Seq<Result<V, E>>, count: int)
    requires
        0 <= count <= results.len(),
        collected(results.take(count)) is Err,
    ensures
        collected(results) == collected(results.take(count)),
    decreases results.len(),
{
    if count == results.len() {
        assert(results.take(count) =~= results);
    } else {
        assert(results.drop_last().take(count) =~= results.take(count));
        lemma_collected_fails_early(results.drop_last(), count);
    }
}

/// The values of a list.
pub open spec fn views<T: View>(items: Seq<T>) -> Seq<T::V> {
    items.map_values(|item: T| item@)
}

/// Normalizes every item, and stops at the first that cannot be.
fn collect_results<T, U: View, F: Fn(&T) -> Result<U, ProviderError>>(
    items: &Vec<T>,
    normalize: F,
    Ghost(model): Ghost<spec_fn(T) -> Result<U::V, ProviderError>>,
) -> (result: Result<Vec<U>, ProviderError>)
    requires
        forall|item: &T| #[trigger] normalize.requires((item,)),
        forall|item: &T, made: Result<U, ProviderError>| #[trigger]
            normalize.ensures((item,), made) ==> result_view(made) == model(*item),
    ensures
        match result {
            Ok(values) => collected(items@.map_values(model)) == Ok::<Seq<U::V>, ProviderError>(
                views(values@),
            ),
            Err(error) => collected(items@.map_values(model)) == Err::<Seq<U::V>, ProviderError>(
                error,
            ),
        },
{
    let ghost results = items@.map_values(model);
    let mut values: Vec<U> = Vec::new();
    let mut index: usize = 0;
    proof {
        assert(results.take(0) =~= Seq::empty());
        assert(views(values@) =~= Seq::empty());
    }
    while index < items.len()
        invariant
            index <= items.len(),
            results == items@.map_values(model),
            forall|item: &T| #[trigger] normalize.requires((item,)),
            forall|item: &T, made: Result<U, ProviderError>| #[trigger]
                normalize.ensures((item,), made) ==> result_view(made) == model(*item),
            collected(results.take(index as int)) == Ok::<Seq<U::V>, ProviderError>(views(values@)),
        decreases items.len() - index,
    {
        proof {
            assert(results.take(index + 1).drop_last() =~= results.take(index as int));
            assert(results.take(index + 1).last() == model(items@[index as int]));
        }
        let made = normalize(&items[index]);
        match made {
            Ok(value) => {
                let ghost before = values@;
                values.push(value);
                assert(views(values@) =~= views(before).push(value@));
            },
            Err(error) => {
                proof {
                    lemma_collected_fails_early(results, index + 1);
                }
                return Err(error);
            },
        }
        index = index + 1;
    }
    assert(results.take(results.len() as int) =~= results);
    Ok(values)
}

/// A page with all there is.
pub fn page<T>(items: Vec<T>) -> (result: Page<T>)
    ensures
        result.items@ == items@,
        result.continuation is None,
        !result.stale,
{
    Page { items, continuation: None, stale: false }
}

/// A song that a search found.
pub struct SongResult {
    pub video_id: String,
    pub title: String,
    pub artist: String,
    pub album: Option<String>,
    pub duration: String,
    pub thumbnails: Vec<Thumbnail>,
    pub explicit: bool,
}

/// The item that a found song becomes.
pub open spec fn song_item(song: SongResult) -> Result<MediaItemView, ProviderError> {
    playable_item(
        TrackView {
            raw_id: song.video_id@,
            kind: MediaKind::Song,
            title: song.title@,
            creators: filled_values(seq![song.artist@]),
            collection: optional_filled(song.album),
            duration_ms: shown_duration(song.duration@),
            artwork_url: best_url(song.thumbnails@),
            explicit: song.explicit,
        },
        ProviderOperation::Search,
    )
}

pub fn normalize_search_song(song: &SongResult) -> (item: Result<MediaItem, ProviderError>)
    ensures
        result_view(item) == song_item(*song),
{
    media_item(
        &song.video_id,
        MediaKind::Song,
        &song.title,
        nonempty_value(&song.artist),
        optional_nonempty(&song.album),
        duration_ms(song.duration.as_str()),
        artwork_url(&song.thumbnails),
        song.explicit,
        ProviderOperation::Search,
    )
}

/// An album that a search or the library lists.
pub struct AlbumResult {
    pub album_id: String,
    pub title: String,
    pub artist: String,
    pub thumbnails: Vec<Thumbnail>,
}

/// The item that a listed album becomes.
pub open spec fn album_item(album: AlbumResult, operation: ProviderOperation) -> Result<
    BrowseItemView,
    ProviderError,
> {
    browsable_item(
        BrowseItemView {
            id: album.album_id@,
            title: album.title@,
            subtitle: filled(album.artist@),
            artwork_url: best_url(album.thumbnails@),
        },
        operation,
    )
}

pub fn normalize_search_album(album: &AlbumResult, operation: ProviderOperation) -> (item: Result<
    BrowseItem,
    ProviderError,
>)
    ensures
        result_view(item) == album_item(*album, operation),
{
    browse_item(
        &album.album_id,
        &album.title,
        nonempty(album.artist.clone()),
        artwork_url(&album.thumbnails),
        operation,
    )
}

/// An artist that a search found.
pub struct ArtistResult {
    pub browse_id: String,
    pub artist: String,
    pub subscribers: Option<String>,
    pub thumbnails: Vec<Thumbnail>,
}

/// The item that a found artist becomes.
pub open spec fn artist_item(artist: ArtistResult) -> Result<BrowseItemView, ProviderError> {
    browsable_item(
        BrowseItemView {
            id: artist.browse_id@,
            title: artist.artist@,
            subtitle: optional_filled(artist.subscribers),
            artwork_url: best_url(artist.thumbnails@),
        },
        ProviderOperation::Search,
    )
}

pub fn normalize_search_artist(artist: &ArtistResult) -> (item: Result<BrowseItem, ProviderError>)
    ensures
        result_view(item) == artist_item(*artist),
{
    browse_item(
        &artist.browse_id,
        &artist.artist,
        optional_nonempty(&artist.subscribers),
        artwork_url(&artist.thumbnails),
        ProviderOperation::Search,
    )
}

/// A podcast that a search found.
pub struct PodcastResult {
    pub podcast_id: String,
    pub title: String,
    pub publisher: String,
    pub thumbnails: Vec<Thumbnail>,
}

/// The item that a found podcast becomes.
pub open spec fn podcast_item(podcast: PodcastResult, operation: ProviderOperation) -> Result<
    BrowseItemView,
    ProviderError,
> {
    browsable_item(
        BrowseItemView {
            id: podcast.podcast_id@,
            title: podcast.title@,
            subtitle: filled(podcast.publisher@),
            artwork_url: best_url(podcast.thumbnails@),
        },
        operation,
    )
}

pub fn normalize_search_podcast(podcast: &PodcastResult, operation: ProviderOperation) -> (item:
    Result<BrowseItem, ProviderError>)
    ensures
        result_view(item) == podcast_item(*podcast, operation),
{
    browse_item(
        &podcast.podcast_id,
        &podcast.title,
        nonempty(podcast.publisher.clone()),
        artwork_url(&podcast.thumbnails),
        operation,
    )
}

/// A playlist that a search or the library lists.
pub struct ListedPlaylist {
    pub playlist_id: String,
    pub title: String,
    pub author: String,
    pub thumbnails: Vec<Thumbnail>,
}

/// The item that a listed playlist becomes.
pub open spec fn playlist_item(playlist: ListedPlaylist, operation: ProviderOperation) -> Result<
    BrowseItemView,
    ProviderError,
> {
    browsable_item(
        BrowseItemView {
            id: playlist.playlist_id@,
            title: playlist.title@,
            subtitle: filled(playlist.author@),
            artwork_url: best_url(playlist.thumbnails@),
        },
        operation,
    )
}

fn normalize_listed_playlist(playlist: &ListedPlaylist, operation: ProviderOperation) -> (item:
    Result<BrowseItem, ProviderError>)
    ensures
        result_view(item) == playlist_item(*playlist, operation),
{
    browse_item(
        &playlist.playlist_id,
        &playlist.title,
        nonempty(playlist.author.clone()),
        artwork_url(&playlist.thumbnails),
        operation,
    )
}

/// What a playlist search found.
pub enum PlaylistResult {
    Featured(ListedPlaylist),
    Community(ListedPlaylist),
    Podcast(PodcastResult),
    Unknown,
}

/// An item of a kind, where there is one.
pub open spec fn search_result<V>(item: Result<V, ProviderError>, kind: spec_fn(V) -> ItemView) -> Result<
    ItemView,
    ProviderError,
> {
    match item {
        Ok(item) => Ok(kind(item)),
        Err(error) => Err(error),
    }
}

/// The item that a found playlist becomes.
pub open spec fn playlist_search_item(playlist: PlaylistResult) -> Result<ItemView, ProviderError> {
    match playlist {
        PlaylistResult::Featured(playlist) => search_result(
            playlist_item(playlist, ProviderOperation::Search),
            |item: BrowseItemView| ItemView::Playlist(item),
        ),
        PlaylistResult::Community(playlist) => search_result(
            playlist_item(playlist, ProviderOperation::Search),
            |item: BrowseItemView| ItemView::Playlist(item),
        ),
        PlaylistResult::Podcast(podcast) => search_result(
            podcast_item(podcast, ProviderOperation::Search),
            |item: BrowseItemView| ItemView::Podcast(item),
        ),
        PlaylistResult::Unknown => Err(invalid(ProviderOperation::Search)),
    }
}

pub fn normalize_search_playlist(playlist: &PlaylistResult) -> (item: Result<
    SearchItem,
    ProviderError,
>)
    ensures
        result_view(item) == playlist_search_item(*playlist),
{
    match playlist {
        PlaylistResult::Featured(playlist) => match normalize_listed_playlist(
            playlist,
            ProviderOperation::Search,
        ) {
            Ok(item) => Ok(SearchItem::Playlist(item)),
            Err(error) => Err(error),
        },
        PlaylistResult::Community(playlist) => match normalize_listed_playlist(
            playlist,
            ProviderOperation::Search,
        ) {
            Ok(item) => Ok(SearchItem::Playlist(item)),
            Err(error) => Err(error),
        },
        PlaylistResult::Podcast(podcast) => match normalize_search_podcast(
            podcast,
            ProviderOperation::Search,
        ) {
            Ok(item) => Ok(SearchItem::Podcast(item)),
            Err(error) => Err(error),
        },
        PlaylistResult::Unknown => Err(invalid_response(ProviderOperation::Search)),
    }
}

/// A podcast episode that a search found.
pub struct EpisodeResult {
    pub episode_id: String,
    pub title: String,
    pub channel_name: String,
    pub thumbnails: Vec<Thumbnail>,
}

/// The item that a found episode becomes.
pub open spec fn episode_item(episode: EpisodeResult) -> Result<MediaItemView, ProviderError> {
    playable_item(
        TrackView {
            raw_id: episode.episode_id@,
            kind: MediaKind::PodcastEpisode,
            title: episode.title@,
            creators: filled_values(seq![episode.channel_name@]),
            collection: None,
            duration_ms: None,
            artwork_url: best_url(episode.thumbnails@),
            explicit: false,
        },
        ProviderOperation::Search,
    )
}

pub fn normalize_search_episode(episode: &EpisodeResult) -> (item: Result<MediaItem, ProviderError>)
    ensures
        result_view(item) == episode_item(*episode),
{
    media_item(
        &episode.episode_id,
        MediaKind::PodcastEpisode,
        &episode.title,
        nonempty_value(&episode.channel_name),
        None,
        None,
        artwork_url(&episode.thumbnails),
        false,
        ProviderOperation::Search,
    )
}

/// Whether `made` is the page of all `results`, or the first error in them.
pub open spec fn is_search_page(
    made: Result<Page<SearchItem>, ProviderError>,
    results: Seq<Result<ItemView, ProviderError>>,
) -> bool {
    match made {
        Ok(page) => {
            &&& collected(results) == Ok::<Seq<ItemView>, ProviderError>(search_views(page.items@))
            &&& page.continuation is None
            &&& !page.stale
        },
        Err(error) => collected(results) == Err::<Seq<ItemView>, ProviderError>(error),
    }
}

/// Whether `made` is the page of all `results`, or the first error in them.
pub open spec fn is_library_page(
    made: Result<Page<LibraryItem>, ProviderError>,
    results: Seq<Result<ItemView, ProviderError>>,
) -> bool {
    match made {
        Ok(page) => {
            &&& collected(results) == Ok::<Seq<ItemView>, ProviderError>(library_views(page.items@))
            &&& page.continuation is None
            &&& !page.stale
        },
        Err(error) => collected(results) == Err::<Seq<ItemView>, ProviderError>(error),
    }
}

fn search_page(made: Result<Vec<SearchItem>, ProviderError>) -> (result: Result<
    Page<SearchItem>,
    ProviderError,
>)
    ensures
        match (made, result) {
            (Ok(items), Ok(page)) => page.items@ == items@ && page.continuation is None
                && !page.stale && search_views(items@) == views(items@),
            (Err(error), Err(reported)) => error == reported,
            _ => false,
        },
{
    match made {
        Ok(items) => {
            assert(search_views(items@) =~= views(items@));
            Ok(page(items))
        },
        Err(error) => Err(error),
    }
}

fn library_page(made: Result<Vec<LibraryItem>, ProviderError>) -> (result: Result<
    Page<LibraryItem>,
    ProviderError,
>)
    ensures
        match (made, result) {
            (Ok(items), Ok(page)) => page.items@ == items@ && page.continuation is None
                && !page.stale && library_views(items@) == views(items@),
            (Err(error), Err(reported)) => error == reported,
            _ => false,
        },
{
    match made {
        Ok(items) => {
            assert(library_views(items@) =~= views(items@));
            Ok(page(items))
        },
        Err(error) => Err(error),
    }
}

/// The search result that a found song becomes.
pub open spec fn song_search_item(song: SongResult) -> Result<ItemView, ProviderError> {
    search_result(song_item(song), |item: MediaItemView| ItemView::Playable(item))
}

fn song_as_search_item(song: &SongResult) -> (item: Result<SearchItem, ProviderError>)
    ensures
        result_view(item) == song_search_item(*song),
{
    match normalize_search_song(song) {
        Ok(item) => Ok(SearchItem::Playable(item)),
        Err(error) => Err(error),
    }
}

/// The page of found songs.
pub fn normalize_song_results(results: &Vec<SongResult>) -> (made: Result<Page<SearchItem>, ProviderError>)
    ensures
        is_search_page(made, results@.map_values(|song: SongResult| song_search_item(song))),
{
    let ghost model = |song: SongResult| song_search_item(song);
    search_page(collect_results(results, song_as_search_item, Ghost(model)))
}

/// The search result that a found album becomes.
pub open spec fn album_search_item(album: AlbumResult) -> Result<ItemView, ProviderError> {
    search_result(album_item(album, ProviderOperation::Search), |item: BrowseItemView| ItemView::Album(item))
}

fn album_as_search_item(album: &AlbumResult) -> (item: Result<SearchItem, ProviderError>)
    ensures
        result_view(item) == album_search_item(*album),
{
    match normalize_search_album(album, ProviderOperation::Search) {
        Ok(item) => Ok(SearchItem::Album(item)),
        Err(error) => Err(error),
    }
}

/// The page of found albums.
pub fn normalize_album_results(results: &Vec<AlbumResult>) -> (made: Result<Page<SearchItem>, ProviderError>)
    ensures
        is_search_page(made, results@.map_values(|album: AlbumResult| album_search_item(album))),
{
    let ghost model = |album: AlbumResult| album_search_item(album);
    search_page(collect_results(results, album_as_search_item, Ghost(model)))
}

/// The search result that a found artist becomes.
pub open spec fn artist_search_item(artist: ArtistResult) -> Result<ItemView, ProviderError> {
    search_result(artist_item(artist), |item: BrowseItemView| ItemView::Artist(item))
}

fn artist_as_search_item(artist: &ArtistResult) -> (item: Result<SearchItem, ProviderError>)
    ensures
        result_view(item) == artist_search_item(*artist),
{
    match normalize_search_artist(artist) {
        Ok(item) => Ok(SearchItem::Artist(item)),
        Err(error) => Err(error),
    }
}

/// The page of found artists.
pub fn normalize_artist_results(results: &Vec<ArtistResult>) -> (made: Result<Page<SearchItem>, ProviderError>)
    ensures
        is_search_page(made, results@.map_values(|artist: ArtistResult| artist_search_item(artist))),
{
    let ghost model = |artist: ArtistResult| artist_search_item(artist);
    search_page(collect_results(results, artist_as_search_item, Ghost(model)))
}

/// The search result that a found podcast becomes.
pub open spec fn podcast_search_item(podcast: PodcastResult) -> Result<ItemView, ProviderError> {
    search_result(podcast_item(podcast, ProviderOperation::Search), |item: BrowseItemView| ItemView::Podcast(item))
}

fn podcast_as_search_item(podcast: &PodcastResult) -> (item: Result<SearchItem, ProviderError>)
    ensures
        result_view(item) == podcast_search_item(*podcast),
{
    match normalize_search_podcast(podcast, ProviderOperation::Search) {
        Ok(item) => Ok(SearchItem::Podcast(item)),
        Err(error) => Err(error),
    }
}

/// The page of found podcasts.
pub fn normalize_podcast_results(results: &Vec<PodcastResult>) -> (made: Result<Page<SearchItem>, ProviderError>)
    ensures
        is_search_page(made, results@.map_values(|podcast: PodcastResult| podcast_search_item(podcast))),
{
    let ghost model = |podcast: PodcastResult| podcast_search_item(podcast);
    search_page(collect_results(results, podcast_as_search_item, Ghost(model)))
}

/// The search result that a found episode becomes.
pub open spec fn episode_search_item(episode: EpisodeResult) -> Result<ItemView, ProviderError> {
    search_result(episode_item(episode), |item: MediaItemView| ItemView::Playable(item))
}

fn episode_as_search_item(episode: &EpisodeResult) -> (item: Result<SearchItem, ProviderError>)
    ensures
        result_view(item) == episode_search_item(*episode),
{
    match normalize_search_episode(episode) {
        Ok(item) => Ok(SearchItem::Playable(item)),
        Err(error) => Err(error),
    }
}

/// The page of found episodes.
pub fn normalize_episode_results(results: &Vec<EpisodeResult>) -> (made: Result<Page<SearchItem>, ProviderError>)
    ensures
        is_search_page(made, results@.map_values(|episode: EpisodeResult| episode_search_item(episode))),
{
    let ghost model = |episode: EpisodeResult| episode_search_item(episode);
    search_page(collect_results(results, episode_as_search_item, Ghost(model)))
}

/// The page of found playlists.
pub fn normalize_playlist_results(results: &Vec<PlaylistResult>) -> (made: Result<
    Page<SearchItem>,
    ProviderError,
>)
    ensures
        is_search_page(
            made,
            results@.map_values(|playlist: PlaylistResult| playlist_search_item(playlist)),
        ),
{
    let ghost model = |playlist: PlaylistResult| playlist_search_item(playlist);
    search_page(collect_results(results, normalize_search_playlist, Ghost(model)))
}

/// An episode in a podcast's details.
pub struct PodcastEpisode {
    pub episode_id: String,
    pub title: String,
    pub total_duration: String,
    pub thumbnails: Vec<Thumbnail>,
}

/// A podcast's details.
pub struct PodcastDetail {
    pub channels: Vec<String>,
    pub title: String,
    pub description: String,
    pub episodes: Vec<PodcastEpisode>,
}

/// The item that an episode of a podcast becomes.
pub open spec fn podcast_episode_item(
    episode: PodcastEpisode,
    creators: Seq<Seq<char>>,
    collection: Option<Seq<char>>,
    operation: ProviderOperation,
) -> Result<MediaItemView, ProviderError> {
    playable_item(
        TrackView {
            raw_id: episode.episode_id@,
            kind: MediaKind::PodcastEpisode,
            title: episode.title@,
            creators,
            collection: match collection {
                Some(name) => filled(name),
                None => None,
            },
            duration_ms: shown_duration(episode.total_duration@),
            artwork_url: best_url(episode.thumbnails@),
            explicit: false,
        },
        operation,
    )
}

pub fn normalize_podcast_episode(
    episode: &PodcastEpisode,
    creators: Vec<String>,
    collection: Option<String>,
    operation: ProviderOperation,
) -> (item: Result<MediaItem, ProviderError>)
    ensures
        result_view(item) == podcast_episode_item(
            *episode,
            texts(creators@),
            optional_text(collection),
            operation,
        ),
{
    media_item(
        &episode.episode_id,
        MediaKind::PodcastEpisode,
        &episode.title,
        creators,
        optional_nonempty(&collection),
        duration_ms(episode.total_duration.as_str()),
        artwork_url(&episode.thumbnails),
        false,
        operation,
    )
}

/// The items of a podcast's episodes, one by one.
pub open spec fn episode_results(detail: PodcastDetail) -> Seq<Result<MediaItemView, ProviderError>> {
    detail.episodes@.map_values(
        |episode: PodcastEpisode|
            podcast_episode_item(
                episode,
                filled_values(texts(detail.channels@)),
                Some(detail.title@),
                ProviderOperation::Podcast,
            ),
    )
}

/// The podcast that its details describe, under the id it was asked for.
pub open spec fn detailed_podcast(id: Seq<char>, detail: PodcastDetail) -> Result<
    PodcastView,
    ProviderError,
> {
    if !is_opaque_id(id, MAX_OPAQUE_ID_BYTES as int) {
        Err(invalid(ProviderOperation::Podcast))
    } else {
        match collected(episode_results(detail)) {
            Ok(episodes) => Ok(
                PodcastView {
                    id,
                    title: detail.title@,
                    creators: filled_values(texts(detail.channels@)),
                    description: filled(detail.description@),
                    artwork_url: None,
                    episodes,
                },
            ),
            Err(error) => Err(error),
        }
    }
}

pub fn normalize_podcast(id: &str, detail: &PodcastDetail) -> (podcast: Result<
    Podcast,
    ProviderError,
>)
    ensures
        result_view(podcast) == detailed_podcast(id@, *detail),
{
    match validate_opaque_id(id, ProviderOperation::Podcast) {
        Ok(()) => {},
        Err(error) => {
            return Err(error);
        },
    }
    let creators = nonempty_values(&detail.channels);
    let ghost results = episode_results(*detail);
    let mut episodes: Vec<MediaItem> = Vec::new();
    let mut index: usize = 0;
    proof {
        assert(results.take(0) =~= Seq::empty());
        assert(media_views(episodes@) =~= Seq::empty());
    }
    while index < detail.episodes.len()
        invariant
            index <= detail.episodes.len(),
            is_opaque_id(id@, MAX_OPAQUE_ID_BYTES as int),
            results == episode_results(*detail),
            texts(creators@) == filled_values(texts(detail.channels@)),
            collected(results.take(index as int)) == Ok::<Seq<MediaItemView>, ProviderError>(
                media_views(episodes@),
            ),
        decreases detail.episodes.len() - index,
    {
        proof {
            assert(results.take(index + 1).drop_last() =~= results.take(index as int));
            assert(results.take(index + 1).last() == results[index as int]);
        }
        match normalize_podcast_episode(
            &detail.episodes[index],
            clone_texts(&creators),
            Some(detail.title.clone()),
            ProviderOperation::Podcast,
        ) {
            Ok(item) => {
                let ghost before = episodes@;
                episodes.push(item);
                assert(media_views(episodes@) =~= media_views(before).push(item@));
            },
            Err(error) => {
                proof {
                    lemma_collected_fails_early(results, index + 1);
                }
                return Err(error);
            },
        }
        index = index + 1;
    }
    assert(results.take(results.len() as int) =~= results);
    Ok(
        Podcast {
            id: id.to_owned(),
            title: detail.title.clone(),
            creators,
            description: nonempty(detail.description.clone()),
            artwork_url: None,
            episodes,
        },
    )
}

/// A track of a watch playlist.
pub struct WatchTrack {
    pub video_id: String,
    pub title: String,
    pub author: String,
    pub duration: String,
    pub thumbnails: Vec<Thumbnail>,
}

/// The item that a track of a watch playlist becomes.
pub open spec fn watch_item(track: WatchTrack) -> Result<MediaItemView, ProviderError> {
    playable_item(
        TrackView {
            raw_id: track.video_id@,
            kind: MediaKind::Song,
            title: track.title@,
            creators: filled_values(seq![track.author@]),
            collection: None,
            duration_ms: shown_duration(track.duration@),
            artwork_url: best_url(track.thumbnails@),
            explicit: false,
        },
        ProviderOperation::Radio,
    )
}

fn normalize_watch_track(track: &WatchTrack) -> (item: Result<MediaItem, ProviderError>)
    ensures
        result_view(item) == watch_item(*track),
{
    media_item(
        &track.video_id,
        MediaKind::Song,
        &track.title,
        nonempty_value(&track.author),
        None,
        duration_ms(track.duration.as_str()),
        artwork_url(&track.thumbnails),
        false,
        ProviderOperation::Radio,
    )
}

/// The items of a watch playlist.
pub fn normalize_watch_tracks(results: &Vec<WatchTrack>) -> (made: Result<
    Vec<MediaItem>,
    ProviderError,
>)
    ensures
        match made {
            Ok(items) => collected(results@.map_values(|track: WatchTrack| watch_item(track)))
                == Ok::<Seq<MediaItemView>, ProviderError>(media_views(items@)),
            Err(error) => collected(results@.map_values(|track: WatchTrack| watch_item(track)))
                == Err::<Seq<MediaItemView>, ProviderError>(error),
        },
{
    let ghost model = |track: WatchTrack| watch_item(track);
    let made = collect_results(results, normalize_watch_track, Ghost(model));
    match made {
        Ok(items) => {
            assert(views(items@) =~= media_views(items@));
            Ok(items)
        },
        Err(error) => Err(error),
    }
}

/// A song of a playlist or of the library.
pub struct ListedSong {
    pub is_available: bool,
    pub video_id: String,
    pub title: String,
    pub artists: Vec<String>,
    pub album: String,
    pub duration: String,
    pub thumbnails: Vec<Thumbnail>,
    pub explicit: bool,
}

/// A video of a playlist.
pub struct ListedVideo {
    pub is_available: bool,
    pub video_id: String,
    pub title: String,
    pub channel_name: String,
    pub duration: String,
    pub thumbnails: Vec<Thumbnail>,
}

/// A podcast episode of a playlist. A live one has no duration.
pub struct ListedEpisode {
    pub is_available: bool,
    pub episode_id: String,
    pub title: String,
    pub podcast_name: String,
    pub duration: Option<String>,
    pub thumbnails: Vec<Thumbnail>,
}

/// A song that the user uploaded.
pub struct UploadedSong {
    pub video_id: String,
    pub title: String,
    pub artists: Vec<String>,
    pub album: Option<String>,
    pub duration: String,
    pub thumbnails: Vec<Thumbnail>,
}

/// An entry of a playlist.
pub enum PlaylistEntry {
    Song(ListedSong),
    Video(ListedVideo),
    Episode(ListedEpisode),
    UploadSong(UploadedSong),
}

/// The item that a listed song becomes.
pub open spec fn listed_song_item(song: ListedSong, operation: ProviderOperation) -> Result<
    MediaItemView,
    ProviderError,
> {
    playable_item(
        TrackView {
            raw_id: song.video_id@,
            kind: MediaKind::Song,
            title: song.title@,
            creators: filled_values(texts(song.artists@)),
            collection: filled(song.album@),
            duration_ms: shown_duration(song.duration@),
            artwork_url: best_url(song.thumbnails@),
            explicit: song.explicit,
        },
        operation,
    )
}

fn normalize_listed_song(song: &ListedSong, operation: ProviderOperation) -> (item: Result<
    MediaItem,
    ProviderError,
>)
    ensures
        result_view(item) == listed_song_item(*song, operation),
{
    media_item(
        &song.video_id,
        MediaKind::Song,
        &song.title,
        nonempty_values(&song.artists),
        nonempty(song.album.clone()),
        duration_ms(song.duration.as_str()),
        artwork_url(&song.thumbnails),
        song.explicit,
        operation,
    )
}

/// The item that an entry of a playlist becomes, if it is available.
pub open spec fn entry_item(entry: PlaylistEntry) -> Option<Result<MediaItemView, ProviderError>> {
    match entry {
        PlaylistEntry::Song(song) => if song.is_available {
            Some(listed_song_item(song, ProviderOperation::Playlist))
        } else {
            None
        },
        PlaylistEntry::Video(video) => if video.is_available {
            Some(
                playable_item(
                    TrackView {
                        raw_id: video.video_id@,
                        kind: MediaKind::Video,
                        title: video.title@,
                        creators: filled_values(seq![video.channel_name@]),
                        collection: None,
                        duration_ms: shown_duration(video.duration@),
                        artwork_url: best_url(video.thumbnails@),
                        explicit: false,
                    },
                    ProviderOperation::Playlist,
                ),
            )
        } else {
            None
        },
        PlaylistEntry::Episode(episode) => if episode.is_available {
            Some(
                playable_item(
                    TrackView {
                        raw_id: episode.episode_id@,
                        kind: MediaKind::PodcastEpisode,
                        title: episode.title@,
                        creators: filled_values(seq![episode.podcast_name@]),
                        collection: None,
                        duration_ms: match episode.duration {
                            Some(duration) => shown_duration(duration@),
                            None => None,
                        },
                        artwork_url: best_url(episode.thumbnails@),
                        explicit: false,
                    },
                    ProviderOperation::Playlist,
                ),
            )
        } else {
            None
        },
        PlaylistEntry::UploadSong(song) => Some(
            playable_item(
                TrackView {
                    raw_id: song.video_id@,
                    kind: MediaKind::Song,
                    title: song.title@,
                    creators: filled_values(texts(song.artists@)),
                    collection: optional_filled(song.album),
                    duration_ms: shown_duration(song.duration@),
                    artwork_url: best_url(song.thumbnails@),
                    explicit: false,
                },
                ProviderOperation::Playlist,
            ),
        ),
    }
}

/// What there is of a list, in order.
pub open spec fn present<T>(items: Seq<Option<T>>) -> Seq<T>
    decreases items.len(),
{
    if items.len() == 0 {
        Seq::empty()
    } else {
        match items.last() {
            Some(item) => present(items.drop_last()).push(item),
            None => present(items.drop_last()),
        }
    }
}

/// The first results are a start of all that are present.
proof fn lemma_present_extends<T>(items: Seq<Option<T>>, count: int)
    requires
        0 <= count <= items.len(),
    ensures
        present(items.take(count)).len() <= present(items).len(),
        present(items).take(present(items.take(count)).len() as int) == present(items.take(count)),
    decreases items.len(),
{
    if count == items.len() {
        assert(items.take(count) =~= items);
        assert(present(items).take(present(items).len() as int) =~= present(items));
    } else {
        lemma_present_extends(items.drop_last(), count);
        assert(items.drop_last().take(count) =~= items.take(count));
        let kept = present(items.take(count));
        assert(present(items).take(kept.len() as int) =~= present(items.drop_last()).take(
            kept.len() as int,
        ));
    }
}

fn normalize_entry(entry: &PlaylistEntry) -> (item: Option<Result<MediaItem, ProviderError>>)
    ensures
        match item {
            Some(item) => entry_item(*entry) == Some(result_view(item)),
            None => entry_item(*entry) is None,
        },
{
    match entry {
        PlaylistEntry::Song(song) => {
            if song.is_available {
                Some(normalize_listed_song(song, ProviderOperation::Playlist))
            } else {
                None
            }
        },
        PlaylistEntry::Video(video) => {
            if video.is_available {
                Some(
                    media_item(
                        &video.video_id,
                        MediaKind::Video,
                        &video.title,
                        nonempty_value(&video.channel_name),
                        None,
                        duration_ms(video.duration.as_str()),
                        artwork_url(&video.thumbnails),
                        false,
                        ProviderOperation::Playlist,
                    ),
                )
            } else {
                None
            }
        },
        PlaylistEntry::Episode(episode) => {
            if episode.is_available {
                let duration = match &episode.duration {
                    Some(duration) => duration_ms(duration.as_str()),
                    None => None,
                };
                Some(
                    media_item(
                        &episode.episode_id,
                        MediaKind::PodcastEpisode,
                        &episode.title,
                        nonempty_value(&episode.podcast_name),
                        None,
                        duration,
                        artwork_url(&episode.thumbnails),
                        false,
                        ProviderOperation::Playlist,
                    ),
                )
            } else {
                None
            }
        },
        PlaylistEntry::UploadSong(song) => Some(
            media_item(
                &song.video_id,
                MediaKind::Song,
                &song.title,
                nonempty_values(&song.artists),
                optional_nonempty(&song.album),
                duration_ms(song.duration.as_str()),
                artwork_url(&song.thumbnails),
                false,
                ProviderOperation::Playlist,
            ),
        ),
    }
}

/// The items of the available entries of a playlist.
pub open spec fn entry_results(entries: Seq<PlaylistEntry>) -> Seq<
    Result<MediaItemView, ProviderError>,
> {
    present(entries.map_values(|entry: PlaylistEntry| entry_item(entry)))
}

/// The items of a playlist. Entries that are not available are left out.
pub fn normalize_playlist_items(results: &Vec<PlaylistEntry>) -> (made: Result<
    Vec<MediaItem>,
    ProviderError,
>)
    ensures
        match made {
            Ok(items) => collected(entry_results(results@)) == Ok::<
                Seq<MediaItemView>,
                ProviderError,
            >(media_views(items@)),
            Err(error) => collected(entry_results(results@)) == Err::<
                Seq<MediaItemView>,
                ProviderError,
            >(error),
        },
{
    let ghost all = results@.map_values(|entry: PlaylistEntry| entry_item(entry));
    let mut items: Vec<MediaItem> = Vec::new();
    let mut index: usize = 0;
    proof {
        assert(all.take(0) =~= Seq::empty());
        assert(media_views(items@) =~= Seq::empty());
    }
    while index < results.len()
        invariant
            index <= results.len(),
            all == results@.map_values(|entry: PlaylistEntry| entry_item(entry)),
            collected(present(all.take(index as int))) == Ok::<Seq<MediaItemView>, ProviderError>(
                media_views(items@),
            ),
        decreases results.len() - index,
    {
        proof {
            assert(all.take(index + 1).drop_last() =~= all.take(index as int));
            assert(all.take(index + 1).last() == entry_item(results@[index as int]));
            lemma_present_extends(all, index + 1);
        }
        if let Some(made) = normalize_entry(&results[index]) {
            proof {
                let kept = present(all.take(index as int));
                assert(present(all.take(index + 1)).drop_last() =~= kept);
            }
            match made {
                Ok(item) => {
                    let ghost before = items@;
                    items.push(item);
                    assert(media_views(items@) =~= media_views(before).push(item@));
                },
                Err(error) => {
                    proof {
                        lemma_collected_fails_early(
                            present(all),
                            present(all.take(index + 1)).len() as int,
                        );
                    }
                    return Err(error);
                },
            }
        }
        index = index + 1;
    }
    assert(all.take(all.len() as int) =~= all);
    Ok(items)
}

/// The library item that a listed song becomes, if it is available.
pub open spec fn library_song_item(song: ListedSong) -> Option<Result<ItemView, ProviderError>> {
    if song.is_available {
        Some(
            search_result(
                listed_song_item(song, ProviderOperation::Library),
                |item: MediaItemView| ItemView::Playable(item),
            ),
        )
    } else {
        None
    }
}

/// The page of the library's songs. Songs that are not available are left out.
pub fn normalize_library_songs(results: &Vec<ListedSong>) -> (made: Result<
    Page<LibraryItem>,
    ProviderError,
>)
    ensures
        is_library_page(
            made,
            present(results@.map_values(|song: ListedSong| library_song_item(song))),
        ),
{
    let ghost all = results@.map_values(|song: ListedSong| library_song_item(song));
    let mut items: Vec<LibraryItem> = Vec::new();
    let mut index: usize = 0;
    proof {
        assert(all.take(0) =~= Seq::empty());
        assert(library_views(items@) =~= Seq::empty());
    }
    while index < results.len()
        invariant
            index <= results.len(),
            all == results@.map_values(|song: ListedSong| library_song_item(song)),
            collected(present(all.take(index as int))) == Ok::<Seq<ItemView>, ProviderError>(
                library_views(items@),
            ),
        decreases results.len() - index,
    {
        let song = &results[index];
        proof {
            assert(all.take(index + 1).drop_last() =~= all.take(index as int));
            assert(all.take(index + 1).last() == library_song_item(*song));
            lemma_present_extends(all, index + 1);
        }
        if song.is_available {
            proof {
                let kept = present(all.take(index as int));
                assert(present(all.take(index + 1)).drop_last() =~= kept);
            }
            match normalize_listed_song(song, ProviderOperation::Library) {
                Ok(item) => {
                    let ghost before = items@;
                    items.push(LibraryItem::Playable(item));
                    assert(library_views(items@) =~= library_views(before).push(
                        ItemView::Playable(item@),
                    ));
                },
                Err(error) => {
                    proof {
                        lemma_collected_fails_early(
                            present(all),
                            present(all.take(index + 1)).len() as int,
                        );
                    }
                    return Err(error);
                },
            }
        }
        index = index + 1;
    }
    assert(all.take(all.len() as int) =~= all);
    Ok(page(items))
}

/// An artist of the library.
pub struct LibraryArtist {
    pub channel_id: String,
    pub artist: String,
    pub byline: String,
}

/// A podcast of the library.
pub struct LibraryPodcast {
    pub podcast_id: String,
    pub title: String,
    pub channels: Vec<String>,
    pub thumbnails: Vec<Thumbnail>,
}

/// The names of a list, separated by commas.
pub open spec fn joined_names(names: Seq<Seq<char>>) -> Seq<char>
    decreases names.len(),
{
    if names.len() == 0 {
        Seq::empty()
    } else if names.len() == 1 {
        names[0]
    } else {
        joined_names(names.drop_last()) + ", "@ + names.last()
    }
}

/// The names of a list, separated by commas.
pub fn join_names(names: &Vec<String>) -> (text: String)
    ensures
        text@ == joined_names(texts(names@)),
{
    let ghost all = texts(names@);
    let mut text = String::new();
    let mut index: usize = 0;
    assert(all.take(0) =~= Seq::empty());
    while index < names.len()
        invariant
            index <= names.len(),
            all == texts(names@),
            text@ == joined_names(all.take(index as int)),
        decreases names.len() - index,
    {
        proof {
            assert(all.take(index + 1).drop_last() =~= all.take(index as int));
            assert(all.take(index + 1).last() == names@[index as int]@);
            assert(all[index as int] == names@[index as int]@);
        }
        if index > 0 {
            text.append(", ");
        }
        text.append(names[index].as_str());
        assert(text@ =~= joined_names(all.take(index + 1)));
        index = index + 1;
    }
    assert(all.take(all.len() as int) =~= all);
    text
}

fn podcast_creators(podcast: &LibraryPodcast) -> (names: Option<String>)
    ensures
        ({
            let creators = filled_values(texts(podcast.channels@));
            optional_text(names) == if creators.len() == 0 {
                None::<Seq<char>>
            } else {
                Some(joined_names(creators))
            }
        }),
{
    let creators = nonempty_values(&podcast.channels);
    assert(texts(creators@).len() == creators.len());
    if creators.len() == 0 {
        None
    } else {
        Some(join_names(&creators))
    }
}

/// The library item that a listed album becomes.
pub open spec fn library_album_item(album: AlbumResult) -> Result<ItemView, ProviderError> {
    search_result(
        album_item(album, ProviderOperation::Library),
        |item: BrowseItemView| ItemView::Album(item),
    )
}

fn album_as_library_item(album: &AlbumResult) -> (item: Result<LibraryItem, ProviderError>)
    ensures
        result_view(item) == library_album_item(*album),
{
    match normalize_search_album(album, ProviderOperation::Library) {
        Ok(item) => Ok(LibraryItem::Album(item)),
        Err(error) => Err(error),
    }
}

/// The page of the library's albums.
pub fn normalize_library_albums(results: &Vec<AlbumResult>) -> (made: Result<
    Page<LibraryItem>,
    ProviderError,
>)
    ensures
        is_library_page(made, results@.map_values(|album: AlbumResult| library_album_item(album))),
{
    let ghost model = |album: AlbumResult| library_album_item(album);
    library_page(collect_results(results, album_as_library_item, Ghost(model)))
}

/// The library item that a listed artist becomes.
pub open spec fn library_artist_item(artist: LibraryArtist) -> Result<ItemView, ProviderError> {
    search_result(
        browsable_item(
            BrowseItemView {
                id: artist.channel_id@,
                title: artist.artist@,
                subtitle: filled(artist.byline@),
                artwork_url: None,
            },
            ProviderOperation::Library,
        ),
        |item: BrowseItemView| ItemView::Artist(item),
    )
}

fn artist_as_library_item(artist: &LibraryArtist) -> (item: Result<LibraryItem, ProviderError>)
    ensures
        result_view(item) == library_artist_item(*artist),
{
    match browse_item(
        &artist.channel_id,
        &artist.artist,
        nonempty(artist.byline.clone()),
        None,
        ProviderOperation::Library,
    ) {
        Ok(item) => Ok(LibraryItem::Artist(item)),
        Err(error) => Err(error),
    }
}

/// The page of the library's artists.
pub fn normalize_library_artists(results: &Vec<LibraryArtist>) -> (made: Result<
    Page<LibraryItem>,
    ProviderError,
>)
    ensures
        is_library_page(made, results@.map_values(|artist: LibraryArtist| library_artist_item(artist))),
{
    let ghost model = |artist: LibraryArtist| library_artist_item(artist);
    library_page(collect_results(results, artist_as_library_item, Ghost(model)))
}

/// The library item that a listed playlist becomes.
pub open spec fn library_playlist_item(playlist: ListedPlaylist) -> Result<ItemView, ProviderError> {
    search_result(
        playlist_item(playlist, ProviderOperation::Library),
        |item: BrowseItemView| ItemView::Playlist(item),
    )
}

fn playlist_as_library_item(playlist: &ListedPlaylist) -> (item: Result<LibraryItem, ProviderError>)
    ensures
        result_view(item) == library_playlist_item(*playlist),
{
    match normalize_listed_playlist(playlist, ProviderOperation::Library) {
        Ok(item) => Ok(LibraryItem::Playlist(item)),
        Err(error) => Err(error),
    }
}

/// The page of the library's playlists.
pub fn normalize_library_playlists(results: &Vec<ListedPlaylist>) -> (made: Result<
    Page<LibraryItem>,
    ProviderError,
>)
    ensures
        is_library_page(made, results@.map_values(|playlist: ListedPlaylist| library_playlist_item(playlist))),
{
    let ghost model = |playlist: ListedPlaylist| library_playlist_item(playlist);
    library_page(collect_results(results, playlist_as_library_item, Ghost(model)))
}

/// The library item that a listed podcast becomes.
pub open spec fn library_podcast_item(podcast: LibraryPodcast) -> Result<ItemView, ProviderError> {
    {
        let creators = filled_values(texts(podcast.channels@));
        search_result(
            browsable_item(
                BrowseItemView {
                    id: podcast.podcast_id@,
                    title: podcast.title@,
                    subtitle: if creators.len() == 0 {
                        None
                    } else {
                        Some(joined_names(creators))
                    },
                    artwork_url: best_url(podcast.thumbnails@),
                },
                ProviderOperation::Library,
            ),
            |item: BrowseItemView| ItemView::Podcast(item),
        )
    }
}

fn podcast_as_library_item(podcast: &LibraryPodcast) -> (item: Result<LibraryItem, ProviderError>)
    ensures
        result_view(item) == library_podcast_item(*podcast),
{
    match browse_item(
        &podcast.podcast_id,
        &podcast.title,
        podcast_creators(podcast),
        artwork_url(&podcast.thumbnails),
        ProviderOperation::Library,
    ) {
        Ok(item) => Ok(LibraryItem::Podcast(item)),
        Err(error) => Err(error),
    }
}

/// The page of the library's podcasts.
pub fn normalize_library_podcasts(results: &Vec<LibraryPodcast>) -> (made: Result<
    Page<LibraryItem>,
    ProviderError,
>)
    ensures
        is_library_page(made, results@.map_values(|podcast: LibraryPodcast| library_podcast_item(podcast))),
{
    let ghost model = |podcast: LibraryPodcast| library_podcast_item(podcast);
    library_page(collect_results(results, podcast_as_library_item, Ghost(model)))
}

/// What went wrong at the provider, as far as it matters here.
#[derive(Clone, Copy, Debug, Eq, PartialEq, Structural)]
pub enum UpstreamError {
    /// A request header was missing or not understood.
    Header,
    OAuthTokenExpired,
    /// The response carried an error code.
    ErrorCode(u64),
    JsonParsing,
    InvalidResponse,
    UnableToSerializeOAuthToken,
    UnableToParseConfiguration,
    ApiStatusFailed,
    /// Anything else: the network, the system, an upload.
    Other,
}

/// What kind of failure an upstream error is.
pub open spec fn upstream_kind(error: UpstreamError) -> ProviderErrorKind {
    match error {
        UpstreamError::Header | UpstreamError::OAuthTokenExpired =>
            ProviderErrorKind::AuthenticationRequired,
        UpstreamError::ErrorCode(code) => if code == 401 || code == 403 {
            ProviderErrorKind::AuthenticationRequired
        } else if code == 404 {
            ProviderErrorKind::NotFound
        } else {
            ProviderErrorKind::Unavailable
        },
        UpstreamError::JsonParsing
        | UpstreamError::InvalidResponse
        | UpstreamError::UnableToSerializeOAuthToken
        | UpstreamError::UnableToParseConfiguration
        | UpstreamError::ApiStatusFailed => ProviderErrorKind::InvalidResponse,
        UpstreamError::Other => ProviderErrorKind::Unavailable,
    }
}

/// The provider error that an upstream error becomes.
pub fn map_upstream_error(error: UpstreamError, operation: ProviderOperation) -> (mapped:
    ProviderError)
    ensures
        mapped == (ProviderError { operation, kind: upstream_kind(error) }),
{
    let kind = match error {
        UpstreamError::Header | UpstreamError::OAuthTokenExpired => {
            ProviderErrorKind::AuthenticationRequired
        },
        UpstreamError::ErrorCode(code) => {
            if code == 401 || code == 403 {
                ProviderErrorKind::AuthenticationRequired
            } else if code == 404 {
                ProviderErrorKind::NotFound
            } else {
                ProviderErrorKind::Unavailable
            }
        },
        UpstreamError::JsonParsing
        | UpstreamError::InvalidResponse
        | UpstreamError::UnableToSerializeOAuthToken
        | UpstreamError::UnableToParseConfiguration
        | UpstreamError::ApiStatusFailed => ProviderErrorKind::InvalidResponse,
        UpstreamError::Other => ProviderErrorKind::Unavailable,
    };
    ProviderError::new(operation, kind)
}

/// Whether an upstream error of a lyrics request means that there are none.
pub fn means_no_lyrics(error: UpstreamError) -> (none: bool)
    ensures
        none == (upstream_kind(error) == ProviderErrorKind::InvalidResponse || upstream_kind(error)
            == ProviderErrorKind::NotFound),
{
    let mapped = map_upstream_error(error, ProviderOperation::Lyrics);
    match mapped.kind {
        ProviderErrorKind::InvalidResponse | ProviderErrorKind::NotFound => true,
        _ => false,
    }
}

/// Whether an operation may be asked for a media item: it must be the
/// provider's own, with a valid identifier.
pub open spec fn accepts_media(id: MediaIdView) -> bool {
    id.provider == YOUTUBE_MUSIC_PROVIDER@ && is_opaque_id(
        id.video_id,
        MAX_VIDEO_ID_BYTES as int,
    )
}

/// Checks the media item that radio or lyrics are asked for.
pub fn check_media_request(id: &MediaId, operation: ProviderOperation) -> (checked: Result<
    (),
    ProviderError,
>)
    ensures
        checked == if accepts_media(id@) {
            Ok::<(), ProviderError>(())
        } else {
            Err(invalid(operation))
        },
{
    if !same_text(id.provider.as_str(), YOUTUBE_MUSIC_PROVIDER) {
        return Err(invalid_response(operation));
    }
    validate_media_id(id.video_id.as_str(), operation)
}

/// The items of a radio that are not its seed.
pub open spec fn without_seed(items: Seq<MediaItemView>, seed: MediaIdView) -> Seq<MediaItemView> {
    items.filter(|item: MediaItemView| item.id != seed)
}

/// The items of a radio that are not its seed.
pub fn radio_items(items: Vec<MediaItem>, seed: &MediaId) -> (kept: Vec<MediaItem>)
    ensures
        media_views(kept@) == without_seed(media_views(items@), seed@),
{
    let ghost all = media_views(items@);
    let ghost keep = |item: MediaItemView| item.id != seed@;
    let mut kept: Vec<MediaItem> = Vec::new();
    let mut index: usize = 0;
    proof {
        reveal(Seq::filter);
        assert(all.take(0) =~= Seq::empty());
        assert(media_views(kept@) =~= Seq::empty());
    }
    while index < items.len()
        invariant
            index <= items.len(),
            all == media_views(items@),
            keep == (|item: MediaItemView| item.id != seed@),
            media_views(kept@) == all.take(index as int).filter(keep),
        decreases items.len() - index,
    {
        proof {
            reveal(Seq::filter);
            assert(all.take(index + 1).drop_last() =~= all.take(index as int));
            assert(all[index as int] == items@[index as int]@);
        }
        if !items[index].id.same(seed) {
            let ghost before = kept@;
            kept.push(items[index].clone());
            assert(media_views(kept@) =~= media_views(before).push(items@[index as int]@));
        }
        index = index + 1;
    }
    assert(all.take(all.len() as int) =~= all);
    kept
}

/// The lyrics page to ask for next, given the one that the item names.
pub fn lyrics_page(lyrics_id: Option<String>) -> (next: Result<String, ProviderError>)
    ensures
        match (lyrics_id, next) {
            (None, Err(error)) => error == (ProviderError {
                operation: ProviderOperation::Lyrics,
                kind: ProviderErrorKind::NotFound,
            }),
            (Some(id), Ok(next)) => is_opaque_id(id@, MAX_OPAQUE_ID_BYTES as int) && next@ == id@,
            (Some(id), Err(error)) => !is_opaque_id(id@, MAX_OPAQUE_ID_BYTES as int) && error
                == invalid(ProviderOperation::Lyrics),
            (None, Ok(_)) => false,
        },
{
    match lyrics_id {
        Some(id) => match validate_opaque_id(id.as_str(), ProviderOperation::Lyrics) {
            Ok(()) => Ok(id),
            Err(error) => Err(error),
        },
        None => Err(ProviderError::new(ProviderOperation::Lyrics, ProviderErrorKind::NotFound)),
    }
}

/// The lyrics that a lyrics page holds.
pub fn lyrics_of_page(text: Option<String>) -> (lyrics: Result<PlainLyrics, ProviderError>)
    ensures
        match (text, lyrics) {
            (None, Err(error)) => error == (ProviderError {
                operation: ProviderOperation::Lyrics,
                kind: ProviderErrorKind::NotFound,
            }),
            (None, Ok(_)) => false,
            (Some(text), Ok(lyrics)) => {
                &&& crate::text::utf8_len(trimmed(text@)) <= crate::lyrics::MAX_LYRICS_TEXT_BYTES
                &&& lyrics@ == crate::provider::model::cleaned_lyrics(text@)
                &&& lyrics@.len() > 0
            },
            (Some(text), Err(error)) => {
                &&& crate::text::utf8_len(trimmed(text@)) > crate::lyrics::MAX_LYRICS_TEXT_BYTES
                    || crate::provider::model::cleaned_lyrics(text@).len() == 0
                &&& error == invalid(ProviderOperation::Lyrics)
            },
        },
{
    match text {
        Some(text) => PlainLyrics::new(text.as_str()),
        None => Err(ProviderError::new(ProviderOperation::Lyrics, ProviderErrorKind::NotFound)),
    }
}

/// Whether a library section may be asked for: only when signed in, and not
/// for episodes, which the provider does not keep.
pub fn check_library_request(authentication: AuthenticationState, section: LibrarySection) -> (checked:
    Result<(), ProviderError>)
    ensures
        checked == if authentication == AuthenticationState::Unauthenticated {
            Err::<(), ProviderError>(
                ProviderError {
                    operation: ProviderOperation::Library,
                    kind: ProviderErrorKind::AuthenticationRequired,
                },
            )
        } else if section == LibrarySection::Episodes {
            Err(
                ProviderError {
                    operation: ProviderOperation::Library,
                    kind: ProviderErrorKind::Unsupported,
                },
            )
        } else {
            Ok(())
        },
{
    if authentication == AuthenticationState::Unauthenticated {
        return Err(authentication_required());
    }
    if section == LibrarySection::Episodes {
        return Err(unsupported(ProviderOperation::Library));
    }
    Ok(())
}

/// What one category of a search over everything gave: the items of a page and
/// whether they are stale, or an error.
pub type CategoryOutcome = Result<(Seq<ItemView>, bool), ProviderError>;

/// What a page says.
pub open spec fn page_outcome(result: Result<Page<SearchItem>, ProviderError>) -> CategoryOutcome {
    match result {
        Ok(page) => Ok((search_views(page.items@), page.stale)),
        Err(error) => Err(error),
    }
}

/// The items of all pages, in order.
pub open spec fn found_items(outcomes: Seq<CategoryOutcome>) -> Seq<ItemView>
    decreases outcomes.len(),
{
    if outcomes.len() == 0 {
        Seq::empty()
    } else {
        match outcomes.last() {
            Ok(page) => found_items(outcomes.drop_last()) + page.0,
            Err(_) => found_items(outcomes.drop_last()),
        }
    }
}

/// The first error among the outcomes.
pub open spec fn first_error(outcomes: Seq<CategoryOutcome>) -> Option<ProviderError>
    decreases outcomes.len(),
{
    if outcomes.len() == 0 {
        None
    } else {
        match (first_error(outcomes.drop_last()), outcomes.last()) {
            (Some(error), _) => Some(error),
            (None, Err(error)) => Some(error),
            (None, Ok(_)) => None,
        }
    }
}

/// What a search over everything gives: one page of all that was found, which
/// is stale if any part of it is; or, where every category failed, the first
/// error.
pub open spec fn merged_search(outcomes: Seq<CategoryOutcome>) -> CategoryOutcome {
    if exists|i: int| 0 <= i < outcomes.len() && (#[trigger] outcomes[i]) is Ok {
        Ok(
            (
                found_items(outcomes),
                exists|i: int|
                    0 <= i < outcomes.len() && (#[trigger] outcomes[i] matches Ok(page) && page.1),
            ),
        )
    } else {
        match first_error(outcomes) {
            Some(error) => Err(error),
            None => Err(
                ProviderError {
                    operation: ProviderOperation::Search,
                    kind: ProviderErrorKind::Unavailable,
                },
            ),
        }
    }
}

/// The order in which a search over everything asks for its categories.
pub open spec fn category_at(position: int) -> Option<SearchFilter> {
    if position == 0 {
        Some(SearchFilter::Songs)
    } else if position == 1 {
        Some(SearchFilter::Albums)
    } else if position == 2 {
        Some(SearchFilter::Artists)
    } else if position == 3 {
        Some(SearchFilter::Playlists)
    } else if position == 4 {
        Some(SearchFilter::Podcasts)
    } else if position == 5 {
        Some(SearchFilter::Episodes)
    } else {
        None
    }
}

/// A search over everything while it runs. The categories are asked one after
/// the other; where time runs out, [`SearchAll::finish`] keeps what is there.
pub struct SearchAll {
    items: Vec<SearchItem>,
    stale: bool,
    first_error: Option<ProviderError>,
    succeeded: bool,
    asked: usize,
    outcomes: Ghost<Seq<CategoryOutcome>>,
}

impl SearchAll {
    /// What the categories gave so far.
    pub closed spec fn outcomes(self) -> Seq<CategoryOutcome> {
        self.outcomes@
    }

    /// What every search keeps: it knows the merge of what it was given.
    pub closed spec fn wf(self) -> bool {
        let outcomes = self.outcomes@;
        &&& self.asked == outcomes.len() <= 6
        &&& search_views(self.items@) == found_items(outcomes)
        &&& self.first_error == first_error(outcomes)
        &&& self.succeeded == exists|i: int|
            0 <= i < outcomes.len() && (#[trigger] outcomes[i]) is Ok
        &&& self.stale == exists|i: int|
            0 <= i < outcomes.len() && (#[trigger] outcomes[i] matches Ok(page) && page.1)
    }

    pub fn new() -> (search: Self)
        ensures
            search.wf(),
            search.outcomes() == Seq::<CategoryOutcome>::empty(),
    {
        let search = SearchAll {
            items: Vec::new(),
            stale: false,
            first_error: None,
            succeeded: false,
            asked: 0,
            outcomes: Ghost(Seq::empty()),
        };
        assert(search_views(search.items@) =~= Seq::empty());
        search
    }

    /// The category to ask for next.
    pub fn next_category(&self) -> (category: Option<SearchFilter>)
        requires
            self.wf(),
        ensures
            category == category_at(self.outcomes().len() as int),
    {
        if self.asked == 0 {
            Some(SearchFilter::Songs)
        } else if self.asked == 1 {
            Some(SearchFilter::Albums)
        } else if self.asked == 2 {
            Some(SearchFilter::Artists)
        } else if self.asked == 3 {
            Some(SearchFilter::Playlists)
        } else if self.asked == 4 {
            Some(SearchFilter::Podcasts)
        } else if self.asked == 5 {
            Some(SearchFilter::Episodes)
        } else {
            None
        }
    }

    /// Takes the answer for the category that was to be asked next.
    pub fn record(&mut self, result: Result<Page<SearchItem>, ProviderError>)
        requires
            old(self).wf(),
            category_at(old(self).outcomes().len() as int) is Some,
        ensures
            final(self).wf(),
            final(self).outcomes() == old(self).outcomes().push(page_outcome(result)),
    {
        let ghost before = self.outcomes@;
        let ghost outcome = page_outcome(result);
        let ghost after = before.push(outcome);
        proof {
            assert(after.drop_last() =~= before);
            assert(after.last() == outcome);
            assert forall|i: int| 0 <= i < before.len() implies #[trigger] before[i] == after[i] by {}
            if exists|i: int| 0 <= i < before.len() && (#[trigger] before[i]) is Ok {
                let i = choose|i: int| 0 <= i < before.len() && (#[trigger] before[i]) is Ok;
                assert(after[i] is Ok);
            }
            if exists|i: int|
                0 <= i < before.len() && (#[trigger] before[i] matches Ok(page) && page.1) {
                let i = choose|i: int|
                    0 <= i < before.len() && (#[trigger] before[i] matches Ok(page) && page.1);
                assert(after[i] matches Ok(page) && page.1);
            }
            assert(after[before.len() as int] == outcome);
        }
        match result {
            Ok(page) => {
                self.succeeded = true;
                self.stale = self.stale || page.stale;
                let mut items = page.items;
                let ghost kept = self.items@;
                let ghost added = items@;
                self.items.append(&mut items);
                assert(search_views(self.items@) =~= search_views(kept) + search_views(added));
            },
            Err(error) => {
                if self.first_error.is_none() {
                    self.first_error = Some(error);
                }
            },
        }
        self.asked = self.asked + 1;
        self.outcomes = Ghost(after);
    }

    /// The result of the search.
    pub fn finish(self) -> (result: Result<Page<SearchItem>, ProviderError>)
        requires
            self.wf(),
        ensures
            page_outcome(result) == merged_search(self.outcomes()),
            result matches Ok(page) ==> page.continuation is None,
    {
        if self.succeeded {
            Ok(Page { items: self.items, continuation: None, stale: self.stale })
        } else {
            match self.first_error {
                Some(error) => Err(error),
                None => Err(unavailable(ProviderOperation::Search)),
            }
        }
    }
}

/// What loading one chart playlist gave: its items or an error.
pub type PlaylistOutcome = Result<Seq<MediaItemView>, ProviderError>;

/// What a loaded playlist says.
pub open spec fn loaded_outcome(result: Result<Vec<MediaItem>, ProviderError>) -> PlaylistOutcome {
    match result {
        Ok(items) => Ok(media_views(items@)),
        Err(error) => Err(error),
    }
}

/// The sections of the playlists that have items, in order.
pub open spec fn hydrated_sections(
    references: Seq<ReferenceView>,
    outcomes: Seq<PlaylistOutcome>,
) -> Seq<ChartSectionView>
    decreases outcomes.len(),
{
    if outcomes.len() == 0 {
        Seq::empty()
    } else {
        let before = hydrated_sections(references, outcomes.drop_last());
        match outcomes.last() {
            Ok(items) => if items.len() > 0 {
                before.push(
                    ChartSectionView { title: references[outcomes.len() - 1].title, items },
                )
            } else {
                before
            },
            Err(_) => before,
        }
    }
}

/// The kind of the first playlist error, as an error of the charts.
pub open spec fn first_chart_error(outcomes: Seq<PlaylistOutcome>) -> Option<ProviderError>
    decreases outcomes.len(),
{
    if outcomes.len() == 0 {
        None
    } else {
        match (first_chart_error(outcomes.drop_last()), outcomes.last()) {
            (Some(error), _) => Some(error),
            (None, Err(error)) => Some(
                ProviderError { operation: ProviderOperation::Charts, kind: error.kind },
            ),
            (None, Ok(_)) => None,
        }
    }
}

/// The charts that come of a query: its own sections, or else those of the
/// playlists it refers to. Where neither gives any, the first error stands.
pub open spec fn resolved_charts(output: OutputView, outcomes: Seq<PlaylistOutcome>) -> Result<
    Seq<ChartSectionView>,
    ProviderError,
> {
    let hydrated = hydrated_sections(output.references, outcomes);
    if output.sections.len() > 0 {
        Ok(output.sections)
    } else if hydrated.len() > 0 {
        Ok(hydrated)
    } else {
        match first_chart_error(outcomes) {
            Some(error) => Err(error),
            None => Err(invalid(ProviderOperation::Charts)),
        }
    }
}

/// A charts query while the playlists it refers to are loaded, one after the
/// other. One that cannot be loaded does not stop the others.
pub struct ChartResolution {
    sections: Vec<ChartSection>,
    references: Vec<ChartPlaylistReference>,
    hydrated: Vec<ChartSection>,
    first_error: Option<ProviderError>,
    asked: usize,
    outcomes: Ghost<Seq<PlaylistOutcome>>,
}

impl ChartResolution {
    /// What the query gave.
    pub closed spec fn output(self) -> OutputView {
        OutputView {
            sections: section_views(self.sections@),
            references: crate::provider::charts::reference_views(self.references@),
        }
    }

    /// What the playlists gave so far.
    pub closed spec fn outcomes(self) -> Seq<PlaylistOutcome> {
        self.outcomes@
    }

    /// What every resolution keeps: it knows what the playlists it was given
    /// come to.
    pub closed spec fn wf(self) -> bool {
        &&& self.asked == self.outcomes@.len() <= self.references@.len()
        &&& section_views(self.hydrated@) == hydrated_sections(
            self.output().references,
            self.outcomes@,
        )
        &&& self.first_error == first_chart_error(self.outcomes@)
    }

    /// Whether a playlist is to be loaded next: only where the query gave no
    /// sections of its own.
    pub open spec fn awaits(self) -> bool {
        self.output().sections.len() == 0 && self.outcomes().len() < self.output().references.len()
    }

    pub fn new(output: ChartsQueryOutput) -> (resolution: Self)
        ensures
            resolution.wf(),
            resolution.output() == output@,
            resolution.outcomes() == Seq::<PlaylistOutcome>::empty(),
    {
        let (sections, references) = output.into_parts();
        let resolution = ChartResolution {
            sections,
            references,
            hydrated: Vec::new(),
            first_error: None,
            asked: 0,
            outcomes: Ghost(Seq::empty()),
        };
        assert(section_views(resolution.hydrated@) =~= Seq::empty());
        resolution
    }

    /// The playlist to load next.
    pub fn next_playlist(&self) -> (id: Option<&str>)
        requires
            self.wf(),
        ensures
            match id {
                Some(id) => self.awaits() && id@ == self.output().references[
                    self.outcomes().len() as int
                ].playlist_id,
                None => !self.awaits(),
            },
    {
        assert(self.output().references.len() == self.references.len());
        assert(self.output().sections.len() == self.sections.len());
        if self.sections.len() == 0 && self.asked < self.references.len() {
            Some(self.references[self.asked].playlist_id())
        } else {
            None
        }
    }

    /// Takes what loading that playlist gave.
    pub fn record(&mut self, result: Result<Vec<MediaItem>, ProviderError>)
        requires
            old(self).wf(),
            old(self).awaits(),
        ensures
            final(self).wf(),
            final(self).output() == old(self).output(),
            final(self).outcomes() == old(self).outcomes().push(loaded_outcome(result)),
    {
        let ghost before = self.outcomes@;
        let ghost outcome = loaded_outcome(result);
        let ghost after = before.push(outcome);
        assert(after.drop_last() =~= before);
        assert(self.output().references.len() == self.references.len());
        match result {
            Ok(items) => {
                assert(media_views(items@).len() == items.len());
                if items.len() > 0 {
                    let ghost kept = self.hydrated@;
                    let title = self.references[self.asked].title().to_owned();
                    self.hydrated.push(ChartSection { title, items });
                    assert(section_views(self.hydrated@) =~= section_views(kept).push(
                        ChartSectionView { title: title@, items: media_views(items@) },
                    ));
                }
            },
            Err(error) => {
                if self.first_error.is_none() {
                    self.first_error = Some(
                        ProviderError::new(ProviderOperation::Charts, error.kind),
                    );
                }
            },
        }
        self.asked = self.asked + 1;
        self.outcomes = Ghost(after);
        assert(self.output() =~= old(self).output());
    }

    /// The charts, once no playlist is left to load.
    pub fn finish(self) -> (result: Result<Vec<ChartSection>, ProviderError>)
        requires
            self.wf(),
        ensures
            match result {
                Ok(sections) => resolved_charts(self.output(), self.outcomes()) == Ok::<
                    Seq<ChartSectionView>,
                    ProviderError,
                >(section_views(sections@)),
                Err(error) => resolved_charts(self.output(), self.outcomes()) == Err::<
                    Seq<ChartSectionView>,
                    ProviderError,
                >(error),
            },
    {
        assert(self.output().sections.len() == self.sections.len());
        assert(section_views(self.hydrated@).len() == self.hydrated.len());
        if self.sections.len() > 0 {
            return Ok(self.sections);
        }
        if self.hydrated.len() > 0 {
            return Ok(self.hydrated);
        }
        match self.first_error {
            Some(error) => Err(error),
            None => Err(invalid_response(ProviderOperation::Charts)),
        }
    }
}

/// A search over everything succeeds exactly when one of its categories did.
pub proof fn law_search_fails_only_when_all_fail(outcomes: Seq<CategoryOutcome>)
    ensures
        merged_search(outcomes) is Err <==> forall|i: int|
            0 <= i < outcomes.len() ==> (#[trigger] outcomes[i]) is Err,
{
    if forall|i: int| 0 <= i < outcomes.len() ==> (#[trigger] outcomes[i]) is Err {
        assert(!(exists|i: int| 0 <= i < outcomes.len() && (#[trigger] outcomes[i]) is Ok));
    }
}

/// Stopping a search early keeps what was found before: the items found later
/// only follow those found earlier.
pub proof fn law_search_keeps_earlier_items(
    earlier: Seq<CategoryOutcome>,
    later: Seq<CategoryOutcome>,
)
    ensures
        found_items(earlier).is_prefix_of(found_items(earlier + later)),
        first_error(earlier) is Some ==> first_error(earlier + later) == first_error(earlier),
    decreases later.len(),
{
    if later.len() == 0 {
        assert(earlier + later =~= earlier);
    } else {
        law_search_keeps_earlier_items(earlier, later.drop_last());
        assert((earlier + later).drop_last() =~= earlier + later.drop_last());
    }
}

/// Charts of their own are given as they are, whatever the playlists hold.
pub proof fn law_own_sections_win(output: OutputView, outcomes: Seq<PlaylistOutcome>)
    requires
        output.sections.len() > 0,
    ensures
        resolved_charts(output, outcomes) == Ok::<Seq<ChartSectionView>, ProviderError>(
            output.sections,
        ),
{
}

/// Whether loading a playlist gave items.
pub open spec fn gave_items(outcome: PlaylistOutcome) -> bool {
    outcome matches Ok(items) && items.len() > 0
}

proof fn lemma_hydrated_sections(references: Seq<ReferenceView>, outcomes: Seq<PlaylistOutcome>)
    ensures
        hydrated_sections(references, outcomes).len() > 0 <==> exists|i: int|
            0 <= i < outcomes.len() && gave_items(#[trigger] outcomes[i]),
        forall|i: int|
            0 <= i < outcomes.len() && gave_items(#[trigger] outcomes[i]) ==> hydrated_sections(
                references,
                outcomes,
            ).contains(ChartSectionView { title: references[i].title, items: outcomes[i]->Ok_0 }),
    decreases outcomes.len(),
{
    if outcomes.len() > 0 {
        let shorter = outcomes.drop_last();
        let before = hydrated_sections(references, shorter);
        let all = hydrated_sections(references, outcomes);
        lemma_hydrated_sections(references, shorter);
        if gave_items(outcomes.last()) {
            assert(outcomes[outcomes.len() - 1] == outcomes.last());
            assert(all[before.len() as int].items == outcomes.last()->Ok_0);
        }
        if before.len() > 0 {
            let i = choose|i: int| 0 <= i < shorter.len() && gave_items(#[trigger] shorter[i]);
            assert(gave_items(outcomes[i]));
        }
        assert forall|i: int|
            0 <= i < outcomes.len() && gave_items(#[trigger] outcomes[i]) implies all.contains(
            ChartSectionView { title: references[i].title, items: outcomes[i]->Ok_0 },
        ) by {
            if i < shorter.len() {
                let section = ChartSectionView {
                    title: references[i].title,
                    items: shorter[i]->Ok_0,
                };
                assert(gave_items(shorter[i]));
                assert(before.contains(section));
                let j = choose|j: int| 0 <= j < before.len() && before[j] == section;
                assert(all[j] == section);
            }
        }
    }
}

/// Where the charts have no sections of their own, each playlist that gave items
/// becomes a section, whatever happened to the others. The charts fail only where
/// none gave items.
pub proof fn law_one_playlist_is_enough(output: OutputView, outcomes: Seq<PlaylistOutcome>)
    requires
        output.sections.len() == 0,
    ensures
        resolved_charts(output, outcomes) is Ok <==> exists|i: int|
            0 <= i < outcomes.len() && gave_items(#[trigger] outcomes[i]),
        forall|i: int|
            0 <= i < outcomes.len() && gave_items(#[trigger] outcomes[i]) ==> resolved_charts(
                output,
                outcomes,
            )->Ok_0.contains(
                ChartSectionView {
                    title: output.references[i].title,
                    items: outcomes[i]->Ok_0,
                },
            ),
{
    lemma_hydrated_sections(output.references, outcomes);
}

} // verus!
