//! The values that a music provider gives and the errors it reports.

use vstd::prelude::*;
use vstd::string::*;

use crate::domain::{
    clone_media_items, clone_optional_text, clone_texts, media_views, optional_text, texts, MediaItem, MediaItemView, MediaKind,
};
use crate::lyrics::{
    law_normalized_lyrics_are_no_longer, law_normalized_lyrics_are_printable,
    lemma_printable_is_kept, normalize_lyrics_text, normalized_lyrics, MAX_LYRICS_TEXT_BYTES,
};
use crate::text::{
    append_decimal, byte_len, decimal_digits, is_control_char, lemma_trimmed,
    lemma_utf8_len_bounds, quote, quoted, trim, trimmed, utf8_len,
};

verus! {

/// One page of results.
#[derive(PartialEq)]
pub struct Page<T> {
    pub items: Vec<T>,
    /// Opaque token retained for the runtime to pass back to the provider.
    pub continuation: Option<String>,
    pub stale: bool,
}

impl<T: Clone> Clone for Page<T> {
    fn clone(&self) -> (copy: Self)
        ensures
            copy.items@.len() == self.items@.len(),
            forall|index: int|
                0 <= index < self.items@.len() ==> cloned::<T>(
                    self.items@[index],
                    #[trigger] copy.items@[index],
                ),
            optional_text(copy.continuation) == optional_text(self.continuation),
            copy.stale == self.stale,
    {
        Page {
            items: self.items.clone(),
            continuation: clone_optional_text(&self.continuation),
            stale: self.stale,
        }
    }
}

impl<T> Default for Page<T> {
    fn default() -> (page: Self)
        ensures
            page.items@ == Seq::<T>::empty(),
            page.continuation is None,
            !page.stale,
    {
        Page { items: Vec::new(), continuation: None, stale: false }
    }
}

impl<T> Page<T> {
    /// What may be logged of a page: its size, not its contents.
    pub fn summary(&self) -> (text: String)
        ensures
            text@ == "Page { item_count: "@ + decimal_digits(self.items@.len())
                + ", continuation_present: "@ + bool_text(self.continuation is Some) + ", stale: "@
                + bool_text(self.stale) + ", .. }"@,
    {
        let mut text = String::new();
        text.append("Page { item_count: ");
        append_decimal(&mut text, self.items.len() as u64);
        text.append(", continuation_present: ");
        append_bool(&mut text, self.continuation.is_some());
        text.append(", stale: ");
        append_bool(&mut text, self.stale);
        text.append(", .. }");
        assert(text@ =~= "Page { item_count: "@ + decimal_digits(self.items@.len())
            + ", continuation_present: "@ + bool_text(self.continuation is Some) + ", stale: "@
            + bool_text(self.stale) + ", .. }"@);
        text
    }
}

/// `value` as it is written in logs.
pub open spec fn bool_text(value: bool) -> Seq<char> {
    if value {
        "true"@
    } else {
        "false"@
    }
}

/// Appends `value` as it is written in logs.
pub fn append_bool(text: &mut String, value: bool)
    ensures
        final(text)@ == old(text)@ + bool_text(value),
{
    if value {
        text.append("true");
    } else {
        text.append("false");
    }
}

/// Something that can be opened: an album, artist, playlist or podcast.
#[derive(Eq, PartialEq)]
pub struct BrowseItem {
    pub id: String,
    pub title: String,
    pub subtitle: Option<String>,
    pub artwork_url: Option<String>,
}

/// What a [`BrowseItem`] says.
#[verifier::ext_equal]
pub struct BrowseItemView {
    pub id: Seq<char>,
    pub title: Seq<char>,
    pub subtitle: Option<Seq<char>>,
    pub artwork_url: Option<Seq<char>>,
}

impl View for BrowseItem {
    type V = BrowseItemView;

    open spec fn view(&self) -> BrowseItemView {
        BrowseItemView {
            id: self.id@,
            title: self.title@,
            subtitle: optional_text(self.subtitle),
            artwork_url: optional_text(self.artwork_url),
        }
    }
}

impl Clone for BrowseItem {
    fn clone(&self) -> (copy: Self)
        ensures
            copy@ == self@,
    {
        BrowseItem {
            id: self.id.clone(),
            title: self.title.clone(),
            subtitle: clone_optional_text(&self.subtitle),
            artwork_url: clone_optional_text(&self.artwork_url),
        }
    }
}

/// What may be logged of an item that can be opened.
pub open spec fn browse_summary(item: BrowseItemView) -> Seq<char> {
    "BrowseItem { id: "@ + quoted(item.id) + ", title: "@ + quoted(item.title) + ", subtitle: "@
        + (match item.subtitle {
        Some(subtitle) => "Some("@ + quoted(subtitle) + ")"@,
        None => "None"@,
    }) + ", artwork_present: "@ + bool_text(item.artwork_url is Some) + ", .. }"@
}

impl BrowseItem {
    /// What may be logged of the item: not where its artwork is.
    pub fn summary(&self) -> (text: String)
        ensures
            text@ == browse_summary(self@),
    {
        let mut text = "BrowseItem { id: ".to_owned();
        text.append(quote(self.id.as_str()).as_str());
        text.append(", title: ");
        text.append(quote(self.title.as_str()).as_str());
        text.append(", subtitle: ");
        match &self.subtitle {
            Some(subtitle) => {
                text.append("Some(");
                text.append(quote(subtitle.as_str()).as_str());
                text.append(")");
            },
            None => {
                text.append("None");
            },
        }
        text.append(", artwork_present: ");
        append_bool(&mut text, self.artwork_url.is_some());
        text.append(", .. }");
        assert(text@ =~= browse_summary(self@));
        text
    }
}

/// How a kind of media is written in logs.
pub open spec fn kind_text(kind: MediaKind) -> Seq<char> {
    match kind {
        MediaKind::Song => "Song"@,
        MediaKind::Video => "Video"@,
        MediaKind::PodcastEpisode => "PodcastEpisode"@,
    }
}

/// What may be logged of an item of a list: of one that can be played neither what
/// it is nor where its artwork is.
pub open spec fn item_summary(list: Seq<char>, item: ItemView) -> Seq<char> {
    match item {
        ItemView::Playable(media) => list + "::Playable { kind: "@ + kind_text(media.kind)
            + ", artwork_present: "@ + bool_text(media.artwork_url is Some) + ", .. }"@,
        ItemView::Album(item) => list + "::Album("@ + browse_summary(item) + ")"@,
        ItemView::Artist(item) => list + "::Artist("@ + browse_summary(item) + ")"@,
        ItemView::Playlist(item) => list + "::Playlist("@ + browse_summary(item) + ")"@,
        ItemView::Podcast(item) => list + "::Podcast("@ + browse_summary(item) + ")"@,
    }
}

fn summary_of_media(list: &str, media: &MediaItem) -> (text: String)
    ensures
        text@ == item_summary(list@, ItemView::Playable(media@)),
{
    let mut text = list.to_owned();
    text.append("::Playable { kind: ");
    text.append(
        match media.kind {
            MediaKind::Song => "Song",
            MediaKind::Video => "Video",
            MediaKind::PodcastEpisode => "PodcastEpisode",
        },
    );
    text.append(", artwork_present: ");
    append_bool(&mut text, media.artwork_url.is_some());
    text.append(", .. }");
    assert(text@ =~= item_summary(list@, ItemView::Playable(media@)));
    text
}

fn summary_of_browse(list: &str, variant: &str, item: &BrowseItem) -> (text: String)
    ensures
        text@ == list@ + variant@ + browse_summary(item@) + ")"@,
{
    let mut text = list.to_owned();
    text.append(variant);
    text.append(item.summary().as_str());
    text.append(")");
    text
}

/// A search result.
#[derive(PartialEq)]
pub enum SearchItem {
    Playable(MediaItem),
    Album(BrowseItem),
    Artist(BrowseItem),
    Playlist(BrowseItem),
    Podcast(BrowseItem),
}

/// What a search result or library item says.
#[verifier::ext_equal]
pub enum ItemView {
    Playable(MediaItemView),
    Album(BrowseItemView),
    Artist(BrowseItemView),
    Playlist(BrowseItemView),
    Podcast(BrowseItemView),
}

impl View for SearchItem {
    type V = ItemView;

    open spec fn view(&self) -> ItemView {
        match self {
            SearchItem::Playable(item) => ItemView::Playable(item@),
            SearchItem::Album(item) => ItemView::Album(item@),
            SearchItem::Artist(item) => ItemView::Artist(item@),
            SearchItem::Playlist(item) => ItemView::Playlist(item@),
            SearchItem::Podcast(item) => ItemView::Podcast(item@),
        }
    }
}

impl Clone for SearchItem {
    fn clone(&self) -> (copy: Self)
        ensures
            copy@ == self@,
    {
        match self {
            SearchItem::Playable(item) => SearchItem::Playable(item.clone()),
            SearchItem::Album(item) => SearchItem::Album(item.clone()),
            SearchItem::Artist(item) => SearchItem::Artist(item.clone()),
            SearchItem::Playlist(item) => SearchItem::Playlist(item.clone()),
            SearchItem::Podcast(item) => SearchItem::Podcast(item.clone()),
        }
    }
}

impl SearchItem {
    /// What may be logged of the item.
    pub fn summary(&self) -> (text: String)
        ensures
            text@ == item_summary("SearchItem"@, self@),
    {
        match self {
            SearchItem::Playable(media) => summary_of_media("SearchItem", media),
            SearchItem::Album(item) => summary_of_browse("SearchItem", "::Album(", item),
            SearchItem::Artist(item) => summary_of_browse("SearchItem", "::Artist(", item),
            SearchItem::Playlist(item) => summary_of_browse("SearchItem", "::Playlist(", item),
            SearchItem::Podcast(item) => summary_of_browse("SearchItem", "::Podcast(", item),
        }
    }
}

/// What a list of search results says.
pub open spec fn search_views(items: Seq<SearchItem>) -> Seq<ItemView> {
    items.map_values(|item: SearchItem| item@)
}

/// A podcast with its episodes.
#[derive(PartialEq)]
pub struct Podcast {
    pub id: String,
    pub title: String,
    pub creators: Vec<String>,
    pub description: Option<String>,
    pub artwork_url: Option<String>,
    pub episodes: Vec<MediaItem>,
}

/// What a [`Podcast`] says.
#[verifier::ext_equal]
pub struct PodcastView {
    pub id: Seq<char>,
    pub title: Seq<char>,
    pub creators: Seq<Seq<char>>,
    pub description: Option<Seq<char>>,
    pub artwork_url: Option<Seq<char>>,
    pub episodes: Seq<MediaItemView>,
}

impl View for Podcast {
    type V = PodcastView;

    open spec fn view(&self) -> PodcastView {
        PodcastView {
            id: self.id@,
            title: self.title@,
            creators: texts(self.creators@),
            description: optional_text(self.description),
            artwork_url: optional_text(self.artwork_url),
            episodes: media_views(self.episodes@),
        }
    }
}

impl Clone for Podcast {
    fn clone(&self) -> (copy: Self)
        ensures
            copy@ == self@,
    {
        Podcast {
            id: self.id.clone(),
            title: self.title.clone(),
            creators: clone_texts(&self.creators),
            description: clone_optional_text(&self.description),
            artwork_url: clone_optional_text(&self.artwork_url),
            episodes: clone_media_items(&self.episodes),
        }
    }
}

/// What may be logged of a podcast.
pub open spec fn podcast_summary(podcast: PodcastView) -> Seq<char> {
    "Podcast { id: "@ + quoted(podcast.id) + ", title: "@ + quoted(podcast.title)
        + ", creator_count: "@ + decimal_digits(podcast.creators.len())
        + ", description_present: "@ + bool_text(podcast.description is Some)
        + ", artwork_present: "@ + bool_text(podcast.artwork_url is Some) + ", episode_count: "@
        + decimal_digits(podcast.episodes.len()) + ", .. }"@
}

impl Podcast {
    /// What may be logged of the podcast.
    pub fn summary(&self) -> (text: String)
        ensures
            text@ == podcast_summary(self@),
    {
        assert(self@.creators.len() == self.creators@.len());
        assert(self@.episodes.len() == self.episodes@.len());
        let mut text = "Podcast { id: ".to_owned();
        text.append(quote(self.id.as_str()).as_str());
        text.append(", title: ");
        text.append(quote(self.title.as_str()).as_str());
        text.append(", creator_count: ");
        append_decimal(&mut text, self.creators.len() as u64);
        text.append(", description_present: ");
        append_bool(&mut text, self.description.is_some());
        text.append(", artwork_present: ");
        append_bool(&mut text, self.artwork_url.is_some());
        text.append(", episode_count: ");
        append_decimal(&mut text, self.episodes.len() as u64);
        text.append(", .. }");
        assert(text@ =~= podcast_summary(self@));
        text
    }
}

/// A part of the user's library.
#[derive(Clone, Copy, Debug, Eq, Hash, PartialEq, Structural)]
pub enum LibrarySection {
    Songs,
    Albums,
    Artists,
    Playlists,
    Podcasts,
    Episodes,
}

/// An item of the user's library.
#[derive(PartialEq)]
pub enum LibraryItem {
    Playable(MediaItem),
    Album(BrowseItem),
    Artist(BrowseItem),
    Playlist(BrowseItem),
    Podcast(BrowseItem),
}

impl View for LibraryItem {
    type V = ItemView;

    open spec fn view(&self) -> ItemView {
        match self {
            LibraryItem::Playable(item) => ItemView::Playable(item@),
            LibraryItem::Album(item) => ItemView::Album(item@),
            LibraryItem::Artist(item) => ItemView::Artist(item@),
            LibraryItem::Playlist(item) => ItemView::Playlist(item@),
            LibraryItem::Podcast(item) => ItemView::Podcast(item@),
        }
    }
}

impl Clone for LibraryItem {
    fn clone(&self) -> (copy: Self)
        ensures
            copy@ == self@,
    {
        match self {
            LibraryItem::Playable(item) => LibraryItem::Playable(item.clone()),
            LibraryItem::Album(item) => LibraryItem::Album(item.clone()),
            LibraryItem::Artist(item) => LibraryItem::Artist(item.clone()),
            LibraryItem::Playlist(item) => LibraryItem::Playlist(item.clone()),
            LibraryItem::Podcast(item) => LibraryItem::Podcast(item.clone()),
        }
    }
}

impl LibraryItem {
    /// What may be logged of the item.
    pub fn summary(&self) -> (text: String)
        ensures
            text@ == item_summary("LibraryItem"@, self@),
    {
        match self {
            LibraryItem::Playable(media) => summary_of_media("LibraryItem", media),
            LibraryItem::Album(item) => summary_of_browse("LibraryItem", "::Album(", item),
            LibraryItem::Artist(item) => summary_of_browse("LibraryItem", "::Artist(", item),
            LibraryItem::Playlist(item) => summary_of_browse("LibraryItem", "::Playlist(", item),
            LibraryItem::Podcast(item) => summary_of_browse("LibraryItem", "::Podcast(", item),
        }
    }
}

/// What a list of library items says.
pub open spec fn library_views(items: Seq<LibraryItem>) -> Seq<ItemView> {
    items.map_values(|item: LibraryItem| item@)
}

/// Whether the provider acts for a signed-in user.
#[derive(Clone, Copy, Debug, Eq, PartialEq, Structural)]
pub enum AuthenticationState {
    Unauthenticated,
    Authenticated,
}

/// Why a provider operation failed.
#[derive(Clone, Copy, Debug, Eq, PartialEq, Structural)]
pub enum ProviderErrorKind {
    Unavailable,
    AuthenticationRequired,
    NotFound,
    InvalidResponse,
    Unsupported,
    Cancelled,
}

impl ProviderErrorKind {
    /// The message shown for the kind of failure.
    pub fn message(&self) -> (text: &'static str)
        ensures
            text@ == kind_message(*self),
    {
        match self {
            ProviderErrorKind::Unavailable => "provider is unavailable",
            ProviderErrorKind::AuthenticationRequired => "authentication is required",
            ProviderErrorKind::NotFound => "requested item was not found",
            ProviderErrorKind::InvalidResponse => "provider returned an invalid response",
            ProviderErrorKind::Unsupported => "provider does not support this operation",
            ProviderErrorKind::Cancelled => "operation was cancelled",
        }
    }
}

/// The message shown for a kind of failure.
pub open spec fn kind_message(kind: ProviderErrorKind) -> Seq<char> {
    match kind {
        ProviderErrorKind::Unavailable => "provider is unavailable"@,
        ProviderErrorKind::AuthenticationRequired => "authentication is required"@,
        ProviderErrorKind::NotFound => "requested item was not found"@,
        ProviderErrorKind::InvalidResponse => "provider returned an invalid response"@,
        ProviderErrorKind::Unsupported => "provider does not support this operation"@,
        ProviderErrorKind::Cancelled => "operation was cancelled"@,
    }
}

/// What was asked of the provider.
#[derive(Clone, Copy, Debug, Eq, PartialEq, Structural)]
pub enum ProviderOperation {
    Search,
    Charts,
    Playlist,
    Podcast,
    Radio,
    Library,
    Authentication,
    Lyrics,
}

impl ProviderOperation {
    /// The name of the operation.
    pub fn name(&self) -> (text: &'static str)
        ensures
            text@ == operation_name(*self),
    {
        match self {
            ProviderOperation::Search => "search",
            ProviderOperation::Charts => "charts",
            ProviderOperation::Playlist => "playlist",
            ProviderOperation::Podcast => "podcast",
            ProviderOperation::Radio => "radio",
            ProviderOperation::Library => "library",
            ProviderOperation::Authentication => "authentication",
            ProviderOperation::Lyrics => "lyrics",
        }
    }
}

/// The name of an operation.
pub open spec fn operation_name(operation: ProviderOperation) -> Seq<char> {
    match operation {
        ProviderOperation::Search => "search"@,
        ProviderOperation::Charts => "charts"@,
        ProviderOperation::Playlist => "playlist"@,
        ProviderOperation::Podcast => "podcast"@,
        ProviderOperation::Radio => "radio"@,
        ProviderOperation::Library => "library"@,
        ProviderOperation::Authentication => "authentication"@,
        ProviderOperation::Lyrics => "lyrics"@,
    }
}

/// A failure of the provider. It carries nothing of what the provider sent.
#[derive(Clone, Copy, Debug, Eq, PartialEq, Structural)]
pub struct ProviderError {
    pub operation: ProviderOperation,
    pub kind: ProviderErrorKind,
}

impl ProviderError {
    pub fn new(operation: ProviderOperation, kind: ProviderErrorKind) -> (error: Self)
        ensures
            error == (ProviderError { operation, kind }),
    {
        ProviderError { operation, kind }
    }

    /// The message shown for the error.
    pub fn message(&self) -> (text: String)
        ensures
            text@ == operation_name(self.operation) + " failed: "@ + kind_message(self.kind),
    {
        let mut text = String::new();
        text.append(self.operation.name());
        text.append(" failed: ");
        text.append(self.kind.message());
        assert(text@ =~= operation_name(self.operation) + " failed: "@ + kind_message(self.kind));
        text
    }
}

/// Plain lyrics: bounded, normalized, trimmed and not empty.
#[derive(Eq, PartialEq)]
pub struct PlainLyrics {
    text: String,
}

impl View for PlainLyrics {
    type V = Seq<char>;

    closed spec fn view(&self) -> Seq<char> {
        self.text@
    }
}

/// The lyrics that `text` holds once it is cleaned.
pub open spec fn cleaned_lyrics(text: Seq<char>) -> Seq<char> {
    trimmed(normalized_lyrics(trimmed(text)))
}

/// Whether `text` can be plain lyrics: bounded, not empty, and as it is once it is
/// cleaned.
pub open spec fn is_plain_lyrics(text: Seq<char>) -> bool {
    &&& 0 < utf8_len(text) <= MAX_LYRICS_TEXT_BYTES
    &&& text == trimmed(text)
    &&& text == normalized_lyrics(text)
}

proof fn lemma_cleaned_lyrics(text: Seq<char>)
    requires
        utf8_len(trimmed(text)) <= MAX_LYRICS_TEXT_BYTES,
        cleaned_lyrics(text).len() > 0,
    ensures
        is_plain_lyrics(cleaned_lyrics(text)),
{
    let normalized = normalized_lyrics(trimmed(text));
    let cleaned = trimmed(normalized);
    law_normalized_lyrics_are_no_longer(trimmed(text));
    law_normalized_lyrics_are_printable(trimmed(text));
    lemma_trimmed(normalized);
    lemma_utf8_len_bounds(cleaned);
    assert forall|i: int| 0 <= i < cleaned.len() implies (#[trigger] cleaned[i] == '\n'
        || !is_control_char(cleaned[i])) by {
        assert(normalized.contains(cleaned[i]));
    }
    lemma_printable_is_kept(cleaned);
}

impl Clone for PlainLyrics {
    fn clone(&self) -> (copy: Self)
        ensures
            copy@ == self@,
    {
        proof {
            use_type_invariant(self);
        }
        PlainLyrics { text: self.text.clone() }
    }
}

impl PlainLyrics {
    /// What all lyrics keep.
    #[verifier::type_invariant]
    spec fn valid(self) -> bool {
        is_plain_lyrics(self.text@)
    }

    /// Creates bounded, non-empty plain lyrics.
    pub fn new(text: &str) -> (created: Result<Self, ProviderError>)
        ensures
            match created {
                Ok(lyrics) => {
                    &&& utf8_len(trimmed(text@)) <= MAX_LYRICS_TEXT_BYTES
                    &&& cleaned_lyrics(text@).len() > 0
                    &&& lyrics@ == cleaned_lyrics(text@)
                    &&& is_plain_lyrics(lyrics@)
                },
                Err(error) => {
                    &&& utf8_len(trimmed(text@)) > MAX_LYRICS_TEXT_BYTES || cleaned_lyrics(
                        text@,
                    ).len() == 0
                    &&& error == (ProviderError {
                        operation: ProviderOperation::Lyrics,
                        kind: ProviderErrorKind::InvalidResponse,
                    })
                },
            },
    {
        let source = trim(text);
        if byte_len(source.as_str()) > MAX_LYRICS_TEXT_BYTES {
            return Err(
                ProviderError::new(ProviderOperation::Lyrics, ProviderErrorKind::InvalidResponse),
            );
        }
        let normalized = normalize_lyrics_text(source.as_str());
        let cleaned = trim(normalized.as_str());
        if cleaned.as_str().is_empty() {
            return Err(
                ProviderError::new(ProviderOperation::Lyrics, ProviderErrorKind::InvalidResponse),
            );
        }
        proof {
            lemma_cleaned_lyrics(text@);
        }
        Ok(PlainLyrics { text: cleaned })
    }

    /// What may be logged of the lyrics: how long they are.
    pub fn summary(&self) -> (text: String)
        ensures
            text@ == "PlainLyrics { text_bytes: "@ + decimal_digits(utf8_len(self@)) + ", .. }"@,
    {
        let mut text = "PlainLyrics { text_bytes: ".to_owned();
        append_decimal(&mut text, byte_len(self.text.as_str()) as u64);
        text.append(", .. }");
        text
    }

    pub fn text(&self) -> (text: &str)
        ensures
            text@ == self@,
            is_plain_lyrics(text@),
    {
        proof {
            use_type_invariant(self);
        }
        self.text.as_str()
    }
}

/// What is logged of an item tells only whether it has artwork, not where; and of
/// one that can be played also only what kind it is.
pub proof fn law_item_log_keeps_artwork(
    list: Seq<char>,
    item: BrowseItemView,
    podcast: PodcastView,
    media: MediaItemView,
    other: MediaItemView,
    url: Seq<char>,
)
    requires
        media.kind == other.kind,
        media.artwork_url is Some <==> other.artwork_url is Some,
    ensures
        item.artwork_url is Some ==> browse_summary(
            BrowseItemView { artwork_url: Some(url), ..item },
        ) == browse_summary(item),
        podcast.artwork_url is Some ==> podcast_summary(
            PodcastView { artwork_url: Some(url), ..podcast },
        ) == podcast_summary(podcast),
        item_summary(list, ItemView::Playable(media)) == item_summary(
            list,
            ItemView::Playable(other),
        ),
{
}

} // verus!
