//! The values that every part of the player speaks of: media identities and
//! items, playback and repeat modes, regions and charts.

use vstd::prelude::*;
use vstd::string::*;

verus! {

/// The texts of a list of strings.
pub open spec fn texts(strings: Seq<String>) -> Seq<Seq<char>> {
    strings.map_values(|text: String| text@)
}

/// The text of an optional string.
pub open spec fn optional_text(string: Option<String>) -> Option<Seq<char>> {
    match string {
        Some(text) => Some(text@),
        None => None,
    }
}

/// Copies a list of strings.
pub fn clone_texts(strings: &Vec<String>) -> (copy: Vec<String>)
    ensures
        texts(copy@) == texts(strings@),
{
    let mut copy: Vec<String> = Vec::new();
    let mut index: usize = 0;
    while index < strings.len()
        invariant
            index <= strings.len(),
            copy.len() == index,
            forall|i: int| 0 <= i < index ==> (#[trigger] copy@[i])@ == strings@[i]@,
        decreases strings.len() - index,
    {
        copy.push(strings[index].clone());
        index = index + 1;
    }
    assert(texts(copy@) =~= texts(strings@));
    copy
}

/// Copies an optional string.
pub fn clone_optional_text(string: &Option<String>) -> (copy: Option<String>)
    ensures
        copy == *string,
{
    match string {
        Some(text) => Some(text.clone()),
        None => None,
    }
}

/// The identity of a media item: its provider and the provider's video id.
#[derive(Debug, Eq, Hash, Ord, PartialEq, PartialOrd)]
pub struct MediaId {
    pub provider: String,
    pub video_id: String,
}

/// What a [`MediaId`] says.
#[verifier::ext_equal]
pub struct MediaIdView {
    pub provider: Seq<char>,
    pub video_id: Seq<char>,
}

impl View for MediaId {
    type V = MediaIdView;

    open spec fn view(&self) -> MediaIdView {
        MediaIdView { provider: self.provider@, video_id: self.video_id@ }
    }
}

impl Clone for MediaId {
    fn clone(&self) -> (copy: Self)
        ensures
            copy == *self,
    {
        MediaId { provider: self.provider.clone(), video_id: self.video_id.clone() }
    }
}

impl MediaId {
    /// Whether both ids name the same item of the same provider.
    pub fn same(&self, other: &MediaId) -> (same: bool)
        ensures
            same == (self@ == other@),
    {
        self.provider == other.provider && self.video_id == other.video_id
    }
}

/// What kind of media an item is.
#[derive(Clone, Copy, Debug, Eq, PartialEq, Structural)]
pub enum MediaKind {
    Song,
    Video,
    PodcastEpisode,
}

/// A playable item.
#[derive(Debug, PartialEq)]
pub struct MediaItem {
    pub id: MediaId,
    pub kind: MediaKind,
    pub title: String,
    pub creators: Vec<String>,
    pub collection: Option<String>,
    pub duration_ms: Option<u64>,
    pub artwork_url: Option<String>,
    pub explicit: bool,
}

/// What a [`MediaItem`] says.
#[verifier::ext_equal]
pub struct MediaItemView {
    pub id: MediaIdView,
    pub kind: MediaKind,
    pub title: Seq<char>,
    pub creators: Seq<Seq<char>>,
    pub collection: Option<Seq<char>>,
    pub duration_ms: Option<u64>,
    pub artwork_url: Option<Seq<char>>,
    pub explicit: bool,
}

impl View for MediaItem {
    type V = MediaItemView;

    open spec fn view(&self) -> MediaItemView {
        MediaItemView {
            id: self.id@,
            kind: self.kind,
            title: self.title@,
            creators: texts(self.creators@),
            collection: optional_text(self.collection),
            duration_ms: self.duration_ms,
            artwork_url: optional_text(self.artwork_url),
            explicit: self.explicit,
        }
    }
}

impl Clone for MediaItem {
    fn clone(&self) -> (copy: Self)
        ensures
            copy@ == self@,
    {
        MediaItem {
            id: self.id.clone(),
            kind: self.kind,
            title: self.title.clone(),
            creators: clone_texts(&self.creators),
            collection: clone_optional_text(&self.collection),
            duration_ms: self.duration_ms,
            artwork_url: clone_optional_text(&self.artwork_url),
            explicit: self.explicit,
        }
    }
}

/// Copies a list of media items.
pub fn clone_media_items(items: &Vec<MediaItem>) -> (copy: Vec<MediaItem>)
    ensures
        media_views(copy@) == media_views(items@),
{
    let mut copy: Vec<MediaItem> = Vec::new();
    let mut index: usize = 0;
    while index < items.len()
        invariant
            index <= items.len(),
            copy.len() == index,
            forall|i: int| 0 <= i < index ==> (#[trigger] copy@[i])@ == items@[i]@,
        decreases items.len() - index,
    {
        copy.push(items[index].clone());
        index = index + 1;
    }
    assert(media_views(copy@) =~= media_views(items@));
    copy
}

/// What the items of a list say.
pub open spec fn media_views(items: Seq<MediaItem>) -> Seq<MediaItemView> {
    items.map_values(|item: MediaItem| item@)
}

/// How playback continues past the end of an item.
#[derive(Clone, Copy, Debug, Eq, PartialEq, Structural)]
pub enum RepeatMode {
    Off,
    One,
    All,
}

/// What the player is doing.
#[derive(Clone, Copy, Debug, Eq, PartialEq, Structural)]
pub enum PlaybackStatus {
    Stopped,
    Resolving,
    Buffering,
    Playing,
    Paused,
    Failed,
}

/// Which kind of result a search asks for.
#[derive(Clone, Copy, Debug, Eq, PartialEq, Structural)]
pub enum SearchFilter {
    All,
    Songs,
    Albums,
    Artists,
    Playlists,
    Podcasts,
    Episodes,
}

/// The number of a playback attempt or request.
#[derive(Clone, Copy, Debug, Eq, Hash, PartialEq, Structural)]
pub struct Generation(pub u64);

impl Generation {
    pub fn new(value: u64) -> (generation: Self)
        ensures
            generation.0 == value,
    {
        Generation(value)
    }

    pub fn value(&self) -> (value: u64)
        ensures
            value == self.0,
    {
        self.0
    }
}

impl Default for Generation {
    fn default() -> (generation: Self)
        ensures
            generation.0 == 0,
    {
        Generation(0)
    }
}

/// A two-letter region, in upper case.
#[derive(Debug, Eq, Hash, PartialEq)]
pub struct RegionCode(String);

impl View for RegionCode {
    type V = Seq<char>;

    closed spec fn view(&self) -> Seq<char> {
        self.0@
    }
}

impl Clone for RegionCode {
    fn clone(&self) -> (copy: Self)
        ensures
            copy == *self,
    {
        RegionCode(self.0.clone())
    }
}

/// Whether `character` is an ASCII letter.
pub open spec fn is_ascii_letter(character: char) -> bool {
    'a' <= character <= 'z' || 'A' <= character <= 'Z'
}

/// `character` in upper case, where it is an ASCII letter.
pub open spec fn ascii_upper(character: char) -> char {
    if 'a' <= character <= 'z' {
        (character as int - 32) as char
    } else {
        character
    }
}

/// `character` in upper case, where it is an ASCII letter.
fn to_ascii_upper(character: char) -> (upper: char)
    ensures
        upper == ascii_upper(character),
{
    if 'a' <= character && character <= 'z' {
        (character as u8 - 32u8) as char
    } else {
        character
    }
}

/// Whether `character` is an ASCII letter.
fn is_letter(character: char) -> (letter: bool)
    ensures
        letter == is_ascii_letter(character),
{
    ('a' <= character && character <= 'z') || ('A' <= character && character <= 'Z')
}

impl RegionCode {
    /// Reads a region: two ASCII letters, in either case.
    pub fn parse(text: &str) -> (region: Option<RegionCode>)
        ensures
            match region {
                Some(region) => text@.len() == 2 && is_ascii_letter(text@[0]) && is_ascii_letter(
                    text@[1],
                ) && region@ == seq![ascii_upper(text@[0]), ascii_upper(text@[1])],
                None => !(text@.len() == 2 && is_ascii_letter(text@[0]) && is_ascii_letter(text@[1])),
            },
    {
        let characters = crate::text::chars_of(text);
        if characters.len() != 2 {
            return None;
        }
        let first = characters[0];
        let second = characters[1];
        if !is_letter(first) || !is_letter(second) {
            return None;
        }
        let mut upper = String::new();
        upper.push(to_ascii_upper(first));
        upper.push(to_ascii_upper(second));
        assert(upper@ =~= seq![ascii_upper(text@[0]), ascii_upper(text@[1])]);
        Some(RegionCode(upper))
    }

    pub fn as_str(&self) -> (text: &str)
        ensures
            text@ == self@,
    {
        self.0.as_str()
    }
}

/// A titled list of chart items.
#[derive(Debug, PartialEq)]
pub struct ChartSection {
    pub title: String,
    pub items: Vec<MediaItem>,
}

/// What a [`ChartSection`] says.
#[verifier::ext_equal]
pub struct ChartSectionView {
    pub title: Seq<char>,
    pub items: Seq<MediaItemView>,
}

impl View for ChartSection {
    type V = ChartSectionView;

    open spec fn view(&self) -> ChartSectionView {
        ChartSectionView { title: self.title@, items: media_views(self.items@) }
    }
}

impl ChartSection {
    pub fn new(title: String, items: Vec<MediaItem>) -> (section: Self)
        ensures
            section@ == (ChartSectionView { title: title@, items: media_views(items@) }),
    {
        ChartSection { title, items }
    }

    pub fn title(&self) -> (title: &str)
        ensures
            title@ == self@.title,
    {
        self.title.as_str()
    }

    pub fn items(&self) -> (items: &[MediaItem])
        ensures
            media_views(items@) == self@.items,
    {
        self.items.as_slice()
    }
}

/// What a list of sections says.
pub open spec fn section_views(sections: Seq<ChartSection>) -> Seq<ChartSectionView> {
    sections.map_values(|section: ChartSection| section@)
}

} // verus!
