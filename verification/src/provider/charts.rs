//! Reads charts, chart playlists and search results out of the provider's JSON
//! responses.

use vstd::prelude::*;
use vstd::string::*;

use crate::domain::{
    media_views, optional_text, section_views, texts, ChartSection, ChartSectionView, MediaId,
    MediaIdView, MediaItem, MediaItemView, MediaKind, RegionCode,
};
use crate::json::{
    as_elements, as_number, as_text, elements_of, enter, found, found_elements, found_text, get,
    json_document, json_views, member, number_of, read_json, step, text_of, Json, JsonView,
};
use crate::provider::model::{search_views, ItemView, Page, SearchItem};
use crate::seqs::{first_where, lemma_first_where};
use crate::text::{
    append_decimal, byte_len, chars_of, collapse, collapsed, contains_char,
    contains_space_or_control, decimal_digits, has_space_or_control,
    law_collapsing_twice_changes_nothing, parse_u64, parsed_u64, same_text, split, split_on, string_of, trim, trimmed, utf8_len,
};
use crate::web_url::{has_web_scheme, is_web_scheme, parse_url, parsed_url};

verus! {

/// Maximum accepted encoded provider response size: one mebibyte.
pub const MAX_RESPONSE_BYTES: usize = 1_048_576;

/// Maximum number of recognized sections in one response.
pub const MAX_SECTIONS: usize = 64;

/// Maximum number of entries in one recognized shelf.
pub const MAX_ITEMS_PER_SHELF: usize = 256;

/// Maximum number of creator and collection runs inspected for one item.
pub const MAX_METADATA_RUNS: usize = 64;

/// Maximum number of artwork candidates inspected for one item.
pub const MAX_THUMBNAILS: usize = 32;

/// Maximum number of structured warnings retained for one response.
pub const MAX_WARNINGS: usize = 128;

/// Maximum encoded byte length of an opaque playable video identifier.
pub const MAX_VIDEO_ID_BYTES: usize = 128;

/// Maximum encoded byte length of a playlist identifier.
pub const MAX_PLAYLIST_ID_BYTES: usize = 512;

/// A chart that is kept as a playlist of its own.
#[derive(PartialEq, Eq)]
pub struct ChartPlaylistReference {
    title: String,
    playlist_id: String,
}

/// What a [`ChartPlaylistReference`] says.
#[verifier::ext_equal]
pub struct ReferenceView {
    pub title: Seq<char>,
    pub playlist_id: Seq<char>,
}

impl View for ChartPlaylistReference {
    type V = ReferenceView;

    closed spec fn view(&self) -> ReferenceView {
        ReferenceView { title: self.title@, playlist_id: self.playlist_id@ }
    }
}

impl Clone for ChartPlaylistReference {
    fn clone(&self) -> (copy: Self)
        ensures
            copy@ == self@,
    {
        ChartPlaylistReference {
            title: self.title.clone(),
            playlist_id: self.playlist_id.clone(),
        }
    }
}

/// What a list of references says.
pub open spec fn reference_views(references: Seq<ChartPlaylistReference>) -> Seq<ReferenceView> {
    references.map_values(|reference: ChartPlaylistReference| reference@)
}

impl ChartPlaylistReference {
    pub fn new(title: String, playlist_id: String) -> (reference: Self)
        ensures
            reference@ == (ReferenceView { title: title@, playlist_id: playlist_id@ }),
    {
        ChartPlaylistReference { title, playlist_id }
    }

    /// What may be logged of the reference: neither title nor id.
    pub fn summary(&self) -> (text: &'static str)
        ensures
            text@
                == "ChartPlaylistReference { title_redacted: true, playlist_id_redacted: true }"@,
    {
        "ChartPlaylistReference { title_redacted: true, playlist_id_redacted: true }"
    }

    pub fn title(&self) -> (title: &str)
        ensures
            title@ == self@.title,
    {
        self.title.as_str()
    }

    pub fn playlist_id(&self) -> (playlist_id: &str)
        ensures
            playlist_id@ == self@.playlist_id,
    {
        self.playlist_id.as_str()
    }

    pub fn into_parts(self) -> (parts: (String, String))
        ensures
            parts.0@ == self@.title,
            parts.1@ == self@.playlist_id,
    {
        (self.title, self.playlist_id)
    }
}

/// Under what the charts of a region are cached.
#[derive(Debug, Eq, Hash, PartialEq)]
pub struct ChartCacheKey {
    region: RegionCode,
}

impl View for ChartCacheKey {
    type V = Seq<char>;

    closed spec fn view(&self) -> Seq<char> {
        self.region@
    }
}

impl Clone for ChartCacheKey {
    fn clone(&self) -> (copy: Self)
        ensures
            copy@ == self@,
    {
        ChartCacheKey { region: self.region.clone() }
    }
}

impl ChartCacheKey {
    pub fn new(region: RegionCode) -> (key: Self)
        ensures
            key@ == region@,
    {
        ChartCacheKey { region }
    }

    pub fn region(&self) -> (region: &RegionCode)
        ensures
            region@ == self@,
    {
        &self.region
    }

    /// The key as it is stored.
    pub fn text(&self) -> (text: String)
        ensures
            text@ == "charts:"@ + self@,
    {
        let mut text = String::new();
        text.append("charts:");
        text.append(self.region.as_str());
        assert(text@ =~= "charts:"@ + self@);
        text
    }
}

/// What is bounded in a response.
#[derive(Clone, Copy, Debug, Eq, PartialEq, Structural)]
pub enum ParseResource {
    Sections,
    Items,
    MetadataRuns,
    Thumbnails,
    Warnings,
}

impl ParseResource {
    /// The name of the resource.
    pub fn name(&self) -> (text: &'static str)
        ensures
            text@ == resource_name(*self),
    {
        match self {
            ParseResource::Sections => "sections",
            ParseResource::Items => "items",
            ParseResource::MetadataRuns => "metadata runs",
            ParseResource::Thumbnails => "thumbnails",
            ParseResource::Warnings => "warnings",
        }
    }
}

/// The name of a resource.
pub open spec fn resource_name(resource: ParseResource) -> Seq<char> {
    match resource {
        ParseResource::Sections => "sections"@,
        ParseResource::Items => "items"@,
        ParseResource::MetadataRuns => "metadata runs"@,
        ParseResource::Thumbnails => "thumbnails"@,
        ParseResource::Warnings => "warnings"@,
    }
}

/// What is wrong with one item of a response.
#[derive(Clone, Copy, Debug, Eq, PartialEq, Structural)]
pub enum ParseWarningKind {
    MissingVideoId,
    InvalidVideoId,
    ConflictingVideoId,
    MissingTitle,
    UnsupportedMediaKind,
    InvalidDuration,
    InvalidArtworkUrl,
    UnsupportedItemRenderer,
    ResourceLimit { resource: ParseResource },
}

/// What is wrong, and with which item.
#[derive(Clone, Copy, Debug, Eq, PartialEq, Structural)]
pub struct ParseWarning {
    pub section_index: usize,
    pub item_index: usize,
    pub kind: ParseWarningKind,
}

/// What was read, and what had to be left out.
#[derive(Eq, PartialEq)]
pub struct ParseReport<T> {
    pub value: T,
    pub warnings: Vec<ParseWarning>,
}

impl<T: Clone> Clone for ParseReport<T> {
    fn clone(&self) -> (copy: Self)
        ensures
            cloned::<T>(self.value, copy.value),
            copy.warnings@ == self.warnings@,
    {
        let warnings = self.warnings.clone();
        assert(warnings@ =~= self.warnings@);
        ParseReport { value: self.value.clone(), warnings }
    }
}

impl<T> ParseReport<T> {
    /// What may be logged of the report: not what was read.
    pub fn summary(&self) -> (text: String)
        ensures
            text@ == "ParseReport { value_redacted: true, warning_count: "@ + decimal_digits(
                self.warnings@.len(),
            ) + ", .. }"@,
    {
        let mut text = "ParseReport { value_redacted: true, warning_count: ".to_owned();
        append_decimal(&mut text, self.warnings.len() as u64);
        text.append(", .. }");
        text
    }
}

/// Why a response was rejected. It carries nothing of the response.
#[derive(Clone, Copy, Debug, Eq, PartialEq)]
pub enum ParseError {
    InputTooLarge { response: &'static str },
    InvalidJson { response: &'static str },
    UnsupportedShape { response: &'static str },
    ResourceLimit { response: &'static str, resource: ParseResource },
    UnusableResponse { response: &'static str },
}

impl ParseError {
    /// The message shown for the error.
    pub fn message(&self) -> (text: String)
        ensures
            text@ == match self {
                ParseError::InputTooLarge { response } => response@
                    + " response exceeds the input limit"@,
                ParseError::InvalidJson { response } => "invalid JSON in "@ + response@
                    + " response"@,
                ParseError::UnsupportedShape { response } => "unsupported "@ + response@
                    + " response shape"@,
                ParseError::ResourceLimit { response, resource } => response@
                    + " response exceeds the "@ + resource_name(*resource) + " limit"@,
                ParseError::UnusableResponse { response } => response@
                    + " response contains no usable items"@,
            },
    {
        let mut text = String::new();
        assert(text@ =~= Seq::empty());
        match self {
            ParseError::InputTooLarge { response } => {
                text.append(response);
                text.append(" response exceeds the input limit");
                assert(text@ =~= response@ + " response exceeds the input limit"@);
            },
            ParseError::InvalidJson { response } => {
                text.append("invalid JSON in ");
                text.append(response);
                text.append(" response");
                assert(text@ =~= "invalid JSON in "@ + response@ + " response"@);
            },
            ParseError::UnsupportedShape { response } => {
                text.append("unsupported ");
                text.append(response);
                text.append(" response shape");
                assert(text@ =~= "unsupported "@ + response@ + " response shape"@);
            },
            ParseError::ResourceLimit { response, resource } => {
                text.append(response);
                text.append(" response exceeds the ");
                text.append(resource.name());
                text.append(" limit");
                assert(text@ =~= response@ + " response exceeds the "@ + resource_name(*resource)
                    + " limit"@);
            },
            ParseError::UnusableResponse { response } => {
                text.append(response);
                text.append(" response contains no usable items");
                assert(text@ =~= response@ + " response contains no usable items"@);
            },
        }
        text
    }
}

/// `text` with its words joined by single spaces, if it has any.
pub open spec fn normalized(text: Seq<char>) -> Option<Seq<char>> {
    if collapsed(text).len() > 0 {
        Some(collapsed(text))
    } else {
        None
    }
}

/// `text` with its words joined by single spaces, if it has any.
pub fn normalize_text(text: &str) -> (result: Option<String>)
    ensures
        optional_text(result) == normalized(text@),
{
    let collapsed = collapse(text);
    if collapsed.as_str().is_empty() {
        None
    } else {
        Some(collapsed)
    }
}

/// The texts of all runs that have one, one after the other.
pub open spec fn joined_runs(runs: Seq<JsonView>) -> Seq<char>
    decreases runs.len(),
{
    if runs.len() == 0 {
        Seq::empty()
    } else {
        joined_runs(runs.drop_last()) + match text_of(member(runs.last(), "text"@)) {
            Some(text) => text,
            None => Seq::empty(),
        }
    }
}

/// The text that a formatted text shows: its simple text, or else its runs.
pub open spec fn formatted(text: Option<JsonView>) -> Option<Seq<char>> {
    match text_of(step(text, "simpleText"@)) {
        Some(simple) => normalized(simple),
        None => match elements_of(step(text, "runs"@)) {
            Some(runs) => normalized(joined_runs(runs)),
            None => None,
        },
    }
}

fn formatted_text(text: Option<&Json>) -> (result: Option<String>)
    ensures
        optional_text(result) == formatted(found(text)),
{
    if let Some(simple) = as_text(enter(text, "simpleText")) {
        return normalize_text(simple.as_str());
    }
    match as_elements(enter(text, "runs")) {
        Some(runs) => {
            let mut joined = String::new();
            let mut index: usize = 0;
            assert(json_views(runs@).take(0) =~= Seq::empty());
            while index < runs.len()
                invariant
                    index <= runs.len(),
                    joined@ == joined_runs(json_views(runs@).take(index as int)),
                decreases runs.len() - index,
            {
                assert(json_views(runs@).take(index + 1).drop_last() =~= json_views(runs@).take(
                    index as int,
                ));
                if let Some(text) = as_text(get(&runs[index], "text")) {
                    joined.append(text.as_str());
                } else {
                    assert(joined@ + Seq::<char>::empty() =~= joined@);
                }
                index = index + 1;
            }
            assert(json_views(runs@).take(runs@.len() as int) =~= json_views(runs@));
            normalize_text(joined.as_str())
        },
        None => None,
    }
}

/// The sections of one tab.
pub open spec fn tab_sections(tab: JsonView) -> Option<Seq<JsonView>> {
    elements_of(
        step(
            step(step(member(tab, "tabRenderer"@), "content"@), "sectionListRenderer"@),
            "contents"@,
        ),
    )
}

/// The sections of the first tab that has any, of those under `renderer`.
pub open spec fn sections_of(document: JsonView, renderer: Seq<char>) -> Option<Seq<JsonView>> {
    match elements_of(step(step(member(document, "contents"@), renderer), "tabs"@)) {
        Some(tabs) => match first_where(tabs.len(), |i: int| tab_sections(tabs[i]) is Some) {
            Some(first) => tab_sections(tabs[first]),
            None => None,
        },
        None => None,
    }
}

fn section_list<'a>(document: &'a Json, renderer_name: &str) -> (sections: Option<&'a Vec<Json>>)
    ensures
        found_elements(sections) == sections_of(document@, renderer_name@),
{
    let tabs = match as_elements(enter(enter(get(document, "contents"), renderer_name), "tabs")) {
        Some(tabs) => tabs,
        None => {
            return None;
        },
    };
    let ghost has_sections = |i: int| tab_sections(json_views(tabs@)[i]) is Some;
    let mut index: usize = 0;
    while index < tabs.len()
        invariant
            index <= tabs.len(),
            has_sections == (|i: int| tab_sections(json_views(tabs@)[i]) is Some),
            elements_of(
                step(step(member(document@, "contents"@), renderer_name@), "tabs"@),
            ) == Some(json_views(tabs@)),
            forall|j: int| 0 <= j < index ==> !#[trigger] has_sections(j),
        decreases tabs.len() - index,
    {
        let sections = as_elements(
            enter(
                enter(enter(get(&tabs[index], "tabRenderer"), "content"), "sectionListRenderer"),
                "contents",
            ),
        );
        if sections.is_some() {
            proof {
                lemma_first_where(tabs@.len(), has_sections, index as int);
            }
            return sections;
        }
        index = index + 1;
    }
    proof {
        assert forall|i: int| 0 <= i < tabs@.len() implies !#[trigger] has_sections(i) by {}
    }
    None
}

/// The title of a chart shelf.
pub open spec fn shelf_title(shelf: JsonView) -> Seq<char> {
    match formatted(
        step(step(member(shelf, "header"@), "musicCarouselShelfBasicHeaderRenderer"@), "title"@),
    ) {
        Some(title) => title,
        None => "Charts"@,
    }
}

fn chart_title(shelf: &Json) -> (title: Option<String>)
    ensures
        match title {
            Some(title) => title@ == shelf_title(shelf@),
            None => shelf_title(shelf@) == "Charts"@,
        },
{
    formatted_text(
        enter(
            enter(get(shelf, "header"), "musicCarouselShelfBasicHeaderRenderer"),
            "title",
        ),
    )
}

/// The id that a run of a title links to.
pub open spec fn run_browse_id(run: JsonView) -> Option<Seq<char>> {
    text_of(step(step(member(run, "navigationEndpoint"@), "browseEndpoint"@), "browseId"@))
}

/// The first id that a run of a title links to.
pub open spec fn first_browse_id(runs: Seq<JsonView>) -> Option<Seq<char>> {
    match first_where(runs.len(), |i: int| run_browse_id(runs[i]) is Some) {
        Some(first) => run_browse_id(runs[first]),
        None => None,
    }
}

/// Whether `id` can be a provider's id: not empty, at most `limit` bytes, and
/// without white space or control characters.
pub open spec fn is_opaque_id(id: Seq<char>, limit: int) -> bool {
    id.len() > 0 && utf8_len(id) <= limit && !has_space_or_control(id)
}

/// Whether `id` can be a provider's id of at most `limit` bytes.
pub fn check_opaque_id(id: &str, limit: usize) -> (valid: bool)
    ensures
        valid == is_opaque_id(id@, limit as int),
{
    !id.is_empty() && byte_len(id) <= limit && !contains_space_or_control(id)
}

/// The chart playlist that an entry of a shelf refers to.
#[verifier::opaque]
pub open spec fn playlist_reference(content: JsonView) -> Option<ReferenceView> {
    let title = step(member(content, "musicTwoRowItemRenderer"@), "title"@);
    match (formatted(title), elements_of(step(title, "runs"@))) {
        (Some(shown), Some(runs)) => match first_browse_id(runs) {
            Some(id) => if trimmed(shown).len() > 0 && id.len() >= 2 && id[0] == 'V' && id[1] == 'L'
                && is_opaque_id(id.skip(2), MAX_PLAYLIST_ID_BYTES as int) {
                Some(ReferenceView { title: shown, playlist_id: id.skip(2) })
            } else {
                None
            },
            None => None,
        },
        _ => None,
    }
}

fn find_browse_id<'a>(runs: &'a Vec<Json>) -> (id: Option<&'a String>)
    ensures
        found_text(id) == first_browse_id(json_views(runs@)),
{
    let ghost links = |i: int| run_browse_id(json_views(runs@)[i]) is Some;
    let mut index: usize = 0;
    while index < runs.len()
        invariant
            index <= runs.len(),
            links == (|i: int| run_browse_id(json_views(runs@)[i]) is Some),
            forall|j: int| 0 <= j < index ==> !#[trigger] links(j),
        decreases runs.len() - index,
    {
        let id = as_text(
            enter(enter(get(&runs[index], "navigationEndpoint"), "browseEndpoint"), "browseId"),
        );
        if id.is_some() {
            proof {
                lemma_first_where(runs@.len(), links, index as int);
            }
            return id;
        }
        index = index + 1;
    }
    proof {
        assert forall|i: int| 0 <= i < runs@.len() implies !#[trigger] links(i) by {}
    }
    None
}

fn chart_playlist_reference(content: &Json) -> (reference: Option<ChartPlaylistReference>)
    ensures
        match reference {
            Some(reference) => playlist_reference(content@) == Some(reference@),
            None => playlist_reference(content@) is None,
        },
{
    reveal(playlist_reference);
    let title = enter(get(content, "musicTwoRowItemRenderer"), "title");
    let shown = match formatted_text(title) {
        Some(shown) => shown,
        None => {
            return None;
        },
    };
    if trim(shown.as_str()).as_str().is_empty() {
        return None;
    }
    let runs = match as_elements(enter(title, "runs")) {
        Some(runs) => runs,
        None => {
            return None;
        },
    };
    let browse_id = match find_browse_id(runs) {
        Some(id) => id,
        None => {
            return None;
        },
    };
    let characters = chars_of(browse_id.as_str());
    if characters.len() < 2 || characters[0] != 'V' || characters[1] != 'L' {
        return None;
    }
    let playlist_id = string_of(&characters, 2, characters.len());
    assert(playlist_id@ =~= browse_id@.skip(2));
    if !check_opaque_id(playlist_id.as_str(), MAX_PLAYLIST_ID_BYTES) {
        return None;
    }
    Some(ChartPlaylistReference::new(shown, playlist_id))
}

/// Where an item's play button leads.
pub open spec fn watch_endpoint_of(renderer: JsonView) -> Option<JsonView> {
    step(
        step(
            step(
                step(
                    step(member(renderer, "overlay"@), "musicItemThumbnailOverlayRenderer"@),
                    "content"@,
                ),
                "musicPlayButtonRenderer"@,
            ),
            "playNavigationEndpoint"@,
        ),
        "watchEndpoint"@,
    )
}

fn watch_endpoint<'a>(renderer: &'a Json) -> (endpoint: Option<&'a Json>)
    ensures
        found(endpoint) == watch_endpoint_of(renderer@),
{
    enter(
        enter(
            enter(
                enter(
                    enter(get(renderer, "overlay"), "musicItemThumbnailOverlayRenderer"),
                    "content",
                ),
                "musicPlayButtonRenderer",
            ),
            "playNavigationEndpoint",
        ),
        "watchEndpoint",
    )
}

/// The video id that `candidate` holds, if it is a valid one.
pub open spec fn valid_video_id(candidate: JsonView) -> Option<Seq<char>> {
    match text_of(Some(candidate)) {
        Some(id) => if is_opaque_id(id, MAX_VIDEO_ID_BYTES as int) {
            Some(id)
        } else {
            None
        },
        None => None,
    }
}

fn validate_video_id<'a>(candidate: &'a Json) -> (id: Option<&'a String>)
    ensures
        found_text(id) == valid_video_id(candidate@),
{
    match candidate {
        Json::Text(id) => if check_opaque_id(id.as_str(), MAX_VIDEO_ID_BYTES) {
            Some(id)
        } else {
            None
        },
        _ => None,
    }
}

/// The video id of an item: what its list data and its play button say, which
/// must be valid and must agree where both say something.
pub open spec fn item_video_id(renderer: JsonView) -> Result<Seq<char>, ParseWarningKind> {
    let listed = step(member(renderer, "playlistItemData"@), "videoId"@);
    let played = step(watch_endpoint_of(renderer), "videoId"@);
    match (listed, played) {
        (None, None) => Err(ParseWarningKind::MissingVideoId),
        (Some(one), None) | (None, Some(one)) => match valid_video_id(one) {
            Some(id) => Ok(id),
            None => Err(ParseWarningKind::InvalidVideoId),
        },
        (Some(one), Some(other)) => match (valid_video_id(one), valid_video_id(other)) {
            (Some(id), Some(same)) => if id == same {
                Ok(id)
            } else {
                Err(ParseWarningKind::ConflictingVideoId)
            },
            _ => Err(ParseWarningKind::InvalidVideoId),
        },
    }
}

fn video_id(renderer: &Json) -> (id: Result<String, ParseWarningKind>)
    ensures
        match id {
            Ok(id) => item_video_id(renderer@) == Ok::<Seq<char>, ParseWarningKind>(id@),
            Err(kind) => item_video_id(renderer@) == Err::<Seq<char>, ParseWarningKind>(kind),
        },
{
    let listed = enter(get(renderer, "playlistItemData"), "videoId");
    let played = enter(watch_endpoint(renderer), "videoId");
    match (listed, played) {
        (Some(one), Some(other)) => match (validate_video_id(one), validate_video_id(other)) {
            (Some(id), Some(same)) => {
                if id.as_str().eq(same.as_str()) {
                    Ok(id.clone())
                } else {
                    Err(ParseWarningKind::ConflictingVideoId)
                }
            },
            _ => Err(ParseWarningKind::InvalidVideoId),
        },
        (Some(one), None) => match validate_video_id(one) {
            Some(id) => Ok(id.clone()),
            None => Err(ParseWarningKind::InvalidVideoId),
        },
        (None, Some(one)) => match validate_video_id(one) {
            Some(id) => Ok(id.clone()),
            None => Err(ParseWarningKind::InvalidVideoId),
        },
        (None, None) => Err(ParseWarningKind::MissingVideoId),
    }
}

/// What kind of media an item is.
pub open spec fn item_kind(renderer: JsonView) -> Result<MediaKind, ParseWarningKind> {
    let video_type = text_of(
        step(
            step(
                step(watch_endpoint_of(renderer), "watchEndpointMusicSupportedConfigs"@),
                "watchEndpointMusicConfig"@,
            ),
            "musicVideoType"@,
        ),
    );
    if video_type == Some("MUSIC_VIDEO_TYPE_ATV"@) {
        Ok(MediaKind::Song)
    } else if video_type == Some("MUSIC_VIDEO_TYPE_UGC"@) || video_type == Some(
        "MUSIC_VIDEO_TYPE_OMV"@,
    ) {
        Ok(MediaKind::Video)
    } else if video_type == Some("MUSIC_VIDEO_TYPE_PODCAST_EPISODE"@) {
        Ok(MediaKind::PodcastEpisode)
    } else {
        Err(ParseWarningKind::UnsupportedMediaKind)
    }
}

fn media_kind(renderer: &Json) -> (kind: Result<MediaKind, ParseWarningKind>)
    ensures
        kind == item_kind(renderer@),
{
    let video_type = as_text(
        enter(
            enter(
                enter(watch_endpoint(renderer), "watchEndpointMusicSupportedConfigs"),
                "watchEndpointMusicConfig",
            ),
            "musicVideoType",
        ),
    );
    match video_type {
        Some(text) => {
            if same_text(text.as_str(), "MUSIC_VIDEO_TYPE_ATV") {
                Ok(MediaKind::Song)
            } else if same_text(text.as_str(), "MUSIC_VIDEO_TYPE_UGC") || same_text(
                text.as_str(),
                "MUSIC_VIDEO_TYPE_OMV",
            ) {
                Ok(MediaKind::Video)
            } else if same_text(text.as_str(), "MUSIC_VIDEO_TYPE_PODCAST_EPISODE") {
                Ok(MediaKind::PodcastEpisode)
            } else {
                Err(ParseWarningKind::UnsupportedMediaKind)
            }
        },
        None => Err(ParseWarningKind::UnsupportedMediaKind),
    }
}

/// The text of the flexible column at `index`.
pub open spec fn column_text(renderer: JsonView, index: int) -> Option<Seq<char>> {
    match elements_of(member(renderer, "flexColumns"@)) {
        Some(columns) => if 0 <= index < columns.len() {
            formatted(
                step(
                    member(columns[index], "musicResponsiveListItemFlexColumnRenderer"@),
                    "text"@,
                ),
            )
        } else {
            None
        },
        None => None,
    }
}

fn flex_column_text(renderer: &Json, index: usize) -> (text: Option<String>)
    ensures
        optional_text(text) == column_text(renderer@, index as int),
{
    match as_elements(get(renderer, "flexColumns")) {
        Some(columns) => if index < columns.len() {
            formatted_text(
                enter(
                    get(&columns[index], "musicResponsiveListItemFlexColumnRenderer"),
                    "text",
                ),
            )
        } else {
            None
        },
        None => None,
    }
}

/// The text runs of one flexible column.
pub open spec fn column_runs(column: JsonView) -> Seq<JsonView> {
    match elements_of(
        step(step(member(column, "musicResponsiveListItemFlexColumnRenderer"@), "text"@), "runs"@),
    ) {
        Some(runs) => runs,
        None => Seq::empty(),
    }
}

/// The text runs of all columns, one after the other.
pub open spec fn all_runs(columns: Seq<JsonView>) -> Seq<JsonView>
    decreases columns.len(),
{
    if columns.len() == 0 {
        Seq::empty()
    } else {
        all_runs(columns.drop_last()) + column_runs(columns.last())
    }
}

/// The flexible columns of an item.
pub open spec fn flex_columns(renderer: JsonView) -> Seq<JsonView> {
    match elements_of(member(renderer, "flexColumns"@)) {
        Some(columns) => columns,
        None => Seq::empty(),
    }
}

/// The runs that describe an item: those of every column after the title's,
/// where neither the columns nor the runs are too many.
pub open spec fn item_runs(renderer: JsonView) -> Result<Seq<JsonView>, ParseWarningKind> {
    let columns = flex_columns(renderer);
    let rest = if columns.len() > 0 {
        columns.skip(1)
    } else {
        Seq::empty()
    };
    if rest.len() > MAX_METADATA_RUNS || all_runs(rest).len() > MAX_METADATA_RUNS {
        Err(ParseWarningKind::ResourceLimit { resource: ParseResource::MetadataRuns })
    } else {
        Ok(all_runs(rest))
    }
}

/// The values behind a list of references.
pub open spec fn values(references: Seq<&Json>) -> Seq<JsonView> {
    references.map_values(|reference: &Json| reference@)
}

/// More columns have no fewer runs.
proof fn lemma_all_runs_grow(columns: Seq<JsonView>, count: int)
    requires
        0 <= count <= columns.len(),
    ensures
        all_runs(columns.take(count)).len() <= all_runs(columns).len(),
    decreases columns.len(),
{
    if count == columns.len() {
        assert(columns.take(count) =~= columns);
    } else {
        lemma_all_runs_grow(columns.drop_last(), count);
        assert(columns.drop_last().take(count) =~= columns.take(count));
    }
}

fn metadata_runs<'a>(renderer: &'a Json) -> (runs: Result<Vec<&'a Json>, ParseWarningKind>)
    ensures
        match runs {
            Ok(runs) => item_runs(renderer@) == Ok::<Seq<JsonView>, ParseWarningKind>(values(runs@)),
            Err(kind) => item_runs(renderer@) == Err::<Seq<JsonView>, ParseWarningKind>(kind),
        },
{
    let too_many = ParseWarningKind::ResourceLimit { resource: ParseResource::MetadataRuns };
    let mut runs: Vec<&'a Json> = Vec::new();
    assert(values(runs@) =~= Seq::empty());
    let columns = match as_elements(get(renderer, "flexColumns")) {
        Some(columns) => columns,
        None => {
            return Ok(runs);
        },
    };
    if columns.len() == 0 {
        return Ok(runs);
    }
    if columns.len() - 1 > MAX_METADATA_RUNS {
        return Err(too_many);
    }
    let ghost rest = json_views(columns@).skip(1);
    assert(rest.take(0) =~= Seq::empty());
    let mut index: usize = 1;
    while index < columns.len()
        invariant
            1 <= index <= columns.len(),
            rest == json_views(columns@).skip(1),
            rest.len() <= MAX_METADATA_RUNS,
            flex_columns(renderer@) == json_views(columns@),
            too_many == (ParseWarningKind::ResourceLimit { resource: ParseResource::MetadataRuns }),
            values(runs@) == all_runs(rest.take(index - 1)),
            runs.len() <= MAX_METADATA_RUNS,
        decreases columns.len() - index,
    {
        proof {
            assert(rest.take(index as int).drop_last() =~= rest.take(index - 1));
            assert(rest.take(index as int).last() == json_views(columns@)[index as int]);
            lemma_all_runs_grow(rest, index as int);
        }
        let ghost before = runs@;
        let found_runs = as_elements(
            enter(
                enter(
                    get(&columns[index], "musicResponsiveListItemFlexColumnRenderer"),
                    "text",
                ),
                "runs",
            ),
        );
        if let Some(column_runs) = found_runs {
            if column_runs.len() > MAX_METADATA_RUNS - runs.len() {
                assert(values(before).len() == before.len());
                return Err(too_many);
            }
            let mut position: usize = 0;
            assert(values(before) + json_views(column_runs@).take(0) =~= values(before));
            while position < column_runs.len()
                invariant
                    position <= column_runs.len(),
                    runs.len() == before.len() + position,
                    values(runs@) == values(before) + json_views(column_runs@).take(
                        position as int,
                    ),
                decreases column_runs.len() - position,
            {
                let ghost grown = runs@;
                runs.push(&column_runs[position]);
                position = position + 1;
                assert(values(runs@) =~= values(grown).push(column_runs@[position - 1]@));
                assert(values(runs@) =~= values(before) + json_views(column_runs@).take(
                    position as int,
                ));
            }
            assert(json_views(column_runs@).take(column_runs@.len() as int) =~= json_views(
                column_runs@,
            ));
        } else {
            assert(all_runs(rest.take(index as int)) =~= all_runs(rest.take(index - 1)));
        }
        index = index + 1;
    }
    assert(rest.take(rest.len() as int) =~= rest);
    assert(values(runs@).len() == runs.len());
    Ok(runs)
}

/// The type of the page that a run links to.
pub open spec fn run_page_type(run: JsonView) -> Option<Seq<char>> {
    text_of(
        step(
            step(
                step(
                    step(member(run, "navigationEndpoint"@), "browseEndpoint"@),
                    "browseEndpointContextSupportedConfigs"@,
                ),
                "browseEndpointContextMusicConfig"@,
            ),
            "pageType"@,
        ),
    )
}

fn page_type<'a>(run: &'a Json) -> (kind: Option<&'a String>)
    ensures
        found_text(kind) == run_page_type(run@),
{
    as_text(
        enter(
            enter(
                enter(
                    enter(get(run, "navigationEndpoint"), "browseEndpoint"),
                    "browseEndpointContextSupportedConfigs",
                ),
                "browseEndpointContextMusicConfig",
            ),
            "pageType",
        ),
    )
}

/// The normalized text of a run, if it has any.
pub open spec fn run_text(run: JsonView) -> Option<Seq<char>> {
    match text_of(member(run, "text"@)) {
        Some(text) => normalized(text),
        None => None,
    }
}

fn non_empty_string(value: Option<&Json>) -> (text: Option<String>)
    ensures
        optional_text(text) == match text_of(found(value)) {
            Some(text) => normalized(text),
            None => None,
        },
{
    match as_text(value) {
        Some(text) => normalize_text(text.as_str()),
        None => None,
    }
}

/// Whether a run names a creator.
pub open spec fn names_creator(run: JsonView) -> bool {
    run_page_type(run) == Some("MUSIC_PAGE_TYPE_ARTIST"@) || run_page_type(run) == Some(
        "MUSIC_PAGE_TYPE_PODCAST_SHOW_DETAIL_PAGE"@,
    )
}

/// The creators that the runs name, each of them once and in order.
pub open spec fn creator_names(runs: Seq<JsonView>) -> Seq<Seq<char>>
    decreases runs.len(),
{
    if runs.len() == 0 {
        Seq::empty()
    } else {
        let before = creator_names(runs.drop_last());
        match run_text(runs.last()) {
            Some(name) => if names_creator(runs.last()) && !before.contains(name) {
                before.push(name)
            } else {
                before
            },
            None => before,
        }
    }
}

/// Whether `strings` holds `text`.
pub fn contains_text(strings: &Vec<String>, text: &str) -> (found: bool)
    ensures
        found == texts(strings@).contains(text@),
{
    let mut index: usize = 0;
    while index < strings.len()
        invariant
            index <= strings.len(),
            forall|i: int| 0 <= i < index ==> #[trigger] texts(strings@)[i] != text@,
        decreases strings.len() - index,
    {
        assert(texts(strings@)[index as int] == strings@[index as int]@);
        if same_text(strings[index].as_str(), text) {
            return true;
        }
        index = index + 1;
    }
    false
}

fn creators(runs: &Vec<&Json>) -> (names: Vec<String>)
    ensures
        texts(names@) == creator_names(values(runs@)),
{
    let ghost all = values(runs@);
    let mut names: Vec<String> = Vec::new();
    let mut index: usize = 0;
    assert(texts(names@) =~= Seq::empty());
    assert(all.take(0) =~= Seq::empty());
    while index < runs.len()
        invariant
            index <= runs.len(),
            all == values(runs@),
            texts(names@) == creator_names(all.take(index as int)),
        decreases runs.len() - index,
    {
        let run = runs[index];
        proof {
            assert(all.take(index + 1).drop_last() =~= all.take(index as int));
            assert(all.take(index + 1).last() == run@);
        }
        let creator_run = match page_type(run) {
            Some(kind) => same_text(kind.as_str(), "MUSIC_PAGE_TYPE_ARTIST") || same_text(
                kind.as_str(),
                "MUSIC_PAGE_TYPE_PODCAST_SHOW_DETAIL_PAGE",
            ),
            None => false,
        };
        if creator_run {
            if let Some(name) = non_empty_string(get(run, "text")) {
                if !contains_text(&names, name.as_str()) {
                    let ghost before = names@;
                    names.push(name);
                    assert(texts(names@) =~= texts(before).push(name@));
                }
            }
        }
        index = index + 1;
    }
    assert(all.take(all.len() as int) =~= all);
    names
}

/// The text of the first run that names an album.
pub open spec fn album_name(runs: Seq<JsonView>) -> Option<Seq<char>> {
    match first_where(
        runs.len(),
        |i: int| run_page_type(runs[i]) == Some("MUSIC_PAGE_TYPE_ALBUM"@),
    ) {
        Some(first) => run_text(runs[first]),
        None => None,
    }
}

fn collection(runs: &Vec<&Json>) -> (name: Option<String>)
    ensures
        optional_text(name) == album_name(values(runs@)),
{
    let ghost all = values(runs@);
    let ghost names_album = |i: int| run_page_type(all[i]) == Some("MUSIC_PAGE_TYPE_ALBUM"@);
    let mut index: usize = 0;
    while index < runs.len()
        invariant
            index <= runs.len(),
            all == values(runs@),
            names_album == (|i: int| run_page_type(all[i]) == Some("MUSIC_PAGE_TYPE_ALBUM"@)),
            forall|j: int| 0 <= j < index ==> !#[trigger] names_album(j),
        decreases runs.len() - index,
    {
        let run = runs[index];
        assert(all[index as int] == run@);
        let album_run = match page_type(run) {
            Some(kind) => same_text(kind.as_str(), "MUSIC_PAGE_TYPE_ALBUM"),
            None => false,
        };
        if album_run {
            proof {
                lemma_first_where(all.len(), names_album, index as int);
            }
            return non_empty_string(get(run, "text"));
        }
        index = index + 1;
    }
    proof {
        assert forall|i: int| 0 <= i < all.len() implies !#[trigger] names_album(i) by {}
    }
    None
}

/// The milliseconds that `minutes:seconds` or `hours:minutes:seconds` stand
/// for, where the lower parts are below sixty and the result fits 64 bits.
pub open spec fn duration_value(text: Seq<char>) -> Option<u64> {
    let parts = split_on(text, ':');
    let numbers = parts.map_values(|part: Seq<char>| parsed_u64(part));
    let seconds: Option<int> = if numbers.len() == 2 && numbers[0] is Some && numbers[1] is Some
        && numbers[1]->0 < 60 {
        Some(numbers[0]->0 * 60 + numbers[1]->0)
    } else if numbers.len() == 3 && numbers[0] is Some && numbers[1] is Some && numbers[2] is Some
        && numbers[1]->0 < 60 && numbers[2]->0 < 60 {
        Some((numbers[0]->0 * 60 + numbers[1]->0) * 60 + numbers[2]->0)
    } else {
        None
    };
    match seconds {
        Some(seconds) => if seconds * 1_000 <= u64::MAX {
            Some((seconds * 1_000) as u64)
        } else {
            None
        },
        None => None,
    }
}

/// Reads a duration written as `minutes:seconds` or `hours:minutes:seconds`.
pub fn parse_duration_ms(value: &str) -> (duration: Option<u64>)
    ensures
        duration == duration_value(value@),
{
    let parts = split(value, ':');
    let ghost numbers = split_on(value@, ':').map_values(|part: Seq<char>| parsed_u64(part));
    let seconds: u64 = if parts.len() == 2 {
        assert(numbers[0] == parsed_u64(parts@[0]@));
        assert(numbers[1] == parsed_u64(parts@[1]@));
        match (parse_u64(parts[0].as_str()), parse_u64(parts[1].as_str())) {
            (Some(minutes), Some(seconds)) => {
                if seconds >= 60 {
                    return None;
                }
                match sixty_times(minutes, seconds) {
                    Some(total) => total,
                    None => {
                        return None;
                    },
                }
            },
            _ => {
                return None;
            },
        }
    } else if parts.len() == 3 {
        assert(numbers[0] == parsed_u64(parts@[0]@));
        assert(numbers[1] == parsed_u64(parts@[1]@));
        assert(numbers[2] == parsed_u64(parts@[2]@));
        let hours = parse_u64(parts[0].as_str());
        let minutes = parse_u64(parts[1].as_str());
        let seconds = parse_u64(parts[2].as_str());
        match (hours, minutes, seconds) {
            (Some(hours), Some(minutes), Some(seconds)) => {
                if minutes >= 60 || seconds >= 60 {
                    return None;
                }
                match sixty_times(hours, minutes) {
                    Some(total_minutes) => match sixty_times(total_minutes, seconds) {
                        Some(total) => total,
                        None => {
                            return None;
                        },
                    },
                    None => {
                        return None;
                    },
                }
            },
            _ => {
                return None;
            },
        }
    } else {
        return None;
    };
    seconds.checked_mul(1_000)
}

/// `units * 60 + rest`, where it fits 64 bits.
fn sixty_times(units: u64, rest: u64) -> (total: Option<u64>)
    ensures
        total == if units * 60 + rest <= u64::MAX {
            Some((units * 60 + rest) as u64)
        } else {
            None
        },
{
    match units.checked_mul(60) {
        Some(scaled) => scaled.checked_add(rest),
        None => None,
    }
}

/// The text of a fixed column.
pub open spec fn fixed_column_text(column: JsonView) -> Option<Seq<char>> {
    formatted(step(member(column, "musicResponsiveListItemFixedColumnRenderer"@), "text"@))
}

/// Whether a fixed column shows a duration.
pub open spec fn shows_duration(column: JsonView) -> bool {
    match fixed_column_text(column) {
        Some(text) => text.contains(':'),
        None => false,
    }
}

/// The duration that the first fixed column with a colon shows, and what is
/// wrong with it.
pub open spec fn item_duration(renderer: JsonView) -> (Option<u64>, Option<ParseWarningKind>) {
    match elements_of(member(renderer, "fixedColumns"@)) {
        Some(columns) => match first_where(columns.len(), |i: int| shows_duration(columns[i])) {
            Some(first) => match duration_value(fixed_column_text(columns[first])->0) {
                Some(duration) => (Some(duration), None),
                None => (None, Some(ParseWarningKind::InvalidDuration)),
            },
            None => (None, None),
        },
        None => (None, None),
    }
}

fn duration(renderer: &Json) -> (result: (Option<u64>, Option<ParseWarningKind>))
    ensures
        result == item_duration(renderer@),
{
    let columns = match as_elements(get(renderer, "fixedColumns")) {
        Some(columns) => columns,
        None => {
            return (None, None);
        },
    };
    let ghost shows = |i: int| shows_duration(json_views(columns@)[i]);
    let mut index: usize = 0;
    while index < columns.len()
        invariant
            index <= columns.len(),
            elements_of(member(renderer@, "fixedColumns"@)) == Some(json_views(columns@)),
            shows == (|i: int| shows_duration(json_views(columns@)[i])),
            forall|j: int| 0 <= j < index ==> !#[trigger] shows(j),
        decreases columns.len() - index,
    {
        let text = formatted_text(
            enter(get(&columns[index], "musicResponsiveListItemFixedColumnRenderer"), "text"),
        );
        if let Some(text) = text {
            if contains_char(text.as_str(), ':') {
                proof {
                    lemma_first_where(columns@.len(), shows, index as int);
                }
                return match parse_duration_ms(text.as_str()) {
                    Some(duration) => (Some(duration), None),
                    None => (None, Some(ParseWarningKind::InvalidDuration)),
                };
            }
        }
        index = index + 1;
    }
    proof {
        assert forall|i: int| 0 <= i < columns@.len() implies !#[trigger] shows(i) by {}
    }
    (None, None)
}

/// The area of a thumbnail.
pub open spec fn thumbnail_area(thumbnail: JsonView) -> int {
    let area = number_of(member(thumbnail, "width"@)) * number_of(member(thumbnail, "height"@));
    if area <= u64::MAX {
        area
    } else {
        u64::MAX as int
    }
}

/// The address of a thumbnail, if it has one of the web.
pub open spec fn thumbnail_url(thumbnail: JsonView) -> Option<Seq<char>> {
    match text_of(member(thumbnail, "url"@)) {
        Some(text) => match parsed_url(text) {
            Some(url) => if is_web_scheme(url.scheme) {
                Some(url.text)
            } else {
                None
            },
            None => None,
        },
        None => None,
    }
}

/// The largest thumbnail with an address, as its area and address. Of equally
/// large ones it is the last.
pub open spec fn best_thumbnail(thumbnails: Seq<JsonView>) -> Option<(int, Seq<char>)>
    decreases thumbnails.len(),
{
    if thumbnails.len() == 0 {
        None
    } else {
        let before = best_thumbnail(thumbnails.drop_last());
        match thumbnail_url(thumbnails.last()) {
            Some(url) => {
                let area = thumbnail_area(thumbnails.last());
                match before {
                    Some(best) => if best.0 > area {
                        before
                    } else {
                        Some((area, url))
                    },
                    None => Some((area, url)),
                }
            },
            None => before,
        }
    }
}

/// Whether a thumbnail has an address that is not one of the web.
pub open spec fn has_invalid_url(thumbnail: JsonView) -> bool {
    text_of(member(thumbnail, "url"@)) is Some && thumbnail_url(thumbnail) is None
}

/// The artwork of an item, and what is wrong with it.
pub open spec fn item_artwork(renderer: JsonView) -> (Option<Seq<char>>, Option<ParseWarningKind>) {
    match elements_of(
        step(
            step(
                step(member(renderer, "thumbnail"@), "musicThumbnailRenderer"@),
                "thumbnail"@,
            ),
            "thumbnails"@,
        ),
    ) {
        Some(thumbnails) => if thumbnails.len() > MAX_THUMBNAILS {
            (None, Some(ParseWarningKind::ResourceLimit { resource: ParseResource::Thumbnails }))
        } else {
            (
                match best_thumbnail(thumbnails) {
                    Some(best) => Some(best.1),
                    None => None,
                },
                if exists|i: int| 0 <= i < thumbnails.len() && has_invalid_url(#[trigger] thumbnails[i]) {
                    Some(ParseWarningKind::InvalidArtworkUrl)
                } else {
                    None
                },
            )
        },
        None => (None, None),
    }
}

/// `left * right`, or the largest number where that is larger.
fn saturating_area(left: u64, right: u64) -> (area: u64)
    ensures
        area == if left * right <= u64::MAX {
            left * right
        } else {
            u64::MAX as int
        },
{
    match left.checked_mul(right) {
        Some(area) => area,
        None => u64::MAX,
    }
}

fn artwork(renderer: &Json) -> (result: (Option<String>, Option<ParseWarningKind>))
    ensures
        optional_text(result.0) == item_artwork(renderer@).0,
        result.1 == item_artwork(renderer@).1,
{
    let thumbnails = match as_elements(
        enter(
            enter(enter(get(renderer, "thumbnail"), "musicThumbnailRenderer"), "thumbnail"),
            "thumbnails",
        ),
    ) {
        Some(thumbnails) => thumbnails,
        None => {
            return (None, None);
        },
    };
    if thumbnails.len() > MAX_THUMBNAILS {
        return (
            None,
            Some(ParseWarningKind::ResourceLimit { resource: ParseResource::Thumbnails }),
        );
    }
    let mut saw_invalid_url = false;
    let mut best: Option<String> = None;
    let mut best_area: u64 = 0;
    let mut index: usize = 0;
    assert(json_views(thumbnails@).take(0) =~= Seq::empty());
    while index < thumbnails.len()
        invariant
            index <= thumbnails.len(),
            saw_invalid_url == (exists|i: int|
                0 <= i < index && has_invalid_url(#[trigger] json_views(thumbnails@)[i])),
            match best {
                Some(url) => best_thumbnail(json_views(thumbnails@).take(index as int)) == Some(
                    (best_area as int, url@),
                ),
                None => best_thumbnail(json_views(thumbnails@).take(index as int)) is None,
            },
        decreases thumbnails.len() - index,
    {
        let thumbnail = &thumbnails[index];
        proof {
            assert(json_views(thumbnails@).take(index + 1).drop_last() =~= json_views(thumbnails@).take(
                index as int,
            ));
            assert(json_views(thumbnails@).take(index + 1).last() == thumbnail@);
        }
        if let Some(raw_url) = as_text(get(thumbnail, "url")) {
            let mut address: Option<String> = None;
            if let Some(url) = parse_url(raw_url.as_str()) {
                if has_web_scheme(&url) {
                    address = Some(url.text);
                }
            }
            assert(optional_text(address) == thumbnail_url(thumbnail@));
            match address {
                Some(url) => {
                    let area = saturating_area(
                        as_number(get(thumbnail, "width")),
                        as_number(get(thumbnail, "height")),
                    );
                    if best.is_none() || best_area <= area {
                        best = Some(url);
                        best_area = area;
                    }
                },
                None => {
                    assert(has_invalid_url(json_views(thumbnails@)[index as int]));
                    saw_invalid_url = true;
                },
            }
        }
        index = index + 1;
    }
    assert(json_views(thumbnails@).take(thumbnails@.len() as int) =~= json_views(thumbnails@));
    let warning = if saw_invalid_url {
        Some(ParseWarningKind::InvalidArtworkUrl)
    } else {
        None
    };
    (best, warning)
}

/// Whether a badge says that an item is explicit.
pub open spec fn is_explicit_badge(badge: JsonView) -> bool {
    text_of(step(step(member(badge, "musicInlineBadgeRenderer"@), "icon"@), "iconType"@)) == Some(
        "MUSIC_EXPLICIT_BADGE"@,
    )
}

/// Whether an item is marked as explicit.
pub open spec fn item_is_explicit(renderer: JsonView) -> bool {
    match elements_of(member(renderer, "badges"@)) {
        Some(badges) => exists|i: int|
            0 <= i < badges.len() && is_explicit_badge(#[trigger] badges[i]),
        None => false,
    }
}

fn is_explicit(renderer: &Json) -> (explicit: bool)
    ensures
        explicit == item_is_explicit(renderer@),
{
    match as_elements(get(renderer, "badges")) {
        Some(badges) => {
            let mut index: usize = 0;
            while index < badges.len()
                invariant
                    index <= badges.len(),
                    elements_of(member(renderer@, "badges"@)) == Some(json_views(badges@)),
                    forall|j: int|
                        0 <= j < index ==> !is_explicit_badge(#[trigger] json_views(badges@)[j]),
                decreases badges.len() - index,
            {
                let icon = as_text(
                    enter(
                        enter(get(&badges[index], "musicInlineBadgeRenderer"), "icon"),
                        "iconType",
                    ),
                );
                if let Some(icon) = icon {
                    if same_text(icon.as_str(), "MUSIC_EXPLICIT_BADGE") {
                        proof {
                            let all = elements_of(member(renderer@, "badges"@))->0;
                            assert(is_explicit_badge(all[index as int]));
                        }
                        return true;
                    }
                }
                index = index + 1;
            }
            false
        },
        None => false,
    }
}

/// What one item of a shelf says, with what is wrong with its details; or why
/// it cannot be used.
pub open spec fn parsed_item(renderer: JsonView) -> Result<
    (MediaItemView, Seq<ParseWarningKind>),
    ParseWarningKind,
> {
    match (
        item_video_id(renderer),
        column_text(renderer, 0),
        item_kind(renderer),
        item_runs(renderer),
    ) {
        (Err(kind), _, _, _) => Err(kind),
        (_, None, _, _) => Err(ParseWarningKind::MissingTitle),
        (_, _, Err(kind), _) => Err(kind),
        (_, _, _, Err(kind)) => Err(kind),
        (Ok(video_id), Some(title), Ok(kind), Ok(runs)) => {
            let (duration_ms, duration_warning) = item_duration(renderer);
            let (artwork_url, artwork_warning) = item_artwork(renderer);
            Ok(
                (
                    MediaItemView {
                        id: MediaIdView { provider: "youtube-music"@, video_id },
                        kind,
                        title,
                        creators: creator_names(runs),
                        collection: album_name(runs),
                        duration_ms,
                        artwork_url,
                        explicit: item_is_explicit(renderer),
                    },
                    listed(duration_warning) + listed(artwork_warning),
                ),
            )
        },
    }
}

/// A list of what there is.
pub open spec fn listed<T>(item: Option<T>) -> Seq<T> {
    match item {
        Some(item) => seq![item],
        None => Seq::empty(),
    }
}

struct ParsedMediaItem {
    item: MediaItem,
    warnings: Vec<ParseWarningKind>,
}

fn parse_media_item(renderer: &Json) -> (parsed: Result<ParsedMediaItem, ParseWarningKind>)
    ensures
        match parsed {
            Ok(parsed) => parsed_item(renderer@) == Ok::<
                (MediaItemView, Seq<ParseWarningKind>),
                ParseWarningKind,
            >((parsed.item@, parsed.warnings@)),
            Err(kind) => parsed_item(renderer@) == Err::<
                (MediaItemView, Seq<ParseWarningKind>),
                ParseWarningKind,
            >(kind),
        },
{
    let video_id = match video_id(renderer) {
        Ok(id) => id,
        Err(kind) => {
            return Err(kind);
        },
    };
    let title = match flex_column_text(renderer, 0) {
        Some(title) => title,
        None => {
            return Err(ParseWarningKind::MissingTitle);
        },
    };
    let kind = match media_kind(renderer) {
        Ok(kind) => kind,
        Err(kind) => {
            return Err(kind);
        },
    };
    let runs = match metadata_runs(renderer) {
        Ok(runs) => runs,
        Err(kind) => {
            return Err(kind);
        },
    };
    let (duration_ms, duration_warning) = duration(renderer);
    let (artwork_url, artwork_warning) = artwork(renderer);
    let mut warnings: Vec<ParseWarningKind> = Vec::new();
    if let Some(kind) = duration_warning {
        warnings.push(kind);
    }
    if let Some(kind) = artwork_warning {
        warnings.push(kind);
    }
    assert(warnings@ =~= listed(item_duration(renderer@).1) + listed(item_artwork(renderer@).1));
    let item = MediaItem {
        id: MediaId { provider: "youtube-music".to_owned(), video_id },
        kind,
        title,
        creators: creators(&runs),
        collection: collection(&runs),
        duration_ms,
        artwork_url,
        explicit: is_explicit(renderer),
    };
    Ok(ParsedMediaItem { item, warnings })
}

/// The item that an entry of a shelf holds, if it can be used.
#[verifier::opaque]
pub open spec fn entry_item(content: JsonView) -> Option<MediaItemView> {
    match member(content, "musicResponsiveListItemRenderer"@) {
        Some(renderer) => match parsed_item(renderer) {
            Ok(parsed) => Some(parsed.0),
            Err(_) => None,
        },
        None => None,
    }
}

/// What is wrong with an entry of a shelf.
#[verifier::opaque]
pub open spec fn entry_warnings(content: JsonView) -> Seq<ParseWarningKind> {
    match member(content, "musicResponsiveListItemRenderer"@) {
        Some(renderer) => match parsed_item(renderer) {
            Ok(parsed) => parsed.1,
            Err(kind) => seq![kind],
        },
        None => seq![ParseWarningKind::UnsupportedItemRenderer],
    }
}

/// The usable items of a shelf.
pub open spec fn shelf_items(contents: Seq<JsonView>) -> Seq<MediaItemView>
    decreases contents.len(),
{
    if contents.len() == 0 {
        Seq::empty()
    } else {
        shelf_items(contents.drop_last()) + listed(entry_item(contents.last()))
    }
}

/// `kinds` as warnings about one item.
pub open spec fn warnings_about(
    kinds: Seq<ParseWarningKind>,
    section_index: usize,
    item_index: usize,
) -> Seq<ParseWarning> {
    kinds.map_values(|kind: ParseWarningKind| ParseWarning { section_index, item_index, kind })
}

/// The warnings about the items of a shelf.
pub open spec fn shelf_warnings(contents: Seq<JsonView>, section_index: usize) -> Seq<ParseWarning>
    decreases contents.len(),
{
    if contents.len() == 0 {
        Seq::empty()
    } else {
        shelf_warnings(contents.drop_last(), section_index) + warnings_about(
            entry_warnings(contents.last()),
            section_index,
            (contents.len() - 1) as usize,
        )
    }
}

/// A longer shelf has no fewer warnings, and they come after those of the
/// shorter one.
proof fn lemma_shelf_warnings_extend(contents: Seq<JsonView>, section_index: usize, count: int)
    requires
        0 <= count <= contents.len(),
    ensures
        shelf_warnings(contents.take(count), section_index).is_prefix_of(
            shelf_warnings(contents, section_index),
        ),
    decreases contents.len(),
{
    if count == contents.len() {
        assert(contents.take(count) =~= contents);
    } else {
        lemma_shelf_warnings_extend(contents.drop_last(), section_index, count);
        assert(contents.drop_last().take(count) =~= contents.take(count));
    }
}

/// Adds a warning, unless there are as many as may be kept.
fn push_warning(
    warnings: &mut Vec<ParseWarning>,
    warning: ParseWarning,
    response: &'static str,
) -> (pushed: Result<(), ParseError>)
    ensures
        match pushed {
            Ok(()) => old(warnings).len() < MAX_WARNINGS && final(warnings)@ == old(
                warnings,
            )@.push(warning),
            Err(error) => old(warnings).len() >= MAX_WARNINGS && final(warnings)@ == old(warnings)@
                && error == (ParseError::ResourceLimit {
                response,
                resource: ParseResource::Warnings,
            }),
        },
{
    if warnings.len() >= MAX_WARNINGS {
        return Err(ParseError::ResourceLimit { response, resource: ParseResource::Warnings });
    }
    warnings.push(warning);
    Ok(())
}

/// Adds the warnings about one item, as far as they may be kept.
fn push_warnings(
    warnings: &mut Vec<ParseWarning>,
    kinds: &Vec<ParseWarningKind>,
    section_index: usize,
    item_index: usize,
    response: &'static str,
) -> (pushed: Result<(), ParseError>)
    requires
        old(warnings).len() <= MAX_WARNINGS,
    ensures
        ({
            let all = old(warnings)@ + warnings_about(kinds@, section_index, item_index);
            match pushed {
                Ok(()) => all.len() <= MAX_WARNINGS && final(warnings)@ == all,
                Err(error) => all.len() > MAX_WARNINGS && final(warnings)@ == all.take(
                    MAX_WARNINGS as int,
                ) && error == (ParseError::ResourceLimit {
                    response,
                    resource: ParseResource::Warnings,
                }),
            }
        }),
{
    let ghost before = warnings@;
    let ghost about = warnings_about(kinds@, section_index, item_index);
    let mut index: usize = 0;
    assert(before + about.take(0) =~= before);
    while index < kinds.len()
        invariant
            index <= kinds.len(),
            about == warnings_about(kinds@, section_index, item_index),
            warnings@ == before + about.take(index as int),
            warnings.len() <= MAX_WARNINGS,
            before == old(warnings)@,
        decreases kinds.len() - index,
    {
        let warning = ParseWarning { section_index, item_index, kind: kinds[index] };
        match push_warning(warnings, warning, response) {
            Ok(()) => {},
            Err(error) => {
                assert((before + about).take(MAX_WARNINGS as int) =~= warnings@);
                return Err(error);
            },
        }
        assert(before + about.take(index + 1) =~= (before + about.take(index as int)).push(
            warning,
        ));
        index = index + 1;
    }
    assert(about.take(about.len() as int) =~= about);
    Ok(())
}

/// Reads one entry of a shelf: its item, if it can be used, and what is wrong
/// with it.
fn parse_entry(content: &Json) -> (parsed: (Option<MediaItem>, Vec<ParseWarningKind>))
    ensures
        match parsed.0 {
            Some(item) => entry_item(content@) == Some(item@),
            None => entry_item(content@) is None,
        },
        parsed.1@ == entry_warnings(content@),
{
    reveal(entry_item);
    reveal(entry_warnings);
    let mut kinds: Vec<ParseWarningKind> = Vec::new();
    match get(content, "musicResponsiveListItemRenderer") {
        Some(renderer) => match parse_media_item(renderer) {
            Ok(parsed) => (Some(parsed.item), parsed.warnings),
            Err(kind) => {
                kinds.push(kind);
                assert(kinds@ =~= seq![kind]);
                (None, kinds)
            },
        },
        None => {
            kinds.push(ParseWarningKind::UnsupportedItemRenderer);
            assert(kinds@ =~= seq![ParseWarningKind::UnsupportedItemRenderer]);
            (None, kinds)
        },
    }
}

/// Reads the items of a shelf and adds the warnings about them. Where the
/// warnings become too many, the response is rejected.
fn parse_shelf_items(
    contents: &Vec<Json>,
    section_index: usize,
    warnings: &mut Vec<ParseWarning>,
    response: &'static str,
) -> (parsed: Result<Vec<MediaItem>, ParseError>)
    requires
        old(warnings).len() <= MAX_WARNINGS,
    ensures
        ({
            let all = old(warnings)@ + shelf_warnings(json_views(contents@), section_index);
            match parsed {
                Ok(items) => all.len() <= MAX_WARNINGS && final(warnings)@ == all && media_views(
                    items@,
                ) == shelf_items(json_views(contents@)),
                Err(error) => all.len() > MAX_WARNINGS && final(warnings)@ == all.take(
                    MAX_WARNINGS as int,
                ) && error == (ParseError::ResourceLimit {
                    response,
                    resource: ParseResource::Warnings,
                }),
            }
        }),
{
    let ghost before = warnings@;
    let mut items: Vec<MediaItem> = Vec::new();
    let mut item_index: usize = 0;
    proof {
        assert(json_views(contents@).take(0) =~= Seq::empty());
        assert(media_views(items@) =~= Seq::empty());
        assert(before + shelf_warnings(json_views(contents@).take(0), section_index) =~= before);
    }
    while item_index < contents.len()
        invariant
            item_index <= contents.len(),
            before == old(warnings)@,
            warnings@ == before + shelf_warnings(
                json_views(contents@).take(item_index as int),
                section_index,
            ),
            warnings.len() <= MAX_WARNINGS,
            media_views(items@) == shelf_items(json_views(contents@).take(item_index as int)),
        decreases contents.len() - item_index,
    {
        let content = &contents[item_index];
        let ghost next = json_views(contents@).take(item_index + 1);
        proof {
            assert(next.drop_last() =~= json_views(contents@).take(item_index as int));
            assert(next.last() == content@);
            lemma_shelf_warnings_extend(json_views(contents@), section_index, item_index + 1);
        }
        let (item, kinds) = parse_entry(content);
        let ghost so_far = warnings@;
        let pushed = push_warnings(warnings, &kinds, section_index, item_index, response);
        assert(so_far + warnings_about(kinds@, section_index, item_index) =~= before
            + shelf_warnings(next, section_index));
        match pushed {
            Ok(()) => {},
            Err(error) => {
                let ghost all = shelf_warnings(json_views(contents@), section_index);
                assert((before + all).take(MAX_WARNINGS as int) =~= warnings@);
                return Err(error);
            },
        }
        let ghost done = items@;
        match item {
            Some(item) => {
                items.push(item);
                assert(media_views(items@) =~= media_views(done) + seq![item@]);
            },
            None => {
                assert(media_views(items@) =~= media_views(done) + Seq::empty());
            },
        }
        item_index = item_index + 1;
    }
    assert(json_views(contents@).take(contents@.len() as int) =~= json_views(contents@));
    Ok(items)
}

/// What the shelves of a response hold.
#[verifier::ext_equal]
pub struct ShelvesView {
    pub sections: Seq<ChartSectionView>,
    pub warnings: Seq<ParseWarning>,
    /// Whether there is a shelf at all.
    pub found: bool,
    /// Whether any shelf has an entry.
    pub candidate: bool,
}

/// The entries of the shelf `name` in a section.
pub open spec fn shelf_contents(section: JsonView, name: Seq<char>) -> Option<Seq<JsonView>> {
    elements_of(step(member(section, name), "contents"@))
}

/// What the shelves `name` of the sections hold; or, of the first section that
/// goes over a limit, which limit it is.
pub open spec fn shelves(sections: Seq<JsonView>, name: Seq<char>) -> Result<ShelvesView, ParseResource>
    decreases sections.len(),
{
    if sections.len() == 0 {
        Ok(
            ShelvesView {
                sections: Seq::empty(),
                warnings: Seq::empty(),
                found: false,
                candidate: false,
            },
        )
    } else {
        match shelves(sections.drop_last(), name) {
            Err(resource) => Err(resource),
            Ok(before) => match shelf_contents(sections.last(), name) {
                None => Ok(before),
                Some(contents) => {
                    let warnings = before.warnings + shelf_warnings(
                        contents,
                        (sections.len() - 1) as usize,
                    );
                    if contents.len() > MAX_ITEMS_PER_SHELF {
                        Err(ParseResource::Items)
                    } else if warnings.len() > MAX_WARNINGS {
                        Err(ParseResource::Warnings)
                    } else {
                        Ok(
                            ShelvesView {
                                sections: before.sections.push(
                                    ChartSectionView {
                                        title: shelf_title(member(sections.last(), name)->0),
                                        items: shelf_items(contents),
                                    },
                                ),
                                warnings,
                                found: true,
                                candidate: before.candidate || contents.len() > 0,
                            },
                        )
                    }
                },
            },
        }
    }
}

struct Shelves {
    sections: Vec<ChartSection>,
    warnings: Vec<ParseWarning>,
    found: bool,
    candidate: bool,
}

impl View for Shelves {
    type V = ShelvesView;

    closed spec fn view(&self) -> ShelvesView {
        ShelvesView {
            sections: section_views(self.sections@),
            warnings: self.warnings@,
            found: self.found,
            candidate: self.candidate,
        }
    }
}

/// Once a section goes over a limit, those after it do not matter.
proof fn lemma_shelves_fail_early(sections: Seq<JsonView>, name: Seq<char>, count: int)
    requires
        0 <= count <= sections.len(),
        shelves(sections.take(count), name) is Err,
    ensures
        shelves(sections, name) == shelves(sections.take(count), name),
    decreases sections.len(),
{
    if count == sections.len() {
        assert(sections.take(count) =~= sections);
    } else {
        assert(sections.drop_last().take(count) =~= sections.take(count));
        lemma_shelves_fail_early(sections.drop_last(), name, count);
    }
}

/// Checks a count against its limit.
fn ensure_within_limit(
    actual: usize,
    limit: usize,
    response: &'static str,
    resource: ParseResource,
) -> (checked: Result<(), ParseError>)
    ensures
        match checked {
            Ok(()) => actual <= limit,
            Err(error) => actual > limit && error == (ParseError::ResourceLimit {
                response,
                resource,
            }),
        },
{
    if actual > limit {
        return Err(ParseError::ResourceLimit { response, resource });
    }
    Ok(())
}

fn collect_shelves(sections: &Vec<Json>, name: &str, response: &'static str) -> (collected: Result<
    Shelves,
    ParseError,
>)
    ensures
        match collected {
            Ok(collected) => shelves(json_views(sections@), name@) == Ok::<ShelvesView, ParseResource>(
                collected@,
            ),
            Err(error) => shelves(json_views(sections@), name@) is Err && error == (
            ParseError::ResourceLimit {
                response,
                resource: shelves(json_views(sections@), name@)->Err_0,
            }),
        },
{
    let mut collected = Shelves {
        sections: Vec::new(),
        warnings: Vec::new(),
        found: false,
        candidate: false,
    };
    let mut section_index: usize = 0;
    proof {
        assert(json_views(sections@).take(0) =~= Seq::empty());
        assert(section_views(collected.sections@) =~= Seq::empty());
    }
    while section_index < sections.len()
        invariant
            section_index <= sections.len(),
            shelves(json_views(sections@).take(section_index as int), name@) == Ok::<
                ShelvesView,
                ParseResource,
            >(
                collected@,
            ),
            collected.warnings.len() <= MAX_WARNINGS,
        decreases sections.len() - section_index,
    {
        let section = &sections[section_index];
        let ghost next = json_views(sections@).take(section_index + 1);
        proof {
            assert(next.drop_last() =~= json_views(sections@).take(section_index as int));
            assert(next.last() == section@);
        }
        if let Some(shelf) = get(section, name) {
            if let Some(contents) = as_elements(get(shelf, "contents")) {
                match ensure_within_limit(
                    contents.len(),
                    MAX_ITEMS_PER_SHELF,
                    response,
                    ParseResource::Items,
                ) {
                    Ok(()) => {},
                    Err(error) => {
                        proof {
                            lemma_shelves_fail_early(json_views(sections@), name@, section_index + 1);
                        }
                        return Err(error);
                    },
                }
                let ghost before = collected@;
                let title = match chart_title(shelf) {
                    Some(title) => title,
                    None => "Charts".to_owned(),
                };
                let mut warnings = Vec::new();
                std::mem::swap(&mut warnings, &mut collected.warnings);
                let items = match parse_shelf_items(contents, section_index, &mut warnings, response) {
                    Ok(items) => items,
                    Err(error) => {
                        proof {
                            lemma_shelves_fail_early(json_views(sections@), name@, section_index + 1);
                        }
                        return Err(error);
                    },
                };
                collected.warnings = warnings;
                let ghost done = collected.sections@;
                collected.sections.push(ChartSection { title, items });
                collected.found = true;
                collected.candidate = collected.candidate || contents.len() > 0;
                assert(section_views(collected.sections@) =~= section_views(done).push(
                    ChartSectionView { title: title@, items: media_views(items@) },
                ));
            }
        }
        section_index = section_index + 1;
    }
    assert(json_views(sections@).take(sections@.len() as int) =~= json_views(sections@));
    Ok(collected)
}

/// All items of a list of sections.
pub open spec fn all_items(sections: Seq<ChartSectionView>) -> Seq<MediaItemView>
    decreases sections.len(),
{
    if sections.len() == 0 {
        Seq::empty()
    } else {
        all_items(sections.drop_last()) + sections.last().items
    }
}

/// What the shelves `name` under `renderer` hold, or why the response is
/// rejected: it has no sections or no such shelf, goes over a limit, or none
/// of its entries can be used.
pub open spec fn response_shelves(
    document: JsonView,
    renderer: Seq<char>,
    name: Seq<char>,
    response: &'static str,
) -> Result<ShelvesView, ParseError> {
    match sections_of(document, renderer) {
        None => Err(ParseError::UnsupportedShape { response }),
        Some(sections) => if sections.len() > MAX_SECTIONS {
            Err(ParseError::ResourceLimit { response, resource: ParseResource::Sections })
        } else {
            match shelves(sections, name) {
                Err(resource) => Err(ParseError::ResourceLimit { response, resource }),
                Ok(found) => if !found.found {
                    Err(ParseError::UnsupportedShape { response })
                } else if found.candidate && all_items(found.sections).len() == 0 {
                    Err(ParseError::UnusableResponse { response })
                } else {
                    Ok(found)
                },
            }
        },
    }
}

/// Whether the sections hold any item.
fn has_items(sections: &Vec<ChartSection>) -> (any: bool)
    ensures
        any == (all_items(section_views(sections@)).len() > 0),
{
    let ghost all = section_views(sections@);
    let mut index: usize = 0;
    assert(all.take(0) =~= Seq::empty());
    while index < sections.len()
        invariant
            index <= sections.len(),
            all == section_views(sections@),
            all_items(all.take(index as int)).len() == 0,
        decreases sections.len() - index,
    {
        proof {
            assert(all.take(index + 1).drop_last() =~= all.take(index as int));
            assert(all[index as int] == sections@[index as int]@);
            assert(media_views(sections@[index as int].items@).len()
                == sections@[index as int].items@.len());
            lemma_all_items_grow(all, index + 1);
        }
        if sections[index].items.len() > 0 {
            return true;
        }
        index = index + 1;
    }
    assert(all.take(all.len() as int) =~= all);
    false
}

/// More sections have no fewer items.
proof fn lemma_all_items_grow(sections: Seq<ChartSectionView>, count: int)
    requires
        0 <= count <= sections.len(),
    ensures
        all_items(sections.take(count)).len() <= all_items(sections).len(),
    decreases sections.len(),
{
    if count == sections.len() {
        assert(sections.take(count) =~= sections);
    } else {
        lemma_all_items_grow(sections.drop_last(), count);
        assert(sections.drop_last().take(count) =~= sections.take(count));
    }
}

fn parse_shelves(
    document: &Json,
    renderer: &str,
    name: &str,
    response: &'static str,
) -> (parsed: Result<Shelves, ParseError>)
    ensures
        match parsed {
            Ok(parsed) => response_shelves(document@, renderer@, name@, response) == Ok::<
                ShelvesView,
                ParseError,
            >(parsed@),
            Err(error) => response_shelves(document@, renderer@, name@, response) == Err::<
                ShelvesView,
                ParseError,
            >(error),
        },
{
    let sections = match section_list(document, renderer) {
        Some(sections) => sections,
        None => {
            return Err(ParseError::UnsupportedShape { response });
        },
    };
    match ensure_within_limit(sections.len(), MAX_SECTIONS, response, ParseResource::Sections) {
        Ok(()) => {},
        Err(error) => {
            return Err(error);
        },
    }
    let collected = match collect_shelves(sections, name, response) {
        Ok(collected) => collected,
        Err(error) => {
            return Err(error);
        },
    };
    if !collected.found {
        return Err(ParseError::UnsupportedShape { response });
    }
    if collected.candidate && !has_items(&collected.sections) {
        return Err(ParseError::UnusableResponse { response });
    }
    Ok(collected)
}

/// What a chart document holds, or why it is rejected.
pub open spec fn chart_report(document: JsonView) -> Result<
    (Seq<ChartSectionView>, Seq<ParseWarning>),
    ParseError,
> {
    match response_shelves(
        document,
        "singleColumnBrowseResultsRenderer"@,
        "musicCarouselShelfRenderer"@,
        "charts",
    ) {
        Ok(found) => Ok((found.sections, found.warnings)),
        Err(error) => Err(error),
    }
}

/// Reads the chart sections of a document.
pub fn parse_chart_document(document: &Json) -> (parsed: Result<
    ParseReport<Vec<ChartSection>>,
    ParseError,
>)
    ensures
        match parsed {
            Ok(report) => chart_report(document@) == Ok::<
                (Seq<ChartSectionView>, Seq<ParseWarning>),
                ParseError,
            >((section_views(report.value@), report.warnings@)),
            Err(error) => chart_report(document@) == Err::<
                (Seq<ChartSectionView>, Seq<ParseWarning>),
                ParseError,
            >(error),
        },
{
    match parse_shelves(
        document,
        "singleColumnBrowseResultsRenderer",
        "musicCarouselShelfRenderer",
        "charts",
    ) {
        Ok(found) => Ok(ParseReport { value: found.sections, warnings: found.warnings }),
        Err(error) => Err(error),
    }
}

/// The document that a response holds, or why it is rejected: it is too large
/// or no JSON.
pub open spec fn response_document(bytes: Seq<u8>, response: &'static str) -> Result<
    JsonView,
    ParseError,
> {
    if bytes.len() > MAX_RESPONSE_BYTES {
        Err(ParseError::InputTooLarge { response })
    } else {
        match json_document(bytes) {
            Some(document) => Ok(document),
            None => Err(ParseError::InvalidJson { response }),
        }
    }
}

fn parse_document(bytes: &[u8], response: &'static str) -> (document: Result<Json, ParseError>)
    ensures
        match document {
            Ok(document) => response_document(bytes@, response) == Ok::<JsonView, ParseError>(
                document@,
            ),
            Err(error) => response_document(bytes@, response) == Err::<JsonView, ParseError>(error),
        },
{
    if bytes.len() > MAX_RESPONSE_BYTES {
        return Err(ParseError::InputTooLarge { response });
    }
    match read_json(bytes) {
        Some(document) => Ok(document),
        None => Err(ParseError::InvalidJson { response }),
    }
}

/// Parses a normalized chart response.
pub fn parse_chart_response(bytes: &[u8]) -> (parsed: Result<
    ParseReport<Vec<ChartSection>>,
    ParseError,
>)
    ensures
        match (response_document(bytes@, "charts"), parsed) {
            (Err(error), Err(reported)) => reported == error,
            (Ok(document), Ok(report)) => chart_report(document) == Ok::<
                (Seq<ChartSectionView>, Seq<ParseWarning>),
                ParseError,
            >((section_views(report.value@), report.warnings@)),
            (Ok(document), Err(reported)) => chart_report(document) == Err::<
                (Seq<ChartSectionView>, Seq<ParseWarning>),
                ParseError,
            >(reported),
            (Err(_), Ok(_)) => false,
        },
{
    match parse_document(bytes, "charts") {
        Ok(document) => parse_chart_document(&document),
        Err(error) => Err(error),
    }
}

/// The items of a page of playable search results.
pub open spec fn playable(items: Seq<MediaItemView>) -> Seq<ItemView> {
    items.map_values(|item: MediaItemView| ItemView::Playable(item))
}

/// What a search document holds, or why it is rejected.
pub open spec fn search_report(document: JsonView) -> Result<
    (Seq<ItemView>, Seq<ParseWarning>),
    ParseError,
> {
    match response_shelves(
        document,
        "tabbedSearchResultsRenderer"@,
        "musicShelfRenderer"@,
        "search",
    ) {
        Ok(found) => Ok((playable(all_items(found.sections)), found.warnings)),
        Err(error) => Err(error),
    }
}

fn flatten_items(sections: Vec<ChartSection>) -> (items: Vec<SearchItem>)
    ensures
        search_views(items@) == playable(all_items(section_views(sections@))),
{
    let ghost all = section_views(sections@);
    let mut items: Vec<SearchItem> = Vec::new();
    let mut index: usize = 0;
    proof {
        assert(all.take(0) =~= Seq::empty());
        assert(search_views(items@) =~= playable(all_items(all.take(0))));
    }
    while index < sections.len()
        invariant
            index <= sections.len(),
            all == section_views(sections@),
            search_views(items@) == playable(all_items(all.take(index as int))),
        decreases sections.len() - index,
    {
        let ghost done = items@;
        let shelf = &sections[index].items;
        let ghost shelf_items = media_views(shelf@);
        proof {
            assert(all.take(index + 1).drop_last() =~= all.take(index as int));
            assert(all.take(index + 1).last().items == shelf_items);
        }
        let mut position: usize = 0;
        assert(search_views(done) + playable(shelf_items.take(0)) =~= search_views(done));
        while position < shelf.len()
            invariant
                position <= shelf.len(),
                shelf_items == media_views(shelf@),
                search_views(items@) == search_views(done) + playable(
                    shelf_items.take(position as int),
                ),
            decreases shelf.len() - position,
        {
            let ghost grown = items@;
            items.push(SearchItem::Playable(shelf[position].clone()));
            position = position + 1;
            assert(search_views(items@) =~= search_views(grown).push(
                ItemView::Playable(shelf_items[position - 1]),
            ));
            assert(search_views(items@) =~= search_views(done) + playable(
                shelf_items.take(position as int),
            ));
        }
        assert(shelf_items.take(shelf_items.len() as int) =~= shelf_items);
        assert(search_views(items@) =~= playable(all_items(all.take(index + 1))));
        index = index + 1;
    }
    assert(all.take(all.len() as int) =~= all);
    items
}

/// Reads the playable items of a search document.
pub fn parse_search_document(document: &Json) -> (parsed: Result<
    ParseReport<Page<SearchItem>>,
    ParseError,
>)
    ensures
        match parsed {
            Ok(report) => {
                &&& search_report(document@) == Ok::<
                    (Seq<ItemView>, Seq<ParseWarning>),
                    ParseError,
                >((search_views(report.value.items@), report.warnings@))
                &&& report.value.continuation is None
                &&& !report.value.stale
            },
            Err(error) => search_report(document@) == Err::<
                (Seq<ItemView>, Seq<ParseWarning>),
                ParseError,
            >(error),
        },
{
    match parse_shelves(document, "tabbedSearchResultsRenderer", "musicShelfRenderer", "search") {
        Ok(found) => Ok(
            ParseReport {
                value: Page {
                    items: flatten_items(found.sections),
                    continuation: None,
                    stale: false,
                },
                warnings: found.warnings,
            },
        ),
        Err(error) => Err(error),
    }
}

/// Parses normalized playable items from a search response.
pub fn parse_search_response(bytes: &[u8]) -> (parsed: Result<
    ParseReport<Page<SearchItem>>,
    ParseError,
>)
    ensures
        match (response_document(bytes@, "search"), parsed) {
            (Err(error), Err(reported)) => reported == error,
            (Ok(document), Ok(report)) => {
                &&& search_report(document) == Ok::<
                    (Seq<ItemView>, Seq<ParseWarning>),
                    ParseError,
                >((search_views(report.value.items@), report.warnings@))
                &&& report.value.continuation is None
                &&& !report.value.stale
            },
            (Ok(document), Err(reported)) => search_report(document) == Err::<
                (Seq<ItemView>, Seq<ParseWarning>),
                ParseError,
            >(reported),
            (Err(_), Ok(_)) => false,
        },
{
    match parse_document(bytes, "search") {
        Ok(document) => parse_search_document(&document),
        Err(error) => Err(error),
    }
}

/// The chart playlists that the entries of a shelf refer to.
pub open spec fn shelf_references(contents: Seq<JsonView>) -> Seq<ReferenceView>
    decreases contents.len(),
{
    if contents.len() == 0 {
        Seq::empty()
    } else {
        shelf_references(contents.drop_last()) + listed(playlist_reference(contents.last()))
    }
}

/// The chart playlists that the sections refer to and whether there is a chart
/// shelf at all; or, of the first section that goes over a limit, which limit
/// it is.
pub open spec fn section_references(sections: Seq<JsonView>) -> Result<
    (Seq<ReferenceView>, bool),
    ParseResource,
>
    decreases sections.len(),
{
    if sections.len() == 0 {
        Ok((Seq::empty(), false))
    } else {
        match section_references(sections.drop_last()) {
            Err(resource) => Err(resource),
            Ok(before) => match shelf_contents(sections.last(), "musicCarouselShelfRenderer"@) {
                None => Ok(before),
                Some(contents) => {
                    let references = before.0 + shelf_references(contents);
                    if contents.len() > MAX_ITEMS_PER_SHELF {
                        Err(ParseResource::Items)
                    } else if references.len() > MAX_SECTIONS {
                        Err(ParseResource::Sections)
                    } else {
                        Ok((references, true))
                    }
                },
            },
        }
    }
}

/// The chart playlists that a document refers to, or why it is rejected.
pub open spec fn document_references(document: JsonView) -> Result<Seq<ReferenceView>, ParseError> {
    let response = "charts";
    match sections_of(document, "singleColumnBrowseResultsRenderer"@) {
        None => Err(ParseError::UnsupportedShape { response }),
        Some(sections) => if sections.len() > MAX_SECTIONS {
            Err(ParseError::ResourceLimit { response, resource: ParseResource::Sections })
        } else {
            match section_references(sections) {
                Err(resource) => Err(ParseError::ResourceLimit { response, resource }),
                Ok(found) => if !found.1 {
                    Err(ParseError::UnsupportedShape { response })
                } else if found.0.len() == 0 {
                    Err(ParseError::UnusableResponse { response })
                } else {
                    Ok(found.0)
                },
            }
        },
    }
}

proof fn lemma_section_references_fail_early(sections: Seq<JsonView>, count: int)
    requires
        0 <= count <= sections.len(),
        section_references(sections.take(count)) is Err,
    ensures
        section_references(sections) == section_references(sections.take(count)),
    decreases sections.len(),
{
    if count == sections.len() {
        assert(sections.take(count) =~= sections);
    } else {
        assert(sections.drop_last().take(count) =~= sections.take(count));
        lemma_section_references_fail_early(sections.drop_last(), count);
    }
}

proof fn lemma_shelf_references_grow(contents: Seq<JsonView>, count: int)
    requires
        0 <= count <= contents.len(),
    ensures
        shelf_references(contents.take(count)).len() <= shelf_references(contents).len(),
    decreases contents.len(),
{
    if count == contents.len() {
        assert(contents.take(count) =~= contents);
    } else {
        lemma_shelf_references_grow(contents.drop_last(), count);
        assert(contents.drop_last().take(count) =~= contents.take(count));
    }
}

/// Adds the chart playlists that a shelf refers to, and says whether they are
/// within the limit.
fn push_references(references: &mut Vec<ChartPlaylistReference>, contents: &Vec<Json>) -> (within: bool)
    requires
        old(references).len() <= MAX_SECTIONS,
    ensures
        within == (old(references).len() + shelf_references(json_views(contents@)).len()
            <= MAX_SECTIONS),
        within ==> reference_views(final(references)@) == reference_views(old(references)@)
            + shelf_references(json_views(contents@)),
{
    let ghost before = reference_views(references@);
    let mut index: usize = 0;
    proof {
        assert(json_views(contents@).take(0) =~= Seq::empty());
        assert(before + shelf_references(json_views(contents@).take(0)) =~= before);
    }
    while index < contents.len()
        invariant
            index <= contents.len(),
            before == reference_views(old(references)@),
            before.len() == old(references).len(),
            references.len() <= MAX_SECTIONS,
            reference_views(references@) == before + shelf_references(
                json_views(contents@).take(index as int),
            ),
        decreases contents.len() - index,
    {
        let ghost done = references@;
        proof {
            assert(json_views(contents@).take(index + 1).drop_last() =~= json_views(contents@).take(
                index as int,
            ));
            lemma_shelf_references_grow(json_views(contents@), index + 1);
        }
        match chart_playlist_reference(&contents[index]) {
            Some(reference) => {
                references.push(reference);
                assert(reference_views(references@) =~= reference_views(done).push(reference@));
                assert(reference_views(references@) =~= before + shelf_references(
                    json_views(contents@).take(index + 1),
                ));
                if references.len() > MAX_SECTIONS {
                    assert(reference_views(references@).len() == references.len());
                    return false;
                }
            },
            None => {
                assert(reference_views(references@) =~= before + shelf_references(
                    json_views(contents@).take(index + 1),
                ));
            },
        }
        index = index + 1;
    }
    assert(json_views(contents@).take(contents@.len() as int) =~= json_views(contents@));
    assert(reference_views(references@).len() == references.len());
    true
}

/// Reads the chart playlists that a document refers to.
pub fn parse_chart_playlist_document(document: &Json) -> (parsed: Result<
    Vec<ChartPlaylistReference>,
    ParseError,
>)
    ensures
        match parsed {
            Ok(references) => document_references(document@) == Ok::<
                Seq<ReferenceView>,
                ParseError,
            >(reference_views(references@)),
            Err(error) => document_references(document@) == Err::<Seq<ReferenceView>, ParseError>(
                error,
            ),
        },
{
    let response = "charts";
    let sections = match section_list(document, "singleColumnBrowseResultsRenderer") {
        Some(sections) => sections,
        None => {
            return Err(ParseError::UnsupportedShape { response });
        },
    };
    match ensure_within_limit(sections.len(), MAX_SECTIONS, response, ParseResource::Sections) {
        Ok(()) => {},
        Err(error) => {
            return Err(error);
        },
    }
    let mut references: Vec<ChartPlaylistReference> = Vec::new();
    let mut found_chart_shelf = false;
    let mut index: usize = 0;
    proof {
        assert(json_views(sections@).take(0) =~= Seq::empty());
        assert(reference_views(references@) =~= Seq::empty());
    }
    while index < sections.len()
        invariant
            index <= sections.len(),
            sections.len() <= MAX_SECTIONS,
            response == "charts",
            sections_of(document@, "singleColumnBrowseResultsRenderer"@) == Some(
                json_views(sections@),
            ),
            references.len() <= MAX_SECTIONS,
            section_references(json_views(sections@).take(index as int)) == Ok::<
                (Seq<ReferenceView>, bool),
                ParseResource,
            >((reference_views(references@), found_chart_shelf)),
        decreases sections.len() - index,
    {
        let ghost next = json_views(sections@).take(index + 1);
        proof {
            assert(next.drop_last() =~= json_views(sections@).take(index as int));
            assert(next.last() == json_views(sections@)[index as int]);
        }
        let shelf = enter(get(&sections[index], "musicCarouselShelfRenderer"), "contents");
        if let Some(contents) = as_elements(shelf) {
            let ghost before = references@;
            match ensure_within_limit(
                contents.len(),
                MAX_ITEMS_PER_SHELF,
                response,
                ParseResource::Items,
            ) {
                Ok(()) => {},
                Err(error) => {
                    proof {
                        lemma_section_references_fail_early(json_views(sections@), index + 1);
                    }
                    return Err(error);
                },
            }
            assert(reference_views(before).len() == before.len());
            if !push_references(&mut references, contents) {
                proof {
                    lemma_section_references_fail_early(json_views(sections@), index + 1);
                }
                return Err(ParseError::ResourceLimit { response, resource: ParseResource::Sections });
            }
            found_chart_shelf = true;
            assert(reference_views(references@).len() == references.len());
        }
        index = index + 1;
    }
    assert(json_views(sections@).take(sections@.len() as int) =~= json_views(sections@));
    assert(reference_views(references@).len() == references.len());
    if !found_chart_shelf {
        return Err(ParseError::UnsupportedShape { response });
    }
    if references.len() == 0 {
        return Err(ParseError::UnusableResponse { response });
    }
    Ok(references)
}

/// Parses the chart playlists that a response refers to.
pub fn parse_chart_playlist_references(bytes: &[u8]) -> (parsed: Result<
    Vec<ChartPlaylistReference>,
    ParseError,
>)
    ensures
        match (response_document(bytes@, "charts"), parsed) {
            (Err(error), Err(reported)) => reported == error,
            (Ok(document), Ok(references)) => document_references(document) == Ok::<
                Seq<ReferenceView>,
                ParseError,
            >(reference_views(references@)),
            (Ok(document), Err(reported)) => document_references(document) == Err::<
                Seq<ReferenceView>,
                ParseError,
            >(reported),
            (Err(_), Ok(_)) => false,
        },
{
    match parse_document(bytes, "charts") {
        Ok(document) => parse_chart_playlist_document(&document),
        Err(error) => Err(error),
    }
}

/// Whether an item can be used: its provider and its id are right, it has a
/// title, whose words single spaces join, and it names each of its creators once.
pub open spec fn is_usable(item: MediaItemView) -> bool {
    &&& item.id.provider == "youtube-music"@
    &&& is_opaque_id(item.id.video_id, MAX_VIDEO_ID_BYTES as int)
    &&& item.title.len() > 0
    &&& item.title == collapsed(item.title)
    &&& item.creators.no_duplicates()
}

proof fn lemma_creator_names_differ(runs: Seq<JsonView>)
    ensures
        creator_names(runs).no_duplicates(),
    decreases runs.len(),
{
    if runs.len() > 0 {
        lemma_creator_names_differ(runs.drop_last());
    }
}

proof fn lemma_formatted_is_collapsed(text: Option<JsonView>)
    ensures
        formatted(text) matches Some(shown) ==> shown == collapsed(shown),
{
    match text_of(step(text, "simpleText"@)) {
        Some(simple) => {
            law_collapsing_twice_changes_nothing(simple);
        },
        None => {
            if let Some(runs) = elements_of(step(text, "runs"@)) {
                law_collapsing_twice_changes_nothing(joined_runs(runs));
            }
        },
    }
}

proof fn lemma_parsed_item_is_usable(renderer: JsonView)
    ensures
        parsed_item(renderer) matches Ok(parsed) ==> is_usable(parsed.0),
{
    if let Ok(runs) = item_runs(renderer) {
        lemma_creator_names_differ(runs);
    }
    if let Some(columns) = elements_of(member(renderer, "flexColumns"@)) {
        lemma_formatted_is_collapsed(
            step(member(columns[0], "musicResponsiveListItemFlexColumnRenderer"@), "text"@),
        );
    }
}

proof fn lemma_shelf_items_are_usable(contents: Seq<JsonView>)
    ensures
        shelf_items(contents).len() <= contents.len(),
        forall|i: int|
            0 <= i < shelf_items(contents).len() ==> is_usable(#[trigger] shelf_items(contents)[i]),
    decreases contents.len(),
{
    if contents.len() > 0 {
        lemma_shelf_items_are_usable(contents.drop_last());
        reveal(entry_item);
        if let Some(renderer) = member(contents.last(), "musicResponsiveListItemRenderer"@) {
            lemma_parsed_item_is_usable(renderer);
        }
    }
}

/// Whether a section holds no more items than a shelf may, all of them usable.
pub open spec fn is_sound_section(section: ChartSectionView) -> bool {
    &&& section.items.len() <= MAX_ITEMS_PER_SHELF
    &&& forall|i: int| 0 <= i < section.items.len() ==> is_usable(#[trigger] section.items[i])
}

proof fn lemma_shelves_are_sound(sections: Seq<JsonView>, name: Seq<char>)
    ensures
        shelves(sections, name) matches Ok(found) ==> {
            &&& found.sections.len() <= sections.len()
            &&& found.warnings.len() <= MAX_WARNINGS
            &&& forall|i: int|
                0 <= i < found.sections.len() ==> is_sound_section(#[trigger] found.sections[i])
        },
    decreases sections.len(),
{
    if sections.len() > 0 {
        lemma_shelves_are_sound(sections.drop_last(), name);
        if let Some(contents) = shelf_contents(sections.last(), name) {
            lemma_shelf_items_are_usable(contents);
        }
    }
}

/// What is read of a chart stays within every limit, and each of its items can be
/// used.
pub proof fn law_charts_stay_within_limits(document: JsonView)
    ensures
        chart_report(document) matches Ok(report) ==> {
            &&& report.0.len() <= MAX_SECTIONS
            &&& report.1.len() <= MAX_WARNINGS
            &&& forall|i: int|
                0 <= i < report.0.len() ==> is_sound_section(#[trigger] report.0[i])
        },
{
    if let Some(sections) = sections_of(document, "singleColumnBrowseResultsRenderer"@) {
        lemma_shelves_are_sound(sections, "musicCarouselShelfRenderer"@);
    }
}

/// A response over its size is rejected, whatever it holds.
pub proof fn law_large_responses_are_rejected(bytes: Seq<u8>, response: &'static str)
    requires
        bytes.len() > MAX_RESPONSE_BYTES,
    ensures
        response_document(bytes, response) == Err::<JsonView, ParseError>(
            ParseError::InputTooLarge { response },
        ),
{
}

proof fn lemma_all_items_are_usable(sections: Seq<ChartSectionView>)
    requires
        forall|i: int| 0 <= i < sections.len() ==> is_sound_section(#[trigger] sections[i]),
    ensures
        forall|i: int|
            0 <= i < all_items(sections).len() ==> is_usable(#[trigger] all_items(sections)[i]),
    decreases sections.len(),
{
    if sections.len() > 0 {
        let shorter = sections.drop_last();
        assert forall|i: int| 0 <= i < shorter.len() implies is_sound_section(
            #[trigger] shorter[i],
        ) by {
            assert(shorter[i] == sections[i]);
        }
        lemma_all_items_are_usable(shorter);
        let last = sections[sections.len() - 1];
        assert(is_sound_section(last));
        let before = all_items(shorter);
        assert forall|i: int| 0 <= i < all_items(sections).len() implies is_usable(
            #[trigger] all_items(sections)[i],
        ) by {
            if i < before.len() {
                assert(is_usable(before[i]));
            } else {
                assert(is_usable(last.items[i - before.len()]));
            }
        }
    }
}

/// Each item that is read of search results can be played and used.
pub proof fn law_search_results_are_usable(document: JsonView)
    ensures
        search_report(document) matches Ok(report) ==> {
            &&& report.1.len() <= MAX_WARNINGS
            &&& forall|i: int|
                0 <= i < report.0.len() ==> ((#[trigger] report.0[i]) matches ItemView::Playable(
                    item,
                ) && is_usable(item))
        },
{
    if let Some(sections) = sections_of(document, "tabbedSearchResultsRenderer"@) {
        lemma_shelves_are_sound(sections, "musicShelfRenderer"@);
        if let Ok(found) = shelves(sections, "musicShelfRenderer"@) {
            lemma_all_items_are_usable(found.sections);
        }
    }
}

/// Whether a reference names a playlist that can be asked for.
pub open spec fn is_sound_reference(reference: ReferenceView) -> bool {
    &&& trimmed(reference.title).len() > 0
    &&& is_opaque_id(reference.playlist_id, MAX_PLAYLIST_ID_BYTES as int)
}

proof fn lemma_shelf_references_are_sound(contents: Seq<JsonView>)
    ensures
        forall|i: int|
            0 <= i < shelf_references(contents).len() ==> is_sound_reference(
                #[trigger] shelf_references(contents)[i],
            ),
    decreases contents.len(),
{
    if contents.len() > 0 {
        lemma_shelf_references_are_sound(contents.drop_last());
        let before = shelf_references(contents.drop_last());
        let added = listed(playlist_reference(contents.last()));
        reveal(playlist_reference);
        assert forall|i: int| 0 <= i < shelf_references(contents).len() implies is_sound_reference(
            #[trigger] shelf_references(contents)[i],
        ) by {
            if i < before.len() {
                assert(is_sound_reference(before[i]));
            } else {
                assert(shelf_references(contents)[i] == added[0]);
            }
        }
    }
}

proof fn lemma_section_references_are_sound(sections: Seq<JsonView>)
    ensures
        section_references(sections) matches Ok(found) ==> {
            &&& found.0.len() <= MAX_SECTIONS
            &&& forall|i: int|
                0 <= i < found.0.len() ==> is_sound_reference(#[trigger] found.0[i])
        },
    decreases sections.len(),
{
    if sections.len() > 0 {
        lemma_section_references_are_sound(sections.drop_last());
        if let Some(contents) = shelf_contents(sections.last(), "musicCarouselShelfRenderer"@) {
            lemma_shelf_references_are_sound(contents);
        }
    }
}

/// Charts refer to at least one playlist and to no more than the limit, each of
/// them with a title and an id that can be asked for.
pub proof fn law_chart_references_are_sound(document: JsonView)
    ensures
        document_references(document) matches Ok(references) ==> {
            &&& 0 < references.len() <= MAX_SECTIONS
            &&& forall|i: int|
                0 <= i < references.len() ==> is_sound_reference(#[trigger] references[i])
        },
{
    if let Some(sections) = sections_of(document, "singleColumnBrowseResultsRenderer"@) {
        lemma_section_references_are_sound(sections);
    }
}

} // verus!
