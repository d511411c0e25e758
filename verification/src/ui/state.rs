//! What the player knows and the interface draws, as plain values. Numbers that
//! are fractions come as the text that is shown for them.

use vstd::prelude::*;
use vstd::string::*;

use crate::domain::{
    Generation, MediaId, MediaIdView, MediaItem, MediaItemView, PlaybackStatus, SearchFilter,
};
use crate::queue::{item_views, Queue, QueueItem, QueueItemView};
use crate::ui::line::Line;
use crate::ui::motion::ProgressPresentation;
use crate::ui::viewport::RenderedRowTarget;

verus! {

/// What is being played, and how.
pub struct Playback {
    pub status: PlaybackStatus,
    pub current: Option<MediaId>,
    pub position_ms: u64,
    pub duration_ms: Option<u64>,
    pub target_volume: u16,
    /// The speed with one decimal.
    pub speed_in_tenths: String,
    /// The speed with two decimals.
    pub speed_in_hundredths: String,
}

/// In which direction the volume changes.
#[derive(Clone, Copy, Debug, Eq, PartialEq, Structural)]
pub enum FadeActivity {
    In,
    Out,
}

/// A change of volume.
pub struct Fade {
    pub activity: FadeActivity,
    pub label: String,
}

/// What is known of the sound.
pub struct Quality {
    pub known: bool,
    pub format_id: Option<String>,
    pub codec: Option<String>,
}

/// How playback sounds.
pub struct PlayerPresentation {
    pub fade: Option<Fade>,
    /// The volume as it is, without decimals.
    pub effective_volume: String,
    /// The volume as it is, between nothing and a hundred.
    pub bounded_volume: String,
    pub quality: Quality,
    pub fade_in_ms: u64,
    pub fade_out_ms: u64,
}

/// Where lyrics come from.
#[derive(Clone, Copy, Debug, Eq, PartialEq, Structural)]
pub enum LyricsSource {
    YouTubeMusic,
    Lrclib,
}

/// The lyrics of an item. Timed lines come in the order of their times.
pub struct LyricsDocument {
    pub source: LyricsSource,
    pub instrumental: bool,
    pub timed: Vec<String>,
    pub plain: Option<String>,
}

/// Two lines of lyrics of which one gives way to the other.
#[derive(Clone, Copy, Debug, Eq, PartialEq, Structural)]
pub struct LyricTransition {
    /// How far the change is, in thousandths.
    pub progress_millis: u16,
    pub incoming_index: usize,
    pub outgoing_index: Option<usize>,
}

/// The lyrics of what is being played.
pub struct LyricsState {
    pub loading: bool,
    pub document: Option<LyricsDocument>,
    pub active_line_index: Option<usize>,
    /// The change of lines at the position of playback.
    pub transition: Option<LyricTransition>,
}

/// What kind of thing a result names that cannot be played.
#[derive(Clone, Copy, Debug, Eq, Hash, PartialEq, Structural)]
pub enum SearchMetadataKind {
    Album,
    Artist,
    Playlist,
    Podcast,
}

/// A result that can be played, or one that names something.
pub enum SearchEntryKind {
    Playable(MediaItem),
    Metadata { kind: SearchMetadataKind, provider_id: Option<String>, title: String },
}

/// A result of a search.
pub struct SearchEntry {
    pub stable_id: String,
    pub kind: SearchEntryKind,
}

/// A search and its results.
pub struct SearchState {
    pub query: String,
    pub filter: SearchFilter,
    pub generation: Generation,
    pub stale: bool,
    pub loading: bool,
    pub loading_more: bool,
    pub has_continuation: bool,
    pub error: Option<String>,
    pub items: Vec<SearchEntry>,
    pub selected_id: Option<String>,
}

/// The items that were marked as favorites.
pub struct FavoritesState {
    pub generation: Generation,
    pub loading: bool,
    pub loaded: bool,
    pub error: Option<String>,
    pub entries: Vec<MediaItem>,
    pub selected_id: Option<MediaId>,
}

/// A program or service that the player needs.
pub struct DependencyRow {
    pub component: String,
    pub status: String,
    pub detail: String,
}

/// What the player needs and whether it is there.
pub struct Dependencies {
    pub browsing_available: bool,
    pub playback_available: bool,
    pub checking: bool,
    pub rows: Vec<DependencyRow>,
}

/// What is switched on.
#[derive(Clone, Copy, Debug, Eq, PartialEq, Structural)]
pub struct Switches {
    pub lyrics: bool,
    pub lyrics_external_sync: bool,
    pub animated_artwork: bool,
    pub visualizer: bool,
}

/// How far seeking goes, in seconds.
#[derive(Clone, Copy, Debug, Eq, PartialEq, Structural)]
pub struct SeekSteps {
    pub music: u64,
    pub podcast_backward: u64,
    pub podcast_forward: u64,
}

/// The lines of a view that is laid out elsewhere, and its rows.
pub struct PreparedView {
    pub lines: Vec<Line>,
    pub targets: Vec<RenderedRowTarget>,
}

/// What the player knows and the interface draws.
pub struct AppState {
    pub playback: Playback,
    pub presentation: PlayerPresentation,
    pub queue: Queue,
    pub lyrics: LyricsState,
    pub search: SearchState,
    pub favorites: FavoritesState,
    pub dependencies: Dependencies,
    pub switches: Switches,
    pub seek: SeekSteps,
    pub current_attempt_generation: Option<Generation>,
    /// How far playback is.
    pub progress: ProgressPresentation,
    /// The lines of the view that is shown, where it is laid out elsewhere.
    pub prepared: PreparedView,
}

/// The media of the first entry for `id`.
pub open spec fn media_with_id(items: Seq<QueueItemView>, id: MediaIdView) -> Option<MediaItemView>
    decreases items.len(),
{
    if items.len() == 0 {
        None
    } else {
        match media_with_id(items.drop_last(), id) {
            Some(media) => Some(media),
            None => if items.last().media.id == id {
                Some(items.last().media)
            } else {
                None
            },
        }
    }
}

/// The media that is being played, as far as the queue has it.
pub open spec fn playing_media(state: AppState) -> Option<MediaItemView> {
    match state.playback.current {
        Some(id) => media_with_id(state.queue@.logical, id@),
        None => None,
    }
}

proof fn lemma_media_with_id_prefix(items: Seq<QueueItemView>, id: MediaIdView, count: int)
    requires
        0 <= count <= items.len(),
        media_with_id(items.take(count), id) is Some,
    ensures
        media_with_id(items, id) == media_with_id(items.take(count), id),
    decreases items.len(),
{
    if count == items.len() {
        assert(items.take(count) =~= items);
    } else {
        assert(items.drop_last().take(count) =~= items.take(count));
        lemma_media_with_id_prefix(items.drop_last(), id, count);
    }
}

/// The media that is being played, as far as the queue has it.
pub fn playback_media(state: &AppState) -> (media: Option<&MediaItem>)
    ensures
        match media {
            Some(media) => playing_media(*state) == Some(media@),
            None => playing_media(*state) is None,
        },
{
    let id = match &state.playback.current {
        Some(id) => id,
        None => {
            return None;
        },
    };
    let items = state.queue.items();
    let ghost all = state.queue@.logical;
    let mut index: usize = 0;
    assert(all.take(0) =~= Seq::<QueueItemView>::empty());
    while index < items.len()
        invariant
            item_views(items@) == all,
            all == state.queue@.logical,
            state.playback.current == Some(*id),
            index <= items.len(),
            media_with_id(all.take(index as int), id@) is None,
        decreases items.len() - index,
    {
        let item: &QueueItem = &items[index];
        assert(all[index as int] == item@);
        assert(all.take(index + 1).drop_last() =~= all.take(index as int));
        assert(all.take(index + 1).last() == item@);
        if item.media().id.same(id) {
            proof {
                lemma_media_with_id_prefix(all, id@, index + 1);
            }
            return Some(item.media());
        }
        index = index + 1;
    }
    assert(all.take(index as int) =~= all);
    None
}

} // verus!
