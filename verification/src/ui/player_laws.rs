//! What the player tells and what its controls do.

use vstd::prelude::*;
use vstd::string::*;

use crate::domain::{MediaItemView, MediaKind, PlaybackStatus, RepeatMode};
use crate::text::decimal_digits;
use crate::ui::bars::spectrum_rows;
use crate::ui::cells::{cells, truncated};
use crate::ui::input::SemanticAction;
use crate::ui::input_laws::{bare, does, with_shift};
use crate::ui::interaction::{overlap, with_hit, Hit, HitTarget};
use crate::ui::input::KeyCode;
use crate::ui::layout::{inside, Rect};
use crate::ui::line::{raw_line, LineView};
use crate::ui::lyrics_panel::current_lyrics;
use crate::ui::player::{
    control_hits, control_regions, control_text, control_views, controls_text, details_text,
    duration_text, icon_text, identity_text, length_text, offset_after, player_content,
    player_hits, progress_hits, queue_modes, seconds_back, seconds_forward, status_text,
    tiny_facts, ControlRegion, ControlTier, ControlView, ControlsView,
};
use crate::ui::spectrum::SpectrumPresentationView;
use crate::ui::state::{media_with_id, playing_media, AppState};
use crate::queue::QueueItemView;
use crate::domain::MediaIdView;
use crate::ui::theme::Theme;

verus! {

/// Whether a text names a key in brackets and the key does an action.
pub open spec fn shows_key(text: Seq<char>, key: char, action: SemanticAction) -> bool {
    &&& text.len() >= 3
    &&& text[0] == '['
    &&& text[1] == key
    &&& text.last() == ']'
    &&& does(bare(KeyCode::Char(key)), action)
}

/// The player offers to go back, to seek back, to start or pause, to seek forward and to go
/// on, in this order; the keys that its controls name do what the controls do.
pub proof fn law_controls_name_the_keys_that_do_the_same(state: AppState)
    ensures
        ({
            let controls = control_views(state);
            &&& controls.len() == 5
            &&& controls[0].action == Some(SemanticAction::PreviousTrack)
            &&& controls[1].action == Some(SemanticAction::SeekBackward)
            &&& controls[2].action matches Some(action) ==> action
                == SemanticAction::TogglePlayback && does(bare(KeyCode::Char(' ')), action)
            &&& controls[3].action == Some(SemanticAction::SeekForward)
            &&& controls[4].action == Some(SemanticAction::NextTrack)
            &&& shows_key(controls[0].full, 'p', SemanticAction::PreviousTrack)
            &&& shows_key(controls[0].compact, 'p', SemanticAction::PreviousTrack)
            &&& shows_key(controls[0].tiny, 'p', SemanticAction::PreviousTrack)
            &&& shows_key(controls[4].full, 'n', SemanticAction::NextTrack)
            &&& shows_key(controls[4].compact, 'n', SemanticAction::NextTrack)
            &&& shows_key(controls[4].tiny, 'n', SemanticAction::NextTrack)
            &&& does(with_shift(KeyCode::Left), SemanticAction::SeekBackward)
            &&& does(with_shift(KeyCode::Right), SemanticAction::SeekForward)
            &&& controls[1].tiny == "[←]"@
            &&& controls[3].tiny == "[→]"@
        }),
{
    reveal_strlit("[p Previous]");
    reveal_strlit("[p]");
    reveal_strlit("[n Next]");
    reveal_strlit("[n]");
}

/// The button says what it would do: pause what plays, play what waits, and nothing while
/// something is being loaded or there is nothing to play.
pub proof fn law_the_button_says_what_it_does(state: AppState)
    ensures
        ({
            let button = control_views(state)[2];
            let status = state.playback.status;
            let loading = status == PlaybackStatus::Resolving || status
                == PlaybackStatus::Buffering;
            &&& status == PlaybackStatus::Playing ==> button.full == "[Space Pause]"@
                && button.action == Some(SemanticAction::TogglePlayback)
            &&& loading ==> button.full == "[- Loading…]"@ && button.action is None
            &&& status != PlaybackStatus::Playing && !loading && state.queue@.current is Some
                ==> button.full == "[Space Play]"@ && button.action == Some(
                SemanticAction::TogglePlayback,
            )
            &&& status != PlaybackStatus::Playing && !loading && state.queue@.current is None
                ==> button.full == "[- Play]"@ && button.action is None
        }),
{
}

/// Seeking goes as far as is set for podcasts where one is played, and else as far as is set
/// for music; the controls say how far.
pub proof fn law_seeking_goes_as_far_as_it_says(state: AppState)
    ensures
        ({
            let controls = control_views(state);
            let podcast = playing_media(state) matches Some(media) && media.kind
                == MediaKind::PodcastEpisode;
            let back = if podcast {
                state.seek.podcast_backward
            } else {
                state.seek.music
            };
            let forward = if podcast {
                state.seek.podcast_forward
            } else {
                state.seek.music
            };
            &&& controls[1].full == "[⇧← −"@ + decimal_digits(back as nat) + "s]"@
            &&& controls[3].full == "[⇧→ +"@ + decimal_digits(forward as nat) + "s]"@
            &&& controls[1].compact == controls[1].full
            &&& controls[3].compact == controls[3].full
        }),
{
}

proof fn lemma_media_with_id(items: Seq<QueueItemView>, id: MediaIdView)
    ensures
        media_with_id(items, id) matches Some(media) ==> media.id == id && exists|i: int|
            0 <= i < items.len() && (#[trigger] items[i]).media == media,
        media_with_id(items, id) is None ==> forall|i: int|
            0 <= i < items.len() ==> (#[trigger] items[i]).media.id != id,
    decreases items.len(),
{
    if items.len() > 0 {
        let shorter = items.drop_last();
        lemma_media_with_id(shorter, id);
        assert(forall|i: int| 0 <= i < shorter.len() ==> #[trigger] items[i] == shorter[i]);
        assert(items[items.len() - 1] == items.last());
        if let Some(media) = media_with_id(shorter, id) {
            let i = choose|i: int| 0 <= i < shorter.len() && (#[trigger] shorter[i]).media == media;
            assert(items[i].media == media);
        }
    }
}

/// What the player tells is of the item that is played: the entry of the queue with its id.
pub proof fn law_the_player_tells_of_what_is_played(state: AppState)
    ensures
        state.playback.current is None ==> playing_media(state) is None,
        state.playback.current matches Some(id) ==> {
            &&& playing_media(state) matches Some(media) ==> media.id == id@ && exists|i: int|
                0 <= i < state.queue@.logical.len() && (#[trigger] state.queue@.logical[i]).media
                    == media
            &&& playing_media(state) is None ==> forall|i: int|
                0 <= i < state.queue@.logical.len() ==> (
                #[trigger] state.queue@.logical[i]).media.id != id@
        },
{
    if let Some(id) = state.playback.current {
        lemma_media_with_id(state.queue@.logical, id@);
    }
}

/// The first line of the player tells the title, the first creator and the status of what is
/// played.
pub proof fn law_the_first_line_tells_what_is_played(state: AppState, media: MediaItemView)
    ensures
        playing_media(state) == Some(media) && media.creators.len() > 0 ==> identity_text(state)
            == icon_text(state.playback.status) + "  "@ + media.title + " — "@ + media.creators[0]
            + "  ·  "@ + status_text(state.playback.status),
        playing_media(state) == Some(media) && media.creators.len() == 0 ==> identity_text(state)
            == icon_text(state.playback.status) + "  "@ + media.title + "  ·  "@ + status_text(
            state.playback.status,
        ),
        playing_media(state) is None ==> identity_text(state) == icon_text(state.playback.status)
            + "  "@ + "Nothing playing"@ + "  ·  "@ + status_text(state.playback.status),
{
    assert(identity_text(state) =~= identity_text(state));
    let icon = icon_text(state.playback.status) + "  "@;
    if media.creators.len() > 0 {
        assert(icon + media.title + (" — "@ + media.creators[0]) =~= icon + media.title + " — "@
            + media.creators[0]);
    }
    assert(icon + media.title + Seq::<char>::empty() =~= icon + media.title);
    assert(icon + "Nothing playing"@ + Seq::<char>::empty() =~= icon + "Nothing playing"@);
}

/// A status is told apart by its name, and by a sign where it plays, is paused, has stopped
/// or failed.
pub proof fn law_a_status_has_its_name(status: PlaybackStatus)
    ensures
        status_text(status) == "Playing"@ <==> status == PlaybackStatus::Playing,
        status_text(status) == "Paused"@ <==> status == PlaybackStatus::Paused,
        status_text(status) == "Stopped"@ <==> status == PlaybackStatus::Stopped,
        status_text(status) == "Resolving"@ <==> status == PlaybackStatus::Resolving,
        status_text(status) == "Buffering"@ <==> status == PlaybackStatus::Buffering,
        status_text(status) == "Failed"@ <==> status == PlaybackStatus::Failed,
        icon_text(status) == "❚❚"@ <==> status == PlaybackStatus::Playing,
        icon_text(status) == "▶"@ <==> status == PlaybackStatus::Paused,
        icon_text(status) == "■"@ <==> status == PlaybackStatus::Stopped,
        icon_text(status) == "!"@ <==> status == PlaybackStatus::Failed,
{
    reveal_strlit("Playing");
    reveal_strlit("Paused");
    reveal_strlit("Stopped");
    reveal_strlit("Resolving");
    reveal_strlit("Buffering");
    reveal_strlit("Failed");
    assert("Playing"@[1] == 'l' && "Stopped"@[1] == 't');
    assert("Paused"@[0] == 'P' && "Failed"@[0] == 'F');
    assert("Resolving"@[0] == 'R' && "Buffering"@[0] == 'B');
    reveal_strlit("❚❚");
    reveal_strlit("▶");
    reveal_strlit("■");
    reveal_strlit("!");
    reveal_strlit("…");
    assert("▶"@[0] == '▶' && "■"@[0] == '■' && "!"@[0] == '!' && "…"@[0] == '…');
}

/// The second line of the player begins with how far playback is and how long it takes.
pub proof fn law_the_second_line_begins_with_the_time(state: AppState)
    ensures
        (duration_text(state.playback.position_ms as nat) + " / "@ + length_text(state)
            + "   Target "@ + decimal_digits(state.playback.target_volume as nat)
            + "%   Effective "@ + state.presentation.effective_volume@).is_prefix_of(
            details_text(state, false),
        ),
        (duration_text(state.playback.position_ms as nat) + "/"@ + length_text(state) + " T"@
            + decimal_digits(state.playback.target_volume as nat) + " E"@
            + state.presentation.effective_volume@).is_prefix_of(details_text(state, true)),
        state.playback.duration_ms matches Some(duration) ==> length_text(state) == duration_text(
            duration as nat,
        ),
        state.playback.duration_ms is None ==> length_text(state) == "--:--"@,
{
}

/// The player tells whether the queue is shuffled, what is repeated, and whether radio goes
/// on.
pub proof fn law_the_player_tells_how_the_queue_is_played(state: AppState)
    ensures
        queue_modes(state) == "Shuffle "@ + (if state.queue@.shuffle_seed is Some {
            "on"@
        } else {
            "off"@
        }) + "   Repeat "@ + (match state.queue@.repeat {
            RepeatMode::Off => "Off"@,
            RepeatMode::One => "One"@,
            RepeatMode::All => "All"@,
        }) + "   Radio "@ + (if state.queue@.radio {
            "on"@
        } else {
            "off"@
        }),
        tiny_facts(state)[3].len() == 3,
        tiny_facts(state)[3][0] == 'S' <==> state.queue@.shuffle_seed is Some,
        tiny_facts(state)[3][1] == '-' <==> state.queue@.repeat == RepeatMode::Off,
        tiny_facts(state)[3][1] == '1' <==> state.queue@.repeat == RepeatMode::One,
        tiny_facts(state)[3][1] == 'A' <==> state.queue@.repeat == RepeatMode::All,
        tiny_facts(state)[3][2] == 'E' <==> state.queue@.radio,
        tiny_facts(state)[0] == icon_text(state.playback.status),
{
    reveal_strlit("S");
    reveal_strlit("s");
    reveal_strlit("-");
    reveal_strlit("1");
    reveal_strlit("A");
    reveal_strlit("E");
    reveal_strlit("e");
}

/// The player has the line of what is played first, then that of the time, then the
/// controls, below them the spectrum where there is one, and the lyrics last.
pub proof fn law_the_player_has_its_lines_in_order(
    state: AppState,
    compact: bool,
    width: nat,
    theme: Theme,
    spectrum: Option<SpectrumPresentationView>,
    controls: LineView,
)
    ensures
        ({
            let lines = player_content(state, compact, width, theme, spectrum, controls);
            let rows: nat = if compact {
                1
            } else {
                3
            };
            let sung = current_lyrics(state, rows, width, theme);
            &&& lines.len() >= 3
            &&& lines[0] == raw_line(truncated(identity_text(state), width))
            &&& lines[1] == raw_line(truncated(details_text(state, compact), width))
            &&& lines[2] == controls
            &&& sung.is_suffix_of(lines)
            &&& spectrum is None ==> lines.len() == 3 + sung.len()
            &&& spectrum matches Some(shown) ==> {
                let bars = spectrum_rows(shown, rows, width, theme);
                &&& lines.len() == 3 + bars.len() + sung.len()
                &&& lines.subrange(3, 3 + bars.len() as int) == bars
            }
        }),
{
    let rows: nat = if compact {
        1
    } else {
        3
    };
    let lines = player_content(state, compact, width, theme, spectrum, controls);
    if let Some(shown) = spectrum {
        let bars = spectrum_rows(shown, rows, width, theme);
        assert(lines.subrange(3, 3 + bars.len() as int) =~= bars);
    }
}

/// The columns in front of a control: those of the controls before it, and a space behind
/// each.
pub open spec fn columns_before(controls: Seq<ControlView>, tier: ControlTier, index: int) -> int
    decreases index,
{
    if index <= 0 {
        0
    } else {
        columns_before(controls, tier, index - 1) + cells(control_text(controls[index - 1], tier))
            + 1
    }
}

proof fn lemma_columns_before(
    controls: Seq<ControlView>,
    shorter: Seq<ControlView>,
    tier: ControlTier,
    index: int,
)
    requires
        0 <= index <= shorter.len() <= controls.len(),
        shorter == controls.take(shorter.len() as int),
    ensures
        columns_before(controls, tier, index) == columns_before(shorter, tier, index),
        0 <= columns_before(controls, tier, index),
    decreases index,
{
    if index > 0 {
        lemma_columns_before(controls, shorter, tier, index - 1);
        assert(shorter[index - 1] == controls[index - 1]);
    }
}

proof fn lemma_offset_after(controls: Seq<ControlView>, tier: ControlTier, start: u16)
    requires
        start + columns_before(controls, tier, controls.len() as int) <= u16::MAX,
    ensures
        offset_after(controls, tier, start) == start + columns_before(
            controls,
            tier,
            controls.len() as int,
        ),
    decreases controls.len(),
{
    if controls.len() > 0 {
        let shorter = controls.drop_last();
        assert(shorter =~= controls.take(shorter.len() as int));
        lemma_columns_before(controls, shorter, tier, shorter.len() as int);
        assert(cells(control_text(controls.last(), tier)) >= 0);
        lemma_offset_after(shorter, tier, start);
    }
}

/// Where every control can be used, each can be clicked where it stands, and does what it
/// is for.
pub proof fn law_controls_are_clicked_where_they_stand(
    controls: Seq<ControlView>,
    tier: ControlTier,
    start: u16,
)
    requires
        forall|i: int| 0 <= i < controls.len() ==> (#[trigger] controls[i]).action is Some,
        start + columns_before(controls, tier, controls.len() as int) <= u16::MAX,
    ensures
        control_regions(controls, tier, start).len() == controls.len(),
        forall|i: int|
            0 <= i < controls.len() ==> {
                let region = #[trigger] control_regions(controls, tier, start)[i];
                &&& controls[i].action == Some(region.action)
                &&& region.offset == start + columns_before(controls, tier, i)
                &&& region.width == cells(control_text(controls[i], tier))
            },
    decreases controls.len(),
{
    if controls.len() > 0 {
        let shorter = controls.drop_last();
        let last = controls.len() - 1;
        assert(shorter =~= controls.take(shorter.len() as int));
        assert forall|i: int| 0 <= i < shorter.len() implies (#[trigger] shorter[i]).action is Some by {
            assert(shorter[i] == controls[i]);
        }
        assert forall|i: int| 0 <= i <= shorter.len() implies columns_before(controls, tier, i)
            == columns_before(shorter, tier, i) by {
            lemma_columns_before(controls, shorter, tier, i);
        }
        assert(controls[last].action is Some);
        assert(0 <= cells(control_text(controls[last], tier)) <= u16::MAX);
        lemma_offset_after(shorter, tier, start);
        law_controls_are_clicked_where_they_stand(shorter, tier, start);
        assert forall|i: int| 0 <= i < controls.len() implies {
            let region = #[trigger] control_regions(controls, tier, start)[i];
            &&& controls[i].action == Some(region.action)
            &&& region.offset == start + columns_before(controls, tier, i)
            &&& region.width == cells(control_text(controls[i], tier))
        } by {
            if i < last {
                assert(control_regions(controls, tier, start)[i] == control_regions(
                    shorter,
                    tier,
                    start,
                )[i]);
                assert(shorter[i] == controls[i]);
            }
        }
    }
}

/// A part of the screen can be clicked exactly where it and what is visible meet.
pub proof fn law_what_is_clicked_is_where_both_are(area: Rect, visible: Rect, x: int, y: int)
    requires
        area.x + area.width <= u16::MAX,
        area.y + area.height <= u16::MAX,
        visible.x + visible.width <= u16::MAX,
        visible.y + visible.height <= u16::MAX,
    ensures
        (area.x <= x < area.x + area.width && area.y <= y < area.y + area.height && visible.x <= x
            < visible.x + visible.width && visible.y <= y < visible.y + visible.height) <==> (
        overlap(area, visible) matches Some(part) && part.x <= x < part.x + part.width && part.y
            <= y < part.y + part.height),
{
}

/// A click on the progress bar goes as far into what is played as the cell is into the bar:
/// to the beginning in its first cell and to the end in its last.
pub proof fn law_clicks_on_progress_go_where_they_point(
    visible: Rect,
    row: u16,
    offset: u16,
    width: u16,
    count: nat,
)
    requires
        count <= width,
        visible.x + visible.width <= u16::MAX,
        visible.y + visible.height <= u16::MAX,
        visible.y <= row < visible.y + visible.height,
        offset + width <= visible.width,
    ensures
        ({
            let hits = progress_hits(Seq::empty(), visible, row, offset, width, count);
            &&& hits.len() == count
            &&& forall|cell: int|
                0 <= cell < count ==> {
                    &&& (#[trigger] hits[cell]).area == (Rect {
                        x: (visible.x + offset + cell) as u16,
                        y: row,
                        width: 1,
                        height: 1,
                    })
                    &&& hits[cell].target == (HitTarget::Progress {
                        numerator: cell as u16,
                        denominator: (width - 1) as u16,
                    })
                }
        }),
    decreases count,
{
    if count > 0 {
        law_clicks_on_progress_go_where_they_point(
            visible,
            row,
            offset,
            width,
            (count - 1) as nat,
        );
    }
}

/// A control is clicked in the columns it takes, and does its action.
pub proof fn law_clicks_on_controls_do_their_action(
    visible: Rect,
    row: u16,
    controls: Seq<ControlRegion>,
)
    requires
        visible.x + visible.width <= u16::MAX,
        visible.y + visible.height <= u16::MAX,
        visible.y <= row < visible.y + visible.height,
        forall|i: int|
            0 <= i < controls.len() ==> 0 < (#[trigger] controls[i]).width && controls[i].offset
                + controls[i].width <= visible.width,
    ensures
        ({
            let hits = control_hits(Seq::empty(), visible, row, controls);
            &&& hits.len() == controls.len()
            &&& forall|i: int|
                0 <= i < controls.len() ==> {
                    &&& (#[trigger] hits[i]).area == (Rect {
                        x: (visible.x + controls[i].offset) as u16,
                        y: row,
                        width: controls[i].width,
                        height: 1,
                    })
                    &&& hits[i].target == HitTarget::Semantic(controls[i].action)
                }
        }),
    decreases controls.len(),
{
    if controls.len() > 0 {
        let shorter = controls.drop_last();
        assert forall|i: int| 0 <= i < shorter.len() implies 0 < (#[trigger] shorter[i]).width
            && shorter[i].offset + shorter[i].width <= visible.width by {
            assert(shorter[i] == controls[i]);
        }
        law_clicks_on_controls_do_their_action(visible, row, shorter);
        let last = controls[controls.len() - 1];
        assert(0 < last.width && last.offset + last.width <= visible.width);
    }
}

} // verus!
