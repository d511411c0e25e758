//! The player at the bottom of the screen: what is played, and its controls.

use vstd::prelude::*;
use vstd::string::*;

use crate::domain::{texts, MediaItem, MediaKind, PlaybackStatus, RepeatMode};
use crate::text::{
    append_decimal, append_two_digits, byte_len, decimal, decimal_digits, two_digits,
};
use crate::ui::bars::{
    has_duration, progress_bar, progress_bar_line, spectrum_lines, spectrum_rows,
};
use crate::ui::cells::{
    cell_prefix, cell_width, cells, clip_line, clipped, first_grapheme_width, first_width,
    prefix_in_cells, truncate_cells, truncated,
};
use crate::ui::input::SemanticAction;
use crate::ui::interaction::{with_hit, Hit, HitTarget, InteractionMap};
use crate::ui::layout::{
    capped_sum, floored_difference, greatest, inside, least, limited, panel_inner, Rect,
};
use crate::ui::line::{
    line_of, line_views, raw_line, raw_span, span_views, text_of_line, Line, LineView, Span,
};
use crate::ui::lyrics_panel::{automatic_lyrics_lines, current_lyrics};
use crate::ui::motion::{ProgressPresentation, ProgressView, MAX_PROGRESS_WIDTH};
use crate::ui::spectrum::{SpectrumPresentation, SpectrumPresentationView};
use crate::ui::state::{playback_media, playing_media, AppState, Fade, FadeActivity};
use crate::ui::theme::{theme_for, ColorCapability, Theme};

verus! {

/// The narrowest progress bar that room is kept for.
pub const MIN_PROGRESS_WIDTH: usize = 5;

/// A time as hours, minutes and seconds.
pub open spec fn duration_text(milliseconds: nat) -> Seq<char> {
    let seconds = milliseconds / 1_000;
    let hours = seconds / 3_600;
    let minutes = seconds % 3_600 / 60;
    if hours > 0 {
        decimal_digits(hours) + ":"@ + two_digits(minutes) + ":"@ + two_digits(seconds % 60)
    } else {
        two_digits(minutes) + ":"@ + two_digits(seconds % 60)
    }
}

/// A time as hours, minutes and seconds.
pub fn format_duration(milliseconds: u64) -> (text: String)
    ensures
        text@ == duration_text(milliseconds as nat),
{
    let seconds: u64 = milliseconds / 1_000;
    let hours: u64 = seconds / 3_600;
    let minutes: u64 = seconds % 3_600 / 60;
    let mut text = String::new();
    if hours > 0 {
        append_decimal(&mut text, hours);
        text.append(":");
    }
    append_two_digits(&mut text, minutes);
    text.append(":");
    append_two_digits(&mut text, seconds % 60);
    assert(text@ =~= duration_text(milliseconds as nat));
    text
}

/// A time in as few characters as tell it.
pub open spec fn short_duration_text(milliseconds: nat) -> Seq<char> {
    let seconds = milliseconds / 1_000;
    let minutes = seconds / 60;
    let hours = seconds / 3_600;
    if seconds < 600 {
        decimal_digits(minutes) + ":"@ + two_digits(seconds % 60)
    } else if minutes < 1_000 {
        decimal_digits(minutes) + "m"@
    } else if hours < 1_000 {
        decimal_digits(hours) + "h"@
    } else {
        "999+"@
    }
}

/// A time in as few characters as tell it.
pub fn compact_duration(milliseconds: u64) -> (text: String)
    ensures
        text@ == short_duration_text(milliseconds as nat),
{
    let seconds: u64 = milliseconds / 1_000;
    let minutes: u64 = seconds / 60;
    let hours: u64 = seconds / 3_600;
    if seconds < 600 {
        let mut text = decimal(minutes);
        text.append(":");
        append_two_digits(&mut text, seconds % 60);
        text
    } else if minutes < 1_000 {
        let mut text = decimal(minutes);
        text.append("m");
        text
    } else if hours < 1_000 {
        let mut text = decimal(hours);
        text.append("h");
        text
    } else {
        "999+".to_owned()
    }
}

/// How a status is called.
pub open spec fn status_text(status: PlaybackStatus) -> Seq<char> {
    match status {
        PlaybackStatus::Stopped => "Stopped"@,
        PlaybackStatus::Resolving => "Resolving"@,
        PlaybackStatus::Buffering => "Buffering"@,
        PlaybackStatus::Playing => "Playing"@,
        PlaybackStatus::Paused => "Paused"@,
        PlaybackStatus::Failed => "Failed"@,
    }
}

fn status_label(status: PlaybackStatus) -> (label: &'static str)
    ensures
        label@ == status_text(status),
{
    match status {
        PlaybackStatus::Stopped => "Stopped",
        PlaybackStatus::Resolving => "Resolving",
        PlaybackStatus::Buffering => "Buffering",
        PlaybackStatus::Playing => "Playing",
        PlaybackStatus::Paused => "Paused",
        PlaybackStatus::Failed => "Failed",
    }
}

/// The sign of a status: what the button would do.
pub open spec fn icon_text(status: PlaybackStatus) -> Seq<char> {
    match status {
        PlaybackStatus::Playing => "❚❚"@,
        PlaybackStatus::Paused => "▶"@,
        PlaybackStatus::Resolving => "…"@,
        PlaybackStatus::Buffering => "…"@,
        PlaybackStatus::Stopped => "■"@,
        PlaybackStatus::Failed => "!"@,
    }
}

fn playback_icon(status: PlaybackStatus) -> (icon: &'static str)
    ensures
        icon@ == icon_text(status),
{
    match status {
        PlaybackStatus::Playing => "❚❚",
        PlaybackStatus::Paused => "▶",
        PlaybackStatus::Resolving => "…",
        PlaybackStatus::Buffering => "…",
        PlaybackStatus::Stopped => "■",
        PlaybackStatus::Failed => "!",
    }
}

/// Whether something is on.
pub open spec fn on_off_text(value: bool) -> Seq<char> {
    if value {
        "on"@
    } else {
        "off"@
    }
}

/// Whether something is on.
pub fn on_off(value: bool) -> (text: &'static str)
    ensures
        text@ == on_off_text(value),
{
    if value {
        "on"
    } else {
        "off"
    }
}

/// How a repeat mode is called.
pub open spec fn repeat_text(repeat: RepeatMode) -> Seq<char> {
    match repeat {
        RepeatMode::Off => "Off"@,
        RepeatMode::One => "One"@,
        RepeatMode::All => "All"@,
    }
}

fn repeat_label(repeat: RepeatMode) -> (label: &'static str)
    ensures
        label@ == repeat_text(repeat),
{
    match repeat {
        RepeatMode::Off => "Off",
        RepeatMode::One => "One",
        RepeatMode::All => "All",
    }
}

/// Whether an episode of a podcast is played.
pub open spec fn plays_podcast(state: AppState) -> bool {
    playing_media(state) matches Some(media) && media.kind == MediaKind::PodcastEpisode
}

fn is_podcast(state: &AppState) -> (podcast: bool)
    ensures
        podcast == plays_podcast(*state),
{
    match playback_media(state) {
        Some(media) => media.kind == MediaKind::PodcastEpisode,
        None => false,
    }
}

/// A control of the player, in three lengths.
pub struct PlayerControlLabel {
    pub action: Option<SemanticAction>,
    pub full: String,
    pub compact: String,
    pub tiny: String,
}

/// What a [`PlayerControlLabel`] says.
#[verifier::ext_equal]
pub struct ControlView {
    pub action: Option<SemanticAction>,
    pub full: Seq<char>,
    pub compact: Seq<char>,
    pub tiny: Seq<char>,
}

impl View for PlayerControlLabel {
    type V = ControlView;

    open spec fn view(&self) -> ControlView {
        ControlView {
            action: self.action,
            full: self.full@,
            compact: self.compact@,
            tiny: self.tiny@,
        }
    }
}

/// What the controls of a list say.
pub open spec fn label_views(labels: Seq<PlayerControlLabel>) -> Seq<ControlView> {
    labels.map_values(|label: PlayerControlLabel| label@)
}

/// The control that starts and pauses playback. It does something only where
/// there is something to play.
pub open spec fn playback_control(state: AppState) -> ControlView {
    match state.playback.status {
        PlaybackStatus::Playing => ControlView {
            action: Some(SemanticAction::TogglePlayback),
            full: "[Space Pause]"@,
            compact: "[Spc Pause]"@,
            tiny: "[Spc]"@,
        },
        PlaybackStatus::Resolving => ControlView {
            action: None,
            full: "[- Loading…]"@,
            compact: "[- Load]"@,
            tiny: "[-]"@,
        },
        PlaybackStatus::Buffering => ControlView {
            action: None,
            full: "[- Loading…]"@,
            compact: "[- Load]"@,
            tiny: "[-]"@,
        },
        _ => if state.queue@.current is Some {
            ControlView {
                action: Some(SemanticAction::TogglePlayback),
                full: "[Space Play]"@,
                compact: "[Spc Play]"@,
                tiny: "[Spc]"@,
            }
        } else {
            ControlView { action: None, full: "[- Play]"@, compact: "[- Play]"@, tiny: "[-]"@ }
        },
    }
}

/// How far seeking back goes.
pub open spec fn seconds_back(state: AppState) -> u64 {
    if plays_podcast(state) {
        state.seek.podcast_backward
    } else {
        state.seek.music
    }
}

/// How far seeking forward goes.
pub open spec fn seconds_forward(state: AppState) -> u64 {
    if plays_podcast(state) {
        state.seek.podcast_forward
    } else {
        state.seek.music
    }
}

/// The controls of the player.
pub open spec fn control_views(state: AppState) -> Seq<ControlView> {
    let back = "[⇧← −"@ + decimal_digits(seconds_back(state) as nat) + "s]"@;
    let forward = "[⇧→ +"@ + decimal_digits(seconds_forward(state) as nat) + "s]"@;
    seq![
        ControlView {
            action: Some(SemanticAction::PreviousTrack),
            full: "[p Previous]"@,
            compact: "[p]"@,
            tiny: "[p]"@,
        },
        ControlView {
            action: Some(SemanticAction::SeekBackward),
            full: back,
            compact: back,
            tiny: "[←]"@,
        },
        playback_control(state),
        ControlView {
            action: Some(SemanticAction::SeekForward),
            full: forward,
            compact: forward,
            tiny: "[→]"@,
        },
        ControlView {
            action: Some(SemanticAction::NextTrack),
            full: "[n Next]"@,
            compact: "[n]"@,
            tiny: "[n]"@,
        },
    ]
}

fn control(
    action: Option<SemanticAction>,
    full: &str,
    compact: &str,
    tiny: &str,
) -> (label: PlayerControlLabel)
    ensures
        label@ == (ControlView { action, full: full@, compact: compact@, tiny: tiny@ }),
{
    PlayerControlLabel {
        action,
        full: full.to_owned(),
        compact: compact.to_owned(),
        tiny: tiny.to_owned(),
    }
}

fn playback_label(state: &AppState) -> (label: PlayerControlLabel)
    requires
        state.queue@.wf(),
    ensures
        label@ == playback_control(*state),
{
    match state.playback.status {
        PlaybackStatus::Playing => control(
            Some(SemanticAction::TogglePlayback),
            "[Space Pause]",
            "[Spc Pause]",
            "[Spc]",
        ),
        PlaybackStatus::Resolving => control(None, "[- Loading…]", "[- Load]", "[-]"),
        PlaybackStatus::Buffering => control(None, "[- Loading…]", "[- Load]", "[-]"),
        _ => {
            if state.queue.current().is_some() {
                control(
                    Some(SemanticAction::TogglePlayback),
                    "[Space Play]",
                    "[Spc Play]",
                    "[Spc]",
                )
            } else {
                control(None, "[- Play]", "[- Play]", "[-]")
            }
        },
    }
}

/// The controls of the player.
pub fn player_control_labels(state: &AppState) -> (labels: Vec<PlayerControlLabel>)
    requires
        state.queue@.wf(),
    ensures
        label_views(labels@) == control_views(*state),
{
    let podcast = is_podcast(state);
    let back_seconds: u64 = if podcast {
        state.seek.podcast_backward
    } else {
        state.seek.music
    };
    let forward_seconds: u64 = if podcast {
        state.seek.podcast_forward
    } else {
        state.seek.music
    };
    let mut back = "[⇧← −".to_owned();
    append_decimal(&mut back, back_seconds);
    back.append("s]");
    let mut forward = "[⇧→ +".to_owned();
    append_decimal(&mut forward, forward_seconds);
    forward.append("s]");
    let labels: Vec<PlayerControlLabel> = vec![
        control(Some(SemanticAction::PreviousTrack), "[p Previous]", "[p]", "[p]"),
        control(Some(SemanticAction::SeekBackward), back.as_str(), back.as_str(), "[←]"),
        playback_label(state),
        control(Some(SemanticAction::SeekForward), forward.as_str(), forward.as_str(), "[→]"),
        control(Some(SemanticAction::NextTrack), "[n Next]", "[n]", "[n]"),
    ];
    assert(label_views(labels@) =~= control_views(*state));
    labels
}

/// How long the controls are drawn.
#[derive(Clone, Copy, Debug, Eq, PartialEq, Structural)]
pub enum ControlTier {
    Full,
    Compact,
    Tiny,
}

/// A control in one length.
pub open spec fn control_text(label: ControlView, tier: ControlTier) -> Seq<char> {
    match tier {
        ControlTier::Full => label.full,
        ControlTier::Compact => label.compact,
        ControlTier::Tiny => label.tiny,
    }
}

/// Controls in one length, with a space between two.
pub open spec fn controls_text(labels: Seq<ControlView>, tier: ControlTier) -> Seq<char>
    decreases labels.len(),
{
    if labels.len() == 0 {
        Seq::empty()
    } else if labels.len() == 1 {
        control_text(labels[0], tier)
    } else {
        controls_text(labels.drop_last(), tier) + " "@ + control_text(labels.last(), tier)
    }
}

fn text_of_control(label: &PlayerControlLabel, tier: ControlTier) -> (text: &str)
    ensures
        text@ == control_text(label@, tier),
{
    match tier {
        ControlTier::Full => label.full.as_str(),
        ControlTier::Compact => label.compact.as_str(),
        ControlTier::Tiny => label.tiny.as_str(),
    }
}

fn join_controls(labels: &Vec<PlayerControlLabel>, tier: ControlTier) -> (text: String)
    ensures
        text@ == controls_text(label_views(labels@), tier),
{
    let ghost all = label_views(labels@);
    let mut text = String::new();
    let mut index: usize = 0;
    proof {
        assert(all.take(0) =~= Seq::<ControlView>::empty());
        assert(text@ =~= Seq::<char>::empty());
    }
    while index < labels.len()
        invariant
            all == label_views(labels@),
            index <= labels.len(),
            text@ == controls_text(all.take(index as int), tier),
        decreases labels.len() - index,
    {
        assert(all.take(index + 1).drop_last() =~= all.take(index as int));
        assert(all.take(index + 1).last() == labels@[index as int]@);
        let ghost before = text@;
        if index > 0 {
            text.append(" ");
        }
        text.append(text_of_control(&labels[index], tier));
        index = index + 1;
        assert(text@ =~= controls_text(all.take(index as int), tier));
    }
    assert(all.take(index as int) =~= all);
    text
}

/// A control that can be clicked: where it starts, how wide it is and what it
/// does.
#[derive(Clone, Copy, Debug, Eq, PartialEq, Structural)]
pub struct ControlRegion {
    pub offset: u16,
    pub width: u16,
    pub action: SemanticAction,
}

/// Where the control after these starts.
pub open spec fn offset_after(labels: Seq<ControlView>, tier: ControlTier, start: u16) -> u16
    decreases labels.len(),
{
    if labels.len() == 0 {
        start
    } else {
        capped_sum(
            capped_sum(
                offset_after(labels.drop_last(), tier, start) as int,
                cells(control_text(labels.last(), tier)),
            ) as int,
            1,
        )
    }
}

/// The controls that can be clicked, the first of which starts at `start`.
pub open spec fn control_regions(labels: Seq<ControlView>, tier: ControlTier, start: u16) -> Seq<
    ControlRegion,
>
    decreases labels.len(),
{
    if labels.len() == 0 {
        Seq::empty()
    } else {
        let before = control_regions(labels.drop_last(), tier, start);
        match labels.last().action {
            Some(action) => before.push(
                ControlRegion {
                    offset: offset_after(labels.drop_last(), tier, start),
                    width: cells(control_text(labels.last(), tier)) as u16,
                    action,
                },
            ),
            None => before,
        }
    }
}

fn regions_of_controls(
    labels: &Vec<PlayerControlLabel>,
    tier: ControlTier,
    start: u16,
) -> (regions: Vec<ControlRegion>)
    ensures
        regions@ == control_regions(label_views(labels@), tier, start),
{
    let ghost all = label_views(labels@);
    let mut regions: Vec<ControlRegion> = Vec::new();
    let mut offset: u16 = start;
    let mut index: usize = 0;
    assert(all.take(0) =~= Seq::<ControlView>::empty());
    while index < labels.len()
        invariant
            all == label_views(labels@),
            index <= labels.len(),
            offset == offset_after(all.take(index as int), tier, start),
            regions@ == control_regions(all.take(index as int), tier, start),
        decreases labels.len() - index,
    {
        assert(all.take(index + 1).drop_last() =~= all.take(index as int));
        assert(all.take(index + 1).last() == labels@[index as int]@);
        let width: u16 = cell_width(text_of_control(&labels[index], tier));
        match labels[index].action {
            Some(action) => {
                regions.push(ControlRegion { offset, width, action });
            },
            None => {},
        }
        offset = offset.saturating_add(width).saturating_add(1);
        index = index + 1;
    }
    assert(all.take(index as int) =~= all);
    regions
}

/// The line of controls, and what in it can be clicked.
pub struct PlayerControlsLayout {
    pub line: Line,
    pub controls: Vec<ControlRegion>,
    /// Where the progress bar starts and how wide it is, if it can be clicked.
    pub progress: Option<(u16, u16)>,
}

/// What a [`PlayerControlsLayout`] says.
#[verifier::ext_equal]
pub struct ControlsView {
    pub line: LineView,
    pub controls: Seq<ControlRegion>,
    pub progress: Option<(u16, u16)>,
}

impl View for PlayerControlsLayout {
    type V = ControlsView;

    open spec fn view(&self) -> ControlsView {
        ControlsView {
            line: self.line@,
            controls: self.controls@,
            progress: self.progress,
        }
    }
}

/// The columns of what must follow the progress bar.
pub open spec fn suffix_width(required: Seq<char>) -> int {
    if required.len() == 0 {
        0
    } else {
        3 + cells(required)
    }
}

/// The longest controls that leave room for the progress bar and what follows it.
pub open spec fn control_tier(state: AppState, width: int, required: Seq<char>) -> ControlTier {
    let reserved = 1 + MIN_PROGRESS_WIDTH + suffix_width(required);
    let labels = control_views(state);
    if cells(controls_text(labels, ControlTier::Full)) + reserved <= width {
        ControlTier::Full
    } else if cells(controls_text(labels, ControlTier::Compact)) + reserved <= width {
        ControlTier::Compact
    } else {
        ControlTier::Tiny
    }
}

/// The width of the progress bar.
pub open spec fn progress_width(state: AppState, width: int, required: Seq<char>) -> int {
    let controls = controls_text(control_views(state), control_tier(state, width, required));
    least(
        floored_difference(width, cells(controls) + 1 + suffix_width(required)),
        MAX_PROGRESS_WIDTH as int,
    )
}

/// The line of controls.
pub open spec fn controls_layout(
    state: AppState,
    width: nat,
    required: Seq<char>,
    optional: Seq<char>,
    theme: Theme,
    progress: ProgressView,
) -> ControlsView {
    let columns = width as int;
    let labels = control_views(state);
    let tier = control_tier(state, columns, required);
    let controls = controls_text(labels, tier);
    let bar = progress_bar(state, progress_width(state, columns, required), progress, theme);
    let bar_width = cells(text_of_line(bar));
    let used = cells(controls) + 1 + bar_width + suffix_width(required);
    let left = floored_difference(columns, used);
    ControlsView {
        line: clipped(
            joined_controls(
                controls,
                bar,
                required,
                if left >= 8 {
                    truncated(optional, left as nat)
                } else {
                    Seq::empty()
                },
            ),
            width,
        ),
        controls: control_regions(labels, tier, 0),
        progress: if has_duration(state) && bar_width >= 2 {
            Some((capped_sum(cells(controls), 1), bar_width as u16))
        } else {
            None
        },
    }
}

proof fn lemma_cells(text: Seq<char>)
    ensures
        0 <= cells(text) <= u16::MAX,
{
}

fn width_of_suffix(required: &str) -> (width: usize)
    ensures
        width == suffix_width(required@),
{
    proof {
        crate::text::lemma_utf8_len_bounds(required@);
    }
    if byte_len(required) > 0 {
        3 + cell_width(required) as usize
    } else {
        0
    }
}

fn fitting_tier(
    state: &AppState,
    labels: &Vec<PlayerControlLabel>,
    available_width: usize,
    required: &str,
) -> (tier: ControlTier)
    requires
        label_views(labels@) == control_views(*state),
    ensures
        tier == control_tier(*state, available_width as int, required@),
{
    let reserved: usize = 1 + MIN_PROGRESS_WIDTH + width_of_suffix(required);
    let full = join_controls(labels, ControlTier::Full);
    let compact = join_controls(labels, ControlTier::Compact);
    if cell_width(full.as_str()) as usize + reserved <= available_width {
        ControlTier::Full
    } else if cell_width(compact.as_str()) as usize + reserved <= available_width {
        ControlTier::Compact
    } else {
        ControlTier::Tiny
    }
}

/// The controls, the progress bar and what follows it, as one line.
pub open spec fn joined_controls(
    controls: Seq<char>,
    bar: LineView,
    required: Seq<char>,
    optional: Seq<char>,
) -> LineView {
    line_of(
        seq![raw_span(controls + " "@)] + bar.spans + seq![
            raw_span(
                if required.len() == 0 {
                    Seq::empty()
                } else {
                    "   "@ + required
                },
            ),
            raw_span(optional),
        ],
    )
}

fn join_line(controls: &str, bar: Line, required: &str, optional: String) -> (line: Line)
    ensures
        line@ == joined_controls(controls@, bar@, required@, optional@),
{
    proof {
        crate::text::lemma_utf8_len_bounds(required@);
    }
    let mut suffix = String::new();
    if byte_len(required) > 0 {
        suffix.append("   ");
        suffix.append(required);
    }
    assert(suffix@ =~= if required@.len() == 0 {
        Seq::<char>::empty()
    } else {
        "   "@ + required@
    });
    let mut first = controls.to_owned();
    first.append(" ");
    let ghost expected = joined_controls(controls@, bar@, required@, optional@);
    let mut spans: Vec<Span> = vec![Span::raw(first)];
    let mut bar_parts = bar.spans;
    spans.append(&mut bar_parts);
    spans.push(Span::raw(suffix));
    spans.push(Span::raw(optional));
    assert(span_views(spans@) =~= expected.spans);
    Line::from_spans(spans)
}

/// The line of controls.
pub fn player_controls_layout(
    state: &AppState,
    available_width: usize,
    required_telemetry: &str,
    optional_telemetry: &str,
    theme: &Theme,
    progress: &ProgressPresentation,
) -> (layout: PlayerControlsLayout)
    requires
        state.queue@.wf(),
    ensures
        layout@ == controls_layout(
            *state,
            available_width as nat,
            required_telemetry@,
            optional_telemetry@,
            *theme,
            progress@,
        ),
{
    let labels = player_control_labels(state);
    let suffix: usize = width_of_suffix(required_telemetry);
    let tier = fitting_tier(state, &labels, available_width, required_telemetry);
    let controls = join_controls(&labels, tier);
    let controls_width: u16 = cell_width(controls.as_str());
    let room: usize = available_width.saturating_sub(controls_width as usize + 1 + suffix);
    let bar_room: usize = if room < MAX_PROGRESS_WIDTH {
        room
    } else {
        MAX_PROGRESS_WIDTH
    };
    let bar = progress_bar_line(state, bar_room, progress, theme);
    let bar_width: u16 = cell_width(bar.text().as_str());
    let used: usize = controls_width as usize + 1 + bar_width as usize + suffix;
    let left: usize = available_width.saturating_sub(used);
    let optional = if left >= 8 {
        truncate_cells(optional_telemetry, left)
    } else {
        String::new()
    };
    if left < 8 {
        assert(optional@ =~= Seq::<char>::empty());
    }
    let line = join_line(controls.as_str(), bar, required_telemetry, optional);
    let known = match state.playback.duration_ms {
        Some(duration) => duration > 0,
        None => false,
    };
    PlayerControlsLayout {
        line: clip_line(&line, available_width),
        controls: regions_of_controls(&labels, tier, 0),
        progress: if known && bar_width >= 2 {
            Some((controls_width.saturating_add(1), bar_width))
        } else {
            None
        },
    }
}

/// The text, or a question mark where it is not known.
pub open spec fn known_text(text: Option<String>) -> Seq<char> {
    match text {
        Some(text) => text@,
        None => "?"@,
    }
}

/// What is known of the sound, after `label`.
pub open spec fn quality_after(state: AppState, label: Seq<char>) -> Seq<char> {
    let quality = state.presentation.quality;
    if quality.known {
        label + known_text(quality.format_id) + "/"@ + known_text(quality.codec)
    } else {
        Seq::empty()
    }
}

fn known(text: &Option<String>) -> (known: &str)
    ensures
        known@ == known_text(*text),
{
    match text {
        Some(text) => text.as_str(),
        None => "?",
    }
}

fn quality_text(state: &AppState, label: &str) -> (text: String)
    ensures
        text@ == quality_after(*state, label@),
{
    let quality = &state.presentation.quality;
    let mut text = String::new();
    if quality.known {
        text.append(label);
        text.append(known(&quality.format_id));
        text.append("/");
        text.append(known(&quality.codec));
    }
    assert(text@ =~= quality_after(*state, label@));
    text
}

/// How the queue is played.
pub open spec fn queue_modes(state: AppState) -> Seq<char> {
    "Shuffle "@ + on_off_text(state.queue@.shuffle_seed is Some) + "   Repeat "@ + repeat_text(
        state.queue@.repeat,
    ) + "   Radio "@ + on_off_text(state.queue@.radio)
}

/// The line of controls of a wide or a compact player.
pub open spec fn controls_for_mode(
    state: AppState,
    compact: bool,
    width: nat,
    theme: Theme,
    progress: ProgressView,
) -> ControlsView {
    controls_layout(
        state,
        width,
        if compact {
            Seq::empty()
        } else {
            queue_modes(state)
        },
        if compact {
            Seq::empty()
        } else {
            quality_after(state, "   Quality "@)
        },
        theme,
        progress,
    )
}

/// The line of controls of a wide or a compact player.
pub fn player_controls_layout_for_mode(
    state: &AppState,
    compact: bool,
    available_width: usize,
    theme: &Theme,
    progress: &ProgressPresentation,
) -> (layout: PlayerControlsLayout)
    requires
        state.queue@.wf(),
    ensures
        layout@ == controls_for_mode(
            *state,
            compact,
            available_width as nat,
            *theme,
            progress@,
        ),
{
    let mut required = String::new();
    let mut optional = String::new();
    proof {
        assert(required@ =~= Seq::<char>::empty());
        assert(optional@ =~= Seq::<char>::empty());
    }
    if !compact {
        required.append("Shuffle ");
        required.append(on_off(state.queue.is_shuffled()));
        required.append("   Repeat ");
        required.append(repeat_label(state.queue.repeat()));
        required.append("   Radio ");
        required.append(on_off(state.queue.radio_enabled()));
        assert(required@ =~= queue_modes(*state));
        optional = quality_text(state, "   Quality ");
    }
    player_controls_layout(
        state,
        available_width,
        required.as_str(),
        optional.as_str(),
        theme,
        progress,
    )
}

/// The places of controls that can be clicked, after those that could already.
pub open spec fn control_hits(
    hits: Seq<Hit>,
    visible: Rect,
    row: u16,
    controls: Seq<ControlRegion>,
) -> Seq<Hit>
    decreases controls.len(),
{
    if controls.len() == 0 {
        hits
    } else {
        with_hit(
            control_hits(hits, visible, row, controls.drop_last()),
            limited(
                capped_sum(visible.x as int, controls.last().offset as int),
                row,
                controls.last().width,
                1,
            ),
            visible,
            HitTarget::Semantic(controls.last().action),
        )
    }
}

/// The places of the first `count` cells of a progress bar that can be clicked,
/// after those that could already. A click goes as far into what is played as the
/// cell is into the bar.
pub open spec fn progress_hits(
    hits: Seq<Hit>,
    visible: Rect,
    row: u16,
    offset: u16,
    width: u16,
    count: nat,
) -> Seq<Hit>
    decreases count,
{
    if count == 0 {
        hits
    } else {
        with_hit(
            progress_hits(hits, visible, row, offset, width, (count - 1) as nat),
            limited(
                capped_sum(capped_sum(visible.x as int, offset as int) as int, count - 1),
                row,
                1,
                1,
            ),
            visible,
            HitTarget::Progress {
                numerator: (count - 1) as u16,
                denominator: floored_difference(width as int, 1) as u16,
            },
        )
    }
}

/// What can be clicked in the player, after what could already.
pub open spec fn player_hits(hits: Seq<Hit>, area: Rect, layout: ControlsView) -> Seq<Hit> {
    let visible = inside(area);
    let row = capped_sum(visible.y as int, 2);
    let with_controls = control_hits(hits, visible, row, layout.controls);
    match layout.progress {
        Some((offset, width)) => if width >= 2 {
            progress_hits(with_controls, visible, row, offset, width, width as nat)
        } else {
            with_controls
        },
        None => with_controls,
    }
}

/// Makes controls on a row clickable.
pub fn register_controls(
    interactions: &mut InteractionMap,
    visible: Rect,
    row: u16,
    controls: &Vec<ControlRegion>,
)
    ensures
        final(interactions)@ == control_hits(old(interactions)@, visible, row, controls@),
{
    let ghost first = interactions@;
    let mut index: usize = 0;
    assert(controls@.take(0) =~= Seq::<ControlRegion>::empty());
    while index < controls.len()
        invariant
            index <= controls.len(),
            interactions@ == control_hits(first, visible, row, controls@.take(index as int)),
        decreases controls.len() - index,
    {
        let control = controls[index];
        assert(controls@.take(index + 1).drop_last() =~= controls@.take(index as int));
        interactions.push_clipped(
            Rect::new(visible.x.saturating_add(control.offset), row, control.width, 1),
            visible,
            HitTarget::Semantic(control.action),
        );
        index = index + 1;
    }
    assert(controls@.take(index as int) =~= controls@);
}

/// Makes the player clickable.
pub fn register_player_interactions(
    interactions: &mut InteractionMap,
    area: Rect,
    layout: &PlayerControlsLayout,
)
    ensures
        final(interactions)@ == player_hits(old(interactions)@, area, layout@),
{
    let visible = panel_inner(area);
    let row: u16 = visible.y.saturating_add(2);
    register_controls(interactions, visible, row, &layout.controls);
    match layout.progress {
        Some((offset, width)) => {
            if width >= 2 {
                let ghost first = interactions@;
                let mut numerator: u16 = 0;
                while numerator < width
                    invariant
                        numerator <= width,
                        width >= 2,
                        interactions@ == progress_hits(
                            first,
                            visible,
                            row,
                            offset,
                            width,
                            numerator as nat,
                        ),
                    decreases width - numerator,
                {
                    interactions.push_clipped(
                        Rect::new(
                            visible.x.saturating_add(offset).saturating_add(numerator),
                            row,
                            1,
                            1,
                        ),
                        visible,
                        HitTarget::Progress { numerator, denominator: width - 1 },
                    );
                    numerator = numerator + 1;
                }
            }
        },
        None => {},
    }
}

/// The title of what is played.
pub open spec fn playing_title(state: AppState) -> Seq<char> {
    match playing_media(state) {
        Some(media) => media.title,
        None => "Nothing playing"@,
    }
}

/// The first creator of what is played.
pub open spec fn playing_creator(state: AppState) -> Option<Seq<char>> {
    match playing_media(state) {
        Some(media) => if media.creators.len() > 0 {
            Some(media.creators[0])
        } else {
            None
        },
        None => None,
    }
}

/// The length of what is played.
pub open spec fn length_text(state: AppState) -> Seq<char> {
    match state.playback.duration_ms {
        Some(duration) => duration_text(duration as nat),
        None => "--:--"@,
    }
}

/// A change of volume, after `label`.
pub open spec fn fade_after(state: AppState, label: Seq<char>) -> Seq<char> {
    match state.presentation.fade {
        Some(fade) => label + fade.label@,
        None => Seq::empty(),
    }
}

/// The speed, after `label`; for podcasts only.
pub open spec fn speed_after(state: AppState, label: Seq<char>) -> Seq<char> {
    if plays_podcast(state) {
        label + state.playback.speed_in_hundredths@ + "×"@
    } else {
        Seq::empty()
    }
}

/// The second line of the player.
pub open spec fn details_text(state: AppState, compact: bool) -> Seq<char> {
    let position = duration_text(state.playback.position_ms as nat);
    let volume = decimal_digits(state.playback.target_volume as nat);
    if compact {
        position + "/"@ + length_text(state) + " T"@ + volume + " E"@
            + state.presentation.effective_volume@ + fade_after(state, " F:"@) + speed_after(
            state,
            " Sp:"@,
        ) + " S:"@ + on_off_text(state.queue@.shuffle_seed is Some) + " R:"@ + repeat_text(
            state.queue@.repeat,
        ) + " Ra:"@ + on_off_text(state.queue@.radio) + quality_after(state, " Q:"@)
    } else {
        position + " / "@ + length_text(state) + "   Target "@ + volume + "%   Effective "@
            + state.presentation.effective_volume@ + "%"@ + fade_after(state, "   Fade "@)
            + speed_after(state, "   Speed "@)
    }
}

/// The first line of the player.
pub open spec fn identity_text(state: AppState) -> Seq<char> {
    icon_text(state.playback.status) + "  "@ + playing_title(state) + (match playing_creator(
        state,
    ) {
        Some(creator) => " — "@ + creator,
        None => Seq::empty(),
    }) + "  ·  "@ + status_text(state.playback.status)
}

/// The lines of the player.
pub open spec fn player_content(
    state: AppState,
    compact: bool,
    width: nat,
    theme: Theme,
    spectrum: Option<SpectrumPresentationView>,
    controls: LineView,
) -> Seq<LineView> {
    let rows: nat = if compact {
        1
    } else {
        3
    };
    seq![
        raw_line(truncated(identity_text(state), width)),
        raw_line(truncated(details_text(state, compact), width)),
        controls,
    ] + (match spectrum {
        Some(spectrum) => spectrum_rows(spectrum, rows, width, theme),
        None => Seq::empty(),
    }) + current_lyrics(state, rows, width, theme)
}

fn title_of(media: Option<&MediaItem>) -> (title: &str)
    ensures
        title@ == match media {
            Some(media) => media@.title,
            None => "Nothing playing"@,
        },
{
    match media {
        Some(media) => media.title.as_str(),
        None => "Nothing playing",
    }
}

fn creator_of(media: Option<&MediaItem>) -> (creator: Option<&str>)
    ensures
        match creator {
            Some(creator) => media is Some && media->0@.creators.len() > 0 && creator@
                == media->0@.creators[0],
            None => media is None || media->0@.creators.len() == 0,
        },
{
    match media {
        Some(media) => if media.creators.len() > 0 {
            assert(media@.creators[0] == media.creators@[0]@);
            Some(media.creators[0].as_str())
        } else {
            None
        },
        None => None,
    }
}

fn append_fade(text: &mut String, state: &AppState, label: &str)
    ensures
        final(text)@ == old(text)@ + fade_after(*state, label@),
{
    match &state.presentation.fade {
        Some(fade) => {
            text.append(label);
            text.append(fade.label.as_str());
            assert(text@ =~= old(text)@ + (label@ + fade.label@));
        },
        None => {
            assert(text@ =~= old(text)@ + Seq::<char>::empty());
        },
    }
}

fn append_speed(text: &mut String, state: &AppState, podcast: bool, label: &str)
    requires
        podcast == plays_podcast(*state),
    ensures
        final(text)@ == old(text)@ + speed_after(*state, label@),
{
    if podcast {
        text.append(label);
        text.append(state.playback.speed_in_hundredths.as_str());
        text.append("×");
    }
    assert(text@ =~= old(text)@ + speed_after(*state, label@));
}

fn details(state: &AppState, compact: bool) -> (text: String)
    ensures
        text@ == details_text(*state, compact),
{
    let podcast = is_podcast(state);
    let length = match state.playback.duration_ms {
        Some(duration) => format_duration(duration),
        None => "--:--".to_owned(),
    };
    assert(length@ == length_text(*state));
    let mut text = format_duration(state.playback.position_ms);
    if compact {
        text.append("/");
        text.append(length.as_str());
        text.append(" T");
        append_decimal(&mut text, state.playback.target_volume as u64);
        text.append(" E");
        text.append(state.presentation.effective_volume.as_str());
        append_fade(&mut text, state, " F:");
        append_speed(&mut text, state, podcast, " Sp:");
        text.append(" S:");
        text.append(on_off(state.queue.is_shuffled()));
        text.append(" R:");
        text.append(repeat_label(state.queue.repeat()));
        text.append(" Ra:");
        text.append(on_off(state.queue.radio_enabled()));
        text.append(quality_text(state, " Q:").as_str());
    } else {
        text.append(" / ");
        text.append(length.as_str());
        text.append("   Target ");
        append_decimal(&mut text, state.playback.target_volume as u64);
        text.append("%   Effective ");
        text.append(state.presentation.effective_volume.as_str());
        text.append("%");
        append_fade(&mut text, state, "   Fade ");
        append_speed(&mut text, state, podcast, "   Speed ");
    }
    assert(text@ =~= details_text(*state, compact));
    text
}

fn identity(state: &AppState) -> (text: String)
    ensures
        text@ == identity_text(*state),
{
    let media = playback_media(state);
    let mut text = playback_icon(state.playback.status).to_owned();
    text.append("  ");
    text.append(title_of(media));
    match creator_of(media) {
        Some(creator) => {
            text.append(" — ");
            text.append(creator);
        },
        None => {},
    }
    text.append("  ·  ");
    text.append(status_label(state.playback.status));
    assert(text@ =~= identity_text(*state));
    text
}

/// What an optional presentation says.
pub open spec fn optional_spectrum(spectrum: Option<&SpectrumPresentation>) -> Option<
    SpectrumPresentationView,
> {
    match spectrum {
        Some(spectrum) => Some(spectrum@),
        None => None,
    }
}

/// The lines of the player.
pub fn player_lines(
    state: &AppState,
    compact: bool,
    available_width: usize,
    theme: &Theme,
    spectrum: Option<&SpectrumPresentation>,
    controls_line: Line,
) -> (lines: Vec<Line>)
    ensures
        line_views(lines@) == player_content(
            *state,
            compact,
            available_width as nat,
            *theme,
            optional_spectrum(spectrum),
            controls_line@,
        ),
{
    let rows: usize = if compact {
        1
    } else {
        3
    };
    let ghost head = seq![
        raw_line(truncated(identity_text(*state), available_width as nat)),
        raw_line(truncated(details_text(*state, compact), available_width as nat)),
        controls_line@,
    ];
    let mut lines: Vec<Line> = vec![
        Line::from_text(truncate_cells(identity(state).as_str(), available_width)),
        Line::from_text(truncate_cells(details(state, compact).as_str(), available_width)),
        controls_line,
    ];
    assert(line_views(lines@) =~= head);
    let ghost mut bars = Seq::<LineView>::empty();
    match spectrum {
        Some(spectrum) => {
            let mut more = spectrum_lines(spectrum, rows, available_width, theme);
            proof {
                bars = line_views(more@);
            }
            lines.append(&mut more);
        },
        None => {},
    }
    assert(line_views(lines@) =~= head + bars);
    let mut lyrics = automatic_lyrics_lines(state, rows, available_width, theme);
    let ghost sung = line_views(lyrics@);
    lines.append(&mut lyrics);
    assert(line_views(lines@) =~= head + bars + sung);
    lines
}

/// The line of controls, with the colors of the default theme.
pub fn player_control_line(
    state: &AppState,
    compact: bool,
    available_width: usize,
    progress: &ProgressPresentation,
) -> (line: Line)
    requires
        state.queue@.wf(),
    ensures
        line@ == controls_for_mode(
            *state,
            compact,
            available_width as nat,
            theme_for(ColorCapability::TrueColor),
            progress@,
        ).line,
{
    let theme = Theme::default();
    let layout = player_controls_layout_for_mode(
        state,
        compact,
        available_width,
        &theme,
        progress,
    );
    assert(layout@.line == layout.line@);
    layout.line
}

/// A text in one column, or a question mark.
pub open spec fn one_cell_text(label: Seq<char>) -> Seq<char> {
    let shown = prefix_in_cells(label, 1);
    if shown.len() == 0 {
        "?"@
    } else {
        shown
    }
}

fn one_cell_label(label: &str) -> (text: String)
    ensures
        text@ == one_cell_text(label@),
{
    let shown = cell_prefix(label, 1);
    proof {
        crate::text::lemma_utf8_len_bounds(shown@);
    }
    if byte_len(shown.as_str()) == 0 {
        "?".to_owned()
    } else {
        shown
    }
}

/// The columns that the first cluster of a text takes, one at the least.
pub open spec fn minimum_width(text: Seq<char>) -> int {
    greatest(first_width(text), 1)
}

/// The fewest columns that tell what is played.
pub open spec fn identity_minimum(title: Seq<char>, creator: Seq<char>) -> int {
    if creator.len() == 0 {
        minimum_width(title)
    } else {
        minimum_width(title) + 1 + minimum_width(creator)
    }
}

/// What is played, in so many columns: the title, and the creator where there is
/// room for both, each with half of what is left.
pub open spec fn short_identity(title: Seq<char>, creator: Seq<char>, budget: int) -> Seq<char> {
    let content = floored_difference(budget, 1);
    let least_title = minimum_width(title);
    let least_creator = minimum_width(creator);
    if creator.len() == 0 || content < least_title + least_creator {
        prefix_in_cells(title, budget as nat)
    } else {
        let extra = content - least_title - least_creator;
        prefix_in_cells(title, (least_title + (extra + 1) / 2) as nat) + "/"@ + prefix_in_cells(
            creator,
            (least_creator + extra / 2) as nat,
        )
    }
}

fn smallest_width(text: &str) -> (width: usize)
    ensures
        width == minimum_width(text@),
        1 <= width <= 65_535,
{
    let width: usize = first_grapheme_width(text);
    proof {
        lemma_first_width(text@);
    }
    if width < 1 {
        1
    } else {
        width
    }
}

proof fn lemma_first_width(text: Seq<char>)
    ensures
        0 <= first_width(text) <= u16::MAX,
{
}

fn identity_minimum_width(title: &str, creator: &str) -> (width: usize)
    ensures
        width == identity_minimum(title@, creator@),
        width <= 131_071,
{
    proof {
        crate::text::lemma_utf8_len_bounds(creator@);
    }
    let least_title: usize = smallest_width(title);
    if byte_len(creator) == 0 {
        least_title
    } else {
        least_title + 1 + smallest_width(creator)
    }
}

/// What is played, in so many columns.
pub fn compact_identity(title: &str, creator: &str, budget: usize) -> (text: String)
    ensures
        text@ == short_identity(title@, creator@, budget as int),
{
    proof {
        crate::text::lemma_utf8_len_bounds(creator@);
    }
    if byte_len(creator) == 0 {
        return cell_prefix(title, budget);
    }
    let least_title: usize = smallest_width(title);
    let least_creator: usize = smallest_width(creator);
    let content: usize = budget.saturating_sub(1);
    if content < least_title + least_creator {
        return cell_prefix(title, budget);
    }
    let extra: usize = content - least_title - least_creator;
    let title_extra: usize = extra / 2 + extra % 2;
    let mut text = cell_prefix(title, least_title + title_extra);
    text.append("/");
    text.append(cell_prefix(creator, least_creator + extra / 2).as_str());
    text
}

/// What a tiny player tells apart from what is played and its controls.
pub open spec fn tiny_facts(state: AppState) -> Seq<Seq<char>> {
    let playback = state.playback;
    let progress = short_duration_text(playback.position_ms as nat) + "/"@
        + match playback.duration_ms {
        Some(duration) => short_duration_text(duration as nat),
        None => "--"@,
    };
    let fade = match state.presentation.fade {
        Some(fade) => match fade.activity {
            FadeActivity::In => "↑"@,
            FadeActivity::Out => "↓"@,
        },
        None => "·"@,
    };
    let volume = "v"@ + decimal_digits(least(playback.target_volume as int, 100) as nat) + "/"@
        + state.presentation.bounded_volume@ + fade;
    let modes = (if state.queue@.shuffle_seed is Some {
        "S"@
    } else {
        "s"@
    }) + (match state.queue@.repeat {
        RepeatMode::Off => "-"@,
        RepeatMode::One => "1"@,
        RepeatMode::All => "A"@,
    }) + (if state.queue@.radio {
        "E"@
    } else {
        "e"@
    });
    let quality = state.presentation.quality;
    seq![icon_text(playback.status), progress, volume, modes] + (if plays_podcast(state) {
        seq!["x"@ + playback.speed_in_tenths@]
    } else {
        Seq::empty()
    }) + (if quality.known {
        seq![
            "q"@ + one_cell_text(known_text(quality.format_id)) + "/"@ + one_cell_text(
                known_text(quality.codec),
            ),
        ]
    } else {
        Seq::empty()
    })
}

fn facts_of_tiny_player(state: &AppState) -> (facts: Vec<String>)
    ensures
        texts(facts@) == tiny_facts(*state),
        4 <= facts@.len() <= 6,
{
    let mut progress = compact_duration(state.playback.position_ms);
    progress.append("/");
    match state.playback.duration_ms {
        Some(duration) => {
            progress.append(compact_duration(duration).as_str());
        },
        None => {
            progress.append("--");
        },
    }
    let mut volume = "v".to_owned();
    let target: u64 = if state.playback.target_volume < 100 {
        state.playback.target_volume as u64
    } else {
        100
    };
    append_decimal(&mut volume, target);
    volume.append("/");
    volume.append(state.presentation.bounded_volume.as_str());
    match &state.presentation.fade {
        Some(fade) => match fade.activity {
            FadeActivity::In => {
                volume.append("↑");
            },
            FadeActivity::Out => {
                volume.append("↓");
            },
        },
        None => {
            volume.append("·");
        },
    }
    let mut modes = String::new();
    modes.append(
        if state.queue.is_shuffled() {
            "S"
        } else {
            "s"
        },
    );
    modes.append(
        match state.queue.repeat() {
            RepeatMode::Off => "-",
            RepeatMode::One => "1",
            RepeatMode::All => "A",
        },
    );
    modes.append(
        if state.queue.radio_enabled() {
            "E"
        } else {
            "e"
        },
    );
    let ghost expected = tiny_facts(*state);
    assert(progress@ =~= expected[1]);
    assert(volume@ =~= expected[2]);
    assert(modes@ =~= expected[3]);
    let mut facts: Vec<String> = vec![
        playback_icon(state.playback.status).to_owned(),
        progress,
        volume,
        modes,
    ];
    if is_podcast(state) {
        let mut speed = "x".to_owned();
        speed.append(state.playback.speed_in_tenths.as_str());
        facts.push(speed);
    }
    let quality = &state.presentation.quality;
    if quality.known {
        let mut text = "q".to_owned();
        text.append(one_cell_label(known(&quality.format_id)).as_str());
        text.append("/");
        text.append(one_cell_label(known(&quality.codec)).as_str());
        facts.push(text);
    }
    assert(texts(facts@) =~= expected);
    facts
}

/// The columns that texts take together.
pub open spec fn total_cells(fields: Seq<Seq<char>>) -> int
    decreases fields.len(),
{
    if fields.len() == 0 {
        0
    } else {
        total_cells(fields.drop_last()) + cells(fields.last())
    }
}

fn cells_of_fields(fields: &Vec<String>) -> (width: usize)
    requires
        fields@.len() <= 8,
    ensures
        width == total_cells(texts(fields@)),
        width <= 8 * 65_535,
{
    let ghost all = texts(fields@);
    let mut width: usize = 0;
    let mut index: usize = 0;
    assert(all.take(0) =~= Seq::<Seq<char>>::empty());
    while index < fields.len()
        invariant
            all == texts(fields@),
            fields@.len() <= 8,
            index <= fields.len(),
            width == total_cells(all.take(index as int)),
            width <= index * 65_535,
        decreases fields.len() - index,
    {
        assert(all.take(index + 1).drop_last() =~= all.take(index as int));
        assert(all.take(index + 1).last() == fields@[index as int]@);
        width = width + cell_width(fields[index].as_str()) as usize;
        index = index + 1;
    }
    assert(all.take(index as int) =~= all);
    width
}

/// The creator of what is played, or nothing.
pub open spec fn creator_or_nothing(state: AppState) -> Seq<char> {
    match playing_creator(state) {
        Some(creator) => creator,
        None => ""@,
    }
}

/// Whether a tiny player has room for its controls.
pub open spec fn tiny_controls_fit(state: AppState, width: int) -> bool {
    let facts = tiny_facts(state);
    let controls = controls_text(control_views(state), ControlTier::Tiny);
    total_cells(facts) + identity_minimum(playing_title(state), creator_or_nothing(state))
        + facts.len() + 1 + cells(controls) <= width
}

/// What a tiny player tells apart from what is played.
pub open spec fn tiny_fixed(state: AppState, width: int) -> Seq<Seq<char>> {
    if tiny_controls_fit(state, width) {
        tiny_facts(state).push(controls_text(control_views(state), ControlTier::Tiny))
    } else {
        tiny_facts(state)
    }
}

/// How many fields of a tiny player are parted by spaces.
pub open spec fn tiny_separators(state: AppState, width: int) -> int {
    let fixed = tiny_fixed(state, width);
    least(
        floored_difference(
            width,
            total_cells(fixed) + identity_minimum(
                playing_title(state),
                creator_or_nothing(state),
            ),
        ),
        fixed.len() as int,
    )
}

/// The fields of a tiny player: the status, what is played, and the rest.
pub open spec fn tiny_fields(state: AppState, width: int) -> Seq<Seq<char>> {
    let fixed = tiny_fixed(state, width);
    let budget = floored_difference(width, total_cells(fixed) + tiny_separators(state, width));
    seq![
        fixed[0],
        short_identity(playing_title(state), creator_or_nothing(state), budget),
    ] + fixed.skip(1)
}

/// What stands in front of the field `index`: the fields before it, and a space
/// where there is room for one.
pub open spec fn tiny_before(fields: Seq<Seq<char>>, separators: int, index: int) -> Seq<char>
    decreases index,
{
    let before = if index <= 0 {
        Seq::empty()
    } else {
        tiny_before(fields, separators, index - 1) + fields[index - 1]
    };
    if 0 < index <= separators && index < fields.len() {
        before + " "@
    } else {
        before
    }
}

/// A tiny player: its text, its controls, and where it tells what is played.
pub struct TinyPlayerLayout {
    pub text: String,
    pub controls: Vec<ControlRegion>,
    pub identity: (u16, u16),
}

/// What a [`TinyPlayerLayout`] says.
#[verifier::ext_equal]
pub struct TinyPlayerView {
    pub text: Seq<char>,
    pub controls: Seq<ControlRegion>,
    pub identity: (u16, u16),
}

impl View for TinyPlayerLayout {
    type V = TinyPlayerView;

    open spec fn view(&self) -> TinyPlayerView {
        TinyPlayerView {
            text: self.text@,
            controls: self.controls@,
            identity: self.identity,
        }
    }
}

/// A tiny player.
pub open spec fn tiny_player(state: AppState, width: nat) -> TinyPlayerView {
    let columns = width as int;
    let fields = tiny_fields(state, columns);
    let separators = tiny_separators(state, columns);
    TinyPlayerView {
        text: truncated(tiny_before(fields, separators, fields.len() as int), width),
        controls: if tiny_controls_fit(state, columns) {
            control_regions(
                control_views(state),
                ControlTier::Tiny,
                cells(tiny_before(fields, separators, fields.len() - 1)) as u16,
            )
        } else {
            Seq::empty()
        },
        identity: (cells(tiny_before(fields, separators, 1)) as u16, cells(fields[1]) as u16),
    }
}

/// A tiny player.
pub fn tiny_player_layout(state: &AppState, available_width: usize) -> (layout: TinyPlayerLayout)
    requires
        state.queue@.wf(),
    ensures
        layout@ == tiny_player(*state, available_width as nat),
{
    let media = playback_media(state);
    let title = title_of(media);
    let creator = match creator_of(media) {
        Some(creator) => creator,
        None => "",
    };
    assert(title@ == playing_title(*state));
    assert(creator@ == creator_or_nothing(*state));
    let mut fixed = facts_of_tiny_player(state);
    let ghost facts = tiny_facts(*state);
    let labels = player_control_labels(state);
    let controls = join_controls(&labels, ControlTier::Tiny);
    let least_identity: usize = identity_minimum_width(title, creator);
    let facts_width: usize = cells_of_fields(&fixed);
    let required: usize = facts_width + least_identity + fixed.len() + 1 + cell_width(
        controls.as_str(),
    ) as usize;
    let controls_included = required <= available_width;
    assert(texts(fixed@).len() == fixed@.len());
    assert(controls_included == tiny_controls_fit(*state, available_width as int));
    if controls_included {
        fixed.push(controls);
        assert(texts(fixed@) =~= facts.push(controls@));
    }
    assert(texts(fixed@) == tiny_fixed(*state, available_width as int));
    assert(texts(fixed@).len() == fixed@.len());
    let fixed_width: usize = cells_of_fields(&fixed);
    let room: usize = available_width.saturating_sub(fixed_width + least_identity);
    let separators: usize = if room < fixed.len() {
        room
    } else {
        fixed.len()
    };
    assert(separators == tiny_separators(*state, available_width as int));
    let budget: usize = available_width.saturating_sub(fixed_width + separators);
    let identity = compact_identity(title, creator, budget);
    let ghost fields_expected = tiny_fields(*state, available_width as int);
    let ghost fixed_texts = texts(fixed@);
    let ghost identity_shown = identity@;
    let status = fixed.remove(0);
    let mut fields: Vec<String> = vec![status, identity];
    fields.append(&mut fixed);
    assert(texts(fields@) =~= seq![fixed_texts[0], identity_shown] + fixed_texts.skip(1));
    assert(texts(fields@) == fields_expected);
    assert(texts(fields@).len() == fields@.len());
    let mut line = String::new();
    let mut controls_start: u16 = 0;
    let mut identity_region: (u16, u16) = (0, 0);
    let mut index: usize = 0;
    proof {
        assert(line@ =~= tiny_before(fields_expected, separators as int, 0));
    }
    while index < fields.len()
        invariant
            texts(fields@) == fields_expected,
            fields@.len() == fields_expected.len(),
            2 <= fields@.len(),
            index <= fields.len(),
            index == 0 ==> line@ == tiny_before(fields_expected, separators as int, 0),
            index > 0 ==> line@ == tiny_before(fields_expected, separators as int, index - 1)
                + fields_expected[index - 1],
            index > 1 ==> identity_region == (
                cells(tiny_before(fields_expected, separators as int, 1)) as u16,
                cells(fields_expected[1]) as u16,
            ),
            index == fields@.len() && controls_included ==> controls_start == cells(
                tiny_before(fields_expected, separators as int, index - 1),
            ),
        decreases fields.len() - index,
    {
        if index > 0 && index <= separators {
            line.append(" ");
        }
        proof {
            assert(line@ =~= tiny_before(fields_expected, separators as int, index as int));
            assert(fields_expected[index as int] == fields@[index as int]@);
        }
        if index == 1 {
            identity_region = (cell_width(line.as_str()), cell_width(fields[index].as_str()));
        }
        if controls_included && index == fields.len() - 1 {
            controls_start = cell_width(line.as_str());
        }
        line.append(fields[index].as_str());
        index = index + 1;
    }
    assert(line@ =~= tiny_before(fields_expected, separators as int, fields@.len() as int));
    let regions = if controls_included {
        regions_of_controls(&labels, ControlTier::Tiny, controls_start)
    } else {
        Vec::new()
    };
    let layout = TinyPlayerLayout {
        text: truncate_cells(line.as_str(), available_width),
        controls: regions,
        identity: identity_region,
    };
    assert(layout@ =~= tiny_player(*state, available_width as nat));
    layout
}

/// The control that starts and pauses playback can be used exactly while something
/// plays, or while something waits to be played and nothing is being loaded.
pub proof fn law_playback_control_needs_something_to_play(state: AppState)
    ensures
        playback_control(state).action is Some <==> {
            ||| state.playback.status == PlaybackStatus::Playing
            ||| state.queue@.current is Some && state.playback.status != PlaybackStatus::Resolving
                && state.playback.status != PlaybackStatus::Buffering
        },
        playback_control(state).action matches Some(action) ==> action
            == SemanticAction::TogglePlayback,
{
}

proof fn lemma_regions_end(labels: Seq<ControlView>, tier: ControlTier, start: u16)
    requires
        offset_after(labels, tier, start) < u16::MAX,
    ensures
        start <= offset_after(labels, tier, start),
        forall|i: int|
            0 <= i < control_regions(labels, tier, start).len() ==> {
                let region = #[trigger] control_regions(labels, tier, start)[i];
                &&& start <= region.offset
                &&& region.offset + region.width < offset_after(labels, tier, start)
            },
        forall|i: int, j: int|
            0 <= i < j < control_regions(labels, tier, start).len() ==> (
            #[trigger] control_regions(labels, tier, start)[i]).offset + control_regions(
                labels,
                tier,
                start,
            )[i].width < (#[trigger] control_regions(labels, tier, start)[j]).offset,
    decreases labels.len(),
{
    if labels.len() > 0 {
        lemma_cells(control_text(labels.last(), tier));
        lemma_regions_end(labels.drop_last(), tier, start);
    }
}

/// Controls that can be clicked stand in order, with a gap between two, as long as
/// they end on the screen's coordinates.
pub proof fn law_controls_do_not_overlap(
    labels: Seq<ControlView>,
    tier: ControlTier,
    start: u16,
    left: int,
    right: int,
)
    requires
        offset_after(labels, tier, start) < u16::MAX,
        0 <= left < right < control_regions(labels, tier, start).len(),
    ensures
        control_regions(labels, tier, start)[left].offset + control_regions(
            labels,
            tier,
            start,
        )[left].width < control_regions(labels, tier, start)[right].offset,
{
    lemma_regions_end(labels, tier, start);
}

/// A progress bar can be clicked only where something of known length is played
/// and the bar has at least two cells.
pub proof fn law_progress_needs_two_cells(
    state: AppState,
    width: nat,
    required: Seq<char>,
    optional: Seq<char>,
    theme: Theme,
    progress: ProgressView,
)
    ensures
        controls_layout(state, width, required, optional, theme, progress).progress matches Some(
            region,
        ) ==> has_duration(state) && region.1 >= 2,
{
    let bar = progress_bar(state, progress_width(state, width as int, required), progress, theme);
    lemma_cells(text_of_line(bar));
}

} // verus!
