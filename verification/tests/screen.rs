use std::sync::Arc;

use ratatui::backend::TestBackend;
use ratatui::buffer::Buffer;
use ratatui::layout::Rect as Surface;
use ratatui::style::{Color as Paint, Modifier, Style as Look};
use ratatui::text::{Line as PaintedLine, Span as PaintedSpan};
use ratatui::widgets::{Block, BorderType, Borders, Clear, Paragraph};
use ratatui::{Frame, Terminal};

use tuneterm::domain::{
    Generation, MediaId, MediaItem, MediaKind, PlaybackStatus, SearchFilter,
};
use tuneterm::lyrics::normalize_lyrics_text;
use tuneterm::queue::{stable_queue_item_id, Queue, QueueItem, QueueItemId};
use tuneterm::ui::animation::{AnimationFrameStore, AnimationKey};
use tuneterm::ui::artwork::{decode_rgb_frame, ArtworkGrid, ArtworkPresentation, CellSize};
use tuneterm::ui::bars::{progress_bar_line, resample_spectrum, spectrum_lines};
use tuneterm::ui::cells::cell_width;
use tuneterm::ui::input::SemanticAction;
use tuneterm::ui::interaction::{HitTarget, InteractionMap};
use tuneterm::ui::layout::{lyrics_overlay_viewport, LayoutMode, Rect};
use tuneterm::ui::line::{Alignment, Line};
use tuneterm::ui::lyrics_panel::{
    automatic_lyrics_lines, lyric_transition_style, lyrics_overlay_lines_with_motion,
    wrap_lyrics_text, wrapped_lyrics_row_count,
};
use tuneterm::ui::memory::ViewportMemory;
use tuneterm::ui::model::{
    CompactPanel, FocusRegion, LyricsOverlayState, NavigationItem, Overlay, RenderModel,
};
use tuneterm::ui::motion::{MotionFrame, ProgressPresentation};
use tuneterm::ui::player::{
    player_control_labels, player_control_line, player_lines, tiny_player_layout,
};
use tuneterm::ui::render::{
    artwork_presentation_from_stores, effective_for_layout, render, render_artwork, render_queue,
    render_with_model, render_with_model_and_artwork, render_with_model_and_interactions,
    render_with_model_and_motion_memory, render_with_model_and_motion_memory_and_interactions,
    render_with_model_and_spectrum, render_with_model_and_viewports,
    render_with_model_and_viewports_and_interactions, RenderEnhancements,
    TINY_LYRICS_MIN_IDENTITY_WIDTH,
};
use tuneterm::ui::scene::{Canvas, DrawOp, PanelBlock};
use tuneterm::ui::spectrum::{
    SpectrumFrame, SpectrumFrameStore, SpectrumKey, SpectrumPresentation, SpectrumTarget,
};
use tuneterm::ui::state::{
    AppState, Dependencies, FavoritesState, LyricTransition, LyricsDocument, LyricsSource,
    LyricsState, Playback, PlayerPresentation, PreparedView, Quality, SearchEntry,
    SearchEntryKind, SearchState, SeekSteps, Switches,
};
use tuneterm::ui::theme::{Color, ColorCapability, Style, Theme};

fn song(id: &str, kind: MediaKind, title: &str, creator: &str) -> MediaItem {
    MediaItem {
        id: MediaId {
            provider: "youtube-music".to_owned(),
            video_id: id.to_owned(),
        },
        kind,
        title: title.to_owned(),
        creators: vec![creator.to_owned()],
        collection: None,
        duration_ms: Some(180_000),
        artwork_url: None,
        explicit: false,
    }
}

fn queue_of(items: Vec<QueueItem>) -> Queue {
    Queue::from_items(items).unwrap_or_else(|_| panic!("entries of their own"))
}

fn queue_item(id: &str) -> QueueItem {
    QueueItem::new(
        QueueItemId::from(id),
        song(id, MediaKind::Song, &format!("Song {id}"), "Artist"),
    )
}

fn no_progress() -> ProgressPresentation {
    ProgressPresentation { eighths_by_width: Vec::new(), shine_by_filled_cells: Vec::new() }
}

fn quiet_state() -> AppState {
    AppState {
        playback: Playback {
            status: PlaybackStatus::Stopped,
            current: None,
            position_ms: 0,
            duration_ms: None,
            target_volume: 80,
            speed_in_tenths: "1.0".to_owned(),
            speed_in_hundredths: "1.00".to_owned(),
        },
        presentation: PlayerPresentation {
            fade: None,
            effective_volume: "0".to_owned(),
            bounded_volume: "0".to_owned(),
            quality: Quality { known: false, format_id: None, codec: None },
            fade_in_ms: 0,
            fade_out_ms: 0,
        },
        queue: queue_of(Vec::new()),
        lyrics: LyricsState {
            loading: false,
            document: None,
            active_line_index: None,
            transition: None,
        },
        search: SearchState {
            query: String::new(),
            filter: SearchFilter::All,
            generation: Generation::new(0),
            stale: false,
            loading: false,
            loading_more: false,
            has_continuation: false,
            error: None,
            items: Vec::new(),
            selected_id: None,
        },
        favorites: FavoritesState {
            generation: Generation::new(0),
            loading: false,
            loaded: false,
            error: None,
            entries: Vec::new(),
            selected_id: None,
        },
        dependencies: Dependencies {
            browsing_available: true,
            playback_available: true,
            checking: false,
            rows: Vec::new(),
        },
        switches: Switches {
            lyrics: true,
            lyrics_external_sync: true,
            animated_artwork: true,
            visualizer: true,
        },
        seek: SeekSteps { music: 10, podcast_backward: 15, podcast_forward: 30 },
        current_attempt_generation: None,
        progress: no_progress(),
        prepared: PreparedView { lines: Vec::new(), targets: Vec::new() },
    }
}

fn line_text(lines: &[Line]) -> String {
    lines.iter().map(Line::text).collect::<Vec<_>>().join("\n")
}

// Drawing on a terminal.

fn paint(color: Color) -> Paint {
    match color {
        Color::Reset => Paint::Reset,
        Color::Black => Paint::Black,
        Color::Red => Paint::Red,
        Color::Green => Paint::Green,
        Color::Yellow => Paint::Yellow,
        Color::Blue => Paint::Blue,
        Color::Magenta => Paint::Magenta,
        Color::Cyan => Paint::Cyan,
        Color::Gray => Paint::Gray,
        Color::DarkGray => Paint::DarkGray,
        Color::LightRed => Paint::LightRed,
        Color::LightGreen => Paint::LightGreen,
        Color::LightYellow => Paint::LightYellow,
        Color::LightBlue => Paint::LightBlue,
        Color::LightMagenta => Paint::LightMagenta,
        Color::LightCyan => Paint::LightCyan,
        Color::White => Paint::White,
        Color::Indexed(index) => Paint::Indexed(index),
        Color::Rgb(red, green, blue) => Paint::Rgb(red, green, blue),
    }
}

fn modifiers(style: Style) -> Modifier {
    let mut modifier = Modifier::empty();
    if style.bold {
        modifier |= Modifier::BOLD;
    }
    if style.dim {
        modifier |= Modifier::DIM;
    }
    modifier
}

fn look(style: Style) -> Look {
    let mut look = if style.clears_modifiers { Look::reset() } else { Look::default() };
    if let Some(color) = style.fg {
        look = look.fg(paint(color));
    }
    if let Some(color) = style.bg {
        look = look.bg(paint(color));
    }
    look.add_modifier(modifiers(style))
}

fn surface(area: Rect) -> Surface {
    Surface::new(area.x, area.y, area.width, area.height)
}

fn painted_line(line: &Line) -> PaintedLine<'static> {
    let spans = line
        .spans
        .iter()
        .map(|span| PaintedSpan::styled(span.content.clone(), look(span.style)))
        .collect::<Vec<_>>();
    let painted = PaintedLine::from(spans).style(look(line.style));
    match line.alignment {
        Some(Alignment::Left) => painted.left_aligned(),
        Some(Alignment::Center) => painted.centered(),
        Some(Alignment::Right) => painted.right_aligned(),
        None => painted,
    }
}

fn border(block: &PanelBlock) -> Block<'static> {
    Block::new()
        .borders(Borders::ALL)
        .border_type(if block.double_border { BorderType::Double } else { BorderType::Plain })
        .title(block.title.clone())
        .title_style(look(block.title_style))
        .border_style(look(block.border_style))
        .style(look(block.style))
}

fn paint_artwork(frame: &mut Frame, area: Rect, artwork: &ArtworkPresentation, fitted: bool) {
    match artwork {
        ArtworkPresentation::Fallback(fallback) => {
            let lines = vec![
                PaintedLine::from(fallback.icon()),
                PaintedLine::from(fallback.metadata()),
            ];
            frame.render_widget(Paragraph::new(lines), surface(area));
        }
        ArtworkPresentation::Grid(grid) => {
            let width = area.width.min(grid.width());
            let height = area.height.min(grid.height());
            for row in 0..height {
                for column in 0..width {
                    let (from_column, from_row) = if fitted {
                        (column * grid.width() / width, row * grid.height() / height)
                    } else {
                        (column, row)
                    };
                    let Some(cell) = grid.cell(from_column, from_row) else {
                        continue;
                    };
                    let (above, below) = (cell.foreground(), cell.background());
                    if let Some(target) =
                        frame.buffer_mut().cell_mut((area.x + column, area.y + row))
                    {
                        target
                            .set_symbol("▀")
                            .set_fg(Paint::Rgb(above.red(), above.green(), above.blue()))
                            .set_bg(Paint::Rgb(below.red(), below.green(), below.blue()));
                    }
                }
            }
        }
    }
}

fn perform(frame: &mut Frame, ops: &[DrawOp]) {
    for op in ops {
        match op {
            DrawOp::Fill { area, style } => {
                frame.render_widget(Block::new().style(look(*style)), surface(*area));
            }
            DrawOp::Clear { area } => frame.render_widget(Clear, surface(*area)),
            DrawOp::Panel { area, border: block } => {
                frame.render_widget(border(block), surface(*area));
            }
            DrawOp::Text { area, block, style, lines } => {
                let lines = lines.iter().map(painted_line).collect::<Vec<_>>();
                let mut paragraph = Paragraph::new(lines).style(look(*style));
                if let Some(block) = block {
                    paragraph = paragraph.block(border(block));
                }
                frame.render_widget(paragraph, surface(*area));
            }
            DrawOp::Artwork { area, presentation, fitted, capability: _ } => {
                paint_artwork(frame, *area, presentation, *fitted);
            }
        }
    }
}

fn terminal(width: u16, height: u16) -> Terminal<TestBackend> {
    Terminal::new(TestBackend::new(width, height)).unwrap_or_else(|_| panic!("a terminal"))
}

fn draw(terminal: &mut Terminal<TestBackend>, ops: &[DrawOp]) {
    assert!(terminal.draw(|frame| perform(frame, ops)).is_ok());
}

fn drawn(width: u16, height: u16, ops: &[DrawOp]) -> Terminal<TestBackend> {
    let mut terminal = terminal(width, height);
    draw(&mut terminal, ops);
    terminal
}

fn whole(width: u16, height: u16) -> Rect {
    Rect::new(0, 0, width, height)
}

// What is drawn.

fn playing(state: &mut AppState, item: MediaItem, status: PlaybackStatus) {
    state.playback.status = status;
    state.playback.current = Some(item.id.clone());
    state.playback.duration_ms = item.duration_ms;
    state.current_attempt_generation = Some(Generation::new(1));
    let id = stable_queue_item_id(&item.id);
    state.queue = queue_of(vec![QueueItem::new(id.clone(), item)]);
    assert!(state.queue.select(&id).is_ok());
}

/// How many eighths of every bar are filled at a position.
fn progress_at(position_ms: u64, duration_ms: u64) -> ProgressPresentation {
    let fraction = position_ms.min(duration_ms) as f64 / duration_ms as f64;
    ProgressPresentation {
        eighths_by_width: (0..=20_usize)
            .map(|width| (fraction * (width * 8) as f64).round() as usize)
            .collect(),
        shine_by_filled_cells: vec![0; 21],
    }
}

struct Timed {
    start_ms: u64,
    end_ms: Option<u64>,
    text: String,
}

fn timed(start_ms: u64, end_ms: Option<u64>, text: &str) -> Timed {
    Timed { start_ms, end_ms, text: normalize_lyrics_text(text).replace('\n', " ") }
}

fn half(line: &Timed) -> Option<u64> {
    line.end_ms.map(|end| (end - line.start_ms) / 2)
}

/// The change of lines at a position: it takes 400 ms, or half of a shorter line.
fn transition_at(lines: &[Timed], active: usize, position_ms: u64) -> LyricTransition {
    let line = &lines[active];
    let before = active.checked_sub(1).map(|index| &lines[index]);
    let length = [Some(400), half(line), before.and_then(half)]
        .into_iter()
        .flatten()
        .min()
        .unwrap_or(400);
    let elapsed = position_ms - line.start_ms;
    LyricTransition {
        progress_millis: (elapsed * 1000 / length).min(1000) as u16,
        incoming_index: active,
        outgoing_index: before
            .filter(|before| before.end_ms == Some(line.start_ms))
            .map(|_| active - 1),
    }
}

fn timed_lyrics(lines: &[Timed], position_ms: u64) -> LyricsState {
    let active = lines.iter().rposition(|line| {
        line.start_ms <= position_ms && line.end_ms.is_none_or(|end| position_ms < end)
    });
    LyricsState {
        loading: false,
        document: Some(LyricsDocument {
            source: LyricsSource::Lrclib,
            instrumental: false,
            timed: lines.iter().map(|line| line.text.clone()).collect(),
            plain: None,
        }),
        active_line_index: active,
        transition: active.map(|active| transition_at(lines, active, position_ms)),
    }
}

fn timed_test_document() -> Vec<Timed> {
    vec![
        timed(0, Some(1_000), "previous"),
        timed(1_000, Some(2_000), "current"),
        timed(2_000, None, "next"),
    ]
}

fn long_timed_test_document() -> Vec<Timed> {
    (0_u64..10)
        .map(|index| {
            timed(index * 1_000, Some(index * 1_000 + 1_000), &format!("line-{index}"))
        })
        .collect()
}

fn lyrics_item() -> MediaItem {
    let mut item =
        song("lyrics-render", MediaKind::Video, "Lyrics render fixture", "Artist");
    item.artwork_url = Some("https://art.invalid/lyrics-render".to_owned());
    item
}

fn lyrics_base_state(position_ms: u64) -> AppState {
    let mut state = quiet_state();
    playing(&mut state, lyrics_item(), PlaybackStatus::Resolving);
    state.playback.position_ms = position_ms;
    state.playback.duration_ms = Some(180_000);
    state.progress = progress_at(position_ms, 180_000);
    state.prepared.lines = vec![Line::from_text("Lyrics render fixture — Artist".to_owned())];
    state
}

fn lyrics_test_state(lines: Vec<Timed>, position_ms: u64) -> AppState {
    let mut state = lyrics_base_state(position_ms);
    state.lyrics = timed_lyrics(&lines, position_ms);
    state
}

fn other_lyrics_state(document: Option<LyricsDocument>) -> AppState {
    let mut state = lyrics_base_state(0);
    state.lyrics.document = document;
    state
}

fn playing_test_state(mut state: AppState) -> AppState {
    state.playback.status = PlaybackStatus::Playing;
    state
}

fn paused_test_state(mut state: AppState) -> AppState {
    state.playback.status = PlaybackStatus::Paused;
    state
}

fn artwork_policy_state(artwork_url: Option<String>) -> AppState {
    let mut item =
        song("artwork-policy-video", MediaKind::Video, "Artwork policy fixture", "Artist");
    item.artwork_url = artwork_url;
    let mut state = quiet_state();
    playing(&mut state, item, PlaybackStatus::Playing);
    state.progress = progress_at(0, 180_000);
    state
}

fn solid_animation_frame(rgb: [u8; 3]) -> Arc<ArtworkGrid> {
    let size = CellSize::production();
    let cells = usize::from(size.width) * usize::from(size.height) * 2;
    let pixels = std::iter::repeat(rgb).take(cells).flatten().collect::<Vec<_>>();
    Arc::new(decode_rgb_frame(&pixels, size).unwrap_or_else(|_| panic!("a picture")))
}

fn presentation_starts_with_rgb(presentation: &ArtworkPresentation, expected: [u8; 3]) -> bool {
    let ArtworkPresentation::Grid(grid) = presentation else {
        return false;
    };
    grid.cell(0, 0).is_some_and(|cell| {
        let color = cell.foreground();
        [color.red(), color.green(), color.blue()] == expected
    })
}

fn is_unavailable_presentation(presentation: Option<&ArtworkPresentation>) -> bool {
    matches!(
        presentation,
        Some(ArtworkPresentation::Fallback(fallback))
            if fallback.icon() == "♪" && fallback.metadata() == "Artwork unavailable"
    )
}

/// Still pictures, each under the request that it was published for.
struct StillStore {
    slot: Option<(u64, String, ArtworkPresentation)>,
}

impl StillStore {
    fn found(&self, generation: u64, url: Option<&String>) -> Option<ArtworkPresentation> {
        match (&self.slot, url) {
            (Some((slot_generation, slot_url, picture)), Some(url))
                if *slot_generation == generation && slot_url == url =>
            {
                Some(picture.clone())
            }
            _ => None,
        }
    }
}

fn requested_url(state: &AppState) -> Option<&String> {
    state.queue.current().and_then(|item| item.media().artwork_url.as_ref())
}

fn still_of(state: &AppState, store: &StillStore) -> Option<Option<ArtworkPresentation>> {
    Some(store.found(1, requested_url(state)))
}

fn static_artwork_store(state: &AppState, rgb: [u8; 3]) -> StillStore {
    let url = requested_url(state).unwrap_or_else(|| panic!("the fixture requests artwork"));
    StillStore {
        slot: Some((1, url.clone(), ArtworkPresentation::Grid(solid_animation_frame(rgb)))),
    }
}

fn animation_key(state: &AppState) -> AnimationKey {
    AnimationKey::new(
        state.current_attempt_generation.unwrap_or_else(|| panic!("a generation")),
        state.playback.current.clone().unwrap_or_else(|| panic!("current media")),
        CellSize::production(),
    )
}

fn render_artwork_presentation(
    state: &AppState,
    presentation: &ArtworkPresentation,
    width: u16,
    height: u16,
) -> String {
    let ops = render_with_model_and_artwork(
        whole(width, height),
        state,
        &Theme::default(),
        &RenderModel::default(),
        presentation,
    );
    let terminal = drawn(width, height, &ops);
    let backend = terminal.backend();
    let colors =
        backend.buffer().content.iter().map(|cell| (cell.fg, cell.bg)).collect::<Vec<_>>();
    format!("{backend}\ncolors:{colors:?}")
}

fn render_animation_store_frame(
    state: &AppState,
    static_store: &StillStore,
    animation_store: &AnimationFrameStore,
    width: u16,
    height: u16,
) -> String {
    let presentation = artwork_presentation_from_stores(
        state,
        still_of(state, static_store),
        Some(animation_store),
        CellSize::production(),
        LayoutMode::from_dimensions(width, height),
    );
    render_artwork_presentation(
        state,
        &presentation.unwrap_or_else(ArtworkPresentation::unavailable),
        width,
        height,
    )
}

fn render_plain_model(state: &AppState, width: u16, height: u16) -> String {
    let ops = render_with_model(
        whole(width, height),
        state,
        &Theme::default(),
        &RenderModel::default(),
    );
    drawn(width, height, &ops).backend().to_string()
}

fn spectrum_key(state: &AppState, bands: u16, rows: u8) -> SpectrumKey {
    SpectrumKey::new(
        state.current_attempt_generation.unwrap_or_else(|| panic!("a generation")),
        state.playback.current.clone().unwrap_or_else(|| panic!("current media")),
        SpectrumTarget::new(bands, rows).unwrap_or_else(|| panic!("a target")),
    )
}

fn spectrum_frame(levels: Vec<u8>) -> Arc<SpectrumFrame> {
    Arc::new(
        SpectrumFrame::new(levels.into_boxed_slice()).unwrap_or_else(|| panic!("a frame")),
    )
}

fn spectrum_fixture(
    state: &AppState,
    bands: u16,
    rows: u8,
    seed: &[u8],
) -> (SpectrumFrameStore, SpectrumPresentation) {
    let key = spectrum_key(state, bands, rows);
    let mut store = SpectrumFrameStore::new();
    let run = store.request(spectrum_key(state, bands, rows)).unwrap_or_else(|| panic!("a run"));
    let levels =
        (0..usize::from(bands)).map(|index| seed[index % seed.len()]).collect::<Vec<_>>();
    assert!(store.publish(&run, spectrum_frame(levels)));
    let presentation = store.presentation(&key);
    (store, presentation)
}

fn render_spectrum_buffer(
    state: &AppState,
    presentation: &SpectrumPresentation,
    width: u16,
    height: u16,
    theme: &Theme,
) -> Buffer {
    let ops = render_with_model_and_spectrum(
        whole(width, height),
        state,
        theme,
        &RenderModel::default(),
        presentation,
    );
    drawn(width, height, &ops).backend().buffer().clone()
}

fn render_spectrum_presentation(
    state: &AppState,
    presentation: &SpectrumPresentation,
    width: u16,
    height: u16,
) -> String {
    let ops = render_with_model_and_spectrum(
        whole(width, height),
        state,
        &Theme::default(),
        &RenderModel::default(),
        presentation,
    );
    drawn(width, height, &ops).backend().to_string()
}

fn render_spectrum_and_artwork(
    state: &AppState,
    spectrum: &SpectrumPresentation,
    artwork: &ArtworkPresentation,
    width: u16,
    height: u16,
) -> String {
    let ops = render_with_model_and_viewports(
        whole(width, height),
        state,
        &Theme::default(),
        &RenderModel::default(),
        RenderEnhancements::new(Some(artwork), Some(spectrum), 15),
        &mut ViewportMemory::new(),
    );
    drawn(width, height, &ops).backend().to_string()
}

fn render_viewports(
    state: &AppState,
    model: &RenderModel,
    width: u16,
    height: u16,
    viewports: &mut ViewportMemory,
) -> String {
    let ops = render_with_model_and_viewports(
        whole(width, height),
        state,
        &Theme::default(),
        model,
        RenderEnhancements::new(None, None, 15),
        viewports,
    );
    drawn(width, height, &ops).backend().to_string()
}

fn line_index_containing(rendered: &str, needle: &str) -> usize {
    rendered
        .lines()
        .position(|line| line.contains(needle))
        .unwrap_or_else(|| panic!("missing {needle:?} in:\n{rendered}"))
}

fn is_bar(symbol: &str) -> bool {
    matches!(symbol, "█" | "▇" | "▆" | "▅" | "▄" | "▃" | "▂" | "▁")
}

fn lyrics_overlay_lines(
    state: &AppState,
    overlay: &LyricsOverlayState,
    rows: usize,
    width: usize,
    theme: &Theme,
) -> Vec<Line> {
    lyrics_overlay_lines_with_motion(
        state,
        overlay,
        rows,
        width,
        theme,
        0,
        &mut ViewportMemory::new(),
        0,
    )
}

fn still_motion() -> MotionFrame {
    MotionFrame { elapsed_ms: 0, spinner_index: 0, progress: progress_at(0, 180_000) }
}

#[test]
fn completed_frame_motion_visibility_excludes_tiny_progress() {
    let state = artwork_policy_state(None);
    let model = RenderModel::default().with_motion_frame(still_motion());

    let mut tiny_memory = ViewportMemory::new();
    let _ = render_viewports(&state, &model, 40, 12, &mut tiny_memory);
    assert!(!tiny_memory.progress_motion_visible());

    let mut compact_memory = ViewportMemory::new();
    let _ = render_viewports(&state, &model, 80, 24, &mut compact_memory);
    assert!(compact_memory.progress_motion_visible());

    let help = model.clone().with_overlay(Overlay::Help);
    let _ = render_viewports(&state, &help, 80, 24, &mut compact_memory);
    assert!(
        compact_memory.progress_motion_visible(),
        "centered overlay leaves the compact player progress row visible"
    );

    let lyrics = model.clone().with_overlay(Overlay::Lyrics);
    let _ = render_viewports(&state, &lyrics, 80, 24, &mut compact_memory);
    assert!(
        !compact_memory.progress_motion_visible(),
        "large lyrics popup fully covers compact progress cells"
    );

    let mut loading = quiet_state();
    loading.search.query = "visible spinner".to_owned();
    loading.search.filter = SearchFilter::Songs;
    loading.search.loading = true;
    let visible_loading = RenderModel::default().with_view(NavigationItem::Search);
    let _ = render_viewports(&loading, &visible_loading, 80, 24, &mut compact_memory);
    assert!(compact_memory.spinner_motion_visible());

    let covered = visible_loading.clone().with_overlay(Overlay::Help);
    let _ = render_viewports(&loading, &covered, 80, 24, &mut compact_memory);
    assert!(
        compact_memory.spinner_motion_visible(),
        "spinner prefix remains visible to the left of the centered popup"
    );

    let mut narrow_memory = ViewportMemory::new();
    let _ = render_viewports(&loading, &covered, 10, 20, &mut narrow_memory);
    assert!(
        !narrow_memory.spinner_motion_visible(),
        "full-surface overlay fallback hides all prior motion"
    );
}

#[test]
fn playback_control_semantic_action_exists_only_when_toggle_can_act() {
    let mut state = lyrics_test_state(timed_test_document(), 1_500);
    assert!(player_control_labels(&state)[2].action.is_none());

    for status in [
        PlaybackStatus::Playing,
        PlaybackStatus::Paused,
        PlaybackStatus::Stopped,
        PlaybackStatus::Failed,
    ] {
        state.playback.status = status;
        assert_eq!(
            player_control_labels(&state)[2].action,
            Some(SemanticAction::TogglePlayback),
            "{status:?} with a current queue item can restart playback"
        );
    }

    state.playback.status = PlaybackStatus::Buffering;
    assert!(player_control_labels(&state)[2].action.is_none());

    assert!(player_control_labels(&quiet_state())[2].action.is_none());
}

#[test]
fn spectrum_wide_and_compact_reserve_rows_while_tiny_stays_one_line() {
    let state = lyrics_test_state(timed_test_document(), 1_500);
    let (_, presentation) = spectrum_fixture(&state, 64, 3, &[24, 18, 12, 6]);

    let wide = render_spectrum_presentation(&state, &presentation, 140, 40);
    let compact = render_spectrum_presentation(&state, &presentation, 90, 30);
    let tiny = render_spectrum_presentation(&state, &presentation, 40, 12);

    let wide_player = line_index_containing(&wide, "Player · persistent");
    let compact_player = line_index_containing(&compact, "Player · persistent");
    assert_eq!(wide.lines().count().saturating_sub(wide_player), 11);
    assert_eq!(compact.lines().count().saturating_sub(compact_player), 7);
    assert!(wide.contains('█') || wide.contains('▄'), "{wide}");
    assert!(compact.contains('█') || compact.contains('▄'), "{compact}");
    assert!(!tiny.contains('█') && !tiny.contains('▁'), "{tiny}");
    assert_eq!(tiny.lines().count(), 12);
}

#[test]
fn spectrum_bass_uses_accent_and_paused_frame_is_frozen_and_dimmed() {
    let state = lyrics_test_state(timed_test_document(), 1_500);
    let (mut store, presentation) =
        spectrum_fixture(&state, 8, 3, &[24, 24, 16, 12, 8, 6, 4, 2]);
    let theme = Theme::default();
    let playing = render_spectrum_buffer(&state, &presentation, 140, 40, &theme);
    assert!(playing
        .content
        .iter()
        .any(|cell| is_bar(cell.symbol()) && cell.fg == paint(theme.accent)));

    let key = spectrum_key(&state, 8, 3);
    let run = store.request(spectrum_key(&state, 8, 3)).unwrap_or_else(|| panic!("a run"));
    assert!(store.publish(&run, spectrum_frame(vec![24, 24, 16, 12, 8, 6, 4, 2])));
    assert!(store.pause(&run));
    let paused = store.presentation(&key);
    let paused_buffer = render_spectrum_buffer(&state, &paused, 140, 40, &theme);
    assert!(paused_buffer
        .content
        .iter()
        .any(|cell| is_bar(cell.symbol()) && cell.fg == paint(theme.muted)));
    assert!(paused.paused());
    assert!(paused.frame() == store.presentation(&key).frame());
}

fn foregrounds(line: &Line) -> Vec<Color> {
    line.spans
        .iter()
        .map(|span| span.style.fg.unwrap_or_else(|| panic!("a foreground")))
        .collect()
}

#[test]
fn spectrum_gradient_true_color_varies_by_band_and_level() {
    let state = lyrics_test_state(timed_test_document(), 1_500);
    let (_, bands) = spectrum_fixture(&state, 3, 1, &[24, 24, 24]);
    let theme = Theme::for_capability(ColorCapability::TrueColor);
    let colors = foregrounds(&spectrum_lines(&bands, 1, 3, &theme)[0]);
    assert_ne!(colors[0], colors[1]);
    assert_ne!(colors[1], colors[2]);

    let (_, quiet) = spectrum_fixture(&state, 1, 1, &[4]);
    let (_, loud) = spectrum_fixture(&state, 1, 1, &[24]);
    let quiet_color = foregrounds(&spectrum_lines(&quiet, 1, 1, &theme)[0])[0];
    let loud_color = foregrounds(&spectrum_lines(&loud, 1, 1, &theme)[0])[0];
    let brightness = |color| match color {
        Color::Rgb(red, green, blue) => u16::from(red) + u16::from(green) + u16::from(blue),
        _ => 0,
    };
    assert!(brightness(loud_color) > brightness(quiet_color));
    assert!(matches!(loud_color, Color::Rgb(..)));
}

#[test]
fn spectrum_gradient_limited_colors_are_theme_safe_and_monochrome_uses_modifiers() {
    let state = lyrics_test_state(timed_test_document(), 1_500);
    let (_, presentation) = spectrum_fixture(&state, 3, 1, &[24, 24, 24]);
    for capability in [ColorCapability::Ansi256, ColorCapability::Basic] {
        let theme = Theme::for_capability(capability);
        let colors = foregrounds(&spectrum_lines(&presentation, 1, 3, &theme)[0]);
        assert_eq!(colors, vec![theme.accent, theme.selection, theme.foreground]);
        assert!(colors
            .iter()
            .all(|color| [theme.accent, theme.selection, theme.foreground].contains(color)));
    }

    let theme = Theme::for_capability(ColorCapability::Monochrome);
    let lines = spectrum_lines(&presentation, 1, 3, &theme);
    let spans = &lines[0].spans;
    assert!(spans.iter().all(|span| span.style.fg.is_none()));
    assert!(spans.iter().all(|span| span.style.bold));
}

#[test]
fn spectrum_missing_and_failed_analysis_render_quiet_baselines() {
    let state = lyrics_test_state(timed_test_document(), 1_500);
    let missing = render_spectrum_presentation(&state, &SpectrumPresentation::quiet(), 140, 40);
    assert!(missing.contains('▁'), "{missing}");

    let key = spectrum_key(&state, 64, 3);
    let mut store = SpectrumFrameStore::new();
    let run = store.request(spectrum_key(&state, 64, 3)).unwrap_or_else(|| panic!("a run"));
    assert!(store.fail(&run));
    let failed = store.presentation(&key);
    assert!(failed.failed());
    let failed_render = render_spectrum_presentation(&state, &failed, 140, 40);
    assert!(failed_render.contains('▁'), "{failed_render}");
    let theme = Theme::default();
    let failed_buffer = render_spectrum_buffer(&state, &failed, 140, 40, &theme);
    assert!(failed_buffer
        .content
        .iter()
        .any(|cell| cell.symbol() == "▁" && cell.fg == paint(theme.muted)));
}

#[test]
fn spectrum_consecutive_frames_change_without_covering_player_content() {
    let state = lyrics_test_state(timed_test_document(), 1_500);
    let key = spectrum_key(&state, 64, 3);
    let mut store = SpectrumFrameStore::new();
    let run = store.request(spectrum_key(&state, 64, 3)).unwrap_or_else(|| panic!("a run"));
    assert!(store.publish(&run, spectrum_frame(vec![2; 64])));
    let artwork = ArtworkPresentation::unavailable();
    let first = render_spectrum_and_artwork(&state, &store.presentation(&key), &artwork, 140, 40);
    let compact_first = render_spectrum_presentation(&state, &store.presentation(&key), 90, 30);
    assert!(store.publish(&run, spectrum_frame(vec![24; 64])));
    let second =
        render_spectrum_and_artwork(&state, &store.presentation(&key), &artwork, 140, 40);
    let compact_second = render_spectrum_presentation(&state, &store.presentation(&key), 90, 30);
    assert_ne!(first, second);
    assert_ne!(compact_first, compact_second);
    for rendered in [&first, &second] {
        for required in [
            "Lyrics render fixture",
            "Artwork",
            "Artwork unavailable",
            "00:01 / 03:00",
            "Target 80%",
            "Shuffle off",
            "[- Loading…]",
            "previous",
            "current",
            "next",
        ] {
            assert!(rendered.contains(required), "missing {required:?}:\n{rendered}");
        }
    }
}

#[test]
fn spectrum_disabled_preserves_the_exact_pre_feature_layout() {
    let mut state = quiet_state();
    state.switches.visualizer = false;
    let baseline = render_plain_model(&state, 140, 40);
    let with_spectrum =
        render_spectrum_presentation(&state, &SpectrumPresentation::quiet(), 140, 40);
    assert_eq!(with_spectrum, baseline);
}

#[test]
fn spectrum_resampling_preserves_peaks_when_narrowing() {
    assert_eq!(resample_spectrum(&[1, 24, 2, 23], 2), vec![24, 23]);
    assert_eq!(resample_spectrum(&[7, 19], 4), vec![7, 7, 19, 19]);
}

#[test]
fn spectrum_resize_keeps_queue_viewport_stable_and_player_visible() {
    let mut state = quiet_state();
    state.queue = queue_of((0..40).map(|index| queue_item(&format!("resize-{index}"))).collect());
    let selected = state.queue.items()[35].id().clone();
    let mut model = RenderModel::default().with_focus(FocusRegion::Queue);
    model.set_queue_selected_id(Some(selected));
    let spectrum = SpectrumPresentation::quiet();
    let mut viewports = ViewportMemory::new();
    let mut show = |width: u16, height: u16| {
        let ops = render_with_model_and_viewports(
            whole(width, height),
            &state,
            &Theme::default(),
            &model,
            RenderEnhancements::new(None, Some(&spectrum), 15),
            &mut viewports,
        );
        drawn(width, height, &ops).backend().to_string()
    };

    let wide = show(140, 40);
    let compact = show(90, 30);
    let wide_again = show(140, 40);

    for rendered in [&wide, &compact, &wide_again] {
        assert!(rendered.contains("▶ Song resize-35"), "{rendered}");
        assert!(rendered.contains("Player · persistent"), "{rendered}");
        assert!(rendered.contains('▁'), "{rendered}");
    }
    assert!(wide.contains("Song resize-6"), "{wide}");
    assert!(compact.contains("Song resize-17"), "{compact}");
    assert!(wide_again.contains("Song resize-16"), "{wide_again}");
    assert!(!wide_again.contains("Song resize-6"), "{wide_again}");
}

#[test]
fn artwork_policy_without_static_url_keeps_fallback_except_for_wide_animation() {
    let state = artwork_policy_state(None);
    let static_store = StillStore { slot: None };
    let size = CellSize::production();
    for layout in [LayoutMode::Wide, LayoutMode::Compact] {
        let presentation = artwork_presentation_from_stores(
            &state,
            still_of(&state, &static_store),
            None,
            size,
            layout,
        );
        assert!(is_unavailable_presentation(presentation.as_ref()), "{layout:?}");
    }
    for layout in [LayoutMode::Wide, LayoutMode::Compact, LayoutMode::Tiny] {
        assert!(
            artwork_presentation_from_stores(&state, None, None, size, layout).is_none(),
            "without a static store there is no fallback panel: {layout:?}"
        );
    }

    let key = animation_key(&state);
    let mut animation = AnimationFrameStore::new();
    assert!(animation.request(key.clone()));
    assert!(animation.publish(&key, solid_animation_frame([220, 20, 20])));
    let shown = |layout| {
        artwork_presentation_from_stores(
            &state,
            still_of(&state, &static_store),
            Some(&animation),
            size,
            layout,
        )
    };
    let wide = shown(LayoutMode::Wide).unwrap_or_else(|| panic!("an animated picture"));
    assert!(presentation_starts_with_rgb(&wide, [220, 20, 20]));
    assert!(is_unavailable_presentation(shown(LayoutMode::Compact).as_ref()));
    assert!(
        shown(LayoutMode::Tiny).is_none(),
        "tiny must return before either observable store presentation"
    );
}

#[test]
fn artwork_policy_missing_or_stale_static_slot_is_secret_safe_fallback() {
    let secret = "SIGNED_ARTWORK_TOKEN_MUST_NOT_LEAK";
    let url = format!("https://art.invalid/policy?signature={secret}");
    let state = artwork_policy_state(Some(url.clone()));
    let stale = StillStore {
        slot: Some((2, url, ArtworkPresentation::Grid(solid_animation_frame([20, 20, 220])))),
    };
    for store in [StillStore { slot: None }, stale] {
        for layout in [LayoutMode::Wide, LayoutMode::Compact] {
            let presentation = artwork_presentation_from_stores(
                &state,
                still_of(&state, &store),
                None,
                CellSize::production(),
                layout,
            );
            assert!(is_unavailable_presentation(presentation.as_ref()), "{layout:?}");
            assert!(!format!("{presentation:?}").contains(secret));
        }
    }
}

#[test]
fn animation_store_latest_frame_changes_wide_artwork_without_covering_player_or_lyrics() {
    let state = playing_test_state(lyrics_test_state(timed_test_document(), 1_500));
    let key = animation_key(&state);
    let mut store = AnimationFrameStore::new();
    let static_store = static_artwork_store(&state, [20, 180, 20]);
    assert!(store.request(key.clone()));

    assert!(store.publish(&key, solid_animation_frame([220, 20, 20])));
    let first_render = render_animation_store_frame(&state, &static_store, &store, 140, 40);

    assert!(store.publish(&key, solid_animation_frame([20, 20, 220])));
    let second_render = render_animation_store_frame(&state, &static_store, &store, 140, 40);

    assert_ne!(first_render, second_render, "consecutive frames must redraw");
    for rendered in [&first_render, &second_render] {
        assert!(rendered.contains("[Space Pause]"), "{rendered}");
        assert!(rendered.contains("current"), "{rendered}");
    }
}

#[test]
fn animation_is_wide_only_and_pause_retains_the_current_frame() {
    let state = playing_test_state(lyrics_test_state(timed_test_document(), 1_500));
    let key = animation_key(&state);
    let mut store = AnimationFrameStore::new();
    let static_store = static_artwork_store(&state, [20, 180, 20]);
    assert!(store.request(key.clone()));
    assert!(store.publish(&key, solid_animation_frame([120, 30, 10])));

    let wide_before = render_animation_store_frame(&state, &static_store, &store, 140, 40);
    let compact_before = render_animation_store_frame(&state, &static_store, &store, 90, 30);
    let tiny_before = render_animation_store_frame(&state, &static_store, &store, 40, 12);
    assert!(store.publish(&key, solid_animation_frame([10, 30, 120])));
    let wide_after = render_animation_store_frame(&state, &static_store, &store, 140, 40);
    let compact_after = render_animation_store_frame(&state, &static_store, &store, 90, 30);
    let tiny_after = render_animation_store_frame(&state, &static_store, &store, 40, 12);

    assert_ne!(wide_before, wide_after);
    assert_eq!(compact_before, compact_after);
    assert_eq!(tiny_before, tiny_after);
    assert!(store.pause(&key));
    assert!(!store.publish(&key, solid_animation_frame([180, 180, 10])));
    let paused_state = paused_test_state(state);
    let wide_paused =
        render_animation_store_frame(&paused_state, &static_store, &store, 140, 40);

    assert!(wide_after.contains("Rgb(10, 30, 120)"), "{wide_after}");
    assert!(wide_paused.contains("Rgb(10, 30, 120)"), "{wide_paused}");
    assert!(!wide_paused.contains("Rgb(20, 180, 20)"), "{wide_paused}");
    assert!(compact_after.contains("Rgb(20, 180, 20)"), "{compact_after}");
    assert!(!tiny_after.contains("Rgb(20, 180, 20)"), "{tiny_after}");
    assert!(!tiny_after.contains("Rgb(10, 30, 120)"), "{tiny_after}");
    assert!(compact_after.contains("current"), "{compact_after}");
    assert!(tiny_after.contains("Lyrics render fixture"), "{tiny_after}");
}

#[test]
fn compact_artwork_is_bounded_without_starving_content_or_queue() {
    let state = lyrics_test_state(timed_test_document(), 1_500);
    let artwork = ArtworkPresentation::Grid(solid_animation_frame([20, 180, 20]));

    for panel in [CompactPanel::Content, CompactPanel::Queue] {
        let model = RenderModel { compact_panel: panel, ..RenderModel::default() };
        let ops = render_with_model_and_artwork(
            whole(60, 18),
            &state,
            &Theme::default(),
            &model,
            &artwork,
        );
        let terminal = drawn(60, 18, &ops);
        let first_artwork_column = (0..60)
            .find(|&x| {
                (0..18).any(|y| {
                    terminal
                        .backend()
                        .buffer()
                        .cell((x, y))
                        .is_some_and(|cell| cell.fg == Paint::Rgb(20, 180, 20))
                })
            })
            .unwrap_or_else(|| panic!("compact artwork pixels"));
        let rendered = terminal.backend().to_string();
        assert!(
            first_artwork_column >= 47,
            "compact artwork must preserve at least 44 content columns:\n{rendered}"
        );
        match panel {
            CompactPanel::Content => {
                assert!(rendered.contains("Lyrics render fixture"), "{rendered}");
            }
            CompactPanel::Queue => {
                assert!(rendered.contains("Queue"), "{rendered}");
            }
        }
    }
}

#[test]
fn tiny_layout_ignores_every_artwork_presentation() {
    let state = lyrics_test_state(timed_test_document(), 1_500);
    let artwork = ArtworkPresentation::Grid(solid_animation_frame([20, 180, 20]));
    let baseline = drawn(
        40,
        12,
        &render_with_model(whole(40, 12), &state, &Theme::default(), &RenderModel::default()),
    );
    let candidate = drawn(
        40,
        12,
        &render_with_model_and_artwork(
            whole(40, 12),
            &state,
            &Theme::default(),
            &RenderModel::default(),
            &artwork,
        ),
    );

    assert_eq!(candidate.backend().buffer(), baseline.backend().buffer());
    assert!(!candidate.backend().to_string().contains('▀'));
}

#[test]
fn missing_or_failed_animation_uses_the_existing_static_fallback() {
    let state = lyrics_test_state(timed_test_document(), 1_500);
    let key = animation_key(&state);
    let mut store = AnimationFrameStore::new();
    let static_store = static_artwork_store(&state, [20, 180, 20]);
    assert!(store.request(key.clone()));
    let static_presentation = static_store
        .found(1, requested_url(&state))
        .unwrap_or_else(|| panic!("static artwork fixture must be published"));
    for (width, height) in [(140, 40), (90, 30), (40, 12)] {
        let expected_static =
            render_artwork_presentation(&state, &static_presentation, width, height);
        let missing = render_animation_store_frame(&state, &static_store, &store, width, height);
        assert_eq!(missing, expected_static);
        assert!(!missing.contains("Artwork unavailable"), "{missing}");
        assert_eq!(
            missing.contains("Rgb(20, 180, 20)"),
            LayoutMode::from_dimensions(width, height) != LayoutMode::Tiny,
            "{missing}"
        );
    }
    assert!(store.fail(&key));
    for (width, height) in [(140, 40), (90, 30), (40, 12)] {
        let expected_static =
            render_artwork_presentation(&state, &static_presentation, width, height);
        let failed = render_animation_store_frame(&state, &static_store, &store, width, height);
        assert_eq!(failed, expected_static);
        assert_eq!(
            failed.contains("Rgb(20, 180, 20)"),
            LayoutMode::from_dimensions(width, height) != LayoutMode::Tiny,
            "{failed}"
        );
    }
}

#[test]
fn wide_artwork_rejects_disabled_and_stale_animation_frames() {
    let mut disabled = playing_test_state(lyrics_test_state(timed_test_document(), 1_500));
    disabled.switches.animated_artwork = false;
    let key = animation_key(&disabled);
    let mut animation = AnimationFrameStore::new();
    assert!(animation.request(key.clone()));
    assert!(animation.publish(&key, solid_animation_frame([220, 20, 20])));
    let static_store = static_artwork_store(&disabled, [20, 180, 20]);
    let disabled_presentation = artwork_presentation_from_stores(
        &disabled,
        still_of(&disabled, &static_store),
        Some(&animation),
        CellSize::production(),
        LayoutMode::Wide,
    )
    .unwrap_or_else(|| panic!("disabled static presentation"));
    assert!(presentation_starts_with_rgb(&disabled_presentation, [20, 180, 20]));

    let enabled = playing_test_state(lyrics_test_state(timed_test_document(), 1_500));
    let current = animation_key(&enabled);
    let stale_key = AnimationKey::new(
        Generation::new(current.generation().value() + 1),
        current.media_id().clone(),
        CellSize::production(),
    );
    let mut stale = AnimationFrameStore::new();
    assert!(stale.request(stale_key.clone()));
    assert!(stale.publish(&stale_key, solid_animation_frame([20, 20, 220])));
    let enabled_static = static_artwork_store(&enabled, [20, 180, 20]);
    let stale_presentation = artwork_presentation_from_stores(
        &enabled,
        still_of(&enabled, &enabled_static),
        Some(&stale),
        CellSize::production(),
        LayoutMode::Wide,
    )
    .unwrap_or_else(|| panic!("stale static presentation"));
    assert!(presentation_starts_with_rgb(&stale_presentation, [20, 180, 20]));
}

#[test]
fn lyrics_player_lines_show_synced_context_by_layout_and_accent_current() {
    let state = lyrics_test_state(timed_test_document(), 1_500);
    let theme = Theme::default();
    let wide = automatic_lyrics_lines(&state, 3, 80, &theme);
    assert_eq!(line_text(&wide), "previous\ncurrent\nnext");
    assert_eq!(wide[1].spans[0].style.fg, Some(theme.accent));

    let compact = automatic_lyrics_lines(&state, 1, 40, &theme);
    assert_eq!(line_text(&compact), "current");
    assert_eq!(compact[0].spans[0].style.fg, Some(theme.accent));

    let tiny = automatic_lyrics_lines(&state, 1, 8, &theme);
    assert_eq!(line_text(&tiny), "current");
    assert!(automatic_lyrics_lines(&state, 0, 8, &theme).is_empty());
}

fn lyrics_at(lines: Vec<Timed>, position_ms: u64, theme: &Theme) -> Vec<Line> {
    automatic_lyrics_lines(&lyrics_test_state(lines, position_ms), 3, 80, theme)
}

fn style_of(line: &Line) -> Style {
    line.spans[0].style
}

#[test]
fn lyric_fade_true_color_has_exact_start_midpoint_and_settled_boundaries() {
    let theme = Theme::for_capability(ColorCapability::TrueColor);
    let at_start = lyrics_at(timed_test_document(), 1_000, &theme);
    let at_midpoint = lyrics_at(timed_test_document(), 1_200, &theme);
    let settled = lyrics_at(timed_test_document(), 1_400, &theme);

    for lines in [&at_start, &at_midpoint, &settled] {
        assert_eq!(lines.len(), 3);
        assert_eq!(line_text(lines), "previous\ncurrent\nnext");
    }
    assert_eq!(style_of(&at_start[0]).fg, Some(theme.accent));
    assert_eq!(style_of(&at_start[1]).fg, Some(theme.muted));
    assert!(style_of(&at_start[0]).bold);
    assert!(!style_of(&at_start[1]).bold);
    assert_eq!(style_of(&at_midpoint[0]).fg, Some(Color::Rgb(113, 176, 206)));
    assert_eq!(style_of(&at_midpoint[1]).fg, Some(Color::Rgb(113, 176, 206)));
    assert!(style_of(&at_midpoint[1]).bold);
    assert_eq!(style_of(&settled[0]).fg, Some(theme.muted));
    assert_eq!(style_of(&settled[1]).fg, Some(theme.accent));
}

#[test]
fn lyric_fade_short_lines_and_open_final_line_remain_bounded() {
    let document = || {
        vec![
            timed(0, Some(100), "zero"),
            timed(100, Some(200), "one"),
            timed(200, None, "two"),
        ]
    };
    let theme = Theme::default();
    let midpoint = lyrics_at(document(), 125, &theme);
    let settled = lyrics_at(document(), 150, &theme);
    let final_start = lyrics_at(document(), 200, &theme);
    let final_settled = lyrics_at(document(), 250, &theme);

    assert_eq!(line_text(&midpoint), "zero\none\ntwo");
    assert_eq!(line_text(&settled), "zero\none\ntwo");
    assert_eq!(line_text(&final_start), "zero\none\ntwo");
    assert_eq!(line_text(&final_settled), "zero\none\ntwo");
    assert_eq!(style_of(&midpoint[0]).fg, style_of(&midpoint[1]).fg);
    assert_eq!(style_of(&settled[1]).fg, Some(theme.accent));
    assert_eq!(style_of(&final_start[1]).fg, Some(theme.accent));
    assert_eq!(style_of(&final_start[2]).fg, Some(theme.muted));
    assert_eq!(style_of(&final_settled[2]).fg, Some(theme.accent));
}

#[test]
fn lyric_fade_limited_and_monochrome_styles_are_capability_safe() {
    for capability in [ColorCapability::Ansi256, ColorCapability::Basic] {
        let theme = Theme::for_capability(capability);
        let start = lyrics_at(timed_test_document(), 1_000, &theme);
        let midpoint = lyrics_at(timed_test_document(), 1_200, &theme);
        let settled = lyrics_at(timed_test_document(), 1_400, &theme);
        assert_eq!(style_of(&start[0]).fg, Some(theme.accent));
        assert_eq!(style_of(&start[1]).fg, Some(theme.muted));
        assert_eq!(style_of(&midpoint[0]).fg, Some(theme.selection));
        assert_eq!(style_of(&midpoint[1]).fg, Some(theme.selection));
        assert_eq!(style_of(&settled[1]).fg, Some(theme.accent));
    }

    let theme = Theme::for_capability(ColorCapability::Monochrome);
    let start = lyrics_at(timed_test_document(), 1_000, &theme);
    let midpoint = lyrics_at(timed_test_document(), 1_200, &theme);
    assert!(start.iter().all(|line| style_of(line).fg.is_none()));
    assert!(midpoint.iter().all(|line| style_of(line).fg.is_none()));
    assert!(style_of(&start[0]).bold);
    assert!(style_of(&midpoint[1]).bold);
}

#[test]
fn lyric_fade_gap_never_reaccents_the_ended_previous_line() {
    let document = vec![
        timed(0, Some(40), "ended"),
        timed(100, Some(200), "incoming"),
        timed(200, None, "next"),
    ];
    let theme = Theme::default();
    let lines = lyrics_at(document, 100, &theme);

    assert_eq!(line_text(&lines), "ended\nincoming\nnext");
    assert_eq!(style_of(&lines[0]).fg, Some(theme.muted));
    assert!(!style_of(&lines[0]).bold);
    assert_eq!(style_of(&lines[1]).fg, Some(theme.muted));
}

#[test]
fn lyric_fade_limited_colors_have_three_inverse_progress_stages() {
    for capability in [ColorCapability::Ansi256, ColorCapability::Basic] {
        let theme = Theme::for_capability(capability);
        let stages = [1_100, 1_200, 1_300]
            .map(|position| lyrics_at(timed_test_document(), position, &theme));
        let incoming: Vec<Style> = stages.iter().map(|lines| style_of(&lines[1])).collect();
        let outgoing: Vec<Style> = stages.iter().map(|lines| style_of(&lines[0])).collect();

        assert_eq!(incoming[0].fg, Some(theme.muted));
        assert_eq!(incoming[1].fg, Some(theme.selection));
        assert_eq!(incoming[2].fg, Some(theme.accent));
        assert_eq!(outgoing[0].fg, Some(theme.accent));
        assert_eq!(outgoing[1].fg, Some(theme.selection));
        assert_eq!(outgoing[2].fg, Some(theme.muted));
        assert!(incoming[0].dim);
        assert!(incoming[1].bold);
        assert!(incoming[2].bold);
        assert!(outgoing[0].bold);
        assert!(!outgoing[1].bold);
        assert!(outgoing[2].dim);
        assert!(incoming.windows(2).all(|pair| pair[0] != pair[1]));
        assert!(outgoing.windows(2).all(|pair| pair[0] != pair[1]));
        assert!(incoming
            .iter()
            .chain(outgoing.iter())
            .filter_map(|style| style.fg)
            .all(|color| [theme.muted, theme.selection, theme.accent].contains(&color)));
    }
}

#[test]
fn lyric_fade_is_position_derived_for_pause_and_seeks_without_layout_movement() {
    let theme = Theme::default();
    let playing = playing_test_state(lyrics_test_state(timed_test_document(), 1_100));
    let playing_lines = automatic_lyrics_lines(&playing, 3, 80, &theme);
    let paused_lines = automatic_lyrics_lines(&paused_test_state(playing), 3, 80, &theme);
    assert_eq!(playing_lines, paused_lines);

    let backward = playing_lines;
    let forward = lyrics_at(timed_test_document(), 2_100, &theme);
    let backward_again = lyrics_at(timed_test_document(), 1_100, &theme);
    assert_eq!(backward_again, backward);
    assert_ne!(forward, backward);
    assert_eq!(line_text(&backward), "previous\ncurrent\nnext");
    assert_eq!(line_text(&forward), "previous\ncurrent\nnext");

    for width in [40, 8] {
        for position in [1_000, 1_200] {
            let state = lyrics_test_state(timed_test_document(), position);
            let lines = automatic_lyrics_lines(&state, 1, width, &theme);
            assert_eq!(lines.len(), 1);
            assert_eq!(line_text(&lines), "current");
        }
    }
}

#[test]
fn lyrics_compact_player_renders_the_automatic_current_line() {
    let state = lyrics_test_state(timed_test_document(), 1_500);
    let rendered = render_plain_model(&state, 90, 30);
    assert!(rendered.contains("current"), "{rendered}");
}

fn last_line(rendered: &str) -> &str {
    rendered.lines().last().unwrap_or_default().trim_matches('"')
}

#[test]
fn lyrics_tiny_player_renders_the_current_line_with_timestamp_style_when_roomy() {
    let state = playing_test_state(lyrics_test_state(timed_test_document(), 1_200));
    let theme = Theme::for_capability(ColorCapability::TrueColor);
    let ops = render_with_model(whole(59, 17), &state, &theme, &RenderModel::default());
    let terminal = drawn(59, 17, &ops);

    let rendered = terminal.backend().to_string();
    let player = last_line(&rendered);
    assert!(player.contains("current"), "{rendered}");
    for required in ["❚❚", "[p]", "[←]", "[Spc]", "[→]", "[n]"] {
        assert!(player.contains(required), "missing `{required}`: {player}");
    }
    let (lyric_column, _) = tiny_player_layout(&state, 59).identity;
    let expected =
        lyric_transition_style(&theme, 1, 1, Some(transition_at(&timed_test_document(), 1, 1_200)));
    let cell = terminal
        .backend()
        .buffer()
        .cell((lyric_column, 16))
        .unwrap_or_else(|| panic!("tiny lyric cell missing"));
    assert_eq!(cell.symbol(), "c");
    assert_eq!(cell.fg, paint(expected.fg.unwrap_or(theme.foreground)));
    assert_eq!(cell.modifier, modifiers(expected));
}

#[test]
fn lyrics_tiny_player_resets_transition_style_across_reused_terminal_frames() {
    for capability in [ColorCapability::TrueColor, ColorCapability::Monochrome] {
        let theme = Theme::for_capability(capability);
        let mut terminal = terminal(59, 17);
        let expectations = match capability {
            ColorCapability::TrueColor => [
                (1_000, paint(theme.muted), Modifier::empty()),
                (1_200, Paint::Rgb(113, 176, 206), Modifier::BOLD),
                (1_400, paint(theme.accent), Modifier::BOLD),
            ],
            ColorCapability::Monochrome => [
                (1_000, Paint::Reset, Modifier::DIM),
                (1_200, Paint::Reset, Modifier::BOLD),
                (1_400, Paint::Reset, Modifier::BOLD),
            ],
            ColorCapability::Ansi256 | ColorCapability::Basic => unreachable!(),
        };
        for (position_ms, expected_foreground, expected_modifier) in expectations {
            let state =
                playing_test_state(lyrics_test_state(timed_test_document(), position_ms));
            let layout = tiny_player_layout(&state, 59);
            let (lyric_offset, lyric_width) = layout.identity;
            assert!(lyric_width >= TINY_LYRICS_MIN_IDENTITY_WIDTH);
            let next_offset = layout
                .controls
                .iter()
                .find(|control| control.action == SemanticAction::NextTrack)
                .map(|control| control.offset)
                .unwrap_or_else(|| panic!("tiny next control missing"));

            let ops = render_with_model(whole(59, 17), &state, &theme, &RenderModel::default());
            draw(&mut terminal, &ops);

            let buffer = terminal.backend().buffer();
            let cell_at = |column: u16| {
                buffer.cell((column, 16)).unwrap_or_else(|| panic!("a cell of the player"))
            };
            for column in lyric_offset..lyric_offset + cell_width("current") {
                let cell = cell_at(column);
                assert_eq!(
                    cell.fg, expected_foreground,
                    "{capability:?} at {position_ms}ms, column {column}"
                );
                assert_eq!(
                    cell.bg,
                    paint(theme.background),
                    "{capability:?} at {position_ms}ms, column {column}"
                );
                assert_eq!(
                    cell.modifier, expected_modifier,
                    "{capability:?} at {position_ms}ms, column {column}"
                );
            }
            let trailing = cell_at(lyric_offset + (lyric_width - 1));
            assert_eq!(trailing.fg, paint(theme.foreground));
            assert_eq!(trailing.bg, paint(theme.background));
            assert_eq!(trailing.modifier, Modifier::empty());

            for column in [0, next_offset] {
                let cell = cell_at(column);
                assert_eq!(cell.fg, paint(theme.foreground));
                assert_eq!(cell.bg, paint(theme.background));
                assert_eq!(cell.modifier, Modifier::BOLD);
            }
        }
    }
}

#[test]
fn lyrics_tiny_player_keeps_the_player_fallback_when_lyric_budget_is_too_small() {
    let state = playing_test_state(lyrics_test_state(timed_test_document(), 1_200));
    let rendered = render_plain_model(&state, 49, 17);
    let player = last_line(&rendered);
    assert!(!player.contains("current"), "{player}");
    assert!(player.contains("❚❚"), "{player}");
    assert!(player.contains("0:01/3:00"), "{player}");
    for required in ["[p]", "[←]", "[Spc]", "[→]", "[n]"] {
        assert!(player.contains(required), "missing `{required}`: {player}");
    }

    let narrow = render_plain_model(&state, 20, 8);
    let narrow_player = last_line(&narrow);
    assert!(!narrow_player.contains("current"), "{narrow_player}");
    assert!(narrow_player.contains("❚❚"), "{narrow_player}");
    assert!(usize::from(cell_width(narrow_player)) <= 20);
}

#[test]
fn lyrics_tiny_player_uses_paused_and_seek_positions_and_normalized_text() {
    let normalized = || {
        vec![
            timed(0, Some(1_000), "old"),
            timed(1_000, Some(2_000), "safe\r\n\t\u{1b}\u{7}lyric"),
            timed(2_000, None, "sought"),
        ]
    };
    let paused = paused_test_state(lyrics_test_state(normalized(), 1_200));
    let paused_render = render_plain_model(&paused, 59, 17);
    assert!(paused_render.contains("safe  lyric"), "{paused_render}");
    assert!(!paused_render.chars().any(|character| {
        character.is_control() && character != '\n' && character != '\r'
    }));

    let sought = paused_test_state(lyrics_test_state(normalized(), 2_100));
    let sought_render = render_plain_model(&sought, 59, 17);
    assert!(sought_render.contains("sought"), "{sought_render}");
    assert!(!sought_render.contains("safe  lyric"), "{sought_render}");
}

fn plain_document(source: LyricsSource, text: &str) -> LyricsDocument {
    LyricsDocument {
        source,
        instrumental: false,
        timed: Vec::new(),
        plain: Some(text.to_owned()),
    }
}

#[test]
fn lyrics_plain_text_is_overlay_only_and_statuses_are_safe() {
    let theme = Theme::default();
    let plain_state = other_lyrics_state(Some(plain_document(
        LyricsSource::YouTubeMusic,
        "plain first\nplain second",
    )));
    assert!(automatic_lyrics_lines(&plain_state, 3, 80, &theme).is_empty());
    let model = LyricsOverlayState::default();
    assert_eq!(
        line_text(&lyrics_overlay_lines(&plain_state, &model, 4, 20, &theme)),
        "Source: YouTube Music\nplain first\nplain second"
    );

    let instrumental = LyricsDocument {
        source: LyricsSource::Lrclib,
        instrumental: true,
        timed: Vec::new(),
        plain: None,
    };
    assert_eq!(
        line_text(&lyrics_overlay_lines(
            &other_lyrics_state(Some(instrumental)),
            &model,
            3,
            40,
            &theme
        )),
        "Source: LRCLIB\nInstrumental"
    );
    let mut loading = other_lyrics_state(None);
    loading.lyrics.loading = true;
    assert_eq!(
        line_text(&lyrics_overlay_lines(&loading, &model, 3, 40, &theme)),
        "⠋ Loading lyrics…"
    );
    assert_eq!(
        line_text(&lyrics_overlay_lines(&other_lyrics_state(None), &model, 3, 40, &theme)),
        "Lyrics unavailable"
    );

    let manual = LyricsOverlayState {
        follow_active: false,
        selected_line: Some(1),
        scroll: 1,
        media_key: None,
        plain_max_scroll: 1,
    };
    assert_eq!(
        line_text(&lyrics_overlay_lines(&plain_state, &manual, 2, 20, &theme)),
        "Source: YouTube Music\nplain second"
    );

    let wrapped =
        other_lyrics_state(Some(plain_document(LyricsSource::YouTubeMusic, "abcdefghij")));
    assert_eq!(
        line_text(&lyrics_overlay_lines(&wrapped, &manual, 2, 5, &theme)),
        "Source: YouTube Music\nfghij"
    );
}

#[test]
fn lyric_wrapping_sanitizes_controls_and_keeps_row_count_exact() {
    let text = "a\r\nb\rc\td\x1b[31mE\x07🙂\u{0301}אב\u{0085}z";

    for width in [0, 1, 2, 4, 80] {
        let lines = wrap_lyrics_text(text, 0, usize::MAX, width);
        assert_eq!(
            wrapped_lyrics_row_count(text, width),
            lines.len(),
            "row count diverged from wrapping at width {width}"
        );
        let rendered = line_text(&lines);
        assert!(rendered
            .chars()
            .all(|character| character == '\n' || !character.is_control()));
    }

    assert_eq!(
        line_text(&wrap_lyrics_text(text, 0, usize::MAX, 80)),
        "a\nb\nc d[31mE🙂\u{0301}אבz"
    );
}

#[test]
fn lyric_wrapping_never_measures_controls_and_count_matches_output() {
    for width in 0_usize..=12 {
        for first in [0_u8, 7, 10, 13, 27, 0x41, 0x7f, 0x85] {
            let mut text = String::from("é\u{0301}🙂אב");
            text.extend((0_u8..64).map(|step| char::from(first.wrapping_add(step * 5) % 0xa0)));
            text.push_str("終わり");

            let lines = wrap_lyrics_text(&text, 0, usize::MAX, width);
            assert_eq!(wrapped_lyrics_row_count(&text, width), lines.len());
            for line in lines {
                assert!(!line.text().chars().any(char::is_control));
            }
        }
    }
}

#[test]
fn lyrics_overlay_attributes_both_sources_without_leaking_into_player() {
    let theme = Theme::default();
    for (source, expected) in [
        (LyricsSource::YouTubeMusic, "Source: YouTube Music"),
        (LyricsSource::Lrclib, "Source: LRCLIB"),
    ] {
        let state = other_lyrics_state(Some(plain_document(source, "attributed lyric")));
        let overlay =
            lyrics_overlay_lines(&state, &LyricsOverlayState::default(), 2, 24, &theme);
        assert_eq!(line_text(&overlay), format!("{expected}\nattributed lyric"));
        assert!(automatic_lyrics_lines(&state, 3, 80, &theme).is_empty());
    }

    assert_eq!(
        lyrics_overlay_viewport(Rect::new(0, 0, 20, 6)),
        Some((1, 16)),
        "one of the two inner rows is reserved for source attribution"
    );
}

#[test]
fn lyrics_manual_viewport_stays_stable_and_follow_recenters_after_resize() {
    let theme = Theme::default();
    let mut manual = LyricsOverlayState {
        follow_active: false,
        selected_line: Some(1),
        scroll: 1,
        media_key: None,
        plain_max_scroll: 0,
    };
    let early = lyrics_test_state(long_timed_test_document(), 1_500);
    let late = lyrics_test_state(long_timed_test_document(), 7_500);
    let early_lines = lyrics_overlay_lines(&early, &manual, 3, 30, &theme);
    let late_lines = lyrics_overlay_lines(&late, &manual, 3, 30, &theme);
    assert_eq!(line_text(&early_lines), line_text(&late_lines));

    manual.follow_active = true;
    let recentered = lyrics_overlay_lines(&late, &manual, 3, 30, &theme);
    assert!(line_text(&recentered).contains("line-7"));
    let resized = lyrics_overlay_lines(&late, &manual, 2, 12, &theme);
    assert_eq!(line_text(&resized), "Source: LRCLIB\n▶ line-7");
}

#[test]
fn selection_motion_glides_across_manual_timed_lyrics_rows() {
    let theme = Theme::default();
    let state = lyrics_test_state(long_timed_test_document(), 1_500);
    let mut overlay = LyricsOverlayState {
        follow_active: false,
        selected_line: Some(1),
        scroll: 1,
        media_key: None,
        plain_max_scroll: 0,
    };
    let mut memory = ViewportMemory::new();
    memory.begin_selection_frame(Rect::new(0, 0, 80, 24), 0);
    let _ =
        lyrics_overlay_lines_with_motion(&state, &overlay, 5, 30, &theme, 0, &mut memory, 0);
    memory.end_selection_frame();

    overlay.selected_line = Some(2);
    memory.begin_selection_frame(Rect::new(0, 0, 80, 24), 1);
    let moving =
        lyrics_overlay_lines_with_motion(&state, &overlay, 5, 30, &theme, 0, &mut memory, 1);
    memory.end_selection_frame();
    let moving = line_text(&moving);
    assert!(moving.contains("▶ line-1"), "{moving}");
    assert!(moving.contains("● line-2"), "{moving}");
}

#[test]
fn tiny_terminal_budget_keeps_deep_search_selection_visible() {
    let mut state = quiet_state();
    state.search.query = "tiny".to_owned();
    state.search.filter = SearchFilter::Songs;
    state.search.items = (0..20)
        .map(|index| SearchEntry {
            stable_id: format!("tiny-visible-{index}"),
            kind: SearchEntryKind::Playable(
                queue_item(&format!("tiny-visible-{index}")).media().clone(),
            ),
        })
        .collect();
    state.search.selected_id = Some("tiny-visible-19".to_owned());
    let model = RenderModel::default().with_view(NavigationItem::Search);

    let ops = render_with_model(whole(40, 10), &state, &Theme::default(), &model);
    let rendered = drawn(40, 10, &ops).backend().to_string();

    assert!(rendered.contains("▶ Song tiny-visible-19"), "{rendered}");
}

fn assert_seeded_active_queue_order(width: u16, height: u16) {
    let mut queue = queue_of(["a", "b", "c", "d"].into_iter().map(queue_item).collect());
    assert!(queue.select(&QueueItemId::from("c")).is_ok());
    queue.set_shuffle(true, 13);
    assert!(queue.move_before(&QueueItemId::from("d"), &QueueItemId::from("a")).is_ok());

    let logical =
        queue.items().iter().map(|item| item.id().as_str().to_owned()).collect::<Vec<_>>();
    let active = queue
        .active_items()
        .into_iter()
        .map(|item| item.id().as_str().to_owned())
        .collect::<Vec<_>>();
    assert_ne!(logical, active);
    assert_eq!(active.first().map(String::as_str), Some("c"));

    let theme = Theme::for_capability(ColorCapability::TrueColor);
    let model = RenderModel::default().with_focus(FocusRegion::Queue);
    let effective = effective_for_layout(&model, LayoutMode::Wide);
    let mut state = quiet_state();
    state.queue = queue;
    let mut canvas = Canvas {
        ops: Vec::new(),
        memory: ViewportMemory::new(),
        interactions: InteractionMap::new(),
    };
    render_queue(&mut canvas, whole(width, height), &state, &theme, &effective);
    let rendered = drawn(width, height, &canvas.ops).backend().to_string();

    let mut previous = None;
    for id in active {
        let needle = format!("Song {id}");
        let position =
            rendered.find(&needle).unwrap_or_else(|| panic!("missing queue row `{needle}`"));
        if let Some(previous) = previous {
            assert!(
                previous < position,
                "queue rows must follow active playback order:\n{rendered}"
            );
        }
        previous = Some(position);
    }
    assert!(
        rendered.lines().nth(1).is_some_and(|line| line.contains("▶ Song c")),
        "the current active item must be marked on the first row:\n{rendered}"
    );
}

#[test]
fn wide_queue_pane_renders_seeded_active_order() {
    assert_seeded_active_queue_order(34, 35);
}

#[test]
fn compact_queue_pane_renders_seeded_active_order() {
    assert_seeded_active_queue_order(90, 23);
}

#[test]
fn mouse_progress_bar_requires_two_borderless_cells() {
    let state = other_lyrics_state(None);
    assert_eq!(progress_bar_line(&state, 1, &state.progress, &Theme::default()).text(), "");
    assert_eq!(progress_bar_line(&state, 2, &state.progress, &Theme::default()).text(), "░░");
}

#[test]
fn progress_bars_are_filled_by_eighths() {
    let mut state = other_lyrics_state(None);
    state.progress = progress_at(50_625, 180_000);
    assert_eq!(progress_bar_line(&state, 4, &state.progress, &Theme::default()).text(), "█▏░░");
    state.playback.duration_ms = None;
    assert_eq!(progress_bar_line(&state, 4, &state.progress, &Theme::default()).text(), "────");
}

fn pending_podcast_player_state() -> AppState {
    let song = song("outgoing-player-song", MediaKind::Song, "Outgoing Song", "Outgoing Artist");
    let podcast = MediaItem {
        id: MediaId {
            provider: "youtube-music".to_owned(),
            video_id: "pending-player-podcast".to_owned(),
        },
        kind: MediaKind::PodcastEpisode,
        title: "Pending Podcast".to_owned(),
        creators: vec!["Pending Host".to_owned()],
        collection: None,
        duration_ms: Some(240_000),
        artwork_url: None,
        explicit: false,
    };
    let mut state = quiet_state();
    state.playback.status = PlaybackStatus::Resolving;
    state.playback.current = Some(song.id.clone());
    state.current_attempt_generation = Some(Generation::new(2));
    let pending = stable_queue_item_id(&podcast.id);
    state.queue = queue_of(vec![
        QueueItem::new(stable_queue_item_id(&song.id), song),
        QueueItem::new(pending.clone(), podcast),
    ]);
    assert!(state.queue.select(&pending).is_ok());
    state
}

fn full_player_text(state: &AppState, width: usize) -> String {
    let controls = player_control_line(state, false, width, &state.progress);
    line_text(&player_lines(state, false, width, &Theme::default(), None, controls))
}

#[test]
fn normal_player_keeps_playback_identity_while_podcast_progress_is_pending() {
    let rendered = full_player_text(&pending_podcast_player_state(), 120);

    assert!(rendered.contains("Outgoing Song — Outgoing Artist"));
    assert!(!rendered.contains("Pending Podcast"));
    assert!(!rendered.contains("Pending Host"));
    assert!(!rendered.contains("Speed"));
}

#[test]
fn tiny_player_keeps_playback_identity_while_podcast_progress_is_pending() {
    let rendered = tiny_player_layout(&pending_podcast_player_state(), 120).text;

    assert!(rendered.contains("Outgoing Song/Outgoing Artist"));
    assert!(!rendered.contains("Pending Podcast"));
    assert!(!rendered.contains("Pending Host"));
    assert!(!rendered.contains("x1.0"));
}

#[test]
fn players_keep_nothing_playing_fallback_without_a_playback_identity() {
    let state = quiet_state();

    assert!(full_player_text(&state, 80).contains("Nothing playing"));
    assert!(tiny_player_layout(&state, 80).text.contains("Nothing playing"));
}

#[test]
fn effective_layout_model_borrows_palette_storage() {
    let model = RenderModel::default()
        .with_palette_query(&"q".repeat(2 * 1024 * 1024))
        .with_focus(FocusRegion::Queue)
        .toggle_compact_panel();

    let effective = effective_for_layout(&model, LayoutMode::Tiny);

    assert!(std::ptr::eq(&effective.model.palette, &model.palette));
    assert_eq!(effective.model.view, model.view);
    assert_eq!(effective.model.overlay, model.overlay);
    assert_eq!(effective.focus, FocusRegion::Content);
    assert_eq!(effective.compact_panel, CompactPanel::Content);
}

fn area_of_op(op: &DrawOp) -> Rect {
    match op {
        DrawOp::Fill { area, .. }
        | DrawOp::Clear { area }
        | DrawOp::Panel { area, .. }
        | DrawOp::Text { area, .. }
        | DrawOp::Artwork { area, .. } => *area,
    }
}

fn lies_in(inner: Rect, outer: Rect) -> bool {
    inner.x >= outer.x
        && inner.y >= outer.y
        && inner.x + inner.width <= outer.x + outer.width
        && inner.y + inner.height <= outer.y + outer.height
}

#[test]
fn panels_fill_the_screen_without_overlapping() {
    for (width, height) in [(140, 40), (120, 32), (60, 18), (90, 30), (119, 31)] {
        let state = lyrics_test_state(timed_test_document(), 1_500);
        let ops = render(whole(width, height), &state, &Theme::default());
        let panels: Vec<Rect> = ops
            .iter()
            .filter(|op| !matches!(op, DrawOp::Fill { .. }))
            .map(area_of_op)
            .collect();
        for row in 0..height {
            for column in 0..width {
                let cell = Rect::new(column, row, 1, 1);
                assert_eq!(
                    panels.iter().filter(|panel| lies_in(cell, **panel)).count(),
                    1,
                    "cell {column},{row} of {width}x{height}"
                );
            }
        }
    }
}

#[test]
fn everything_lies_on_the_screen() {
    let state = lyrics_test_state(timed_test_document(), 1_500);
    let artwork = ArtworkPresentation::unavailable();
    let spectrum = SpectrumPresentation::quiet();
    for (width, height) in [(140, 40), (90, 30), (40, 12)] {
        for overlay in [Overlay::Help, Overlay::CommandPalette, Overlay::Lyrics] {
            let area = Rect::new(3, 2, width, height);
            let model = RenderModel::default().with_overlay(overlay);
            let mut interactions = InteractionMap::new();
            let ops = render_with_model_and_viewports_and_interactions(
                area,
                &state,
                &Theme::default(),
                &model,
                RenderEnhancements::new(Some(&artwork), Some(&spectrum), 15),
                &mut ViewportMemory::new(),
                &mut interactions,
            );
            assert!(ops.iter().all(|op| lies_in(area_of_op(op), area)));
            assert!(interactions.hits().iter().all(|hit| lies_in(hit.area, area)));
        }
    }
}

#[test]
fn an_open_window_takes_every_click() {
    let state = lyrics_test_state(timed_test_document(), 1_500);
    let mut interactions = InteractionMap::new();
    let model = RenderModel::default();
    let _ = render_with_model_and_interactions(
        whole(140, 40),
        &state,
        &Theme::default(),
        &model,
        &mut interactions,
    );
    assert!(interactions
        .hits()
        .iter()
        .any(|hit| matches!(hit.target, HitTarget::Navigation(_))));
    let covered = model.with_overlay(Overlay::CommandPalette);
    let _ = render_with_model_and_motion_memory_and_interactions(
        whole(140, 40),
        &state,
        &Theme::default(),
        &covered,
        &mut ViewportMemory::new(),
        &mut interactions,
    );
    assert!(!interactions
        .hits()
        .iter()
        .any(|hit| matches!(hit.target, HitTarget::Navigation(_))));
    assert!(!interactions.hits().is_empty());
}

#[test]
fn an_empty_screen_is_left_alone() {
    let state = quiet_state();
    assert!(render(whole(0, 10), &state, &Theme::default()).is_empty());
    let mut memory = ViewportMemory::new();
    assert!(render_with_model_and_motion_memory(
        whole(10, 0),
        &state,
        &Theme::default(),
        &RenderModel::default(),
        &mut memory,
    )
    .is_empty());
}

#[test]
fn pictures_are_drawn_where_they_are_asked_for() {
    let artwork = ArtworkPresentation::Grid(solid_animation_frame([1, 2, 3]));
    let op = render_artwork(Rect::new(2, 1, 21, 8), &artwork, ColorCapability::TrueColor);
    let terminal = drawn(30, 10, &[op]);
    let cell = terminal.backend().buffer().cell((2, 1)).cloned().unwrap_or_default();
    assert_eq!(cell.symbol(), "▀");
    assert_eq!(cell.fg, Paint::Rgb(1, 2, 3));
}

#[test]
fn views_that_are_laid_out_elsewhere_are_shown() {
    let mut state = quiet_state();
    state.prepared.lines = vec![Line::from_text("Top podcasts in JP".to_owned())];
    let model = RenderModel::default().with_view(NavigationItem::Podcasts);
    let ops = render_with_model(whole(140, 40), &state, &Theme::default(), &model);
    let rendered = drawn(140, 40, &ops).backend().to_string();
    assert!(rendered.contains("Top podcasts in JP"), "{rendered}");
}

#[test]
fn controls_stand_apart() {
    let state = playing_test_state(lyrics_test_state(timed_test_document(), 1_500));
    for width in [40, 80, 120] {
        let controls = tiny_player_layout(&state, width).controls;
        for pair in controls.windows(2) {
            assert!(pair[0].offset + pair[0].width < pair[1].offset);
        }
    }
    assert!(!tiny_player_layout(&state, 120).controls.is_empty());
}

#[test]
fn a_change_of_lines_moves_nothing() {
    let state = lyrics_test_state(timed_test_document(), 1_500);
    let mut other = lyrics_test_state(timed_test_document(), 1_500);
    other.lyrics.transition = None;
    let text = |state: &AppState| {
        let lines = tuneterm::ui::lyrics_panel::automatic_lyrics_lines(
            state,
            3,
            40,
            &Theme::for_capability(ColorCapability::TrueColor),
        );
        line_text(&lines)
    };
    assert_eq!(text(&state), text(&other));
}

#[test]
fn bars_take_any_size() {
    let narrow: Vec<u8> = (0..100).collect();
    let wide = resample_spectrum(&narrow, 200);
    assert_eq!(wide.len(), 200);
    assert_eq!((wide[0], wide[1], wide[198], wide[199]), (0, 0, 99, 99));
    assert_eq!(resample_spectrum(&narrow, 1), vec![99]);

    let mut state = other_lyrics_state(None);
    state.progress = ProgressPresentation {
        eighths_by_width: (0..=100).map(|width| width * 4).collect(),
        shine_by_filled_cells: vec![0; 101],
    };
    let bar = progress_bar_line(&state, 100, &state.progress, &Theme::default()).text();
    assert_eq!(bar, format!("{}{}", "█".repeat(50), "░".repeat(50)));

    let (_, half) = spectrum_fixture(&state, 1, 1, &[12]);
    let lines = spectrum_lines(&half, 5, 1, &Theme::default());
    let texts: Vec<String> = lines.iter().map(Line::text).collect();
    assert_eq!(texts, vec![" ", " ", "▄", "█", "█"]);
}

#[test]
fn themes_can_have_any_color_of_the_terminal() {
    let state = lyrics_test_state(timed_test_document(), 1_500);
    let (_, presentation) = spectrum_fixture(&state, 3, 1, &[24, 24, 24]);
    let mut theme = Theme::for_capability(ColorCapability::Basic);
    theme.accent = Color::Magenta;
    theme.selection = Color::LightBlue;
    theme.foreground = Color::Gray;
    let colors = foregrounds(&spectrum_lines(&presentation, 1, 3, &theme)[0]);
    assert_eq!(colors, vec![Color::Magenta, Color::LightBlue, Color::Gray]);
    theme.background = Color::Green;
    let buffer = render_spectrum_buffer(&state, &presentation, 140, 40, &theme);
    assert!(buffer.content.iter().any(|cell| cell.bg == paint(Color::Green)));
}
