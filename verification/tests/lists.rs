use tuneterm::domain::{
    Generation, MediaId, MediaItem, MediaKind, PlaybackStatus, RegionCode, SearchFilter,
};
use tuneterm::queue::{Queue, QueueItem, QueueItemId};
use tuneterm::ui::cells::{cell_width, CLIP_BYTE_INSPECTION_BUDGET};
use tuneterm::ui::layout::MAX_RENDERED_ROWS;
use tuneterm::ui::line::Line;
use tuneterm::ui::memory::ViewportMemory;
use tuneterm::ui::model::{
    BrowserPickerState, CountryChoice, CountryPickerState, LyricsOverlayState, NavigationItem,
    Overlay, RenderModel,
};
use tuneterm::ui::motion::ProgressPresentation;
use tuneterm::ui::palette::palette_lines_with_targets;
use tuneterm::ui::player::{player_control_line, player_lines, tiny_player_layout};
use tuneterm::ui::render::{
    content_lines_with_viewports_and_targets_with_spinner, overlay_target_buffer,
};
use tuneterm::ui::state::{
    AppState, Dependencies, DependencyRow, FavoritesState, LyricsState, Playback,
    PlayerPresentation, PreparedView, Quality, SearchEntry, SearchEntryKind, SearchMetadataKind,
    SearchState, SeekSteps, Switches,
};
use tuneterm::ui::theme::Theme;
use tuneterm::ui::viewport::{dataset_transition_preserves, SelectionViewport};
use tuneterm::ui::views::favorites;
use tuneterm::ui::views::pickers::{
    browser_picker_lines_with_viewport_and_targets,
    country_picker_lines_with_viewport_and_targets, help_lines, HELP_LINE_COUNT,
};
use tuneterm::ui::views::queue;
use tuneterm::ui::views::search;
use tuneterm::ui::views::settings;

fn song(id: &str, kind: MediaKind, title: &str, creator: &str) -> MediaItem {
    MediaItem {
        id: MediaId {
            provider: "youtube-music".to_owned(),
            video_id: id.to_owned(),
        },
        kind,
        title: title.to_owned(),
        creators: vec![creator.to_owned()],
        collection: None,
        duration_ms: Some(180_000),
        artwork_url: None,
        explicit: false,
    }
}

fn queue_of(items: Vec<QueueItem>) -> Queue {
    Queue::from_items(items).unwrap_or_else(|_| panic!("entries of their own"))
}

fn queue_item(id: &str) -> QueueItem {
    QueueItem::new(
        QueueItemId::from(id),
        song(id, MediaKind::Song, &format!("Song {id}"), "Artist"),
    )
}

fn no_progress() -> ProgressPresentation {
    ProgressPresentation { eighths_by_width: Vec::new(), shine_by_filled_cells: Vec::new() }
}

fn quiet_state() -> AppState {
    AppState {
        playback: Playback {
            status: PlaybackStatus::Stopped,
            current: None,
            position_ms: 0,
            duration_ms: None,
            target_volume: 80,
            speed_in_tenths: "1.0".to_owned(),
            speed_in_hundredths: "1.00".to_owned(),
        },
        presentation: PlayerPresentation {
            fade: None,
            effective_volume: "0".to_owned(),
            bounded_volume: "0".to_owned(),
            quality: Quality { known: false, format_id: None, codec: None },
            fade_in_ms: 0,
            fade_out_ms: 0,
        },
        queue: queue_of(Vec::new()),
        lyrics: LyricsState {
            loading: false,
            document: None,
            active_line_index: None,
            transition: None,
        },
        search: SearchState {
            query: String::new(),
            filter: SearchFilter::All,
            generation: Generation::new(0),
            stale: false,
            loading: false,
            loading_more: false,
            has_continuation: false,
            error: None,
            items: Vec::new(),
            selected_id: None,
        },
        favorites: FavoritesState {
            generation: Generation::new(0),
            loading: false,
            loaded: false,
            error: None,
            entries: Vec::new(),
            selected_id: None,
        },
        dependencies: Dependencies {
            browsing_available: true,
            playback_available: true,
            checking: false,
            rows: Vec::new(),
        },
        switches: Switches {
            lyrics: true,
            lyrics_external_sync: true,
            animated_artwork: true,
            visualizer: true,
        },
        seek: SeekSteps { music: 10, podcast_backward: 15, podcast_forward: 30 },
        current_attempt_generation: None,
        progress: no_progress(),
        prepared: PreparedView { lines: Vec::new(), targets: Vec::new() },
    }
}

fn line_text(lines: &[Line]) -> String {
    lines.iter().map(Line::text).collect::<Vec<_>>().join("\n")
}

fn indexed_media(prefix: &str, count: usize) -> Vec<MediaItem> {
    (0..count).map(|index| queue_item(&format!("{prefix}-{index}")).media().clone()).collect()
}

fn stable_id(item: &MediaItem) -> String {
    format!("{}:{}", item.id.provider, item.id.video_id)
}

fn playable(item: MediaItem) -> SearchEntry {
    SearchEntry { stable_id: stable_id(&item), kind: SearchEntryKind::Playable(item) }
}

fn named(stable_id: &str, kind: SearchMetadataKind, title: &str) -> SearchEntry {
    SearchEntry {
        stable_id: stable_id.to_owned(),
        kind: SearchEntryKind::Metadata { kind, provider_id: None, title: title.to_owned() },
    }
}

fn searched(
    query: &str,
    filter: SearchFilter,
    generation: u64,
    items: Vec<SearchEntry>,
) -> AppState {
    let mut state = quiet_state();
    state.search.query = query.to_owned();
    state.search.filter = filter;
    state.search.generation = Generation::new(generation);
    state.search.selected_id = items.first().map(|item| item.stable_id.clone());
    state.search.items = items;
    state
}

fn found(query: &str, generation: u64, items: &[MediaItem]) -> AppState {
    searched(query, SearchFilter::Songs, generation, items.iter().cloned().map(playable).collect())
}

fn search_lines(state: &AppState, rows: usize, viewport: &mut SelectionViewport) -> Vec<Line> {
    search::lines_with_viewport_and_targets_with_spinner(state, rows, 48, None, viewport, 0).lines
}

fn content_lines(state: &AppState, view: NavigationItem, rows: usize, width: usize) -> Vec<Line> {
    content_lines_with_viewports_and_targets_with_spinner(
        state,
        view,
        rows,
        width,
        None,
        15,
        &mut ViewportMemory::new(),
        0,
    )
    .lines
}

fn assert_precomposed_lines_are_bounded(lines: &[Line], width: usize) {
    for line in lines {
        let bytes = line.spans.iter().map(|span| span.content.len()).sum::<usize>();
        let cells = line
            .spans
            .iter()
            .map(|span| usize::from(cell_width(&span.content)))
            .sum::<usize>();
        assert!(
            bytes <= CLIP_BYTE_INSPECTION_BUDGET + 128,
            "line was fully composed before clipping: {bytes} bytes"
        );
        assert!(cells <= width, "line exceeds its {width}-cell viewport");
    }
}

fn assert_selected_row(lines: &[Line], row_limit: usize, available_width: usize, expected: &str) {
    assert!(lines.len() <= row_limit);
    assert_precomposed_lines_are_bounded(lines, available_width);
    let rendered = line_text(lines);
    assert!(rendered.contains(expected), "missing selected row `{expected}` in:\n{rendered}");
}

#[test]
fn favorites_viewport_keeps_local_offset_after_selected_row_removal() {
    let entries = indexed_media("favorite-offset", 20);
    let initial = entries[10].id.clone();
    let selected = entries[9].clone();
    let remaining =
        entries.iter().filter(|entry| entry.id != selected.id).cloned().collect::<Vec<_>>();
    let next = remaining[9].id.clone();
    let mut state = quiet_state();
    state.favorites = FavoritesState {
        generation: Generation::new(1),
        loading: false,
        loaded: true,
        error: None,
        entries,
        selected_id: Some(initial),
    };
    let mut viewport = SelectionViewport::new();
    let _ = favorites::lines_with_viewport_and_targets_with_spinner(
        &state,
        7,
        48,
        &mut viewport,
        0,
    );
    state.favorites.selected_id = Some(selected.id.clone());
    let before = line_text(
        &favorites::lines_with_viewport_and_targets_with_spinner(&state, 7, 48, &mut viewport, 0)
            .lines,
    );
    state.favorites.generation = Generation::new(2);
    state.favorites.entries = remaining;
    state.favorites.selected_id = Some(next);
    let after = line_text(
        &favorites::lines_with_viewport_and_targets_with_spinner(&state, 7, 48, &mut viewport, 0)
            .lines,
    );

    assert!(before.contains("Song favorite-offset-5"), "{before}");
    assert!(after.contains("Song favorite-offset-5"), "{after}");
    assert!(!after.contains("Song favorite-offset-4"), "{after}");
    assert!(after.contains("▶ Song favorite-offset-10"), "{after}");
}

#[test]
fn overlay_target_buffer_exists_only_for_interactive_visible_rows() {
    assert!(overlay_target_buffer(Overlay::CommandPalette, false, 8).is_none());
    assert!(overlay_target_buffer(Overlay::Help, true, 8).is_none());

    let targets = overlay_target_buffer(
        Overlay::CommandPalette,
        true,
        MAX_RENDERED_ROWS.saturating_add(8),
    )
    .unwrap_or_else(|| panic!("interactive overlay target buffer"));
    assert!(targets.is_empty());
    assert_eq!(targets.capacity(), MAX_RENDERED_ROWS);
}

#[test]
fn lyrics_settings_report_each_enhancement_toggle() {
    let mut state = quiet_state();
    state.switches.lyrics = false;
    state.switches.lyrics_external_sync = false;
    state.switches.animated_artwork = false;
    let rendered = line_text(&settings::lines(&state, 12, 80, 15));
    assert!(rendered.contains("Lyrics: off"), "{rendered}");
    assert!(rendered.contains("External sync: off"), "{rendered}");
    assert!(rendered.contains("Animated artwork: off"), "{rendered}");
}

#[test]
fn lyrics_overlay_debug_redacts_media_fingerprint() {
    let state = LyricsOverlayState { media_key: Some(42), ..LyricsOverlayState::default() };
    let debug = state.summary();
    assert!(!debug.contains("media_key"));
    assert!(!debug.contains("42"));
    assert!(debug.contains("has_media: true"));
}

#[test]
fn search_rows_stay_stationary_across_rendered_selection_frames() {
    let items = indexed_media("stable-search", 20);
    let mut state = found("stable viewport", 1, &items);
    let mut viewport = SelectionViewport::new();

    state.search.selected_id = Some(stable_id(&items[10]));
    let first = line_text(&search_lines(&state, 7, &mut viewport));
    state.search.selected_id = Some(stable_id(&items[9]));
    let second = line_text(&search_lines(&state, 7, &mut viewport));
    state.search.selected_id = Some(stable_id(&items[5]));
    let third = line_text(&search_lines(&state, 7, &mut viewport));

    assert!(first.contains("Song stable-search-6"));
    assert!(second.contains("Song stable-search-6"));
    assert!(!second.contains("Song stable-search-5"));
    assert!(third.contains("Song stable-search-5"));
}

#[test]
fn search_viewport_stays_stationary_while_pagination_extends_the_dataset() {
    let mut items = indexed_media("paged-search", 12);
    let mut state = found("pagination", 1, &items);
    state.search.has_continuation = true;
    state.search.selected_id = Some(stable_id(&items[10]));
    let mut viewport = SelectionViewport::new();
    let _ = search_lines(&state, 7, &mut viewport);
    state.search.selected_id = Some(stable_id(&items[9]));
    let before = line_text(&search_lines(&state, 7, &mut viewport));
    state.search.generation = Generation::new(2);
    state.search.loading_more = true;
    let loading = line_text(&search_lines(&state, 7, &mut viewport));
    items.extend(indexed_media("paged-search-more", 2));
    state.search.items = items.iter().cloned().map(playable).collect();
    state.search.loading_more = false;
    state.search.has_continuation = false;
    let appended = line_text(&search_lines(&state, 7, &mut viewport));

    for rendered in [&before, &loading, &appended] {
        assert!(rendered.contains("Song paged-search-6"), "{rendered}");
        assert!(!rendered.contains("Song paged-search-5"), "{rendered}");
    }
}

#[test]
fn search_replacement_with_shared_first_id_resets_before_revealing_selection() {
    let items = indexed_media("replace-search", 12);
    let mut replacement = items.clone();
    replacement[1] = indexed_media("different-tail", 1).remove(0);
    let mut state = found("first", 1, &items);
    state.search.selected_id = Some(stable_id(&items[10]));
    let mut viewport = SelectionViewport::new();
    let _ = search_lines(&state, 7, &mut viewport);
    state.search.selected_id = Some(stable_id(&items[9]));
    let _ = search_lines(&state, 7, &mut viewport);
    let mut state = found("replacement", 2, &replacement);
    state.search.selected_id = Some(stable_id(&items[9]));
    let lines = search_lines(&state, 7, &mut viewport);
    let first_row = line_text(&lines[2..3]);

    assert!(first_row.contains("Song replace-search-5"), "{first_row}");
}

#[test]
fn providerless_metadata_replacement_resets_without_title_identity() {
    let media = indexed_media("metadata-search", 12);
    let selected_10 = stable_id(&media[10]);
    let selected_9 = stable_id(&media[9]);
    let entries = |title: &str| {
        let mut entries = media.iter().cloned().map(playable).collect::<Vec<_>>();
        entries[1] = named("metadata:1", SearchMetadataKind::Podcast, title);
        entries
    };
    let mut state =
        searched("metadata first", SearchFilter::All, 1, entries("external first title"));
    state.search.selected_id = Some(selected_10);
    let mut viewport = SelectionViewport::new();
    let _ = search_lines(&state, 7, &mut viewport);
    state.search.selected_id = Some(selected_9.clone());
    let _ = search_lines(&state, 7, &mut viewport);
    let mut state =
        searched("metadata replacement", SearchFilter::All, 2, entries("external renamed title"));
    state.search.selected_id = Some(selected_9.clone());
    let lines = search_lines(&state, 7, &mut viewport);
    let first_row = line_text(&lines[2..3]);

    assert!(first_row.contains("Song metadata-search-5"), "{first_row}");
    assert_eq!(state.search.selected_id, Some(selected_9));
}

#[test]
fn viewport_dataset_key_never_depends_on_metadata_titles() {
    let key = |title: &str| {
        search::search_dataset_key(
            SearchFilter::Podcasts,
            Generation::default(),
            false,
            &vec![named("metadata:0", SearchMetadataKind::Podcast, title)],
        )
    };
    assert!(key("first external title") == key("renamed external title"));
    assert!(dataset_transition_preserves(
        &key("first external title"),
        &key("renamed external title")
    ));
}

#[test]
fn content_lines_bound_dynamic_fields_before_composition() {
    let huge = "界".repeat(700_000);
    let width = 40;

    let state = searched(
        &huge,
        SearchFilter::All,
        1,
        vec![
            playable(song("huge", MediaKind::Song, &huge, &huge)),
            playable(song("huge-creator", MediaKind::Song, "Short title", &huge)),
            named("metadata:2", SearchMetadataKind::Album, &huge),
        ],
    );
    let search_lines = content_lines(&state, NavigationItem::Search, 8, width);
    assert_precomposed_lines_are_bounded(&search_lines, width);
    assert!(search_lines[0].spans[0].content.ends_with('…'));
    assert!(search_lines[2].spans[0].content.ends_with('…'));
    assert!(search_lines[3].spans[0].content.ends_with('…'));
    assert!(search_lines[4].spans[0].content.ends_with('…'));

    let mut error_state = searched("error", SearchFilter::All, 1, Vec::new());
    error_state.search.error = Some(huge);
    let error_lines = content_lines(&error_state, NavigationItem::Search, 4, width);
    assert_precomposed_lines_are_bounded(&error_lines, width);
    assert!(error_lines[2].spans[0].content.ends_with('…'));
}

#[test]
fn queue_player_and_palette_lines_bound_dynamic_fields_before_composition() {
    let huge = "界".repeat(700_000);
    let width = 40;
    let media = song("huge", MediaKind::Song, &huge, "Artist");
    let entries = queue_of(vec![QueueItem::new(QueueItemId::from("huge"), media.clone())]);
    let queue_lines = queue::lines_with_viewport_and_targets(
        &entries,
        None,
        4,
        width,
        &mut SelectionViewport::new(),
    )
    .lines;
    assert_precomposed_lines_are_bounded(&queue_lines, width);
    assert!(queue_lines[0].spans[0].content.ends_with('…'));

    let mut state = quiet_state();
    state.playback.status = PlaybackStatus::Resolving;
    state.playback.current = Some(media.id.clone());
    state.queue = entries;
    let controls = player_control_line(&state, false, width, &state.progress);
    let full_player = player_lines(&state, false, width, &Theme::default(), None, controls);
    assert_precomposed_lines_are_bounded(&full_player, width);
    assert!(full_player[0].spans[0].content.ends_with('…'));
    let tiny_player = tiny_player_layout(&state, width).text;
    assert!(usize::from(cell_width(&tiny_player)) <= width);
    assert!(tiny_player.contains('界'));
    assert!(tiny_player.ends_with("s-e"));
    assert!(tiny_player.len() <= CLIP_BYTE_INSPECTION_BUDGET + 128);

    let palette_model =
        RenderModel::default().with_palette_query(&"q".repeat(2 * 1024 * 1024));
    let palette = palette_lines_with_targets(&palette_model.palette, 4, width).0;
    assert_precomposed_lines_are_bounded(&palette, width);
    assert!(palette[0].spans[0].content.ends_with('…'));

    let combining_query = format!("A{}", "\u{301}".repeat(1_100_000));
    let combining_model = RenderModel::default().with_palette_query(&combining_query);
    assert_eq!(combining_model.palette.selected_action(), None);
    let combining_palette = palette_lines_with_targets(&combining_model.palette, 2, width).0;
    assert_precomposed_lines_are_bounded(&combining_palette, width);
    assert_eq!(combining_palette[0].spans[0].content, "Query: …");
}

#[test]
fn queue_viewport_keeps_offscreen_selection_visible() {
    let mut entries =
        queue_of((0..12).map(|index| queue_item(&format!("queue-{index}"))).collect());
    assert!(entries.select(&QueueItemId::from("queue-10")).is_ok());

    let lines = queue::lines_with_viewport_and_targets(
        &entries,
        None,
        4,
        48,
        &mut SelectionViewport::new(),
    )
    .lines;

    assert_selected_row(&lines, 4, 48, "▶ Song queue-10");
}

#[test]
fn search_viewport_keeps_offscreen_selection_and_edge_footer_visible() {
    let items = indexed_media("search", 12);
    let mut state = found("viewport", 1, &items);
    state.search.has_continuation = true;
    state.search.selected_id = Some(stable_id(&items[11]));

    let lines = search_lines(&state, 6, &mut SelectionViewport::new());

    assert_selected_row(&lines, 6, 48, "▶ Song search-11");
    assert!(line_text(&lines).contains("[m] Load more"));
}

fn region(code: &str) -> RegionCode {
    RegionCode::parse(code).unwrap_or_else(|| panic!("a region"))
}

#[test]
fn country_picker_viewport_keeps_offscreen_selection_visible() {
    let picker = CountryPickerState {
        choices: [
            ("Hong Kong", "HK"),
            ("Taiwan", "TW"),
            ("Japan", "JP"),
            ("South Korea", "KR"),
            ("United States", "US"),
            ("United Kingdom", "GB"),
            ("Singapore", "SG"),
        ]
        .into_iter()
        .map(|(label, code)| CountryChoice { label: label.to_owned(), region: region(code) })
        .collect(),
        selected_index: 6,
    };

    let lines = country_picker_lines_with_viewport_and_targets(
        &picker,
        4,
        48,
        &mut SelectionViewport::new(),
    )
    .lines;

    assert_selected_row(&lines, 4, 48, "▶ Singapore · SG");
}

#[test]
fn rows_can_be_clicked_where_they_are_shown() {
    let items = indexed_media("click", 12);
    let mut state = found("clicks", 1, &items);
    state.search.selected_id = Some(stable_id(&items[10]));
    let drawn = search::lines_with_viewport_and_targets_with_spinner(
        &state,
        7,
        48,
        None,
        &mut SelectionViewport::new(),
        0,
    );
    assert_eq!(
        drawn.targets.iter().map(|target| (target.line_index, target.stable_index)).collect::<Vec<_>>(),
        [(2, 6), (3, 7), (4, 8), (5, 9), (6, 10)]
    );
    for target in &drawn.targets {
        let text = drawn.lines[target.line_index].text();
        assert!(text.contains(&format!("Song click-{}", target.stable_index)), "{text}");
    }
}

#[test]
fn a_search_says_where_it_stands() {
    let mut state = searched("tea", SearchFilter::Songs, 1, Vec::new());
    state.search.loading = true;
    let rendered = line_text(&search_lines(&state, 5, &mut SelectionViewport::new()));
    assert!(rendered.contains("⠋"), "{rendered}");
    assert!(rendered.contains("tea"), "{rendered}");
    let drafted = line_text(
        &search::lines_with_viewport_and_targets_with_spinner(
            &state,
            5,
            48,
            Some("coffee"),
            &mut SelectionViewport::new(),
            0,
        )
        .lines,
    );
    assert!(drafted.contains("coffee"), "{drafted}");
    state.search.loading = false;
    state.search.error = Some("no network".to_owned());
    let failed = line_text(&search_lines(&state, 5, &mut SelectionViewport::new()));
    assert!(failed.contains("no network"), "{failed}");
}

#[test]
fn favorites_say_where_they_stand() {
    let mut state = quiet_state();
    let text = |state: &AppState| {
        line_text(
            &favorites::lines_with_viewport_and_targets_with_spinner(
                state,
                5,
                48,
                &mut SelectionViewport::new(),
                0,
            )
            .lines,
        )
    };
    state.favorites.loading = true;
    assert!(text(&state).contains("⠋"));
    state.favorites.loading = false;
    state.favorites.loaded = true;
    let empty = text(&state);
    state.favorites.error = Some("broken".to_owned());
    assert!(text(&state).contains("broken"));
    assert_ne!(empty, text(&state));
    state.favorites.entries = indexed_media("liked", 2);
    state.favorites.selected_id = Some(state.favorites.entries[1].id.clone());
    assert!(text(&state).contains("▶ Song liked-1 — Artist"));
}

#[test]
fn settings_name_what_is_missing() {
    let mut state = quiet_state();
    state.dependencies.rows = vec![DependencyRow {
        component: "mpv".to_owned(),
        status: "missing".to_owned(),
        detail: "not on the path".to_owned(),
    }];
    let rendered = line_text(&settings::lines(&state, 30, 80, 15));
    assert!(rendered.contains("mpv"), "{rendered}");
    assert!(rendered.contains("missing"), "{rendered}");
    assert_eq!(settings::lines(&state, 2, 80, 15).len(), 2);
}

#[test]
fn pickers_and_help_fit_their_windows() {
    let picker = BrowserPickerState {
        choices: ["Firefox", "Chromium", "Brave"].map(str::to_owned).to_vec(),
        selected_browser: "Brave".to_owned(),
    };
    let drawn = browser_picker_lines_with_viewport_and_targets(
        &picker,
        2,
        48,
        &mut SelectionViewport::new(),
    );
    assert!(drawn.lines.len() <= 2);
    assert!(line_text(&drawn.lines).contains("▶ Brave"));
    assert_eq!(help_lines(0, 100).len(), HELP_LINE_COUNT);
    assert_eq!(help_lines(0, 4).len(), 4);
    assert_eq!(
        line_text(&help_lines(2, 4)),
        line_text(&help_lines(0, 100)[2..6])
    );
}

#[test]
fn lists_take_no_more_lines_than_there_are_rows() {
    let mut state = found("query", 1, &indexed_media("song", 30));
    state.favorites.entries = indexed_media("favorite", 30);
    state.favorites.loaded = true;
    let entries = queue_of((0..30).map(|index| queue_item(&format!("entry-{index}"))).collect());
    for rows in 0..12 {
        assert!(content_lines(&state, NavigationItem::Search, rows, 40).len() <= rows);
        assert!(content_lines(&state, NavigationItem::Favorites, rows, 40).len() <= rows);
        assert!(settings::lines(&state, rows, 40, 15).len() <= rows);
        let drawn = queue::lines_with_viewport_and_targets(
            &entries,
            None,
            rows,
            40,
            &mut SelectionViewport::new(),
        );
        assert_eq!(drawn.lines.len(), rows);
        assert_eq!(help_lines(1_000, rows).len(), rows.min(HELP_LINE_COUNT));
    }
}
