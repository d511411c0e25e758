use tuneterm::domain::{MediaId, RegionCode};
use tuneterm::lyrics::normalize_lyrics_text;
use tuneterm::text::{
    append_three_digits, append_two_digits, cap_bytes, collapse, decimal, format_seconds,
    parse_u64, split, trim,
};
use tuneterm::ui::artwork::{decode_rgb_frame, ArtworkError, CellSize};
use tuneterm::ui::bars::{repeat, spectrum_glyph};
use tuneterm::ui::cells::{
    bounded_grapheme_prefix, cell_prefix, cell_width, clip_line, first_grapheme_width,
    truncate_cells,
};
use tuneterm::ui::input::{
    map_event, map_key_event, palette_entries, InputAction, InputMode, KeyCode, KeyEvent,
    KeyEventKind, KeyModifiers, MediaKeyCode, SemanticAction, TextEntryContext, ACTION_COUNT,
};
use tuneterm::ui::layout::{
    centered_rect, help_overlay_viewport, lyrics_overlay_viewport, panel_inner, rect_contains,
    LayoutMode, Rect,
};
use tuneterm::ui::line::{Line, Span};
use tuneterm::ui::lyrics_panel::interpolate_color;
use tuneterm::ui::model::{
    CompactPanel, FocusRegion, NavigationItem, RenderModel, NAVIGATION_ITEM_COUNT,
};
use tuneterm::ui::palette::palette_lines_with_targets;
use tuneterm::ui::player::{compact_duration, compact_identity, format_duration};
use tuneterm::ui::theme::{
    detect_color_capability, Color, ColorCapability, Style, TerminalColorSnapshot, Theme,
};

#[test]
fn texts_are_cut_and_joined() {
    assert_eq!(collapse("  a \t b\u{a0}c\n"), "a b c");
    assert_eq!(trim(" \n a b \t"), "a b");
    assert_eq!(split("1:02:03", ':'), ["1", "02", "03"]);
    assert_eq!(parse_u64("0042"), Some(42));
    assert_eq!(parse_u64(""), None);
    assert_eq!(parse_u64("4x"), None);
    assert_eq!(parse_u64("18446744073709551615"), Some(u64::MAX));
    assert_eq!(parse_u64("18446744073709551616"), None);
    assert_eq!(decimal(0), "0");
    assert_eq!(decimal(1_048_576), "1048576");
    assert_eq!(format_seconds(12_345), "12.345");
    let mut text = String::new();
    append_two_digits(&mut text, 7);
    append_three_digits(&mut text, 42);
    assert_eq!(text, "07042");
    assert_eq!(cap_bytes("a界b", 3), ("a".to_owned(), true));
    assert_eq!(cap_bytes("a界b", 4), ("a界".to_owned(), true));
    assert_eq!(cap_bytes("a界b", 5), ("a界b".to_owned(), false));
    assert_eq!(normalize_lyrics_text("a\r\nb\rc\td\u{7}"), "a\nb\nc d");
}

#[test]
fn regions_have_two_letters() {
    assert_eq!(RegionCode::parse("hk").map(|region| region.as_str().to_owned()), Some("HK".to_owned()));
    assert!(RegionCode::parse("h").is_none());
    assert!(RegionCode::parse("h1").is_none());
    assert!(RegionCode::parse("usa").is_none());
    let one = MediaId { provider: "a".to_owned(), video_id: "b".to_owned() };
    let other = MediaId { provider: "ab".to_owned(), video_id: String::new() };
    assert!(one.same(&one.clone()));
    assert!(!one.same(&other));
}

#[test]
fn durations_are_told_in_two_ways() {
    assert_eq!(format_duration(0), "00:00");
    assert_eq!(format_duration(65_999), "01:05");
    assert_eq!(format_duration(3_723_000), "1:02:03");
    assert_eq!(compact_duration(65_000), "1:05");
    assert_eq!(compact_duration(600_000), "10m");
    assert_eq!(compact_duration(60_000_000), "16h");
    assert_eq!(compact_duration(u64::MAX), "999+");
}

#[test]
fn cells_are_what_a_terminal_shows() {
    assert_eq!(cell_width("ab"), 2);
    assert_eq!(cell_width("界"), 2);
    assert_eq!(cell_width("e\u{301}"), 1);
    assert_eq!(truncate_cells("abcdef", 4), "abc…");
    assert_eq!(truncate_cells("abcd", 4), "abcd");
    assert_eq!(truncate_cells("界界界", 4), "界…");
    assert_eq!(truncate_cells("abc", 0), "");
    assert_eq!(cell_prefix("界界界", 5), "界界");
    assert_eq!(cell_prefix("a\u{7}b", 2), "ab");
    assert_eq!(first_grapheme_width("\u{7}界"), 2);
    assert_eq!(first_grapheme_width(""), 0);
    assert_eq!(
        bounded_grapheme_prefix("e\u{301}e\u{301}x", 100, 2),
        ("e\u{301}e\u{301}".to_owned(), true)
    );
    assert_eq!(bounded_grapheme_prefix("ab", 100, 2), ("ab".to_owned(), false));
    let line = Line::from_spans(vec![
        Span::raw("abc".to_owned()),
        Span::styled("defg".to_owned(), Style::new().bold()),
    ]);
    assert_eq!(clip_line(&line, 5).text(), "abcd…");
    assert_eq!(clip_line(&line, 7).text(), "abcdefg");
    assert!(clip_line(&line, 5).spans.iter().any(|span| span.style.bold));
    assert_eq!(compact_identity("Title", "Creator", 5), "Ti/Cr");
    assert_eq!(compact_identity("Title", "", 3), "Tit");
}

#[test]
fn terminals_say_what_colors_they_show() {
    let capability = |terminal, no_color, term, colorterm| {
        detect_color_capability(&TerminalColorSnapshot::new(terminal, no_color, term, colorterm))
    };
    assert_eq!(capability(false, false, Some("xterm"), None), ColorCapability::Monochrome);
    assert_eq!(capability(true, true, Some("xterm"), None), ColorCapability::Monochrome);
    assert_eq!(capability(true, false, Some("DUMB"), None), ColorCapability::Monochrome);
    assert_eq!(
        capability(true, false, Some("xterm"), Some("TrueColor")),
        ColorCapability::TrueColor
    );
    assert_eq!(capability(true, false, Some("xterm-direct"), None), ColorCapability::TrueColor);
    assert_eq!(capability(true, false, Some("xterm-256color"), None), ColorCapability::Ansi256);
    assert_eq!(capability(true, false, None, None), ColorCapability::Basic);
    assert_eq!(Theme::default().capability(), ColorCapability::TrueColor);
    assert_eq!(Theme::for_capability(ColorCapability::Ansi256).accent, Color::Indexed(81));
    assert_eq!(
        interpolate_color(Color::Rgb(0, 100, 200), Color::Rgb(100, 0, 200), 250),
        Color::Rgb(25, 75, 200)
    );
}

#[test]
fn screens_are_wide_compact_or_tiny() {
    assert_eq!(LayoutMode::from_dimensions(120, 32), LayoutMode::Wide);
    assert_eq!(LayoutMode::from_dimensions(119, 32), LayoutMode::Compact);
    assert_eq!(LayoutMode::from_dimensions(120, 31), LayoutMode::Compact);
    assert_eq!(LayoutMode::from_dimensions(60, 18), LayoutMode::Compact);
    assert_eq!(LayoutMode::from_dimensions(59, 18), LayoutMode::Tiny);
    assert_eq!(LayoutMode::for_area(Rect::new(9, 9, 60, 17)), LayoutMode::Tiny);
    let area = Rect::new(0, 0, 80, 24);
    let popup = centered_rect(area, 60, 16);
    assert_eq!(popup, Rect::new(10, 4, 60, 16));
    assert!(rect_contains(area, popup));
    assert!(!rect_contains(popup, area));
    assert_eq!(panel_inner(popup), Rect::new(11, 5, 58, 14));
    assert!(help_overlay_viewport(area) > 0);
    assert!(lyrics_overlay_viewport(Rect::new(0, 0, 4, 3)).is_none());
}

fn press(code: KeyCode, modifiers: KeyModifiers) -> KeyEvent {
    KeyEvent { code, modifiers, kind: KeyEventKind::Press }
}

fn shift() -> KeyModifiers {
    KeyModifiers { shift: true, ..KeyModifiers::none() }
}

fn control() -> KeyModifiers {
    KeyModifiers { control: true, ..KeyModifiers::none() }
}

#[test]
fn keys_are_commands_or_text() {
    let none = KeyModifiers::none();
    let typing = InputMode::TextEntry(TextEntryContext::Search);
    let does = |action| Some(InputAction::Semantic(action));
    for (code, modifiers, action) in [
        (KeyCode::Char('q'), none, SemanticAction::Quit),
        (KeyCode::Char('c'), control(), SemanticAction::Quit),
        (KeyCode::Char('Q'), shift(), SemanticAction::ToggleQueuePanel),
        (KeyCode::Char('?'), shift(), SemanticAction::ToggleHelp),
        (KeyCode::Left, shift(), SemanticAction::SeekBackward),
        (KeyCode::Left, none, SemanticAction::MoveLeft),
        (KeyCode::BackTab, shift(), SemanticAction::CycleFocusBackward),
        (KeyCode::F(8), none, SemanticAction::TogglePlayback),
        (KeyCode::Media(MediaKeyCode::TrackNext), none, SemanticAction::NextTrack),
    ] {
        assert_eq!(map_event(InputMode::Normal, press(code, modifiers)), does(action));
        assert_eq!(map_key_event(press(code, modifiers), InputMode::Normal), does(action));
    }
    assert_eq!(
        map_event(typing, press(KeyCode::Char('q'), none)),
        Some(InputAction::InsertCharacter('q'))
    );
    assert_eq!(map_event(typing, press(KeyCode::Char('c'), control())), does(SemanticAction::Quit));
    assert_eq!(
        map_event(typing, press(KeyCode::Backspace, none)),
        does(SemanticAction::DeleteBackward)
    );
    assert_eq!(map_event(typing, press(KeyCode::F(8), none)), None);
    assert_eq!(map_event(typing, press(KeyCode::Tab, none)), None);
    let release =
        KeyEvent { kind: KeyEventKind::Release, ..press(KeyCode::Char('q'), none) };
    assert_eq!(map_event(InputMode::Normal, release), None);
    assert_eq!(map_event(typing, release), None);
}

#[test]
fn the_palette_offers_every_action_once() {
    let entries = palette_entries();
    assert_eq!(entries.len(), ACTION_COUNT);
    for (index, action) in SemanticAction::all().into_iter().enumerate() {
        assert_eq!(entries[index].action, action);
        assert_eq!(entries[index].label, action.label());
        assert_eq!(entries[index].shortcut, action.shortcut());
    }
    let mut palette = RenderModel::default().with_palette_query("VOLUME").palette;
    assert_eq!(palette.matching_entries().len(), 2);
    assert_eq!(palette.selected_action(), Some(SemanticAction::VolumeUp));
    palette.move_by(1);
    assert_eq!(palette.selected_action(), Some(SemanticAction::VolumeDown));
    palette.move_by(1);
    assert_eq!(palette.selected_action(), Some(SemanticAction::VolumeUp));
    palette.move_by(-1);
    assert_eq!(palette.selected_index(), 1);
    palette.select(0);
    assert_eq!(palette.selected_index(), 0);
    let (lines, targets) = palette_lines_with_targets(&palette, 8, 60);
    assert!(lines[0].text().contains("VOLUME"));
    assert_eq!(targets.len(), 2);
}

#[test]
fn models_show_what_a_layout_can_show() {
    let model = RenderModel::default()
        .with_view(NavigationItem::Search)
        .with_focus(FocusRegion::Queue)
        .toggle_compact_panel();
    let tiny = model.normalized_for_layout(LayoutMode::Tiny);
    assert_eq!(tiny.focus, FocusRegion::Content);
    assert_eq!(tiny.compact_panel, CompactPanel::Content);
    let wide = model.normalized_for_layout(LayoutMode::Wide);
    assert_eq!(wide.focus, FocusRegion::Queue);
    assert_eq!(model.focus_for(LayoutMode::Compact), model.normalized_for_layout(LayoutMode::Compact).focus);
    let mut drafted = RenderModel::default();
    assert_eq!(drafted.search_draft(), None);
    drafted.set_search_draft("tea");
    assert_eq!(drafted.search_draft(), Some("tea"));
    drafted.clear_search_draft();
    assert_eq!(drafted.search_draft(), None);
    let labels: Vec<&str> =
        (0..NAVIGATION_ITEM_COUNT).map(|index| NavigationItem::at(index).label()).collect();
    let mut distinct = labels.clone();
    distinct.sort_unstable();
    distinct.dedup();
    assert_eq!(distinct.len(), NAVIGATION_ITEM_COUNT);
}

#[test]
fn pictures_are_read_two_pixels_to_a_cell() {
    let size = CellSize::new(2, 1);
    let bytes = [1, 2, 3, 4, 5, 6, 7, 8, 9, 10, 11, 12];
    let grid = decode_rgb_frame(&bytes, size).unwrap_or_else(|_| panic!("a picture"));
    assert_eq!((grid.width(), grid.height()), (2, 1));
    let cell = grid.cell(1, 0).unwrap_or_else(|| panic!("a cell"));
    assert_eq!(
        (cell.foreground().red(), cell.foreground().green(), cell.foreground().blue()),
        (4, 5, 6)
    );
    assert_eq!(
        (cell.background().red(), cell.background().green(), cell.background().blue()),
        (10, 11, 12)
    );
    assert!(grid.cell(2, 0).is_none());
    let errors: Vec<ArtworkError> = [
        decode_rgb_frame(&bytes[..11], size),
        decode_rgb_frame(&bytes, CellSize::new(0, 1)),
        decode_rgb_frame(&bytes, CellSize::new(300, 1)),
    ]
    .into_iter()
    .filter_map(Result::err)
    .collect();
    assert_eq!(errors.len(), 3);
    assert_eq!(repeat('─', 3), "───");
    assert_eq!(spectrum_glyph(0), " ");
    assert_eq!(spectrum_glyph(8), "█");
}

#[test]
fn the_palette_shows_what_is_selected() {
    let mut palette = RenderModel::default().palette;
    for selected in [0, 5, ACTION_COUNT - 1] {
        palette.select(selected);
        for rows in 0..8 {
            let (lines, targets) = palette_lines_with_targets(&palette, rows, 80);
            assert!(lines.len() <= rows);
            if rows > 1 {
                let label = palette_entries()[selected].label;
                assert!(lines.iter().any(|line| line.text().contains(label)));
                assert_eq!(targets.len(), rows - 1);
            }
        }
    }
}

#[test]
fn areas_end_at_the_largest_coordinate() {
    assert_eq!(
        Rect::new(65_535, 65_535, 3, 1),
        Rect { x: 65_535, y: 65_535, width: 0, height: 0 }
    );
    assert_eq!(
        Rect::new(65_530, 2, 9, 65_535),
        Rect { x: 65_530, y: 2, width: 5, height: 65_533 }
    );
    assert_eq!(Rect::new(1, 2, 3, 4), Rect { x: 1, y: 2, width: 3, height: 4 });
}

#[test]
fn clipped_lines_read_as_their_clipped_text_and_keep_styles() {
    let bold = Style::new().bold();
    let line = Line::from_spans(vec![
        Span::raw("a\u{7}e".to_owned()),
        Span::styled("\u{301}界".to_owned(), bold),
        Span::raw("xyz".to_owned()),
    ]);
    let whole = line.text();
    for width in 0..10 {
        assert_eq!(clip_line(&line, width).text(), truncate_cells(&whole, width));
    }
    let bold_texts = |width| -> Vec<String> {
        let spans = clip_line(&line, width).spans;
        spans.into_iter().filter(|span| span.style.bold).map(|span| span.content).collect()
    };
    assert_eq!(bold_texts(9), ["界"]);
    assert_eq!(bold_texts(5), ["界"]);
    assert_eq!(bold_texts(3), ["…"]);
}

#[test]
fn collapsed_texts_stay_as_they_are() {
    for (text, expected) in [("  a \t b\u{3000}c ", "a b c"), ("a", "a"), (" \n ", "")] {
        assert_eq!(collapse(text), expected);
        assert_eq!(collapse(expected), expected);
    }
}
