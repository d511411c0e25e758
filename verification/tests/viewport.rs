use tuneterm::ui::interaction::{HitTarget, InteractionMap, ListSurface};
use tuneterm::ui::layout::Rect;
use tuneterm::ui::line::Line;
use tuneterm::ui::memory::{SelectionPresentation, ViewportMemory};
use tuneterm::ui::motion::{spinner_frame, starts_with_spinner, SelectionMotion};
use tuneterm::ui::rows::{apply_selection_motion, loading_label, register_row_targets};
use tuneterm::ui::theme::Theme;
use tuneterm::ui::viewport::{
    dataset_key, dataset_transition_preserves, ordered_dataset_key, DatasetKey, DatasetUpdate,
    RenderedRowTarget, RowRange, SelectionViewport,
};

fn rows(start: usize, end: usize) -> RowRange {
    RowRange { start, end }
}

fn scalar(key: u64) -> DatasetKey {
    DatasetKey::from(key)
}

fn line(text: &str) -> Line {
    Line::from_text(text.to_owned())
}

fn numbered(identities: &[u64]) -> Vec<String> {
    identities.iter().map(u64::to_string).collect()
}

fn ordered(context: &str, generation: u64, identities: &[u64]) -> DatasetKey {
    ordered_dataset_key(context, generation, numbered(identities), DatasetUpdate::Reconcile)
}

fn show(
    viewport: &mut SelectionViewport,
    total: usize,
    selected: Option<usize>,
    max_rows: usize,
    key: u64,
) -> RowRange {
    viewport.visible_range(total, selected, max_rows, scalar(key))
}

#[test]
fn selection_motion_glides_retargets_and_never_moves_the_viewport() {
    let mut memory = ViewportMemory::new();
    let area = Rect::new(0, 0, 80, 24);
    let range = memory.search.visible_range(12, Some(2), 8, scalar(7));
    let start = memory.search.start();

    memory.begin_selection_frame(area, 0);
    let initial =
        memory.present_selection(ListSurface::Search, 12, Some(2), range, scalar(7), 0);
    memory.end_selection_frame();
    assert_eq!(initial.cursor_index, Some(2));
    assert!(!initial.transitioning);

    memory.begin_selection_frame(area, 0);
    let moved = memory.present_selection(ListSurface::Search, 12, Some(3), range, scalar(7), 0);
    memory.end_selection_frame();
    assert_eq!(moved.logical_index, Some(3));
    assert_eq!(moved.cursor_index, Some(2));
    assert!(moved.transitioning);
    assert_eq!(memory.search.start(), start);

    memory.begin_selection_frame(area, 60);
    let before_retarget =
        memory.present_selection(ListSurface::Search, 12, Some(3), range, scalar(7), 60);
    memory.end_selection_frame();
    memory.begin_selection_frame(area, 60);
    let retargeted =
        memory.present_selection(ListSurface::Search, 12, Some(1), range, scalar(7), 60);
    memory.end_selection_frame();
    assert_eq!(retargeted.cursor_index, before_retarget.cursor_index);
    assert!(retargeted.transitioning);

    memory.begin_selection_frame(area, 210);
    let finished =
        memory.present_selection(ListSurface::Search, 12, Some(1), rows(0, 8), scalar(7), 210);
    memory.end_selection_frame();
    assert_eq!(finished.cursor_index, Some(1));
    assert!(!finished.transitioning);
}

#[test]
fn selection_motion_caps_large_moves_and_snaps_offscreen_or_incompatible_data() {
    let mut memory = ViewportMemory::new();
    let area = Rect::new(0, 0, 80, 24);
    memory.begin_selection_frame(area, 0);
    let _ =
        memory.present_selection(ListSurface::Charts, 40, Some(0), rows(0, 21), scalar(1), 0);
    memory.end_selection_frame();

    memory.begin_selection_frame(area, 1);
    let capped =
        memory.present_selection(ListSurface::Charts, 40, Some(20), rows(0, 21), scalar(1), 1);
    memory.end_selection_frame();
    assert_eq!(capped.cursor_index, Some(14));
    assert!(capped.transitioning);

    memory.begin_selection_frame(area, 2);
    let offscreen =
        memory.present_selection(ListSurface::Charts, 40, Some(30), rows(25, 33), scalar(1), 2);
    memory.end_selection_frame();
    assert_eq!(offscreen.cursor_index, Some(30));
    assert!(!offscreen.transitioning);

    memory.begin_selection_frame(area, 3);
    let replaced =
        memory.present_selection(ListSurface::Charts, 40, Some(31), rows(25, 33), scalar(2), 3);
    memory.end_selection_frame();
    assert_eq!(replaced.cursor_index, Some(31));
    assert!(!replaced.transitioning);
}

#[test]
fn selection_motion_resets_for_hidden_zero_reconciled_and_resized_surfaces() {
    let mut memory = ViewportMemory::new();
    let area = Rect::new(0, 0, 80, 24);
    let old_key = ordered("reconcile", 1, &[10, 11, 12]);
    memory.begin_selection_frame(area, 0);
    let _ = memory.present_selection(ListSurface::Library, 3, Some(1), rows(0, 3), old_key, 0);
    memory.end_selection_frame();

    let new_key = ordered("reconcile", 2, &[9, 10, 11, 12]);
    memory.begin_selection_frame(area, 1);
    let reconciled =
        memory.present_selection(ListSurface::Library, 4, Some(2), rows(0, 4), new_key, 1);
    memory.end_selection_frame();
    assert_eq!(reconciled.cursor_index, Some(2));
    assert!(!reconciled.transitioning);

    memory.begin_selection_frame(area, 2);
    let empty =
        memory.present_selection(ListSurface::Library, 0, None, rows(0, 0), scalar(3), 2);
    memory.end_selection_frame();
    assert_eq!(
        empty,
        SelectionPresentation { logical_index: None, cursor_index: None, transitioning: false }
    );

    memory.begin_selection_frame(area, 3);
    let _ =
        memory.present_selection(ListSurface::Library, 8, Some(1), rows(0, 8), scalar(4), 3);
    memory.end_selection_frame();
    memory.begin_selection_frame(area, 4);
    memory.end_selection_frame();
    memory.begin_selection_frame(area, 5);
    let after_hidden =
        memory.present_selection(ListSurface::Library, 8, Some(5), rows(0, 8), scalar(4), 5);
    memory.end_selection_frame();
    assert_eq!(after_hidden.cursor_index, Some(5));
    assert!(!after_hidden.transitioning);

    memory.begin_selection_frame(Rect::new(0, 0, 60, 18), 6);
    let resized =
        memory.present_selection(ListSurface::Library, 8, Some(6), rows(0, 8), scalar(4), 6);
    memory.end_selection_frame();
    assert_eq!(resized.cursor_index, Some(6));
    assert!(!resized.transitioning);
}

#[test]
fn selection_motion_shared_row_style_covers_every_targeted_list_surface() {
    let surfaces = [
        ListSurface::Search,
        ListSurface::Charts,
        ListSurface::PodcastRecommendations,
        ListSurface::PodcastEpisodes,
        ListSurface::Library,
        ListSurface::Favorites,
        ListSurface::History,
        ListSurface::Queue,
        ListSurface::CommandPalette,
        ListSurface::CountryPicker,
        ListSurface::BrowserPicker,
    ];
    let mut memory = ViewportMemory::new();
    let theme = Theme::default();
    let mut initial_lines = Vec::new();
    let mut targets = Vec::new();
    for surface in surfaces {
        let base = initial_lines.len();
        initial_lines.push(line("▶ first"));
        initial_lines.push(line("  second"));
        targets.push(RenderedRowTarget {
            line_index: base,
            surface,
            stable_index: 0,
            dataset_key: scalar(1),
        });
        targets.push(RenderedRowTarget {
            line_index: base + 1,
            surface,
            stable_index: 1,
            dataset_key: scalar(1),
        });
    }
    let area = Rect::new(0, 0, 80, 24);
    memory.begin_selection_frame(area, 0);
    apply_selection_motion(&mut initial_lines, &targets, &mut memory, &theme, 0, area);
    memory.end_selection_frame();

    let mut moved_lines = initial_lines
        .chunks_exact(2)
        .flat_map(|_| [line("  first"), line("▶ second")])
        .collect::<Vec<_>>();
    memory.begin_selection_frame(area, 1);
    apply_selection_motion(&mut moved_lines, &targets, &mut memory, &theme, 1, area);
    memory.end_selection_frame();

    for rows in moved_lines.chunks_exact(2) {
        assert_eq!(rows[0].text(), "▶ first");
        assert_eq!(rows[1].text(), "● second");
        assert!(rows[1].spans[1].style.bold);
    }
}

#[test]
fn selection_motion_uses_stable_dataset_identity_when_clipped_labels_match() {
    let theme = Theme::default();
    let mut viewport = SelectionViewport::new();
    let mut memory = ViewportMemory::new();
    let area = Rect::new(0, 0, 20, 4);
    let first_key = ordered_dataset_key(
        "search",
        1,
        vec!["old-a".to_owned(), "old-b".to_owned()],
        DatasetUpdate::Replace,
    );
    let _ = viewport.visible_range(2, Some(0), 2, first_key);
    let first_targets = vec![
        viewport.row_target(0, ListSurface::Search, 0),
        viewport.row_target(1, ListSurface::Search, 1),
    ];
    let mut first_lines = vec![line("▶ duplicate…"), line("  duplicate…")];
    memory.begin_selection_frame(area, 0);
    apply_selection_motion(&mut first_lines, &first_targets, &mut memory, &theme, 0, area);
    memory.end_selection_frame();

    let replacement_key = ordered_dataset_key(
        "search",
        2,
        vec!["new-a".to_owned(), "new-b".to_owned()],
        DatasetUpdate::Replace,
    );
    let _ = viewport.visible_range(2, Some(1), 2, replacement_key);
    let replacement_targets = vec![
        viewport.row_target(0, ListSurface::Search, 0),
        viewport.row_target(1, ListSurface::Search, 1),
    ];
    let mut replacement_lines = vec![line("  duplicate…"), line("▶ duplicate…")];
    memory.begin_selection_frame(area, 1);
    apply_selection_motion(
        &mut replacement_lines,
        &replacement_targets,
        &mut memory,
        &theme,
        1,
        area,
    );
    memory.end_selection_frame();

    assert_eq!(replacement_lines[0].text(), "  duplicate…");
    assert_eq!(replacement_lines[1].text(), "▶ duplicate…");
}

#[test]
fn selection_viewport_keeps_rows_stationary_until_selection_crosses_an_edge() {
    let mut v = SelectionViewport::new();

    assert_eq!(show(&mut v, 20, Some(10), 5, 1), rows(6, 11));
    assert_eq!(show(&mut v, 20, Some(9), 5, 1), rows(6, 11));
    assert_eq!(show(&mut v, 20, Some(5), 5, 1), rows(5, 10));
}

#[test]
fn selection_viewport_scrolls_only_after_crossing_an_edge() {
    let mut viewport = SelectionViewport::new();

    assert_eq!(show(&mut viewport, 20, Some(4), 5, 1), rows(0, 5));
    assert_eq!(show(&mut viewport, 20, Some(3), 5, 1), rows(0, 5));
    assert_eq!(show(&mut viewport, 20, Some(5), 5, 1), rows(1, 6));
}

#[test]
fn selection_viewport_reveals_wrapped_selections() {
    let mut viewport = SelectionViewport::new();

    assert_eq!(show(&mut viewport, 20, Some(19), 5, 1), rows(15, 20));
    assert_eq!(show(&mut viewport, 20, Some(0), 5, 1), rows(0, 5));
    assert_eq!(show(&mut viewport, 20, Some(19), 5, 1), rows(15, 20));
}

#[test]
fn selection_viewport_handles_empty_zero_and_invalid_selections() {
    let mut viewport = SelectionViewport::new();

    assert_eq!(show(&mut viewport, 0, Some(0), 5, 1), rows(0, 0));
    assert_eq!(show(&mut viewport, 20, Some(10), 0, 1), rows(0, 0));
    assert_eq!(show(&mut viewport, 4, Some(99), 2, 1), rows(0, 2));
    assert_eq!(show(&mut viewport, 4, None, 2, 1), rows(0, 2));
}

#[test]
fn selection_viewport_resets_for_new_dataset_before_revealing_selection() {
    let mut viewport = SelectionViewport::new();

    assert_eq!(show(&mut viewport, 20, Some(10), 5, 1), rows(6, 11));
    assert_eq!(show(&mut viewport, 20, Some(2), 5, 2), rows(0, 5));
    assert_eq!(show(&mut viewport, 20, Some(10), 5, 3), rows(6, 11));
}

#[test]
fn selection_viewport_clamps_shrinking_content_and_resized_windows() {
    let mut viewport = SelectionViewport::new();

    assert_eq!(show(&mut viewport, 20, Some(15), 5, 1), rows(11, 16));
    assert_eq!(show(&mut viewport, 13, Some(12), 5, 1), rows(8, 13));
    assert_eq!(show(&mut viewport, 13, Some(12), 8, 1), rows(5, 13));
    assert_eq!(show(&mut viewport, 13, Some(12), 3, 1), rows(10, 13));
    assert_eq!(show(&mut viewport, 13, Some(10), 3, 1), rows(10, 13));
}

#[test]
fn ordered_viewport_preserves_top_identity_when_a_prior_row_is_removed() {
    let previous = (0_u64..20).collect::<Vec<_>>();
    let next =
        previous.iter().copied().filter(|identity| *identity != 2).collect::<Vec<_>>();
    let mut viewport = SelectionViewport::new();
    let previous_key = ordered("anchor-removal", 1, &previous);
    assert_eq!(
        viewport.visible_range(previous.len(), Some(10), 5, previous_key.clone()),
        rows(6, 11)
    );
    assert_eq!(viewport.visible_range(previous.len(), Some(9), 5, previous_key), rows(6, 11));
    let next_key = ordered("anchor-removal", 2, &next);

    assert_eq!(viewport.visible_range(next.len(), Some(8), 5, next_key), rows(5, 10));
    assert_eq!(next[5], 6, "the prior top-visible identity must remain anchored");
}

#[test]
fn ordered_viewport_preserves_selected_offset_across_prepend_and_reorder() {
    let previous = (0_u64..20).collect::<Vec<_>>();
    let mut viewport = SelectionViewport::new();
    let previous_key = ordered("anchor-reconcile", 1, &previous);
    assert_eq!(
        viewport.visible_range(previous.len(), Some(10), 5, previous_key.clone()),
        rows(6, 11)
    );
    assert_eq!(viewport.visible_range(previous.len(), Some(9), 5, previous_key), rows(6, 11));

    let prepended =
        [98_u64, 99].into_iter().chain(previous.iter().copied()).collect::<Vec<_>>();
    let prepended_key = ordered("anchor-reconcile", 2, &prepended);
    assert_eq!(
        viewport.visible_range(prepended.len(), Some(11), 5, prepended_key),
        rows(8, 13)
    );
    assert_eq!(prepended[8], 6);

    let reordered = (5_u64..20).chain(0..5).collect::<Vec<_>>();
    let reordered_key = ordered("anchor-reconcile", 3, &reordered);
    assert_eq!(viewport.visible_range(reordered.len(), Some(4), 5, reordered_key), rows(1, 6));
    assert_eq!(reordered[1], 6);
}

#[test]
fn ordered_viewport_keeps_nearest_replacement_at_removed_selection_offset() {
    let previous = (0_u64..20).collect::<Vec<_>>();
    let next =
        previous.iter().copied().filter(|identity| *identity != 6).collect::<Vec<_>>();
    let mut viewport = SelectionViewport::new();
    let previous_key = ordered("selected-anchor-removal", 1, &previous);
    assert_eq!(
        viewport.visible_range(previous.len(), Some(10), 5, previous_key.clone()),
        rows(6, 11)
    );
    assert_eq!(viewport.visible_range(previous.len(), Some(6), 5, previous_key), rows(6, 11));
    let next_key = ordered("selected-anchor-removal", 2, &next);

    assert_eq!(viewport.visible_range(next.len(), Some(6), 5, next_key), rows(6, 11));
    assert_eq!(next[6], 7);
}

#[test]
fn ordered_viewport_clamps_removed_selected_top_anchor_at_boundaries() {
    for (previous, removed, selected, max_rows, expected) in [
        ((0_u64..5).collect::<Vec<_>>(), 0, 0, 3, rows(0, 3)),
        ((0_u64..5).collect::<Vec<_>>(), 4, 3, 1, rows(3, 4)),
    ] {
        let next =
            previous.iter().copied().filter(|identity| *identity != removed).collect::<Vec<_>>();
        let mut viewport = SelectionViewport::new();
        let previous_key = ordered("selected-anchor-boundary", removed, &previous);
        let removed_index = previous
            .iter()
            .position(|identity| *identity == removed)
            .unwrap_or_else(|| panic!("removed identity fixture"));
        assert!(viewport
            .visible_range(previous.len(), Some(removed_index), max_rows, previous_key)
            .contains(removed_index));
        let next_key = ordered("selected-anchor-boundary", removed.wrapping_add(10), &next);

        assert_eq!(
            viewport.visible_range(next.len(), Some(selected), max_rows, next_key),
            expected
        );
    }
}

#[test]
fn ordered_viewport_resize_keeps_selection_visible_and_range_bounded() {
    let identities = (0_u64..20).collect::<Vec<_>>();
    let key = ordered("anchor-resize", 1, &identities);
    let mut viewport = SelectionViewport::new();
    assert_eq!(
        viewport.visible_range(identities.len(), Some(10), 5, key.clone()),
        rows(6, 11)
    );
    let smaller = viewport.visible_range(identities.len(), Some(10), 3, key.clone());
    assert!(smaller.contains(10));
    assert_eq!(smaller.len(), 3);
    assert!(smaller.end <= identities.len());
    let larger = viewport.visible_range(identities.len(), Some(10), 8, key);
    assert!(larger.contains(10));
    assert!(larger.len() <= 8);
    assert!(larger.end <= identities.len());
}

#[test]
fn selection_viewport_preserves_offset_through_transient_zero_rows() {
    let mut viewport = SelectionViewport::new();

    assert_eq!(show(&mut viewport, 20, Some(10), 5, 1), rows(6, 11));
    assert_eq!(show(&mut viewport, 20, Some(9), 5, 1), rows(6, 11));
    assert_eq!(show(&mut viewport, 20, Some(9), 0, 1), rows(0, 0));
    assert_eq!(show(&mut viewport, 20, Some(9), 5, 1), rows(6, 11));
}

#[test]
fn selection_viewport_applies_dataset_reset_during_zero_rows() {
    let mut viewport = SelectionViewport::new();

    assert_eq!(show(&mut viewport, 20, Some(10), 5, 1), rows(6, 11));
    assert_eq!(show(&mut viewport, 20, Some(9), 0, 2), rows(0, 0));
    assert_eq!(show(&mut viewport, 20, Some(9), 5, 2), rows(5, 10));
}

fn assert_persistent_slot(viewport: &mut SelectionViewport) {
    assert_eq!(show(viewport, 20, Some(10), 5, 7), rows(6, 11));
    assert_eq!(show(viewport, 20, Some(9), 5, 7), rows(6, 11));
}

#[test]
fn viewport_memory_keeps_every_long_list_independent() {
    let mut memory = ViewportMemory::new();

    assert_persistent_slot(&mut memory.search);
    assert_persistent_slot(&mut memory.charts);
    assert_persistent_slot(&mut memory.podcast_recommendations);
    assert_persistent_slot(&mut memory.podcast_episodes);
    assert_persistent_slot(&mut memory.library);
    assert_persistent_slot(&mut memory.favorites);
    assert_persistent_slot(&mut memory.history);
    assert_persistent_slot(&mut memory.queue);
    assert_persistent_slot(&mut memory.country_picker);
    assert_persistent_slot(&mut memory.browser_picker);

    assert_eq!(show(&mut memory.search, 20, Some(5), 5, 7), rows(5, 10));
    assert_eq!(show(&mut memory.charts, 20, Some(9), 5, 7), rows(6, 11));
    assert_eq!(show(&mut memory.country_picker, 20, Some(9), 5, 7), rows(6, 11));
}

#[test]
fn lists_are_the_same_while_more_is_on_its_way() {
    let first = ordered_dataset_key("c", 1, numbered(&[1, 2]), DatasetUpdate::Replace);
    let loading = ordered_dataset_key("c", 2, numbered(&[1, 2]), DatasetUpdate::AppendInProgress);
    let more = ordered_dataset_key("c", 2, numbered(&[1, 2, 3]), DatasetUpdate::Replace);
    let other = ordered_dataset_key("c", 3, numbered(&[9, 2, 3]), DatasetUpdate::Replace);
    assert!(dataset_transition_preserves(&first, &loading));
    assert!(dataset_transition_preserves(&loading, &more));
    assert!(!dataset_transition_preserves(&first, &more));
    assert!(!dataset_transition_preserves(&loading, &other));
    let listed = dataset_key(vec!["a".to_owned()]);
    assert!(dataset_transition_preserves(&listed, &dataset_key(vec!["a".to_owned()])));
    assert!(!dataset_transition_preserves(&listed, &scalar(0)));
}

#[test]
fn glides_start_where_the_selection_was_and_end_on_the_target() {
    let resting = SelectionMotion::snapped(2, 0);
    assert_eq!(resting.current_index(), Some(2));
    assert!(!resting.is_transitioning(1));
    let moving = resting.retargeted(4, 100);
    assert_eq!(moving.rounded_index(100), Some(2));
    assert!(moving.is_transitioning(100));
    assert_eq!(moving.rounded_index(175), Some(3));
    assert_eq!(moving.rounded_index(250), Some(4));
    assert!(!moving.is_transitioning(250));
    assert!(SelectionMotion::resting_nowhere().rounded_index(0).is_none());
}

#[test]
fn spinners_are_recognised_and_remembered() {
    for index in 0..20 {
        assert!(starts_with_spinner(loading_label(index, "Loading", 40).text().as_str()));
    }
    assert_eq!(spinner_frame(0), "⠋");
    let mut memory = ViewportMemory::new();
    memory.begin_selection_frame(Rect::new(0, 0, 20, 5), 0);
    assert!(!memory.spinner_motion_visible());
    memory.observe_spinner_lines(
        &vec![line("plain"), loading_label(3, "Loading", 20)],
        Rect::new(1, 1, 18, 3),
    );
    assert!(memory.spinner_motion_visible());
    memory.occlude_motion(Rect::new(0, 0, 20, 5));
    assert!(!memory.spinner_motion_visible());
}

#[test]
fn clicks_are_kept_within_what_is_visible() {
    let mut map = InteractionMap::new();
    let visible = Rect::new(2, 2, 4, 2);
    let target = HitTarget::Navigation(tuneterm::ui::model::NavigationItem::Home);
    map.push_clipped(Rect::new(0, 0, 4, 4), visible, target);
    map.push_clipped(Rect::new(20, 20, 4, 4), visible, target);
    assert_eq!(map.hits().len(), 1);
    assert_eq!(map.hits()[0].area, Rect::new(2, 2, 2, 2));
    let viewport = SelectionViewport::new();
    register_row_targets(
        &mut map,
        visible,
        &vec![
            viewport.row_target(1, ListSurface::Queue, 7),
            viewport.row_target(5, ListSurface::Queue, 11),
        ],
    );
    assert_eq!(map.hits().len(), 2);
    assert_eq!(map.hits()[1].area, Rect::new(2, 3, 4, 1));
    assert_eq!(
        map.hits()[1].target,
        HitTarget::ListRow { surface: ListSurface::Queue, stable_index: 7 }
    );
    map.clear();
    assert!(map.hits().is_empty());
}

#[test]
fn rows_stay_without_a_selection_too() {
    let mut viewport = SelectionViewport::default();
    assert_eq!(show(&mut viewport, 20, Some(12), 5, 1), rows(8, 13));
    assert_eq!(show(&mut viewport, 20, None, 5, 1), rows(8, 13));
    assert_eq!(show(&mut viewport, 20, Some(99), 5, 1), rows(8, 13));
    assert_eq!(show(&mut viewport, 20, Some(8), 3, 1), rows(8, 11));
}
