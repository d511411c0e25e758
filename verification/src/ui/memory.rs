//! What is remembered from one picture to the next: which rows each list shows,
//! and how selections move.

use vstd::prelude::*;
use vstd::string::*;

use crate::domain::optional_text;
use crate::ui::cells::{cell_width, cells};
use crate::ui::interaction::ListSurface;
use crate::ui::layout::{capped_sum, least, lies_within, limited, rect_contains, Rect};
use crate::ui::line::{line_views, text_of_line, Line, LineView};
use crate::ui::motion::{
    begins_with_spinner, moves, resting, row_of, starts_with_spinner, turned, Glide,
    SelectionMotion,
};
use crate::ui::viewport::{
    dataset_transition_preserves, fresh_viewport, identity_at, optional_key, preserves, selected_within,
    DatasetKey, DatasetKeyView, DatasetUpdate, RowRange, SelectionViewport, ViewportView,
};

verus! {

/// How many lists there are on the screen.
pub const LIST_SURFACE_COUNT: usize = 13;

/// The number of a list.
pub open spec fn surface_number(surface: ListSurface) -> int {
    match surface {
        ListSurface::Home => 0,
        ListSurface::Search => 1,
        ListSurface::Charts => 2,
        ListSurface::PodcastRecommendations => 3,
        ListSurface::PodcastEpisodes => 4,
        ListSurface::Library => 5,
        ListSurface::Favorites => 6,
        ListSurface::History => 7,
        ListSurface::Queue => 8,
        ListSurface::CommandPalette => 9,
        ListSurface::CountryPicker => 10,
        ListSurface::BrowserPicker => 11,
        ListSurface::Lyrics => 12,
    }
}

/// The number of a list.
pub fn list_surface_index(surface: ListSurface) -> (index: usize)
    ensures
        index == surface_number(surface),
        index < LIST_SURFACE_COUNT,
{
    match surface {
        ListSurface::Home => 0,
        ListSurface::Search => 1,
        ListSurface::Charts => 2,
        ListSurface::PodcastRecommendations => 3,
        ListSurface::PodcastEpisodes => 4,
        ListSurface::Library => 5,
        ListSurface::Favorites => 6,
        ListSurface::History => 7,
        ListSurface::Queue => 8,
        ListSurface::CommandPalette => 9,
        ListSurface::CountryPicker => 10,
        ListSurface::BrowserPicker => 11,
        ListSurface::Lyrics => 12,
    }
}

/// Where the selection of a list is shown.
#[derive(Clone, Copy, Debug, Eq, PartialEq, Structural)]
pub struct SelectionPresentation {
    /// The row that is selected.
    pub logical_index: Option<usize>,
    /// The row where the moving cursor is.
    pub cursor_index: Option<usize>,
    pub transitioning: bool,
}

/// Nothing is selected.
pub open spec fn no_selection() -> SelectionPresentation {
    SelectionPresentation { logical_index: None, cursor_index: None, transitioning: false }
}

/// How the selection of one list moves.
#[derive(Debug)]
pub struct SelectionMotionSlot {
    pub motion: SelectionMotion,
    pub dataset_key: Option<DatasetKey>,
    pub visible_range: RowRange,
    pub selected_identity: Option<String>,
    pub motion_region: Option<Rect>,
    pub seen: bool,
}

/// What a [`SelectionMotionSlot`] remembers.
#[verifier::ext_equal]
pub struct SlotView {
    pub motion: Option<Glide>,
    pub dataset_key: Option<DatasetKeyView>,
    pub visible_range: RowRange,
    pub selected_identity: Option<Seq<char>>,
    pub motion_region: Option<Rect>,
    pub seen: bool,
}

impl View for SelectionMotionSlot {
    type V = SlotView;

    open spec fn view(&self) -> SlotView {
        SlotView {
            motion: self.motion@,
            dataset_key: optional_key(self.dataset_key),
            visible_range: self.visible_range,
            selected_identity: optional_text(self.selected_identity),
            motion_region: self.motion_region,
            seen: self.seen,
        }
    }
}

/// A list of which nothing is known.
pub open spec fn empty_slot() -> SlotView {
    SlotView {
        motion: None,
        dataset_key: None,
        visible_range: RowRange { start: 0, end: 0 },
        selected_identity: None,
        motion_region: None,
        seen: false,
    }
}

/// What the slots of a list say.
pub open spec fn slot_views(slots: Seq<SelectionMotionSlot>) -> Seq<SlotView> {
    slots.map_values(|slot: SelectionMotionSlot| slot@)
}

/// Whether a selection goes on moving in the list `next` that was shown as
/// `previous`: the list is the same, or its rows moved and the same row is
/// selected.
pub open spec fn selection_preserves(
    previous: DatasetKeyView,
    next: DatasetKeyView,
    previous_identity: Option<Seq<char>>,
    next_identity: Option<Seq<char>>,
) -> bool {
    ||| preserves(previous, next)
    ||| match (previous, next) {
        (DatasetKeyView::Ordered(previous), DatasetKeyView::Ordered(next)) => {
            &&& previous.context == next.context
            &&& next.update == DatasetUpdate::Reconcile
            &&& previous_identity is Some
            &&& previous_identity == next_identity
        },
        _ => false,
    }
}

/// What is remembered of a list after its selection was shown, and where the
/// selection is shown.
pub open spec fn presented(
    slot: SlotView,
    total: usize,
    logical_index: Option<usize>,
    visible_range: RowRange,
    key: DatasetKeyView,
    now_ms: u64,
) -> (SlotView, SelectionPresentation) {
    let logical = selected_within(logical_index, total);
    let identity = match logical {
        Some(row) => identity_at(key, row as int),
        None => None,
    };
    let next = SlotView {
        motion: None,
        dataset_key: Some(key),
        visible_range,
        selected_identity: identity,
        motion_region: slot.motion_region,
        seen: true,
    };
    match logical {
        Some(row) => if visible_range.holds(row as int) {
            let offset = (row - visible_range.start) as usize;
            let compatible = slot.dataset_key matches Some(previous) && slot.visible_range
                == visible_range && selection_preserves(
                previous,
                key,
                slot.selected_identity,
                identity,
            );
            let motion = if !compatible {
                Some(resting(offset, now_ms))
            } else if slot.motion matches Some(glide) && glide.target == offset {
                slot.motion
            } else {
                Some(turned(slot.motion, offset, now_ms))
            };
            let cursor = visible_range.start + row_of(motion, now_ms)->0;
            (
                SlotView { motion, ..next },
                SelectionPresentation {
                    logical_index: Some(row),
                    cursor_index: if visible_range.holds(cursor) {
                        Some(cursor as usize)
                    } else {
                        None
                    },
                    transitioning: moves(motion, now_ms),
                },
            )
        } else {
            (next, SelectionPresentation { logical_index: logical, ..no_selection() })
        },
        None => (next, no_selection()),
    }
}

fn same_optional(left: &Option<String>, right: &Option<String>) -> (same: bool)
    ensures
        same == (optional_text(*left) == optional_text(*right)),
{
    match (left, right) {
        (Some(left), Some(right)) => *left == *right,
        (None, None) => true,
        _ => false,
    }
}

fn selection_dataset_preserves(
    previous: &DatasetKey,
    next: &DatasetKey,
    previous_identity: &Option<String>,
    next_identity: &Option<String>,
) -> (preserved: bool)
    ensures
        preserved == selection_preserves(
            previous@,
            next@,
            optional_text(*previous_identity),
            optional_text(*next_identity),
        ),
{
    if dataset_transition_preserves(previous, next) {
        return true;
    }
    previous.reconciles_to(next) && previous_identity.is_some() && same_optional(
        previous_identity,
        next_identity,
    )
}

impl SelectionMotionSlot {
    pub fn new() -> (slot: Self)
        ensures
            slot@ == empty_slot(),
    {
        SelectionMotionSlot {
            motion: SelectionMotion::resting_nowhere(),
            dataset_key: None,
            visible_range: RowRange { start: 0, end: 0 },
            selected_identity: None,
            motion_region: None,
            seen: false,
        }
    }

    fn present(
        self,
        total: usize,
        logical_index: Option<usize>,
        visible_range: RowRange,
        dataset_key: DatasetKey,
        now_ms: u64,
    ) -> (result: (SelectionMotionSlot, SelectionPresentation))
        ensures
            (result.0@, result.1) == presented(
                self@,
                total,
                logical_index,
                visible_range,
                dataset_key@,
                now_ms,
            ),
    {
        let logical: Option<usize> = match logical_index {
            Some(row) => if row < total {
                Some(row)
            } else {
                None
            },
            None => None,
        };
        let identity: Option<String> = match logical {
            Some(row) => dataset_key.identity(row),
            None => None,
        };
        let row: usize = match logical {
            Some(row) => if visible_range.contains(row) {
                row
            } else {
                let slot = SelectionMotionSlot {
                    motion: SelectionMotion::resting_nowhere(),
                    dataset_key: Some(dataset_key),
                    visible_range,
                    selected_identity: identity,
                    motion_region: self.motion_region,
                    seen: true,
                };
                return (
                    slot,
                    SelectionPresentation {
                        logical_index: logical,
                        cursor_index: None,
                        transitioning: false,
                    },
                );
            },
            None => {
                let slot = SelectionMotionSlot {
                    motion: SelectionMotion::resting_nowhere(),
                    dataset_key: Some(dataset_key),
                    visible_range,
                    selected_identity: identity,
                    motion_region: self.motion_region,
                    seen: true,
                };
                return (
                    slot,
                    SelectionPresentation {
                        logical_index: None,
                        cursor_index: None,
                        transitioning: false,
                    },
                );
            },
        };
        let offset: usize = row - visible_range.start;
        let compatible = match &self.dataset_key {
            Some(previous) => self.visible_range == visible_range && selection_dataset_preserves(
                previous,
                &dataset_key,
                &self.selected_identity,
                &identity,
            ),
            None => false,
        };
        let motion = if !compatible {
            SelectionMotion::snapped(offset, now_ms)
        } else {
            match self.motion.current_index() {
                Some(target) => if target == offset {
                    self.motion
                } else {
                    self.motion.retargeted(offset, now_ms)
                },
                None => self.motion.retargeted(offset, now_ms),
            }
        };
        let cursor_index: Option<usize> = match motion.rounded_index(now_ms) {
            Some(place) => {
                let cursor: usize = visible_range.start.saturating_add(place);
                if visible_range.contains(cursor) {
                    Some(cursor)
                } else {
                    None
                }
            },
            None => None,
        };
        let presentation = SelectionPresentation {
            logical_index: Some(row),
            cursor_index,
            transitioning: motion.is_transitioning(now_ms),
        };
        let slot = SelectionMotionSlot {
            motion,
            dataset_key: Some(dataset_key),
            visible_range,
            selected_identity: identity,
            motion_region: self.motion_region,
            seen: true,
        };
        (slot, presentation)
    }
}

/// What is remembered from one picture to the next.
#[derive(Debug)]
pub struct ViewportMemory {
    pub search: SelectionViewport,
    pub charts: SelectionViewport,
    pub podcast_recommendations: SelectionViewport,
    pub podcast_episodes: SelectionViewport,
    pub library: SelectionViewport,
    pub favorites: SelectionViewport,
    pub history: SelectionViewport,
    pub queue: SelectionViewport,
    pub country_picker: SelectionViewport,
    pub browser_picker: SelectionViewport,
    pub slots: Vec<SelectionMotionSlot>,
    pub frame_area: Option<Rect>,
    pub frame_now_ms: u64,
    pub progress_motion_regions: Vec<Rect>,
    pub spinner_motion_regions: Vec<Rect>,
}

/// What a [`ViewportMemory`] remembers.
#[verifier::ext_equal]
pub struct MemoryView {
    pub search: ViewportView,
    pub charts: ViewportView,
    pub podcast_recommendations: ViewportView,
    pub podcast_episodes: ViewportView,
    pub library: ViewportView,
    pub favorites: ViewportView,
    pub history: ViewportView,
    pub queue: ViewportView,
    pub country_picker: ViewportView,
    pub browser_picker: ViewportView,
    pub slots: Seq<SlotView>,
    pub frame_area: Option<Rect>,
    pub frame_now_ms: u64,
    pub progress_motion_regions: Seq<Rect>,
    pub spinner_motion_regions: Seq<Rect>,
}

impl View for ViewportMemory {
    type V = MemoryView;

    open spec fn view(&self) -> MemoryView {
        MemoryView {
            search: self.search@,
            charts: self.charts@,
            podcast_recommendations: self.podcast_recommendations@,
            podcast_episodes: self.podcast_episodes@,
            library: self.library@,
            favorites: self.favorites@,
            history: self.history@,
            queue: self.queue@,
            country_picker: self.country_picker@,
            browser_picker: self.browser_picker@,
            slots: slot_views(self.slots@),
            frame_area: self.frame_area,
            frame_now_ms: self.frame_now_ms,
            progress_motion_regions: self.progress_motion_regions@,
            spinner_motion_regions: self.spinner_motion_regions@,
        }
    }
}

/// So many lists of which nothing is known.
pub open spec fn empty_slots() -> Seq<SlotView> {
    Seq::new(LIST_SURFACE_COUNT as nat, |index: int| empty_slot())
}

/// The regions that do not lie behind a window.
pub open spec fn not_covered(regions: Seq<Rect>, popup: Rect) -> Seq<Rect>
    decreases regions.len(),
{
    if regions.len() == 0 {
        Seq::empty()
    } else if lies_within(regions.last(), popup) {
        not_covered(regions.drop_last(), popup)
    } else {
        not_covered(regions.drop_last(), popup).push(regions.last())
    }
}

/// The regions of the lines that begin with a spinner.
pub open spec fn spinner_regions(lines: Seq<LineView>, area: Rect) -> Seq<Rect>
    decreases lines.len(),
{
    if lines.len() == 0 {
        Seq::empty()
    } else {
        let before = spinner_regions(lines.drop_last(), area);
        let text = text_of_line(lines.last());
        let row = lines.len() - 1;
        if begins_with_spinner(text) && row <= u16::MAX {
            before.push(
                limited(
                    area.x,
                    capped_sum(area.y as int, row),
                    least(cells(text), area.width as int) as u16,
                    1,
                ),
            )
        } else {
            before
        }
    }
}

impl MemoryView {
    /// What every memory keeps: a place for each list.
    pub open spec fn wf(self) -> bool {
        self.slots.len() == LIST_SURFACE_COUNT
    }

    /// The memory when a picture is begun.
    pub open spec fn begun(self, area: Rect, now_ms: u64) -> MemoryView {
        let slots = if self.frame_area is Some && self.frame_area != Some(area) {
            empty_slots()
        } else {
            self.slots
        };
        MemoryView {
            slots: slots.map_values(|slot: SlotView| SlotView { seen: false, ..slot }),
            frame_area: Some(area),
            frame_now_ms: now_ms,
            progress_motion_regions: Seq::empty(),
            spinner_motion_regions: Seq::empty(),
            ..self
        }
    }

    /// The memory after the selection of a list was shown, and where it is shown.
    pub open spec fn with_selection(
        self,
        surface: ListSurface,
        total: usize,
        logical_index: Option<usize>,
        visible_range: RowRange,
        key: DatasetKeyView,
        now_ms: u64,
    ) -> (MemoryView, SelectionPresentation) {
        let number = surface_number(surface);
        let (slot, presentation) = presented(
            self.slots[number],
            total,
            logical_index,
            visible_range,
            key,
            now_ms,
        );
        (MemoryView { slots: self.slots.update(number, slot), ..self }, presentation)
    }

    /// The memory with the place where a selection moves.
    pub open spec fn with_motion_region(self, surface: ListSurface, region: Option<Rect>) -> MemoryView {
        let number = surface_number(surface);
        MemoryView {
            slots: self.slots.update(
                number,
                SlotView { motion_region: region, ..self.slots[number] },
            ),
            ..self
        }
    }

    /// The memory with the spinners of lines.
    pub open spec fn with_spinners(self, lines: Seq<LineView>, area: Rect) -> MemoryView {
        MemoryView {
            spinner_motion_regions: self.spinner_motion_regions + spinner_regions(lines, area),
            ..self
        }
    }

    /// The memory with a progress bar that moves.
    pub open spec fn with_progress(self, region: Rect) -> MemoryView {
        MemoryView {
            progress_motion_regions: self.progress_motion_regions.push(region),
            ..self
        }
    }

    /// The memory when a window covers a part of the screen.
    pub open spec fn covered(self, popup: Rect) -> MemoryView {
        MemoryView {
            progress_motion_regions: not_covered(self.progress_motion_regions, popup),
            spinner_motion_regions: not_covered(self.spinner_motion_regions, popup),
            slots: self.slots.map_values(
                |slot: SlotView|
                    if slot.motion_region matches Some(region) && lies_within(region, popup) {
                        SlotView { seen: false, ..slot }
                    } else {
                        slot
                    },
            ),
            ..self
        }
    }

    /// The memory when a picture is done: lists that were not shown are
    /// forgotten.
    pub open spec fn ended(self) -> MemoryView {
        MemoryView {
            slots: self.slots.map_values(
                |slot: SlotView|
                    if slot.seen {
                        slot
                    } else {
                        empty_slot()
                    },
            ),
            ..self
        }
    }
}

/// A memory before the first picture.
pub open spec fn fresh_memory() -> MemoryView {
    MemoryView {
        search: fresh_viewport(),
        charts: fresh_viewport(),
        podcast_recommendations: fresh_viewport(),
        podcast_episodes: fresh_viewport(),
        library: fresh_viewport(),
        favorites: fresh_viewport(),
        history: fresh_viewport(),
        queue: fresh_viewport(),
        country_picker: fresh_viewport(),
        browser_picker: fresh_viewport(),
        slots: empty_slots(),
        frame_area: None,
        frame_now_ms: 0,
        progress_motion_regions: Seq::empty(),
        spinner_motion_regions: Seq::empty(),
    }
}

fn fresh_slots() -> (slots: Vec<SelectionMotionSlot>)
    ensures
        slot_views(slots@) == empty_slots(),
{
    let mut slots: Vec<SelectionMotionSlot> = Vec::new();
    let mut index: usize = 0;
    while index < LIST_SURFACE_COUNT
        invariant
            index <= LIST_SURFACE_COUNT,
            slots.len() == index,
            forall|i: int| 0 <= i < index ==> (#[trigger] slots@[i])@ == empty_slot(),
        decreases LIST_SURFACE_COUNT - index,
    {
        slots.push(SelectionMotionSlot::new());
        index = index + 1;
    }
    assert(slot_views(slots@) =~= empty_slots());
    slots
}

fn uncovered(regions: &Vec<Rect>, popup: Rect) -> (kept: Vec<Rect>)
    ensures
        kept@ == not_covered(regions@, popup),
{
    let mut kept: Vec<Rect> = Vec::new();
    let mut index: usize = 0;
    assert(regions@.take(0) =~= Seq::<Rect>::empty());
    while index < regions.len()
        invariant
            index <= regions.len(),
            kept@ == not_covered(regions@.take(index as int), popup),
        decreases regions.len() - index,
    {
        let region = regions[index];
        if !rect_contains(popup, region) {
            kept.push(region);
        }
        index = index + 1;
        assert(regions@.take(index as int).drop_last() =~= regions@.take(index - 1));
    }
    assert(regions@.take(index as int) =~= regions@);
    kept
}

impl Default for ViewportMemory {
    fn default() -> (memory: Self)
        ensures
            memory@.wf(),
            memory@ == fresh_memory(),
    {
        ViewportMemory::new()
    }
}

impl ViewportMemory {
    pub fn new() -> (memory: Self)
        ensures
            memory@.wf(),
            memory@ == fresh_memory(),
    {
        let memory = ViewportMemory {
            search: SelectionViewport::new(),
            charts: SelectionViewport::new(),
            podcast_recommendations: SelectionViewport::new(),
            podcast_episodes: SelectionViewport::new(),
            library: SelectionViewport::new(),
            favorites: SelectionViewport::new(),
            history: SelectionViewport::new(),
            queue: SelectionViewport::new(),
            country_picker: SelectionViewport::new(),
            browser_picker: SelectionViewport::new(),
            slots: fresh_slots(),
            frame_area: None,
            frame_now_ms: 0,
            progress_motion_regions: Vec::new(),
            spinner_motion_regions: Vec::new(),
        };
        assert(memory@ =~= fresh_memory());
        memory
    }

    /// Begins a picture. On a screen of another size no selection goes on moving.
    pub fn begin_selection_frame(&mut self, area: Rect, now_ms: u64)
        requires
            old(self)@.wf(),
        ensures
            final(self)@.wf(),
            final(self)@ == old(self)@.begun(area, now_ms),
    {
        let changed = match self.frame_area {
            Some(previous) => previous != area,
            None => false,
        };
        if changed {
            self.slots = fresh_slots();
        }
        let ghost slots = self@.slots;
        self.frame_area = Some(area);
        self.frame_now_ms = now_ms;
        self.progress_motion_regions = Vec::new();
        self.spinner_motion_regions = Vec::new();
        let mut index: usize = 0;
        let ghost before = *self;
        while index < self.slots.len()
            invariant
                index <= self.slots.len(),
                self.slots.len() == slots.len(),
                *self == (ViewportMemory { slots: self.slots, ..before }),
                forall|i: int|
                    0 <= i < index ==> (#[trigger] self.slots@[i])@ == (SlotView {
                        seen: false,
                        ..slots[i]
                    }),
                forall|i: int| index <= i < slots.len() ==> (#[trigger] self.slots@[i])@ == slots[i],
            decreases self.slots.len() - index,
        {
            let mut slot = self.slots.remove(index);
            slot.seen = false;
            self.slots.insert(index, slot);
            index = index + 1;
        }
        assert(self@ =~= old(self)@.begun(area, now_ms));
    }

    /// Shows the selection of a list.
    pub fn present_selection(
        &mut self,
        surface: ListSurface,
        total: usize,
        logical_index: Option<usize>,
        visible_range: RowRange,
        dataset_key: DatasetKey,
        now_ms: u64,
    ) -> (presentation: SelectionPresentation)
        requires
            old(self)@.wf(),
        ensures
            final(self)@.wf(),
            (final(self)@, presentation) == old(self)@.with_selection(
                surface,
                total,
                logical_index,
                visible_range,
                dataset_key@,
                now_ms,
            ),
    {
        let index: usize = list_surface_index(surface);
        let ghost slots = self.slots@;
        let slot = self.slots.remove(index);
        let (slot, presentation) = slot.present(
            total,
            logical_index,
            visible_range,
            dataset_key,
            now_ms,
        );
        self.slots.insert(index, slot);
        assert(self.slots@ =~= slots.update(index as int, slot));
        assert(slot_views(self.slots@) =~= slot_views(slots).update(index as int, slot@));
        presentation
    }

    /// Ends a picture. Lists that were not shown are forgotten.
    pub fn end_selection_frame(&mut self)
        requires
            old(self)@.wf(),
        ensures
            final(self)@.wf(),
            final(self)@ == old(self)@.ended(),
    {
        let ghost slots = self@.slots;
        let ghost before = *self;
        let mut index: usize = 0;
        while index < self.slots.len()
            invariant
                index <= self.slots.len(),
                self.slots.len() == slots.len(),
                *self == (ViewportMemory { slots: self.slots, ..before }),
                forall|i: int|
                    0 <= i < index ==> (#[trigger] self.slots@[i])@ == if slots[i].seen {
                        slots[i]
                    } else {
                        empty_slot()
                    },
                forall|i: int| index <= i < slots.len() ==> (#[trigger] self.slots@[i])@ == slots[i],
            decreases self.slots.len() - index,
        {
            let slot = self.slots.remove(index);
            if slot.seen {
                self.slots.insert(index, slot);
            } else {
                self.slots.insert(index, SelectionMotionSlot::new());
            }
            index = index + 1;
        }
        assert(self@ =~= old(self)@.ended());
    }

    /// Whether the selection of a list that is shown moves.
    pub fn selection_transitioning(&self) -> (transitioning: bool)
        ensures
            transitioning == exists|i: int|
                0 <= i < self@.slots.len() && (#[trigger] self@.slots[i]).seen && moves(
                    self@.slots[i].motion,
                    self@.frame_now_ms,
                ),
    {
        let mut index: usize = 0;
        while index < self.slots.len()
            invariant
                index <= self.slots.len(),
                forall|i: int|
                    0 <= i < index ==> !((#[trigger] self@.slots[i]).seen && moves(
                        self@.slots[i].motion,
                        self@.frame_now_ms,
                    )),
            decreases self.slots.len() - index,
        {
            if self.slots[index].seen && self.slots[index].motion.is_transitioning(
                self.frame_now_ms,
            ) {
                assert(self@.slots[index as int].seen);
                return true;
            }
            assert(self@.slots[index as int] == self.slots@[index as int]@);
            index = index + 1;
        }
        false
    }

    /// Whether a progress bar that moves can be seen.
    pub fn progress_motion_visible(&self) -> (visible: bool)
        ensures
            visible == (self@.progress_motion_regions.len() > 0),
    {
        self.progress_motion_regions.len() > 0
    }

    /// Whether a spinner can be seen.
    pub fn spinner_motion_visible(&self) -> (visible: bool)
        ensures
            visible == (self@.spinner_motion_regions.len() > 0),
    {
        self.spinner_motion_regions.len() > 0
    }

    /// Remembers where lines begin with a spinner.
    pub fn observe_spinner_lines(&mut self, lines: &Vec<Line>, area: Rect)
        ensures
            final(self)@ == old(self)@.with_spinners(line_views(lines@), area),
            old(self)@.wf() ==> final(self)@.wf(),
    {
        let ghost all = line_views(lines@);
        let ghost before = *self;
        let ghost regions = self.spinner_motion_regions@;
        let mut index: usize = 0;
        assert(all.take(0) =~= Seq::<LineView>::empty());
        while index < lines.len()
            invariant
                all == line_views(lines@),
                index <= lines.len(),
                *self == (ViewportMemory {
                    spinner_motion_regions: self.spinner_motion_regions,
                    ..before
                }),
                self.spinner_motion_regions@ == regions + spinner_regions(
                    all.take(index as int),
                    area,
                ),
            decreases lines.len() - index,
        {
            let text = lines[index].text();
            assert(all.take(index + 1).drop_last() =~= all.take(index as int));
            assert(all.take(index + 1).last() == lines@[index as int]@);
            if starts_with_spinner(text.as_str()) && index <= 65_535 {
                let width: u16 = cell_width(text.as_str());
                self.spinner_motion_regions.push(
                    Rect::new(
                        area.x,
                        area.y.saturating_add(index as u16),
                        if width < area.width {
                            width
                        } else {
                            area.width
                        },
                        1,
                    ),
                );
            }
            index = index + 1;
            assert(self.spinner_motion_regions@ =~= regions + spinner_regions(
                all.take(index as int),
                area,
            ));
        }
        assert(all.take(index as int) =~= all);
        assert(self@ =~= old(self)@.with_spinners(all, area));
    }

    /// Remembers where the progress bar moves.
    pub fn note_progress(&mut self, region: Rect)
        ensures
            final(self)@ == old(self)@.with_progress(region),
            old(self)@.wf() ==> final(self)@.wf(),
    {
        self.progress_motion_regions.push(region);
        assert(self@ =~= old(self)@.with_progress(region));
    }

    /// Remembers where the selection of a list moves.
    pub fn set_selection_motion_region(&mut self, surface: ListSurface, region: Option<Rect>)
        requires
            old(self)@.wf(),
        ensures
            final(self)@.wf(),
            final(self)@ == old(self)@.with_motion_region(surface, region),
    {
        let index: usize = list_surface_index(surface);
        let ghost slots = self.slots@;
        let mut slot = self.slots.remove(index);
        slot.motion_region = region;
        self.slots.insert(index, slot);
        assert(self.slots@ =~= slots.update(index as int, slot));
        assert(slot_views(self.slots@) =~= slot_views(slots).update(index as int, slot@));
    }

    /// Forgets what moves behind a window.
    pub fn occlude_motion(&mut self, popup: Rect)
        requires
            old(self)@.wf(),
        ensures
            final(self)@.wf(),
            final(self)@ == old(self)@.covered(popup),
    {
        self.progress_motion_regions = uncovered(&self.progress_motion_regions, popup);
        self.spinner_motion_regions = uncovered(&self.spinner_motion_regions, popup);
        let ghost slots = self@.slots;
        let ghost before = *self;
        let mut index: usize = 0;
        while index < self.slots.len()
            invariant
                index <= self.slots.len(),
                self.slots.len() == slots.len(),
                *self == (ViewportMemory { slots: self.slots, ..before }),
                forall|i: int|
                    0 <= i < index ==> (#[trigger] self.slots@[i])@ == if slots[i].motion_region matches Some(
                        region,
                    ) && lies_within(region, popup) {
                        SlotView { seen: false, ..slots[i] }
                    } else {
                        slots[i]
                    },
                forall|i: int| index <= i < slots.len() ==> (#[trigger] self.slots@[i])@ == slots[i],
            decreases self.slots.len() - index,
        {
            let mut slot = self.slots.remove(index);
            match slot.motion_region {
                Some(region) => {
                    if rect_contains(popup, region) {
                        slot.seen = false;
                    }
                },
                None => {},
            }
            self.slots.insert(index, slot);
            index = index + 1;
        }
        assert(self@ =~= old(self)@.covered(popup));
    }
}

/// What is shown of a selection lies among the rows that are shown, whatever
/// came before.
pub proof fn law_cursor_stays_in_sight(
    slot: SlotView,
    total: usize,
    logical_index: Option<usize>,
    visible_range: RowRange,
    key: DatasetKeyView,
    now_ms: u64,
)
    ensures
        presented(slot, total, logical_index, visible_range, key, now_ms).1.cursor_index matches Some(
            cursor,
        ) ==> visible_range.holds(cursor as int),
{
}

/// A list that was not shown in a picture starts afresh in the next.
pub proof fn law_hidden_list_is_forgotten(memory: MemoryView, surface: ListSurface)
    requires
        memory.wf(),
        !memory.slots[surface_number(surface)].seen,
    ensures
        memory.ended().slots[surface_number(surface)] == empty_slot(),
{
}

/// In a list of which nothing is known, and on a screen of another size, a
/// selection does not move: it is where it belongs.
pub proof fn law_unknown_list_snaps(
    memory: MemoryView,
    area: Rect,
    surface: ListSurface,
    total: usize,
    logical_index: usize,
    visible_range: RowRange,
    key: DatasetKeyView,
    now_ms: u64,
)
    requires
        memory.wf(),
        memory.frame_area is Some && memory.frame_area != Some(area),
        logical_index < total,
        visible_range.holds(logical_index as int),
    ensures
        memory.begun(area, now_ms).with_selection(
            surface,
            total,
            Some(logical_index),
            visible_range,
            key,
            now_ms,
        ).1 == (SelectionPresentation {
            logical_index: Some(logical_index),
            cursor_index: Some(logical_index),
            transitioning: false,
        }),
{
    let slot = memory.begun(area, now_ms).slots[surface_number(surface)];
    assert(slot == empty_slot());
    let offset = (logical_index - visible_range.start) as usize;
    let glide = resting(offset, now_ms);
    assert((glide.goal() - glide.from) * 0 == 0) by (nonlinear_arith);
    assert(row_of(Some(glide), now_ms) == Some(offset as int));
}

/// What is remembered of one list does not touch what is remembered of another.
pub proof fn law_lists_are_independent(
    memory: MemoryView,
    surface: ListSurface,
    other: ListSurface,
    total: usize,
    logical_index: Option<usize>,
    visible_range: RowRange,
    key: DatasetKeyView,
    now_ms: u64,
    region: Option<Rect>,
)
    requires
        memory.wf(),
        surface != other,
    ensures
        ({
            let after = memory.with_selection(
                surface,
                total,
                logical_index,
                visible_range,
                key,
                now_ms,
            ).0.with_motion_region(surface, region);
            &&& after.wf()
            &&& after.slots[surface_number(other)] == memory.slots[surface_number(other)]
            &&& after == (MemoryView { slots: after.slots, ..memory })
        }),
{
}

} // verus!
