//! What is shown apart from the player's own state: the view, the focus, open
//! windows and what is being typed.

use vstd::prelude::*;
use vstd::string::*;

use crate::domain::{clone_texts, texts, RegionCode};
use crate::provider::model::{append_bool, bool_text};
use crate::queue::{optional_id_text, QueueItemId};
use crate::text::{append_decimal, decimal_digits};
use crate::ui::animation::clamped;
use crate::ui::cells::{
    bounded_grapheme_prefix, grapheme_prefix, CLIP_BYTE_INSPECTION_BUDGET,
    CLIP_GRAPHEME_INSPECTION_BUDGET,
};
use crate::ui::layout::LayoutMode;
use crate::ui::motion::{MotionFrame, MotionFrameView, ProgressPresentation, ProgressView};
use crate::ui::palette::{CommandPaletteState, PaletteStateView};
use crate::ui::spectrum::{effective_spectrum_fps, MAX_SPECTRUM_FPS};
use crate::ui::theme::optional_str;

verus! {

/// A view that can be chosen.
#[derive(Clone, Copy, Debug, Eq, Hash, PartialEq, Structural)]
pub enum NavigationItem {
    Home,
    Search,
    Charts,
    Podcasts,
    Library,
    Favorites,
    History,
    Settings,
}

/// How many views there are.
pub const NAVIGATION_ITEM_COUNT: usize = 8;

/// How a view is called.
pub open spec fn view_label(item: NavigationItem) -> Seq<char> {
    match item {
        NavigationItem::Home => "Home"@,
        NavigationItem::Search => "Search"@,
        NavigationItem::Charts => "Charts"@,
        NavigationItem::Podcasts => "Podcasts"@,
        NavigationItem::Library => "Library"@,
        NavigationItem::Favorites => "Favorites"@,
        NavigationItem::History => "History"@,
        NavigationItem::Settings => "Settings"@,
    }
}

/// How a view is called where there is little room.
pub open spec fn short_view_label(item: NavigationItem) -> Seq<char> {
    match item {
        NavigationItem::Podcasts => "Pods"@,
        NavigationItem::Favorites => "Favs"@,
        _ => view_label(item),
    }
}

/// The views in their order.
pub open spec fn view_at(index: int) -> NavigationItem {
    if index == 0 {
        NavigationItem::Home
    } else if index == 1 {
        NavigationItem::Search
    } else if index == 2 {
        NavigationItem::Charts
    } else if index == 3 {
        NavigationItem::Podcasts
    } else if index == 4 {
        NavigationItem::Library
    } else if index == 5 {
        NavigationItem::Favorites
    } else if index == 6 {
        NavigationItem::History
    } else {
        NavigationItem::Settings
    }
}

impl NavigationItem {
    /// The view with this number.
    pub fn at(index: usize) -> (item: NavigationItem)
        requires
            index < NAVIGATION_ITEM_COUNT,
        ensures
            item == view_at(index as int),
    {
        match index {
            0 => NavigationItem::Home,
            1 => NavigationItem::Search,
            2 => NavigationItem::Charts,
            3 => NavigationItem::Podcasts,
            4 => NavigationItem::Library,
            5 => NavigationItem::Favorites,
            6 => NavigationItem::History,
            _ => NavigationItem::Settings,
        }
    }

    pub fn label(self) -> (label: &'static str)
        ensures
            label@ == view_label(self),
    {
        match self {
            NavigationItem::Home => "Home",
            NavigationItem::Search => "Search",
            NavigationItem::Charts => "Charts",
            NavigationItem::Podcasts => "Podcasts",
            NavigationItem::Library => "Library",
            NavigationItem::Favorites => "Favorites",
            NavigationItem::History => "History",
            NavigationItem::Settings => "Settings",
        }
    }

    pub fn compact_label(self) -> (label: &'static str)
        ensures
            label@ == short_view_label(self),
    {
        match self {
            NavigationItem::Podcasts => "Pods",
            NavigationItem::Favorites => "Favs",
            _ => self.label(),
        }
    }
}

impl Default for NavigationItem {
    fn default() -> (item: Self)
        ensures
            item == NavigationItem::Home,
    {
        NavigationItem::Home
    }
}

/// The part of the screen that keys go to.
#[derive(Clone, Copy, Debug, Eq, Hash, PartialEq, Structural)]
pub enum FocusRegion {
    Navigation,
    Content,
    Queue,
    Player,
}

impl Default for FocusRegion {
    fn default() -> (region: Self)
        ensures
            region == FocusRegion::Content,
    {
        FocusRegion::Content
    }
}

/// A window over the interface.
#[derive(Clone, Copy, Debug, Eq, Hash, PartialEq, Structural)]
pub enum Overlay {
    Help,
    CommandPalette,
    CountryPicker,
    BrowserPicker,
    Lyrics,
}

/// What a compact screen shows in its middle.
#[derive(Clone, Copy, Debug, Eq, Hash, PartialEq, Structural)]
pub enum CompactPanel {
    Content,
    Queue,
}

impl Default for CompactPanel {
    fn default() -> (panel: Self)
        ensures
            panel == CompactPanel::Content,
    {
        CompactPanel::Content
    }
}

/// What the lyrics window shows.
#[derive(Clone, Copy, Eq, Hash, PartialEq, Structural)]
pub struct LyricsOverlayState {
    pub follow_active: bool,
    pub selected_line: Option<usize>,
    pub scroll: usize,
    /// Which item the lyrics belong to.
    pub media_key: Option<u64>,
    pub plain_max_scroll: usize,
}

/// What may be logged of the lyrics window: not which item it is for.
pub open spec fn lyrics_overlay_summary(state: LyricsOverlayState) -> Seq<char> {
    "LyricsOverlayState { follow_active: "@ + bool_text(state.follow_active) + ", selected_line: "@
        + (match state.selected_line {
        Some(line) => "Some("@ + decimal_digits(line as nat) + ")"@,
        None => "None"@,
    }) + ", scroll: "@ + decimal_digits(state.scroll as nat) + ", has_media: "@ + bool_text(
        state.media_key is Some,
    ) + ", plain_max_scroll: "@ + decimal_digits(state.plain_max_scroll as nat) + " }"@
}

impl LyricsOverlayState {
    pub fn follow_active(&self) -> (follow: bool)
        ensures
            follow == self.follow_active,
    {
        self.follow_active
    }

    pub fn selected_line(&self) -> (line: Option<usize>)
        ensures
            line == self.selected_line,
    {
        self.selected_line
    }

    pub fn scroll(&self) -> (scroll: usize)
        ensures
            scroll == self.scroll,
    {
        self.scroll
    }

    /// What may be logged of the window: not which item it is for.
    pub fn summary(&self) -> (text: String)
        ensures
            text@ == lyrics_overlay_summary(*self),
    {
        let mut text = "LyricsOverlayState { follow_active: ".to_owned();
        append_bool(&mut text, self.follow_active);
        text.append(", selected_line: ");
        match self.selected_line {
            Some(line) => {
                text.append("Some(");
                append_decimal(&mut text, line as u64);
                text.append(")");
            },
            None => {
                text.append("None");
            },
        }
        text.append(", scroll: ");
        append_decimal(&mut text, self.scroll as u64);
        text.append(", has_media: ");
        append_bool(&mut text, self.media_key.is_some());
        text.append(", plain_max_scroll: ");
        append_decimal(&mut text, self.plain_max_scroll as u64);
        text.append(" }");
        assert(text@ =~= lyrics_overlay_summary(*self));
        text
    }
}

impl Default for LyricsOverlayState {
    fn default() -> (state: Self)
        ensures
            state == (LyricsOverlayState {
                follow_active: true,
                selected_line: None,
                scroll: 0,
                media_key: None,
                plain_max_scroll: 0,
            }),
    {
        LyricsOverlayState {
            follow_active: true,
            selected_line: None,
            scroll: 0,
            media_key: None,
            plain_max_scroll: 0,
        }
    }
}

/// A country that can be chosen.
#[derive(Debug, Eq, PartialEq)]
pub struct CountryChoice {
    pub label: String,
    pub region: RegionCode,
}

/// What a [`CountryChoice`] says.
#[verifier::ext_equal]
pub struct CountryChoiceView {
    pub label: Seq<char>,
    pub region: Seq<char>,
}

impl View for CountryChoice {
    type V = CountryChoiceView;

    open spec fn view(&self) -> CountryChoiceView {
        CountryChoiceView { label: self.label@, region: self.region@ }
    }
}

/// What the choices of a list say.
pub open spec fn choice_views(choices: Seq<CountryChoice>) -> Seq<CountryChoiceView> {
    choices.map_values(|choice: CountryChoice| choice@)
}

/// The countries that can be chosen, and which is selected.
#[derive(Debug, Eq, PartialEq)]
pub struct CountryPickerState {
    pub choices: Vec<CountryChoice>,
    pub selected_index: usize,
}

/// What a [`CountryPickerState`] says.
#[verifier::ext_equal]
pub struct CountryPickerView {
    pub choices: Seq<CountryChoiceView>,
    pub selected_index: usize,
}

impl View for CountryPickerState {
    type V = CountryPickerView;

    open spec fn view(&self) -> CountryPickerView {
        CountryPickerView {
            choices: choice_views(self.choices@),
            selected_index: self.selected_index,
        }
    }
}

impl Clone for CountryPickerState {
    fn clone(&self) -> (copy: Self)
        ensures
            copy@ == self@,
    {
        let mut choices: Vec<CountryChoice> = Vec::new();
        let mut index: usize = 0;
        while index < self.choices.len()
            invariant
                index <= self.choices.len(),
                choices.len() == index,
                forall|i: int| 0 <= i < index ==> (#[trigger] choices@[i])@ == self.choices@[i]@,
            decreases self.choices.len() - index,
        {
            let choice = &self.choices[index];
            choices.push(
                CountryChoice { label: choice.label.clone(), region: choice.region.clone() },
            );
            index = index + 1;
        }
        assert(choice_views(choices@) =~= choice_views(self.choices@));
        CountryPickerState { choices, selected_index: self.selected_index }
    }
}

/// The browsers that an account can be taken from, and which is selected.
#[derive(Debug, Eq, PartialEq)]
pub struct BrowserPickerState {
    pub choices: Vec<String>,
    pub selected_browser: String,
}

/// What a [`BrowserPickerState`] says.
#[verifier::ext_equal]
pub struct BrowserPickerView {
    pub choices: Seq<Seq<char>>,
    pub selected_browser: Seq<char>,
}

impl View for BrowserPickerState {
    type V = BrowserPickerView;

    open spec fn view(&self) -> BrowserPickerView {
        BrowserPickerView {
            choices: texts(self.choices@),
            selected_browser: self.selected_browser@,
        }
    }
}

impl Clone for BrowserPickerState {
    fn clone(&self) -> (copy: Self)
        ensures
            copy@ == self@,
    {
        BrowserPickerState {
            choices: clone_texts(&self.choices),
            selected_browser: self.selected_browser.clone(),
        }
    }
}

/// What is shown apart from the player's own state.
#[derive(PartialEq)]
pub struct RenderModel {
    pub view: NavigationItem,
    pub focus: FocusRegion,
    pub overlay: Option<Overlay>,
    pub compact_panel: CompactPanel,
    pub palette: CommandPaletteState,
    pub country_picker: CountryPickerState,
    pub browser_picker: BrowserPickerState,
    pub lyrics: LyricsOverlayState,
    pub help_scroll: usize,
    pub help_max_scroll: usize,
    pub queue_selected_id: Option<QueueItemId>,
    pub search_draft: String,
    pub search_editing: bool,
    pub visualizer_max_fps: u8,
    pub motion_frame: MotionFrame,
    pub motion_frame_set: bool,
}

/// What a [`RenderModel`] says.
#[verifier::ext_equal]
pub struct RenderModelView {
    pub view: NavigationItem,
    pub focus: FocusRegion,
    pub overlay: Option<Overlay>,
    pub compact_panel: CompactPanel,
    pub palette: PaletteStateView,
    pub country_picker: CountryPickerView,
    pub browser_picker: BrowserPickerView,
    pub lyrics: LyricsOverlayState,
    pub help_scroll: usize,
    pub help_max_scroll: usize,
    pub queue_selected_id: Option<Seq<char>>,
    pub search_draft: Seq<char>,
    pub search_editing: bool,
    pub visualizer_max_fps: u8,
    pub motion_frame: MotionFrameView,
    pub motion_frame_set: bool,
}

impl View for RenderModel {
    type V = RenderModelView;

    open spec fn view(&self) -> RenderModelView {
        RenderModelView {
            view: self.view,
            focus: self.focus,
            overlay: self.overlay,
            compact_panel: self.compact_panel,
            palette: self.palette@,
            country_picker: self.country_picker@,
            browser_picker: self.browser_picker@,
            lyrics: self.lyrics,
            help_scroll: self.help_scroll,
            help_max_scroll: self.help_max_scroll,
            queue_selected_id: optional_id_text(self.queue_selected_id),
            search_draft: self.search_draft@,
            search_editing: self.search_editing,
            visualizer_max_fps: self.visualizer_max_fps,
            motion_frame: self.motion_frame@,
            motion_frame_set: self.motion_frame_set,
        }
    }
}

impl Clone for RenderModel {
    fn clone(&self) -> (copy: Self)
        ensures
            copy@ == self@,
    {
        RenderModel {
            view: self.view,
            focus: self.focus,
            overlay: self.overlay,
            compact_panel: self.compact_panel,
            palette: self.palette.clone(),
            country_picker: self.country_picker.clone(),
            browser_picker: self.browser_picker.clone(),
            lyrics: self.lyrics,
            help_scroll: self.help_scroll,
            help_max_scroll: self.help_max_scroll,
            queue_selected_id: match &self.queue_selected_id {
                Some(id) => Some(id.clone()),
                None => None,
            },
            search_draft: self.search_draft.clone(),
            search_editing: self.search_editing,
            visualizer_max_fps: self.visualizer_max_fps,
            motion_frame: self.motion_frame.clone(),
            motion_frame_set: self.motion_frame_set,
        }
    }
}

impl RenderModelView {
    /// The focus that a layout can show.
    pub open spec fn effective_focus(self, layout: LayoutMode) -> FocusRegion {
        if layout == LayoutMode::Tiny {
            FocusRegion::Content
        } else {
            self.focus
        }
    }

    /// The middle of the screen that a layout can show: the focus decides, where
    /// it is on one of the two.
    pub open spec fn effective_panel(self, layout: LayoutMode) -> CompactPanel {
        match layout {
            LayoutMode::Wide => self.compact_panel,
            LayoutMode::Compact => match self.focus {
                FocusRegion::Content => CompactPanel::Content,
                FocusRegion::Queue => CompactPanel::Queue,
                _ => self.compact_panel,
            },
            LayoutMode::Tiny => CompactPanel::Content,
        }
    }

    /// What is shown in a layout.
    pub open spec fn normalized(self, layout: LayoutMode) -> RenderModelView {
        RenderModelView {
            focus: self.effective_focus(layout),
            compact_panel: self.effective_panel(layout),
            ..self
        }
    }

    /// The other of content and queue, with the focus.
    pub open spec fn toggled(self) -> RenderModelView {
        match self.compact_panel {
            CompactPanel::Content => RenderModelView {
                compact_panel: CompactPanel::Queue,
                focus: FocusRegion::Queue,
                ..self
            },
            CompactPanel::Queue => RenderModelView {
                compact_panel: CompactPanel::Content,
                focus: FocusRegion::Content,
                ..self
            },
        }
    }

    /// What is being typed into the search.
    pub open spec fn draft(self) -> Option<Seq<char>> {
        if self.search_editing {
            Some(self.search_draft)
        } else {
            None
        }
    }
}

impl RenderModel {
    pub fn with_view(self, view: NavigationItem) -> (model: Self)
        ensures
            model@ == (RenderModelView { view, ..self@ }),
    {
        RenderModel { view, ..self }
    }

    pub fn with_focus(self, focus: FocusRegion) -> (model: Self)
        ensures
            model@ == (RenderModelView { focus, ..self@ }),
    {
        RenderModel { focus, ..self }
    }

    pub fn with_visualizer_max_fps(self, max_fps: u8) -> (model: Self)
        ensures
            model@ == (RenderModelView {
                visualizer_max_fps: clamped(max_fps as int, 1, MAX_SPECTRUM_FPS as int) as u8,
                ..self@
            }),
    {
        RenderModel { visualizer_max_fps: effective_spectrum_fps(max_fps), ..self }
    }

    pub fn with_motion_frame(self, frame: MotionFrame) -> (model: Self)
        ensures
            model@ == (RenderModelView {
                motion_frame: frame@,
                motion_frame_set: true,
                ..self@
            }),
    {
        RenderModel { motion_frame: frame, motion_frame_set: true, ..self }
    }

    pub fn motion_frame(&self) -> (frame: &MotionFrame)
        ensures
            frame@ == self@.motion_frame,
    {
        &self.motion_frame
    }

    pub fn set_motion_frame(&mut self, frame: MotionFrame)
        ensures
            final(self)@ == (RenderModelView {
                motion_frame: frame@,
                motion_frame_set: true,
                ..old(self)@
            }),
    {
        self.motion_frame = frame;
        self.motion_frame_set = true;
    }

    pub fn with_overlay(self, overlay: Overlay) -> (model: Self)
        ensures
            model@ == (RenderModelView { overlay: Some(overlay), ..self@ }),
    {
        RenderModel { overlay: Some(overlay), ..self }
    }

    /// Types into the command palette. Only so much is kept; the first entry is
    /// selected.
    pub fn with_palette_query(self, query: &str) -> (model: Self)
        ensures
            ({
                let kept = grapheme_prefix(
                    query@,
                    CLIP_BYTE_INSPECTION_BUDGET as nat,
                    CLIP_GRAPHEME_INSPECTION_BUDGET as nat,
                );
                model@ == (RenderModelView {
                    palette: PaletteStateView {
                        query: kept.0,
                        query_truncated: kept.1,
                        selected: 0,
                        scroll: 0,
                    },
                    ..self@
                })
            }),
    {
        let (query, query_truncated) = bounded_grapheme_prefix(
            query,
            CLIP_BYTE_INSPECTION_BUDGET,
            CLIP_GRAPHEME_INSPECTION_BUDGET,
        );
        RenderModel {
            palette: CommandPaletteState { query, query_truncated, selected: 0, scroll: 0 },
            ..self
        }
    }

    pub fn with_palette_selection(self, selected: usize) -> (model: Self)
        ensures
            model@ == (RenderModelView {
                palette: PaletteStateView { selected, ..self@.palette },
                ..self@
            }),
    {
        let palette = CommandPaletteState { selected, ..self.palette };
        RenderModel { palette, ..self }
    }

    pub fn with_palette_scroll(self, scroll: usize) -> (model: Self)
        ensures
            model@ == (RenderModelView {
                palette: PaletteStateView { scroll, ..self@.palette },
                ..self@
            }),
    {
        let palette = CommandPaletteState { scroll, ..self.palette };
        RenderModel { palette, ..self }
    }

    /// Shows the other of content and queue, and gives it the focus.
    pub fn toggle_compact_panel(self) -> (model: Self)
        ensures
            model@ == match self@.compact_panel {
                CompactPanel::Content => RenderModelView {
                    compact_panel: CompactPanel::Queue,
                    focus: FocusRegion::Queue,
                    ..self@
                },
                CompactPanel::Queue => RenderModelView {
                    compact_panel: CompactPanel::Content,
                    focus: FocusRegion::Content,
                    ..self@
                },
            },
            model@ == self@.toggled(),
    {
        match self.compact_panel {
            CompactPanel::Content => RenderModel {
                compact_panel: CompactPanel::Queue,
                focus: FocusRegion::Queue,
                ..self
            },
            CompactPanel::Queue => RenderModel {
                compact_panel: CompactPanel::Content,
                focus: FocusRegion::Content,
                ..self
            },
        }
    }

    pub fn set_search_draft(&mut self, draft: &str)
        ensures
            final(self)@ == (RenderModelView {
                search_draft: draft@,
                search_editing: true,
                ..old(self)@
            }),
    {
        self.search_draft = draft.to_owned();
        self.search_editing = true;
    }

    pub fn clear_search_draft(&mut self)
        ensures
            final(self)@ == (RenderModelView {
                search_draft: Seq::empty(),
                search_editing: false,
                ..old(self)@
            }),
    {
        self.search_draft = String::new();
        self.search_editing = false;
        assert(self.search_draft@ =~= Seq::<char>::empty());
    }

    /// What is being typed into the search.
    pub fn search_draft(&self) -> (draft: Option<&str>)
        ensures
            optional_str(draft) == self@.draft(),
    {
        if self.search_editing {
            Some(self.search_draft.as_str())
        } else {
            None
        }
    }

    pub fn queue_selected_id(&self) -> (selected: Option<&QueueItemId>)
        ensures
            match selected {
                Some(selected) => self@.queue_selected_id == Some(selected@),
                None => self@.queue_selected_id is None,
            },
    {
        match &self.queue_selected_id {
            Some(selected) => Some(selected),
            None => None,
        }
    }

    pub fn set_queue_selected_id(&mut self, selected: Option<QueueItemId>)
        ensures
            final(self)@ == (RenderModelView {
                queue_selected_id: optional_id_text(selected),
                ..old(self)@
            }),
    {
        self.queue_selected_id = selected;
    }

    /// The focus that a layout can show.
    pub fn focus_for(&self, layout: LayoutMode) -> (focus: FocusRegion)
        ensures
            focus == self@.effective_focus(layout),
    {
        match layout {
            LayoutMode::Tiny => FocusRegion::Content,
            _ => self.focus,
        }
    }

    /// The middle of the screen that a layout can show.
    pub fn compact_panel_for(&self, layout: LayoutMode) -> (panel: CompactPanel)
        ensures
            panel == self@.effective_panel(layout),
    {
        match layout {
            LayoutMode::Wide => self.compact_panel,
            LayoutMode::Compact => match self.focus {
                FocusRegion::Content => CompactPanel::Content,
                FocusRegion::Queue => CompactPanel::Queue,
                _ => self.compact_panel,
            },
            LayoutMode::Tiny => CompactPanel::Content,
        }
    }

    /// The model with the focus and the middle of the screen that a layout can
    /// show.
    pub fn normalized_for_layout(&self, layout: LayoutMode) -> (model: Self)
        ensures
            model@ == self@.normalized(layout),
    {
        let copy = self.clone();
        RenderModel {
            focus: self.focus_for(layout),
            compact_panel: self.compact_panel_for(layout),
            ..copy
        }
    }
}

/// The model before anything was chosen.
pub open spec fn default_model() -> RenderModelView {
    RenderModelView {
        view: NavigationItem::Home,
        focus: FocusRegion::Content,
        overlay: None,
        compact_panel: CompactPanel::Content,
        palette: PaletteStateView {
            query: Seq::empty(),
            query_truncated: false,
            selected: 0,
            scroll: 0,
        },
        country_picker: CountryPickerView { choices: Seq::empty(), selected_index: 0 },
        browser_picker: BrowserPickerView {
            choices: Seq::empty(),
            selected_browser: Seq::empty(),
        },
        lyrics: LyricsOverlayState {
            follow_active: true,
            selected_line: None,
            scroll: 0,
            media_key: None,
            plain_max_scroll: 0,
        },
        help_scroll: 0,
        help_max_scroll: 0,
        queue_selected_id: None,
        search_draft: Seq::empty(),
        search_editing: false,
        visualizer_max_fps: 15,
        motion_frame: MotionFrameView {
            elapsed_ms: 0,
            spinner_index: 0,
            progress: ProgressView {
                eighths_by_width: Seq::empty(),
                shine_by_filled_cells: Seq::empty(),
            },
        },
        motion_frame_set: false,
    }
}

impl Default for RenderModel {
    fn default() -> (model: Self)
        ensures
            model@ == default_model(),
    {
        let model = RenderModel {
            view: NavigationItem::Home,
            focus: FocusRegion::Content,
            overlay: None,
            compact_panel: CompactPanel::Content,
            palette: CommandPaletteState::default(),
            country_picker: CountryPickerState { choices: Vec::new(), selected_index: 0 },
            browser_picker: BrowserPickerState {
                choices: Vec::new(),
                selected_browser: String::new(),
            },
            lyrics: LyricsOverlayState::default(),
            help_scroll: 0,
            help_max_scroll: 0,
            queue_selected_id: None,
            search_draft: String::new(),
            search_editing: false,
            visualizer_max_fps: 15,
            motion_frame: MotionFrame {
                elapsed_ms: 0,
                spinner_index: 0,
                progress: ProgressPresentation {
                    eighths_by_width: Vec::new(),
                    shine_by_filled_cells: Vec::new(),
                },
            },
            motion_frame_set: false,
        };
        assert(model@.country_picker.choices =~= Seq::<CountryChoiceView>::empty());
        assert(model@.browser_picker.choices =~= Seq::<Seq<char>>::empty());
        assert(model@.browser_picker.selected_browser =~= Seq::<char>::empty());
        assert(model@.search_draft =~= Seq::<char>::empty());
        assert(model@ =~= default_model());
        model
    }
}

/// Bringing a model to a layout once is enough.
pub proof fn law_normalizing_is_stable(model: RenderModelView, layout: LayoutMode)
    ensures
        model.normalized(layout).normalized(layout) == model.normalized(layout),
{
}

/// On a compact screen, what has the focus can be seen.
pub proof fn law_focus_can_be_seen(model: RenderModelView)
    ensures
        model.normalized(LayoutMode::Compact).focus == FocusRegion::Content ==> model.normalized(
            LayoutMode::Compact,
        ).compact_panel == CompactPanel::Content,
        model.normalized(LayoutMode::Compact).focus == FocusRegion::Queue ==> model.normalized(
            LayoutMode::Compact,
        ).compact_panel == CompactPanel::Queue,
        model.normalized(LayoutMode::Tiny).focus == FocusRegion::Content,
        model.normalized(LayoutMode::Tiny).compact_panel == CompactPanel::Content,
{
}

/// What is logged of the lyrics window tells only whether it is for an item, not
/// for which.
pub proof fn law_lyrics_log_keeps_media(state: LyricsOverlayState, media_key: u64)
    requires
        state.media_key is Some,
    ensures
        lyrics_overlay_summary(LyricsOverlayState { media_key: Some(media_key), ..state })
            == lyrics_overlay_summary(state),
{
}

} // verus!
