//! What is drawn on the screen, step by step, and how the screen is divided.

use vstd::prelude::*;
use vstd::string::*;

use crate::ui::artwork::ArtworkPresentation;
use crate::ui::interaction::{Hit, InteractionMap};
use crate::ui::layout::{lies_within, Rect};
use crate::ui::line::{line_views, Line, LineView};
use crate::ui::memory::{MemoryView, ViewportMemory};
use crate::ui::theme::{plain, ColorCapability, Style, Theme};

verus! {

/// A border with a title.
#[derive(Debug, Eq, PartialEq)]
pub struct PanelBlock {
    pub title: String,
    pub double_border: bool,
    pub title_style: Style,
    pub border_style: Style,
    pub style: Style,
}

/// What a [`PanelBlock`] says.
#[verifier::ext_equal]
pub struct PanelView {
    pub title: Seq<char>,
    pub double_border: bool,
    pub title_style: Style,
    pub border_style: Style,
    pub style: Style,
}

impl View for PanelBlock {
    type V = PanelView;

    open spec fn view(&self) -> PanelView {
        PanelView {
            title: self.title@,
            double_border: self.double_border,
            title_style: self.title_style,
            border_style: self.border_style,
            style: self.style,
        }
    }
}

/// The border of a panel: it stands out where the panel has the focus.
pub open spec fn panel(title: Seq<char>, focused: bool, theme: Theme) -> PanelView {
    PanelView {
        title: (if focused {
            "[*]"@
        } else {
            "[ ]"@
        }) + " "@ + title,
        double_border: focused,
        title_style: plain().on_fg(
            if focused {
                theme.selection
            } else {
                theme.muted
            },
        ).in_bold(),
        border_style: plain().on_fg(
            if focused {
                theme.accent
            } else {
                theme.muted
            },
        ),
        style: plain().on_fg(theme.foreground).on_bg(theme.background),
    }
}

/// The border of a panel.
pub fn panel_block(title: &str, focused: bool, theme: &Theme) -> (block: PanelBlock)
    ensures
        block@ == panel(title@, focused, *theme),
{
    let mut text = if focused {
        "[*]".to_owned()
    } else {
        "[ ]".to_owned()
    };
    text.append(" ");
    text.append(title);
    PanelBlock {
        title: text,
        double_border: focused,
        title_style: Style::new().fg(
            if focused {
                theme.selection
            } else {
                theme.muted
            },
        ).bold(),
        border_style: Style::new().fg(
            if focused {
                theme.accent
            } else {
                theme.muted
            },
        ),
        style: Style::new().fg(theme.foreground).bg(theme.background),
    }
}

/// A step of drawing.
#[derive(Debug, Eq, PartialEq)]
pub enum DrawOp {
    /// Gives an area a style.
    Fill { area: Rect, style: Style },
    /// Empties an area.
    Clear { area: Rect },
    /// Draws a border.
    Panel { area: Rect, border: PanelBlock },
    /// Writes lines, within a border where there is one.
    Text { area: Rect, block: Option<PanelBlock>, style: Style, lines: Vec<Line> },
    /// Draws a picture, made smaller to fit where it is `fitted`.
    Artwork {
        area: Rect,
        presentation: ArtworkPresentation,
        fitted: bool,
        capability: ColorCapability,
    },
}

/// What a [`DrawOp`] does.
#[verifier::ext_equal]
pub enum DrawView {
    Fill { area: Rect, style: Style },
    Clear { area: Rect },
    Panel { area: Rect, border: PanelView },
    Text { area: Rect, block: Option<PanelView>, style: Style, lines: Seq<LineView> },
    Artwork {
        area: Rect,
        presentation: ArtworkPresentation,
        fitted: bool,
        capability: ColorCapability,
    },
}

impl View for DrawOp {
    type V = DrawView;

    open spec fn view(&self) -> DrawView {
        match self {
            DrawOp::Fill { area, style } => DrawView::Fill { area: *area, style: *style },
            DrawOp::Clear { area } => DrawView::Clear { area: *area },
            DrawOp::Panel { area, border } => DrawView::Panel { area: *area, border: border@ },
            DrawOp::Text { area, block, style, lines } => DrawView::Text {
                area: *area,
                block: match block {
                    Some(block) => Some(block@),
                    None => None,
                },
                style: *style,
                lines: line_views(lines@),
            },
            DrawOp::Artwork { area, presentation, fitted, capability } => DrawView::Artwork {
                area: *area,
                presentation: *presentation,
                fitted: *fitted,
                capability: *capability,
            },
        }
    }
}

/// What the steps of a list do.
pub open spec fn op_views(ops: Seq<DrawOp>) -> Seq<DrawView> {
    ops.map_values(|op: DrawOp| op@)
}

/// Where a step draws.
pub open spec fn area_of(op: DrawView) -> Rect {
    match op {
        DrawView::Fill { area, .. } => area,
        DrawView::Clear { area } => area,
        DrawView::Panel { area, .. } => area,
        DrawView::Text { area, .. } => area,
        DrawView::Artwork { area, .. } => area,
    }
}

/// A picture that is being drawn: its steps, what is remembered of it, and what
/// can be clicked in it.
pub struct Canvas {
    pub ops: Vec<DrawOp>,
    pub memory: ViewportMemory,
    pub interactions: InteractionMap,
}

/// What a [`Canvas`] holds.
#[verifier::ext_equal]
pub struct CanvasView {
    pub ops: Seq<DrawView>,
    pub memory: MemoryView,
    pub hits: Seq<Hit>,
}

impl View for Canvas {
    type V = CanvasView;

    open spec fn view(&self) -> CanvasView {
        CanvasView { ops: op_views(self.ops@), memory: self.memory@, hits: self.interactions@ }
    }
}

impl CanvasView {
    /// The picture with one more step.
    pub open spec fn with_op(self, op: DrawView) -> CanvasView {
        CanvasView { ops: self.ops.push(op), ..self }
    }
}

impl Canvas {
    /// Adds a step.
    pub fn draw(&mut self, op: DrawOp)
        ensures
            final(self)@ == old(self)@.with_op(op@),
            final(self).memory == old(self).memory,
            final(self).interactions == old(self).interactions,
    {
        let ghost before = self.ops@;
        self.ops.push(op);
        assert(op_views(self.ops@) =~= op_views(before).push(op@));
    }
}

/// In which direction an area is divided.
#[derive(Clone, Copy, Debug, Eq, PartialEq, Structural)]
pub enum Direction {
    Horizontal,
    Vertical,
}

/// How large a part of an area is.
#[derive(Clone, Copy, Debug, Eq, PartialEq, Structural)]
pub enum Extent {
    /// So much, and all that is left.
    AtLeast(u16),
    Exactly(u16),
}

/// The length of an area in a direction.
pub open spec fn length_of(area: Rect, direction: Direction) -> int {
    match direction {
        Direction::Horizontal => area.width as int,
        Direction::Vertical => area.height as int,
    }
}

/// What the parts ask for together.
pub open spec fn total_asked(parts: Seq<Extent>) -> int
    decreases parts.len(),
{
    if parts.len() == 0 {
        0
    } else {
        total_asked(parts.drop_last()) + match parts.last() {
            Extent::AtLeast(size) => size as int,
            Extent::Exactly(size) => size as int,
        }
    }
}

/// What the parts of a fixed size take together.
pub open spec fn total_fixed(parts: Seq<Extent>) -> int
    decreases parts.len(),
{
    if parts.len() == 0 {
        0
    } else {
        total_fixed(parts.drop_last()) + match parts.last() {
            Extent::AtLeast(size) => 0,
            Extent::Exactly(size) => size as int,
        }
    }
}

/// How many parts take what is left.
pub open spec fn growing_parts(parts: Seq<Extent>) -> int
    decreases parts.len(),
{
    if parts.len() == 0 {
        0
    } else {
        growing_parts(parts.drop_last()) + match parts.last() {
            Extent::AtLeast(size) => 1int,
            Extent::Exactly(size) => 0int,
        }
    }
}

/// Whether there is room for all parts, and one of them takes what is left.
pub open spec fn parts_fit(area: Rect, direction: Direction, parts: Seq<Extent>) -> bool {
    &&& area.x + area.width <= u16::MAX
    &&& area.y + area.height <= u16::MAX
    &&& growing_parts(parts) == 1
    &&& total_asked(parts) <= length_of(area, direction)
}

/// The size of a part: what it asks for, or all that is left.
pub open spec fn part_size(parts: Seq<Extent>, length: int, index: int) -> int {
    match parts[index] {
        Extent::AtLeast(size) => length - total_fixed(parts),
        Extent::Exactly(size) => size as int,
    }
}

/// Where a part begins: behind the parts before it.
pub open spec fn part_offset(parts: Seq<Extent>, length: int, index: int) -> int
    decreases index,
{
    if index <= 0 {
        0
    } else {
        part_offset(parts, length, index - 1) + part_size(parts, length, index - 1)
    }
}

/// A part of an area.
pub open spec fn part(area: Rect, direction: Direction, parts: Seq<Extent>, index: int) -> Rect {
    let length = length_of(area, direction);
    let offset = part_offset(parts, length, index);
    let size = part_size(parts, length, index);
    match direction {
        Direction::Horizontal => Rect {
            x: (area.x + offset) as u16,
            y: area.y,
            width: size as u16,
            height: area.height,
        },
        Direction::Vertical => Rect {
            x: area.x,
            y: (area.y + offset) as u16,
            width: area.width,
            height: size as u16,
        },
    }
}

/// An area in parts that stand one behind the other.
pub open spec fn arranged(area: Rect, direction: Direction, parts: Seq<Extent>) -> Seq<Rect> {
    Seq::new(parts.len(), |index: int| part(area, direction, parts, index))
}

/// Divides an area, with ratatui's `Layout::split`. A part of a fixed size is a
/// `Constraint::Length`, the part that grows a `Constraint::Min`; margin, spacing
/// and flex are the layout's defaults. Where there is room for all parts, each
/// part of a fixed size has that size, the one that grows has all that is left,
/// and they stand one behind the other without gaps.
#[verifier::external_body]
pub(crate) fn split(area: Rect, direction: Direction, parts: &Vec<Extent>) -> (areas: Vec<Rect>)
    requires
        parts_fit(area, direction, parts@),
    ensures
        areas@ == arranged(area, direction, parts@),
{
    let parts = parts.iter().map(|part| match part {
        Extent::AtLeast(size) => ratatui::layout::Constraint::Min(*size),
        Extent::Exactly(size) => ratatui::layout::Constraint::Length(*size),
    });
    let direction = match direction {
        Direction::Horizontal => ratatui::layout::Direction::Horizontal,
        Direction::Vertical => ratatui::layout::Direction::Vertical,
    };
    let layout = ratatui::layout::Layout::default().direction(direction).constraints(parts);
    let area = ratatui::layout::Rect::new(area.x, area.y, area.width, area.height);
    let areas = layout.split(area);
    areas.iter().map(|a| Rect { x: a.x, y: a.y, width: a.width, height: a.height }).collect()
}

/// The parts lie within the area.
pub proof fn law_parts_lie_within(
    area: Rect,
    direction: Direction,
    parts: Seq<Extent>,
    index: int,
)
    requires
        parts_fit(area, direction, parts),
        0 <= index < parts.len(),
    ensures
        lies_within(part(area, direction, parts, index), area),
{
    let length = length_of(area, direction);
    lemma_rest(parts);
    lemma_offsets(parts, length, index);
    lemma_offsets(parts, length, index + 1);
}

/// The parts end on the screen's coordinates.
pub proof fn lemma_part_edges(area: Rect, direction: Direction, parts: Seq<Extent>, index: int)
    requires
        parts_fit(area, direction, parts),
        0 <= index < parts.len(),
    ensures
        part(area, direction, parts, index).x + part(area, direction, parts, index).width
            <= u16::MAX,
        part(area, direction, parts, index).y + part(area, direction, parts, index).height
            <= u16::MAX,
{
    let length = length_of(area, direction);
    lemma_rest(parts);
    lemma_offsets(parts, length, index);
    lemma_offsets(parts, length, index + 1);
}

/// The parts fill the area: the last one ends where the area does.
pub proof fn law_parts_fill_the_area(area: Rect, direction: Direction, parts: Seq<Extent>)
    requires
        parts_fit(area, direction, parts),
    ensures
        part_offset(parts, length_of(area, direction), parts.len() as int) == length_of(
            area,
            direction,
        ),
{
    lemma_filled(parts, length_of(area, direction), parts.len() as int);
    assert(parts.take(parts.len() as int) =~= parts);
    let rest = length_of(area, direction) - total_fixed(parts);
    assert(1 * rest == rest) by (nonlinear_arith);
}

proof fn lemma_rest(parts: Seq<Extent>)
    ensures
        0 <= total_fixed(parts) <= total_asked(parts),
        0 <= growing_parts(parts),
    decreases parts.len(),
{
    if parts.len() > 0 {
        lemma_rest(parts.drop_last());
    }
}

proof fn lemma_filled(parts: Seq<Extent>, length: int, count: int)
    requires
        0 <= count <= parts.len(),
    ensures
        part_offset(parts, length, count) == total_fixed(parts.take(count)) + growing_parts(
            parts.take(count),
        ) * (length - total_fixed(parts)),
    decreases count,
{
    if count > 0 {
        lemma_filled(parts, length, count - 1);
        let before = parts.take(count - 1);
        assert(parts.take(count).drop_last() =~= before);
        assert(parts.take(count).last() == parts[count - 1]);
        let rest = length - total_fixed(parts);
        let grown = growing_parts(before);
        assert((grown + 1) * rest == grown * rest + rest) by (nonlinear_arith);
        assert((grown + 0) * rest == grown * rest) by (nonlinear_arith);
    } else {
        assert(parts.take(0) =~= Seq::<Extent>::empty());
        assert(0 * (length - total_fixed(parts)) == 0) by (nonlinear_arith);
    }
}

proof fn lemma_offsets(parts: Seq<Extent>, length: int, count: int)
    requires
        0 <= count <= parts.len(),
        growing_parts(parts) == 1,
        total_asked(parts) <= length,
    ensures
        0 <= part_offset(parts, length, count) <= length,
    decreases parts.len() - count,
{
    lemma_rest(parts);
    if count == parts.len() {
        lemma_filled(parts, length, count);
        assert(parts.take(count) =~= parts);
        assert(1 * (length - total_fixed(parts)) == length - total_fixed(parts))
            by (nonlinear_arith);
        lemma_nonnegative(parts, length, count);
    } else {
        lemma_offsets(parts, length, count + 1);
        lemma_nonnegative(parts, length, count);
        assert(part_size(parts, length, count) >= 0);
        assert(part_offset(parts, length, count + 1) == part_offset(parts, length, count)
            + part_size(parts, length, count));
    }
}

proof fn lemma_nonnegative(parts: Seq<Extent>, length: int, count: int)
    requires
        0 <= count <= parts.len(),
        total_fixed(parts) <= length,
    ensures
        0 <= part_offset(parts, length, count),
    decreases count,
{
    if count > 0 {
        lemma_nonnegative(parts, length, count - 1);
    }
}

} // verus!
