//! Areas of the screen.

use vstd::prelude::*;

verus! {

pub const WIDE_MIN_WIDTH: u16 = 120;

pub const WIDE_MIN_HEIGHT: u16 = 32;

pub const COMPACT_MIN_WIDTH: u16 = 60;

pub const COMPACT_MIN_HEIGHT: u16 = 18;

/// The most rows that one panel shows.
pub const MAX_RENDERED_ROWS: usize = 128;

/// A rectangle of terminal cells.
#[derive(Clone, Copy, Debug, Eq, Hash, PartialEq, Structural)]
pub struct Rect {
    pub x: u16,
    pub y: u16,
    pub width: u16,
    pub height: u16,
}

/// `left + right`, or the largest number.
pub open spec fn capped_sum(left: int, right: int) -> u16 {
    if left + right > u16::MAX {
        u16::MAX
    } else {
        (left + right) as u16
    }
}

/// `left - right`, or nothing.
pub open spec fn floored_difference(left: int, right: int) -> int {
    if left < right {
        0
    } else {
        left - right
    }
}

/// The smaller number.
pub open spec fn least(left: int, right: int) -> int {
    if left < right {
        left
    } else {
        right
    }
}

/// The larger number.
pub open spec fn greatest(left: int, right: int) -> int {
    if left < right {
        right
    } else {
        left
    }
}

/// The rectangle at a place, made smaller where it would reach beyond the largest
/// coordinate.
pub open spec fn limited(x: u16, y: u16, width: u16, height: u16) -> Rect {
    Rect {
        x,
        y,
        width: (capped_sum(x as int, width as int) - x) as u16,
        height: (capped_sum(y as int, height as int) - y) as u16,
    }
}

/// The rectangle inside a panel's border.
pub open spec fn inside(area: Rect) -> Rect {
    limited(
        capped_sum(area.x as int, 1),
        capped_sum(area.y as int, 1),
        floored_difference(area.width as int, 2) as u16,
        floored_difference(area.height as int, 2) as u16,
    )
}

/// Whether `inner` lies within `outer`.
pub open spec fn lies_within(inner: Rect, outer: Rect) -> bool {
    &&& outer.x <= inner.x
    &&& outer.y <= inner.y
    &&& inner.right_edge() <= outer.right_edge()
    &&& inner.bottom_edge() <= outer.bottom_edge()
}

/// The rectangle of a preferred size in the middle of `area`, with a margin
/// around it where there is room for one.
pub open spec fn centered(area: Rect, preferred_width: u16, preferred_height: u16) -> Rect {
    let width = greatest(
        least(preferred_width as int, floored_difference(area.width as int, 2)),
        1,
    );
    let height = greatest(
        least(preferred_height as int, floored_difference(area.height as int, 2)),
        1,
    );
    limited(
        capped_sum(area.x as int, (area.width - width) / 2),
        capped_sum(area.y as int, (area.height - height) / 2),
        width as u16,
        height as u16,
    )
}

impl Rect {
    /// The first column to the right of the rectangle.
    pub open spec fn right_edge(self) -> u16 {
        capped_sum(self.x as int, self.width as int)
    }

    /// The first row below the rectangle.
    pub open spec fn bottom_edge(self) -> u16 {
        capped_sum(self.y as int, self.height as int)
    }

    /// The rectangle at a place, made smaller where it would reach beyond the
    /// largest coordinate.
    pub fn new(x: u16, y: u16, width: u16, height: u16) -> (area: Self)
        ensures
            area == limited(x, y, width, height),
    {
        Rect {
            x,
            y,
            width: x.saturating_add(width) - x,
            height: y.saturating_add(height) - y,
        }
    }

    pub fn right(self) -> (edge: u16)
        ensures
            edge == self.right_edge(),
    {
        self.x.saturating_add(self.width)
    }

    pub fn bottom(self) -> (edge: u16)
        ensures
            edge == self.bottom_edge(),
    {
        self.y.saturating_add(self.height)
    }
}

/// How much room there is for the interface.
#[derive(Clone, Copy, Debug, Eq, Hash, PartialEq, Structural)]
pub enum LayoutMode {
    Wide,
    Compact,
    Tiny,
}

impl LayoutMode {
    /// The layout for a screen of this size.
    pub open spec fn of(width: u16, height: u16) -> LayoutMode {
        if width >= WIDE_MIN_WIDTH && height >= WIDE_MIN_HEIGHT {
            LayoutMode::Wide
        } else if width >= COMPACT_MIN_WIDTH && height >= COMPACT_MIN_HEIGHT {
            LayoutMode::Compact
        } else {
            LayoutMode::Tiny
        }
    }

    pub fn from_dimensions(width: u16, height: u16) -> (mode: Self)
        ensures
            mode == LayoutMode::of(width, height),
    {
        if width >= WIDE_MIN_WIDTH && height >= WIDE_MIN_HEIGHT {
            LayoutMode::Wide
        } else if width >= COMPACT_MIN_WIDTH && height >= COMPACT_MIN_HEIGHT {
            LayoutMode::Compact
        } else {
            LayoutMode::Tiny
        }
    }

    pub fn for_area(area: Rect) -> (mode: Self)
        ensures
            mode == LayoutMode::of(area.width, area.height),
    {
        LayoutMode::from_dimensions(area.width, area.height)
    }
}

/// The rectangle inside a panel's border.
pub fn panel_inner(area: Rect) -> (inner: Rect)
    ensures
        inner == inside(area),
{
    Rect::new(
        area.x.saturating_add(1),
        area.y.saturating_add(1),
        area.width.saturating_sub(2),
        area.height.saturating_sub(2),
    )
}

/// Whether `inner` lies within `outer`.
pub fn rect_contains(outer: Rect, inner: Rect) -> (contains: bool)
    ensures
        contains == lies_within(inner, outer),
{
    inner.x >= outer.x && inner.y >= outer.y && inner.right() <= outer.right() && inner.bottom()
        <= outer.bottom()
}

/// The rectangle of a preferred size in the middle of `area`.
pub fn centered_rect(area: Rect, preferred_width: u16, preferred_height: u16) -> (popup: Rect)
    requires
        area.width > 0,
        area.height > 0,
    ensures
        popup == centered(area, preferred_width, preferred_height),
{
    let width: u16 = larger(smaller(preferred_width, area.width.saturating_sub(2)), 1);
    let height: u16 = larger(smaller(preferred_height, area.height.saturating_sub(2)), 1);
    Rect::new(
        area.x.saturating_add((area.width - width) / 2),
        area.y.saturating_add((area.height - height) / 2),
        width,
        height,
    )
}

/// The smaller number.
pub fn smaller(left: u16, right: u16) -> (least_one: u16)
    ensures
        least_one == least(left as int, right as int),
{
    if left < right {
        left
    } else {
        right
    }
}

/// The larger number.
pub fn larger(left: u16, right: u16) -> (greatest_one: u16)
    ensures
        greatest_one == greatest(left as int, right as int),
{
    if left < right {
        right
    } else {
        left
    }
}

/// The smaller count.
pub fn smaller_count(left: usize, right: usize) -> (least_one: usize)
    ensures
        least_one == least(left as int, right as int),
{
    if left < right {
        left
    } else {
        right
    }
}

/// The rows and columns of lyrics that the lyrics window shows, if there is
/// room for it.
pub open spec fn lyrics_room(area: Rect) -> Option<(usize, usize)> {
    if area.width < 12 || area.height < 4 {
        None
    } else {
        let popup = centered(area, 84, 28);
        Some(
            (
                least(
                    floored_difference(popup.height as int, 3),
                    MAX_RENDERED_ROWS as int,
                ) as usize,
                floored_difference(popup.width as int, 2) as usize,
            ),
        )
    }
}

/// How many lines of help the help window shows.
pub open spec fn help_room(area: Rect) -> int {
    if area.width < 12 || area.height < 4 {
        0
    } else {
        floored_difference(centered(area, 74, 15).height as int, 2)
    }
}

/// The rows and columns of lyrics that the lyrics window shows, if there is
/// room for it.
pub fn lyrics_overlay_viewport(area: Rect) -> (viewport: Option<(usize, usize)>)
    ensures
        viewport == if area.width < 12 || area.height < 4 {
            None
        } else {
            let popup = centered(area, 84, 28);
            Some(
                (
                    least(
                        floored_difference(popup.height as int, 3),
                        MAX_RENDERED_ROWS as int,
                    ) as usize,
                    floored_difference(popup.width as int, 2) as usize,
                ),
            )
        },
        viewport == lyrics_room(area),
{
    if area.width < 12 || area.height < 4 {
        return None;
    }
    let popup = centered_rect(area, 84, 28);
    Some(
        (
            smaller_count(popup.height.saturating_sub(3) as usize, MAX_RENDERED_ROWS),
            popup.width.saturating_sub(2) as usize,
        ),
    )
}

/// How many lines of help the help window shows.
pub fn help_overlay_viewport(area: Rect) -> (rows: usize)
    ensures
        rows == if area.width < 12 || area.height < 4 {
            0
        } else {
            floored_difference(centered(area, 74, 15).height as int, 2)
        },
        rows == help_room(area),
{
    if area.width < 12 || area.height < 4 {
        return 0;
    }
    centered_rect(area, 74, 15).height.saturating_sub(2) as usize
}

/// A window lies within the screen, and leaves a margin where there is room.
pub proof fn law_centered_window_fits(area: Rect, preferred_width: u16, preferred_height: u16)
    requires
        area.width > 0,
        area.height > 0,
        area.x + area.width <= u16::MAX,
        area.y + area.height <= u16::MAX,
    ensures
        lies_within(centered(area, preferred_width, preferred_height), area),
        area.width >= 3 ==> centered(area, preferred_width, preferred_height).width
            <= area.width - 2,
        area.height >= 3 ==> centered(area, preferred_width, preferred_height).height
            <= area.height - 2,
{
}

} // verus!
