//! What can be clicked, and where.

use vstd::prelude::*;

use crate::ui::input::SemanticAction;
use crate::ui::layout::{greatest, least, Rect};
use crate::ui::model::NavigationItem;

verus! {

/// A list on the screen.
#[derive(Clone, Copy, Debug, Eq, Hash, PartialEq, Structural)]
pub enum ListSurface {
    Home,
    Search,
    Charts,
    PodcastRecommendations,
    PodcastEpisodes,
    Library,
    Favorites,
    History,
    Queue,
    CommandPalette,
    CountryPicker,
    BrowserPicker,
    Lyrics,
}

/// What a click on a place means.
#[derive(Clone, Copy, Debug, Eq, PartialEq, Structural)]
pub enum HitTarget {
    Navigation(NavigationItem),
    Semantic(SemanticAction),
    Progress { numerator: u16, denominator: u16 },
    ListRow { surface: ListSurface, stable_index: usize },
}

/// A place and what a click on it means.
#[derive(Clone, Copy, Debug, Eq, PartialEq, Structural)]
pub struct Hit {
    pub area: Rect,
    pub target: HitTarget,
}

/// The part of `area` that lies within `visible`, if there is one.
pub open spec fn overlap(area: Rect, visible: Rect) -> Option<Rect> {
    let left = greatest(area.x as int, visible.x as int);
    let top = greatest(area.y as int, visible.y as int);
    let right = least(area.right_edge() as int, visible.right_edge() as int);
    let bottom = least(area.bottom_edge() as int, visible.bottom_edge() as int);
    if left < right && top < bottom {
        Some(
            Rect {
                x: left as u16,
                y: top as u16,
                width: (right - left) as u16,
                height: (bottom - top) as u16,
            },
        )
    } else {
        None
    }
}

/// Places with one more, as far as it can be seen.
pub open spec fn with_hit(hits: Seq<Hit>, area: Rect, visible: Rect, target: HitTarget) -> Seq<
    Hit,
> {
    match overlap(area, visible) {
        Some(area) => hits.push(Hit { area, target }),
        None => hits,
    }
}

/// What can be clicked in one picture.
#[derive(Debug, Eq, PartialEq)]
pub struct InteractionMap {
    hits: Vec<Hit>,
}

impl View for InteractionMap {
    type V = Seq<Hit>;

    closed spec fn view(&self) -> Seq<Hit> {
        self.hits@
    }
}

impl InteractionMap {
    pub fn new() -> (map: Self)
        ensures
            map@ == Seq::<Hit>::empty(),
    {
        InteractionMap { hits: Vec::new() }
    }

    /// The places that can be clicked.
    pub fn hits(&self) -> (hits: &Vec<Hit>)
        ensures
            hits@ == self@,
    {
        &self.hits
    }

    pub fn clear(&mut self)
        ensures
            final(self)@ == Seq::<Hit>::empty(),
    {
        self.hits = Vec::new();
    }

    /// Adds a place, as far as it lies within `visible`.
    pub fn push_clipped(&mut self, area: Rect, visible: Rect, target: HitTarget)
        ensures
            final(self)@ == with_hit(old(self)@, area, visible, target),
    {
        let left: u16 = if area.x < visible.x {
            visible.x
        } else {
            area.x
        };
        let top: u16 = if area.y < visible.y {
            visible.y
        } else {
            area.y
        };
        let right: u16 = if area.right() < visible.right() {
            area.right()
        } else {
            visible.right()
        };
        let bottom: u16 = if area.bottom() < visible.bottom() {
            area.bottom()
        } else {
            visible.bottom()
        };
        if left < right && top < bottom {
            self.hits.push(
                Hit { area: Rect::new(left, top, right - left, bottom - top), target },
            );
        }
    }
}

/// What can be clicked lies within what is visible.
pub proof fn law_hits_are_visible(area: Rect, visible: Rect)
    ensures
        overlap(area, visible) matches Some(part) ==> {
            &&& crate::ui::layout::lies_within(part, visible)
            &&& crate::ui::layout::lies_within(part, area)
            &&& part.width > 0 && part.height > 0
        },
{
}

} // verus!
