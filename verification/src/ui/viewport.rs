//! Which rows of a list are shown. A list stays where it is as long as the
//! selection stays in sight, also when its rows change.

use vstd::prelude::*;
use vstd::string::*;

use crate::domain::{clone_optional_text, clone_texts, optional_text, texts};
use crate::ui::interaction::ListSurface;
use crate::ui::layout::{floored_difference, least};

verus! {

/// How a list came to be what it is.
#[derive(Clone, Copy, Debug, Eq, Hash, PartialEq, Structural)]
pub enum DatasetUpdate {
    /// It replaces what was there.
    Replace,
    /// More rows are on their way.
    AppendInProgress,
    /// Rows came, went or moved.
    Reconcile,
}

/// A list whose rows can be told apart.
#[derive(Debug, Eq, Hash, PartialEq)]
pub struct OrderedDatasetKey {
    context: String,
    generation: u64,
    identities: Vec<String>,
    update: DatasetUpdate,
}

/// What an [`OrderedDatasetKey`] says.
#[verifier::ext_equal]
pub struct OrderedKeyView {
    pub context: Seq<char>,
    pub generation: u64,
    pub identities: Seq<Seq<char>>,
    pub update: DatasetUpdate,
}

impl View for OrderedDatasetKey {
    type V = OrderedKeyView;

    closed spec fn view(&self) -> OrderedKeyView {
        OrderedKeyView {
            context: self.context@,
            generation: self.generation,
            identities: texts(self.identities@),
            update: self.update,
        }
    }
}

/// Which list is shown.
#[derive(Debug, Eq, Hash, PartialEq)]
pub enum DatasetKey {
    /// A list with a number.
    Scalar(u64),
    /// A list that is the same as long as it holds the same.
    Listed(Vec<String>),
    Ordered(OrderedDatasetKey),
}

/// What a [`DatasetKey`] says.
#[verifier::ext_equal]
pub enum DatasetKeyView {
    Scalar(u64),
    Listed(Seq<Seq<char>>),
    Ordered(OrderedKeyView),
}

impl View for DatasetKey {
    type V = DatasetKeyView;

    open spec fn view(&self) -> DatasetKeyView {
        match self {
            DatasetKey::Scalar(number) => DatasetKeyView::Scalar(*number),
            DatasetKey::Listed(list) => DatasetKeyView::Listed(texts(list@)),
            DatasetKey::Ordered(key) => DatasetKeyView::Ordered(key@),
        }
    }
}

impl vstd::std_specs::convert::FromSpecImpl<u64> for DatasetKey {
    open spec fn obeys_from_spec() -> bool {
        true
    }

    open spec fn from_spec(value: u64) -> DatasetKey {
        DatasetKey::Scalar(value)
    }
}

impl From<u64> for DatasetKey {
    fn from(value: u64) -> (key: Self) {
        DatasetKey::Scalar(value)
    }
}

/// Whether both lists hold the same texts.
pub fn same_texts(left: &Vec<String>, right: &Vec<String>) -> (same: bool)
    ensures
        same == (texts(left@) == texts(right@)),
{
    if left.len() != right.len() {
        assert(texts(left@).len() != texts(right@).len());
        return false;
    }
    starts_with(left, right)
}

/// Whether `whole` begins with `part`.
pub open spec fn begins_with(whole: Seq<Seq<char>>, part: Seq<Seq<char>>) -> bool {
    part.len() <= whole.len() && whole.take(part.len() as int) == part
}

fn starts_with(whole: &Vec<String>, part: &Vec<String>) -> (found: bool)
    ensures
        found == begins_with(texts(whole@), texts(part@)),
        whole@.len() == part@.len() ==> found == (texts(whole@) == texts(part@)),
{
    let ghost all = texts(whole@);
    let ghost wanted = texts(part@);
    proof {
        if all.len() == wanted.len() {
            assert(all.take(wanted.len() as int) =~= all);
        }
    }
    if part.len() > whole.len() {
        return false;
    }
    let mut index: usize = 0;
    while index < part.len()
        invariant
            all == texts(whole@),
            wanted == texts(part@),
            index <= part.len() <= whole.len(),
            forall|i: int| 0 <= i < index ==> all[i] == #[trigger] wanted[i],
        decreases part.len() - index,
    {
        if whole[index] != part[index] {
            assert(all[index as int] != wanted[index as int]);
            assert(all.take(wanted.len() as int)[index as int] == all[index as int]);
            return false;
        }
        index = index + 1;
    }
    assert(all.take(wanted.len() as int) =~= wanted);
    true
}

impl Clone for OrderedDatasetKey {
    fn clone(&self) -> (copy: Self)
        ensures
            copy@ == self@,
    {
        OrderedDatasetKey {
            context: self.context.clone(),
            generation: self.generation,
            identities: clone_texts(&self.identities),
            update: self.update,
        }
    }
}

impl Clone for DatasetKey {
    fn clone(&self) -> (copy: Self)
        ensures
            copy@ == self@,
    {
        match self {
            DatasetKey::Scalar(number) => DatasetKey::Scalar(*number),
            DatasetKey::Listed(list) => DatasetKey::Listed(clone_texts(list)),
            DatasetKey::Ordered(key) => DatasetKey::Ordered(key.clone()),
        }
    }
}

/// The key of an ordered list.
pub open spec fn ordered_key(
    context: Seq<char>,
    generation: u64,
    identities: Seq<Seq<char>>,
    update: DatasetUpdate,
) -> DatasetKeyView {
    DatasetKeyView::Ordered(OrderedKeyView { context, generation, identities, update })
}

/// The key of a list that is the same as long as it holds the same.
pub fn dataset_key(list: Vec<String>) -> (key: DatasetKey)
    ensures
        key@ == DatasetKeyView::Listed(texts(list@)),
{
    DatasetKey::Listed(list)
}

/// The key of a list whose rows can be told apart.
pub fn ordered_dataset_key(
    context: &str,
    generation: u64,
    identities: Vec<String>,
    update: DatasetUpdate,
) -> (key: DatasetKey)
    ensures
        key@ == ordered_key(context@, generation, texts(identities@), update),
{
    DatasetKey::Ordered(
        OrderedDatasetKey { context: context.to_owned(), generation, identities, update },
    )
}

/// Whether `next` is the list that `previous` was: the same, the same while more
/// is on its way, or the same with more at its end.
pub open spec fn preserves(previous: DatasetKeyView, next: DatasetKeyView) -> bool {
    ||| previous == next
    ||| match (previous, next) {
        (DatasetKeyView::Ordered(previous), DatasetKeyView::Ordered(next)) => {
            &&& previous.context == next.context
            &&& {
                ||| next.update == DatasetUpdate::AppendInProgress && previous.identities
                    == next.identities
                ||| previous.update == DatasetUpdate::AppendInProgress && next.update
                    == DatasetUpdate::Replace && previous.generation == next.generation
                    && begins_with(next.identities, previous.identities)
            }
        },
        _ => false,
    }
}

/// What tells the row `index` of a list apart, if something does.
pub open spec fn identity_at(key: DatasetKeyView, index: int) -> Option<Seq<char>> {
    match key {
        DatasetKeyView::Ordered(key) => if 0 <= index < key.identities.len() {
            Some(key.identities[index])
        } else {
            None
        },
        _ => None,
    }
}

impl DatasetKey {
    /// Whether both keys say the same.
    pub fn same(&self, other: &DatasetKey) -> (same: bool)
        ensures
            same == (self@ == other@),
    {
        match (self, other) {
            (DatasetKey::Scalar(left), DatasetKey::Scalar(right)) => *left == *right,
            (DatasetKey::Listed(left), DatasetKey::Listed(right)) => same_texts(left, right),
            (DatasetKey::Ordered(left), DatasetKey::Ordered(right)) => {
                left.context == right.context && left.generation == right.generation
                    && same_texts(&left.identities, &right.identities) && left.update
                    == right.update
            },
            _ => false,
        }
    }

    /// Whether `next` is this list after its rows came, went or moved.
    pub fn reconciles_to(&self, next: &DatasetKey) -> (reconciles: bool)
        ensures
            reconciles == match (self@, next@) {
                (DatasetKeyView::Ordered(previous), DatasetKeyView::Ordered(next)) =>
                    previous.context == next.context && next.update == DatasetUpdate::Reconcile,
                _ => false,
            },
    {
        match (self, next) {
            (DatasetKey::Ordered(previous), DatasetKey::Ordered(next)) => previous.context
                == next.context && next.update == DatasetUpdate::Reconcile,
            _ => false,
        }
    }

    /// What tells the row `index` apart, if something does.
    pub fn identity(&self, index: usize) -> (identity: Option<String>)
        ensures
            optional_text(identity) == identity_at(self@, index as int),
    {
        match self {
            DatasetKey::Ordered(key) => {
                if index < key.identities.len() {
                    Some(key.identities[index].clone())
                } else {
                    None
                }
            },
            _ => None,
        }
    }
}

/// Whether `next` is the list that `previous` was.
pub fn dataset_transition_preserves(previous: &DatasetKey, next: &DatasetKey) -> (preserved: bool)
    ensures
        preserved == preserves(previous@, next@),
{
    if previous.same(next) {
        return true;
    }
    match (previous, next) {
        (DatasetKey::Ordered(previous), DatasetKey::Ordered(next)) => {
            if previous.context != next.context {
                return false;
            }
            if next.update == DatasetUpdate::AppendInProgress && same_texts(
                &previous.identities,
                &next.identities,
            ) {
                return true;
            }
            previous.update == DatasetUpdate::AppendInProgress && next.update
                == DatasetUpdate::Replace && previous.generation == next.generation && starts_with(
                &next.identities,
                &previous.identities,
            )
        },
        _ => false,
    }
}

/// Rows of a list, from `start` up to but not with `end`.
#[derive(Clone, Copy, Debug, Eq, PartialEq, Structural)]
pub struct RowRange {
    pub start: usize,
    pub end: usize,
}

impl RowRange {
    /// Whether `row` is one of the rows.
    pub open spec fn holds(self, row: int) -> bool {
        self.start <= row < self.end
    }

    pub fn contains(&self, row: usize) -> (contains: bool)
        ensures
            contains == self.holds(row as int),
    {
        self.start <= row && row < self.end
    }

    /// How many rows there are.
    pub fn len(&self) -> (count: usize)
        ensures
            count == floored_difference(self.end as int, self.start as int),
    {
        self.end.saturating_sub(self.start)
    }
}

/// Remembers which rows of a list are shown.
#[derive(Debug, Eq, PartialEq)]
pub struct SelectionViewport {
    start: usize,
    dataset_key: Option<DatasetKey>,
    selected_identity: Option<String>,
    selected_offset: usize,
}

/// What a [`SelectionViewport`] remembers.
#[verifier::ext_equal]
pub struct ViewportView {
    /// The first row that is shown.
    pub start: usize,
    /// Which list was shown.
    pub dataset_key: Option<DatasetKeyView>,
    /// What tells the selected row apart.
    pub selected_identity: Option<Seq<char>>,
    /// How many rows are shown above the selected row.
    pub selected_offset: usize,
}

/// What an optional key says.
pub open spec fn optional_key(key: Option<DatasetKey>) -> Option<DatasetKeyView> {
    match key {
        Some(key) => Some(key@),
        None => None,
    }
}

impl View for SelectionViewport {
    type V = ViewportView;

    closed spec fn view(&self) -> ViewportView {
        ViewportView {
            start: self.start,
            dataset_key: optional_key(self.dataset_key),
            selected_identity: optional_text(self.selected_identity),
            selected_offset: self.selected_offset,
        }
    }
}

impl Clone for SelectionViewport {
    fn clone(&self) -> (copy: Self)
        ensures
            copy@ == self@,
    {
        SelectionViewport {
            start: self.start,
            dataset_key: match &self.dataset_key {
                Some(key) => Some(key.clone()),
                None => None,
            },
            selected_identity: clone_optional_text(&self.selected_identity),
            selected_offset: self.selected_offset,
        }
    }
}

/// Where an entry stands first in a list.
pub open spec fn position_in<T>(list: Seq<T>, entry: T) -> Option<int>
    decreases list.len(),
{
    if list.len() == 0 {
        None
    } else {
        match position_in(list.drop_last(), entry) {
            Some(position) => Some(position),
            None => if list.last() == entry {
                Some(list.len() - 1)
            } else {
                None
            },
        }
    }
}

/// Where a list starts whose rows came, went or moved: the selected row stays
/// where it was on the screen, or else the first row does.
pub open spec fn remapped_start(
    viewport: ViewportView,
    next: DatasetKeyView,
    selected: Option<usize>,
) -> Option<int> {
    match (viewport.dataset_key, next) {
        (Some(DatasetKeyView::Ordered(previous)), DatasetKeyView::Ordered(key)) => {
            if previous.context != key.context || key.update != DatasetUpdate::Reconcile {
                None
            } else {
                let kept = match (selected, viewport.selected_identity) {
                    (Some(selected), Some(identity)) => identity_at(next, selected as int) == Some(
                        identity,
                    ) || position_in(key.identities, identity) is None,
                    _ => false,
                };
                if kept {
                    Some(
                        floored_difference(selected->0 as int, viewport.selected_offset as int),
                    )
                } else {
                    match identity_at(
                        DatasetKeyView::Ordered(previous),
                        viewport.start as int,
                    ) {
                        Some(top) => position_in(key.identities, top),
                        None => None,
                    }
                }
            }
        },
        _ => None,
    }
}

/// Where a list starts before it is brought to the selection.
pub open spec fn kept_start(
    viewport: ViewportView,
    next: DatasetKeyView,
    selected: Option<usize>,
) -> int {
    match viewport.dataset_key {
        Some(previous) => if preserves(previous, next) {
            viewport.start as int
        } else {
            match remapped_start(viewport, next, selected) {
                Some(start) => start,
                None => 0,
            }
        },
        None => 0,
    }
}

/// The first row of `max_rows` rows that show the selected row, as near as can be
/// to `start`.
pub open spec fn revealed_start(
    start: int,
    total: int,
    selected: Option<usize>,
    max_rows: int,
) -> int {
    let max_start = floored_difference(total, max_rows);
    let bounded = least(start, max_start);
    match selected {
        Some(selected) => if selected < bounded {
            selected as int
        } else if selected >= bounded + max_rows {
            least(selected + 1 - max_rows, max_start)
        } else {
            bounded
        },
        None => bounded,
    }
}

/// The selected row, if the list has it.
pub open spec fn selected_within(selected: Option<usize>, total: usize) -> Option<usize> {
    match selected {
        Some(selected) => if selected < total {
            Some(selected)
        } else {
            None
        },
        None => None,
    }
}

/// What a viewport remembers after a list was shown, and which rows are shown.
pub open spec fn shown(
    viewport: ViewportView,
    total: usize,
    selected: Option<usize>,
    max_rows: usize,
    key: DatasetKeyView,
) -> (ViewportView, RowRange) {
    let selected = selected_within(selected, total);
    let nothing = RowRange { start: 0, end: 0 };
    if total == 0 {
        (
            ViewportView {
                start: 0,
                dataset_key: Some(key),
                selected_identity: None,
                selected_offset: 0,
            },
            nothing,
        )
    } else if max_rows == 0 {
        (
            ViewportView {
                start: least(kept_start(viewport, key, selected), total - 1) as usize,
                dataset_key: Some(key),
                ..viewport
            },
            nothing,
        )
    } else {
        let start = revealed_start(
            kept_start(viewport, key, selected),
            total as int,
            selected,
            max_rows as int,
        );
        (
            ViewportView {
                start: start as usize,
                dataset_key: Some(key),
                selected_identity: match selected {
                    Some(selected) => identity_at(key, selected as int),
                    None => None,
                },
                selected_offset: match selected {
                    Some(selected) => floored_difference(selected as int, start) as usize,
                    None => 0,
                },
            },
            RowRange { start: start as usize, end: least(start + max_rows, total as int) as usize },
        )
    }
}

pub proof fn lemma_position_in<T>(list: Seq<T>, entry: T)
    ensures
        position_in(list, entry) matches Some(position) ==> 0 <= position < list.len()
            && list[position] == entry,
    decreases list.len(),
{
    if list.len() > 0 {
        lemma_position_in(list.drop_last(), entry);
    }
}

pub proof fn lemma_position_in_prefix<T>(list: Seq<T>, count: int, entry: T)
    requires
        0 <= count <= list.len(),
        position_in(list.take(count), entry) is Some,
    ensures
        position_in(list, entry) == position_in(list.take(count), entry),
    decreases list.len(),
{
    if count == list.len() {
        assert(list.take(count) =~= list);
    } else {
        assert(list.drop_last().take(count) =~= list.take(count));
        lemma_position_in_prefix(list.drop_last(), count, entry);
    }
}

/// The rows that are shown are rows of the list, and no more than fit.
pub proof fn lemma_shown_rows(
    viewport: ViewportView,
    total: usize,
    selected: Option<usize>,
    max_rows: usize,
    key: DatasetKeyView,
)
    ensures
        ({
            let range = shown(viewport, total, selected, max_rows, key).1;
            &&& range.start <= range.end <= total
            &&& range.end - range.start <= max_rows
        }),
{
    lemma_kept_start(viewport, key, selected_within(selected, total));
}

/// A list never starts above its first row.
pub proof fn lemma_kept_start(viewport: ViewportView, next: DatasetKeyView, selected: Option<usize>)
    ensures
        0 <= kept_start(viewport, next, selected),
{
    match remapped_start(viewport, next, selected) {
        Some(start) => {
            match (viewport.dataset_key, next) {
                (Some(DatasetKeyView::Ordered(previous)), DatasetKeyView::Ordered(key)) => {
                    match identity_at(DatasetKeyView::Ordered(previous), viewport.start as int) {
                        Some(top) => {
                            lemma_position_in(key.identities, top);
                        },
                        None => {},
                    }
                },
                _ => {},
            }
        },
        None => {},
    }
}

/// Where a text stands first in a list.
pub fn position_of_text(list: &Vec<String>, text: &String) -> (position: Option<usize>)
    ensures
        match position {
            Some(position) => position_in(texts(list@), text@) == Some(position as int),
            None => position_in(texts(list@), text@) is None,
        },
{
    let ghost all = texts(list@);
    let mut index: usize = 0;
    assert(all.take(0) =~= Seq::<Seq<char>>::empty());
    while index < list.len()
        invariant
            all == texts(list@),
            index <= list.len(),
            position_in(all.take(index as int), text@) is None,
        decreases list.len() - index,
    {
        assert(all.take(index + 1).drop_last() =~= all.take(index as int));
        assert(all.take(index + 1).last() == list@[index as int]@);
        if list[index] == *text {
            proof {
                lemma_position_in_prefix(all, index + 1, text@);
            }
            return Some(index);
        }
        index = index + 1;
    }
    assert(all.take(index as int) =~= all);
    None
}

/// A viewport that has shown nothing.
pub open spec fn fresh_viewport() -> ViewportView {
    ViewportView { start: 0, dataset_key: None, selected_identity: None, selected_offset: 0 }
}

impl Default for SelectionViewport {
    fn default() -> (viewport: Self)
        ensures
            viewport@ == fresh_viewport(),
    {
        SelectionViewport::new()
    }
}

impl SelectionViewport {
    pub fn new() -> (viewport: Self)
        ensures
            viewport@ == fresh_viewport(),
    {
        SelectionViewport {
            start: 0,
            dataset_key: None,
            selected_identity: None,
            selected_offset: 0,
        }
    }

    /// The first row that is shown.
    pub fn start(&self) -> (start: usize)
        ensures
            start == self@.start,
    {
        self.start
    }

    fn remapped_viewport_start(&self, next: &DatasetKey, selected: Option<usize>) -> (start: Option<
        usize,
    >)
        ensures
            match start {
                Some(start) => remapped_start(self@, next@, selected) == Some(start as int),
                None => remapped_start(self@, next@, selected) is None,
            },
    {
        match (&self.dataset_key, next) {
            (Some(DatasetKey::Ordered(previous)), DatasetKey::Ordered(key)) => {
                if previous.context != key.context || key.update != DatasetUpdate::Reconcile {
                    return None;
                }
                match (selected, &self.selected_identity) {
                    (Some(selected), Some(identity)) => {
                        let same_row = selected < key.identities.len() && key.identities[selected]
                            == *identity;
                        if same_row || position_of_text(&key.identities, identity).is_none() {
                            return Some(selected.saturating_sub(self.selected_offset));
                        }
                    },
                    _ => {},
                }
                if self.start < previous.identities.len() {
                    position_of_text(&key.identities, &previous.identities[self.start])
                } else {
                    None
                }
            },
            _ => None,
        }
    }

    /// Shows `max_rows` rows of a list, and gives which they are.
    pub fn visible_range(
        &mut self,
        total: usize,
        selected: Option<usize>,
        max_rows: usize,
        dataset_key: DatasetKey,
    ) -> (range: RowRange)
        ensures
            (final(self)@, range) == shown(old(self)@, total, selected, max_rows, dataset_key@),
    {
        if total == 0 {
            self.start = 0;
            self.dataset_key = Some(dataset_key);
            self.selected_identity = None;
            self.selected_offset = 0;
            return RowRange { start: 0, end: 0 };
        }
        let selected: Option<usize> = match selected {
            Some(row) => if row < total {
                Some(row)
            } else {
                None
            },
            None => None,
        };
        let preserved = match &self.dataset_key {
            Some(previous) => dataset_transition_preserves(previous, &dataset_key),
            None => false,
        };
        let kept: usize = if preserved {
            self.start
        } else {
            match self.remapped_viewport_start(&dataset_key, selected) {
                Some(start) => start,
                None => 0,
            }
        };
        assert(kept == kept_start(old(self)@, dataset_key@, selected));
        if max_rows == 0 {
            self.start = if kept < total - 1 {
                kept
            } else {
                total - 1
            };
            self.dataset_key = Some(dataset_key);
            return RowRange { start: 0, end: 0 };
        }
        let max_start: usize = total.saturating_sub(max_rows);
        let bounded: usize = if kept < max_start {
            kept
        } else {
            max_start
        };
        let start: usize = match selected {
            Some(row) => {
                if row < bounded {
                    row
                } else if row - bounded >= max_rows {
                    let lowest: usize = row + 1 - max_rows;
                    if lowest < max_start {
                        lowest
                    } else {
                        max_start
                    }
                } else {
                    bounded
                }
            },
            None => bounded,
        };
        self.start = start;
        match selected {
            Some(row) => {
                self.selected_identity = dataset_key.identity(row);
                self.selected_offset = row.saturating_sub(start);
            },
            None => {
                self.selected_identity = None;
                self.selected_offset = 0;
            },
        }
        self.dataset_key = Some(dataset_key);
        let end: usize = if max_rows < total - start {
            start + max_rows
        } else {
            total
        };
        RowRange { start, end }
    }

    /// A row that is drawn.
    pub fn row_target(&self, line_index: usize, surface: ListSurface, stable_index: usize) -> (target:
        RenderedRowTarget)
        ensures
            target@ == row_target_view(self@, line_index, surface, stable_index),
    {
        RenderedRowTarget {
            line_index,
            surface,
            stable_index,
            dataset_key: match &self.dataset_key {
                Some(key) => key.clone(),
                None => DatasetKey::Scalar(0),
            },
        }
    }
}

/// A row of a list that is drawn.
#[derive(Debug, Eq, PartialEq)]
pub struct RenderedRowTarget {
    /// The line of the panel.
    pub line_index: usize,
    pub surface: ListSurface,
    /// The row of the list.
    pub stable_index: usize,
    pub dataset_key: DatasetKey,
}

/// What a [`RenderedRowTarget`] says.
#[verifier::ext_equal]
pub struct RowTargetView {
    pub line_index: usize,
    pub surface: ListSurface,
    pub stable_index: usize,
    pub dataset_key: DatasetKeyView,
}

impl View for RenderedRowTarget {
    type V = RowTargetView;

    open spec fn view(&self) -> RowTargetView {
        RowTargetView {
            line_index: self.line_index,
            surface: self.surface,
            stable_index: self.stable_index,
            dataset_key: self.dataset_key@,
        }
    }
}

impl Clone for RenderedRowTarget {
    fn clone(&self) -> (copy: Self)
        ensures
            copy@ == self@,
    {
        RenderedRowTarget {
            line_index: self.line_index,
            surface: self.surface,
            stable_index: self.stable_index,
            dataset_key: self.dataset_key.clone(),
        }
    }
}

/// What the rows of a list say.
pub open spec fn target_views(targets: Seq<RenderedRowTarget>) -> Seq<RowTargetView> {
    targets.map_values(|target: RenderedRowTarget| target@)
}

/// A row that is drawn of the list that a viewport shows.
pub open spec fn row_target_view(
    viewport: ViewportView,
    line_index: usize,
    surface: ListSurface,
    stable_index: usize,
) -> RowTargetView {
    RowTargetView {
        line_index,
        surface,
        stable_index,
        dataset_key: match viewport.dataset_key {
            Some(key) => key,
            None => DatasetKeyView::Scalar(0),
        },
    }
}

/// The rows that are shown are rows of the list, as many as fit, and the
/// selected row is one of them.
pub proof fn law_selection_stays_in_sight(
    viewport: ViewportView,
    total: usize,
    selected: Option<usize>,
    max_rows: usize,
    key: DatasetKeyView,
)
    requires
        max_rows > 0,
    ensures
        ({
            let range = shown(viewport, total, selected, max_rows, key).1;
            &&& range.start <= range.end <= total
            &&& range.end - range.start == least(max_rows as int, total as int)
            &&& selected matches Some(row) ==> row < total ==> range.holds(row as int)
        }),
{
    lemma_kept_start(viewport, key, selected_within(selected, total));
}

/// As long as the list is the same, its rows reach as far as they did, and the
/// selection, if there is one, stays in sight, no row moves.
pub proof fn law_rows_stay_while_selection_is_in_sight(
    viewport: ViewportView,
    total: usize,
    selected: Option<usize>,
    max_rows: usize,
    key: DatasetKeyView,
)
    requires
        viewport.dataset_key matches Some(previous) && preserves(previous, key),
        max_rows > 0,
        viewport.start <= floored_difference(total as int, max_rows as int),
        selected matches Some(row) ==> row < total ==> viewport.start <= row < viewport.start
            + max_rows,
    ensures
        shown(viewport, total, selected, max_rows, key).1 == (RowRange {
            start: viewport.start,
            end: least(viewport.start + max_rows, total as int) as usize,
        }),
{
}

/// Another list is shown from its first row on, unless the selection is farther
/// down.
pub proof fn law_another_list_starts_at_its_top(
    viewport: ViewportView,
    total: usize,
    selected: usize,
    max_rows: usize,
    key: DatasetKeyView,
)
    requires
        viewport.dataset_key matches Some(previous) ==> !preserves(previous, key),
        key matches DatasetKeyView::Ordered(key) ==> key.update != DatasetUpdate::Reconcile,
        selected < max_rows,
        selected < total,
    ensures
        shown(viewport, total, Some(selected), max_rows, key).1.start == 0,
{
}

/// Where rows come, go or move and the selected row is still selected, it stays
/// at its place on the screen, as far as the list reaches.
pub proof fn law_selected_row_keeps_its_place(
    viewport: ViewportView,
    total: usize,
    selected: usize,
    max_rows: usize,
    previous: OrderedKeyView,
    key: OrderedKeyView,
)
    requires
        viewport.dataset_key == Some(DatasetKeyView::Ordered(previous)),
        !preserves(DatasetKeyView::Ordered(previous), DatasetKeyView::Ordered(key)),
        previous.context == key.context,
        key.update == DatasetUpdate::Reconcile,
        selected < total == key.identities.len(),
        viewport.selected_identity == Some(key.identities[selected as int]),
        viewport.selected_offset < max_rows,
        viewport.selected_offset <= selected,
        selected - viewport.selected_offset + max_rows <= total,
    ensures
        shown(viewport, total, Some(selected), max_rows, DatasetKeyView::Ordered(key)).1.start
            == selected - viewport.selected_offset,
{
}

/// A moment without room for any row changes nothing: where there is room again,
/// the same rows are shown as if it had not been.
pub proof fn law_moment_without_room_is_forgotten(
    viewport: ViewportView,
    total: usize,
    selected: Option<usize>,
    max_rows: usize,
    key: DatasetKeyView,
)
    requires
        total > 0,
        max_rows > 0,
    ensures
        shown(shown(viewport, total, selected, 0, key).0, total, selected, max_rows, key) == shown(
            viewport,
            total,
            selected,
            max_rows,
            key,
        ),
{
    lemma_kept_start(viewport, key, selected_within(selected, total));
}

} // verus!
