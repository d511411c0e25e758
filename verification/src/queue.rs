//! The playback queue: a logical order that the user arranges, an active order
//! that playback follows, and a current item.

use rand::seq::SliceRandom;
use rand::SeedableRng;
use rand_chacha::ChaCha8Rng;
use vstd::prelude::*;
use vstd::seq_lib::*;
use vstd::std_specs::convert::FromSpecImpl;
use vstd::string::*;
use vstd::utf8::*;

use crate::domain::{MediaId, MediaIdView, MediaItem, MediaItemView, RepeatMode};
use crate::seqs::{first_where, lemma_first_where};
use crate::text::{append_decimal, byte_len, decimal_digits, is_digit, lemma_decimal_digits,
    lemma_utf8_len_bounds, lemma_utf8_len_concat, utf8_len};

verus! {

/// How many distinct items an explicitly activated list may hold.
pub const MAX_EXPLICIT_LIST_ITEMS: usize = 1_024;

/// The stable identity of a queue entry.
#[derive(Debug, Eq, Hash, Ord, PartialEq, PartialOrd)]
pub struct QueueItemId(String);

impl View for QueueItemId {
    type V = Seq<char>;

    closed spec fn view(&self) -> Seq<char> {
        self.0@
    }
}

impl Clone for QueueItemId {
    fn clone(&self) -> (copy: Self)
        ensures
            copy == *self,
    {
        QueueItemId(self.0.clone())
    }
}

impl QueueItemId {
    pub fn as_str(&self) -> (text: &str)
        ensures
            text@ == self@,
    {
        self.0.as_str()
    }

    /// Whether both ids have the same text.
    pub fn same(&self, other: &QueueItemId) -> (same: bool)
        ensures
            same == (self@ == other@),
    {
        self.0 == other.0
    }
}

impl From<&str> for QueueItemId {
    fn from(value: &str) -> (id: Self)
        ensures
            id@ == value@,
    {
        QueueItemId(value.to_owned())
    }
}

impl FromSpecImpl<&str> for QueueItemId {
    open spec fn obeys_from_spec() -> bool {
        false
    }

    open spec fn from_spec(value: &str) -> Self {
        arbitrary()
    }
}

impl From<String> for QueueItemId {
    fn from(value: String) -> (id: Self)
        ensures
            id@ == value@,
    {
        QueueItemId(value)
    }
}

impl FromSpecImpl<String> for QueueItemId {
    open spec fn obeys_from_spec() -> bool {
        false
    }

    open spec fn from_spec(value: String) -> Self {
        arbitrary()
    }
}

/// The texts of a list of ids.
pub open spec fn id_texts(ids: Seq<QueueItemId>) -> Seq<Seq<char>> {
    ids.map_values(|id: QueueItemId| id@)
}

/// The text of an optional id.
pub open spec fn optional_id_text(id: Option<QueueItemId>) -> Option<Seq<char>> {
    match id {
        Some(id) => Some(id@),
        None => None,
    }
}

/// An entry of the queue.
#[derive(Debug, PartialEq)]
pub struct QueueItem {
    id: QueueItemId,
    media: MediaItem,
}

/// What a [`QueueItem`] says.
#[verifier::ext_equal]
pub struct QueueItemView {
    pub id: Seq<char>,
    pub media: MediaItemView,
}

impl View for QueueItem {
    type V = QueueItemView;

    closed spec fn view(&self) -> QueueItemView {
        QueueItemView { id: self.id@, media: self.media@ }
    }
}

impl Clone for QueueItem {
    fn clone(&self) -> (copy: Self)
        ensures
            copy@ == self@,
    {
        QueueItem { id: self.id.clone(), media: self.media.clone() }
    }
}

impl QueueItem {
    pub fn new<I: Into<QueueItemId>>(id: I, media: MediaItem) -> (item: Self)
        ensures
            item@.media == media@,
            exists|made: QueueItemId| #[trigger]
                call_ensures(I::into, (id,), made) && item@.id == made@,
    {
        let id = id.into();
        QueueItem { id, media }
    }

    pub fn id(&self) -> (id: &QueueItemId)
        ensures
            id@ == self@.id,
    {
        &self.id
    }

    pub fn media(&self) -> (media: &MediaItem)
        ensures
            media@ == self@.media,
    {
        &self.media
    }
}

/// What the entries of a list say.
pub open spec fn item_views(items: Seq<QueueItem>) -> Seq<QueueItemView> {
    items.map_values(|item: QueueItem| item@)
}

/// The ids of a list of entries.
pub open spec fn ids_of(items: Seq<QueueItemView>) -> Seq<Seq<char>> {
    items.map_values(|item: QueueItemView| item.id)
}

/// Everything about a queue that outlives the process.
#[derive(Debug, PartialEq)]
pub struct QueueSnapshot {
    pub logical: Vec<QueueItem>,
    pub active: Vec<QueueItemId>,
    pub current: Option<QueueItemId>,
    pub repeat: RepeatMode,
    pub shuffle_seed: Option<u64>,
    pub radio: bool,
}

/// The state of a queue.
#[verifier::ext_equal]
pub struct QueueView {
    pub logical: Seq<QueueItemView>,
    pub active: Seq<Seq<char>>,
    pub current: Option<Seq<char>>,
    pub repeat: RepeatMode,
    pub shuffle_seed: Option<u64>,
    pub radio: bool,
}

impl View for QueueSnapshot {
    type V = QueueView;

    open spec fn view(&self) -> QueueView {
        QueueView {
            logical: item_views(self.logical@),
            active: id_texts(self.active@),
            current: optional_id_text(self.current),
            repeat: self.repeat,
            shuffle_seed: self.shuffle_seed,
            radio: self.radio,
        }
    }
}

impl Clone for QueueSnapshot {
    fn clone(&self) -> (copy: Self)
        ensures
            copy@ == self@,
    {
        QueueSnapshot {
            logical: clone_items(&self.logical),
            active: clone_ids(&self.active),
            current: clone_optional_id(&self.current),
            repeat: self.repeat,
            shuffle_seed: self.shuffle_seed,
            radio: self.radio,
        }
    }
}

/// Why a snapshot or a request does not fit the queue.
#[derive(Debug, Eq, PartialEq)]
pub enum QueueError {
    DuplicateLogicalId { id: QueueItemId },
    ItemNotFound { id: QueueItemId },
    DuplicateActiveId { id: QueueItemId },
    ActiveIdNotFound { id: QueueItemId },
    ActiveIdsMismatch { logical_count: usize, active_count: usize },
    UnshuffledOrderMismatch { index: usize, logical_id: QueueItemId, active_id: QueueItemId },
    CurrentIdNotFound { id: QueueItemId },
    MissingCurrent,
}

/// What a [`QueueError`] says.
#[verifier::ext_equal]
pub enum QueueErrorView {
    DuplicateLogicalId { id: Seq<char> },
    ItemNotFound { id: Seq<char> },
    DuplicateActiveId { id: Seq<char> },
    ActiveIdNotFound { id: Seq<char> },
    ActiveIdsMismatch { logical_count: nat, active_count: nat },
    UnshuffledOrderMismatch { index: int, logical_id: Seq<char>, active_id: Seq<char> },
    CurrentIdNotFound { id: Seq<char> },
    MissingCurrent,
}

impl Clone for QueueError {
    fn clone(&self) -> (copy: Self)
        ensures
            copy@ == self@,
    {
        match self {
            QueueError::DuplicateLogicalId { id } => QueueError::DuplicateLogicalId {
                id: id.clone(),
            },
            QueueError::ItemNotFound { id } => QueueError::ItemNotFound { id: id.clone() },
            QueueError::DuplicateActiveId { id } => QueueError::DuplicateActiveId {
                id: id.clone(),
            },
            QueueError::ActiveIdNotFound { id } => QueueError::ActiveIdNotFound { id: id.clone() },
            QueueError::ActiveIdsMismatch { logical_count, active_count } =>
                QueueError::ActiveIdsMismatch {
                logical_count: *logical_count,
                active_count: *active_count,
            },
            QueueError::UnshuffledOrderMismatch { index, logical_id, active_id } =>
                QueueError::UnshuffledOrderMismatch {
                index: *index,
                logical_id: logical_id.clone(),
                active_id: active_id.clone(),
            },
            QueueError::CurrentIdNotFound { id } => QueueError::CurrentIdNotFound {
                id: id.clone(),
            },
            QueueError::MissingCurrent => QueueError::MissingCurrent,
        }
    }
}

impl View for QueueError {
    type V = QueueErrorView;

    open spec fn view(&self) -> QueueErrorView {
        match self {
            QueueError::DuplicateLogicalId { id } => QueueErrorView::DuplicateLogicalId { id: id@ },
            QueueError::ItemNotFound { id } => QueueErrorView::ItemNotFound { id: id@ },
            QueueError::DuplicateActiveId { id } => QueueErrorView::DuplicateActiveId { id: id@ },
            QueueError::ActiveIdNotFound { id } => QueueErrorView::ActiveIdNotFound { id: id@ },
            QueueError::ActiveIdsMismatch { logical_count, active_count } =>
                QueueErrorView::ActiveIdsMismatch {
                logical_count: *logical_count as nat,
                active_count: *active_count as nat,
            },
            QueueError::UnshuffledOrderMismatch { index, logical_id, active_id } =>
                QueueErrorView::UnshuffledOrderMismatch {
                index: *index as int,
                logical_id: logical_id@,
                active_id: active_id@,
            },
            QueueError::CurrentIdNotFound { id } => QueueErrorView::CurrentIdNotFound { id: id@ },
            QueueError::MissingCurrent => QueueErrorView::MissingCurrent,
        }
    }
}

impl QueueError {
    /// The message shown for the error.
    pub fn message(&self) -> (text: String)
        ensures
            text@ == error_message(self@),
    {
        let mut text = String::new();
        match self {
            QueueError::DuplicateLogicalId { id } => {
                text.append("logical queue contains duplicate item id `");
                text.append(id.as_str());
                text.append("`");
            },
            QueueError::ItemNotFound { id } => {
                text.append("queue item id `");
                text.append(id.as_str());
                text.append("` was not found");
            },
            QueueError::DuplicateActiveId { id } => {
                text.append("active queue contains duplicate item id `");
                text.append(id.as_str());
                text.append("`");
            },
            QueueError::ActiveIdNotFound { id } => {
                text.append("active queue references unknown item id `");
                text.append(id.as_str());
                text.append("`");
            },
            QueueError::ActiveIdsMismatch { logical_count, active_count } => {
                text.append("active queue is not a permutation of the logical queue: ");
                append_decimal(&mut text, *active_count as u64);
                text.append(" active ids for ");
                append_decimal(&mut text, *logical_count as u64);
                text.append(" logical items");
            },
            QueueError::UnshuffledOrderMismatch { index, logical_id, active_id } => {
                text.append("unshuffled active id `");
                text.append(active_id.as_str());
                text.append("` at index ");
                append_decimal(&mut text, *index as u64);
                text.append(" does not match logical id `");
                text.append(logical_id.as_str());
                text.append("`");
            },
            QueueError::CurrentIdNotFound { id } => {
                text.append("current queue item id `");
                text.append(id.as_str());
                text.append("` is not present");
            },
            QueueError::MissingCurrent => {
                text.append("a non-empty queue must have a current item");
            },
        }
        assert(text@ =~= error_message(self@));
        text
    }
}

/// The message shown for an error.
pub open spec fn error_message(error: QueueErrorView) -> Seq<char> {
    match error {
        QueueErrorView::DuplicateLogicalId { id } =>
            "logical queue contains duplicate item id `"@ + id + "`"@,
        QueueErrorView::ItemNotFound { id } => "queue item id `"@ + id + "` was not found"@,
        QueueErrorView::DuplicateActiveId { id } =>
            "active queue contains duplicate item id `"@ + id + "`"@,
        QueueErrorView::ActiveIdNotFound { id } =>
            "active queue references unknown item id `"@ + id + "`"@,
        QueueErrorView::ActiveIdsMismatch { logical_count, active_count } =>
            "active queue is not a permutation of the logical queue: "@ + decimal_digits(
            active_count,
        ) + " active ids for "@ + decimal_digits(logical_count) + " logical items"@,
        QueueErrorView::UnshuffledOrderMismatch { index, logical_id, active_id } =>
            "unshuffled active id `"@ + active_id + "` at index "@ + decimal_digits(index as nat)
            + " does not match logical id `"@ + logical_id + "`"@,
        QueueErrorView::CurrentIdNotFound { id } =>
            "current queue item id `"@ + id + "` is not present"@,
        QueueErrorView::MissingCurrent => "a non-empty queue must have a current item"@,
    }
}

/// Why an explicitly activated list cannot replace the queue.
#[derive(Debug, Eq, PartialEq)]
pub enum QueueReplacementError {
    TooManyItems { actual: usize, limit: usize },
    SelectedItemNotFound { id: MediaId },
    InvalidQueue(QueueError),
}

impl Clone for QueueReplacementError {
    fn clone(&self) -> (copy: Self)
        ensures
            match (*self, copy) {
                (
                    QueueReplacementError::TooManyItems { actual, limit },
                    QueueReplacementError::TooManyItems { actual: counted, limit: allowed },
                ) => counted == actual && allowed == limit,
                (
                    QueueReplacementError::SelectedItemNotFound { id },
                    QueueReplacementError::SelectedItemNotFound { id: missing },
                ) => missing@ == id@,
                (
                    QueueReplacementError::InvalidQueue(error),
                    QueueReplacementError::InvalidQueue(reason),
                ) => reason@ == error@,
                _ => false,
            },
    {
        match self {
            QueueReplacementError::TooManyItems { actual, limit } =>
                QueueReplacementError::TooManyItems { actual: *actual, limit: *limit },
            QueueReplacementError::SelectedItemNotFound { id } =>
                QueueReplacementError::SelectedItemNotFound { id: id.clone() },
            QueueReplacementError::InvalidQueue(error) => QueueReplacementError::InvalidQueue(
                error.clone(),
            ),
        }
    }
}

impl QueueReplacementError {
    /// The message shown for the error.
    pub fn message(&self) -> (text: String)
        ensures
            text@ == match self {
                QueueReplacementError::TooManyItems { actual, limit } => "explicit list contains "@
                    + decimal_digits(*actual as nat) + " unique items; the limit is "@
                    + decimal_digits(*limit as nat),
                QueueReplacementError::SelectedItemNotFound { id } =>
                    "selected media item was not found in the explicit list"@,
                QueueReplacementError::InvalidQueue(error) => error_message(error@),
            },
    {
        match self {
            QueueReplacementError::TooManyItems { actual, limit } => {
                let mut text = String::new();
                text.append("explicit list contains ");
                append_decimal(&mut text, *actual as u64);
                text.append(" unique items; the limit is ");
                append_decimal(&mut text, *limit as u64);
                assert(text@ =~= "explicit list contains "@ + decimal_digits(*actual as nat)
                    + " unique items; the limit is "@ + decimal_digits(*limit as nat));
                text
            },
            QueueReplacementError::SelectedItemNotFound { id } => {
                "selected media item was not found in the explicit list".to_owned()
            },
            QueueReplacementError::InvalidQueue(error) => error.message(),
        }
    }
}

/// Moves the element at `from` in front of the one at `before`.
pub open spec fn entry_moved_before<T>(entries: Seq<T>, from: int, before: int) -> Seq<T> {
    entries.remove(from).insert(
        if from < before {
            before - 1
        } else {
            before
        },
        entries[from],
    )
}

/// Whether the id at `index` occurs before it too.
pub open spec fn repeats_earlier(ids: Seq<Seq<char>>, index: int) -> bool {
    exists|j: int| 0 <= j < index && #[trigger] ids[j] == ids[index]
}

/// The first place whose id occurs before it too.
pub open spec fn first_repeated(ids: Seq<Seq<char>>) -> Option<int> {
    first_where(ids.len(), |i: int| repeats_earlier(ids, i))
}

/// The first place of the active order whose id occurs before it too or is not among
/// `ids`.
pub open spec fn first_misplaced(ids: Seq<Seq<char>>, active: Seq<Seq<char>>) -> Option<int> {
    first_where(active.len(), |i: int| repeats_earlier(active, i) || !ids.contains(active[i]))
}

/// The first place at which the active order has another id.
pub open spec fn first_reordered(ids: Seq<Seq<char>>, active: Seq<Seq<char>>) -> Option<int> {
    first_where(ids.len(), |i: int| ids[i] != active[i])
}

impl QueueView {
    /// A queue without items.
    pub open spec fn empty() -> QueueView {
        QueueView {
            logical: Seq::empty(),
            active: Seq::empty(),
            current: None,
            repeat: RepeatMode::Off,
            shuffle_seed: None,
            radio: false,
        }
    }

    /// The ids in logical order.
    pub open spec fn ids(self) -> Seq<Seq<char>> {
        ids_of(self.logical)
    }

    /// What every queue keeps: ids are unique, the active order is a
    /// permutation of the logical one and equals it without shuffle, and a
    /// queue has a current item exactly when it has items.
    pub open spec fn wf(self) -> bool {
        &&& self.ids().no_duplicates()
        &&& self.active.no_duplicates()
        &&& self.active.len() == self.logical.len()
        &&& forall|i: int| 0 <= i < self.active.len() ==> self.ids().contains(#[trigger] self.active[i])
        &&& self.shuffle_seed is None ==> self.active == self.ids()
        &&& match self.current {
            Some(id) => self.ids().contains(id),
            None => self.logical.len() == 0,
        }
    }

    /// The first thing wrong with the state, in the order in which it is
    /// checked, if anything is.
    pub open spec fn error(self) -> Option<QueueErrorView> {
        let ids = self.ids();
        let duplicate = first_repeated(ids);
        let misplaced = first_misplaced(ids, self.active);
        let reordered = first_reordered(ids, self.active);
        if let Some(i) = duplicate {
            Some(QueueErrorView::DuplicateLogicalId { id: ids[i] })
        } else if let Some(i) = misplaced {
            if repeats_earlier(self.active, i) {
                Some(QueueErrorView::DuplicateActiveId { id: self.active[i] })
            } else {
                Some(QueueErrorView::ActiveIdNotFound { id: self.active[i] })
            }
        } else if self.active.len() != ids.len() {
            Some(
                QueueErrorView::ActiveIdsMismatch {
                    logical_count: ids.len(),
                    active_count: self.active.len(),
                },
            )
        } else if self.shuffle_seed is None && reordered is Some {
            Some(
                QueueErrorView::UnshuffledOrderMismatch {
                    index: reordered->0,
                    logical_id: ids[reordered->0],
                    active_id: self.active[reordered->0],
                },
            )
        } else {
            match self.current {
                Some(id) => if ids.contains(id) {
                    None
                } else {
                    Some(QueueErrorView::CurrentIdNotFound { id })
                },
                None => if ids.len() == 0 {
                    None
                } else {
                    Some(QueueErrorView::MissingCurrent)
                },
            }
        }
    }

    /// The entry with the given id.
    pub open spec fn item(self, id: Seq<char>) -> QueueItemView {
        self.logical[self.ids().index_of(id)]
    }

    /// The current entry.
    pub open spec fn current_item(self) -> Option<QueueItemView> {
        match self.current {
            Some(id) => Some(self.item(id)),
            None => None,
        }
    }

    /// Where the current item stands in the active order.
    pub open spec fn current_position(self) -> Option<int> {
        match self.current {
            Some(id) => Some(self.active.index_of(id)),
            None => None,
        }
    }

    /// The queue after `item` was added at the end of both orders.
    pub open spec fn appended(self, item: QueueItemView) -> QueueView {
        QueueView {
            logical: self.logical.push(item),
            active: self.active.push(item.id),
            current: if self.current is None {
                Some(item.id)
            } else {
                self.current
            },
            ..self
        }
    }

    /// The queue after the entry `id` left. Where it was current, the entry
    /// that followed it in active order takes its place, or else the last one.
    pub open spec fn removed(self, id: Seq<char>) -> QueueView {
        let position = self.active.index_of(id);
        let active = self.active.remove(position);
        QueueView {
            logical: self.logical.remove(self.ids().index_of(id)),
            active,
            current: if self.current == Some(id) {
                if position < active.len() {
                    Some(active[position])
                } else if active.len() > 0 {
                    Some(active.last())
                } else {
                    None
                }
            } else {
                self.current
            },
            ..self
        }
    }

    /// The queue after the entry `id` moved in front of `before` in both
    /// orders.
    pub open spec fn moved_before(self, id: Seq<char>, before: Seq<char>) -> QueueView {
        if id == before {
            self
        } else {
            QueueView {
                logical: entry_moved_before(
                    self.logical,
                    self.ids().index_of(id),
                    self.ids().index_of(before),
                ),
                active: entry_moved_before(
                    self.active,
                    self.active.index_of(id),
                    self.active.index_of(before),
                ),
                ..self
            }
        }
    }

    /// The position in active order that follows the current one.
    pub open spec fn next_position(self) -> Option<int> {
        match self.current_position() {
            Some(position) => if position + 1 < self.active.len() {
                Some(position + 1)
            } else if self.repeat == RepeatMode::All {
                Some(0)
            } else {
                None
            },
            None => None,
        }
    }

    /// The position in active order that precedes the current one.
    pub open spec fn previous_position(self) -> Option<int> {
        match self.current_position() {
            Some(position) => if position > 0 {
                Some(position - 1)
            } else if self.repeat == RepeatMode::All {
                Some(self.active.len() - 1)
            } else {
                None
            },
            None => None,
        }
    }

    /// The queue with the entry at `position` of the active order current.
    pub open spec fn at(self, position: int) -> QueueView {
        QueueView { current: Some(self.active[position]), ..self }
    }

    /// What [`Queue::next`] does: the queue afterwards and the entry it gives.
    pub open spec fn advanced(self) -> (QueueView, Option<QueueItemView>) {
        if self.repeat == RepeatMode::One {
            (self, self.current_item())
        } else {
            match self.next_position() {
                Some(position) => (self.at(position), self.at(position).current_item()),
                None => (self, None),
            }
        }
    }

    /// What [`Queue::previous`] does: the queue afterwards and the entry it
    /// gives.
    pub open spec fn stepped_back(self) -> (QueueView, Option<QueueItemView>) {
        if self.repeat == RepeatMode::One {
            (self, self.current_item())
        } else {
            match self.previous_position() {
                Some(position) => (self.at(position), self.at(position).current_item()),
                None => (self, None),
            }
        }
    }

    /// The ids that a shuffle rearranges: all but the current one.
    pub open spec fn others(self) -> Seq<Seq<char>> {
        self.ids().filter(|id: Seq<char>| self.current != Some(id))
    }

    /// The queue shuffled with `seed`, where `order` rearranges the ids that
    /// are not current. The current item comes first.
    pub open spec fn shuffled(self, order: Seq<Seq<char>>, seed: u64) -> QueueView {
        QueueView {
            active: match self.current {
                Some(id) => seq![id] + order,
                None => order,
            },
            shuffle_seed: Some(seed),
            ..self
        }
    }

    /// The queue playing in logical order.
    pub open spec fn unshuffled(self) -> QueueView {
        QueueView { active: self.ids(), shuffle_seed: None, ..self }
    }
}

/// What `SliceRandom::shuffle` makes of `ids` with a `ChaCha8Rng` that was
/// seeded with `seed`.
pub uninterp spec fn shuffled_order(ids: Seq<Seq<char>>, seed: u64) -> Seq<Seq<char>>;

/// Rearranges `ids` with rand's `SliceRandom::shuffle`, drawing from a
/// `ChaCha8Rng` seeded by `SeedableRng::seed_from_u64`. The generator is
/// deterministic and portable, so the order is a function of the ids and the
/// seed; the shuffle swaps elements in place, so it keeps each of them.
#[verifier::external_body]
fn shuffle_ids(ids: &mut Vec<QueueItemId>, seed: u64)
    ensures
        id_texts(final(ids)@) == shuffled_order(id_texts(old(ids)@), seed),
        id_texts(final(ids)@).to_multiset() == id_texts(old(ids)@).to_multiset(),
{
    ids.shuffle(&mut ChaCha8Rng::seed_from_u64(seed));
}

/// The position of `id` in `ids`.
fn find_id(ids: &Vec<QueueItemId>, id: &QueueItemId) -> (found: Option<usize>)
    ensures
        match found {
            Some(index) => index < ids.len() && id_texts(ids@)[index as int] == id@ && forall|j: int|
                0 <= j < index ==> #[trigger] id_texts(ids@)[j] != id@,
            None => !id_texts(ids@).contains(id@),
        },
{
    let mut index: usize = 0;
    while index < ids.len()
        invariant
            index <= ids.len(),
            forall|j: int| 0 <= j < index ==> #[trigger] id_texts(ids@)[j] != id@,
        decreases ids.len() - index,
    {
        assert(id_texts(ids@)[index as int] == ids@[index as int]@);
        if ids[index].same(id) {
            return Some(index);
        }
        index = index + 1;
    }
    None
}

/// The position of the entry `id` in `items`.
fn find_item(items: &Vec<QueueItem>, id: &QueueItemId) -> (found: Option<usize>)
    ensures
        match found {
            Some(index) => index < items.len() && ids_of(item_views(items@))[index as int] == id@
                && forall|j: int|
                0 <= j < index ==> #[trigger] ids_of(item_views(items@))[j] != id@,
            None => !ids_of(item_views(items@)).contains(id@),
        },
{
    let mut index: usize = 0;
    while index < items.len()
        invariant
            index <= items.len(),
            forall|j: int| 0 <= j < index ==> #[trigger] ids_of(item_views(items@))[j] != id@,
        decreases items.len() - index,
    {
        assert(ids_of(item_views(items@))[index as int] == items@[index as int]@.id);
        if items[index].id.same(id) {
            return Some(index);
        }
        index = index + 1;
    }
    None
}

/// In a list without duplicates an element stands at one position only.
proof fn lemma_index_of<T>(items: Seq<T>, index: int)
    requires
        items.no_duplicates(),
        0 <= index < items.len(),
    ensures
        items.index_of(items[index]) == index,
{
    assert(items.contains(items[index]));
}

/// Copies a list of ids.
fn clone_ids(ids: &Vec<QueueItemId>) -> (copy: Vec<QueueItemId>)
    ensures
        id_texts(copy@) == id_texts(ids@),
{
    let mut copy: Vec<QueueItemId> = Vec::new();
    let mut index: usize = 0;
    while index < ids.len()
        invariant
            index <= ids.len(),
            copy.len() == index,
            forall|i: int| 0 <= i < index ==> (#[trigger] copy@[i])@ == ids@[i]@,
        decreases ids.len() - index,
    {
        copy.push(ids[index].clone());
        index = index + 1;
    }
    assert(id_texts(copy@) =~= id_texts(ids@));
    copy
}

/// Copies an optional id.
fn clone_optional_id(id: &Option<QueueItemId>) -> (copy: Option<QueueItemId>)
    ensures
        copy == *id,
{
    match id {
        Some(id) => Some(id.clone()),
        None => None,
    }
}

/// Copies a list of entries.
fn clone_items(items: &Vec<QueueItem>) -> (copy: Vec<QueueItem>)
    ensures
        item_views(copy@) == item_views(items@),
{
    let mut copy: Vec<QueueItem> = Vec::new();
    let mut index: usize = 0;
    while index < items.len()
        invariant
            index <= items.len(),
            copy.len() == index,
            forall|i: int| 0 <= i < index ==> (#[trigger] copy@[i])@ == items@[i]@,
        decreases items.len() - index,
    {
        copy.push(items[index].clone());
        index = index + 1;
    }
    assert(item_views(copy@) =~= item_views(items@));
    copy
}

/// The ids of a list of entries.
fn collect_ids(items: &Vec<QueueItem>) -> (ids: Vec<QueueItemId>)
    ensures
        id_texts(ids@) == ids_of(item_views(items@)),
{
    let mut ids: Vec<QueueItemId> = Vec::new();
    let mut index: usize = 0;
    while index < items.len()
        invariant
            index <= items.len(),
            ids.len() == index,
            forall|i: int| 0 <= i < index ==> (#[trigger] ids@[i])@ == items@[i]@.id,
        decreases items.len() - index,
    {
        ids.push(items[index].id.clone());
        index = index + 1;
    }
    assert(id_texts(ids@) =~= ids_of(item_views(items@)));
    ids
}

/// Moves the element at `from` in front of the one at `before`.
fn move_entry_before<T>(entries: &mut Vec<T>, from: usize, before: usize)
    requires
        from < old(entries).len(),
        before < old(entries).len(),
        from != before,
    ensures
        final(entries)@ == entry_moved_before(old(entries)@, from as int, before as int),
{
    let entry = entries.remove(from);
    let insertion_index: usize = if from < before {
        before - 1
    } else {
        before
    };
    entries.insert(insertion_index, entry);
}

/// Checks that no entry occurs twice.
fn check_logical_ids(items: &Vec<QueueItem>) -> (checked: Result<(), QueueError>)
    ensures
        match (checked, first_repeated(ids_of(item_views(items@)))) {
            (Ok(()), None) => true,
            (Err(error), Some(i)) => error@ == (QueueErrorView::DuplicateLogicalId {
                id: ids_of(item_views(items@))[i],
            }),
            _ => false,
        },
{
    let ghost ids = ids_of(item_views(items@));
    let ghost duplicate = |i: int| repeats_earlier(ids, i);
    let mut index: usize = 0;
    while index < items.len()
        invariant
            index <= items.len(),
            ids == ids_of(item_views(items@)),
            duplicate == (|i: int| repeats_earlier(ids, i)),
            forall|i: int| 0 <= i < index ==> !#[trigger] duplicate(i),
        decreases items.len() - index,
    {
        let id = &items[index].id;
        assert(ids[index as int] == id@);
        if item_id_occurs_before(items, index) {
            proof {
                lemma_first_where(ids.len(), duplicate, index as int);
            }
            return Err(QueueError::DuplicateLogicalId { id: id.clone() });
        }
        index = index + 1;
    }
    Ok(())
}

/// Checks that every id of the active order is that of an entry, and occurs once.
fn check_active_ids(items: &Vec<QueueItem>, order: &Vec<QueueItemId>) -> (checked: Result<
    (),
    QueueError,
>)
    ensures
        match (checked, first_misplaced(ids_of(item_views(items@)), id_texts(order@))) {
            (Ok(()), None) => true,
            (Err(error), Some(i)) => {
                let active = id_texts(order@);
                error@ == if repeats_earlier(active, i) {
                    QueueErrorView::DuplicateActiveId { id: active[i] }
                } else {
                    QueueErrorView::ActiveIdNotFound { id: active[i] }
                }
            },
            _ => false,
        },
{
    let ghost ids = ids_of(item_views(items@));
    let ghost active = id_texts(order@);
    let ghost misplaced = |i: int| repeats_earlier(active, i) || !ids.contains(active[i]);
    let mut position: usize = 0;
    while position < order.len()
        invariant
            position <= order.len(),
            ids == ids_of(item_views(items@)),
            active == id_texts(order@),
            misplaced == (|i: int| repeats_earlier(active, i) || !ids.contains(active[i])),
            forall|i: int| 0 <= i < position ==> !#[trigger] misplaced(i),
        decreases order.len() - position,
    {
        let id = &order[position];
        assert(active[position as int] == id@);
        if id_occurs_before(order, position) {
            proof {
                lemma_first_where(active.len(), misplaced, position as int);
            }
            return Err(QueueError::DuplicateActiveId { id: id.clone() });
        }
        if find_item(items, id).is_none() {
            proof {
                lemma_first_where(active.len(), misplaced, position as int);
            }
            return Err(QueueError::ActiveIdNotFound { id: id.clone() });
        }
        position = position + 1;
    }
    Ok(())
}

/// Checks that the active order is that of the entries.
fn check_order(items: &Vec<QueueItem>, order: &Vec<QueueItemId>) -> (checked: Result<
    (),
    QueueError,
>)
    requires
        items.len() == order.len(),
    ensures
        match (checked, first_reordered(ids_of(item_views(items@)), id_texts(order@))) {
            (Ok(()), None) => true,
            (Err(error), Some(i)) => error@ == (QueueErrorView::UnshuffledOrderMismatch {
                index: i,
                logical_id: ids_of(item_views(items@))[i],
                active_id: id_texts(order@)[i],
            }),
            _ => false,
        },
{
    let ghost ids = ids_of(item_views(items@));
    let ghost active = id_texts(order@);
    let ghost reordered = |i: int| ids[i] != active[i];
    let mut slot: usize = 0;
    while slot < items.len()
        invariant
            slot <= items.len(),
            items.len() == order.len(),
            ids == ids_of(item_views(items@)),
            active == id_texts(order@),
            reordered == (|i: int| ids[i] != active[i]),
            forall|i: int| 0 <= i < slot ==> !#[trigger] reordered(i),
        decreases items.len() - slot,
    {
        let logical_id = &items[slot].id;
        let active_id = &order[slot];
        assert(ids[slot as int] == logical_id@);
        assert(active[slot as int] == active_id@);
        if !logical_id.same(active_id) {
            proof {
                lemma_first_where(ids.len(), reordered, slot as int);
            }
            return Err(
                QueueError::UnshuffledOrderMismatch {
                    index: slot,
                    logical_id: logical_id.clone(),
                    active_id: active_id.clone(),
                },
            );
        }
        slot = slot + 1;
    }
    Ok(())
}

/// Checks everything that a queue keeps, and names the first thing that does
/// not hold.
fn validate_snapshot(snapshot: &QueueSnapshot) -> (checked: Result<(), QueueError>)
    ensures
        match checked {
            Ok(()) => snapshot@.error() is None,
            Err(error) => snapshot@.error() == Some(error@),
        },
{
    if let Err(error) = check_logical_ids(&snapshot.logical) {
        return Err(error);
    }
    if let Err(error) = check_active_ids(&snapshot.logical, &snapshot.active) {
        return Err(error);
    }
    if snapshot.active.len() != snapshot.logical.len() {
        return Err(
            QueueError::ActiveIdsMismatch {
                logical_count: snapshot.logical.len(),
                active_count: snapshot.active.len(),
            },
        );
    }
    if snapshot.shuffle_seed.is_none() {
        if let Err(error) = check_order(&snapshot.logical, &snapshot.active) {
            return Err(error);
        }
    }
    match &snapshot.current {
        Some(id) => {
            if find_item(&snapshot.logical, id).is_none() {
                Err(QueueError::CurrentIdNotFound { id: id.clone() })
            } else {
                Ok(())
            }
        },
        None => {
            if snapshot.logical.len() == 0 {
                Ok(())
            } else {
                Err(QueueError::MissingCurrent)
            }
        },
    }
}

/// Whether the id at `index` occurs before it too.
fn id_occurs_before(ids: &Vec<QueueItemId>, index: usize) -> (occurs: bool)
    requires
        index < ids.len(),
    ensures
        occurs == repeats_earlier(id_texts(ids@), index as int),
{
    let mut earlier: usize = 0;
    while earlier < index
        invariant
            earlier <= index < ids.len(),
            forall|j: int|
                0 <= j < earlier ==> #[trigger] id_texts(ids@)[j] != id_texts(ids@)[index as int],
        decreases index - earlier,
    {
        assert(id_texts(ids@)[earlier as int] == ids@[earlier as int]@);
        if ids[earlier].same(&ids[index]) {
            return true;
        }
        earlier = earlier + 1;
    }
    false
}

/// Whether the id of the entry at `index` occurs before it too.
fn item_id_occurs_before(items: &Vec<QueueItem>, index: usize) -> (occurs: bool)
    requires
        index < items.len(),
    ensures
        occurs == repeats_earlier(ids_of(item_views(items@)), index as int),
{
    let ghost ids = ids_of(item_views(items@));
    let mut earlier: usize = 0;
    while earlier < index
        invariant
            earlier <= index < items.len(),
            ids == ids_of(item_views(items@)),
            forall|j: int| 0 <= j < earlier ==> #[trigger] ids[j] != ids[index as int],
        decreases index - earlier,
    {
        assert(ids[earlier as int] == items@[earlier as int]@.id);
        if items[earlier].id.same(&items[index].id) {
            return true;
        }
        earlier = earlier + 1;
    }
    false
}

/// The states without an error are exactly those that a queue may be in.
pub proof fn lemma_error_free_is_wf(view: QueueView)
    ensures
        view.error() is None <==> view.wf(),
{
    let ids = view.ids();
    let duplicate = |i: int| repeats_earlier(ids, i);
    let misplaced = |i: int| repeats_earlier(view.active, i) || !ids.contains(view.active[i]);
    let reordered = |i: int| ids[i] != view.active[i];
    crate::seqs::lemma_first_where_sound(ids.len(), duplicate);
    crate::seqs::lemma_first_where_sound(view.active.len(), misplaced);
    crate::seqs::lemma_first_where_sound(ids.len(), reordered);
    if view.error() is None {
        assert forall|i: int, j: int| 0 <= i < ids.len() && 0 <= j < ids.len() && i != j implies ids[i]
            != ids[j] by {
            assert(!duplicate(i));
            assert(!duplicate(j));
        }
        assert forall|i: int, j: int|
            0 <= i < view.active.len() && 0 <= j < view.active.len() && i
                != j implies view.active[i] != view.active[j] by {
            assert(!misplaced(i));
            assert(!misplaced(j));
        }
        assert forall|i: int| 0 <= i < view.active.len() implies ids.contains(
            #[trigger] view.active[i],
        ) by {
            assert(!misplaced(i));
        }
        if view.shuffle_seed is None {
            assert forall|i: int| 0 <= i < ids.len() implies view.active[i] == ids[i] by {
                assert(!reordered(i));
            }
            assert(view.active =~= ids);
        }
    }
    if view.wf() {
        assert forall|i: int| 0 <= i < ids.len() implies !#[trigger] duplicate(i) by {}
        assert forall|i: int| 0 <= i < view.active.len() implies !#[trigger] misplaced(i) by {}
    }
}

/// The playback queue.
#[derive(Debug, PartialEq)]
pub struct Queue {
    logical: Vec<QueueItem>,
    active: Vec<QueueItemId>,
    current: Option<QueueItemId>,
    repeat: RepeatMode,
    shuffle_seed: Option<u64>,
    radio: bool,
}

impl View for Queue {
    type V = QueueView;

    closed spec fn view(&self) -> QueueView {
        QueueView {
            logical: item_views(self.logical@),
            active: id_texts(self.active@),
            current: optional_id_text(self.current),
            repeat: self.repeat,
            shuffle_seed: self.shuffle_seed,
            radio: self.radio,
        }
    }
}

impl Clone for Queue {
    fn clone(&self) -> (copy: Self)
        ensures
            copy@ == self@,
    {
        Queue {
            logical: clone_items(&self.logical),
            active: clone_ids(&self.active),
            current: clone_optional_id(&self.current),
            repeat: self.repeat,
            shuffle_seed: self.shuffle_seed,
            radio: self.radio,
        }
    }
}

impl Default for Queue {
    fn default() -> (queue: Self)
        ensures
            queue@ == QueueView::empty(),
            queue@.wf(),
    {
        let queue = Queue {
            logical: Vec::new(),
            active: Vec::new(),
            current: None,
            repeat: RepeatMode::Off,
            shuffle_seed: None,
            radio: false,
        };
        assert(queue@ =~= QueueView::empty());
        assert(queue@.ids() =~= Seq::empty());
        queue
    }
}

/// Removing one element keeps a list free of duplicates, and keeps every other
/// element.
proof fn lemma_remove(ids: Seq<Seq<char>>, index: int)
    requires
        ids.no_duplicates(),
        0 <= index < ids.len(),
    ensures
        ids.remove(index).no_duplicates(),
        forall|id: Seq<char>| #[trigger]
            ids.remove(index).contains(id) <==> ids.contains(id) && id != ids[index],
{
    let rest = ids.remove(index);
    assert forall|id: Seq<char>| #[trigger]
        rest.contains(id) <==> ids.contains(id) && id != ids[index] by {
        if rest.contains(id) {
            let i = choose|i: int| 0 <= i < rest.len() && rest[i] == id;
            let source = if i < index {
                i
            } else {
                i + 1
            };
            assert(ids[source] == id);
        }
        if ids.contains(id) && id != ids[index] {
            let i = choose|i: int| 0 <= i < ids.len() && ids[i] == id;
            let target = if i < index {
                i
            } else {
                i - 1
            };
            assert(rest[target] == id);
        }
    }
}

/// Moving an element keeps a list free of duplicates and keeps its elements.
proof fn lemma_move(ids: Seq<Seq<char>>, from: int, before: int)
    requires
        ids.no_duplicates(),
        0 <= from < ids.len(),
        0 <= before < ids.len(),
        from != before,
    ensures
        entry_moved_before(ids, from, before).no_duplicates(),
        entry_moved_before(ids, from, before).len() == ids.len(),
        forall|id: Seq<char>| #[trigger]
            entry_moved_before(ids, from, before).contains(id) <==> ids.contains(id),
{
    let rest = ids.remove(from);
    lemma_remove(ids, from);
    let at = if from < before {
        before - 1
    } else {
        before
    };
    let moved = rest.insert(at, ids[from]);
    assert(!rest.contains(ids[from]));
    assert(moved[at] == ids[from]);
    assert forall|i: int, j: int| 0 <= i < moved.len() && 0 <= j < moved.len() && i
        != j implies moved[i] != moved[j] by {
        let source_i = if i < at {
            i
        } else {
            i - 1
        };
        let source_j = if j < at {
            j
        } else {
            j - 1
        };
        if i != at {
            assert(moved[i] == rest[source_i]);
            assert(rest.contains(rest[source_i]));
        }
        if j != at {
            assert(moved[j] == rest[source_j]);
            assert(rest.contains(rest[source_j]));
        }
    }
    assert forall|id: Seq<char>| #[trigger] moved.contains(id) <==> ids.contains(id) by {
        if moved.contains(id) {
            let i = choose|i: int| 0 <= i < moved.len() && moved[i] == id;
            if i == at {
                assert(ids.contains(ids[from]));
            } else {
                let source = if i < at {
                    i
                } else {
                    i - 1
                };
                assert(rest[source] == id);
                assert(rest.contains(id));
            }
        }
        if ids.contains(id) && id != ids[from] {
            assert(rest.contains(id));
            let i = choose|i: int| 0 <= i < rest.len() && rest[i] == id;
            let target = if i < at {
                i
            } else {
                i + 1
            };
            assert(moved[target] == id);
        }
    }
}

/// Adding an entry with a new id keeps what a queue keeps.
pub proof fn lemma_appended_wf(view: QueueView, item: QueueItemView)
    requires
        view.wf(),
        !view.ids().contains(item.id),
    ensures
        view.appended(item).wf(),
{
    let after = view.appended(item);
    assert(after.ids() =~= view.ids().push(item.id));
    assert(after.ids()[view.ids().len() as int] == item.id);
    assert forall|i: int| 0 <= i < after.active.len() implies after.ids().contains(
        #[trigger] after.active[i],
    ) by {
        if i < view.active.len() {
            assert(view.ids().contains(view.active[i]));
            let j = choose|j: int| 0 <= j < view.ids().len() && view.ids()[j] == view.active[i];
            assert(after.ids()[j] == after.active[i]);
        }
    }
    assert forall|i: int, j: int| 0 <= i < after.active.len() && 0 <= j < after.active.len() && i
        != j implies after.active[i] != after.active[j] by {
        if i < view.active.len() {
            assert(view.ids().contains(view.active[i]));
        }
        if j < view.active.len() {
            assert(view.ids().contains(view.active[j]));
        }
    }
    if let Some(id) = view.current {
        let j = choose|j: int| 0 <= j < view.ids().len() && view.ids()[j] == id;
        assert(after.ids()[j] == id);
    }
}

/// Every id is active, and only ids are.
pub proof fn lemma_active_is_permutation(view: QueueView)
    requires
        view.wf(),
    ensures
        view.active.to_set() == view.ids().to_set(),
        view.active.to_multiset() == view.ids().to_multiset(),
{
    let ids = view.ids();
    let active = view.active;
    active.unique_seq_to_set();
    ids.unique_seq_to_set();
    assert(active.to_set().subset_of(ids.to_set())) by {
        assert forall|id: Seq<char>| active.to_set().contains(id) implies ids.to_set().contains(
            id,
        ) by {
            let i = choose|i: int| 0 <= i < active.len() && active[i] == id;
            assert(ids.contains(active[i]));
        }
    }
    vstd::set_lib::lemma_subset_equality(active.to_set(), ids.to_set());
    active.lemma_multiset_has_no_duplicates();
    ids.lemma_multiset_has_no_duplicates();
    broadcast use group_to_multiset_ensures;
    assert forall|id: Seq<char>| active.to_multiset().count(id) == ids.to_multiset().count(id) by {
        assert(active.to_set().contains(id) == ids.to_set().contains(id));
        assert(active.contains(id) == active.to_multiset().contains(id));
        assert(ids.contains(id) == ids.to_multiset().contains(id));
    }
    assert(active.to_multiset() =~= ids.to_multiset());
}

/// Removing an entry keeps what a queue keeps.
pub proof fn lemma_removed_wf(view: QueueView, id: Seq<char>)
    requires
        view.wf(),
        view.ids().contains(id),
    ensures
        view.removed(id).wf(),
        view.active.contains(id),
{
    let after = view.removed(id);
    let ids = view.ids();
    lemma_active_is_permutation(view);
    assert(view.ids().to_set().contains(id));
    assert(view.active.to_set().contains(id));
    let index = ids.index_of(id);
    let position = view.active.index_of(id);
    lemma_remove(ids, index);
    lemma_remove(view.active, position);
    assert(after.ids() =~= ids.remove(index));
    assert forall|i: int| 0 <= i < after.active.len() implies after.ids().contains(
        #[trigger] after.active[i],
    ) by {
        assert(view.active.remove(position).contains(after.active[i]));
        assert(view.active.contains(after.active[i]));
        assert(view.active.to_set().contains(after.active[i]));
        assert(ids.to_set().contains(after.active[i]));
        assert(ids.remove(index).contains(after.active[i]));
    }
    if view.shuffle_seed is None {
        assert(position == index);
    }
    if view.current == Some(id) {
        if position < after.active.len() {
            assert(after.ids().contains(after.active[position]));
        } else if after.active.len() > 0 {
            assert(after.ids().contains(after.active[after.active.len() - 1]));
        }
    } else {
        assert(view.current is Some);
        assert(ids.remove(index).contains(view.current->0));
    }
}

/// Moving an entry keeps what a queue keeps.
pub proof fn lemma_moved_before_wf(view: QueueView, id: Seq<char>, before: Seq<char>)
    requires
        view.wf(),
        view.ids().contains(id),
        view.ids().contains(before),
    ensures
        view.moved_before(id, before).wf(),
        view.active.contains(id),
        view.active.contains(before),
{
    lemma_active_is_permutation(view);
    let ids = view.ids();
    assert(ids.to_set().contains(id));
    assert(view.active.to_set().contains(id));
    assert(ids.to_set().contains(before));
    assert(view.active.to_set().contains(before));
    if id != before {
        let after = view.moved_before(id, before);
        let from = ids.index_of(id);
        let to = ids.index_of(before);
        let active_from = view.active.index_of(id);
        let active_to = view.active.index_of(before);
        lemma_move(ids, from, to);
        lemma_move(view.active, active_from, active_to);
        assert(after.ids() =~= entry_moved_before(ids, from, to));
        assert forall|i: int| 0 <= i < after.active.len() implies after.ids().contains(
            #[trigger] after.active[i],
        ) by {
            assert(entry_moved_before(view.active, active_from, active_to).contains(
                after.active[i],
            ));
            assert(view.active.contains(after.active[i]));
            assert(view.active.to_set().contains(after.active[i]));
            assert(ids.to_set().contains(after.active[i]));
        }
        assert(view.current is Some);
    }
}

/// A shuffle of the ids that are not current keeps what a queue keeps.
pub proof fn lemma_shuffled_wf(view: QueueView, order: Seq<Seq<char>>, seed: u64)
    requires
        view.wf(),
        order.to_multiset() == view.others().to_multiset(),
    ensures
        view.shuffled(order, seed).wf(),
{
    broadcast use group_to_multiset_ensures;

    let ids = view.ids();
    let keep = |id: Seq<char>| view.current != Some(id);
    let others = view.others();
    lemma_filter_no_duplicates(ids, keep);
    others.lemma_multiset_has_no_duplicates();
    order.lemma_multiset_has_no_duplicates_conv();
    let after = view.shuffled(order, seed);
    assert(after.ids() == ids);
    assert forall|id: Seq<char>| order.contains(id) implies others.contains(id) by {
        assert(order.to_multiset().contains(id));
    }
    assert forall|i: int| 0 <= i < order.len() implies ids.contains(#[trigger] order[i])
        && view.current != Some(order[i]) by {
        assert(order.contains(order[i]));
        assert(others.contains(order[i]));
        let j = choose|j: int| 0 <= j < others.len() && others[j] == order[i];
        lemma_filter_contains(ids, keep, others[j]);
    }
    assert(order.to_multiset().len() == others.to_multiset().len());
    if let Some(current) = view.current {
        lemma_filter_drops_one(ids, current);
        assert(others =~= ids.filter(|id: Seq<char>| id != current)) by {
            assert(keep =~= (|id: Seq<char>| id != current));
        }
        assert(after.active =~= seq![current] + order);
    } else {
        assert(after.active == order);
        assert(ids.len() == 0);
        assert(others.len() <= ids.len());
    }
}

/// A filtered list holds only elements of the list.
proof fn lemma_filter_contains<T>(items: Seq<T>, keep: spec_fn(T) -> bool, item: T)
    requires
        items.filter(keep).contains(item),
    ensures
        items.contains(item),
        keep(item),
    decreases items.len(),
{
    reveal(Seq::filter);
    if items.len() > 0 {
        let rest = items.drop_last();
        if rest.filter(keep).contains(item) {
            lemma_filter_contains(rest, keep, item);
            let i = choose|i: int| 0 <= i < rest.len() && rest[i] == item;
            assert(items[i] == item);
        } else {
            let all = items.filter(keep);
            let i = choose|i: int| 0 <= i < all.len() && all[i] == item;
            if keep(items.last()) {
                assert(all == rest.filter(keep).push(items.last()));
                if i < rest.filter(keep).len() {
                    assert(rest.filter(keep)[i] == item);
                }
            } else {
                assert(rest.filter(keep)[i] == item);
            }
        }
    }
}

/// Filtering keeps a list free of duplicates.
proof fn lemma_filter_no_duplicates<T>(items: Seq<T>, keep: spec_fn(T) -> bool)
    requires
        items.no_duplicates(),
    ensures
        items.filter(keep).no_duplicates(),
    decreases items.len(),
{
    reveal(Seq::filter);
    if items.len() > 0 {
        let rest = items.drop_last();
        lemma_filter_no_duplicates(rest, keep);
        if keep(items.last()) {
            let kept = rest.filter(keep);
            if kept.contains(items.last()) {
                lemma_filter_contains(rest, keep, items.last());
                let i = choose|i: int| 0 <= i < rest.len() && rest[i] == items.last();
                assert(items[i] == items[items.len() - 1]);
            }
            assert forall|i: int, j: int| 0 <= i < kept.len() + 1 && 0 <= j < kept.len() + 1 && i
                != j implies kept.push(items.last())[i] != kept.push(items.last())[j] by {
                if i < kept.len() {
                    assert(kept.contains(kept[i]));
                }
                if j < kept.len() {
                    assert(kept.contains(kept[j]));
                }
            }
        }
    }
}

/// Filtering one element out of a list without duplicates takes away one
/// element, if it is there.
proof fn lemma_filter_drops_one(ids: Seq<Seq<char>>, dropped: Seq<char>)
    requires
        ids.no_duplicates(),
    ensures
        ids.filter(|id: Seq<char>| id != dropped).len() == ids.len() - (if ids.contains(dropped) {
            1int
        } else {
            0int
        }),
    decreases ids.len(),
{
    reveal(Seq::filter);
    if ids.len() > 0 {
        let rest = ids.drop_last();
        lemma_filter_drops_one(rest, dropped);
        if ids.contains(dropped) && ids.last() != dropped {
            let i = choose|i: int| 0 <= i < ids.len() && ids[i] == dropped;
            assert(rest[i] == dropped);
        }
        if rest.contains(dropped) {
            let i = choose|i: int| 0 <= i < rest.len() && rest[i] == dropped;
            assert(ids[i] == dropped);
            assert(ids.last() == ids[ids.len() - 1]);
        }
    }
}

impl Queue {
    /// Builds a fresh queue from an explicitly activated list.
    ///
    /// Media items are de-duplicated by their full provider identity in source
    /// order. The selected item becomes current, repeat mode is preserved,
    /// endless radio is disabled, and an optional seed enables deterministic
    /// shuffle while keeping the selected item first in active order.
    pub fn from_explicit_list(
        items: Vec<MediaItem>,
        selected: &MediaId,
        repeat: RepeatMode,
        shuffle_seed: Option<u64>,
    ) -> (built: Result<Self, QueueReplacementError>)
        ensures
            ({
                let entries = explicit_entries(crate::domain::media_views(items@));
                match built {
                    Ok(queue) => {
                        &&& entries.len() <= MAX_EXPLICIT_LIST_ITEMS
                        &&& has_media(entries, selected@)
                        &&& queue@.wf()
                        &&& queue@ == explicit_queue(
                            entries,
                            stable_id(selected@),
                            repeat,
                            shuffle_seed,
                        )
                    },
                    Err(QueueReplacementError::TooManyItems { actual, limit }) => {
                        &&& actual == entries.len()
                        &&& limit == MAX_EXPLICIT_LIST_ITEMS
                        &&& entries.len() > MAX_EXPLICIT_LIST_ITEMS
                    },
                    Err(QueueReplacementError::SelectedItemNotFound { id }) => {
                        &&& entries.len() <= MAX_EXPLICIT_LIST_ITEMS
                        &&& !has_media(entries, selected@)
                        &&& id@ == selected@
                    },
                    Err(QueueReplacementError::InvalidQueue(error)) => false,
                }
            }),
    {
        let ghost source = crate::domain::media_views(items@);
        let mut logical: Vec<QueueItem> = Vec::new();
        proof {
            reveal_with_fuel(explicit_entries, 1);
            assert(source.take(0) =~= Seq::empty());
            assert(item_views(logical@) =~= explicit_entries(source.take(0)));
        }
        let mut index: usize = 0;
        while index < items.len()
            invariant
                index <= items.len(),
                source == crate::domain::media_views(items@),
                item_views(logical@) == explicit_entries(source.take(index as int)),
            decreases items.len() - index,
        {
            let media = &items[index];
            let id = stable_queue_item_id(&media.id);
            proof {
                assert(source.take(index + 1).drop_last() =~= source.take(index as int));
                assert(source.take(index + 1).last() == media@);
                lemma_explicit_entries(source.take(index as int));
                lemma_media_by_id(item_views(logical@), media@.id);
            }
            if find_item(&logical, &id).is_none() {
                let ghost before = logical@;
                logical.push(QueueItem { id, media: media.clone() });
                assert(item_views(logical@) =~= item_views(before).push(
                    QueueItemView { id: stable_id(media@.id), media: media@ },
                ));
            }
            index = index + 1;
        }
        assert(source.take(source.len() as int) =~= source);
        let ghost entries = explicit_entries(source);
        proof {
            lemma_explicit_entries(source);
            lemma_media_by_id(entries, selected@);
        }
        if logical.len() > MAX_EXPLICIT_LIST_ITEMS {
            return Err(
                QueueReplacementError::TooManyItems {
                    actual: logical.len(),
                    limit: MAX_EXPLICIT_LIST_ITEMS,
                },
            );
        }
        let selected_id = stable_queue_item_id(selected);
        if find_item(&logical, &selected_id).is_none() {
            return Err(QueueReplacementError::SelectedItemNotFound { id: selected.clone() });
        }
        let mut candidate = match Self::from_items(logical) {
            Ok(queue) => queue,
            Err(error) => {
                return Err(QueueReplacementError::InvalidQueue(error));
            },
        };
        proof {
            lemma_active_is_permutation(candidate@);
            assert(candidate@.ids().to_set().contains(selected_id@));
        }
        match candidate.select(&selected_id) {
            Ok(()) => {},
            Err(error) => {
                return Err(QueueReplacementError::InvalidQueue(error));
            },
        }
        candidate.set_repeat(repeat);
        if let Some(seed) = shuffle_seed {
            candidate.set_shuffle(true, seed);
        }
        candidate.set_radio(false);
        proof {
            lemma_error_free_is_wf(candidate@);
        }
        match Self::restore(candidate.snapshot()) {
            Ok(queue) => Ok(queue),
            Err(error) => Err(QueueReplacementError::InvalidQueue(error)),
        }
    }

    /// Creates a queue in logical order, selecting its first item when
    /// non-empty.
    pub fn from_items(items: Vec<QueueItem>) -> (built: Result<Self, QueueError>)
        ensures
            match built {
                Ok(queue) => ids_of(item_views(items@)).no_duplicates() && queue@.wf() && queue@
                    == list_queue(item_views(items@)),
                Err(error) => {
                    let ids = ids_of(item_views(items@));
                    let duplicate = first_repeated(ids);
                    duplicate is Some && error@ == QueueErrorView::DuplicateLogicalId {
                        id: ids[duplicate->0],
                    }
                },
            },
    {
        let active = collect_ids(&items);
        let current = if active.len() > 0 {
            Some(active[0].clone())
        } else {
            None
        };
        let ghost view = list_queue(item_views(items@));
        proof {
            let ids = view.ids();
            crate::seqs::lemma_first_where_sound(ids.len(), |i: int| repeats_earlier(ids, i));
            if first_repeated(ids) is None {
                assert forall|i: int, j: int|
                    0 <= i < ids.len() && 0 <= j < ids.len() && i != j implies ids[i] != ids[j] by {
                    let repeats = |i: int| repeats_earlier(ids, i);
                    assert(!repeats(i));
                    assert(!repeats(j));
                }
                if ids.len() > 0 {
                    assert(ids.contains(ids[0]));
                }
                lemma_error_free_is_wf(view);
            }
        }
        let snapshot = QueueSnapshot {
            logical: items,
            active,
            current,
            repeat: RepeatMode::Off,
            shuffle_seed: None,
            radio: false,
        };
        proof {
            if items.len() > 0 {
                assert(id_texts(active@)[0] == active@[0]@);
                assert(ids_of(item_views(items@))[0] == item_views(items@)[0].id);
            }
        }
        assert(snapshot@ =~= view);
        Self::restore(snapshot)
    }

    pub fn items(&self) -> (items: &[QueueItem])
        ensures
            item_views(items@) == self@.logical,
    {
        self.logical.as_slice()
    }

    /// The current entry.
    pub fn current(&self) -> (item: Option<&QueueItem>)
        requires
            self@.wf(),
        ensures
            match item {
                Some(item) => self@.current_item() == Some(item@),
                None => self@.current_item() is None,
            },
    {
        match &self.current {
            Some(id) => match find_item(&self.logical, id) {
                Some(index) => {
                    proof {
                        lemma_index_of(self@.ids(), index as int);
                    }
                    Some(&self.logical[index])
                },
                None => None,
            },
            None => None,
        }
    }

    pub fn active_ids(&self) -> (ids: &[QueueItemId])
        ensures
            id_texts(ids@) == self@.active,
    {
        self.active.as_slice()
    }

    /// The entries in the order used for playback.
    ///
    /// This differs from [`Self::items`] while shuffle is enabled.
    pub fn active_items(&self) -> (items: Vec<&QueueItem>)
        requires
            self@.wf(),
        ensures
            items.len() == self@.active.len(),
            forall|i: int|
                0 <= i < items.len() ==> (#[trigger] items@[i])@ == self@.item(self@.active[i]),
    {
        let mut items: Vec<&QueueItem> = Vec::new();
        let mut index: usize = 0;
        while index < self.active.len()
            invariant
                self@.wf(),
                index <= self.active.len(),
                items.len() == index,
                forall|i: int|
                    0 <= i < index ==> (#[trigger] items@[i])@ == self@.item(self@.active[i]),
            decreases self.active.len() - index,
        {
            assert(self@.active[index as int] == self.active@[index as int]@);
            if let Some(position) = find_item(&self.logical, &self.active[index]) {
                proof {
                    lemma_index_of(self@.ids(), position as int);
                }
                items.push(&self.logical[position]);
            }
            index = index + 1;
        }
        items
    }

    /// Appends an item to both logical and active order.
    pub fn append(&mut self, item: QueueItem) -> (outcome: Result<(), QueueError>)
        requires
            old(self)@.wf(),
        ensures
            final(self)@.wf(),
            match outcome {
                Ok(()) => !old(self)@.ids().contains(item@.id) && final(self)@ == old(
                    self,
                )@.appended(item@),
                Err(error) => old(self)@.ids().contains(item@.id) && final(self)@ == old(self)@
                    && error@ == (QueueErrorView::DuplicateLogicalId { id: item@.id }),
            },
    {
        if self.contains(item.id()) {
            return Err(QueueError::DuplicateLogicalId { id: item.id.clone() });
        }
        self.push_item(item);
        Ok(())
    }

    /// Appends an item unless its id is already present, and says whether it
    /// did.
    pub fn append_unique(&mut self, item: QueueItem) -> (added: bool)
        requires
            old(self)@.wf(),
        ensures
            final(self)@.wf(),
            added == !old(self)@.ids().contains(item@.id),
            final(self)@ == if added {
                old(self)@.appended(item@)
            } else {
                old(self)@
            },
    {
        if self.contains(item.id()) {
            return false;
        }
        self.push_item(item);
        true
    }

    /// Removes an item and keeps the current selection stable where possible.
    ///
    /// If the current item is removed, the next item at the same active
    /// position is selected, falling back to the previous item at the end.
    pub fn remove(&mut self, id: &QueueItemId) -> (outcome: Result<QueueItem, QueueError>)
        requires
            old(self)@.wf(),
        ensures
            final(self)@.wf(),
            match outcome {
                Ok(item) => old(self)@.ids().contains(id@) && item@ == old(self)@.item(id@)
                    && final(self)@ == old(self)@.removed(id@),
                Err(error) => !old(self)@.ids().contains(id@) && final(self)@ == old(self)@
                    && error@ == (QueueErrorView::ItemNotFound { id: id@ }),
            },
    {
        let logical_index = match find_item(&self.logical, id) {
            Some(index) => index,
            None => {
                return Err(QueueError::ItemNotFound { id: id.clone() });
            },
        };
        proof {
            lemma_index_of(self@.ids(), logical_index as int);
            lemma_removed_wf(self@, id@);
        }
        let active_index = match find_id(&self.active, id) {
            Some(index) => index,
            None => {
                return Err(QueueError::ItemNotFound { id: id.clone() });
            },
        };
        proof {
            lemma_index_of(self@.active, active_index as int);
        }
        let removed_current = match &self.current {
            Some(current) => current.same(id),
            None => false,
        };
        let removed = self.logical.remove(logical_index);
        let _ = self.active.remove(active_index);
        assert(id_texts(self.active@) =~= old(self)@.active.remove(active_index as int));
        assert(item_views(self.logical@) =~= old(self)@.logical.remove(logical_index as int));
        if removed_current {
            self.current = if active_index < self.active.len() {
                Some(self.active[active_index].clone())
            } else if self.active.len() > 0 {
                Some(self.active[self.active.len() - 1].clone())
            } else {
                None
            };
        }
        assert(self@ =~= old(self)@.removed(id@));
        Ok(removed)
    }

    /// Moves one item immediately before another in logical and active order.
    pub fn move_before(
        &mut self,
        id: &QueueItemId,
        before: &QueueItemId,
    ) -> (outcome: Result<(), QueueError>)
        requires
            old(self)@.wf(),
        ensures
            final(self)@.wf(),
            match outcome {
                Ok(()) => old(self)@.ids().contains(id@) && old(self)@.ids().contains(before@)
                    && final(self)@ == old(self)@.moved_before(id@, before@),
                Err(error) => final(self)@ == old(self)@ && error@ == (
                QueueErrorView::ItemNotFound {
                    id: if old(self)@.ids().contains(id@) {
                        before@
                    } else {
                        id@
                    },
                }) && !(old(self)@.ids().contains(id@) && old(self)@.ids().contains(before@)),
            },
    {
        let logical_from = match find_item(&self.logical, id) {
            Some(index) => index,
            None => {
                return Err(QueueError::ItemNotFound { id: id.clone() });
            },
        };
        let logical_before = match find_item(&self.logical, before) {
            Some(index) => index,
            None => {
                assert(self@.ids()[logical_from as int] == id@);
                return Err(QueueError::ItemNotFound { id: before.clone() });
            },
        };
        proof {
            lemma_index_of(self@.ids(), logical_from as int);
            lemma_index_of(self@.ids(), logical_before as int);
            lemma_moved_before_wf(self@, id@, before@);
        }
        let active_from = match find_id(&self.active, id) {
            Some(index) => index,
            None => {
                return Err(QueueError::ItemNotFound { id: id.clone() });
            },
        };
        let active_before = match find_id(&self.active, before) {
            Some(index) => index,
            None => {
                return Err(QueueError::ItemNotFound { id: before.clone() });
            },
        };
        proof {
            lemma_index_of(self@.active, active_from as int);
            lemma_index_of(self@.active, active_before as int);
        }
        if !id.same(before) {
            move_entry_before(&mut self.logical, logical_from, logical_before);
            move_entry_before(&mut self.active, active_from, active_before);
            assert(item_views(self.logical@) =~= entry_moved_before(
                old(self)@.logical,
                logical_from as int,
                logical_before as int,
            ));
            assert(id_texts(self.active@) =~= entry_moved_before(
                old(self)@.active,
                active_from as int,
                active_before as int,
            ));
        }
        assert(self@ =~= old(self)@.moved_before(id@, before@));
        Ok(())
    }

    pub fn clear(&mut self)
        ensures
            final(self)@ == QueueView::empty(),
            final(self)@.wf(),
    {
        *self = Self::default();
    }

    /// Selects an item by its stable ID.
    pub fn select(&mut self, id: &QueueItemId) -> (outcome: Result<(), QueueError>)
        requires
            old(self)@.wf(),
        ensures
            final(self)@.wf(),
            match outcome {
                Ok(()) => old(self)@.active.contains(id@) && final(self)@ == (QueueView {
                    current: Some(id@),
                    ..old(self)@
                }),
                Err(error) => !old(self)@.active.contains(id@) && final(self)@ == old(self)@
                    && error@ == (QueueErrorView::ItemNotFound { id: id@ }),
            },
    {
        match find_id(&self.active, id) {
            Some(index) => {
                assert(self@.active.contains(self@.active[index as int]));
            },
            None => {
                return Err(QueueError::ItemNotFound { id: id.clone() });
            },
        }
        self.current = Some(id.clone());
        assert(self@.ids() == old(self)@.ids());
        Ok(())
    }

    /// Makes the item that follows the current one current, and gives it.
    pub fn next(&mut self) -> (item: Option<&QueueItem>)
        requires
            old(self)@.wf(),
        ensures
            final(self)@.wf(),
            final(self)@ == old(self)@.advanced().0,
            match item {
                Some(item) => old(self)@.advanced().1 == Some(item@),
                None => old(self)@.advanced().1 is None,
            },
    {
        if self.repeat == RepeatMode::One {
            return self.current();
        }
        let next_index: usize = match self.current_active_index() {
            Some(index) => if index < self.active.len() - 1 {
                index + 1
            } else if self.repeat == RepeatMode::All {
                0
            } else {
                return None;
            },
            None => {
                return None;
            },
        };
        self.select_active_index(next_index)
    }

    /// Makes the item that precedes the current one current, and gives it.
    pub fn previous(&mut self) -> (item: Option<&QueueItem>)
        requires
            old(self)@.wf(),
        ensures
            final(self)@.wf(),
            final(self)@ == old(self)@.stepped_back().0,
            match item {
                Some(item) => old(self)@.stepped_back().1 == Some(item@),
                None => old(self)@.stepped_back().1 is None,
            },
    {
        if self.repeat == RepeatMode::One {
            return self.current();
        }
        let previous_index: usize = match self.current_active_index() {
            Some(index) => if index > 0 {
                index - 1
            } else if self.repeat == RepeatMode::All {
                self.active.len() - 1
            } else {
                return None;
            },
            None => {
                return None;
            },
        };
        self.select_active_index(previous_index)
    }

    pub fn set_repeat(&mut self, repeat: RepeatMode)
        ensures
            final(self)@ == (QueueView { repeat, ..old(self)@ }),
            old(self)@.wf() ==> final(self)@.wf(),
    {
        self.repeat = repeat;
        assert(self@.ids() == old(self)@.ids());
    }

    pub fn repeat(&self) -> (repeat: RepeatMode)
        ensures
            repeat == self@.repeat,
    {
        self.repeat
    }

    /// Turns shuffle off, or on with a seed. Turning it on with the seed that
    /// is in use leaves the order as it is.
    pub fn set_shuffle(&mut self, enabled: bool, seed: u64)
        requires
            old(self)@.wf(),
        ensures
            final(self)@.wf(),
            final(self)@ == if !enabled {
                old(self)@.unshuffled()
            } else if old(self)@.shuffle_seed == Some(seed) {
                old(self)@
            } else {
                old(self)@.shuffled(shuffled_order(old(self)@.others(), seed), seed)
            },
    {
        if !enabled {
            self.active = collect_ids(&self.logical);
            self.shuffle_seed = None;
            proof {
                let ids = self@.ids();
                assert(ids == old(self)@.ids());
                assert forall|i: int| 0 <= i < ids.len() implies ids.contains(#[trigger] ids[i]) by {
                }
            }
            assert(self@ =~= old(self)@.unshuffled());
            return;
        }
        if self.shuffle_seed == Some(seed) {
            return;
        }
        let mut order = self.other_ids();
        shuffle_ids(&mut order, seed);
        self.set_shuffled_order(order, seed);
    }

    /// The ids of the items that are not current, in logical order.
    pub fn other_ids(&self) -> (others: Vec<QueueItemId>)
        ensures
            id_texts(others@) == self@.others(),
    {
        let ghost ids = self@.ids();
        let ghost keep = |id: Seq<char>| self@.current != Some(id);
        let mut others: Vec<QueueItemId> = Vec::new();
        let mut index: usize = 0;
        proof {
            reveal(Seq::filter);
            assert(ids.take(0) =~= Seq::empty());
            assert(id_texts(others@) =~= Seq::empty());
        }
        while index < self.logical.len()
            invariant
                index <= self.logical.len(),
                ids == self@.ids(),
                keep == (|id: Seq<char>| self@.current != Some(id)),
                id_texts(others@) == ids.take(index as int).filter(keep),
            decreases self.logical.len() - index,
        {
            let id = &self.logical[index].id;
            let is_current = match &self.current {
                Some(current) => current.same(id),
                None => false,
            };
            proof {
                reveal(Seq::filter);
                assert(ids[index as int] == id@);
                assert(ids.take(index + 1).drop_last() =~= ids.take(index as int));
                assert(is_current == !keep(id@));
            }
            if !is_current {
                let ghost before = others@;
                others.push(id.clone());
                assert(id_texts(others@) =~= id_texts(before).push(id@));
            }
            index = index + 1;
        }
        assert(ids.take(ids.len() as int) =~= ids);
        others
    }

    /// Plays the current item first and then `order`, as the shuffle that
    /// `seed` stands for.
    pub fn set_shuffled_order(&mut self, order: Vec<QueueItemId>, seed: u64)
        requires
            old(self)@.wf(),
            id_texts(order@).to_multiset() == old(self)@.others().to_multiset(),
        ensures
            final(self)@.wf(),
            final(self)@ == old(self)@.shuffled(id_texts(order@), seed),
    {
        proof {
            lemma_shuffled_wf(self@, id_texts(order@), seed);
        }
        let mut active = order;
        if let Some(current) = &self.current {
            active.insert(0, current.clone());
            assert(id_texts(active@) =~= seq![current@] + id_texts(order@));
        }
        self.active = active;
        self.shuffle_seed = Some(seed);
        assert(self@ =~= old(self)@.shuffled(id_texts(order@), seed));
    }

    pub fn is_shuffled(&self) -> (shuffled: bool)
        ensures
            shuffled == self@.shuffle_seed is Some,
    {
        self.shuffle_seed.is_some()
    }

    pub fn set_radio(&mut self, enabled: bool)
        ensures
            final(self)@ == (QueueView { radio: enabled, ..old(self)@ }),
            old(self)@.wf() ==> final(self)@.wf(),
    {
        self.radio = enabled;
        assert(self@.ids() == old(self)@.ids());
    }

    pub fn radio_enabled(&self) -> (enabled: bool)
        ensures
            enabled == self@.radio,
    {
        self.radio
    }

    /// Whether radio should add items: fewer than `threshold` follow the
    /// current one.
    pub fn needs_radio_fill(&self, threshold: usize) -> (needed: bool)
        requires
            self@.wf(),
        ensures
            needed == (self@.radio && (match self@.current_position() {
                Some(position) => self@.active.len() - position - 1,
                None => self@.active.len() as int,
            }) < threshold),
    {
        if !self.radio {
            return false;
        }
        let remaining: usize = match self.current_active_index() {
            Some(index) => self.active.len() - index - 1,
            None => self.active.len(),
        };
        remaining < threshold
    }

    pub fn snapshot(&self) -> (snapshot: QueueSnapshot)
        ensures
            snapshot@ == self@,
    {
        QueueSnapshot {
            logical: clone_items(&self.logical),
            active: clone_ids(&self.active),
            current: clone_optional_id(&self.current),
            repeat: self.repeat,
            shuffle_seed: self.shuffle_seed,
            radio: self.radio,
        }
    }

    /// Restores a queue after validating all persisted invariants.
    pub fn restore(snapshot: QueueSnapshot) -> (restored: Result<Self, QueueError>)
        ensures
            match restored {
                Ok(queue) => snapshot@.wf() && queue@ == snapshot@,
                Err(error) => !snapshot@.wf() && snapshot@.error() == Some(error@),
            },
    {
        proof {
            lemma_error_free_is_wf(snapshot@);
        }
        match validate_snapshot(&snapshot) {
            Ok(()) => Ok(
                Queue {
                    logical: snapshot.logical,
                    active: snapshot.active,
                    current: snapshot.current,
                    repeat: snapshot.repeat,
                    shuffle_seed: snapshot.shuffle_seed,
                    radio: snapshot.radio,
                },
            ),
            Err(error) => Err(error),
        }
    }

    fn contains(&self, id: &QueueItemId) -> (found: bool)
        ensures
            found == self@.ids().contains(id@),
    {
        match find_item(&self.logical, id) {
            Some(index) => {
                assert(self@.ids()[index as int] == id@);
                true
            },
            None => false,
        }
    }

    fn push_item(&mut self, item: QueueItem)
        requires
            old(self)@.wf(),
            !old(self)@.ids().contains(item@.id),
        ensures
            final(self)@.wf(),
            final(self)@ == old(self)@.appended(item@),
    {
        proof {
            lemma_appended_wf(self@, item@);
        }
        let id = item.id.clone();
        self.logical.push(item);
        self.active.push(id.clone());
        if self.current.is_none() {
            self.current = Some(id);
        }
        assert(item_views(self.logical@) =~= old(self)@.logical.push(item@));
        assert(id_texts(self.active@) =~= old(self)@.active.push(item@.id));
        assert(self@ =~= old(self)@.appended(item@));
    }

    fn current_active_index(&self) -> (index: Option<usize>)
        requires
            self@.wf(),
        ensures
            match index {
                Some(index) => index < self@.active.len() && self@.current_position() == Some(
                    index as int,
                ),
                None => self@.current_position() is None,
            },
    {
        match &self.current {
            Some(id) => {
                proof {
                    lemma_active_is_permutation(self@);
                    assert(self@.ids().to_set().contains(id@));
                    assert(self@.active.to_set().contains(id@));
                }
                let found = find_id(&self.active, id);
                if let Some(index) = found {
                    proof {
                        lemma_index_of(self@.active, index as int);
                    }
                }
                found
            },
            None => None,
        }
    }

    fn select_active_index(&mut self, index: usize) -> (item: Option<&QueueItem>)
        requires
            old(self)@.wf(),
            index < old(self)@.active.len(),
        ensures
            final(self)@.wf(),
            final(self)@ == old(self)@.at(index as int),
            item is Some,
            item->0@ == final(self)@.current_item()->0,
    {
        self.current = Some(self.active[index].clone());
        assert(self@.ids() == old(self)@.ids());
        assert(self@.ids().contains(self@.active[index as int]));
        assert(self@ =~= old(self)@.at(index as int));
        self.current()
    }
}

/// The queue that plays `items` from the first.
pub open spec fn list_queue(items: Seq<QueueItemView>) -> QueueView {
    QueueView {
        logical: items,
        active: ids_of(items),
        current: if items.len() > 0 {
            Some(items[0].id)
        } else {
            None
        },
        repeat: RepeatMode::Off,
        shuffle_seed: None,
        radio: false,
    }
}

/// The entries of an explicitly activated list: its items in order, without
/// those whose identity occurred before.
pub open spec fn explicit_entries(items: Seq<MediaItemView>) -> Seq<QueueItemView>
    decreases items.len(),
{
    if items.len() == 0 {
        Seq::empty()
    } else {
        let before = explicit_entries(items.drop_last());
        let media = items.last();
        if has_media(before, media.id) {
            before
        } else {
            before.push(QueueItemView { id: stable_id(media.id), media })
        }
    }
}

/// Whether one of the entries is the media item `id`.
pub open spec fn has_media(entries: Seq<QueueItemView>, id: MediaIdView) -> bool {
    exists|i: int| 0 <= i < entries.len() && (#[trigger] entries[i]).media.id == id
}

/// The queue that an explicitly activated list becomes.
pub open spec fn explicit_queue(
    entries: Seq<QueueItemView>,
    selected: Seq<char>,
    repeat: RepeatMode,
    shuffle_seed: Option<u64>,
) -> QueueView {
    let listed = QueueView { current: Some(selected), repeat, ..list_queue(entries) };
    match shuffle_seed {
        Some(seed) => listed.shuffled(shuffled_order(listed.others(), seed), seed),
        None => listed,
    }
}

/// The entries of an explicitly activated list have different ids, and an
/// entry's id is that of its media item.
proof fn lemma_explicit_entries(items: Seq<MediaItemView>)
    ensures
        ids_of(explicit_entries(items)).no_duplicates(),
        forall|i: int|
            0 <= i < explicit_entries(items).len() ==> (#[trigger] explicit_entries(items)[i]).id
                == stable_id(explicit_entries(items)[i].media.id),
    decreases items.len(),
{
    if items.len() > 0 {
        lemma_explicit_entries(items.drop_last());
        let before = explicit_entries(items.drop_last());
        let entry = QueueItemView { id: stable_id(items.last().id), media: items.last() };
        if !has_media(before, items.last().id) {
            let ids = ids_of(before.push(entry));
            assert(ids =~= ids_of(before).push(entry.id));
            assert forall|i: int, j: int|
                0 <= i < ids.len() && 0 <= j < ids.len() && i != j implies ids[i] != ids[j] by {
                if i < before.len() {
                    lemma_stable_id_injective(before[i].media.id, items.last().id);
                }
                if j < before.len() {
                    lemma_stable_id_injective(before[j].media.id, items.last().id);
                }
            }
        }
    }
}

/// An entry with the queue id of a media item is that media item.
proof fn lemma_media_by_id(entries: Seq<QueueItemView>, id: MediaIdView)
    requires
        forall|i: int|
            0 <= i < entries.len() ==> (#[trigger] entries[i]).id == stable_id(entries[i].media.id),
    ensures
        ids_of(entries).contains(stable_id(id)) <==> has_media(entries, id),
{
    let ids = ids_of(entries);
    if ids.contains(stable_id(id)) {
        let i = choose|i: int| 0 <= i < ids.len() && ids[i] == stable_id(id);
        lemma_stable_id_injective(entries[i].media.id, id);
        assert(entries[i].media.id == id);
    }
    if has_media(entries, id) {
        let i = choose|i: int| 0 <= i < entries.len() && (#[trigger] entries[i]).media.id == id;
        assert(ids[i] == stable_id(id));
    }
}

/// Two texts that are each preceded by their length and a colon, and agree as
/// a whole, agree in the text and in what follows it.
proof fn lemma_length_prefixed(
    left: Seq<char>,
    left_rest: Seq<char>,
    right: Seq<char>,
    right_rest: Seq<char>,
)
    requires
        decimal_digits(utf8_len(left)) + seq![':'] + left + left_rest == decimal_digits(
            utf8_len(right),
        ) + seq![':'] + right + right_rest,
    ensures
        left == right,
        left_rest == right_rest,
{
    let a = decimal_digits(utf8_len(left));
    let b = decimal_digits(utf8_len(right));
    let whole_a = a + seq![':'] + left + left_rest;
    let whole_b = b + seq![':'] + right + right_rest;
    lemma_decimal_digits(utf8_len(left));
    lemma_decimal_digits(utf8_len(right));
    if a.len() < b.len() {
        assert(whole_a[a.len() as int] == ':');
        assert(whole_b[a.len() as int] == b[a.len() as int]);
        assert(is_digit(b[a.len() as int]));
    }
    if b.len() < a.len() {
        assert(whole_b[b.len() as int] == ':');
        assert(whole_a[b.len() as int] == a[b.len() as int]);
        assert(is_digit(a[b.len() as int]));
    }
    assert(a =~= whole_a.take(a.len() as int));
    assert(b =~= whole_b.take(b.len() as int));
    let tail_a = whole_a.skip(a.len() as int + 1);
    let tail_b = whole_b.skip(b.len() as int + 1);
    assert(tail_a =~= left + left_rest);
    assert(tail_b =~= right + right_rest);
    lemma_same_size_prefix(left, left_rest, right, right_rest);
    lemma_same_size_prefix(right, right_rest, left, left_rest);
    assert(left =~= (left + left_rest).take(left.len() as int));
    assert(right =~= (right + right_rest).take(left.len() as int));
    assert(left_rest =~= (left + left_rest).skip(left.len() as int));
    assert(right_rest =~= (right + right_rest).skip(left.len() as int));
}

/// A text that starts the same whole and takes as many bytes as another is not
/// shorter.
proof fn lemma_same_size_prefix(
    left: Seq<char>,
    left_rest: Seq<char>,
    right: Seq<char>,
    right_rest: Seq<char>,
)
    requires
        left + left_rest == right + right_rest,
        utf8_len(left) == utf8_len(right),
    ensures
        left.len() >= right.len(),
{
    if left.len() < right.len() {
        let extra = right.skip(left.len() as int);
        assert(right =~= left + extra) by {
            assert(right =~= (right + right_rest).take(right.len() as int));
            assert(left =~= (left + left_rest).take(left.len() as int));
        }
        lemma_utf8_len_concat(left, extra);
        lemma_utf8_len_bounds(extra);
    }
}

/// Different media items have different queue ids.
pub proof fn lemma_stable_id_injective(left: MediaIdView, right: MediaIdView)
    ensures
        stable_id(left) == stable_id(right) ==> left == right,
{
    if stable_id(left) == stable_id(right) {
        reveal_strlit("media:");
        reveal_strlit(":");
        assert(":"@ =~= seq![':']);
        let left_tail = seq![':'] + decimal_digits(utf8_len(left.video_id)) + seq![':']
            + left.video_id;
        let right_tail = seq![':'] + decimal_digits(utf8_len(right.video_id)) + seq![':']
            + right.video_id;
        let left_body = decimal_digits(utf8_len(left.provider)) + seq![':'] + left.provider
            + left_tail;
        let right_body = decimal_digits(utf8_len(right.provider)) + seq![':'] + right.provider
            + right_tail;
        assert(stable_id(left) =~= "media:"@ + left_body);
        assert(stable_id(right) =~= "media:"@ + right_body);
        assert(left_body =~= stable_id(left).skip(6));
        assert(right_body =~= stable_id(right).skip(6));
        lemma_length_prefixed(left.provider, left_tail, right.provider, right_tail);
        let left_video = decimal_digits(utf8_len(left.video_id)) + seq![':'] + left.video_id
            + Seq::<char>::empty();
        let right_video = decimal_digits(utf8_len(right.video_id)) + seq![':'] + right.video_id
            + Seq::<char>::empty();
        assert(left_video =~= left_tail.skip(1));
        assert(right_video =~= right_tail.skip(1));
        lemma_length_prefixed(
            left.video_id,
            Seq::empty(),
            right.video_id,
            Seq::empty(),
        );
        assert(left =~= right);
    }
}

/// The queue id of a media item: its provider and video id, each preceded by
/// its length in bytes.
pub open spec fn stable_id(media_id: MediaIdView) -> Seq<char> {
    "media:"@ + decimal_digits(utf8_len(media_id.provider)) + ":"@ + media_id.provider + ":"@
        + decimal_digits(utf8_len(media_id.video_id)) + ":"@ + media_id.video_id
}

/// The queue id of a media item.
pub fn stable_queue_item_id(media_id: &MediaId) -> (id: QueueItemId)
    ensures
        id@ == stable_id(media_id@),
{
    let mut text = String::new();
    text.append("media:");
    append_decimal(&mut text, byte_len(media_id.provider.as_str()) as u64);
    text.append(":");
    text.append(media_id.provider.as_str());
    text.append(":");
    append_decimal(&mut text, byte_len(media_id.video_id.as_str()) as u64);
    text.append(":");
    text.append(media_id.video_id.as_str());
    assert(text@ =~= stable_id(media_id@));
    QueueItemId(text)
}

} // verus!
