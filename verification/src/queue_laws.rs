//! What holds of the queue's operations taken together.

use vstd::prelude::*;
use vstd::seq_lib::*;

use crate::domain::{MediaIdView, MediaItemView, RepeatMode};
use crate::queue::{
    entry_moved_before, explicit_entries, explicit_queue, has_media, ids_of,
    lemma_active_is_permutation, lemma_error_free_is_wf, lemma_stable_id_injective, list_queue,
    repeats_earlier, stable_id, QueueErrorView, QueueItemView, QueueView,
};

verus! {

/// A snapshot of a queue restores to that queue: nothing is wrong with it.
pub proof fn law_snapshot_restores(queue: QueueView)
    requires
        queue.wf(),
    ensures
        queue.error() is None,
{
    lemma_error_free_is_wf(queue);
}

/// The position of the current item holds the current item.
proof fn lemma_current_position(queue: QueueView)
    requires
        queue.wf(),
        queue.current is Some,
    ensures
        0 <= queue.current_position()->0 < queue.active.len(),
        queue.active[queue.current_position()->0] == queue.current->0,
{
    lemma_active_is_permutation(queue);
    assert(queue.ids().to_set().contains(queue.current->0));
    assert(queue.active.to_set().contains(queue.current->0));
}

/// An item made current by its position is found at that position.
proof fn lemma_at_position(queue: QueueView, position: int)
    requires
        queue.wf(),
        0 <= position < queue.active.len(),
    ensures
        queue.at(position).wf(),
        queue.at(position).current_position() == Some(position),
{
    assert(queue.at(position).ids() == queue.ids());
    assert(queue.ids().contains(queue.active[position]));
    assert(queue.active.contains(queue.active[position]));
}

/// Stepping back undoes an advance.
pub proof fn law_previous_undoes_next(queue: QueueView)
    requires
        queue.wf(),
        queue.advanced().1 is Some,
    ensures
        queue.advanced().0.wf(),
        queue.advanced().0.stepped_back().0 == queue,
{
    lemma_current_position(queue);
    if queue.repeat != RepeatMode::One {
        let position = queue.next_position()->0;
        lemma_at_position(queue, position);
        let after = queue.at(position);
        assert(after.stepped_back().0 =~= queue);
    }
}

/// Advancing undoes a step back.
pub proof fn law_next_undoes_previous(queue: QueueView)
    requires
        queue.wf(),
        queue.stepped_back().1 is Some,
    ensures
        queue.stepped_back().0.wf(),
        queue.stepped_back().0.advanced().0 == queue,
{
    lemma_current_position(queue);
    if queue.repeat != RepeatMode::One {
        let position = queue.previous_position()->0;
        lemma_at_position(queue, position);
        let after = queue.at(position);
        assert(after.advanced().0 =~= queue);
    }
}

/// The queue after `count` advances.
pub open spec fn advanced_by(queue: QueueView, count: nat) -> QueueView
    decreases count,
{
    if count == 0 {
        queue
    } else {
        advanced_by(queue, (count - 1) as nat).advanced().0
    }
}

/// Advancing from the first item visits the items in active order, each of
/// them once.
pub proof fn law_next_follows_active_order(queue: QueueView, count: nat)
    requires
        queue.wf(),
        queue.repeat != RepeatMode::One,
        count < queue.active.len(),
        queue.current == Some(queue.active[0]),
    ensures
        advanced_by(queue, count).wf(),
        advanced_by(queue, count) == queue.at(count as int),
    decreases count,
{
    if count == 0 {
        assert(queue.at(0) =~= queue);
    } else {
        law_next_follows_active_order(queue, (count - 1) as nat);
        lemma_at_position(queue, count - 1);
        lemma_at_position(queue, count as int);
        assert(advanced_by(queue, count) =~= queue.at(count as int));
    }
}

/// Without repeat, playback ends after the last item.
pub proof fn law_next_ends_after_last(queue: QueueView)
    requires
        queue.wf(),
        queue.repeat == RepeatMode::Off,
        queue.active.len() > 0,
        queue.current == Some(queue.active.last()),
    ensures
        queue.advanced() == (queue, None::<QueueItemView>),
{
    lemma_at_position(queue, queue.active.len() - 1);
    assert(queue.at(queue.active.len() - 1) =~= queue);
}

/// With repeat of everything, playback of a queue with items never ends.
pub proof fn law_repeat_all_never_ends(queue: QueueView)
    requires
        queue.wf(),
        queue.repeat == RepeatMode::All,
        queue.active.len() > 0,
    ensures
        queue.advanced().1 is Some,
        queue.stepped_back().1 is Some,
{
    lemma_current_position(queue);
}

/// Removing an item that was just appended gives the queue back.
pub proof fn law_remove_undoes_append(queue: QueueView, item: QueueItemView)
    requires
        queue.wf(),
        !queue.ids().contains(item.id),
    ensures
        queue.appended(item).removed(item.id) == queue,
{
    let after = queue.appended(item);
    crate::queue::lemma_appended_wf(queue, item);
    let ids = after.ids();
    assert(ids =~= queue.ids().push(item.id));
    let last = queue.logical.len() as int;
    assert(ids[last] == item.id);
    assert(ids.contains(item.id));
    assert(ids.index_of(item.id) == last);
    assert(after.active[last] == item.id);
    assert(after.active.contains(item.id));
    assert(after.active.index_of(item.id) == last);
    assert(after.active.remove(last) =~= queue.active);
    assert(after.logical.remove(last) =~= queue.logical);
    assert(after.removed(item.id) =~= queue);
}

/// Turning shuffle off after a shuffle gives back the order the queue had in
/// logical order, whatever the shuffle was.
pub proof fn law_unshuffle_restores_order(queue: QueueView, order: Seq<Seq<char>>, seed: u64)
    requires
        queue.wf(),
        queue.shuffle_seed is None,
    ensures
        queue.shuffled(order, seed).unshuffled() == queue,
{
    let after = queue.shuffled(order, seed);
    assert(after.ids() == queue.ids());
    assert(after.unshuffled() =~= queue);
}

/// A shuffled queue plays each item once: the current one first, then the
/// others.
pub proof fn law_shuffle_is_permutation(queue: QueueView, order: Seq<Seq<char>>, seed: u64)
    requires
        queue.wf(),
        order.to_multiset() == queue.others().to_multiset(),
    ensures
        queue.shuffled(order, seed).wf(),
        queue.shuffled(order, seed).active.to_multiset() == queue.ids().to_multiset(),
        queue.shuffled(order, seed).current == queue.current,
        queue.current matches Some(id) ==> queue.shuffled(order, seed).active[0] == id,
{
    crate::queue::lemma_shuffled_wf(queue, order, seed);
    lemma_active_is_permutation(queue.shuffled(order, seed));
    assert(queue.shuffled(order, seed).ids() == queue.ids());
}

/// Moving an item places it directly in front of the other one.
pub proof fn law_move_before_places_in_front(
    queue: QueueView,
    id: Seq<char>,
    before: Seq<char>,
)
    requires
        queue.wf(),
        queue.ids().contains(id),
        queue.ids().contains(before),
        id != before,
    ensures
        queue.moved_before(id, before).wf(),
        queue.moved_before(id, before).ids().index_of(id) + 1 == queue.moved_before(
            id,
            before,
        ).ids().index_of(before),
        queue.moved_before(id, before).active.index_of(id) + 1 == queue.moved_before(
            id,
            before,
        ).active.index_of(before),
        queue.moved_before(id, before).ids().to_set() == queue.ids().to_set(),
        queue.moved_before(id, before).current == queue.current,
{
    crate::queue::lemma_moved_before_wf(queue, id, before);
    let after = queue.moved_before(id, before);
    lemma_moved_position(queue.active, queue.active.index_of(id), queue.active.index_of(before));
    let from = queue.ids().index_of(id);
    let to = queue.ids().index_of(before);
    lemma_moved_position(queue.ids(), from, to);
    assert(after.ids() =~= entry_moved_before(queue.ids(), from, to));
    lemma_active_is_permutation(queue);
    lemma_active_is_permutation(after);
    assert(after.ids().to_set() =~= queue.ids().to_set()) by {
        lemma_moved_set(queue.ids(), from, to);
    }
}

proof fn lemma_moved_position(ids: Seq<Seq<char>>, from: int, before: int)
    requires
        ids.no_duplicates(),
        0 <= from < ids.len(),
        0 <= before < ids.len(),
        from != before,
        entry_moved_before(ids, from, before).no_duplicates(),
    ensures
        ({
            let moved = entry_moved_before(ids, from, before);
            moved.index_of(ids[from]) + 1 == moved.index_of(ids[before])
        }),
{
    let moved = entry_moved_before(ids, from, before);
    let at = if from < before {
        before - 1
    } else {
        before
    };
    assert(moved[at] == ids[from]);
    assert(moved[at + 1] == ids[before]);
    assert(moved.contains(ids[from]));
    assert(moved.contains(ids[before]));
}

proof fn lemma_moved_set(ids: Seq<Seq<char>>, from: int, before: int)
    requires
        0 <= from < ids.len(),
        0 <= before < ids.len(),
        from != before,
    ensures
        entry_moved_before(ids, from, before).to_set() == ids.to_set(),
{
    let moved = entry_moved_before(ids, from, before);
    let at = if from < before {
        before - 1
    } else {
        before
    };
    assert forall|id: Seq<char>| moved.contains(id) == ids.contains(id) by {
        if moved.contains(id) {
            let i = choose|i: int| 0 <= i < moved.len() && moved[i] == id;
            let shifted = if i < at {
                i
            } else {
                i - 1
            };
            let source = if i == at {
                from
            } else if shifted < from {
                shifted
            } else {
                shifted + 1
            };
            assert(ids[source] == id);
        }
        if ids.contains(id) {
            let i = choose|i: int| 0 <= i < ids.len() && ids[i] == id;
            let shifted = if i < from {
                i
            } else {
                i - 1
            };
            let target = if i == from {
                at
            } else if shifted < at {
                shifted
            } else {
                shifted + 1
            };
            assert(moved[target] == id);
        }
    }
    assert(moved.to_set() =~= ids.to_set());
}

/// An activated list plays the selected item first when it is shuffled, keeps
/// the source order when it is not, and never has radio on.
pub proof fn law_explicit_list_starts_at_selection(
    items: Seq<MediaItemView>,
    selected: MediaIdView,
    repeat: RepeatMode,
    shuffle_seed: Option<u64>,
)
    ensures
        ({
            let entries = explicit_entries(items);
            let queue = explicit_queue(entries, stable_id(selected), repeat, shuffle_seed);
            &&& queue.current == Some(stable_id(selected))
            &&& queue.logical == entries
            &&& queue.repeat == repeat
            &&& queue.shuffle_seed == shuffle_seed
            &&& !queue.radio
            &&& shuffle_seed is Some ==> queue.active[0] == stable_id(selected)
            &&& shuffle_seed is None ==> queue.active == ids_of(entries)
        }),
{
}

/// Media items that differ have queue ids that differ.
pub proof fn law_queue_ids_tell_media_apart(left: MediaIdView, right: MediaIdView)
    requires
        left != right,
    ensures
        stable_id(left) != stable_id(right),
{
    lemma_stable_id_injective(left, right);
}

/// An activated list keeps exactly the media items of its source, each of them
/// once.
pub proof fn law_explicit_list_keeps_each_item_once(items: Seq<MediaItemView>)
    ensures
        forall|i: int|
            0 <= i < items.len() ==> has_media(explicit_entries(items), (#[trigger] items[i]).id),
        forall|i: int|
            0 <= i < explicit_entries(items).len() ==> items.contains(
                (#[trigger] explicit_entries(items)[i]).media,
            ),
        forall|i: int, j: int|
            0 <= i < j < explicit_entries(items).len() ==> (#[trigger] explicit_entries(
                items,
            )[i]).media.id != (#[trigger] explicit_entries(items)[j]).media.id,
    decreases items.len(),
{
    if items.len() > 0 {
        let shorter = items.drop_last();
        law_explicit_list_keeps_each_item_once(shorter);
        let before = explicit_entries(shorter);
        let entries = explicit_entries(items);
        assert forall|i: int| 0 <= i < items.len() implies has_media(
            entries,
            (#[trigger] items[i]).id,
        ) by {
            if i < shorter.len() {
                assert(has_media(before, shorter[i].id));
                let j = choose|j: int|
                    0 <= j < before.len() && (#[trigger] before[j]).media.id == shorter[i].id;
                assert(entries[j].media.id == items[i].id);
            } else if !has_media(before, items.last().id) {
                assert(entries[before.len() as int].media == items.last());
            }
        }
        assert forall|i: int| 0 <= i < entries.len() implies items.contains(
            (#[trigger] entries[i]).media,
        ) by {
            if i < before.len() {
                assert(shorter.contains(before[i].media));
                let j = choose|j: int| 0 <= j < shorter.len() && shorter[j] == before[i].media;
                assert(items[j] == entries[i].media);
            } else {
                assert(items[items.len() - 1] == entries[i].media);
            }
        }
    }
}

/// An activated list keeps each media item as it first occurs in its source:
/// wherever the source holds the item, it holds what the list keeps there or
/// before.
pub proof fn law_explicit_list_keeps_first_occurrence(
    items: Seq<MediaItemView>,
    entry: int,
    place: int,
)
    requires
        0 <= entry < explicit_entries(items).len(),
        0 <= place < items.len(),
        items[place].id == explicit_entries(items)[entry].media.id,
    ensures
        items.take(place + 1).contains(explicit_entries(items)[entry].media),
    decreases items.len(),
{
    let shorter = items.drop_last();
    let before = explicit_entries(shorter);
    if place == shorter.len() {
        law_explicit_list_keeps_each_item_once(items);
        assert(items.take(place + 1) =~= items);
    } else {
        law_explicit_list_keeps_each_item_once(shorter);
        assert(items[place] == shorter[place]);
        assert(has_media(before, shorter[place].id));
        assert(items.take(place + 1) =~= shorter.take(place + 1));
        assert(entry < before.len());
        law_explicit_list_keeps_first_occurrence(shorter, entry, place);
    }
}

/// An activated list keeps the order in which media items first occur in its
/// source: before an item occurs at all, all that stand before it in the list
/// have occurred.
pub proof fn law_explicit_list_keeps_order(
    items: Seq<MediaItemView>,
    earlier: int,
    entry: int,
    place: int,
)
    requires
        0 <= earlier < entry < explicit_entries(items).len(),
        0 <= place < items.len(),
        items[place].id == explicit_entries(items)[entry].media.id,
    ensures
        items.take(place).contains(explicit_entries(items)[earlier].media),
    decreases items.len(),
{
    let shorter = items.drop_last();
    let before = explicit_entries(shorter);
    law_explicit_list_keeps_each_item_once(shorter);
    assert(earlier < before.len());
    assert(shorter.contains(before[earlier].media));
    if place == shorter.len() {
        assert(items.take(place) =~= shorter);
    } else {
        assert(items[place] == shorter[place]);
        assert(has_media(before, shorter[place].id));
        assert(items.take(place) =~= shorter.take(place));
        assert(entry < before.len());
        law_explicit_list_keeps_order(shorter, earlier, entry, place);
    }
}

/// Repeating one item, neither an advance nor a step back leaves it.
pub proof fn law_repeat_one_stays(queue: QueueView)
    requires
        queue.wf(),
        queue.repeat == RepeatMode::One,
    ensures
        queue.advanced().0 == queue,
        queue.stepped_back().0 == queue,
        queue.current matches Some(id) ==> {
            &&& queue.advanced().1 matches Some(item) && item.id == id
            &&& queue.stepped_back().1 matches Some(item) && item.id == id
        },
        queue.current is None ==> queue.advanced().1 is None && queue.stepped_back().1 is None,
{
    if let Some(id) = queue.current {
        assert(queue.ids().contains(id));
        assert(queue.ids()[queue.ids().index_of(id)] == id);
    }
}

/// Before the first item there is nothing, unless everything is repeated: then the last
/// item comes before it, and it comes after the last.
pub proof fn law_the_ends_meet_when_everything_repeats(queue: QueueView, position: int)
    requires
        queue.wf(),
        queue.repeat != RepeatMode::One,
        0 <= position < queue.active.len(),
        queue.current == Some(queue.active[position]),
    ensures
        position > 0 ==> queue.stepped_back().0.current == Some(queue.active[position - 1]),
        position + 1 < queue.active.len() ==> queue.advanced().0.current == Some(
            queue.active[position + 1],
        ),
        position == 0 && queue.repeat == RepeatMode::Off ==> queue.stepped_back() == (
            queue,
            None::<QueueItemView>,
        ),
        position == 0 && queue.repeat == RepeatMode::All ==> queue.stepped_back().0.current
            == Some(queue.active[queue.active.len() - 1]),
        position + 1 == queue.active.len() && queue.repeat == RepeatMode::Off ==> queue.advanced()
            == (queue, None::<QueueItemView>),
        position + 1 == queue.active.len() && queue.repeat == RepeatMode::All
            ==> queue.advanced().0.current == Some(queue.active[0]),
        queue.advanced().0.active == queue.active,
        queue.advanced().0.logical == queue.logical,
        queue.stepped_back().0.active == queue.active,
        queue.stepped_back().0.logical == queue.logical,
{
    assert(queue.active.index_of(queue.active[position]) == position);
}

/// An advance and a step back give the item that they make current.
pub proof fn law_what_is_given_is_current(queue: QueueView)
    requires
        queue.wf(),
    ensures
        queue.advanced().1 matches Some(item) ==> queue.advanced().0.current == Some(item.id)
            && queue.logical.contains(item),
        queue.stepped_back().1 matches Some(item) ==> queue.stepped_back().0.current == Some(
            item.id,
        ) && queue.logical.contains(item),
{
    let ids = queue.ids();
    assert forall|id: Seq<char>| ids.contains(id) implies queue.item(id).id == id
        && queue.logical.contains(queue.item(id)) by {
        assert(ids[ids.index_of(id)] == id);
        assert(queue.logical[ids.index_of(id)] == queue.item(id));
    }
    if let Some(id) = queue.current {
        crate::queue::lemma_active_is_permutation(queue);
        assert(ids.contains(id));
        assert(ids.to_set().contains(id));
        assert(queue.active.contains(id));
    }
    if let Some(position) = queue.next_position() {
        assert(ids.contains(queue.active[position]));
    }
    if let Some(position) = queue.previous_position() {
        assert(ids.contains(queue.active[position]));
    }
}

/// Removing the current item goes on with the one that would have come next, and with the
/// one before it where it was the last; removing another changes nothing of what plays.
pub proof fn law_removing_goes_on_with_the_next(queue: QueueView, position: int)
    requires
        queue.wf(),
        0 <= position < queue.active.len(),
    ensures
        ({
            let id = queue.active[position];
            let after = queue.removed(id);
            &&& after.active.len() == queue.active.len() - 1
            &&& forall|i: int| 0 <= i < position ==> after.active[i] == queue.active[i]
            &&& forall|i: int|
                position <= i < after.active.len() ==> after.active[i] == queue.active[i + 1]
            &&& !after.ids().contains(id)
            &&& queue.current != Some(id) ==> after.current == queue.current
            &&& queue.current == Some(id) && position + 1 < queue.active.len() ==> after.current
                == Some(queue.active[position + 1])
            &&& queue.current == Some(id) && position + 1 == queue.active.len() && position > 0
                ==> after.current == Some(queue.active[position - 1])
            &&& queue.active.len() == 1 ==> after.current is None
            &&& after.repeat == queue.repeat && after.shuffle_seed == queue.shuffle_seed
                && after.radio == queue.radio
        }),
{
    let id = queue.active[position];
    let ids = queue.ids();
    assert(ids.contains(id));
    assert(queue.active.index_of(id) == position);
    let index = ids.index_of(id);
    assert(ids[index] == id);
    let after = queue.removed(id);
    assert(after.ids() =~= ids.remove(index));
    if queue.active.len() == 1 {
        assert(queue.current is Some);
        let current = queue.current->0;
        assert(ids.contains(current));
        let i = choose|i: int| 0 <= i < ids.len() && ids[i] == current;
        assert(i == 0 && index == 0);
    }
    assert forall|i: int| 0 <= i < after.ids().len() implies after.ids()[i] != id by {
        if i < index {
            assert(after.ids()[i] == ids[i]);
        } else {
            assert(after.ids()[i] == ids[i + 1]);
        }
    }
}

/// What is appended comes last, and plays at once only where nothing was in the queue.
pub proof fn law_appending_comes_last(queue: QueueView, item: QueueItemView)
    ensures
        queue.appended(item).logical.len() == queue.logical.len() + 1,
        queue.appended(item).logical.last() == item,
        queue.appended(item).active.last() == item.id,
        queue.logical.is_prefix_of(queue.appended(item).logical),
        queue.active.is_prefix_of(queue.appended(item).active),
        queue.current is Some ==> queue.appended(item).current == queue.current,
        queue.current is None ==> queue.appended(item).current == Some(item.id),
        queue.appended(item).repeat == queue.repeat,
        queue.appended(item).shuffle_seed == queue.shuffle_seed,
        queue.appended(item).radio == queue.radio,
{
}

/// Shuffling and playing in order again change neither what is in the queue nor what plays.
pub proof fn law_shuffling_keeps_what_plays(queue: QueueView, order: Seq<Seq<char>>, seed: u64)
    ensures
        queue.shuffled(order, seed).logical == queue.logical,
        queue.shuffled(order, seed).current == queue.current,
        queue.shuffled(order, seed).repeat == queue.repeat,
        queue.shuffled(order, seed).radio == queue.radio,
        queue.shuffled(order, seed).shuffle_seed == Some(seed),
        queue.current matches Some(id) ==> queue.shuffled(order, seed).active.len() == order.len()
            + 1 && queue.shuffled(order, seed).active[0] == id,
        queue.unshuffled().logical == queue.logical,
        queue.unshuffled().current == queue.current,
        queue.unshuffled().repeat == queue.repeat,
        queue.unshuffled().radio == queue.radio,
        queue.unshuffled().shuffle_seed is None,
{
}

/// A list that becomes a queue is played from its first item on, in its order.
pub proof fn law_a_list_is_played_from_its_first_item(items: Seq<QueueItemView>, index: int)
    requires
        0 <= index < items.len(),
    ensures
        ({
            let queue = list_queue(items);
            &&& queue.current == Some(items[0].id)
            &&& queue.logical == items
            &&& queue.active.len() == items.len()
            &&& queue.active[index] == items[index].id
            &&& queue.repeat == RepeatMode::Off
            &&& queue.shuffle_seed is None
            &&& !queue.radio
        }),
        list_queue(Seq::empty()).current is None,
{
}

/// Whether an id stands at two places.
pub open spec fn stands_twice(ids: Seq<Seq<char>>, id: Seq<char>) -> bool {
    exists|i: int, j: int|
        0 <= i < j < ids.len() && #[trigger] ids[i] == id && #[trigger] ids[j] == id
}

/// What is said to be wrong with a queue is wrong with it.
pub proof fn law_what_is_said_to_be_wrong_is_wrong(queue: QueueView)
    ensures
        queue.error() matches Some(error) ==> match error {
            QueueErrorView::DuplicateLogicalId { id } => stands_twice(queue.ids(), id),
            QueueErrorView::DuplicateActiveId { id } => stands_twice(queue.active, id),
            QueueErrorView::ActiveIdNotFound { id } => queue.active.contains(id)
                && !queue.ids().contains(id),
            QueueErrorView::ActiveIdsMismatch { logical_count, active_count } => logical_count
                == queue.logical.len() && active_count == queue.active.len() && logical_count
                != active_count,
            QueueErrorView::UnshuffledOrderMismatch { index, logical_id, active_id } => {
                &&& queue.shuffle_seed is None
                &&& 0 <= index < queue.logical.len()
                &&& queue.logical[index].id == logical_id
                &&& queue.active[index] == active_id
                &&& logical_id != active_id
            },
            QueueErrorView::CurrentIdNotFound { id } => queue.current == Some(id)
                && !queue.ids().contains(id),
            QueueErrorView::MissingCurrent => queue.current is None && queue.logical.len() > 0,
            QueueErrorView::ItemNotFound { id } => false,
        },
{
    let ids = queue.ids();
    let duplicate = |i: int| repeats_earlier(ids, i);
    let misplaced = |i: int| repeats_earlier(queue.active, i) || !ids.contains(queue.active[i]);
    let reordered = |i: int| ids[i] != queue.active[i];
    crate::seqs::lemma_first_where_sound(ids.len(), duplicate);
    crate::seqs::lemma_first_where_sound(queue.active.len(), misplaced);
    crate::seqs::lemma_first_where_sound(ids.len(), reordered);
}

/// What is shuffled is everything but what plays, in the order of the list.
pub proof fn law_everything_else_is_shuffled(queue: QueueView)
    ensures
        queue.current matches Some(current) ==> queue.others() == queue.ids().filter(
            |id: Seq<char>| id != current,
        ),
{
    if let Some(current) = queue.current {
        let kept = |id: Seq<char>| id != current;
        let wanted = |id: Seq<char>| queue.current != Some(id);
        assert(kept =~= wanted);
    }
}

} // verus!
