//! The queue in the order in which it is played.

use vstd::prelude::*;
use vstd::string::*;

use crate::domain::texts;
use crate::queue::{id_texts, Queue, QueueItemId, QueueView};
use crate::ui::interaction::ListSurface;
use crate::ui::line::{line_views, raw_line, Line};
use crate::ui::viewport::{
    dataset_key, lemma_shown_rows, position_in, position_of_text, shown, target_views,
    DatasetKeyView, SelectionViewport, ViewportView,
};
use crate::ui::views::list::{
    blank, is_picture, marker, marker_text, only_lines, push_line, push_rows, row_lines,
    row_targets, ListLines, ListPicture,
};

verus! {

/// The entry that is marked: the selected one, or else the current one.
pub open spec fn marked_entry(queue: QueueView, selected: Option<Seq<char>>) -> Option<Seq<char>> {
    match selected {
        Some(id) => Some(id),
        None => queue.current,
    }
}

/// The row of the queue that is marked.
pub open spec fn marked_position(queue: QueueView, selected: Option<Seq<char>>) -> Option<usize> {
    match marked_entry(queue, selected) {
        Some(id) => match position_in(queue.active, id) {
            Some(position) => Some(position as usize),
            None => None,
        },
        None => None,
    }
}

/// A row of the queue.
pub open spec fn queue_row(queue: QueueView, selected: Option<Seq<char>>, index: int) -> Seq<char> {
    marker(marked_entry(queue, selected) == Some(queue.active[index])) + " "@ + queue.item(
        queue.active[index],
    ).media.title
}

/// The queue in the order in which it is played.
pub open spec fn queue_picture(
    viewport: ViewportView,
    queue: QueueView,
    selected: Option<Seq<char>>,
    available_rows: usize,
    width: nat,
) -> ListPicture {
    if available_rows == 0 {
        only_lines(viewport, Seq::empty())
    } else if queue.logical.len() == 0 {
        only_lines(viewport, seq![raw_line("Queue is empty"@)])
    } else {
        let (after, range) = shown(
            viewport,
            queue.active.len() as usize,
            marked_position(queue, selected),
            available_rows,
            DatasetKeyView::Listed(queue.active),
        );
        let count = (range.end - range.start) as nat;
        ListPicture {
            viewport: after,
            lines: row_lines(
                Seq::new(count, |offset: int| queue_row(queue, selected, range.start + offset)),
                width,
            ),
            targets: row_targets(after, count, 0, ListSurface::Queue, range.start as int),
        }
    }
}

fn active_texts(queue: &Queue) -> (list: Vec<String>)
    ensures
        texts(list@) == queue@.active,
{
    let ids = queue.active_ids();
    let mut list: Vec<String> = Vec::new();
    let mut index: usize = 0;
    while index < ids.len()
        invariant
            id_texts(ids@) == queue@.active,
            index <= ids.len(),
            list.len() == index,
            forall|i: int| 0 <= i < index ==> (#[trigger] list@[i])@ == ids@[i]@,
        decreases ids.len() - index,
    {
        list.push(ids[index].as_str().to_owned());
        index = index + 1;
    }
    assert(texts(list@) =~= queue@.active);
    list
}

/// The queue in the order in which it is played.
pub fn lines_with_viewport_and_targets(
    queue: &Queue,
    selected_id: Option<&QueueItemId>,
    available_rows: usize,
    available_width: usize,
    viewport_memory: &mut SelectionViewport,
) -> (drawn: ListLines)
    requires
        queue@.wf(),
    ensures
        is_picture(
            drawn,
            final(viewport_memory)@,
            queue_picture(
                old(viewport_memory)@,
                queue@,
                match selected_id {
                    Some(id) => Some(id@),
                    None => None,
                },
                available_rows,
                available_width as nat,
            ),
        ),
{
    let ghost selected = match selected_id {
        Some(id) => Some(id@),
        None => None,
    };
    let mut drawn = blank();
    if available_rows == 0 {
        return drawn;
    }
    if queue.items().len() == 0 {
        assert(queue@.logical.len() == 0);
        push_line(&mut drawn, Line::from_text("Queue is empty".to_owned()));
        assert(line_views(drawn.lines@) =~= seq![raw_line("Queue is empty"@)]);
        return drawn;
    }
    assert(queue@.logical.len() != 0);
    let marked: Option<String> = match selected_id {
        Some(id) => Some(id.as_str().to_owned()),
        None => match queue.current() {
            Some(item) => Some(item.id().as_str().to_owned()),
            None => None,
        },
    };
    proof {
        if selected is None {
            lemma_current(queue@);
        }
    }
    let ghost marked_text = marked_entry(queue@, selected);
    assert(marked_text == crate::domain::optional_text(marked));
    let keys = active_texts(queue);
    let selected_index: Option<usize> = match &marked {
        Some(id) => position_of_text(&keys, id),
        None => None,
    };
    assert(selected_index == marked_position(queue@, selected));
    let total: usize = keys.len();
    assert(texts(keys@).len() == keys@.len());
    let range = viewport_memory.visible_range(
        total,
        selected_index,
        available_rows,
        dataset_key(keys),
    );
    proof {
        lemma_shown_rows(
            old(viewport_memory)@,
            total,
            selected_index,
            available_rows,
            DatasetKeyView::Listed(queue@.active),
        );
    }
    let items = queue.active_items();
    let mut rows: Vec<String> = Vec::new();
    let mut index: usize = range.start;
    while index < range.end
        invariant
            range.start <= index <= range.end <= items.len(),
            items.len() == queue@.active.len(),
            forall|i: int|
                0 <= i < items.len() ==> (#[trigger] items@[i])@ == queue@.item(queue@.active[i]),
            marked_text == marked_entry(queue@, selected),
            marked_text == crate::domain::optional_text(marked),
            queue@.wf(),
            rows.len() == index - range.start,
            forall|i: int|
                0 <= i < rows.len() ==> (#[trigger] rows@[i])@ == queue_row(
                    queue@,
                    selected,
                    range.start + i,
                ),
        decreases range.end - index,
    {
        let item = items[index];
        proof {
            lemma_item(queue@, index as int);
        }
        let is_marked = match &marked {
            Some(id) => crate::text::same_text(id.as_str(), item.id().as_str()),
            None => false,
        };
        let mut row = marker_text(is_marked).to_owned();
        row.append(" ");
        row.append(item.media().title.as_str());
        assert(row@ =~= queue_row(queue@, selected, index as int));
        rows.push(row);
        index = index + 1;
    }
    push_rows(
        &mut drawn,
        viewport_memory,
        &rows,
        ListSurface::Queue,
        range.start,
        available_width,
    );
    proof {
        let count = (range.end - range.start) as nat;
        let expected = Seq::new(
            count,
            |offset: int| queue_row(queue@, selected, range.start + offset),
        );
        assert(texts(rows@) =~= expected);
        assert(line_views(drawn.lines@) =~= row_lines(expected, available_width as nat));
        assert(target_views(drawn.targets@) =~= row_targets(
            viewport_memory@,
            count,
            0,
            ListSurface::Queue,
            range.start as int,
        ));
    }
    drawn
}

proof fn lemma_item(queue: QueueView, index: int)
    requires
        queue.wf(),
        0 <= index < queue.active.len(),
    ensures
        queue.item(queue.active[index]).id == queue.active[index],
{
    let id = queue.active[index];
    assert(queue.ids().contains(id));
    let position = queue.ids().index_of(id);
    assert(queue.ids()[position] == id);
}

proof fn lemma_current(queue: QueueView)
    requires
        queue.wf(),
    ensures
        queue.current_item() matches Some(item) ==> queue.current == Some(item.id),
        queue.current_item() is None ==> queue.current is None,
{
    match queue.current {
        Some(id) => {
            let position = queue.ids().index_of(id);
            assert(queue.ids()[position] == id);
        },
        None => {},
    }
}

/// The queue takes no more lines than there are rows for.
pub proof fn law_queue_fits(
    viewport: ViewportView,
    queue: QueueView,
    selected: Option<Seq<char>>,
    available_rows: usize,
    width: nat,
)
    ensures
        queue_picture(viewport, queue, selected, available_rows, width).lines.len()
            <= available_rows,
{
    lemma_shown_rows(
        viewport,
        queue.active.len() as usize,
        marked_position(queue, selected),
        available_rows,
        DatasetKeyView::Listed(queue.active),
    );
}

} // verus!
