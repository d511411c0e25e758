//! The command palette: actions that are found by typing.

use vstd::prelude::*;
use vstd::string::*;

use crate::domain::texts;
use crate::text::{
    contains_chars, contains_part, lowercase, lowercase_chars, trim, trimmed,
};
use crate::ui::cells::{truncate_cells, truncated};
use crate::ui::input::{
    all_entries, entry_views, palette_entries, PaletteEntry, PaletteEntryView, SemanticAction,
    ACTION_COUNT,
};
use crate::ui::interaction::ListSurface;
use crate::ui::layout::least;
use crate::ui::line::{line_views, raw_line, Line, LineView};
use crate::ui::viewport::{
    revealed_start, target_views, DatasetKey, DatasetKeyView, RenderedRowTarget, RowTargetView,
};

verus! {

/// What was typed into the command palette, and what is selected in it.
#[derive(Debug, Eq, Hash, PartialEq)]
pub struct CommandPaletteState {
    pub query: String,
    pub query_truncated: bool,
    pub selected: usize,
    pub scroll: usize,
}

/// What a [`CommandPaletteState`] says.
#[verifier::ext_equal]
pub struct PaletteStateView {
    pub query: Seq<char>,
    pub query_truncated: bool,
    pub selected: usize,
    pub scroll: usize,
}

impl View for CommandPaletteState {
    type V = PaletteStateView;

    open spec fn view(&self) -> PaletteStateView {
        PaletteStateView {
            query: self.query@,
            query_truncated: self.query_truncated,
            selected: self.selected,
            scroll: self.scroll,
        }
    }
}

impl Clone for CommandPaletteState {
    fn clone(&self) -> (copy: Self)
        ensures
            copy == *self,
    {
        CommandPaletteState {
            query: self.query.clone(),
            query_truncated: self.query_truncated,
            selected: self.selected,
            scroll: self.scroll,
        }
    }
}

impl Default for CommandPaletteState {
    fn default() -> (state: Self)
        ensures
            state@ == (PaletteStateView {
                query: Seq::empty(),
                query_truncated: false,
                selected: 0,
                scroll: 0,
            }),
    {
        let state = CommandPaletteState {
            query: String::new(),
            query_truncated: false,
            selected: 0,
            scroll: 0,
        };
        assert(state@.query =~= Seq::<char>::empty());
        state
    }
}

/// Whether an entry is found by a query in small letters.
pub open spec fn is_found(query: Seq<char>, entry: PaletteEntryView) -> bool {
    ||| query.len() == 0
    ||| contains_part(lowercase(entry.label), query)
    ||| contains_part(lowercase(entry.shortcut), query)
}

/// The entries that are found by a query in small letters.
pub open spec fn found(query: Seq<char>, entries: Seq<PaletteEntryView>) -> Seq<PaletteEntryView>
    decreases entries.len(),
{
    if entries.len() == 0 {
        Seq::empty()
    } else if is_found(query, entries.last()) {
        found(query, entries.drop_last()).push(entries.last())
    } else {
        found(query, entries.drop_last())
    }
}

impl PaletteStateView {
    /// The entries that are offered: all that hold what was typed, whatever the
    /// case, and none when too much was typed.
    pub open spec fn matching(self) -> Seq<PaletteEntryView> {
        if self.query_truncated {
            Seq::empty()
        } else {
            found(lowercase(trimmed(self.query)), all_entries())
        }
    }

    /// The selected entry among `total` entries.
    pub open spec fn selected_of(self, total: int) -> Option<usize> {
        if total == 0 {
            None
        } else {
            Some(least(self.selected as int, total - 1) as usize)
        }
    }

    /// The action of the selected entry.
    pub open spec fn chosen(self) -> Option<SemanticAction> {
        match self.selected_of(self.matching().len() as int) {
            Some(selected) => Some(self.matching()[selected as int].action),
            None => None,
        }
    }

    /// The first entry that is shown in `max_rows` rows.
    pub open spec fn first_shown(self, max_rows: nat) -> int {
        let total = self.matching().len() as int;
        if max_rows == 0 {
            least(self.scroll as int, total)
        } else {
            revealed_start(self.scroll as int, total, self.selected_of(total), max_rows as int)
        }
    }

    /// The entries that are shown in `max_rows` rows.
    pub open spec fn entries_shown(self, max_rows: nat) -> Seq<PaletteEntryView> {
        let start = self.first_shown(max_rows);
        let total = self.matching().len() as int;
        self.matching().subrange(start, least(start + max_rows, total))
    }
}

/// What the command palette shows.
#[derive(Debug, Eq, PartialEq)]
pub struct PaletteViewport {
    pub start: usize,
    pub total: usize,
    pub selected: Option<usize>,
    pub entries: Vec<PaletteEntry>,
}

impl Clone for PaletteViewport {
    fn clone(&self) -> (copy: Self)
        ensures
            copy.start == self.start,
            copy.total == self.total,
            copy.selected == self.selected,
            entry_views(copy.entries@) == entry_views(self.entries@),
    {
        let entries = self.entries.clone();
        assert(entries@ =~= self.entries@);
        PaletteViewport { start: self.start, total: self.total, selected: self.selected, entries }
    }
}

proof fn lemma_found_len(query: Seq<char>, entries: Seq<PaletteEntryView>)
    ensures
        found(query, entries).len() <= entries.len(),
    decreases entries.len(),
{
    if entries.len() > 0 {
        lemma_found_len(query, entries.drop_last());
    }
}

proof fn lemma_matching_len(palette: PaletteStateView)
    ensures
        palette.matching().len() <= ACTION_COUNT,
{
    lemma_found_len(lowercase(trimmed(palette.query)), all_entries());
}

/// The number of characters of a column of the palette.
pub const LABEL_COLUMN: usize = 28;

/// `text` with spaces after it, so that it takes a column.
pub open spec fn padded(text: Seq<char>, column: nat) -> Seq<char>
    decreases column - text.len(),
{
    if text.len() < column {
        padded(text.push(' '), column)
    } else {
        text
    }
}

fn pad(text: &str, column: usize) -> (result: String)
    ensures
        result@ == padded(text@, column as nat),
{
    let mut result = text.to_owned();
    let mut length: usize = crate::text::chars_of(text).len();
    while length < column
        invariant
            length == result@.len(),
            padded(text@, column as nat) == padded(result@, column as nat),
        decreases column - length,
    {
        result.push(' ');
        length = length + 1;
    }
    result
}

/// An entry as it is drawn.
pub open spec fn entry_text(entry: PaletteEntryView, selected: bool) -> Seq<char> {
    (if selected {
        "▶"@
    } else {
        " "@
    }) + " "@ + padded(entry.label, LABEL_COLUMN as nat) + " "@ + entry.shortcut
}

/// What was typed, as it is drawn.
pub open spec fn query_line(palette: PaletteStateView, width: nat) -> LineView {
    raw_line(
        truncated(
            "Query: "@ + palette.query + (if palette.query_truncated {
                "…"@
            } else {
                ""@
            }),
            width,
        ),
    )
}

/// The lines of the command palette.
pub open spec fn palette_content(palette: PaletteStateView, rows: nat, width: nat) -> Seq<LineView> {
    let shown = (rows - 1) as nat;
    let entries = palette.entries_shown(shown);
    let start = palette.first_shown(shown);
    let total = palette.matching().len() as int;
    if rows == 0 {
        Seq::empty()
    } else if rows == 1 {
        seq![query_line(palette, width)]
    } else if total == 0 {
        seq![query_line(palette, width), raw_line("No matching commands"@)]
    } else {
        seq![query_line(palette, width)] + Seq::new(
            entries.len(),
            |offset: int|
                raw_line(
                    entry_text(
                        entries[offset],
                        palette.selected_of(total) == Some((start + offset) as usize),
                    ),
                ),
        )
    }
}

/// What the palette shows, as the key of a list: what was typed and the entries.
pub open spec fn palette_key(query: Seq<char>, entries: Seq<PaletteEntryView>) -> DatasetKeyView {
    DatasetKeyView::Listed(
        seq![query] + Seq::new(entries.len(), |index: int| entries[index].label),
    )
}

/// The rows of the command palette.
pub open spec fn palette_rows(palette: PaletteStateView, rows: nat) -> Seq<RowTargetView> {
    let shown = (rows - 1) as nat;
    let entries = palette.entries_shown(shown);
    if rows <= 1 || palette.matching().len() == 0 {
        Seq::empty()
    } else {
        Seq::new(
            entries.len(),
            |offset: int|
                RowTargetView {
                    line_index: (offset + 1) as usize,
                    surface: ListSurface::CommandPalette,
                    stable_index: (palette.first_shown(shown) + offset) as usize,
                    dataset_key: palette_key(palette.query, entries),
                },
        )
    }
}

impl CommandPaletteState {
    pub fn query(&self) -> (query: &str)
        ensures
            query@ == self@.query,
    {
        self.query.as_str()
    }

    pub fn selected_index(&self) -> (selected: usize)
        ensures
            selected == self@.selected,
    {
        self.selected
    }

    pub fn scroll(&self) -> (scroll: usize)
        ensures
            scroll == self@.scroll,
    {
        self.scroll
    }

    /// The entries that are offered.
    pub fn matching_entries(&self) -> (entries: Vec<PaletteEntry>)
        ensures
            entry_views(entries@) == self@.matching(),
            entries@.len() <= ACTION_COUNT,
    {
        if self.query_truncated {
            let none: Vec<PaletteEntry> = Vec::new();
            assert(entry_views(none@) =~= Seq::<PaletteEntryView>::empty());
            return none;
        }
        let query = lowercase_chars(trim(self.query.as_str()).as_str());
        let entries = palette_entries();
        let ghost all = all_entries();
        let mut matching: Vec<PaletteEntry> = Vec::new();
        let mut index: usize = 0;
        proof {
            assert(all.take(0) =~= Seq::<PaletteEntryView>::empty());
            assert(entry_views(matching@) =~= Seq::<PaletteEntryView>::empty());
        }
        while index < entries.len()
            invariant
                entry_views(entries@) == all,
                query@ == lowercase(trimmed(self@.query)),
                index <= entries.len(),
                entry_views(matching@) == found(query@, all.take(index as int)),
            decreases entries.len() - index,
        {
            let entry = entries[index];
            let ghost before = matching@;
            proof {
                assert(all[index as int] == entry@);
                assert(all.take(index + 1).drop_last() =~= all.take(index as int));
                assert(all.take(index + 1).last() == entry@);
            }
            if query.len() == 0 || contains_chars(&lowercase_chars(entry.label), &query)
                || contains_chars(&lowercase_chars(entry.shortcut), &query) {
                matching.push(entry);
                assert(entry_views(matching@) =~= entry_views(before).push(entry@));
            }
            index = index + 1;
        }
        proof {
            assert(all.take(index as int) =~= all);
            lemma_found_len(query@, all);
        }
        matching
    }

    fn normalized_selected(&self, total: usize) -> (selected: Option<usize>)
        ensures
            selected == self@.selected_of(total as int),
    {
        if total == 0 {
            None
        } else if self.selected < total {
            Some(self.selected)
        } else {
            Some(total - 1)
        }
    }

    /// The action of the selected entry.
    pub fn selected_action(&self) -> (action: Option<SemanticAction>)
        ensures
            action == match self@.selected_of(self@.matching().len() as int) {
                Some(selected) => Some(self@.matching()[selected as int].action),
                None => None,
            },
            action == self@.chosen(),
    {
        let entries = self.matching_entries();
        match self.normalized_selected(entries.len()) {
            Some(selected) => {
                assert(self@.matching()[selected as int] == entries@[selected as int]@);
                Some(entries[selected].action)
            },
            None => None,
        }
    }

    /// What is shown in `max_rows` rows.
    pub fn viewport(&self, max_rows: usize) -> (viewport: PaletteViewport)
        ensures
            viewport.start == self@.first_shown(max_rows as nat),
            viewport.total == self@.matching().len(),
            viewport.selected == self@.selected_of(self@.matching().len() as int),
            entry_views(viewport.entries@) == self@.entries_shown(max_rows as nat),
            viewport.total <= ACTION_COUNT,
            viewport.start + viewport.entries@.len() <= viewport.total,
    {
        let entries = self.matching_entries();
        let total: usize = entries.len();
        let selected = self.normalized_selected(total);
        let max_start: usize = total.saturating_sub(max_rows);
        let mut start: usize = if self.scroll < max_start {
            self.scroll
        } else {
            max_start
        };
        if max_rows > 0 {
            match selected {
                Some(row) => {
                    if row < start {
                        start = row;
                    } else if row - start >= max_rows {
                        start = row + 1 - max_rows;
                        if start > max_start {
                            start = max_start;
                        }
                    }
                },
                None => {},
            }
        }
        let end: usize = if max_rows < total - start {
            start + max_rows
        } else {
            total
        };
        let mut shown: Vec<PaletteEntry> = Vec::new();
        let mut index: usize = start;
        while index < end
            invariant
                start <= index <= end <= entries.len(),
                shown@ == entries@.subrange(start as int, index as int),
            decreases end - index,
        {
            shown.push(entries[index]);
            index = index + 1;
            assert(shown@ =~= entries@.subrange(start as int, index as int));
        }
        assert(entry_views(shown@) =~= self@.entries_shown(max_rows as nat));
        PaletteViewport { start, total, selected, entries: shown }
    }

    /// Selects another entry. The selection goes round at both ends.
    pub fn move_by(&mut self, delta: isize)
        ensures
            final(self)@ == old(self)@.moved_by(delta as int),
    {
        let total: usize = self.matching_entries().len();
        match self.normalized_selected(total) {
            Some(selected) => {
                if delta < 0 {
                    let distance: usize = if delta == isize::MIN {
                        isize::MAX as usize + 1
                    } else {
                        (-delta) as usize
                    };
                    self.selected = if selected >= distance {
                        selected - distance
                    } else {
                        total - 1
                    };
                } else {
                    self.selected = selected.saturating_add(delta as usize) % total;
                }
            },
            None => {},
        }
    }

    pub fn select(&mut self, index: usize)
        ensures
            final(self)@ == (PaletteStateView { selected: index, ..old(self)@ }),
    {
        self.selected = index;
    }
}

impl PaletteStateView {
    /// The palette after another entry was selected. The selection goes round at
    /// both ends.
    pub open spec fn moved_by(self, delta: int) -> PaletteStateView {
        let total = self.matching().len() as int;
        match self.selected_of(total) {
            Some(selected) => PaletteStateView {
                selected: if delta < 0 {
                    if selected + delta >= 0 {
                        (selected + delta) as usize
                    } else {
                        (total - 1) as usize
                    }
                } else {
                    (least(selected + delta, usize::MAX as int) % total) as usize
                },
                ..self
            },
            None => self,
        }
    }
}

fn entry_line(entry: &PaletteEntry, selected: bool) -> (line: Line)
    ensures
        line@ == raw_line(entry_text(entry@, selected)),
{
    let mut text = if selected {
        "▶".to_owned()
    } else {
        " ".to_owned()
    };
    text.append(" ");
    text.append(pad(entry.label, LABEL_COLUMN).as_str());
    text.append(" ");
    text.append(entry.shortcut);
    Line::from_text(text)
}

fn key_of_entries(query: &str, entries: &Vec<PaletteEntry>) -> (key: DatasetKey)
    ensures
        key@ == palette_key(query@, entry_views(entries@)),
{
    let ghost views = entry_views(entries@);
    let mut list: Vec<String> = vec![query.to_owned()];
    let mut index: usize = 0;
    assert(texts(list@) =~= seq![query@] + Seq::new(0, |i: int| views[i].label));
    while index < entries.len()
        invariant
            views == entry_views(entries@),
            index <= entries.len(),
            texts(list@) == seq![query@] + Seq::new(index as nat, |i: int| views[i].label),
        decreases entries.len() - index,
    {
        let ghost before = list@;
        list.push(entries[index].label.to_owned());
        index = index + 1;
        assert(texts(list@) =~= texts(before).push(views[index - 1].label));
        assert(texts(list@) =~= seq![query@] + Seq::new(index as nat, |i: int| views[i].label));
    }
    DatasetKey::Listed(list)
}

/// The lines of the command palette, and its rows.
pub fn palette_lines_with_targets(
    palette: &CommandPaletteState,
    available_rows: usize,
    available_width: usize,
) -> (result: (Vec<Line>, Vec<RenderedRowTarget>))
    ensures
        line_views(result.0@) == palette_content(
            palette@,
            available_rows as nat,
            available_width as nat,
        ),
        target_views(result.1@) == palette_rows(palette@, available_rows as nat),
{
    let mut lines: Vec<Line> = Vec::new();
    let mut targets: Vec<RenderedRowTarget> = Vec::new();
    assert(target_views(targets@) =~= Seq::<RowTargetView>::empty());
    if available_rows == 0 {
        assert(line_views(lines@) =~= Seq::<LineView>::empty());
        return (lines, targets);
    }
    let mut query = "Query: ".to_owned();
    query.append(palette.query.as_str());
    if palette.query_truncated {
        query.append("…");
    } else {
        query.append("");
    }
    lines.push(Line::from_text(truncate_cells(query.as_str(), available_width)));
    let ghost first = query_line(palette@, available_width as nat);
    assert(line_views(lines@) =~= seq![first]);
    if available_rows == 1 {
        return (lines, targets);
    }
    let viewport = palette.viewport(available_rows - 1);
    if viewport.total == 0 {
        lines.push(Line::from_text("No matching commands".to_owned()));
        assert(line_views(lines@) =~= seq![first, raw_line("No matching commands"@)]);
        return (lines, targets);
    }
    let ghost entries = palette@.entries_shown((available_rows - 1) as nat);
    let ghost start = palette@.first_shown((available_rows - 1) as nat);
    let ghost total = palette@.matching().len() as int;
    let ghost key = palette_key(palette@.query, entries);
    let mut offset: usize = 0;
    while offset < viewport.entries.len()
        invariant
            available_rows > 1,
            entry_views(viewport.entries@) == entries,
            entries == palette@.entries_shown((available_rows - 1) as nat),
            viewport.start == start,
            start == palette@.first_shown((available_rows - 1) as nat),
            total == palette@.matching().len(),
            viewport.selected == palette@.selected_of(total),
            viewport.start + viewport.entries@.len() <= viewport.total <= ACTION_COUNT,
            key == palette_key(palette@.query, entries),
            offset <= viewport.entries.len(),
            lines.len() == offset + 1,
            lines@[0]@ == first,
            forall|i: int|
                0 <= i < offset ==> (#[trigger] lines@[i + 1])@ == raw_line(
                    entry_text(
                        entries[i],
                        palette@.selected_of(total) == Some((start + i) as usize),
                    ),
                ),
            targets.len() == offset,
            forall|i: int|
                0 <= i < offset ==> (#[trigger] targets@[i])@ == (RowTargetView {
                    line_index: (i + 1) as usize,
                    surface: ListSurface::CommandPalette,
                    stable_index: (start + i) as usize,
                    dataset_key: key,
                }),
        decreases viewport.entries.len() - offset,
    {
        let index: usize = viewport.start + offset;
        targets.push(
            RenderedRowTarget {
                line_index: 1 + offset,
                surface: ListSurface::CommandPalette,
                stable_index: index,
                dataset_key: key_of_entries(palette.query.as_str(), &viewport.entries),
            },
        );
        let selected = match viewport.selected {
            Some(row) => row == index,
            None => false,
        };
        assert(entries[offset as int] == viewport.entries@[offset as int]@);
        lines.push(entry_line(&viewport.entries[offset], selected));
        offset = offset + 1;
    }
    proof {
        let expected = palette_content(palette@, available_rows as nat, available_width as nat);
        assert(line_views(lines@).len() == expected.len());
        assert forall|i: int| 0 <= i < expected.len() implies line_views(lines@)[i]
            == expected[i] by {
            if i > 0 {
                assert(lines@[(i - 1) + 1]@ == line_views(lines@)[i]);
            }
        }
        assert(line_views(lines@) =~= expected);
        assert(target_views(targets@) =~= palette_rows(palette@, available_rows as nat));
    }
    (lines, targets)
}

/// Going down and up again leads back, as does going all the way round.
pub proof fn law_palette_selection_goes_round(palette: PaletteStateView)
    requires
        palette.matching().len() > 0,
        palette.selected < palette.matching().len(),
    ensures
        palette.moved_by(1).moved_by(-1) == palette,
        palette.moved_by(-1).moved_by(1) == palette,
        palette.moved_by(palette.matching().len() as int) == palette,
{
    lemma_matching_len(palette);
    let total = palette.matching().len() as int;
    assert(palette.moved_by(1).matching() == palette.matching());
    assert(palette.moved_by(-1).matching() == palette.matching());
    let selected = palette.selected as int;
    if selected + 1 == total {
        assert((selected + 1) % total == 0) by (nonlinear_arith)
            requires
                selected + 1 == total,
                total > 0,
        ;
    } else {
        assert((selected + 1) % total == selected + 1) by (nonlinear_arith)
            requires
                0 <= selected + 1 < total,
        ;
    }
    assert(total % total == 0) by (nonlinear_arith)
        requires
            total > 0,
    ;
    if selected > 0 {
        assert(selected % total == selected) by (nonlinear_arith)
            requires
                0 <= selected < total,
        ;
    }
    assert((selected + total) % total == selected) by (nonlinear_arith)
        requires
            0 <= selected < total,
    ;
}

/// With nothing typed every entry is offered.
pub proof fn law_empty_query_offers_everything(palette: PaletteStateView)
    requires
        palette.query.len() == 0,
        !palette.query_truncated,
    ensures
        palette.matching() == all_entries(),
{
    assert(trimmed(palette.query) =~= Seq::<char>::empty());
    assert(lowercase(trimmed(palette.query)) =~= Seq::<char>::empty());
    lemma_empty_query(all_entries());
}

proof fn lemma_empty_query(entries: Seq<PaletteEntryView>)
    ensures
        found(Seq::empty(), entries) == entries,
    decreases entries.len(),
{
    if entries.len() > 0 {
        lemma_empty_query(entries.drop_last());
        assert(entries.drop_last().push(entries.last()) =~= entries);
    }
}

/// The palette shows no more entries than there are rows for, among them the
/// selected one; and it takes no more lines than there are rows.
pub proof fn law_palette_shows_the_selection(palette: PaletteStateView, rows: nat, width: nat)
    ensures
        palette_content(palette, rows, width).len() <= rows,
        rows > 1 && palette.matching().len() > 0 ==> ({
            let start = palette.first_shown((rows - 1) as nat);
            let selected = palette.selected_of(palette.matching().len() as int)->0;
            &&& palette.entries_shown((rows - 1) as nat).len() <= rows - 1
            &&& start <= selected < start + palette.entries_shown((rows - 1) as nat).len()
        }),
{
    lemma_matching_len(palette);
}

} // verus!
