//! What is shown, where, and in which colors.

use vstd::prelude::*;
use vstd::string::*;

use crate::text::{contains_part, lowercase, trimmed};
use crate::ui::input::{all_entries, PaletteEntryView};
use crate::ui::interaction::ListSurface;
use crate::ui::layout::{
    capped_sum, centered, floored_difference, greatest, inside, least, lies_within, limited,
    LayoutMode, Rect,
};
use crate::ui::line::raw_line;
use crate::ui::model::{
    short_view_label, view_at, view_label, CompactPanel, FocusRegion, NavigationItem,
    RenderModelView,
};
use crate::ui::palette::{
    found, is_found, padded, palette_content, palette_rows, query_line, PaletteStateView,
};
use crate::ui::theme::{capability_of, theme_for, variable, Color, ColorCapability, TerminalColorView};

verus! {

/// Each view has its place among the views.
pub proof fn law_a_view_has_its_place(index: int)
    requires
        0 <= index < 8,
    ensures
        view_at(index) == NavigationItem::Home <==> index == 0,
        view_at(index) == NavigationItem::Search <==> index == 1,
        view_at(index) == NavigationItem::Charts <==> index == 2,
        view_at(index) == NavigationItem::Podcasts <==> index == 3,
        view_at(index) == NavigationItem::Library <==> index == 4,
        view_at(index) == NavigationItem::Favorites <==> index == 5,
        view_at(index) == NavigationItem::History <==> index == 6,
        view_at(index) == NavigationItem::Settings <==> index == 7,
{
}

/// Each view has its name, and one that is shorter only where its name is long.
pub proof fn law_a_view_has_its_name(item: NavigationItem)
    ensures
        view_label(item) == "Home"@ <==> item == NavigationItem::Home,
        view_label(item) == "Search"@ <==> item == NavigationItem::Search,
        view_label(item) == "Charts"@ <==> item == NavigationItem::Charts,
        view_label(item) == "Podcasts"@ <==> item == NavigationItem::Podcasts,
        view_label(item) == "Library"@ <==> item == NavigationItem::Library,
        view_label(item) == "Favorites"@ <==> item == NavigationItem::Favorites,
        view_label(item) == "History"@ <==> item == NavigationItem::History,
        view_label(item) == "Settings"@ <==> item == NavigationItem::Settings,
        item == NavigationItem::Podcasts ==> short_view_label(item) == "Pods"@,
        item == NavigationItem::Favorites ==> short_view_label(item) == "Favs"@,
        item != NavigationItem::Podcasts && item != NavigationItem::Favorites
            ==> short_view_label(item) == view_label(item),
{
    reveal_strlit("Home");
    reveal_strlit("Search");
    reveal_strlit("Charts");
    reveal_strlit("Podcasts");
    reveal_strlit("Library");
    reveal_strlit("Favorites");
    reveal_strlit("History");
    reveal_strlit("Settings");
    assert("Home"@.len() == 4 && "Favorites"@.len() == 9);
    assert("Search"@.len() == 6 && "Search"@[0] == 'S');
    assert("Charts"@.len() == 6 && "Charts"@[0] == 'C');
    assert("Library"@.len() == 7 && "Library"@[0] == 'L');
    assert("History"@.len() == 7 && "History"@[0] == 'H');
    assert("Podcasts"@.len() == 8 && "Podcasts"@[0] == 'P');
    assert("Settings"@.len() == 8 && "Settings"@[0] == 'S');
}

/// A layout changes the focus only where there is room for nothing but the content, and
/// changes nothing else but which of the two panels is shown.
pub proof fn law_a_layout_keeps_what_it_can_show(model: RenderModelView)
    ensures
        model.normalized(LayoutMode::Wide) == model,
        model.normalized(LayoutMode::Compact) == (RenderModelView {
            compact_panel: model.normalized(LayoutMode::Compact).compact_panel,
            ..model
        }),
        model.normalized(LayoutMode::Tiny) == (RenderModelView {
            focus: FocusRegion::Content,
            compact_panel: CompactPanel::Content,
            ..model
        }),
        model.focus == FocusRegion::Navigation || model.focus == FocusRegion::Player
            ==> model.normalized(LayoutMode::Compact) == model,
{
}

/// What is typed into the search is shown as long as it is typed.
pub proof fn law_what_is_typed_is_shown(model: RenderModelView)
    ensures
        model.search_editing ==> model.draft() == Some(model.search_draft),
        !model.search_editing ==> model.draft() is None,
{
}

/// The wide layout needs 120 columns and 32 rows, the compact one 60 columns and 18 rows.
pub proof fn law_a_layout_needs_its_room(width: u16, height: u16)
    ensures
        LayoutMode::of(width, height) == LayoutMode::Wide <==> width >= 120 && height >= 32,
        LayoutMode::of(width, height) == LayoutMode::Tiny <==> width < 60 || height < 18,
{
}

/// A panel's border takes one cell on every side.
pub proof fn law_a_border_takes_one_cell(area: Rect)
    requires
        area.width >= 2,
        area.height >= 2,
        area.x + area.width <= u16::MAX,
        area.y + area.height <= u16::MAX,
    ensures
        inside(area).x == area.x + 1,
        inside(area).y == area.y + 1,
        inside(area).x + inside(area).width == area.x + area.width - 1,
        inside(area).y + inside(area).height == area.y + area.height - 1,
{
}

/// A window has its size where there is room for it, and stands in the middle: there is as
/// much to its left as to its right, or a cell less, and the same above and below.
pub proof fn law_a_window_stands_in_the_middle(area: Rect, width: u16, height: u16)
    requires
        0 < width,
        0 < height,
        area.width > 0,
        area.height > 0,
        area.x + area.width <= u16::MAX,
        area.y + area.height <= u16::MAX,
    ensures
        ({
            let window = centered(area, width, height);
            let left = window.x - area.x;
            let right = (area.x + area.width) - (window.x + window.width);
            let above = window.y - area.y;
            let below = (area.y + area.height) - (window.y + window.height);
            &&& left == right || left + 1 == right
            &&& above == below || above + 1 == below
            &&& width + 2 <= area.width ==> window.width == width
            &&& height + 2 <= area.height ==> window.height == height
            &&& width + 2 > area.width && area.width > 2 ==> window.width + 2 == area.width
            &&& height + 2 > area.height && area.height > 2 ==> window.height + 2 == area.height
        }),
{
}

/// Whether a cell belongs to an area.
pub open spec fn holds_cell(area: Rect, column: int, row: int) -> bool {
    area.x <= column < area.x + area.width && area.y <= row < area.y + area.height
}

/// An area lies within another where all its cells do.
pub proof fn law_what_lies_within_shares_its_cells(inner: Rect, outer: Rect)
    requires
        inner.width > 0,
        inner.height > 0,
        inner.x + inner.width <= u16::MAX,
        inner.y + inner.height <= u16::MAX,
        outer.x + outer.width <= u16::MAX,
        outer.y + outer.height <= u16::MAX,
    ensures
        lies_within(inner, outer) <==> forall|column: int, row: int| #[trigger]
            holds_cell(inner, column, row) ==> holds_cell(outer, column, row),
{
    if forall|column: int, row: int| #[trigger]
        holds_cell(inner, column, row) ==> holds_cell(outer, column, row) {
        assert(holds_cell(inner, inner.x as int, inner.y as int));
        assert(holds_cell(
            inner,
            inner.x + inner.width - 1,
            inner.y + inner.height - 1,
        ));
    }
}

/// Numbers are compared and counted as they are.
pub proof fn law_numbers_are_compared_as_they_are(left: int, right: int)
    ensures
        least(left, right) <= left && least(left, right) <= right,
        greatest(left, right) >= left && greatest(left, right) >= right,
        least(left, right) + greatest(left, right) == left + right,
        left >= right ==> floored_difference(left, right) + right == left,
        left <= right ==> floored_difference(left, right) == 0,
        0 <= left + right <= u16::MAX ==> capped_sum(left, right) == left + right,
        left + right > u16::MAX ==> capped_sum(left, right) == u16::MAX,
{
}

/// No color is shown where none can be or shall be; else the variables of the terminal say
/// how many there are.
pub proof fn law_the_terminal_tells_its_colors(terminal: TerminalColorView)
    ensures
        ({
            let term = variable(terminal.term);
            let colorterm = variable(terminal.colorterm);
            let plain = !terminal.output_is_terminal || terminal.no_color || term == "dumb"@;
            let many = contains_part(term, "truecolor"@) || contains_part(term, "24bit"@)
                || contains_part(term, "direct"@) || contains_part(colorterm, "truecolor"@)
                || contains_part(colorterm, "24bit"@) || contains_part(colorterm, "direct"@);
            let capability = capability_of(terminal);
            &&& capability == ColorCapability::Monochrome <==> plain
            &&& capability == ColorCapability::TrueColor <==> !plain && many
            &&& capability == ColorCapability::Ansi256 <==> !plain && !many && contains_part(
                term,
                "256color"@,
            )
        }),
        terminal.term matches Some(term) ==> variable(terminal.term) == lowercase(term),
        terminal.term is None ==> variable(terminal.term).len() == 0,
{
}

/// A theme has its colors: each the same color as far as it can be shown, and none where
/// none can be.
pub proof fn law_a_theme_has_its_colors(capability: ColorCapability)
    ensures
        ({
            let theme = theme_for(capability);
            &&& theme.capability == capability
            &&& capability == ColorCapability::TrueColor ==> {
                &&& theme.background == Color::Rgb(10, 14, 20)
                &&& theme.foreground == Color::Rgb(224, 231, 239)
                &&& theme.muted == Color::Rgb(126, 142, 158)
                &&& theme.accent == Color::Rgb(100, 210, 255)
                &&& theme.selection == Color::Rgb(255, 204, 102)
                &&& theme.warning == Color::Rgb(255, 128, 128)
            }
            &&& capability == ColorCapability::Ansi256 ==> {
                &&& theme.background == Color::Indexed(234)
                &&& theme.foreground == Color::Indexed(254)
                &&& theme.muted == Color::Indexed(245)
                &&& theme.accent == Color::Indexed(81)
                &&& theme.selection == Color::Indexed(221)
                &&& theme.warning == Color::Indexed(210)
            }
            &&& capability == ColorCapability::Basic ==> {
                &&& theme.background == Color::Black
                &&& theme.foreground == Color::White
                &&& theme.muted == Color::DarkGray
                &&& theme.accent == Color::Cyan
                &&& theme.selection == Color::Yellow
                &&& theme.warning == Color::LightRed
            }
            &&& capability == ColorCapability::Monochrome ==> {
                &&& theme.background == Color::Reset
                &&& theme.foreground == Color::Reset
                &&& theme.muted == Color::Reset
                &&& theme.accent == Color::Reset
                &&& theme.selection == Color::Reset
                &&& theme.warning == Color::Reset
            }
        }),
{
}

/// Whether a command is called by what was typed: the words, in any case, stand in its name
/// or among its keys.
pub open spec fn is_called(entry: PaletteEntryView, typed: Seq<char>) -> bool {
    contains_part(lowercase(entry.label), lowercase(trimmed(typed))) || contains_part(
        lowercase(entry.shortcut),
        lowercase(trimmed(typed)),
    )
}

proof fn lemma_found_is_filtered(
    query: Seq<char>,
    entries: Seq<PaletteEntryView>,
    wanted: spec_fn(PaletteEntryView) -> bool,
)
    requires
        forall|entry: PaletteEntryView| #[trigger] wanted(entry) <==> is_found(query, entry),
    ensures
        found(query, entries) == entries.filter(wanted),
    decreases entries.len(),
{
    reveal(Seq::filter);
    if entries.len() > 0 {
        lemma_found_is_filtered(query, entries.drop_last(), wanted);
        assert(wanted(entries.last()) <==> is_found(query, entries.last()));
    }
}

/// The palette offers the commands that are called by what was typed, in their order, and
/// none where too much was typed.
pub proof fn law_the_palette_offers_what_is_called(palette: PaletteStateView)
    ensures
        palette.query_truncated ==> palette.matching().len() == 0,
        !palette.query_truncated ==> palette.matching() == all_entries().filter(
            |entry: PaletteEntryView| is_called(entry, palette.query),
        ),
{
    let query = lowercase(trimmed(palette.query));
    let wanted = |entry: PaletteEntryView| is_called(entry, palette.query);
    assert forall|entry: PaletteEntryView| #[trigger] wanted(entry) <==> is_found(
        query,
        entry,
    ) by {
        if query.len() == 0 {
            let label = lowercase(entry.label);
            assert(label.subrange(0, 0) =~= query);
            assert(crate::text::stands_at(label, query, 0));
        }
    }
    lemma_found_is_filtered(query, all_entries(), wanted);
}

/// The selection goes down to the next command and up to the one before, and from each end
/// to the other.
pub proof fn law_the_palette_moves_as_it_is_told(palette: PaletteStateView)
    requires
        0 < palette.matching().len() <= usize::MAX,
        palette.selected < palette.matching().len(),
    ensures
        palette.selected + 1 < palette.matching().len() ==> palette.moved_by(1).selected
            == palette.selected + 1,
        palette.selected + 1 == palette.matching().len() ==> palette.moved_by(1).selected == 0,
        palette.selected > 0 ==> palette.moved_by(-1).selected == palette.selected - 1,
        palette.selected == 0 ==> palette.moved_by(-1).selected == palette.matching().len() - 1,
        palette.moved_by(1).query == palette.query,
        palette.moved_by(-1).query == palette.query,
{
    let total = palette.matching().len() as int;
    let next = palette.selected + 1;
    if next == total {
        assert(next % total == 0) by (nonlinear_arith)
            requires
                next == total,
                total > 0,
        ;
    } else {
        assert(next % total == next) by (nonlinear_arith)
            requires
                0 <= next < total,
        ;
    }
}

/// A text is filled up with blanks as far as its column reaches.
pub proof fn law_columns_are_filled_with_blanks(text: Seq<char>, column: nat, index: int)
    requires
        0 <= index < padded(text, column).len(),
    ensures
        padded(text, column).len() == if text.len() < column {
            column
        } else {
            text.len()
        },
        padded(text, column)[index] == if index < text.len() {
            text[index]
        } else {
            ' '
        },
    decreases column - text.len(),
{
    if text.len() < column {
        law_columns_are_filled_with_blanks(text.push(' '), column, index);
    }
}

/// A row of the palette shows the command that a click on it takes, with its keys in a
/// column of their own, and marked where it is the selected one; the rows stand in order
/// below what was typed.
pub proof fn law_the_palette_shows_what_a_click_takes(
    palette: PaletteStateView,
    rows: nat,
    width: nat,
    index: int,
)
    requires
        1 < rows <= usize::MAX,
        palette.matching().len() <= usize::MAX,
        0 <= index < palette_rows(palette, rows).len(),
    ensures
        ({
            let row = palette_rows(palette, rows)[index];
            let matching = palette.matching();
            let selected = if palette.selected < matching.len() {
                palette.selected as int
            } else {
                matching.len() - 1
            };
            let entry = matching[row.stable_index as int];
            &&& row.line_index == index + 1
            &&& row.surface == ListSurface::CommandPalette
            &&& row.stable_index < matching.len()
            &&& row.stable_index == palette_rows(palette, rows)[0].stable_index + index
            &&& palette_content(palette, rows, width)[row.line_index as int] == raw_line(
                (if row.stable_index == selected {
                    "▶"@
                } else {
                    " "@
                }) + " "@ + padded(entry.label, 28) + " "@ + entry.shortcut,
            )
        }),
        palette_content(palette, rows, width).len() == palette_rows(palette, rows).len() + 1,
        palette_content(palette, rows, width)[0] == query_line(palette, width),
{
}

/// The palette shows as many commands as it has rows for.
pub proof fn law_the_palette_fills_its_rows(palette: PaletteStateView, rows: nat)
    requires
        1 < rows <= usize::MAX,
        0 < palette.matching().len() <= usize::MAX,
    ensures
        palette_rows(palette, rows).len() == if palette.matching().len() < rows - 1 {
            palette.matching().len() as int
        } else {
            rows - 1
        },
{
}

/// What was typed is shown above the commands, with a sign where it was too much.
pub proof fn law_the_palette_shows_what_was_typed(palette: PaletteStateView, width: nat)
    ensures
        palette.query_truncated ==> query_line(palette, width) == raw_line(
            crate::ui::cells::truncated("Query: "@ + palette.query + "…"@, width),
        ),
        !palette.query_truncated ==> query_line(palette, width) == raw_line(
            crate::ui::cells::truncated("Query: "@ + palette.query, width),
        ),
        palette.matching().len() == 0 ==> palette_content(palette, 2, width)[1] == raw_line(
            "No matching commands"@,
        ),
{
    reveal_strlit("");
    assert("Query: "@ + palette.query + ""@ =~= "Query: "@ + palette.query);
}

} // verus!
