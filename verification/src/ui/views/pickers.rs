//! Windows to choose from, and the help window.

use vstd::prelude::*;
use vstd::string::*;

use crate::domain::{clone_texts, texts};
use crate::ui::interaction::ListSurface;
use crate::ui::layout::{floored_difference, least, smaller_count, MAX_RENDERED_ROWS};
use crate::ui::line::{line_views, raw_line, Line, LineView};
use crate::ui::model::{
    BrowserPickerState, BrowserPickerView, CountryChoiceView, CountryPickerState, CountryPickerView,
};
use crate::ui::viewport::{
    dataset_key, lemma_shown_rows, position_in, position_of_text, shown, target_views,
    DatasetKeyView, SelectionViewport, ViewportView,
};
use crate::ui::views::list::{
    blank, is_picture, marker, marker_text, push_rows, row_lines, row_targets, ListLines,
    ListPicture,
};

verus! {

/// How many lines of help there are.
pub const HELP_LINE_COUNT: usize = 13;

/// A line of help.
pub open spec fn help_text(index: int) -> Seq<char> {
    if index == 0 {
        "Navigation     ↑ ↓ ← → or h j k l"@
    } else if index == 1 {
        "Search         /"@
    } else if index == 2 {
        "Commands       :"@
    } else if index == 3 {
        "Play / pause   Space · F8 · Media Play/Pause"@
    } else if index == 4 {
        "Track          n/F9/Media Next · p/F7/Media Previous"@
    } else if index == 5 {
        "Seek           Shift+Left back · Shift+Right forward"@
    } else if index == 6 {
        "Volume         + / -"@
    } else if index == 7 {
        "Queue modes    s shuffle · r repeat · e radio"@
    } else if index == 8 {
        "Queue order    [ up · ] down"@
    } else if index == 9 {
        "Data           a connect · m more · d recheck"@
    } else if index == 10 {
        "Region         c country"@
    } else if index == 11 {
        "Close          Esc"@
    } else {
        "Quit           q or Ctrl-c"@
    }
}

/// The lines of help from `scroll` on, so far that the last line stays at the
/// bottom.
pub open spec fn help_page(scroll: nat, available_rows: nat) -> Seq<LineView> {
    let start = least(
        scroll as int,
        floored_difference(HELP_LINE_COUNT as int, available_rows as int),
    );
    Seq::new(
        least(available_rows as int, HELP_LINE_COUNT - start) as nat,
        |offset: int| raw_line(help_text(start + offset)),
    )
}

fn help_line(index: usize) -> (text: &'static str)
    ensures
        text@ == help_text(index as int),
{
    match index {
        0 => "Navigation     ↑ ↓ ← → or h j k l",
        1 => "Search         /",
        2 => "Commands       :",
        3 => "Play / pause   Space · F8 · Media Play/Pause",
        4 => "Track          n/F9/Media Next · p/F7/Media Previous",
        5 => "Seek           Shift+Left back · Shift+Right forward",
        6 => "Volume         + / -",
        7 => "Queue modes    s shuffle · r repeat · e radio",
        8 => "Queue order    [ up · ] down",
        9 => "Data           a connect · m more · d recheck",
        10 => "Region         c country",
        11 => "Close          Esc",
        _ => "Quit           q or Ctrl-c",
    }
}

/// The lines of the help window.
pub fn help_lines(scroll: usize, available_rows: usize) -> (lines: Vec<Line>)
    ensures
        line_views(lines@) == help_page(scroll as nat, available_rows as nat),
{
    let start: usize = smaller_count(scroll, HELP_LINE_COUNT.saturating_sub(available_rows));
    let count: usize = smaller_count(available_rows, HELP_LINE_COUNT - start);
    let mut lines: Vec<Line> = Vec::new();
    let mut offset: usize = 0;
    while offset < count
        invariant
            start + count <= HELP_LINE_COUNT,
            offset <= count,
            lines.len() == offset,
            forall|i: int|
                0 <= i < offset ==> (#[trigger] lines@[i])@ == raw_line(help_text(start + i)),
        decreases count - offset,
    {
        lines.push(Line::from_text(help_line(start + offset).to_owned()));
        offset = offset + 1;
    }
    assert(line_views(lines@) =~= help_page(scroll as nat, available_rows as nat));
    lines
}

/// The row of the selected browser.
pub open spec fn selected_browser(picker: BrowserPickerView) -> int {
    match position_in(picker.choices, picker.selected_browser) {
        Some(position) => position,
        None => 0,
    }
}

/// The lines of the browser picker.
pub open spec fn browser_picture(
    viewport: ViewportView,
    picker: BrowserPickerView,
    available_rows: usize,
    width: nat,
) -> ListPicture {
    let selected = selected_browser(picker);
    let (after, range) = shown(
        viewport,
        picker.choices.len() as usize,
        Some(selected as usize),
        least(available_rows as int, MAX_RENDERED_ROWS as int) as usize,
        DatasetKeyView::Listed(picker.choices),
    );
    let count = (range.end - range.start) as nat;
    ListPicture {
        viewport: after,
        lines: row_lines(
            Seq::new(
                count,
                |offset: int|
                    marker(range.start + offset == selected) + " "@ + picker.choices[range.start
                        + offset],
            ),
            width,
        ),
        targets: row_targets(after, count, 0, ListSurface::BrowserPicker, range.start as int),
    }
}

/// The lines of the browser picker.
pub fn browser_picker_lines_with_viewport_and_targets(
    picker: &BrowserPickerState,
    available_rows: usize,
    available_width: usize,
    viewport_memory: &mut SelectionViewport,
) -> (drawn: ListLines)
    ensures
        is_picture(
            drawn,
            final(viewport_memory)@,
            browser_picture(
                old(viewport_memory)@,
                picker@,
                available_rows,
                available_width as nat,
            ),
        ),
{
    let selected: usize = match position_of_text(&picker.choices, &picker.selected_browser) {
        Some(position) => position,
        None => 0,
    };
    let total: usize = picker.choices.len();
    assert(picker@.choices.len() == total);
    let row_limit: usize = smaller_count(available_rows, MAX_RENDERED_ROWS);
    let key = dataset_key(clone_texts(&picker.choices));
    proof {
        lemma_shown_rows(viewport_memory@, total, Some(selected), row_limit, key@);
    }
    let range = viewport_memory.visible_range(total, Some(selected), row_limit, key);
    let ghost expected = Seq::new(
        (range.end - range.start) as nat,
        |offset: int|
            marker(range.start + offset == selected) + " "@ + picker@.choices[range.start
                + offset],
    );
    let mut rows: Vec<String> = Vec::new();
    let mut index: usize = range.start;
    while index < range.end
        invariant
            range.start <= index <= range.end <= picker.choices.len(),
            rows.len() == index - range.start,
            forall|i: int|
                0 <= i < rows.len() ==> (#[trigger] rows@[i])@ == marker(
                    range.start + i == selected,
                ) + " "@ + picker@.choices[range.start + i],
        decreases range.end - index,
    {
        let mut row = marker_text(index == selected).to_owned();
        row.append(" ");
        row.append(picker.choices[index].as_str());
        assert(picker@.choices[index as int] == picker.choices@[index as int]@);
        rows.push(row);
        index = index + 1;
    }
    let mut drawn = blank();
    push_rows(
        &mut drawn,
        viewport_memory,
        &rows,
        ListSurface::BrowserPicker,
        range.start,
        available_width,
    );
    proof {
        assert(texts(rows@) =~= expected);
        assert(line_views(drawn.lines@) =~= row_lines(expected, available_width as nat));
        assert(target_views(drawn.targets@) =~= row_targets(
            viewport_memory@,
            (range.end - range.start) as nat,
            0,
            ListSurface::BrowserPicker,
            range.start as int,
        ));
    }
    drawn
}

/// The regions of countries.
pub open spec fn regions_of(choices: Seq<CountryChoiceView>) -> Seq<Seq<char>> {
    choices.map_values(|choice: CountryChoiceView| choice.region)
}

/// A row of the country picker.
pub open spec fn country_row(picker: CountryPickerView, index: int) -> Seq<char> {
    marker(picker.selected_index == index) + " "@ + picker.choices[index].label + " · "@
        + picker.choices[index].region
}

/// The lines of the country picker.
pub open spec fn country_picture(
    viewport: ViewportView,
    picker: CountryPickerView,
    available_rows: usize,
    width: nat,
) -> ListPicture {
    let (after, range) = shown(
        viewport,
        picker.choices.len() as usize,
        Some(picker.selected_index),
        least(available_rows as int, MAX_RENDERED_ROWS as int) as usize,
        DatasetKeyView::Listed(regions_of(picker.choices)),
    );
    let count = (range.end - range.start) as nat;
    ListPicture {
        viewport: after,
        lines: row_lines(
            Seq::new(count, |offset: int| country_row(picker, range.start + offset)),
            width,
        ),
        targets: row_targets(after, count, 0, ListSurface::CountryPicker, range.start as int),
    }
}

fn regions(picker: &CountryPickerState) -> (list: Vec<String>)
    ensures
        texts(list@) == regions_of(picker@.choices),
{
    let mut list: Vec<String> = Vec::new();
    let mut index: usize = 0;
    while index < picker.choices.len()
        invariant
            index <= picker.choices.len(),
            list.len() == index,
            forall|i: int| 0 <= i < index ==> (#[trigger] list@[i])@ == picker.choices@[i].region@,
        decreases picker.choices.len() - index,
    {
        list.push(picker.choices[index].region.as_str().to_owned());
        index = index + 1;
    }
    assert(texts(list@) =~= regions_of(picker@.choices));
    list
}

/// The lines of the country picker.
pub fn country_picker_lines_with_viewport_and_targets(
    picker: &CountryPickerState,
    available_rows: usize,
    available_width: usize,
    viewport_memory: &mut SelectionViewport,
) -> (drawn: ListLines)
    ensures
        is_picture(
            drawn,
            final(viewport_memory)@,
            country_picture(
                old(viewport_memory)@,
                picker@,
                available_rows,
                available_width as nat,
            ),
        ),
{
    let total: usize = picker.choices.len();
    assert(picker@.choices.len() == total);
    let row_limit: usize = smaller_count(available_rows, MAX_RENDERED_ROWS);
    let key = dataset_key(regions(picker));
    proof {
        lemma_shown_rows(
            viewport_memory@,
            total,
            Some(picker.selected_index),
            row_limit,
            key@,
        );
    }
    let range = viewport_memory.visible_range(
        total,
        Some(picker.selected_index),
        row_limit,
        key,
    );
    let mut rows: Vec<String> = Vec::new();
    let mut index: usize = range.start;
    while index < range.end
        invariant
            range.start <= index <= range.end <= picker.choices.len(),
            rows.len() == index - range.start,
            forall|i: int|
                0 <= i < rows.len() ==> (#[trigger] rows@[i])@ == country_row(
                    picker@,
                    range.start + i,
                ),
        decreases range.end - index,
    {
        let mut row = marker_text(picker.selected_index == index).to_owned();
        row.append(" ");
        row.append(picker.choices[index].label.as_str());
        row.append(" · ");
        row.append(picker.choices[index].region.as_str());
        assert(picker@.choices[index as int] == picker.choices@[index as int]@);
        rows.push(row);
        index = index + 1;
    }
    let mut drawn = blank();
    push_rows(
        &mut drawn,
        viewport_memory,
        &rows,
        ListSurface::CountryPicker,
        range.start,
        available_width,
    );
    proof {
        let expected = Seq::new(
            (range.end - range.start) as nat,
            |offset: int| country_row(picker@, range.start + offset),
        );
        assert(texts(rows@) =~= expected);
        assert(line_views(drawn.lines@) =~= row_lines(expected, available_width as nat));
        assert(target_views(drawn.targets@) =~= row_targets(
            viewport_memory@,
            (range.end - range.start) as nat,
            0,
            ListSurface::CountryPicker,
            range.start as int,
        ));
    }
    drawn
}

/// The pickers and the help take no more lines than there are rows for.
pub proof fn law_pickers_fit(
    viewport: ViewportView,
    browsers: BrowserPickerView,
    countries: CountryPickerView,
    scroll: nat,
    available_rows: usize,
    width: nat,
)
    ensures
        browser_picture(viewport, browsers, available_rows, width).lines.len() <= available_rows,
        country_picture(viewport, countries, available_rows, width).lines.len() <= available_rows,
        help_page(scroll, available_rows as nat).len() <= available_rows,
{
    let rows = least(available_rows as int, MAX_RENDERED_ROWS as int) as usize;
    lemma_shown_rows(
        viewport,
        browsers.choices.len() as usize,
        Some(selected_browser(browsers) as usize),
        rows,
        DatasetKeyView::Listed(browsers.choices),
    );
    lemma_shown_rows(
        viewport,
        countries.choices.len() as usize,
        Some(countries.selected_index),
        rows,
        DatasetKeyView::Listed(regions_of(countries.choices)),
    );
}

/// However far the help is scrolled, its page is full as long as there are lines
/// to fill it.
pub proof fn law_help_page_is_full(scroll: nat, available_rows: nat)
    ensures
        help_page(scroll, available_rows).len() == least(
            available_rows as int,
            HELP_LINE_COUNT as int,
        ),
{
}

} // verus!
