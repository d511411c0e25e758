//! What the progress bar and the bars of the spectrum show.

use vstd::prelude::*;
use vstd::string::*;

use crate::domain::PlaybackStatus;
use crate::ui::bars::{
    band_channel, band_color, band_style, bar_color, bar_eighths, bar_glyph, between,
    capped_product, level_intensity, mixed_channel, peak, progress_bar, progress_cell_color,
    progress_glyph, resampled, sample_end, sample_start, spectrum_rows,
};
use crate::ui::motion::ProgressView;
use crate::ui::spectrum::SpectrumPresentationView;
use crate::ui::state::AppState;
use crate::ui::theme::{Color, ColorCapability, Theme};

verus! {

/// Whether the band `band` of `bands` and the column `column` of `columns` have a part of
/// the spectrum in common, where both divide it evenly from the left.
pub open spec fn overlap(band: int, bands: int, column: int, columns: int) -> bool {
    band * columns < (column + 1) * bands && column * bands < (band + 1) * columns
}

/// Whether a level is the highest among the bands that have a part in common with a
/// column.
pub open spec fn is_highest_below(
    levels: Seq<u8>,
    column: int,
    columns: int,
    level: u8,
) -> bool {
    &&& exists|band: int|
        0 <= band < levels.len() && #[trigger] levels[band] == level && overlap(
            band,
            levels.len() as int,
            column,
            columns,
        )
    &&& forall|band: int|
        0 <= band < levels.len() && overlap(band, levels.len() as int, column, columns)
            ==> #[trigger] levels[band] <= level
}

proof fn lemma_peak_is_reached(levels: Seq<u8>, start: int, end: int)
    requires
        0 <= start < end <= levels.len(),
    ensures
        exists|band: int| start <= band < end && #[trigger] levels[band] == peak(levels, start, end),
        forall|band: int|
            start <= band < end ==> #[trigger] levels[band] <= peak(levels, start, end),
    decreases end - start,
{
    reveal_with_fuel(peak, 2);
    if start < end - 1 {
        lemma_peak_is_reached(levels, start, end - 1);
        if peak(levels, start, end) == levels[end - 1] {
            assert(levels[end - 1] == peak(levels, start, end));
        } else {
            let band = choose|band: int|
                start <= band < end - 1 && #[trigger] levels[band] == peak(levels, start, end - 1);
            assert(levels[band] == peak(levels, start, end));
        }
    } else {
        assert(levels[start] == peak(levels, start, end));
    }
}

proof fn lemma_sample_is_overlap(band: int, bands: int, column: int, columns: int)
    requires
        0 <= band < bands,
        0 <= column < columns,
        columns * bands <= usize::MAX,
    ensures
        sample_start(bands, column, columns) <= band < sample_end(bands, column, columns)
            <==> overlap(band, bands, column, columns),
        0 <= sample_start(bands, column, columns),
{
    assert(0 <= column * bands <= columns * bands && 0 <= (column + 1) * bands <= columns * bands)
        by (nonlinear_arith)
        requires
            0 <= column < columns,
            0 < bands,
    ;
    let from = column * bands;
    let to = (column + 1) * bands;
    assert(from / columns <= band <==> from < (band + 1) * columns) by (nonlinear_arith)
        requires
            0 < columns,
            0 <= from,
    ;
    assert(band < (to + columns - 1) / columns <==> band * columns < to) by (nonlinear_arith)
        requires
            0 < columns,
            0 <= to,
    ;
    assert(0 <= from / columns) by (nonlinear_arith)
        requires
            0 < columns,
            0 <= from,
    ;
}

/// Brought to another number of columns, a spectrum keeps its order: each column shows
/// the highest of the bands that lie where it lies.
pub proof fn law_columns_show_the_highest_band(levels: Seq<u8>, column: int, columns: nat)
    requires
        0 <= column < columns,
        levels.len() > 0,
        columns * levels.len() <= usize::MAX,
    ensures
        resampled(levels, columns).len() == columns,
        is_highest_below(levels, column, columns as int, resampled(levels, columns)[column]),
        columns == levels.len() ==> resampled(levels, columns)[column] == levels[column],
{
    let bands = levels.len() as int;
    let start = sample_start(bands, column, columns as int);
    let end = sample_end(bands, column, columns as int);
    assert forall|band: int| 0 <= band < bands implies (start <= band < end <==> overlap(
        band,
        bands,
        column,
        columns as int,
    )) && 0 <= start by {
        lemma_sample_is_overlap(band, bands, column, columns as int);
    }
    let inner = column * bands / (columns as int);
    assert(0 <= inner < bands && inner * columns <= column * bands < (inner + 1) * columns)
        by (nonlinear_arith)
        requires
            0 <= column < columns,
            0 < bands,
            inner == column * bands / (columns as int),
    ;
    assert((column + 1) * bands == column * bands + bands) by (nonlinear_arith);
    assert(overlap(inner, bands, column, columns as int));
    assert(start <= inner < end);
    assert(end <= bands);
    lemma_peak_is_reached(levels, start, end);
    let level = peak(levels, start, end);
    let reached = choose|band: int| start <= band < end && #[trigger] levels[band] == level;
    assert(levels[reached] == level);
    if columns == bands {
        assert forall|band: int| 0 <= band < bands && overlap(band, bands, column, bands) implies band
            == column by {
            assert(band < column + 1 && column < band + 1) by (nonlinear_arith)
                requires
                    band * bands < (column + 1) * bands,
                    column * bands < (band + 1) * bands,
                    0 < bands,
            ;
        }
    }
}

/// How many eighths of a cell a column of `rows` cells is filled from below: in
/// proportion to its level, and never not at all.
pub open spec fn column_height(level: u8, rows: int) -> int {
    if level == 0 {
        1
    } else {
        (level * rows * 8 + 23) / 24
    }
}

/// Whether a cell shows so many eighths, filled from below. The block elements stand in
/// this order.
pub open spec fn shows_from_below(content: Seq<char>, eighths: int) -> bool {
    &&& content.len() == 1
    &&& if eighths <= 0 {
        content[0] == ' '
    } else if eighths >= 8 {
        content[0] as int == 0x2588
    } else {
        content[0] as int == 0x2580 + eighths
    }
}

proof fn lemma_bar_glyph(eighths: int)
    ensures
        shows_from_below(bar_glyph(eighths), eighths),
{
    reveal_strlit(" ");
    reveal_strlit("▁");
    reveal_strlit("▂");
    reveal_strlit("▃");
    reveal_strlit("▄");
    reveal_strlit("▅");
    reveal_strlit("▆");
    reveal_strlit("▇");
    reveal_strlit("█");
}

proof fn lemma_small_product(left: int, right: int)
    requires
        left * right <= usize::MAX,
    ensures
        capped_product(left, right) == left * right,
{
}

proof fn lemma_bar_eighths(level: u8, rows: int, row: int)
    requires
        0 <= row < rows,
        2_040 * rows <= usize::MAX,
    ensures
        ({
            let above = column_height(level, rows) - 8 * (rows - 1 - row);
            let shown = bar_eighths(level, rows, row);
            &&& above <= 0 ==> shown == 0
            &&& above >= 8 ==> shown == 8
            &&& 0 < above < 8 ==> shown == above
        }),
{
    assert(0 <= level * (rows * 8) <= 255 * (rows * 8) && level * (rows * 8) == level * rows * 8)
        by (nonlinear_arith)
        requires
            0 <= level <= 255,
            0 < rows,
    ;
    assert(level > 0 ==> level * rows * 8 >= 8) by (nonlinear_arith)
        requires
            0 <= level,
            0 < rows,
    ;
    assert(level == 0 ==> level * (rows * 8) == 0) by (nonlinear_arith);
    lemma_small_product(rows, 8);
    lemma_small_product(level as int, rows * 8);
    lemma_small_product(rows - row - 1, 8);
}

/// The spectrum has its lowest band at the left and its highest at the right: each
/// column is filled from below as high as the highest of the bands that lie where it
/// lies. Where there is a column for each band, it shows that band alone. No more than
/// 64 columns are used.
pub proof fn law_columns_are_as_high_as_their_bands(
    presentation: SpectrumPresentationView,
    rows: nat,
    width: nat,
    columns: nat,
    theme: Theme,
    row: int,
    column: int,
)
    requires
        presentation.frame matches Some(frame) && frame@.len() > 0 && 64 * frame@.len()
            <= usize::MAX,
        0 <= row < rows,
        2_040 * rows <= usize::MAX,
        columns == if width < 64 {
            width
        } else {
            64
        },
        0 <= column < columns,
    ensures
        ({
            let levels = presentation.frame->0@;
            let lines = spectrum_rows(presentation, rows, width, theme);
            let content = lines[row].spans[column].content;
            &&& lines.len() == rows
            &&& lines[row].spans.len() == columns
            &&& exists|level: u8|
                #[trigger] is_highest_below(levels, column, columns as int, level)
                    && shows_from_below(
                    content,
                    column_height(level, rows as int) - 8 * (rows - 1 - row),
                )
            &&& levels.len() == columns ==> shows_from_below(
                content,
                column_height(levels[column], rows as int) - 8 * (rows - 1 - row),
            )
        }),
{
    let levels = presentation.frame->0@;
    let level = resampled(levels, columns)[column];
    assert(columns * levels.len() <= usize::MAX) by (nonlinear_arith)
        requires
            columns <= 64,
            64 * levels.len() <= usize::MAX,
    ;
    law_columns_show_the_highest_band(levels, column, columns);
    lemma_bar_eighths(level, rows as int, row);
    lemma_bar_glyph(bar_eighths(level, rows as int, row));
    assert(is_highest_below(levels, column, columns as int, level));
}

/// A louder band is shown no lower, in every row.
pub proof fn law_louder_is_higher(quiet: u8, loud: u8, rows: int)
    requires
        quiet <= loud,
        0 < rows,
    ensures
        1 <= column_height(quiet, rows) <= column_height(loud, rows),
        loud == 24 ==> column_height(loud, rows) == 8 * rows,
{
    assert(0 <= quiet * rows * 8 <= loud * rows * 8) by (nonlinear_arith)
        requires
            0 <= quiet <= loud,
            0 < rows,
    ;
    assert(quiet > 0 ==> quiet * rows * 8 >= 8) by (nonlinear_arith)
        requires
            0 <= quiet,
            0 < rows,
    ;
    assert(loud > 0 ==> loud * rows * 8 >= 8) by (nonlinear_arith)
        requires
            0 <= loud,
            0 < rows,
    ;
}

/// With few colors the left third of a spectrum that plays is in the accent, the middle
/// third in the color of selections and the right third in that of text; what is silent
/// is muted, and so is all of it while it is paused or has failed.
pub proof fn law_few_colors_go_from_left_to_right(
    theme: Theme,
    capability: ColorCapability,
    column: int,
    columns: int,
    level: u8,
    muted: bool,
)
    requires
        capability == ColorCapability::Ansi256 || capability == ColorCapability::Basic,
        0 <= column < columns,
        3 * columns <= usize::MAX,
    ensures
        ({
            let color = band_style(theme, capability, column, columns, level, muted).fg;
            &&& muted || level == 0 ==> color == Some(theme.muted)
            &&& !muted && level > 0 && 3 * column < columns ==> color == Some(theme.accent)
            &&& !muted && level > 0 && columns <= 3 * column < 2 * columns ==> color == Some(
                theme.selection,
            )
            &&& !muted && level > 0 && 2 * columns <= 3 * column ==> color == Some(
                theme.foreground,
            )
        }),
{
    let third = column * 3 / columns;
    assert(column * 3 < columns ==> third == 0) by (nonlinear_arith)
        requires
            0 <= column < columns,
            third == column * 3 / columns,
    ;
    assert(columns <= column * 3 < 2 * columns ==> third == 1) by (nonlinear_arith)
        requires
            0 <= column < columns,
            third == column * 3 / columns,
    ;
    assert(2 * columns <= column * 3 ==> third >= 2) by (nonlinear_arith)
        requires
            0 <= column < columns,
            third == column * 3 / columns,
    ;
}

proof fn lemma_mixed_with_black(channel: u8, dark: int, bright: int)
    requires
        0 <= dark <= bright <= 100,
    ensures
        mixed_channel(0, channel, dark, 100) <= mixed_channel(0, channel, bright, 100),
        mixed_channel(0, channel, 100, 100) == channel,
{
    assert(0 <= channel * dark <= channel * bright <= channel * 100) by (nonlinear_arith)
        requires
            0 <= channel,
            0 <= dark <= bright <= 100,
    ;
}

/// With all colors the lowest band at full level is exactly in the accent, and louder
/// bands are no darker than quieter ones.
pub proof fn law_true_colors_grow_with_the_level(
    theme: Theme,
    column: int,
    columns: int,
    quiet: u8,
    loud: u8,
)
    requires
        theme.accent is Rgb,
        theme.foreground is Rgb,
        quiet <= loud,
        0 <= column < columns,
    ensures
        ({
            let low = band_style(
                theme,
                ColorCapability::TrueColor,
                column,
                columns,
                quiet,
                false,
            ).fg;
            let high = band_style(
                theme,
                ColorCapability::TrueColor,
                column,
                columns,
                loud,
                false,
            ).fg;
            &&& low matches Some(Color::Rgb(r, g, b)) && high matches Some(Color::Rgb(s, h, c))
                && r <= s && g <= h && b <= c
            &&& column == 0 && loud >= 24 ==> high == Some(theme.accent)
        }),
{
    if let (Color::Rgb(r, g, b), Color::Rgb(s, h, c)) = (theme.accent, theme.foreground) {
        let (dark, bright) = (level_intensity(quiet), level_intensity(loud));
        lemma_mixed_with_black(band_channel(r, s, column, columns), dark, bright);
        lemma_mixed_with_black(band_channel(g, h, column, columns), dark, bright);
        lemma_mixed_with_black(band_channel(b, c, column, columns), dark, bright);
        if column == 0 {
            lemma_first_band(r, s, columns);
            lemma_first_band(g, h, columns);
            lemma_first_band(b, c, columns);
        }
    }
}

proof fn lemma_first_band(accent: u8, foreground: u8, columns: int)
    requires
        0 < columns,
    ensures
        band_channel(accent, foreground, 0, columns) == accent,
{
    let middle = (columns - 1 + 1) / 2;
    let bounded = crate::ui::layout::least(middle, u16::MAX as int);
    if bounded >= 1 {
        lemma_last_cell(accent, foreground, bounded);
    }
}

/// Whether a cell shows so many eighths, filled from the left. The block elements stand
/// in this order, the full one first.
pub open spec fn shows_from_the_left(content: Seq<char>, eighths: int) -> bool {
    &&& content.len() == 1
    &&& if eighths <= 0 {
        content[0] as int == 0x2591
    } else if eighths >= 8 {
        content[0] as int == 0x2588
    } else {
        content[0] as int == 0x2590 - eighths
    }
}

proof fn lemma_progress_glyph(eighths: int)
    ensures
        shows_from_the_left(progress_glyph(eighths), eighths),
{
    reveal_strlit("░");
    reveal_strlit("▏");
    reveal_strlit("▎");
    reveal_strlit("▍");
    reveal_strlit("▌");
    reveal_strlit("▋");
    reveal_strlit("▊");
    reveal_strlit("▉");
    reveal_strlit("█");
}

/// The progress bar is filled from the left, as far as playback is: its cell `index`
/// shows what lies behind its left edge. What is not filled is muted.
pub proof fn law_progress_is_filled_from_the_left(
    state: AppState,
    width: int,
    progress: ProgressView,
    theme: Theme,
    index: int,
)
    requires
        state.playback.duration_ms matches Some(duration) && duration > 0,
        2 <= width,
        0 <= index < width,
    ensures
        ({
            let bar = progress_bar(state, width, progress, theme);
            let filled = progress.eighths(width) - 8 * index;
            &&& bar.spans.len() == width
            &&& shows_from_the_left(bar.spans[index].content, filled)
            &&& filled <= 0 ==> bar.spans[index].style.fg == Some(theme.muted)
        }),
{
    let eighths = progress.eighths(width);
    assert(eighths >= 0);
    lemma_progress_glyph(
        crate::ui::layout::least(crate::ui::layout::floored_difference(eighths, index * 8), 8),
    );
}

/// The filled part of the progress bar begins in the accent and ends in the color of
/// selections.
pub proof fn law_progress_goes_from_accent_to_selection(theme: Theme, index: int, width: int)
    requires
        2 <= width,
        0 <= index < width,
    ensures
        index == 0 ==> progress_cell_color(theme, index, width, false) == theme.accent,
        index == width - 1 ==> progress_cell_color(theme, index, width, false) == theme.selection,
{
    if let (Color::Rgb(r, g, b), Color::Rgb(s, h, c)) = (theme.accent, theme.selection) {
        lemma_last_cell(r, s, width - 1);
        lemma_last_cell(g, h, width - 1);
        lemma_last_cell(b, c, width - 1);
    }
}

proof fn lemma_last_cell(start: u8, end: u8, last: int)
    requires
        1 <= last,
    ensures
        mixed_channel(start, end, 0, last) == start,
        mixed_channel(start, end, last, last) == end,
{
    vstd::arithmetic::div_mod::lemma_div_multiples_vanish(end - start, last);
    vstd::arithmetic::div_mod::lemma_div_multiples_vanish(start - end, last);
    assert((end - start) * last == last * (end - start)) by (nonlinear_arith);
    assert((start - end) * last == last * (start - end)) by (nonlinear_arith);
    assert((end - start) * 0 == 0 && (start - end) * 0 == 0);
    assert(0int / last == 0) by (nonlinear_arith)
        requires
            1 <= last,
    ;
}

} // verus!
