//! In which shades bars and lyrics are drawn, and from which line on.

use vstd::prelude::*;
use vstd::string::*;

use crate::domain::texts;
use crate::ui::bars::{
    band_color, band_style, bar_color, has_duration, level_intensity, progress_bar,
    progress_cell_color, shining_cell, shown_levels, spectrum_cell,
};
use crate::ui::cells::truncated;
use crate::ui::line::{raw_line, LineView};
use crate::ui::lyrics_panel::{
    current_lyrics, is_incoming, is_outgoing, lyric_style, lyrics_key, lyrics_page, lyrics_rows,
    stands_out,
};
use crate::ui::motion::ProgressView;
use crate::ui::spectrum::SpectrumPresentationView;
use crate::ui::state::{AppState, LyricTransition};
use crate::ui::theme::{Color, ColorCapability, Theme};
use crate::ui::viewport::DatasetKeyView;

verus! {

/// With few colors the left half of a bar has the one, and the right half the other.
pub proof fn law_few_colors_share_the_bar(theme: Theme, index: int, width: int)
    requires
        !(theme.accent is Rgb) || !(theme.selection is Rgb),
    ensures
        2 * index < width ==> bar_color(theme, index, width) == theme.accent,
        2 * index >= width ==> bar_color(theme, index, width) == theme.selection,
{
}

/// A cell that shines is halfway between its color and that of the text.
pub proof fn law_shining_is_halfway_to_the_text(theme: Theme, index: int, width: int)
    ensures
        ({
            let base = progress_cell_color(theme, index, width, false);
            let shining = progress_cell_color(theme, index, width, true);
            &&& base == bar_color(theme, index, width)
            &&& base matches Color::Rgb(r, g, b) ==> theme.foreground matches Color::Rgb(s, h, c)
                ==> {
                &&& shining matches Color::Rgb(x, y, z)
                &&& 2 * x <= r + s < 2 * x + 2
                &&& 2 * y <= g + h < 2 * y + 2
                &&& 2 * z <= b + c < 2 * z + 2
            }
            &&& !(base is Rgb) ==> shining == theme.foreground
        }),
{
}

/// What shines is chosen by how many cells are filled, those that are filled in part among
/// them.
pub proof fn law_filled_cells_choose_what_shines(progress: ProgressView, width: int, filled: int)
    requires
        1 <= filled <= width,
        8 * (filled - 1) < progress.eighths(width) <= 8 * filled,
    ensures
        shining_cell(progress, width) == progress.shine(filled),
{
}

/// A bar for what has no end is a line without color.
pub proof fn law_what_has_no_end_is_a_line(
    state: AppState,
    width: int,
    progress: ProgressView,
    theme: Theme,
    index: int,
)
    requires
        0 <= index < width,
        2 <= width,
    ensures
        has_duration(state) <==> state.playback.duration_ms is Some && state.playback.duration_ms->0
            > 0,
        !has_duration(state) ==> ({
            let line = progress_bar(state, width, progress, theme);
            &&& line.spans.len() == 1
            &&& line.spans[0].content.len() == width
            &&& line.spans[0].content[index] == '─'
            &&& line.spans[0].style.fg == Some(theme.muted)
        }),
{
}

/// Where no levels are known, silence is shown.
pub proof fn law_what_is_not_known_is_silent(
    presentation: SpectrumPresentationView,
    bands: nat,
    band: int,
)
    requires
        presentation.frame is None,
        0 <= band < bands,
    ensures
        shown_levels(presentation, bands).len() == bands,
        shown_levels(presentation, bands)[band] == 0,
{
}

/// Silence has three fifths of the light, the loudest level all of it, and every level
/// between them its share.
pub proof fn law_louder_is_lighter(level: u8)
    ensures
        level == 0 ==> level_intensity(level) == 60,
        level >= 24 ==> level_intensity(level) == 100,
        level <= 24 ==> 24 * (level_intensity(level) - 60) <= 40 * level < 24 * (level_intensity(
            level,
        ) - 60) + 24,
{
}

/// A spectrum that pauses or has failed has no color; without colors it is dim, as are the
/// quiet bands of one that goes on.
pub proof fn law_a_spectrum_that_stands_has_no_color(
    presentation: SpectrumPresentationView,
    rows: int,
    row: int,
    bands: int,
    band: int,
    level: u8,
    theme: Theme,
)
    ensures
        ({
            let style = spectrum_cell(presentation, rows, row, bands, band, level, theme).style;
            let stands = presentation.paused || presentation.failed;
            let plain = theme.capability == ColorCapability::Monochrome;
            &&& !plain && stands ==> style.fg == Some(theme.muted)
            &&& !plain && !stands ==> style.fg == Some(
                band_color(theme, theme.capability, band, bands, level),
            )
            &&& plain ==> style.fg is None
            &&& plain && (stands || level < 12) ==> style.dim && !style.bold
            &&& plain && !stands && level >= 12 ==> style.bold && !style.dim
        }),
{
}

/// Which line a change of lyrics brings, and which it takes: the one that is sung stands out
/// from the middle of the change on, the other one until then.
pub proof fn law_lines_change_halfway(line: usize, active: usize, transition: LyricTransition)
    ensures
        is_incoming(line, active, Some(transition)) <==> line == transition.incoming_index,
        is_outgoing(line, Some(transition)) <==> transition.outgoing_index == Some(line),
        is_incoming(line, active, None) <==> line == active,
        !is_outgoing(line, None),
        line == transition.incoming_index && transition.outgoing_index != Some(line) ==> (
        stands_out(line, active, Some(transition)) <==> transition.progress_millis >= 500),
        line != transition.incoming_index && transition.outgoing_index == Some(line) ==> (
        stands_out(line, active, Some(transition)) <==> transition.progress_millis < 500),
        line != transition.incoming_index && transition.outgoing_index != Some(line)
            ==> !stands_out(line, active, Some(transition)),
        stands_out(line, active, None) <==> line == active,
{
}

/// With few colors lyrics change in three steps: a line that comes goes from no color over
/// that of what is selected to its own, and a line that goes the other way.
pub proof fn law_few_colors_change_in_three_steps(
    theme: Theme,
    line: usize,
    active: usize,
    transition: LyricTransition,
)
    requires
        theme.capability == ColorCapability::Ansi256 || theme.capability == ColorCapability::Basic,
    ensures
        ({
            let shade = lyric_style(theme, line, active, Some(transition)).fg;
            let comes = line == transition.incoming_index;
            let goes = transition.outgoing_index == Some(line);
            let done = transition.progress_millis;
            &&& comes && done < 333 ==> shade == Some(theme.muted)
            &&& comes && 333 <= done < 667 ==> shade == Some(theme.selection)
            &&& comes && 667 <= done ==> shade == Some(theme.accent)
            &&& goes && !comes && done < 333 ==> shade == Some(theme.accent)
            &&& goes && !comes && 333 <= done < 667 ==> shade == Some(theme.selection)
            &&& goes && !comes && 667 <= done ==> shade == Some(theme.muted)
            &&& !comes && !goes ==> shade == Some(theme.muted)
        }),
{
}

/// Whether lyrics are shown from a line on, each line in the style that belongs to it.
pub open spec fn are_styled_lines_from(
    shown: Seq<LineView>,
    state: AppState,
    first: int,
    width: nat,
    theme: Theme,
    active: usize,
) -> bool {
    let timed = texts(state.lyrics.document->0.timed@);
    &&& 0 <= first
    &&& first + shown.len() <= timed.len()
    &&& forall|row: int|
        0 <= row < shown.len() ==> {
            &&& (#[trigger] shown[row]).spans.len() == 1
            &&& shown[row].spans[0].content == truncated(timed[first + row], width)
            &&& shown[row].spans[0].style == lyric_style(
                theme,
                (first + row) as usize,
                active,
                state.lyrics.transition,
            )
        }
}

/// Each line of lyrics has the style that belongs to it.
pub proof fn law_each_line_has_its_style(
    state: AppState,
    rows: nat,
    width: nat,
    theme: Theme,
    active: usize,
)
    requires
        state.lyrics.document is Some,
        state.lyrics.active_line_index == Some(active),
        active < state.lyrics.document->0.timed@.len(),
        rows > 0,
        width > 0,
    ensures
        exists|first: int| #[trigger]
            are_styled_lines_from(
                current_lyrics(state, rows, width, theme),
                state,
                first,
                width,
                theme,
                active,
            ),
{
    let timed = texts(state.lyrics.document->0.timed@);
    let desired = if rows < 3 {
        rows as int
    } else {
        3
    };
    let first = crate::ui::lyrics_panel::first_lyric(
        active as int,
        timed.len() as int,
        desired,
    );
    assert(timed.len() == state.lyrics.document->0.timed@.len());
    assert(are_styled_lines_from(
        current_lyrics(state, rows, width, theme),
        state,
        first,
        width,
        theme,
        active,
    ));
}

/// A page of lyrics begins where it is asked to, as long as it can be filled, and else so that
/// it ends with the last row.
pub proof fn law_a_page_of_lyrics_is_filled(
    text: Seq<char>,
    start: int,
    rows: int,
    width: nat,
    row: int,
)
    requires
        0 <= start,
        0 < rows,
        0 <= row < rows,
        row < lyrics_rows(text, width).len(),
    ensures
        ({
            let page = lyrics_page(text, start, rows, width);
            let all = lyrics_rows(text, width);
            &&& all.len() <= rows ==> page.len() == all.len() && page[row] == raw_line(all[row])
            &&& all.len() > rows ==> page.len() == rows
            &&& start + rows <= all.len() ==> page[row] == raw_line(all[start + row])
            &&& start + rows > all.len() && all.len() > rows ==> page[row] == raw_line(
                all[all.len() - rows + row],
            )
        }),
{
}

/// Lyrics are told apart by the item that they belong to, and by how they begin and end.
pub proof fn law_lyrics_are_told_apart_by_their_item(state: AppState, timed: Seq<Seq<char>>)
    requires
        timed.len() > 0,
    ensures
        lyrics_key(state, timed) matches DatasetKeyView::Listed(facts) && {
            &&& state.playback.current matches Some(id) ==> facts.len() == 5 && facts[0]
                == id.provider@ && facts[1] == id.video_id@
            &&& facts.last() == timed.last()
            &&& facts[facts.len() - 2] == timed[0]
        },
{
}

} // verus!
