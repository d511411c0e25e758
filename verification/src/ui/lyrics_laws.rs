//! What lyrics on the screen show.

use vstd::prelude::*;
use vstd::string::*;

use crate::domain::texts;
use crate::text::joined;
use crate::ui::cells::{cells, graphemes, truncated};
use crate::ui::line::{raw_line, LineView};
use crate::ui::lyrics_panel::{
    blended, blended_channel, current_lyrics, lyric_style, lyrics_page, lyrics_rows, lyrics_window,
    rows_of_line, timed_range, wrapped_pieces,
};
use crate::ui::memory::MemoryView;
use crate::ui::model::LyricsOverlayState;
use crate::ui::state::{AppState, LyricTransition, LyricsSource};
use crate::ui::theme::{Color, ColorCapability, Style, Theme};

verus! {

/// Whether these are lines of lyrics from the line `first` on, one behind the other and
/// cut to so many columns.
pub open spec fn are_lines_from(
    shown: Seq<LineView>,
    timed: Seq<Seq<char>>,
    first: int,
    width: nat,
) -> bool {
    &&& 0 <= first
    &&& first + shown.len() <= timed.len()
    &&& forall|row: int|
        0 <= row < shown.len() ==> {
            &&& (#[trigger] shown[row]).spans.len() == 1
            &&& shown[row].spans[0].content == truncated(timed[first + row], width)
        }
}

/// Where there is room, the line that is sung is shown, among the lines around it. Of
/// three rows it has the middle one, unless it is the first or the last line; of fewer
/// the first one, as long as others follow it.
pub proof fn law_the_line_that_is_sung_is_shown(
    state: AppState,
    rows: nat,
    width: nat,
    theme: Theme,
    active: usize,
)
    requires
        state.lyrics.document is Some,
        state.lyrics.active_line_index == Some(active),
        active < state.lyrics.document->0.timed@.len(),
        rows > 0,
        width > 0,
    ensures
        ({
            let timed = texts(state.lyrics.document->0.timed@);
            let shown = current_lyrics(state, rows, width, theme);
            &&& shown.len() <= rows && shown.len() <= 3 && shown.len() <= timed.len()
            &&& shown.len() == rows || shown.len() == 3 || shown.len() == timed.len()
            &&& exists|first: int|
                {
                    &&& #[trigger] are_lines_from(shown, timed, first, width)
                    &&& first <= active < first + shown.len()
                    &&& rows >= 3 && 0 < active < timed.len() - 1 ==> first == active - 1
                    &&& rows < 3 && active + rows <= timed.len() ==> first == active
                    &&& active == 0 ==> first == 0
                }
        }),
{
    let timed = texts(state.lyrics.document->0.timed@);
    let shown = current_lyrics(state, rows, width, theme);
    let desired = if rows < 3 {
        rows as int
    } else {
        3
    };
    let wanted = if desired >= 3 && active > 0 {
        active - 1
    } else {
        active as int
    };
    let last = if timed.len() < desired {
        0
    } else {
        timed.len() - desired
    };
    let first = if wanted < last {
        wanted
    } else {
        last
    };
    assert(are_lines_from(shown, timed, first, width));
}

/// Without lyrics that have times, or without a line that is sung, no line is shown.
pub proof fn law_nothing_is_sung_without_a_line(
    state: AppState,
    rows: nat,
    width: nat,
    theme: Theme,
)
    requires
        state.lyrics.document is None || state.lyrics.active_line_index is None || rows == 0
            || width == 0,
    ensures
        current_lyrics(state, rows, width, theme).len() == 0,
{
}

/// Between changes the line that is sung is bold and in the accent, and the other lines
/// are muted; without colors they are dim.
pub proof fn law_the_line_that_is_sung_stands_out(theme: Theme, line: usize, active: usize)
    ensures
        ({
            let style = lyric_style(theme, line, active, None);
            &&& style.bold <==> line == active
            &&& style.bg is None
            &&& line == active ==> !style.dim
            &&& theme.shows() == ColorCapability::Monochrome ==> style.fg is None && (style.dim
                <==> line != active)
            &&& theme.shows() != ColorCapability::Monochrome ==> style.fg == if line == active {
                Some(theme.accent)
            } else {
                Some(theme.muted)
            }
        }),
{
    if let (Color::Rgb(r, g, b), Color::Rgb(s, h, c)) = (theme.muted, theme.accent) {
        lemma_channel_ends(r, s);
        lemma_channel_ends(g, h);
        lemma_channel_ends(b, c);
    }
}

proof fn lemma_channel_ends(start: u8, end: u8)
    ensures
        blended_channel(start, end, 0) == start,
        blended_channel(start, end, 1_000) == end,
{
    law_colors_change_steadily(start, end, 0, 1_000);
    assert(start * (1_000 - 0) == start * 1_000 && end * 0 == 0) by (nonlinear_arith);
    let done = crate::ui::layout::least(1_000u16 as int, 1_000);
    assert(start * (1_000 - done) == 0 && end * done == end * 1_000) by (nonlinear_arith)
        requires
            done == 1_000,
    ;
}

/// A change starts where the old line was: at its beginning the old line is still in the
/// accent and bold, and the new one still muted.
pub proof fn law_a_change_starts_at_the_old_line(
    theme: Theme,
    outgoing: usize,
    incoming: usize,
    transition: LyricTransition,
)
    requires
        transition.progress_millis == 0,
        transition.incoming_index == incoming,
        transition.outgoing_index == Some(outgoing),
        incoming != outgoing,
        theme.shows() != ColorCapability::Monochrome,
    ensures
        lyric_style(theme, outgoing, incoming, Some(transition)).fg == Some(theme.accent),
        lyric_style(theme, outgoing, incoming, Some(transition)).bold,
        lyric_style(theme, incoming, incoming, Some(transition)).fg == Some(theme.muted),
        !lyric_style(theme, incoming, incoming, Some(transition)).bold,
{
    if let (Color::Rgb(r, g, b), Color::Rgb(s, h, c)) = (theme.muted, theme.accent) {
        lemma_channel_ends(r, s);
        lemma_channel_ends(g, h);
        lemma_channel_ends(b, c);
        lemma_channel_ends(s, r);
        lemma_channel_ends(h, g);
        lemma_channel_ends(c, b);
    }
}

/// A color that changes never turns back: further on, each of its channels is nearer to
/// where it goes.
pub proof fn law_colors_change_steadily(start: u8, end: u8, earlier: u16, later: u16)
    requires
        earlier <= later,
    ensures
        start <= end ==> start <= blended_channel(start, end, earlier) <= blended_channel(
            start,
            end,
            later,
        ) <= end,
        start >= end ==> start >= blended_channel(start, end, earlier) >= blended_channel(
            start,
            end,
            later,
        ) >= end,
{
    let a: int = if earlier < 1_000 {
        earlier as int
    } else {
        1_000
    };
    let b: int = if later < 1_000 {
        later as int
    } else {
        1_000
    };
    assert(start * (1_000 - a) + end * a == start * 1_000 + (end - start) * a) by (nonlinear_arith);
    assert(start * (1_000 - b) + end * b == start * 1_000 + (end - start) * b) by (nonlinear_arith);
    if start <= end {
        assert(0 <= (end - start) * a <= (end - start) * b <= (end - start) * 1_000)
            by (nonlinear_arith)
            requires
                start <= end,
                0 <= a <= b <= 1_000,
        ;
    } else {
        assert(0 >= (end - start) * a >= (end - start) * b >= (end - start) * 1_000)
            by (nonlinear_arith)
            requires
                start >= end,
                0 <= a <= b <= 1_000,
        ;
    }
}

/// What the lyrics window says when there is nothing to read.
pub proof fn law_the_window_says_why_it_is_empty(
    memory: MemoryView,
    state: AppState,
    overlay: LyricsOverlayState,
    rows: nat,
    width: nat,
    theme: Theme,
    spinner_index: usize,
    now_ms: u64,
)
    requires
        rows > 1,
        width > 0,
        !state.lyrics.loading,
    ensures
        ({
            let shown = lyrics_window(
                memory,
                state,
                overlay,
                rows,
                width,
                theme,
                spinner_index,
                now_ms,
            ).1;
            &&& state.lyrics.document is None ==> shown.len() == 1 && shown[0]
                == raw_line("Lyrics unavailable"@)
            &&& state.lyrics.document matches Some(document) ==> {
                &&& shown.len() >= 1
                &&& shown[0].spans.len() == 1
                &&& document.source == LyricsSource::YouTubeMusic ==> shown[0].spans[0].content
                    == "Source: YouTube Music"@
                &&& document.source == LyricsSource::Lrclib ==> shown[0].spans[0].content
                    == "Source: LRCLIB"@
                &&& document.instrumental ==> shown.len() == 2 && shown[1]
                    == raw_line("Instrumental"@)
            }
        }),
{
}

/// The lyrics window shows timed lines in their order under the line that names their
/// source, each behind its marker and cut to what is left; the line that is sung is in
/// the accent and bold. It is full as long as there are lines.
pub proof fn law_the_window_shows_lines_in_order(
    memory: MemoryView,
    state: AppState,
    overlay: LyricsOverlayState,
    rows: nat,
    width: nat,
    theme: Theme,
    spinner_index: usize,
    now_ms: u64,
)
    requires
        1 < rows <= 128,
        width > 2,
        !state.lyrics.loading,
        state.lyrics.document matches Some(document) && !document.instrumental
            && document.timed@.len() > 0 && document.timed@.len() < usize::MAX,
    ensures
        ({
            let timed = texts(state.lyrics.document->0.timed@);
            let shown = lyrics_window(
                memory,
                state,
                overlay,
                rows,
                width,
                theme,
                spinner_index,
                now_ms,
            ).1;
            let first = timed_range(state, overlay, timed.len() as int, rows - 1).start;
            &&& shown.len() == 1 + if timed.len() < rows - 1 {
                timed.len() as int
            } else {
                rows - 1
            }
            &&& first + shown.len() - 1 <= timed.len()
            &&& forall|row: int|
                1 <= row < shown.len() ==> {
                    &&& (#[trigger] shown[row]).spans.len() == 2
                    &&& shown[row].spans[1].content == truncated(
                        timed[first + row - 1],
                        (width - 2) as nat,
                    )
                    &&& state.lyrics.active_line_index == Some((first + row - 1) as usize)
                        ==> shown[row].spans[1].style.fg == Some(theme.accent)
                        && shown[row].spans[1].style.bold
                    &&& state.lyrics.active_line_index != Some((first + row - 1) as usize)
                        ==> shown[row].spans[1].style.fg == Some(theme.foreground)
                }
        }),
{
    let timed = texts(state.lyrics.document->0.timed@);
    let shown = lyrics_window(memory, state, overlay, rows, width, theme, spinner_index, now_ms).1;
    let range = timed_range(state, overlay, timed.len() as int, rows - 1);
    assert(0 <= range.start <= range.end <= timed.len());
    assert forall|row: int| 1 <= row < shown.len() implies {
        &&& (#[trigger] shown[row]).spans.len() == 2
        &&& shown[row].spans[1].content == truncated(
            timed[range.start + row - 1],
            (width - 2) as nat,
        )
        &&& state.lyrics.active_line_index == Some((range.start + row - 1) as usize)
            ==> shown[row].spans[1].style.fg == Some(theme.accent)
            && shown[row].spans[1].style.bold
        &&& state.lyrics.active_line_index != Some((range.start + row - 1) as usize)
            ==> shown[row].spans[1].style.fg == Some(theme.foreground)
    } by {
        assert(range.start + (row - 1) == range.start + row - 1);
    }
}

/// While it follows the music, the lyrics window has the line that is sung in sight, in
/// its middle where there are lines enough before and behind it; else the line it was
/// scrolled to.
pub proof fn law_the_window_follows_the_music(
    state: AppState,
    overlay: LyricsOverlayState,
    total: int,
    rows: int,
)
    requires
        0 < total <= usize::MAX,
        0 < rows,
    ensures
        ({
            let range = timed_range(state, overlay, total, rows);
            let anchor = if overlay.follow_active {
                state.lyrics.active_line_index
            } else {
                Some(overlay.scroll)
            };
            &&& range.start <= range.end <= total
            &&& range.end - range.start == rows || range.start == 0 && range.end == total
            &&& anchor matches Some(line) ==> line < total ==> {
                &&& range.start <= line < range.end
                &&& rows / 2 <= line && line - rows / 2 + rows <= total ==> range.start == line
                    - rows / 2
            }
        }),
{
}

/// Plain lyrics are shown row by row from the row they were scrolled to, as long as that
/// leaves no room behind their end.
pub proof fn law_plain_lyrics_are_shown_in_order(
    text: Seq<char>,
    start: nat,
    row_limit: nat,
    width: nat,
    row: int,
)
    requires
        0 <= row < lyrics_page(text, start as int, row_limit as int, width).len(),
        start + row_limit <= lyrics_rows(text, width).len(),
    ensures
        lyrics_page(text, start as int, row_limit as int, width).len() == row_limit,
        lyrics_page(text, start as int, row_limit as int, width)[row] == raw_line(
            lyrics_rows(text, width)[start + row],
        ),
{
}

/// The columns that clusters take side by side.
pub open spec fn width_of(pieces: Seq<Seq<char>>) -> int
    decreases pieces.len(),
{
    if pieces.len() == 0 {
        0
    } else {
        width_of(pieces.drop_last()) + cells(pieces.last())
    }
}

/// Whether a row is made of clusters that take no more than so many columns.
pub open spec fn fits(row: Seq<char>, limit: int) -> bool {
    exists|pieces: Seq<Seq<char>>| #[trigger] joined(pieces) == row && width_of(pieces) <= limit
}

proof fn lemma_rows_fit(pieces: Seq<Seq<char>>, limit: int)
    requires
        0 <= limit,
        forall|i: int| 0 <= i < pieces.len() ==> (#[trigger] pieces[i]).len() > 0,
    ensures
        ({
            let wrapped = wrapped_pieces(pieces, limit);
            &&& forall|i: int| 0 <= i < wrapped.rows.len() ==> fits(#[trigger] wrapped.rows[i], limit)
            &&& exists|open: Seq<Seq<char>>|
                #[trigger] joined(open) == wrapped.current && width_of(open) == wrapped.width
            &&& wrapped.width <= limit
            &&& wrapped.current.len() == 0 ==> wrapped.width == 0
        }),
    decreases pieces.len(),
{
    let empty = Seq::<Seq<char>>::empty();
    assert(joined(empty) =~= Seq::<char>::empty());
    if pieces.len() == 0 {
        assert(joined(empty) == wrapped_pieces(pieces, limit).current);
    } else {
        lemma_rows_fit(pieces.drop_last(), limit);
        let before = wrapped_pieces(pieces.drop_last(), limit);
        let after = wrapped_pieces(pieces, limit);
        let piece = pieces.last();
        assert(piece == pieces[pieces.len() - 1]);
        let open = choose|open: Seq<Seq<char>>|
            #[trigger] joined(open) == before.current && width_of(open) == before.width;
        assert(fits(before.current, limit));
        let closes = before.current.len() > 0 && before.width + cells(piece) > limit;
        let kept = if closes {
            empty
        } else {
            open
        };
        let extended = kept.push(piece);
        assert(extended.drop_last() =~= kept);
        assert(joined(extended) == joined(kept) + piece);
        assert(width_of(extended) == width_of(kept) + cells(piece));
        if cells(piece) <= limit {
            if !closes && before.current.len() == 0 {
                assert(joined(seq![piece]) =~= piece) by {
                    assert(seq![piece].drop_last() =~= empty);
                }
            }
            assert(joined(extended) == after.current);
        } else {
            assert(joined(kept) == after.current);
        }
    }
}

/// No row of lyrics is wider than there is room for.
pub proof fn law_rows_of_lyrics_fit(line: Seq<char>, limit: nat, row: int)
    requires
        0 <= row < rows_of_line(line, limit as int).len(),
        forall|i: int|
            0 <= i < graphemes(line).len() ==> (#[trigger] graphemes(line)[i]).len() > 0,
    ensures
        fits(rows_of_line(line, limit as int)[row], limit as int),
{
    let empty = Seq::<Seq<char>>::empty();
    assert(joined(empty) =~= Seq::<char>::empty());
    assert(width_of(empty) == 0);
    lemma_rows_fit(graphemes(line), limit as int);
}

} // verus!
