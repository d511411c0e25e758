//! Lyrics on the screen: the lines around the one that is sung, and the lyrics
//! window.

use vstd::prelude::*;
use vstd::string::*;

use crate::domain::texts;
use crate::lyrics::{normalize_lyrics_text, normalized_lyrics};
use crate::text::{decimal, decimal_digits, joined, split, split_on};
use crate::ui::cells::{
    cell_width, cells, graphemes, split_graphemes, truncate_cells, truncated,
};
use crate::ui::interaction::ListSurface;
use crate::ui::layout::{floored_difference, least, MAX_RENDERED_ROWS};
use crate::ui::line::{
    contents, line_of, line_views, raw_line, styled_line, styled_span, Line, LineView, Span,
};
use crate::ui::memory::{MemoryView, SelectionPresentation, ViewportMemory};
use crate::ui::model::LyricsOverlayState;
use crate::ui::rows::{loading_label, loading_line};
use crate::ui::state::{AppState, LyricTransition, LyricsDocument, LyricsSource};
use crate::ui::theme::{plain, Color, ColorCapability, Style, Theme};
use crate::ui::viewport::{DatasetKey, DatasetKeyView, RowRange};

verus! {

/// The channel of a color that is so many thousandths of the way between two.
pub open spec fn blended_channel(start: u8, end: u8, progress: u16) -> u8 {
    let done = least(progress as int, 1_000);
    ((start * (1_000 - done) + end * done) / 1_000) as u8
}

/// The color that is so many thousandths of the way between two. Colors without
/// channels change in the middle.
pub open spec fn blended(start: Color, end: Color, progress: u16) -> Color {
    match (start, end) {
        (Color::Rgb(r, g, b), Color::Rgb(s, h, c)) => Color::Rgb(
            blended_channel(r, s, progress),
            blended_channel(g, h, progress),
            blended_channel(b, c, progress),
        ),
        _ => if progress >= 500 {
            end
        } else {
            start
        },
    }
}

/// How far the change to the line that is sung is.
pub open spec fn transition_progress(transition: Option<LyricTransition>) -> u16 {
    match transition {
        Some(transition) => transition.progress_millis,
        None => 1_000,
    }
}

/// Whether a line is the one that is sung or comes to be sung.
pub open spec fn is_incoming(
    line: usize,
    active: usize,
    transition: Option<LyricTransition>,
) -> bool {
    match transition {
        Some(transition) => transition.incoming_index == line,
        None => line == active,
    }
}

/// Whether a line is the one that was sung.
pub open spec fn is_outgoing(line: usize, transition: Option<LyricTransition>) -> bool {
    transition matches Some(transition) && transition.outgoing_index == Some(line)
}

/// Whether a line stands out: the old one in the first half of a change, the new
/// one from its middle on.
pub open spec fn stands_out(
    line: usize,
    active: usize,
    transition: Option<LyricTransition>,
) -> bool {
    let progress = transition_progress(transition);
    (is_incoming(line, active, transition) && progress >= 500) || (is_outgoing(line, transition)
        && progress < 500)
}

/// The third of a change, as one of three intensities.
pub open spec fn intensity_of(
    line: usize,
    active: usize,
    transition: Option<LyricTransition>,
) -> int {
    let progress = transition_progress(transition);
    let third = if progress < 333 {
        0
    } else if progress < 667 {
        1
    } else {
        2int
    };
    if is_incoming(line, active, transition) {
        third
    } else if is_outgoing(line, transition) {
        2 - third
    } else {
        0
    }
}

/// The style of a line of lyrics.
pub open spec fn lyric_style(
    theme: Theme,
    line: usize,
    active: usize,
    transition: Option<LyricTransition>,
) -> Style {
    let progress = transition_progress(transition);
    let base = match theme.shows() {
        ColorCapability::TrueColor => plain().on_fg(
            if is_incoming(line, active, transition) {
                blended(theme.muted, theme.accent, progress)
            } else if is_outgoing(line, transition) {
                blended(theme.accent, theme.muted, progress)
            } else {
                theme.muted
            },
        ),
        ColorCapability::Monochrome => if stands_out(line, active, transition) {
            plain()
        } else {
            plain().in_dim()
        },
        _ => {
            let intensity = intensity_of(line, active, transition);
            if intensity == 0 {
                plain().on_fg(theme.muted).in_dim()
            } else if intensity == 1 {
                plain().on_fg(theme.selection)
            } else {
                plain().on_fg(theme.accent)
            }
        },
    };
    if stands_out(line, active, transition) {
        base.in_bold()
    } else {
        base
    }
}

fn lyric_lerp_channel(start: u8, end: u8, progress: u16) -> (channel: u8)
    ensures
        channel == blended_channel(start, end, progress),
{
    let done: u32 = if progress < 1_000 {
        progress as u32
    } else {
        1_000
    };
    let left: u32 = 1_000 - done;
    assert(0 <= start * left && 0 <= end * done && start * left + end * done <= 255 * 1_000)
        by (nonlinear_arith)
        requires
            0 <= start <= 255,
            0 <= end <= 255,
            0 <= done <= 1_000,
            left == 1_000 - done,
    ;
    ((start as u32 * left + end as u32 * done) / 1_000) as u8
}

/// The color that is so many thousandths of the way between two.
pub fn interpolate_color(start: Color, end: Color, progress_millis: u16) -> (color: Color)
    ensures
        color == blended(start, end, progress_millis),
{
    match (start, end) {
        (Color::Rgb(r, g, b), Color::Rgb(s, h, c)) => Color::Rgb(
            lyric_lerp_channel(r, s, progress_millis),
            lyric_lerp_channel(g, h, progress_millis),
            lyric_lerp_channel(b, c, progress_millis),
        ),
        _ => {
            if progress_millis >= 500 {
                end
            } else {
                start
            }
        },
    }
}

/// The style of a line of lyrics.
pub fn lyric_transition_style(
    theme: &Theme,
    line_index: usize,
    active_index: usize,
    transition: Option<LyricTransition>,
) -> (style: Style)
    ensures
        style == lyric_style(*theme, line_index, active_index, transition),
{
    let (progress, incoming, outgoing): (u16, bool, bool) = match transition {
        Some(change) => (
            change.progress_millis,
            change.incoming_index == line_index,
            match change.outgoing_index {
                Some(index) => index == line_index,
                None => false,
            },
        ),
        None => (1_000, line_index == active_index, false),
    };
    let emphasized = (incoming && progress >= 500) || (outgoing && progress < 500);
    let style = match theme.capability() {
        ColorCapability::TrueColor => {
            let foreground = if incoming {
                interpolate_color(theme.muted, theme.accent, progress)
            } else if outgoing {
                interpolate_color(theme.accent, theme.muted, progress)
            } else {
                theme.muted
            };
            Style::new().fg(foreground)
        },
        ColorCapability::Monochrome => {
            if emphasized {
                Style::new()
            } else {
                Style::new().dim()
            }
        },
        _ => {
            let third: u8 = if progress < 333 {
                0
            } else if progress < 667 {
                1
            } else {
                2
            };
            let intensity: u8 = if incoming {
                third
            } else if outgoing {
                2 - third
            } else {
                0
            };
            if intensity == 0 {
                Style::new().fg(theme.muted).dim()
            } else if intensity == 1 {
                Style::new().fg(theme.selection)
            } else {
                Style::new().fg(theme.accent)
            }
        },
    };
    if emphasized {
        style.bold()
    } else {
        style
    }
}

/// Whether there are lyrics whose lines have times.
pub open spec fn has_timed(state: AppState) -> bool {
    state.lyrics.document matches Some(document) && document.timed@.len() > 0
}

/// Whether there are lyrics whose lines have times.
pub fn has_timed_lyrics(state: &AppState) -> (timed: bool)
    ensures
        timed == has_timed(*state),
{
    match &state.lyrics.document {
        Some(document) => document.timed.len() > 0,
        None => false,
    }
}

/// The first of so many lines around the one that is sung.
pub open spec fn first_lyric(active: int, total: int, desired: int) -> int {
    least(
        if desired >= 3 {
            floored_difference(active, 1)
        } else {
            active
        },
        floored_difference(total, desired),
    )
}

/// The lines around the one that is sung.
pub open spec fn current_lyrics(
    state: AppState,
    max_rows: nat,
    width: nat,
    theme: Theme,
) -> Seq<LineView> {
    match (state.lyrics.document, state.lyrics.active_line_index) {
        (Some(document), Some(active)) => {
            let timed = texts(document.timed@);
            let desired = least(max_rows as int, 3);
            let start = first_lyric(active as int, timed.len() as int, desired);
            if max_rows == 0 || width == 0 || active >= timed.len() {
                Seq::empty()
            } else {
                Seq::new(
                    least(desired, timed.len() - start) as nat,
                    |offset: int|
                        styled_line(
                            truncated(timed[start + offset], width),
                            lyric_style(
                                theme,
                                (start + offset) as usize,
                                active,
                                state.lyrics.transition,
                            ),
                        ),
                )
            }
        },
        _ => Seq::empty(),
    }
}

/// The lines around the one that is sung.
pub fn automatic_lyrics_lines(
    state: &AppState,
    max_rows: usize,
    available_width: usize,
    theme: &Theme,
) -> (lines: Vec<Line>)
    ensures
        line_views(lines@) == current_lyrics(
            *state,
            max_rows as nat,
            available_width as nat,
            *theme,
        ),
{
    let mut lines: Vec<Line> = Vec::new();
    assert(line_views(lines@) =~= Seq::<LineView>::empty());
    if max_rows == 0 || available_width == 0 {
        return lines;
    }
    let document = match &state.lyrics.document {
        Some(document) => document,
        None => {
            return lines;
        },
    };
    let active: usize = match state.lyrics.active_line_index {
        Some(active) => active,
        None => {
            return lines;
        },
    };
    let total: usize = document.timed.len();
    if active >= total {
        return lines;
    }
    let desired: usize = if max_rows < 3 {
        max_rows
    } else {
        3
    };
    let wanted: usize = if desired >= 3 {
        active.saturating_sub(1)
    } else {
        active
    };
    let last: usize = total.saturating_sub(desired);
    let start: usize = if wanted < last {
        wanted
    } else {
        last
    };
    let count: usize = if desired < total - start {
        desired
    } else {
        total - start
    };
    let ghost timed = texts(document.timed@);
    let mut offset: usize = 0;
    while offset < count
        invariant
            timed == texts(document.timed@),
            total == document.timed.len(),
            start + count <= total,
            offset <= count,
            lines.len() == offset,
            forall|i: int|
                0 <= i < offset ==> (#[trigger] lines@[i])@ == styled_line(
                    truncated(timed[start + i], available_width as nat),
                    lyric_style(*theme, (start + i) as usize, active, state.lyrics.transition),
                ),
        decreases count - offset,
    {
        let index: usize = start + offset;
        let style = lyric_transition_style(theme, index, active, state.lyrics.transition);
        assert(timed[index as int] == document.timed@[index as int]@);
        lines.push(
            Line::from_styled(
                truncate_cells(document.timed[index].as_str(), available_width),
                style,
            ),
        );
        offset = offset + 1;
    }
    assert(line_views(lines@) =~= current_lyrics(
        *state,
        max_rows as nat,
        available_width as nat,
        *theme,
    ));
    lines
}

/// A line of lyrics while it is broken into rows.
#[verifier::ext_equal]
pub struct WrapView {
    /// The rows that are full.
    pub rows: Seq<Seq<char>>,
    /// The row that is being filled.
    pub current: Seq<char>,
    /// The columns that it takes.
    pub width: int,
}

/// One more cluster. A row that it does not fit into is full; a cluster wider
/// than a row is left out.
pub open spec fn wrap_step(state: WrapView, piece: Seq<char>, limit: int) -> WrapView {
    let columns = cells(piece);
    let open = if state.current.len() > 0 && state.width + columns > limit {
        WrapView { rows: state.rows.push(state.current), current: Seq::empty(), width: 0 }
    } else {
        state
    };
    if columns <= limit {
        WrapView { current: open.current + piece, width: open.width + columns, ..open }
    } else {
        open
    }
}

/// Clusters broken into rows.
pub open spec fn wrapped_pieces(pieces: Seq<Seq<char>>, limit: int) -> WrapView
    decreases pieces.len(),
{
    if pieces.len() == 0 {
        WrapView { rows: Seq::empty(), current: Seq::empty(), width: 0 }
    } else {
        wrap_step(wrapped_pieces(pieces.drop_last(), limit), pieces.last(), limit)
    }
}

/// The rows of a line of lyrics. An empty line takes one row.
pub open spec fn rows_of_line(line: Seq<char>, limit: int) -> Seq<Seq<char>> {
    let wrapped = wrapped_pieces(graphemes(line), limit);
    if line.len() == 0 {
        seq![Seq::empty()]
    } else if wrapped.current.len() > 0 {
        wrapped.rows.push(wrapped.current)
    } else {
        wrapped.rows
    }
}

/// The rows of lines of lyrics.
pub open spec fn rows_of_lines(lines: Seq<Seq<char>>, limit: int) -> Seq<Seq<char>>
    decreases lines.len(),
{
    if lines.len() == 0 {
        Seq::empty()
    } else {
        rows_of_lines(lines.drop_last(), limit) + rows_of_line(lines.last(), limit)
    }
}

/// The rows of lyrics.
pub open spec fn lyrics_rows(text: Seq<char>, limit: nat) -> Seq<Seq<char>> {
    rows_of_lines(split_on(normalized_lyrics(text), '\n'), limit as int)
}

fn wrap_line(line: &str, limit: usize, rows: &mut Vec<String>)
    ensures
        texts(final(rows)@) == texts(old(rows)@) + rows_of_line(line@, limit as int),
{
    let ghost before = texts(rows@);
    proof {
        crate::text::lemma_utf8_len_bounds(line@);
    }
    if crate::text::byte_len(line) == 0 {
        rows.push(String::new());
        assert(texts(rows@) =~= before + seq![Seq::<char>::empty()]);
        return;
    }
    let pieces = split_graphemes(line);
    let ghost all = texts(pieces@);
    let mut current = String::new();
    let mut empty = true;
    let mut width: usize = 0;
    let mut index: usize = 0;
    proof {
        assert(all.take(0) =~= Seq::<Seq<char>>::empty());
        assert(texts(rows@) =~= before + wrapped_pieces(all.take(0), limit as int).rows);
        assert(current@ =~= Seq::<char>::empty());
    }
    while index < pieces.len()
        invariant
            all == texts(pieces@),
            all == graphemes(line@),
            forall|i: int| 0 <= i < pieces@.len() ==> (#[trigger] pieces@[i])@.len() > 0,
            index <= pieces.len(),
            texts(rows@) == before + wrapped_pieces(all.take(index as int), limit as int).rows,
            current@ == wrapped_pieces(all.take(index as int), limit as int).current,
            width == wrapped_pieces(all.take(index as int), limit as int).width,
            width <= limit,
            empty == (current@.len() == 0),
            empty ==> width == 0,
        decreases pieces.len() - index,
    {
        let piece = &pieces[index];
        let columns: usize = cell_width(piece.as_str()) as usize;
        let ghost state = wrapped_pieces(all.take(index as int), limit as int);
        proof {
            assert(all.take(index + 1).drop_last() =~= all.take(index as int));
            assert(all.take(index + 1).last() == piece@);
        }
        if !empty && columns > limit - width {
            let ghost kept = rows@;
            let mut row = String::new();
            std::mem::swap(&mut row, &mut current);
            rows.push(row);
            width = 0;
            empty = true;
            assert(current@ =~= Seq::<char>::empty());
            assert(texts(rows@) =~= texts(kept).push(state.current));
            assert(texts(rows@) =~= before + state.rows.push(state.current));
        }
        if columns <= limit {
            current.append(piece.as_str());
            width = width + columns;
            empty = false;
        }
        index = index + 1;
    }
    assert(all.take(index as int) =~= all);
    if !empty {
        let ghost kept = rows@;
        let ghost last = current@;
        rows.push(current);
        assert(texts(rows@) =~= texts(kept).push(last));
    }
    assert(texts(rows@) =~= before + rows_of_line(line@, limit as int));
}

fn wrap_rows(text: &str, limit: usize) -> (rows: Vec<String>)
    ensures
        texts(rows@) == lyrics_rows(text@, limit as nat),
{
    let text = normalize_lyrics_text(text);
    let lines = split(text.as_str(), '\n');
    let ghost all = texts(lines@);
    let mut rows: Vec<String> = Vec::new();
    let mut index: usize = 0;
    proof {
        assert(all.take(0) =~= Seq::<Seq<char>>::empty());
        assert(texts(rows@) =~= Seq::<Seq<char>>::empty());
    }
    while index < lines.len()
        invariant
            all == texts(lines@),
            index <= lines.len(),
            texts(rows@) == rows_of_lines(all.take(index as int), limit as int),
        decreases lines.len() - index,
    {
        assert(all.take(index + 1).drop_last() =~= all.take(index as int));
        assert(all.take(index + 1).last() == lines@[index as int]@);
        wrap_line(lines[index].as_str(), limit, &mut rows);
        index = index + 1;
    }
    assert(all.take(index as int) =~= all);
    rows
}

/// How many rows lyrics take.
pub fn wrapped_lyrics_row_count(text: &str, available_width: usize) -> (count: usize)
    ensures
        count == lyrics_rows(text@, available_width as nat).len(),
{
    wrap_rows(text, available_width).len()
}

/// So many rows of lyrics, from a row on that leaves no room at their end.
pub open spec fn lyrics_page(
    text: Seq<char>,
    requested_start: int,
    row_limit: int,
    width: nat,
) -> Seq<LineView> {
    let rows = lyrics_rows(text, width);
    let start = least(requested_start, floored_difference(rows.len() as int, row_limit));
    Seq::new(
        least(row_limit, rows.len() - start) as nat,
        |index: int| raw_line(rows[start + index]),
    )
}

/// So many rows of lyrics.
pub fn wrap_lyrics_text(
    text: &str,
    requested_start: usize,
    row_limit: usize,
    available_width: usize,
) -> (lines: Vec<Line>)
    ensures
        line_views(lines@) == lyrics_page(
            text@,
            requested_start as int,
            row_limit as int,
            available_width as nat,
        ),
{
    let rows = wrap_rows(text, available_width);
    let last: usize = rows.len().saturating_sub(row_limit);
    let start: usize = if requested_start < last {
        requested_start
    } else {
        last
    };
    let count: usize = if row_limit < rows.len() - start {
        row_limit
    } else {
        rows.len() - start
    };
    let ghost all = texts(rows@);
    let mut lines: Vec<Line> = Vec::new();
    let mut index: usize = 0;
    while index < count
        invariant
            all == texts(rows@),
            start + count <= rows.len(),
            index <= count,
            lines.len() == index,
            forall|i: int| 0 <= i < index ==> (#[trigger] lines@[i])@ == raw_line(all[start + i]),
        decreases count - index,
    {
        assert(all[start + index] == rows@[start + index]@);
        lines.push(Line::from_text(rows[start + index].clone()));
        index = index + 1;
    }
    assert(line_views(lines@) =~= lyrics_page(
        text@,
        requested_start as int,
        row_limit as int,
        available_width as nat,
    ));
    lines
}

/// Where the lyrics come from, as it is shown.
pub open spec fn attribution(source: LyricsSource, theme: Theme) -> LineView {
    styled_line(
        match source {
            LyricsSource::YouTubeMusic => "Source: YouTube Music"@,
            LyricsSource::Lrclib => "Source: LRCLIB"@,
        },
        plain().on_fg(theme.muted),
    )
}

/// The number of the line that is sung; the largest number when there is none.
pub open spec fn active_number(state: AppState) -> usize {
    match state.lyrics.active_line_index {
        Some(line) => line,
        None => usize::MAX,
    }
}

/// The line that the lyrics window points at.
pub open spec fn focused_line(state: AppState, overlay: LyricsOverlayState, total: int) -> int {
    let wanted = if overlay.follow_active {
        state.lyrics.active_line_index
    } else {
        overlay.selected_line
    };
    least(
        match wanted {
            Some(line) => line as int,
            None => 0,
        },
        floored_difference(total, 1),
    )
}

/// The timed lines that the lyrics window shows.
pub open spec fn timed_range(
    state: AppState,
    overlay: LyricsOverlayState,
    total: int,
    rows: int,
) -> RowRange {
    let anchor = if overlay.follow_active {
        focused_line(state, overlay, total)
    } else {
        least(overlay.scroll as int, floored_difference(total, 1))
    };
    let start = least(floored_difference(anchor, rows / 2), floored_difference(total, rows));
    RowRange { start: start as usize, end: least(start + rows, total) as usize }
}

/// Which lyrics the window shows, as the key of a list.
pub open spec fn lyrics_key(state: AppState, timed: Seq<Seq<char>>) -> DatasetKeyView {
    let facts = seq![decimal_digits(timed.len()), timed[0], timed.last()];
    DatasetKeyView::Listed(
        match state.playback.current {
            Some(id) => seq![id.provider@, id.video_id@] + facts,
            None => facts,
        },
    )
}

/// A timed line in the lyrics window.
pub open spec fn timed_line(
    state: AppState,
    overlay: LyricsOverlayState,
    presentation: SelectionPresentation,
    text: Seq<char>,
    index: int,
    focused: int,
    width: nat,
    theme: Theme,
) -> LineView {
    let active = index == active_number(state);
    let cursor = presentation.cursor_index == Some(index as usize);
    let logical = presentation.logical_index == Some(index as usize);
    let base = plain().on_fg(
        if active {
            theme.accent
        } else {
            theme.foreground
        },
    );
    line_of(
        seq![
            styled_span(
                if cursor {
                    "▶ "@
                } else if logical {
                    "● "@
                } else {
                    "  "@
                },
                if cursor || logical {
                    plain().on_fg(theme.accent).in_bold()
                } else {
                    plain()
                },
            ),
            styled_span(
                truncated(text, floored_difference(width as int, 2) as nat),
                if active || (!overlay.follow_active && index == focused) {
                    base.in_bold()
                } else {
                    base
                },
            ),
        ],
    )
}

/// Memory and lines of the lyrics window.
pub open spec fn lyrics_window(
    memory: MemoryView,
    state: AppState,
    overlay: LyricsOverlayState,
    available_rows: nat,
    width: nat,
    theme: Theme,
    spinner_index: usize,
    now_ms: u64,
) -> (MemoryView, Seq<LineView>) {
    let row_limit = least(available_rows as int, MAX_RENDERED_ROWS as int);
    if row_limit == 0 || width == 0 {
        (memory, Seq::empty())
    } else if state.lyrics.loading {
        (memory, seq![loading_line(spinner_index, "Loading lyrics…"@, width)])
    } else {
        match state.lyrics.document {
            None => (memory, seq![raw_line("Lyrics unavailable"@)]),
            Some(document) => {
                let source = attribution(document.source, theme);
                let timed = texts(document.timed@);
                let rows = row_limit - 1;
                if rows == 0 {
                    (memory, seq![source])
                } else if document.instrumental {
                    (memory, seq![source, raw_line("Instrumental"@)])
                } else if timed.len() > 0 {
                    let focused = focused_line(state, overlay, timed.len() as int);
                    let range = timed_range(state, overlay, timed.len() as int, rows);
                    let (after, presentation) = memory.with_selection(
                        ListSurface::Lyrics,
                        timed.len() as usize,
                        Some(focused as usize),
                        range,
                        lyrics_key(state, timed),
                        now_ms,
                    );
                    (
                        after,
                        seq![source] + Seq::new(
                            (range.end - range.start) as nat,
                            |offset: int|
                                timed_line(
                                    state,
                                    overlay,
                                    presentation,
                                    timed[range.start + offset],
                                    range.start + offset,
                                    focused,
                                    width,
                                    theme,
                                ),
                        ),
                    )
                } else {
                    (
                        memory,
                        seq![source] + match document.plain {
                            Some(plain) => lyrics_page(
                                plain@,
                                overlay.scroll as int,
                                rows,
                                width,
                            ),
                            None => Seq::empty(),
                        },
                    )
                }
            },
        }
    }
}

fn timed_line_of(
    state: &AppState,
    overlay: &LyricsOverlayState,
    presentation: SelectionPresentation,
    text: &str,
    index: usize,
    focused: usize,
    width: usize,
    theme: &Theme,
) -> (line: Line)
    ensures
        line@ == timed_line(
            *state,
            *overlay,
            presentation,
            text@,
            index as int,
            focused as int,
            width as nat,
            *theme,
        ),
{
    let active = match state.lyrics.active_line_index {
        Some(line) => line == index,
        None => index == usize::MAX,
    };
    let base = Style::new().fg(
        if active {
            theme.accent
        } else {
            theme.foreground
        },
    );
    let style = if active || (!overlay.follow_active && index == focused) {
        base.bold()
    } else {
        base
    };
    let cursor = match presentation.cursor_index {
        Some(row) => row == index,
        None => false,
    };
    let logical = match presentation.logical_index {
        Some(row) => row == index,
        None => false,
    };
    let marker = if cursor {
        "▶ "
    } else if logical {
        "● "
    } else {
        "  "
    };
    let marker_style = if cursor || logical {
        Style::new().fg(theme.accent).bold()
    } else {
        Style::new()
    };
    let spans = vec![
        Span::styled(marker.to_owned(), marker_style),
        Span::styled(truncate_cells(text, width.saturating_sub(2)), style),
    ];
    let line = Line::from_spans(spans);
    assert(line@.spans =~= timed_line(
        *state,
        *overlay,
        presentation,
        text@,
        index as int,
        focused as int,
        width as nat,
        *theme,
    ).spans);
    line
}

fn key_of_lyrics(state: &AppState, timed: &Vec<String>) -> (key: DatasetKey)
    requires
        timed@.len() > 0,
    ensures
        key@ == lyrics_key(*state, texts(timed@)),
{
    let mut facts: Vec<String> = Vec::new();
    match &state.playback.current {
        Some(id) => {
            facts.push(id.provider.clone());
            facts.push(id.video_id.clone());
        },
        None => {},
    }
    facts.push(decimal(timed.len() as u64));
    facts.push(timed[0].clone());
    facts.push(timed[timed.len() - 1].clone());
    proof {
        let all = texts(timed@);
        let last = seq![decimal_digits(all.len()), all[0], all.last()];
        match &state.playback.current {
            Some(id) => {
                assert(texts(facts@) =~= seq![id.provider@, id.video_id@] + last);
            },
            None => {
                assert(texts(facts@) =~= last);
            },
        }
    }
    DatasetKey::Listed(facts)
}

fn source_line(document: &LyricsDocument, theme: &Theme) -> (line: Line)
    ensures
        line@ == attribution(document.source, *theme),
{
    let source = match document.source {
        LyricsSource::YouTubeMusic => "Source: YouTube Music",
        LyricsSource::Lrclib => "Source: LRCLIB",
    };
    Line::from_styled(source.to_owned(), Style::new().fg(theme.muted))
}

/// The lines of the lyrics window.
pub fn lyrics_overlay_lines_with_motion(
    state: &AppState,
    overlay: &LyricsOverlayState,
    available_rows: usize,
    available_width: usize,
    theme: &Theme,
    spinner_index: usize,
    motion_memory: &mut ViewportMemory,
    now_ms: u64,
) -> (lines: Vec<Line>)
    requires
        old(motion_memory)@.wf(),
    ensures
        final(motion_memory)@.wf(),
        (final(motion_memory)@, line_views(lines@)) == lyrics_window(
            old(motion_memory)@,
            *state,
            *overlay,
            available_rows as nat,
            available_width as nat,
            *theme,
            spinner_index,
            now_ms,
        ),
{
    let mut lines: Vec<Line> = Vec::new();
    let row_limit: usize = if available_rows < MAX_RENDERED_ROWS {
        available_rows
    } else {
        MAX_RENDERED_ROWS
    };
    assert(line_views(lines@) =~= Seq::<LineView>::empty());
    if row_limit == 0 || available_width == 0 {
        return lines;
    }
    if state.lyrics.loading {
        lines.push(loading_label(spinner_index, "Loading lyrics…", available_width));
        assert(line_views(lines@) =~= seq![lines@[0]@]);
        return lines;
    }
    let document = match &state.lyrics.document {
        Some(document) => document,
        None => {
            lines.push(Line::from_text("Lyrics unavailable".to_owned()));
            assert(line_views(lines@) =~= seq![lines@[0]@]);
            return lines;
        },
    };
    lines.push(source_line(document, theme));
    let ghost source = attribution(document.source, *theme);
    assert(line_views(lines@) =~= seq![source]);
    let content_rows: usize = row_limit - 1;
    if content_rows == 0 {
        return lines;
    }
    if document.instrumental {
        lines.push(Line::from_text("Instrumental".to_owned()));
        assert(line_views(lines@) =~= seq![source, raw_line("Instrumental"@)]);
        return lines;
    }
    if document.timed.len() > 0 {
        return timed_lines(
            state,
            overlay,
            document,
            lines,
            content_rows,
            available_width,
            theme,
            motion_memory,
            now_ms,
        );
    }
    match &document.plain {
        Some(plain) => {
            let mut page = wrap_lyrics_text(
                plain.as_str(),
                overlay.scroll,
                content_rows,
                available_width,
            );
            let ghost page_views = line_views(page@);
            lines.append(&mut page);
            assert(line_views(lines@) =~= seq![source] + page_views);
        },
        None => {
            assert(line_views(lines@) =~= seq![source] + Seq::<LineView>::empty());
        },
    }
    lines
}

fn timed_lines(
    state: &AppState,
    overlay: &LyricsOverlayState,
    document: &LyricsDocument,
    first: Vec<Line>,
    content_rows: usize,
    available_width: usize,
    theme: &Theme,
    motion_memory: &mut ViewportMemory,
    now_ms: u64,
) -> (lines: Vec<Line>)
    requires
        old(motion_memory)@.wf(),
        state.lyrics.document == Some(*document),
        document.timed@.len() > 0,
        0 < content_rows,
        line_views(first@) == seq![attribution(document.source, *theme)],
    ensures
        final(motion_memory)@.wf(),
        ({
            let timed = texts(document.timed@);
            let focused = focused_line(*state, *overlay, timed.len() as int);
            let range = timed_range(
                *state,
                *overlay,
                timed.len() as int,
                content_rows as int,
            );
            let (after, presentation) = old(motion_memory)@.with_selection(
                ListSurface::Lyrics,
                timed.len() as usize,
                Some(focused as usize),
                range,
                lyrics_key(*state, timed),
                now_ms,
            );
            &&& final(motion_memory)@ == after
            &&& line_views(lines@) == seq![attribution(document.source, *theme)] + Seq::new(
                (range.end - range.start) as nat,
                |offset: int|
                    timed_line(
                        *state,
                        *overlay,
                        presentation,
                        timed[range.start + offset],
                        range.start + offset,
                        focused,
                        available_width as nat,
                        *theme,
                    ),
            )
        }),
{
    let total: usize = document.timed.len();
    let wanted = if overlay.follow_active {
        state.lyrics.active_line_index
    } else {
        overlay.selected_line
    };
    let focused: usize = match wanted {
        Some(line) => if line < total - 1 {
            line
        } else {
            total - 1
        },
        None => 0,
    };
    assert(focused == focused_line(*state, *overlay, total as int));
    let anchor: usize = if overlay.follow_active {
        focused
    } else if overlay.scroll < total - 1 {
        overlay.scroll
    } else {
        total - 1
    };
    let max_start: usize = total.saturating_sub(content_rows);
    let centered: usize = anchor.saturating_sub(content_rows / 2);
    let start: usize = if centered < max_start {
        centered
    } else {
        max_start
    };
    let end: usize = if content_rows < total - start {
        start + content_rows
    } else {
        total
    };
    let range = RowRange { start, end };
    let ghost timed = texts(document.timed@);
    assert(range == timed_range(*state, *overlay, total as int, content_rows as int));
    let key = key_of_lyrics(state, &document.timed);
    let presentation = motion_memory.present_selection(
        ListSurface::Lyrics,
        total,
        Some(focused),
        range,
        key,
        now_ms,
    );
    let ghost source = attribution(document.source, *theme);
    let mut lines = first;
    assert(line_views(first@).len() == first@.len());
    assert(lines@[0]@ == line_views(first@)[0]);
    let mut index: usize = start;
    while index < end
        invariant
            timed == texts(document.timed@),
            start <= index <= end <= document.timed.len(),
            lines.len() == index - start + 1,
            lines@[0]@ == source,
            forall|i: int|
                0 <= i < index - start ==> (#[trigger] lines@[i + 1])@ == timed_line(
                    *state,
                    *overlay,
                    presentation,
                    timed[start + i],
                    start + i,
                    focused as int,
                    available_width as nat,
                    *theme,
                ),
        decreases end - index,
    {
        assert(timed[index as int] == document.timed@[index as int]@);
        lines.push(
            timed_line_of(
                state,
                overlay,
                presentation,
                document.timed[index].as_str(),
                index,
                focused,
                available_width,
                theme,
            ),
        );
        index = index + 1;
    }
    proof {
        let expected = seq![source] + Seq::new(
            (range.end - range.start) as nat,
            |offset: int|
                timed_line(
                    *state,
                    *overlay,
                    presentation,
                    timed[range.start + offset],
                    range.start + offset,
                    focused as int,
                    available_width as nat,
                    *theme,
                ),
        );
        assert forall|i: int| 0 <= i < expected.len() implies line_views(lines@)[i]
            == expected[i] by {
            if i > 0 {
                assert(lines@[(i - 1) + 1]@ == line_views(lines@)[i]);
            }
        }
        assert(line_views(lines@) =~= expected);
    }
    lines
}

/// A change that is done has the color it goes to.
proof fn lemma_blend_settles(start: Color, end: Color, progress: u16)
    requires
        progress >= 1_000,
    ensures
        blended(start, end, progress) == end,
{
    if let (Color::Rgb(r, g, b), Color::Rgb(s, h, c)) = (start, end) {
        lemma_channel_settles(r, s, progress);
        lemma_channel_settles(g, h, progress);
        lemma_channel_settles(b, c, progress);
    }
}

proof fn lemma_channel_settles(start: u8, end: u8, progress: u16)
    requires
        progress >= 1_000,
    ensures
        blended_channel(start, end, progress) == end,
{
    let done = least(progress as int, 1_000);
    assert(start * (1_000 - done) == 0) by (nonlinear_arith)
        requires
            done == 1_000,
    ;
}

/// A change of lines ends where it leads: once it is done, the old line looks
/// like any other, and the new one like the line that is sung.
pub proof fn law_change_of_lines_settles(
    theme: Theme,
    outgoing: usize,
    incoming: usize,
    other: usize,
    transition: LyricTransition,
)
    requires
        transition.progress_millis >= 1_000,
        transition.incoming_index == incoming,
        transition.outgoing_index == Some(outgoing),
        incoming != outgoing,
        other != incoming,
        other != outgoing,
    ensures
        lyric_style(theme, outgoing, incoming, Some(transition)) == lyric_style(
            theme,
            other,
            incoming,
            Some(transition),
        ),
        lyric_style(theme, incoming, incoming, Some(transition)) == lyric_style(
            theme,
            incoming,
            incoming,
            None,
        ),
{
    lemma_blend_settles(theme.accent, theme.muted, transition.progress_millis);
    lemma_blend_settles(theme.muted, theme.accent, transition.progress_millis);
    lemma_blend_settles(theme.muted, theme.accent, 1_000);
}

/// At most one of the two lines of a change stands out.
pub proof fn law_one_line_stands_out(
    first: usize,
    second: usize,
    active: usize,
    transition: Option<LyricTransition>,
)
    requires
        first != second,
    ensures
        !(stands_out(first, active, transition) && stands_out(second, active, transition)),
{
}

/// The clusters that fit into a row.
pub open spec fn narrow_pieces(pieces: Seq<Seq<char>>, limit: int) -> Seq<Seq<char>>
    decreases pieces.len(),
{
    if pieces.len() == 0 {
        Seq::empty()
    } else if cells(pieces.last()) <= limit {
        narrow_pieces(pieces.drop_last(), limit).push(pieces.last())
    } else {
        narrow_pieces(pieces.drop_last(), limit)
    }
}

/// Breaking a line into rows loses nothing but clusters wider than a row, and
/// changes no order. The row that is being filled never gets too wide.
pub proof fn law_wrapping_keeps_the_text(pieces: Seq<Seq<char>>, limit: nat)
    requires
        forall|i: int| 0 <= i < pieces.len() ==> (#[trigger] pieces[i]).len() > 0,
    ensures
        ({
            let wrapped = wrapped_pieces(pieces, limit as int);
            &&& joined(wrapped.rows) + wrapped.current == joined(
                narrow_pieces(pieces, limit as int),
            )
            &&& 0 <= wrapped.width <= limit
            &&& wrapped.current.len() == 0 ==> wrapped.width == 0
        }),
    decreases pieces.len(),
{
    let limit_columns = limit as int;
    if pieces.len() == 0 {
        assert(joined(Seq::<Seq<char>>::empty()) + Seq::<char>::empty() =~= joined(
            narrow_pieces(pieces, limit_columns),
        ));
    } else {
        let before = wrapped_pieces(pieces.drop_last(), limit_columns);
        let after = wrapped_pieces(pieces, limit_columns);
        let piece = pieces.last();
        let kept = narrow_pieces(pieces.drop_last(), limit_columns);
        assert(piece == pieces[pieces.len() - 1]);
        law_wrapping_keeps_the_text(pieces.drop_last(), limit);
        assert(before.rows.push(before.current).drop_last() =~= before.rows);
        assert(kept.push(piece).drop_last() =~= kept);
        assert(joined(before.rows.push(before.current)) == joined(before.rows) + before.current);
        assert(joined(kept.push(piece)) == joined(kept) + piece);
        assert(joined(after.rows) + after.current =~= joined(
            narrow_pieces(pieces, limit_columns),
        ));
        assert(cells(piece) >= 0);
    }
}

/// A page of lyrics has no more rows than there is room for, and no fewer than
/// fit.
pub proof fn law_lyrics_page_is_full(text: Seq<char>, start: nat, row_limit: nat, width: nat)
    ensures
        lyrics_page(text, start as int, row_limit as int, width).len() == least(
            row_limit as int,
            lyrics_rows(text, width).len() as int,
        ),
{
}

/// How far a change of lines is does not move anything: the same lines are shown
/// with the same text, whatever the change.
pub proof fn law_change_of_lines_moves_nothing(
    state: AppState,
    other: AppState,
    max_rows: nat,
    width: nat,
    theme: Theme,
)
    requires
        state.lyrics.document == other.lyrics.document,
        state.lyrics.active_line_index == other.lyrics.active_line_index,
    ensures
        current_lyrics(state, max_rows, width, theme).len() == current_lyrics(
            other,
            max_rows,
            width,
            theme,
        ).len(),
        forall|row: int|
            0 <= row < current_lyrics(state, max_rows, width, theme).len() ==> contents(
                (#[trigger] current_lyrics(state, max_rows, width, theme)[row]).spans,
            ) == contents(current_lyrics(other, max_rows, width, theme)[row].spans),
{
    let lines = current_lyrics(state, max_rows, width, theme);
    let others = current_lyrics(other, max_rows, width, theme);
    assert forall|row: int| 0 <= row < lines.len() implies contents((#[trigger] lines[row]).spans)
        == contents(others[row].spans) by {
        assert(contents(lines[row].spans) =~= contents(others[row].spans));
    }
}

/// Without colors a line of lyrics is told apart by bold and dim alone.
pub proof fn law_colorless_lyrics_are_uncolored(
    theme: Theme,
    line: usize,
    active: usize,
    transition: Option<LyricTransition>,
)
    requires
        theme.shows() == ColorCapability::Monochrome,
    ensures
        lyric_style(theme, line, active, transition).fg is None,
        lyric_style(theme, line, active, transition).bold == stands_out(line, active, transition),
        lyric_style(theme, line, active, transition).dim == !stands_out(line, active, transition),
{
}

} // verus!
