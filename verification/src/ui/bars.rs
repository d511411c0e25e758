//! The progress bar and the bars of the spectrum.

use vstd::prelude::*;
use vstd::string::*;

use crate::domain::PlaybackStatus;
use crate::ui::layout::{floored_difference, greatest, least};
use crate::ui::line::{
    line_of, line_views, span_views, styled_line, styled_span, Line, LineView, Span, SpanView,
};
use crate::ui::motion::{ProgressPresentation, ProgressView};
use crate::ui::spectrum::{
    SpectrumPresentation, SpectrumPresentationView, MAX_SPECTRUM_BANDS, MAX_SPECTRUM_LEVEL,
};
use crate::ui::state::AppState;
use crate::ui::theme::{plain, Color, ColorCapability, Style, Theme};

verus! {

/// The number that lies `numerator / denominator` of the way from `start` to
/// `end`, rounded towards `start`.
pub open spec fn between(start: int, end: int, numerator: int, denominator: int) -> int {
    if start <= end {
        start + (end - start) * numerator / denominator
    } else {
        start - (start - end) * numerator / denominator
    }
}

/// `left * right`, or the largest count.
pub open spec fn capped_product(left: int, right: int) -> int {
    least(left * right, usize::MAX as int)
}

fn saturating_product(left: usize, right: usize) -> (product: usize)
    ensures
        product == capped_product(left as int, right as int),
{
    match left.checked_mul(right) {
        Some(product) => product,
        None => usize::MAX,
    }
}

/// `value / divisor`, rounded up.
fn divided_up(value: usize, divisor: usize) -> (quotient: usize)
    requires
        divisor > 0,
    ensures
        quotient == (value + divisor - 1) / (divisor as int),
{
    let whole: usize = value / divisor;
    let rest: usize = value % divisor;
    proof {
        let (value, divisor) = (value as int, divisor as int);
        let (whole, rest) = (whole as int, rest as int);
        vstd::arithmetic::div_mod::lemma_fundamental_div_mod(value, divisor);
        if rest == 0 {
            vstd::arithmetic::div_mod::lemma_fundamental_div_mod_converse(
                value + divisor - 1,
                divisor,
                whole,
                divisor - 1,
            );
        } else {
            assert(divisor * (whole + 1) == divisor * whole + divisor) by (nonlinear_arith);
            vstd::arithmetic::div_mod::lemma_fundamental_div_mod_converse(
                value + divisor - 1,
                divisor,
                whole + 1,
                rest - 1,
            );
            assert(whole < value) by (nonlinear_arith)
                requires
                    value == divisor * whole + rest,
                    0 < rest,
                    0 < divisor,
                    0 <= whole,
            ;
        }
    }
    if rest == 0 {
        whole
    } else {
        whole + 1
    }
}

proof fn lemma_part(distance: int, numerator: int, denominator: int)
    requires
        0 <= distance,
        0 <= numerator <= denominator,
        0 < denominator,
    ensures
        0 <= distance * numerator / denominator <= distance,
        0 <= distance * numerator,
{
    assert(0 <= distance * numerator <= distance * denominator) by (nonlinear_arith)
        requires
            0 <= distance,
            0 <= numerator <= denominator,
    ;
    vstd::arithmetic::div_mod::lemma_div_is_ordered(
        distance * numerator,
        distance * denominator,
        denominator,
    );
    vstd::arithmetic::div_mod::lemma_div_multiples_vanish(distance, denominator);
    assert(denominator * distance == distance * denominator) by (nonlinear_arith);
    vstd::arithmetic::div_mod::lemma_div_pos_is_pos(distance * numerator, denominator);
}

proof fn lemma_between(start: int, end: int, numerator: int, denominator: int)
    requires
        0 <= numerator <= denominator,
        0 < denominator,
    ensures
        least(start, end) <= between(start, end, numerator, denominator) <= greatest(start, end),
{
    if start <= end {
        lemma_part(end - start, numerator, denominator);
    } else {
        lemma_part(start - end, numerator, denominator);
    }
}

/// The channel of a color that lies `numerator / denominator` of the way between
/// two colors.
pub open spec fn mixed_channel(start: u8, end: u8, numerator: int, denominator: int) -> u8 {
    if denominator == 0 {
        start
    } else {
        between(start as int, end as int, least(numerator, denominator), denominator) as u8
    }
}

fn lerp_channel(start: u8, end: u8, numerator: u16, denominator: u16) -> (channel: u8)
    ensures
        channel == mixed_channel(start, end, numerator as int, denominator as int),
{
    if denominator == 0 {
        return start;
    }
    let numerator: u32 = if numerator < denominator {
        numerator as u32
    } else {
        denominator as u32
    };
    let denominator: u32 = denominator as u32;
    proof {
        lemma_between(start as int, end as int, numerator as int, denominator as int);
    }
    if start <= end {
        let distance: u32 = (end - start) as u32;
        proof {
            lemma_part(distance as int, numerator as int, denominator as int);
            assert(distance * numerator <= 255 * 65_535) by (nonlinear_arith)
                requires
                    0 <= distance <= 255,
                    0 <= numerator <= 65_535,
            ;
        }
        start + (distance * numerator / denominator) as u8
    } else {
        let distance: u32 = (start - end) as u32;
        proof {
            lemma_part(distance as int, numerator as int, denominator as int);
            assert(distance * numerator <= 255 * 65_535) by (nonlinear_arith)
                requires
                    0 <= distance <= 255,
                    0 <= numerator <= 65_535,
            ;
        }
        start - (distance * numerator / denominator) as u8
    }
}

/// The color of a filled cell of the progress bar: from the accent at its
/// beginning to the color of selections at its end.
pub open spec fn bar_color(theme: Theme, index: int, width: int) -> Color {
    match (theme.accent, theme.selection) {
        (Color::Rgb(r, g, b), Color::Rgb(s, h, c)) => {
            let last = greatest(floored_difference(width, 1), 1);
            Color::Rgb(
                mixed_channel(r, s, index, last),
                mixed_channel(g, h, index, last),
                mixed_channel(b, c, index, last),
            )
        },
        _ => if index * 2 < width {
            theme.accent
        } else {
            theme.selection
        },
    }
}

/// The channel in the middle between two.
pub open spec fn middle_channel(start: u8, end: u8) -> u8 {
    ((start + end) / 2) as u8
}

/// The color of a filled cell of the progress bar; the cell that shines is
/// nearer to the color of text.
pub open spec fn progress_cell_color(theme: Theme, index: int, width: int, shines: bool) -> Color {
    let base = bar_color(theme, index, width);
    if shines {
        match (base, theme.foreground) {
            (Color::Rgb(r, g, b), Color::Rgb(s, h, c)) => Color::Rgb(
                middle_channel(r, s),
                middle_channel(g, h),
                middle_channel(b, c),
            ),
            _ => theme.foreground,
        }
    } else {
        base
    }
}

fn midpoint_channel(start: u8, end: u8) -> (channel: u8)
    ensures
        channel == middle_channel(start, end),
{
    ((start as u16 + end as u16) / 2) as u8
}

/// The channel of the cell `index` of a bar whose last cell is `last`.
fn interpolate_channel(start: u8, end: u8, index: usize, last: usize) -> (channel: u8)
    requires
        index <= last,
        0 < last,
        255 * last <= i64::MAX,
    ensures
        channel == mixed_channel(start, end, index as int, last as int),
{
    proof {
        lemma_between(start as int, end as int, index as int, last as int);
    }
    let distance: u64 = if start <= end {
        (end - start) as u64
    } else {
        (start - end) as u64
    };
    proof {
        lemma_part(distance as int, index as int, last as int);
        assert(distance * index <= 255 * last) by (nonlinear_arith)
            requires
                0 <= distance <= 255,
                0 <= index <= last,
        ;
    }
    let step: u64 = distance * index as u64 / last as u64;
    if start <= end {
        start + step as u8
    } else {
        start - step as u8
    }
}

fn progress_color(theme: &Theme, index: usize, width: usize, shines: bool) -> (color: Color)
    requires
        index < width,
        255 * width <= i64::MAX,
    ensures
        color == progress_cell_color(*theme, index as int, width as int, shines),
{
    let base = match (theme.accent, theme.selection) {
        (Color::Rgb(r, g, b), Color::Rgb(s, h, c)) => {
            let last: usize = if width > 2 {
                width - 1
            } else {
                1
            };
            Color::Rgb(
                interpolate_channel(r, s, index, last),
                interpolate_channel(g, h, index, last),
                interpolate_channel(b, c, index, last),
            )
        },
        _ => if index < width - index {
            theme.accent
        } else {
            theme.selection
        },
    };
    if shines {
        match (base, theme.foreground) {
            (Color::Rgb(r, g, b), Color::Rgb(s, h, c)) => Color::Rgb(
                midpoint_channel(r, s),
                midpoint_channel(g, h),
                midpoint_channel(b, c),
            ),
            _ => theme.foreground,
        }
    } else {
        base
    }
}

/// A cell of which so many eighths are filled from the left.
pub open spec fn progress_glyph(eighths: int) -> Seq<char> {
    if eighths <= 0 {
        "░"@
    } else if eighths == 1 {
        "▏"@
    } else if eighths == 2 {
        "▎"@
    } else if eighths == 3 {
        "▍"@
    } else if eighths == 4 {
        "▌"@
    } else if eighths == 5 {
        "▋"@
    } else if eighths == 6 {
        "▊"@
    } else if eighths == 7 {
        "▉"@
    } else {
        "█"@
    }
}

/// Which cell of the progress bar shines.
pub open spec fn shining_cell(progress: ProgressView, width: int) -> int {
    let filled = greatest(least((progress.eighths(width) + 7) / 8, width), 1);
    progress.shine(filled)
}

/// A cell of the progress bar.
pub open spec fn progress_cell(
    progress: ProgressView,
    playing: bool,
    theme: Theme,
    width: int,
    index: int,
) -> SpanView {
    let eighths = least(floored_difference(progress.eighths(width), index * 8), 8);
    styled_span(
        progress_glyph(eighths),
        plain().on_fg(
            if eighths > 0 {
                progress_cell_color(
                    theme,
                    index,
                    width,
                    playing && shining_cell(progress, width) == index,
                )
            } else {
                theme.muted
            },
        ),
    )
}

/// So many copies of a character.
pub open spec fn repeated(character: char, count: nat) -> Seq<char> {
    Seq::new(count, |index: int| character)
}

/// Whether the length of what is played is known.
pub open spec fn has_duration(state: AppState) -> bool {
    state.playback.duration_ms matches Some(duration) && duration > 0
}

/// The progress bar.
pub open spec fn progress_bar(
    state: AppState,
    width: int,
    progress: ProgressView,
    theme: Theme,
) -> LineView {
    if width < 2 {
        line_of(Seq::empty())
    } else if !has_duration(state) {
        styled_line(repeated('─', width as nat), plain().on_fg(theme.muted))
    } else {
        line_of(
            Seq::new(
                width as nat,
                |index: int|
                    progress_cell(
                        progress,
                        state.playback.status == PlaybackStatus::Playing,
                        theme,
                        width,
                        index,
                    ),
            ),
        )
    }
}

fn glyph_of_eighths(eighths: usize) -> (glyph: &'static str)
    ensures
        glyph@ == progress_glyph(eighths as int),
{
    match eighths {
        0 => "░",
        1 => "▏",
        2 => "▎",
        3 => "▍",
        4 => "▌",
        5 => "▋",
        6 => "▊",
        7 => "▉",
        _ => "█",
    }
}

/// So many copies of a character.
pub fn repeat(character: char, count: usize) -> (text: String)
    ensures
        text@ == repeated(character, count as nat),
{
    let mut text = String::new();
    let mut index: usize = 0;
    while index < count
        invariant
            index <= count,
            text@ == repeated(character, index as nat),
        decreases count - index,
    {
        text.push(character);
        index = index + 1;
        assert(text@ =~= repeated(character, index as nat));
    }
    assert(text@ =~= repeated(character, count as nat));
    text
}

/// The progress bar. The colors of its cells are mixed in 64 bits, which no bar
/// that fits in memory exceeds. Where the length of what is played is known, how a
/// bar of this width is filled is taken from `progress`.
pub fn progress_bar_line(
    state: &AppState,
    width: usize,
    progress: &ProgressPresentation,
    theme: &Theme,
) -> (line: Line)
    requires
        has_duration(*state) ==> progress@.covers(width as int) && 255 * width <= i64::MAX,
    ensures
        line@ == progress_bar(*state, width as int, progress@, *theme),
{
    if width < 2 {
        let spans: Vec<Span> = Vec::new();
        assert(span_views(spans@) =~= Seq::<SpanView>::empty());
        return Line::from_spans(spans);
    }
    let known = match state.playback.duration_ms {
        Some(duration) => duration > 0,
        None => false,
    };
    if !known {
        return Line::from_styled(repeat('─', width), Style::new().fg(theme.muted));
    }
    let playing = state.playback.status == PlaybackStatus::Playing;
    let total: usize = progress.eighths(width);
    let filled: usize = {
        let started: usize = if total % 8 == 0 {
            total / 8
        } else {
            total / 8 + 1
        };
        let bounded: usize = if started < width {
            started
        } else {
            width
        };
        if bounded < 1 {
            1
        } else {
            bounded
        }
    };
    let shining: usize = progress.shine(filled);
    assert(shining == shining_cell(progress@, width as int));
    let mut spans: Vec<Span> = Vec::new();
    let mut index: usize = 0;
    while index < width
        invariant
            255 * width <= i64::MAX,
            index <= width,
            total == progress@.eighths(width as int),
            shining == shining_cell(progress@, width as int),
            playing == (state.playback.status == PlaybackStatus::Playing),
            spans.len() == index,
            forall|i: int|
                0 <= i < index ==> (#[trigger] spans@[i])@ == progress_cell(
                    progress@,
                    playing,
                    *theme,
                    width as int,
                    i,
                ),
        decreases width - index,
    {
        let left: usize = total.saturating_sub(saturating_product(index, 8));
        let eighths: usize = if left < 8 {
            left
        } else {
            8
        };
        let color = if eighths > 0 {
            progress_color(theme, index, width, playing && shining == index)
        } else {
            theme.muted
        };
        spans.push(
            Span::styled(glyph_of_eighths(eighths).to_owned(), Style::new().fg(color)),
        );
        index = index + 1;
    }
    let line = Line::from_spans(spans);
    assert(line@.spans =~= progress_bar(*state, width as int, progress@, *theme).spans);
    line
}

/// The highest level among the bands `start..end`.
pub open spec fn peak(levels: Seq<u8>, start: int, end: int) -> u8
    decreases end - start,
{
    if start >= end {
        0
    } else {
        greatest(peak(levels, start, end - 1) as int, levels[end - 1] as int) as u8
    }
}

/// The first of the bands that the band `index` of `count` shows.
pub open spec fn sample_start(bands: int, index: int, count: int) -> int {
    capped_product(index, bands) / count
}

/// The end of the bands that the band `index` of `count` shows.
pub open spec fn sample_end(bands: int, index: int, count: int) -> int {
    least((capped_product(index + 1, bands) + count - 1) / count, bands)
}

/// Levels brought to another number of bands. Each shows the highest of the
/// levels that it covers.
pub open spec fn resampled(levels: Seq<u8>, count: nat) -> Seq<u8> {
    if levels.len() == 0 || count == 0 {
        Seq::empty()
    } else {
        Seq::new(
            count,
            |index: int|
                peak(
                    levels,
                    sample_start(levels.len() as int, index, count as int),
                    sample_end(levels.len() as int, index, count as int),
                ),
        )
    }
}

proof fn lemma_sample_bounds(bands: int, index: int, count: int)
    requires
        0 < bands,
        0 <= index < count,
    ensures
        0 <= sample_start(bands, index, count) <= sample_end(bands, index, count) <= bands,
        sample_start(bands, index, count) < bands,
{
    let from = capped_product(index, bands);
    let to = capped_product(index + 1, bands);
    assert(0 <= index * bands && index * bands < count * bands && (index + 1) * bands == index
        * bands + bands) by (nonlinear_arith)
        requires
            0 < bands,
            0 <= index < count,
    ;
    vstd::arithmetic::div_mod::lemma_div_pos_is_pos(from, count);
    assert(from / count < bands) by (nonlinear_arith)
        requires
            0 < count,
            0 <= from < count * bands,
    ;
    vstd::arithmetic::div_mod::lemma_div_is_ordered(from, to + count - 1, count);
}

/// Levels brought to another number of bands.
pub fn resample_spectrum(levels: &[u8], band_count: usize) -> (result: Vec<u8>)
    ensures
        result@ == resampled(levels@, band_count as nat),
{
    let mut result: Vec<u8> = Vec::new();
    if levels.len() == 0 || band_count == 0 {
        return result;
    }
    let bands: usize = levels.len();
    let mut index: usize = 0;
    while index < band_count
        invariant
            0 < bands,
            bands == levels@.len(),
            index <= band_count,
            result@ == Seq::new(
                index as nat,
                |i: int|
                    peak(
                        levels@,
                        sample_start(bands as int, i, band_count as int),
                        sample_end(bands as int, i, band_count as int),
                    ),
            ),
        decreases band_count - index,
    {
        proof {
            lemma_sample_bounds(bands as int, index as int, band_count as int);
        }
        let start: usize = saturating_product(index, bands) / band_count;
        let rounded: usize = divided_up(saturating_product(index + 1, bands), band_count);
        let end: usize = if rounded < bands {
            rounded
        } else {
            bands
        };
        let mut highest: u8 = 0;
        let mut band: usize = start;
        while band < end
            invariant
                start <= band <= end <= levels@.len(),
                highest == peak(levels@, start as int, band as int),
            decreases end - band,
        {
            if levels[band] > highest {
                highest = levels[band];
            }
            band = band + 1;
        }
        result.push(highest);
        index = index + 1;
        assert(result@ =~= Seq::new(
            index as nat,
            |i: int|
                peak(
                    levels@,
                    sample_start(bands as int, i, band_count as int),
                    sample_end(bands as int, i, band_count as int),
                ),
        ));
    }
    result
}

/// A cell of which so many eighths are filled from below.
pub open spec fn bar_glyph(eighths: int) -> Seq<char> {
    if eighths <= 0 {
        " "@
    } else if eighths == 1 {
        "▁"@
    } else if eighths == 2 {
        "▂"@
    } else if eighths == 3 {
        "▃"@
    } else if eighths == 4 {
        "▄"@
    } else if eighths == 5 {
        "▅"@
    } else if eighths == 6 {
        "▆"@
    } else if eighths == 7 {
        "▇"@
    } else {
        "█"@
    }
}

/// A cell of which so many eighths are filled from below.
pub fn spectrum_glyph(eighths: usize) -> (glyph: &'static str)
    ensures
        glyph@ == bar_glyph(eighths as int),
{
    match eighths {
        0 => " ",
        1 => "▁",
        2 => "▂",
        3 => "▃",
        4 => "▄",
        5 => "▅",
        6 => "▆",
        7 => "▇",
        _ => "█",
    }
}

/// The channel of a band: from the accent at the lowest band over the color of
/// text in the middle to a brighter one at the highest band.
pub open spec fn band_channel(accent: u8, foreground: u8, band: int, bands: int) -> u8 {
    let last = floored_difference(bands, 1);
    let at = least(band, last);
    let middle = (last + 1) / 2;
    let most = u16::MAX as int;
    if at <= middle {
        mixed_channel(accent, foreground, least(at, most), least(middle, most))
    } else {
        mixed_channel(
            foreground,
            mixed_channel(foreground, 255, 1, 3),
            least(at - middle, most),
            least(last - middle, most),
        )
    }
}

/// How bright a level is, in hundredths.
pub open spec fn level_intensity(level: u8) -> int {
    60 + 40 * least(level as int, MAX_SPECTRUM_LEVEL as int) / (MAX_SPECTRUM_LEVEL as int)
}

/// The color of a band.
pub open spec fn band_color(
    theme: Theme,
    capability: ColorCapability,
    band: int,
    bands: int,
    level: u8,
) -> Color {
    match capability {
        ColorCapability::TrueColor => match (theme.accent, theme.foreground) {
            (Color::Rgb(r, g, b), Color::Rgb(s, h, c)) => {
                let intensity = level_intensity(level);
                Color::Rgb(
                    mixed_channel(0, band_channel(r, s, band, bands), intensity, 100),
                    mixed_channel(0, band_channel(g, h, band, bands), intensity, 100),
                    mixed_channel(0, band_channel(b, c, band, bands), intensity, 100),
                )
            },
            (Color::Rgb(_, _, _), foreground) => foreground,
            (accent, _) => accent,
        },
        ColorCapability::Monochrome => Color::Reset,
        _ => if level == 0 {
            theme.muted
        } else {
            let third = capped_product(band, 3) / greatest(bands, 1);
            if third == 0 {
                theme.accent
            } else if third == 1 {
                theme.selection
            } else {
                theme.foreground
            }
        },
    }
}

/// The style of a band.
pub open spec fn band_style(
    theme: Theme,
    capability: ColorCapability,
    band: int,
    bands: int,
    level: u8,
    muted: bool,
) -> Style {
    if capability == ColorCapability::Monochrome {
        if muted || level < MAX_SPECTRUM_LEVEL / 2 {
            plain().in_dim()
        } else {
            plain().in_bold()
        }
    } else if muted {
        plain().on_fg(theme.muted)
    } else {
        plain().on_fg(band_color(theme, capability, band, bands, level))
    }
}

fn short_count(count: usize) -> (short: u16)
    ensures
        short == least(count as int, u16::MAX as int),
{
    if count < 65_535 {
        count as u16
    } else {
        u16::MAX
    }
}

fn band_channel_of(accent: u8, foreground: u8, band: usize, bands: usize) -> (channel: u8)
    ensures
        channel == band_channel(accent, foreground, band as int, bands as int),
{
    let last: usize = bands.saturating_sub(1);
    let at: usize = if band < last {
        band
    } else {
        last
    };
    let middle: usize = last / 2 + last % 2;
    if at <= middle {
        lerp_channel(accent, foreground, short_count(at), short_count(middle))
    } else {
        lerp_channel(
            foreground,
            lerp_channel(foreground, 255, 1, 3),
            short_count(at - middle),
            short_count(last - middle),
        )
    }
}

/// The color of a band.
pub fn spectrum_color(
    theme: &Theme,
    capability: ColorCapability,
    band: usize,
    bands: usize,
    level: u8,
) -> (color: Color)
    ensures
        color == band_color(*theme, capability, band as int, bands as int, level),
{
    match capability {
        ColorCapability::TrueColor => match (theme.accent, theme.foreground) {
            (Color::Rgb(r, g, b), Color::Rgb(s, h, c)) => {
                let bounded: u16 = if level < MAX_SPECTRUM_LEVEL {
                    level as u16
                } else {
                    MAX_SPECTRUM_LEVEL as u16
                };
                let intensity: u16 = 60 + 40 * bounded / MAX_SPECTRUM_LEVEL as u16;
                Color::Rgb(
                    lerp_channel(0, band_channel_of(r, s, band, bands), intensity, 100),
                    lerp_channel(0, band_channel_of(g, h, band, bands), intensity, 100),
                    lerp_channel(0, band_channel_of(b, c, band, bands), intensity, 100),
                )
            },
            (Color::Rgb(_, _, _), foreground) => foreground,
            (accent, _) => accent,
        },
        ColorCapability::Monochrome => Color::Reset,
        _ => {
            if level == 0 {
                return theme.muted;
            }
            let count: usize = if bands < 1 {
                1
            } else {
                bands
            };
            let third: usize = saturating_product(band, 3) / count;
            if third == 0 {
                theme.accent
            } else if third == 1 {
                theme.selection
            } else {
                theme.foreground
            }
        },
    }
}

/// The style of a band.
pub fn spectrum_style(
    theme: &Theme,
    capability: ColorCapability,
    band: usize,
    bands: usize,
    level: u8,
    muted: bool,
) -> (style: Style)
    ensures
        style == band_style(*theme, capability, band as int, bands as int, level, muted),
{
    if capability == ColorCapability::Monochrome {
        return if muted || level < MAX_SPECTRUM_LEVEL / 2 {
            Style::new().dim()
        } else {
            Style::new().bold()
        };
    }
    if muted {
        Style::new().fg(theme.muted)
    } else {
        Style::new().fg(spectrum_color(theme, capability, band, bands, level))
    }
}

/// How many eighths of a row a level fills. The lowest row always shows
/// something.
pub open spec fn bar_eighths(level: u8, rows: int, row: int) -> int {
    let filled = capped_product(level as int, capped_product(rows, 8));
    let scaled = (filled + MAX_SPECTRUM_LEVEL - 1) / (MAX_SPECTRUM_LEVEL as int);
    let eighths = least(floored_difference(scaled, capped_product(rows - row - 1, 8)), 8);
    if row + 1 == rows && eighths == 0 {
        1
    } else {
        eighths
    }
}

/// The levels that are shown in so many bands.
pub open spec fn shown_levels(presentation: SpectrumPresentationView, bands: nat) -> Seq<u8> {
    match presentation.frame {
        Some(frame) => resampled(frame@, bands),
        None => Seq::new(bands, |index: int| 0u8),
    }
}

/// A cell of the spectrum.
pub open spec fn spectrum_cell(
    presentation: SpectrumPresentationView,
    rows: int,
    row: int,
    bands: int,
    band: int,
    level: u8,
    theme: Theme,
) -> SpanView {
    styled_span(
        bar_glyph(bar_eighths(level, rows, row)),
        band_style(
            theme,
            theme.shows(),
            band,
            bands,
            level,
            presentation.paused || presentation.failed,
        ),
    )
}

/// The rows of the spectrum.
pub open spec fn spectrum_rows(
    presentation: SpectrumPresentationView,
    rows: nat,
    width: nat,
    theme: Theme,
) -> Seq<LineView> {
    let bands = least(width as int, MAX_SPECTRUM_BANDS as int);
    let levels = shown_levels(presentation, bands as nat);
    if rows == 0 || width == 0 {
        Seq::empty()
    } else {
        Seq::new(
            rows,
            |row: int|
                line_of(
                    Seq::new(
                        levels.len(),
                        |band: int|
                            spectrum_cell(
                                presentation,
                                rows as int,
                                row,
                                bands,
                                band,
                                levels[band],
                                theme,
                            ),
                    ),
                ),
        )
    }
}

fn eighths_of(level: u8, rows: usize, row: usize) -> (eighths: usize)
    requires
        row < rows,
    ensures
        eighths == bar_eighths(level, rows as int, row as int),
{
    let filled: usize = saturating_product(level as usize, saturating_product(rows, 8));
    let scaled: usize = divided_up(filled, MAX_SPECTRUM_LEVEL as usize);
    let left: usize = scaled.saturating_sub(saturating_product(rows - row - 1, 8));
    let eighths: usize = if left < 8 {
        left
    } else {
        8
    };
    if row + 1 == rows && eighths == 0 {
        1
    } else {
        eighths
    }
}

/// The rows of the spectrum.
pub fn spectrum_lines(
    presentation: &SpectrumPresentation,
    rows: usize,
    available_width: usize,
    theme: &Theme,
) -> (lines: Vec<Line>)
    ensures
        line_views(lines@) == spectrum_rows(
            presentation@,
            rows as nat,
            available_width as nat,
            *theme,
        ),
{
    let mut lines: Vec<Line> = Vec::new();
    if rows == 0 || available_width == 0 {
        assert(line_views(lines@) =~= Seq::<LineView>::empty());
        return lines;
    }
    let bands: usize = if available_width < MAX_SPECTRUM_BANDS {
        available_width
    } else {
        MAX_SPECTRUM_BANDS
    };
    let levels: Vec<u8> = match presentation.frame() {
        Some(frame) => resample_spectrum(frame.levels(), bands),
        None => silent(bands),
    };
    assert(levels@ == shown_levels(presentation@, bands as nat));
    let muted = presentation.paused() || presentation.failed();
    let mut row: usize = 0;
    while row < rows
        invariant
            row <= rows,
            muted == (presentation@.paused || presentation@.failed),
            lines.len() == row,
            forall|r: int|
                0 <= r < row ==> (#[trigger] lines@[r])@ == line_of(
                    Seq::new(
                        levels@.len(),
                        |band: int|
                            spectrum_cell(
                                presentation@,
                                rows as int,
                                r,
                                bands as int,
                                band,
                                levels@[band],
                                *theme,
                            ),
                    ),
                ),
        decreases rows - row,
    {
        let mut spans: Vec<Span> = Vec::new();
        let mut band: usize = 0;
        while band < levels.len()
            invariant
                row < rows,
                muted == (presentation@.paused || presentation@.failed),
                band <= levels.len(),
                spans.len() == band,
                forall|i: int|
                    0 <= i < band ==> (#[trigger] spans@[i])@ == spectrum_cell(
                        presentation@,
                        rows as int,
                        row as int,
                        bands as int,
                        i,
                        levels@[i],
                        *theme,
                    ),
            decreases levels.len() - band,
        {
            let level: u8 = levels[band];
            let eighths: usize = eighths_of(level, rows, row);
            let style = spectrum_style(theme, theme.capability(), band, bands, level, muted);
            spans.push(Span::styled(spectrum_glyph(eighths).to_owned(), style));
            band = band + 1;
        }
        let line = Line::from_spans(spans);
        assert(line@.spans =~= Seq::new(
            levels@.len(),
            |band: int|
                spectrum_cell(
                    presentation@,
                    rows as int,
                    row as int,
                    bands as int,
                    band,
                    levels@[band],
                    *theme,
                ),
        ));
        lines.push(line);
        row = row + 1;
    }
    assert(line_views(lines@) =~= spectrum_rows(
        presentation@,
        rows as nat,
        available_width as nat,
        *theme,
    ));
    lines
}

fn silent(bands: usize) -> (levels: Vec<u8>)
    ensures
        levels@ == Seq::new(bands as nat, |index: int| 0u8),
{
    let mut levels: Vec<u8> = Vec::new();
    while levels.len() < bands
        invariant
            levels.len() <= bands,
            forall|i: int| 0 <= i < levels.len() ==> levels@[i] == 0,
        decreases bands - levels.len(),
    {
        levels.push(0);
    }
    assert(levels@ =~= Seq::new(bands as nat, |index: int| 0u8));
    levels
}

/// Bringing levels to fewer bands loses no peak: a band shows at least each
/// level that it covers.
pub proof fn law_resampling_keeps_peaks(levels: Seq<u8>, start: int, end: int, band: int)
    requires
        0 <= start <= band < end <= levels.len(),
    ensures
        peak(levels, start, end) >= levels[band],
    decreases end - start,
{
    if band < end - 1 {
        law_resampling_keeps_peaks(levels, start, end - 1, band);
    }
}

/// Every band is covered when levels are brought to fewer bands, as far as a count
/// holds the product of both.
pub proof fn law_resampling_covers_every_band(bands: int, count: int, band: int)
    requires
        0 < count <= bands,
        0 <= band < bands,
        count * bands <= usize::MAX,
    ensures
        exists|index: int|
            0 <= index < count && #[trigger] sample_start(bands, index, count) <= band < sample_end(
                bands,
                index,
                count,
            ),
{
    let index = band * count / bands;
    assert(0 <= index < count && index * bands <= band * count < (index + 1) * bands)
        by (nonlinear_arith)
        requires
            0 < count <= bands,
            0 <= band < bands,
            index == band * count / bands,
    ;
    assert((index + 1) * bands <= count * bands) by (nonlinear_arith)
        requires
            0 < bands,
            index < count,
    ;
    assert(index * bands / count <= band) by (nonlinear_arith)
        requires
            0 < count,
            index * bands <= band * count,
    ;
    assert(band < ((index + 1) * bands + count - 1) / count) by (nonlinear_arith)
        requires
            0 < count,
            band * count < (index + 1) * bands,
    ;
    assert(sample_start(bands, index, count) <= band < sample_end(bands, index, count));
}

/// Without colors the bands are told apart by bold and dim alone.
pub proof fn law_colorless_bands_are_uncolored(
    theme: Theme,
    band: int,
    bands: int,
    level: u8,
    muted: bool,
)
    ensures
        ({
            let style = band_style(theme, ColorCapability::Monochrome, band, bands, level, muted);
            &&& style.fg is None
            &&& style.bg is None
            &&& style.bold != style.dim
        }),
{
}

/// The spectrum fills the rows it is given, with a cell for each column as far as
/// there are bands; without levels it is a quiet baseline.
pub proof fn law_spectrum_fills_its_rows(
    presentation: SpectrumPresentationView,
    rows: nat,
    width: nat,
    theme: Theme,
)
    requires
        rows > 0,
        width > 0,
        presentation.frame matches Some(frame) ==> frame@.len() > 0,
    ensures
        spectrum_rows(presentation, rows, width, theme).len() == rows,
        forall|row: int|
            0 <= row < rows ==> (#[trigger] spectrum_rows(
                presentation,
                rows,
                width,
                theme,
            )[row]).spans.len() == least(width as int, MAX_SPECTRUM_BANDS as int),
        presentation.frame is None ==> forall|row: int, band: int|
            0 <= row < rows && 0 <= band < least(width as int, MAX_SPECTRUM_BANDS as int) ==> (
            #[trigger] spectrum_rows(presentation, rows, width, theme)[row].spans[band]).content
                == bar_glyph(
                if row + 1 == rows {
                    1
                } else {
                    0
                },
            ),
{
}

} // verus!
