//! What is switched on and what the player needs.

use vstd::prelude::*;
use vstd::string::*;

use crate::text::{append_decimal, decimal_digits};
use crate::ui::cells::{truncate_cells, truncated};
use crate::ui::layout::least;
use crate::ui::line::{line_views, raw_line, Line, LineView};
use crate::ui::player::{on_off, on_off_text};
use crate::ui::state::{AppState, DependencyRow};

verus! {

/// The lines that are always there.
pub open spec fn fixed_settings(state: AppState, width: nat, max_fps: u8) -> Seq<LineView> {
    seq![
        raw_line("Playback settings"@),
        raw_line(
            truncated(
                "Target volume: "@ + decimal_digits(state.playback.target_volume as nat) + "%"@,
                width,
            ),
        ),
        raw_line("Lyrics: "@ + on_off_text(state.switches.lyrics)),
        raw_line("External sync: "@ + on_off_text(state.switches.lyrics_external_sync)),
        raw_line("Animated artwork: "@ + on_off_text(state.switches.animated_artwork)),
        raw_line("Spectrum visualizer: "@ + on_off_text(state.switches.visualizer)),
        raw_line(
            truncated(
                "Spectrum frame-rate cap: "@ + decimal_digits(max_fps as nat) + " FPS"@,
                width,
            ),
        ),
        raw_line(
            truncated("Playback speed: "@ + state.playback.speed_in_hundredths@ + "×"@, width),
        ),
        raw_line(
            truncated(
                "Fade in/out: "@ + decimal_digits(state.presentation.fade_in_ms as nat)
                    + " ms / "@ + decimal_digits(state.presentation.fade_out_ms as nat)
                    + " ms"@,
                width,
            ),
        ),
        raw_line(
            if state.dependencies.browsing_available {
                "Browsing available"@
            } else {
                "Browsing unavailable"@
            },
        ),
        raw_line(
            if state.dependencies.playback_available {
                "Playback available"@
            } else {
                "Playback unavailable"@
            },
        ),
    ]
}

/// The line for something that the player needs.
pub open spec fn dependency_line(row: DependencyRow, width: nat) -> LineView {
    raw_line(truncated(row.component@ + " · "@ + row.status@ + " · "@ + row.detail@, width))
}

/// The last line.
pub open spec fn recheck_line(checking: bool) -> LineView {
    raw_line(
        if checking {
            "… Rechecking dependencies"@
        } else {
            "[d] Recheck dependencies"@
        },
    )
}

/// Every line of the settings.
pub open spec fn all_settings(state: AppState, width: nat, max_fps: u8) -> Seq<LineView> {
    fixed_settings(state, width, max_fps) + state.dependencies.rows@.map_values(
        |row: DependencyRow| dependency_line(row, width),
    ) + seq![recheck_line(state.dependencies.checking)]
}

/// The lines of the settings that there is room for.
pub open spec fn settings_lines(
    state: AppState,
    row_limit: nat,
    width: nat,
    max_fps: u8,
) -> Seq<LineView> {
    let all = all_settings(state, width, max_fps);
    all.take(least(row_limit as int, all.len() as int))
}

fn switch_line(label: &str, value: bool) -> (line: Line)
    ensures
        line@ == raw_line(label@ + on_off_text(value)),
{
    let mut text = label.to_owned();
    text.append(on_off(value));
    Line::from_text(text)
}

fn number_line(label: &str, value: u64, unit: &str, width: usize) -> (line: Line)
    ensures
        line@ == raw_line(
            truncated(label@ + decimal_digits(value as nat) + unit@, width as nat),
        ),
{
    let mut text = label.to_owned();
    append_decimal(&mut text, value);
    text.append(unit);
    Line::from_text(truncate_cells(text.as_str(), width))
}

fn line_of_dependency(row: &DependencyRow, width: usize) -> (line: Line)
    ensures
        line@ == dependency_line(*row, width as nat),
{
    let mut text = row.component.clone();
    text.append(" · ");
    text.append(row.status.as_str());
    text.append(" · ");
    text.append(row.detail.as_str());
    Line::from_text(truncate_cells(text.as_str(), width))
}

fn fixed_lines(state: &AppState, available_width: usize, visualizer_max_fps: u8) -> (lines: Vec<Line>)
    ensures
        line_views(lines@) == fixed_settings(
            *state,
            available_width as nat,
            visualizer_max_fps,
        ),
{
    let mut speed = "Playback speed: ".to_owned();
    speed.append(state.playback.speed_in_hundredths.as_str());
    speed.append("×");
    let mut fade = "Fade in/out: ".to_owned();
    append_decimal(&mut fade, state.presentation.fade_in_ms);
    fade.append(" ms / ");
    append_decimal(&mut fade, state.presentation.fade_out_ms);
    fade.append(" ms");
    let lines: Vec<Line> = vec![
        Line::from_text("Playback settings".to_owned()),
        number_line(
            "Target volume: ",
            state.playback.target_volume as u64,
            "%",
            available_width,
        ),
        switch_line("Lyrics: ", state.switches.lyrics),
        switch_line("External sync: ", state.switches.lyrics_external_sync),
        switch_line("Animated artwork: ", state.switches.animated_artwork),
        switch_line("Spectrum visualizer: ", state.switches.visualizer),
        number_line(
            "Spectrum frame-rate cap: ",
            visualizer_max_fps as u64,
            " FPS",
            available_width,
        ),
        Line::from_text(truncate_cells(speed.as_str(), available_width)),
        Line::from_text(truncate_cells(fade.as_str(), available_width)),
        Line::from_text(
            if state.dependencies.browsing_available {
                "Browsing available".to_owned()
            } else {
                "Browsing unavailable".to_owned()
            },
        ),
        Line::from_text(
            if state.dependencies.playback_available {
                "Playback available".to_owned()
            } else {
                "Playback unavailable".to_owned()
            },
        ),
    ];
    assert(line_views(lines@) =~= fixed_settings(
        *state,
        available_width as nat,
        visualizer_max_fps,
    ));
    lines
}

/// What is switched on and what the player needs.
pub fn lines(
    state: &AppState,
    row_limit: usize,
    available_width: usize,
    visualizer_max_fps: u8,
) -> (lines: Vec<Line>)
    ensures
        line_views(lines@) == settings_lines(
            *state,
            row_limit as nat,
            available_width as nat,
            visualizer_max_fps,
        ),
{
    let mut lines = fixed_lines(state, available_width, visualizer_max_fps);
    let rows = &state.dependencies.rows;
    let ghost all = all_settings(*state, available_width as nat, visualizer_max_fps);
    let ghost fixed = line_views(lines@);
    assert(fixed.len() == lines@.len());
    assert(fixed =~= all.take(11));
    let mut index: usize = 0;
    while index < rows.len() && lines.len() < row_limit
        invariant
            rows == &state.dependencies.rows,
            all == all_settings(*state, available_width as nat, visualizer_max_fps),
            index <= rows.len(),
            lines.len() == 11 + index,
            index > 0 ==> lines.len() <= row_limit,
            line_views(lines@) == all.take(11 + index),
        decreases rows.len() - index,
    {
        let ghost before = lines@;
        lines.push(line_of_dependency(&rows[index], available_width));
        index = index + 1;
        proof {
            assert(line_views(lines@) =~= line_views(before).push(lines@.last()@));
            assert(all[10 + index] == dependency_line(
                rows@[index - 1],
                available_width as nat,
            ));
            assert(all.take(11 + index) =~= all.take(10 + index).push(all[10 + index]));
        }
    }
    if lines.len() < row_limit {
        let ghost before = lines@;
        lines.push(
            Line::from_text(
                if state.dependencies.checking {
                    "… Rechecking dependencies".to_owned()
                } else {
                    "[d] Recheck dependencies".to_owned()
                },
            ),
        );
        assert(line_views(lines@) =~= line_views(before).push(lines@.last()@));
        assert(line_views(lines@) =~= all);
    }
    let ghost before = lines@;
    lines.truncate(row_limit);
    proof {
        assert(line_views(lines@) =~= line_views(before).take(
            least(row_limit as int, before.len() as int),
        ));
        assert(line_views(lines@) =~= settings_lines(
            *state,
            row_limit as nat,
            available_width as nat,
            visualizer_max_fps,
        ));
    }
    lines
}

/// The settings take no more lines than there are rows for.
pub proof fn law_settings_fit(state: AppState, row_limit: nat, width: nat, max_fps: u8)
    ensures
        settings_lines(state, row_limit, width, max_fps).len() <= row_limit,
{
}

} // verus!
