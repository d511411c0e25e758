//! What the player tells, and where, down to the smallest screen.

use vstd::prelude::*;
use vstd::string::*;

use crate::text::{decimal_digits, two_digits};
use crate::ui::bars::{has_duration, progress_bar};
use crate::ui::cells::{cells, clipped, first_width, prefix_in_cells};
use crate::ui::interaction::{overlap, with_hit, Hit};
use crate::ui::layout::{inside, Rect};
use crate::ui::line::{text_of_line, LineView};
use crate::ui::motion::ProgressView;
use crate::ui::player::{
    control_hits, control_regions, control_tier, control_views, controls_layout, controls_text,
    creator_or_nothing, duration_text, fade_after, icon_text, identity_minimum, joined_controls,
    known_text,
    minimum_width, one_cell_text, player_hits, playing_title, plays_podcast, progress_hits,
    progress_width, quality_after, short_duration_text, short_identity, speed_after, suffix_width,
    tiny_before, tiny_controls_fit, tiny_facts, tiny_fields, tiny_fixed, tiny_player,
    tiny_separators, total_cells, ControlRegion, ControlTier, ControlsView,
};
use crate::ui::state::{AppState, FadeActivity};
use crate::ui::theme::Theme;

verus! {

/// A time is told in hours, minutes and seconds, without the hours where there are none.
pub proof fn law_a_time_is_told_by_the_clock(
    hours: nat,
    minutes: nat,
    seconds: nat,
    milliseconds: nat,
)
    requires
        minutes < 60,
        seconds < 60,
        milliseconds < 1_000,
    ensures
        ({
            let time = 3_600_000 * hours + 60_000 * minutes + 1_000 * seconds + milliseconds;
            duration_text(time) == (if hours > 0 {
                decimal_digits(hours) + ":"@
            } else {
                Seq::empty()
            }) + two_digits(minutes) + ":"@ + two_digits(seconds)
        }),
{
    let time = 3_600_000 * hours + 60_000 * minutes + 1_000 * seconds + milliseconds;
    let whole = 3_600 * hours + 60 * minutes + seconds;
    assert(time / 1_000 == whole);
    assert(whole / 3_600 == hours);
    assert(whole % 3_600 == 60 * minutes + seconds);
    assert((60 * minutes + seconds) / 60 == minutes);
    assert(whole % 60 == seconds);
    let told = (if hours > 0 {
        decimal_digits(hours) + ":"@
    } else {
        Seq::<char>::empty()
    }) + two_digits(minutes) + ":"@ + two_digits(seconds);
    assert(duration_text(time) =~= told);
}

/// In little room a time is told in minutes and seconds below ten minutes, then in minutes,
/// then in hours, as long as three digits are enough.
pub proof fn law_a_time_is_told_shortly(minutes: nat, seconds: nat, milliseconds: nat)
    requires
        seconds < 60,
        milliseconds < 1_000,
    ensures
        ({
            let told = short_duration_text(60_000 * minutes + 1_000 * seconds + milliseconds);
            &&& minutes < 10 ==> told == decimal_digits(minutes) + ":"@ + two_digits(seconds)
            &&& 10 <= minutes < 1_000 ==> told == decimal_digits(minutes) + "m"@
            &&& 1_000 <= minutes < 60_000 ==> told == decimal_digits(minutes / 60) + "h"@
            &&& 60_000 <= minutes ==> told == "999+"@
        }),
{
    let time = 60_000 * minutes + 1_000 * seconds + milliseconds;
    let whole = 60 * minutes + seconds;
    assert(time / 1_000 == whole);
    assert(whole / 60 == minutes);
    assert(whole / 3_600 == minutes / 60);
    assert(whole % 60 == seconds);
}

/// How much room the controls need beside the shortest bar.
pub open spec fn needed(state: AppState, tier: ControlTier, required: Seq<char>) -> int {
    cells(controls_text(control_views(state), tier)) + 1 + 5 + if required.len() == 0 {
        0
    } else {
        3 + cells(required)
    }
}

/// The controls are named as fully as there is room for them and for the shortest bar.
pub proof fn law_controls_are_named_as_fully_as_fits(state: AppState, width: int, required: Seq<char>)
    ensures
        control_tier(state, width, required) == ControlTier::Full <==> needed(
            state,
            ControlTier::Full,
            required,
        ) <= width,
        control_tier(state, width, required) == ControlTier::Compact <==> needed(
            state,
            ControlTier::Full,
            required,
        ) > width && needed(state, ControlTier::Compact, required) <= width,
{
}

/// The bar has the room that the controls and what is told behind it leave, up to twenty
/// cells.
pub proof fn law_the_bar_has_the_room_that_is_left(state: AppState, width: int, required: Seq<char>)
    ensures
        ({
            let tier = control_tier(state, width, required);
            let bar = progress_width(state, width, required);
            let rest = cells(controls_text(control_views(state), tier)) + 1 + if required.len()
                == 0 {
                0
            } else {
                3 + cells(required)
            };
            &&& 0 <= bar <= 20
            &&& rest <= width ==> rest + bar <= width
            &&& rest <= width && rest + bar < width ==> bar == 20
            &&& tier != ControlTier::Tiny ==> bar >= 5
        }),
{
}

/// The controls stand first, then the bar, then what is told of the queue, and last what is
/// told of the sound.
pub proof fn law_controls_stand_before_the_bar(
    controls: Seq<char>,
    bar: LineView,
    required: Seq<char>,
    optional: Seq<char>,
)
    requires
        required.len() > 0,
    ensures
        ({
            let line = joined_controls(controls, bar, required, optional);
            &&& line.spans.len() == bar.spans.len() + 3
            &&& line.spans[0].content == controls + " "@
            &&& line.spans.subrange(1, (1 + bar.spans.len()) as int) == bar.spans
            &&& line.spans[(1 + bar.spans.len()) as int].content == "   "@ + required
            &&& line.spans.last().content == optional
        }),
        joined_controls(controls, bar, Seq::empty(), optional).spans[(1
            + bar.spans.len()) as int].content.len() == 0,
{
    let line = joined_controls(controls, bar, required, optional);
    assert(line.spans.subrange(1, (1 + bar.spans.len()) as int) =~= bar.spans);
}

/// The bar can be clicked where it is drawn: a cell behind the controls, over its whole
/// width, and only where there is something to go to.
pub proof fn law_the_bar_stands_behind_the_controls(
    state: AppState,
    width: nat,
    required: Seq<char>,
    optional: Seq<char>,
    theme: Theme,
    progress: ProgressView,
)
    ensures
        ({
            let layout = controls_layout(state, width, required, optional, theme, progress);
            let tier = control_tier(state, width as int, required);
            let controls = cells(controls_text(control_views(state), tier));
            let bar = progress_bar(
                state,
                progress_width(state, width as int, required),
                progress,
                theme,
            );
            &&& layout.progress is Some <==> has_duration(state) && cells(text_of_line(bar)) >= 2
            &&& layout.progress matches Some((offset, length)) ==> {
                &&& controls + 1 <= u16::MAX ==> offset == controls + 1
                &&& length == cells(text_of_line(bar)) as u16
            }
            &&& layout.controls == control_regions(control_views(state), tier, 0)
        }),
{
}

/// What is known of the sound is told, its format before its coding; what is not known has a
/// sign of its own.
pub proof fn law_the_sound_is_told(state: AppState, label: Seq<char>, text: String)
    ensures
        known_text(Some(text)) == text@,
        known_text(None) == "?"@,
        !state.presentation.quality.known ==> quality_after(state, label).len() == 0,
        state.presentation.quality.known ==> quality_after(state, label) == label + known_text(
            state.presentation.quality.format_id,
        ) + "/"@ + known_text(state.presentation.quality.codec),
{
}

/// A change of volume is told while there is one, and the speed of a podcast always.
pub proof fn law_fades_and_speeds_are_told(state: AppState, label: Seq<char>)
    ensures
        state.presentation.fade matches Some(fade) ==> fade_after(state, label) == label
            + fade.label@,
        state.presentation.fade is None ==> fade_after(state, label).len() == 0,
        plays_podcast(state) ==> speed_after(state, label) == label
            + state.playback.speed_in_hundredths@ + "×"@,
        !plays_podcast(state) ==> speed_after(state, label).len() == 0,
{
}

proof fn lemma_control_rows(
    hits: Seq<Hit>,
    visible: Rect,
    row: u16,
    controls: Seq<ControlRegion>,
)
    requires
        visible.y <= row,
        row < u16::MAX,
    ensures
        hits.is_prefix_of(control_hits(hits, visible, row, controls)),
        forall|i: int|
            hits.len() <= i < control_hits(hits, visible, row, controls).len() ==> (
            #[trigger] control_hits(hits, visible, row, controls)[i]).area.y == row,
    decreases controls.len(),
{
    if controls.len() > 0 {
        lemma_control_rows(hits, visible, row, controls.drop_last());
    }
}

proof fn lemma_progress_rows(
    hits: Seq<Hit>,
    visible: Rect,
    row: u16,
    offset: u16,
    width: u16,
    count: nat,
)
    requires
        visible.y <= row,
        row < u16::MAX,
    ensures
        hits.is_prefix_of(progress_hits(hits, visible, row, offset, width, count)),
        forall|i: int|
            hits.len() <= i < progress_hits(hits, visible, row, offset, width, count).len() ==> (
            #[trigger] progress_hits(hits, visible, row, offset, width, count)[i]).area.y == row,
    decreases count,
{
    if count > 0 {
        lemma_progress_rows(hits, visible, row, offset, width, (count - 1) as nat);
    }
}

/// The controls and the bar are clicked in the third line of the player.
pub proof fn law_the_player_is_clicked_in_its_third_line(
    hits: Seq<Hit>,
    area: Rect,
    layout: ControlsView,
    index: int,
)
    requires
        area.y + area.height <= u16::MAX,
        area.height >= 5,
        hits.len() <= index < player_hits(hits, area, layout).len(),
    ensures
        player_hits(hits, area, layout)[index].area.y == area.y + 3,
{
    let visible = inside(area);
    let row = (visible.y + 2) as u16;
    lemma_control_rows(hits, visible, row, layout.controls);
    let before = control_hits(hits, visible, row, layout.controls);
    if let Some((offset, width)) = layout.progress {
        if width >= 2 {
            lemma_progress_rows(before, visible, row, offset, width, width as nat);
            if index < before.len() {
                assert(player_hits(hits, area, layout)[index] == before[index]);
            }
        }
    }
}

/// On the smallest screen the player tells its state, how far it is, how loud it is, how the
/// queue is played, the speed of a podcast, and last the sound, as far as it is known.
pub proof fn law_the_smallest_player_tells_in_order(state: AppState)
    ensures
        ({
            let facts = tiny_facts(state);
            let podcast = plays_podcast(state);
            let known = state.presentation.quality.known;
            let volume = if state.playback.target_volume < 100 {
                state.playback.target_volume as nat
            } else {
                100
            };
            let arrow = match state.presentation.fade {
                None => "·"@,
                Some(fade) => if fade.activity == FadeActivity::In {
                    "↑"@
                } else {
                    "↓"@
                },
            };
            &&& facts.len() == 4 + (if podcast {
                1int
            } else {
                0int
            }) + (if known {
                1int
            } else {
                0int
            })
            &&& facts[0] == icon_text(state.playback.status)
            &&& state.playback.duration_ms matches Some(duration) ==> facts[1]
                == short_duration_text(state.playback.position_ms as nat) + "/"@
                + short_duration_text(duration as nat)
            &&& state.playback.duration_ms is None ==> facts[1] == short_duration_text(
                state.playback.position_ms as nat,
            ) + "/"@ + "--"@
            &&& facts[2] == "v"@ + decimal_digits(volume) + "/"@
                + state.presentation.bounded_volume@ + arrow
            &&& podcast ==> facts[4] == "x"@ + state.playback.speed_in_tenths@
            &&& known ==> facts.last() == "q"@ + one_cell_text(
                known_text(state.presentation.quality.format_id),
            ) + "/"@ + one_cell_text(known_text(state.presentation.quality.codec))
        }),
{
}

/// One cell of a name is its beginning, or a sign where nothing of it can be shown.
pub proof fn law_one_cell_of_a_name(label: Seq<char>)
    ensures
        prefix_in_cells(label, 1).len() > 0 ==> one_cell_text(label) == prefix_in_cells(label, 1),
        prefix_in_cells(label, 1).len() == 0 ==> one_cell_text(label) == "?"@,
{
}

/// Whether a title and a creator are shown in so many cells each.
pub open spec fn shares_room(
    shown: Seq<char>,
    title: Seq<char>,
    creator: Seq<char>,
    title_room: int,
    creator_room: int,
) -> bool {
    shown == prefix_in_cells(title, title_room as nat) + "/"@ + prefix_in_cells(
        creator,
        creator_room as nat,
    )
}

/// A title and its creator share their room: each has what it needs at least, and of the rest
/// each has half, the title a cell more where it cannot be halved.
pub proof fn law_title_and_creator_share_their_room(
    title: Seq<char>,
    creator: Seq<char>,
    budget: int,
)
    requires
        creator.len() > 0,
        minimum_width(title) + 1 + minimum_width(creator) <= budget,
    ensures
        exists|title_room: int, creator_room: int|
            {
                &&& #[trigger] shares_room(
                    short_identity(title, creator, budget),
                    title,
                    creator,
                    title_room,
                    creator_room,
                )
                &&& title_room + 1 + creator_room == budget
                &&& 0 <= (title_room - minimum_width(title)) - (creator_room - minimum_width(
                    creator,
                )) <= 1
                &&& creator_room >= minimum_width(creator)
            },
{
    let extra = budget - 1 - minimum_width(title) - minimum_width(creator);
    let title_room = minimum_width(title) + (extra + 1) / 2;
    let creator_room = minimum_width(creator) + extra / 2;
    assert(shares_room(
        short_identity(title, creator, budget),
        title,
        creator,
        title_room,
        creator_room,
    ));
}

/// Where there is no room for a creator, the title has it all.
pub proof fn law_a_title_goes_before_its_creator(title: Seq<char>, creator: Seq<char>, budget: int)
    requires
        0 < budget,
        creator.len() == 0 || budget < minimum_width(title) + 1 + minimum_width(creator),
    ensures
        short_identity(title, creator, budget) == prefix_in_cells(title, budget as nat),
{
}

/// On the smallest screen the title stands second, behind the state, and the other facts and
/// the controls follow in their order.
pub proof fn law_the_title_stands_behind_the_state(state: AppState, width: int)
    ensures
        ({
            let fields = tiny_fields(state, width);
            let facts = tiny_facts(state);
            &&& fields[0] == facts[0]
            &&& forall|i: int| 1 <= i < facts.len() ==> fields[i + 1] == #[trigger] facts[i]
            &&& tiny_controls_fit(state, width) ==> fields.len() == facts.len() + 2
                && fields.last() == controls_text(control_views(state), ControlTier::Tiny)
            &&& !tiny_controls_fit(state, width) ==> fields.len() == facts.len() + 1
        }),
{
}

/// The fields of the smallest player follow each other, with a blank behind each as long as
/// there are blanks.
pub proof fn law_the_fields_follow_each_other(fields: Seq<Seq<char>>, blanks: int, index: int)
    requires
        0 <= index < fields.len(),
    ensures
        tiny_before(fields, blanks, 0).len() == 0,
        index < blanks && index + 1 < fields.len() ==> tiny_before(fields, blanks, index + 1)
            == tiny_before(fields, blanks, index) + fields[index] + " "@,
        index >= blanks || index + 1 == fields.len() ==> tiny_before(fields, blanks, index + 1)
            == tiny_before(fields, blanks, index) + fields[index],
{
}

/// The title of the smallest player is where the fields before it end, and its controls are
/// clicked where theirs does.
pub proof fn law_the_smallest_player_is_clicked_where_it_is_drawn(state: AppState, width: nat)
    ensures
        ({
            let player = tiny_player(state, width);
            let fields = tiny_fields(state, width as int);
            let blanks = tiny_separators(state, width as int);
            &&& player.identity.0 == cells(tiny_before(fields, blanks, 1)) as u16
            &&& player.identity.1 == cells(fields[1]) as u16
            &&& tiny_controls_fit(state, width as int) ==> player.controls == control_regions(
                control_views(state),
                ControlTier::Tiny,
                cells(tiny_before(fields, blanks, fields.len() - 1)) as u16,
            )
            &&& !tiny_controls_fit(state, width as int) ==> player.controls.len() == 0
        }),
{
}

/// The controls of the smallest player are there where all facts, the least of the title, and
/// a blank between each two fields leave room for them.
pub proof fn law_the_smallest_controls_need_their_room(state: AppState, width: int)
    ensures
        tiny_controls_fit(state, width) <==> total_cells(tiny_facts(state)) + identity_minimum(
            playing_title(state),
            creator_or_nothing(state),
        ) + cells(controls_text(control_views(state), ControlTier::Tiny)) + (tiny_facts(state).len()
            + 1) <= width,
{
}

} // verus!
