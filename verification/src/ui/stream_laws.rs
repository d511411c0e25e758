//! What is read from decoders, and what is shown of it.

use std::sync::Arc;

use vstd::prelude::*;
use vstd::string::*;

use crate::text::{contains_part, decimal_digits, seconds_text};
use crate::text_laws::law_a_part_has_the_rest_around_it;
use crate::ui::animation::{
    argument_texts, clamped, decode_step, filter_text, next_revision, AnimationError,
    AnimationKeyView, AnimationLease, AnimationRequestView, AnimationStoreView, DecodeAction,
    DecodeEvent, DecodeStage,
};
use crate::ui::artwork::{frame_cell, ArtworkGrid, CellSize};
use crate::ui::spectrum::{
    finite_bits, is_band_of, non_finite_count, sample_bits, spectrum_argument_texts,
    spectrum_decode_step, valid_levels, SpectrumDecodeAction, SpectrumDecodeEvent, SpectrumError,
    SpectrumFrame, SpectrumKeyView, SpectrumRequestView, SpectrumRunView, SpectrumStep,
    SpectrumStoreView, SpectrumWorkerView,
};

verus! {

/// Every change has a number of its own, one after the other.
pub proof fn law_changes_are_counted(value: u64)
    ensures
        next_revision(value) != value,
        value < u64::MAX ==> next_revision(value) == value + 1,
        value == u64::MAX ==> next_revision(value) == 0,
{
}

/// A number is kept between two others, and stays as it is where it lies there.
pub proof fn law_numbers_are_kept_between(value: int, low: int, high: int)
    requires
        low <= high,
    ensures
        low <= clamped(value, low, high) <= high,
        low <= value <= high ==> clamped(value, low, high) == value,
        value < low ==> clamped(value, low, high) == low,
        value > high ==> clamped(value, low, high) == high,
{
}

/// A spectrum that is asked for shows nothing yet, and takes the levels of its run alone.
pub proof fn law_a_spectrum_starts_afresh(
    store: SpectrumStoreView,
    key: SpectrumKeyView,
    run: SpectrumRunView,
)
    requires
        store.last_lease < u64::MAX,
    ensures
        ({
            let after = store.requested(key);
            &&& after.shown(key).frame is None
            &&& !after.shown(key).paused
            &&& !after.shown(key).failed
            &&& after.accepts(run) <==> run.key == key && run.lease.0 == store.last_lease + 1
            &&& after.last_lease == store.last_lease + 1
            &&& after.redraw == store.redraw
        }),
        store.next_run(key).key == key,
        store.next_run(key).lease.0 == store.last_lease + 1,
{
}

/// Levels that are taken are shown, and the picture is drawn again.
pub proof fn law_levels_are_shown(
    store: SpectrumStoreView,
    run: SpectrumRunView,
    frame: Arc<SpectrumFrame>,
)
    requires
        store.accepts(run),
    ensures
        store.published(frame).shown(run.key).frame == Some(frame),
        !store.published(frame).shown(run.key).paused,
        !store.published(frame).shown(run.key).failed,
        store.published(frame).accepts(run),
        store.published(frame).redraw != store.redraw,
        store.published(frame).last_lease == store.last_lease,
{
}

/// A spectrum that goes on takes levels again, of its new run alone; pausing, going on,
/// failing and stopping are drawn.
pub proof fn law_a_spectrum_goes_on(
    store: SpectrumStoreView,
    run: SpectrumRunView,
    other: SpectrumRunView,
    key: SpectrumKeyView,
)
    requires
        store.can_pause(run),
        store.last_lease < u64::MAX,
    ensures
        store.halted().resumed().accepts(other) <==> other.key == run.key && other.lease.0
            == store.last_lease + 1,
        store.halted().redraw != store.redraw,
        store.halted().resumed().redraw != store.halted().redraw,
        store.broken().redraw != store.redraw,
        store.cleared().redraw != store.redraw,
        store.cleared().shown(key).frame is None,
        !store.cleared().shown(key).paused,
        !store.cleared().shown(key).failed,
        !store.cleared().accepts(other),
{
}

/// What a run may do to a spectrum: with levels only while it neither pauses nor has failed,
/// and nothing where it is another's.
pub proof fn law_a_run_has_its_rights(store: SpectrumStoreView, run: SpectrumRunView)
    ensures
        store.runs(run) ==> {
            let shown = store.shown(run.key);
            &&& store.accepts(run) <==> !shown.paused && !shown.failed
            &&& store.can_pause(run) <==> !shown.failed
            &&& store.can_resume(run) <==> shown.paused && !shown.failed
            &&& store.can_fail(run) <==> !shown.paused
        },
        !store.runs(run) ==> !store.accepts(run) && !store.can_pause(run) && !store.can_resume(run)
            && !store.can_fail(run),
{
}

/// A request is drawn no more often than 30 times a second, and at least once; nothing else
/// of it changes, and where it starts is another matter.
pub proof fn law_a_request_keeps_its_source(request: SpectrumRequestView, max_fps: u8, start_ms: u64)
    ensures
        ({
            let paced = request.paced(max_fps);
            &&& 1 <= paced.max_fps <= 30
            &&& 1 <= max_fps <= 30 ==> paced.max_fps == max_fps
            &&& paced.key == request.key
            &&& paced.stream_url == request.stream_url
            &&& paced.start_ms == request.start_ms
        }),
        request.starting_at(start_ms).start_ms == start_ms,
        request.starting_at(start_ms).key == request.key,
        request.starting_at(start_ms).stream_url == request.stream_url,
        request.starting_at(start_ms).max_fps == request.max_fps,
{
}

/// A worker that is given a request retires what ran, and runs what was asked for, at its own
/// rate, for a spectrum that shows nothing yet.
pub proof fn law_a_worker_runs_what_it_is_given(
    worker: SpectrumWorkerView,
    store: SpectrumStoreView,
    request: SpectrumRequestView,
    after: SpectrumWorkerView,
    store_after: SpectrumStoreView,
    step: SpectrumStep,
)
    requires
        worker.wf(),
        store.last_lease < u64::MAX,
        worker.replaced(store, request, after, store_after, step),
    ensures
        step.retire <==> worker.active is Some,
        step.start matches Some((started, run)) && {
            &&& started@.key == request.key
            &&& started@.stream_url == request.stream_url
            &&& started@.start_ms == request.start_ms
            &&& started@.max_fps == worker.max_fps
            &&& store_after.accepts(run@)
            &&& after.active == Some((started@, run@))
        },
        after.paused is None,
        after.max_fps == worker.max_fps,
        after.request() matches Some(active) && active.key == request.key,
        store_after.shown(request.key).frame is None,
{
}

/// A worker without numbers left starts nothing and shows nothing.
pub proof fn law_a_worker_without_numbers_stops(
    worker: SpectrumWorkerView,
    store: SpectrumStoreView,
    request: SpectrumRequestView,
    after: SpectrumWorkerView,
    store_after: SpectrumStoreView,
    step: SpectrumStep,
)
    requires
        store.last_lease == u64::MAX,
        worker.replaced(store, request, after, store_after, step),
    ensures
        step.retire <==> worker.active is Some,
        step.start is None,
        after.request() is None,
        store_after.shown(request.key).frame is None,
{
}

/// A sample is written in four bytes, the lowest first.
pub proof fn law_samples_begin_with_their_lowest_byte(bytes: Seq<u8>, sample: int, value: u32)
    requires
        0 <= sample,
        4 * sample + 4 <= bytes.len(),
        bytes[4 * sample] == value % 256,
        bytes[4 * sample + 1] == value / 256 % 256,
        bytes[4 * sample + 2] == value / 65_536 % 256,
        bytes[4 * sample + 3] == value / 16_777_216,
    ensures
        sample_bits(bytes, sample) == value,
{
}

/// The samples that are no numbers are those from the infinite on, with either sign.
pub proof fn law_numbers_stay_below_the_infinite(bits: int)
    requires
        0 <= bits < 0x1_0000_0000,
    ensures
        finite_bits(bits) <==> bits < 0x7f80_0000 || 0x8000_0000 <= bits < 0xff80_0000,
{
}

/// The samples that are no numbers are counted.
pub proof fn law_no_numbers_are_counted(bytes: Seq<u8>, samples: nat)
    ensures
        non_finite_count(bytes, samples) == Seq::new(
            samples,
            |i: int| sample_bits(bytes, i),
        ).filter(|bits: int| !finite_bits(bits)).len(),
    decreases samples,
{
    reveal(Seq::filter);
    let all = Seq::new(samples, |i: int| sample_bits(bytes, i));
    if samples > 0 {
        let before = (samples - 1) as nat;
        law_no_numbers_are_counted(bytes, before);
        assert(all.drop_last() =~= Seq::new(before, |i: int| sample_bits(bytes, i)));
        assert(all.last() == sample_bits(bytes, samples - 1));
    }
}

/// A window with at most 64 samples that are no numbers is analysed, with silence in their
/// places and everything else as it was read; one with more ends the decoding.
pub proof fn law_windows_are_analysed_as_they_are_read(
    before: u64,
    bytes: Vec<u8>,
    after: u64,
    action: SpectrumDecodeAction,
    sample: int,
)
    requires
        spectrum_decode_step(before, SpectrumDecodeEvent::WindowRead(bytes), after, action),
        0 <= sample < 512,
    ensures
        after == before,
        non_finite_count(bytes@, 512) <= 64 ==> {
            &&& action matches SpectrumDecodeAction::Analyse(samples)
            &&& samples@.len() == 512
            &&& finite_bits(sample_bits(bytes@, sample)) ==> samples@[sample] == sample_bits(
                bytes@,
                sample,
            )
            &&& !finite_bits(sample_bits(bytes@, sample)) ==> samples@[sample] == 0
        },
        non_finite_count(bytes@, 512) > 64 ==> action == SpectrumDecodeAction::Kill(
            Err(SpectrumError::DecodeFailed),
        ),
{
}

/// How an analysis ends: well where it was cancelled or its decoder ended well after it showed
/// something, and with the reason where it did not.
pub proof fn law_an_analysis_ends_with_its_reason(
    before: u64,
    event: SpectrumDecodeEvent,
    after: u64,
    action: SpectrumDecodeAction,
)
    requires
        spectrum_decode_step(before, event, after, action),
    ensures
        event is Cancelled ==> action == SpectrumDecodeAction::Kill(Ok(())),
        event is DeadlineReached ==> action == SpectrumDecodeAction::Kill(
            Err(SpectrumError::ResourceLimit),
        ),
        event is ReadFailed ==> action == SpectrumDecodeAction::Kill(
            Err(SpectrumError::DecodeFailed),
        ),
        event is WaitFailed ==> action == SpectrumDecodeAction::Finish(
            Err(SpectrumError::DecodeFailed),
        ),
        event == (SpectrumDecodeEvent::Exited { success: true }) ==> action
            == SpectrumDecodeAction::Finish(Ok(())),
        event == (SpectrumDecodeEvent::Exited { success: false }) ==> action
            == SpectrumDecodeAction::Finish(Err(SpectrumError::DecodeFailed)),
        event is EndOfOutput && before > 0 ==> action is AwaitExit,
        event is EndOfOutput && before == 0 ==> action == SpectrumDecodeAction::Kill(
            Err(SpectrumError::DecodeFailed),
        ),
        event == SpectrumDecodeEvent::Analysed(None) ==> action == SpectrumDecodeAction::Kill(
            Err(SpectrumError::DecodeFailed),
        ),
        event matches SpectrumDecodeEvent::Analysed(Some(frame)) ==> (action
            == SpectrumDecodeAction::ShowThenRead(frame) || action
            == SpectrumDecodeAction::ShowThenKill(frame, Err(SpectrumError::ResourceLimit))),
        event matches SpectrumDecodeEvent::Analysed(Some(frame)) ==> before < 230_399 ==> action
            == SpectrumDecodeAction::ShowThenRead(frame),
{
}

/// Every place of a spectrum belongs to one band, and later places to later bands.
pub proof fn law_bands_follow_each_other(
    first_bins: Seq<usize>,
    bin: int,
    later_bin: int,
    band: int,
    later_band: int,
)
    requires
        forall|i: int, j: int|
            0 <= i < j < first_bins.len() ==> #[trigger] first_bins[i] < #[trigger] first_bins[j],
        bin <= later_bin,
        is_band_of(first_bins, bin, band),
        is_band_of(first_bins, later_bin, later_band),
    ensures
        band <= later_band,
        bin == later_bin ==> band == later_band,
        first_bins[band] <= bin,
{
    if band > later_band {
        if band > later_band + 1 {
            assert(first_bins[later_band + 1] < first_bins[band]);
        }
    }
    if bin == later_bin && band < later_band {
        if later_band > band + 1 {
            assert(first_bins[band + 1] < first_bins[later_band]);
        }
    }
}

/// A spectrum has up to 64 levels, none of them above 24.
pub proof fn law_levels_have_a_limit(levels: Seq<u8>)
    ensures
        valid_levels(levels) <==> 1 <= levels.len() <= 64 && (forall|i: int|
            0 <= i < levels.len() ==> #[trigger] levels[i] <= 24),
{
}

/// Whether an argument stands right behind its option.
pub open spec fn has_option(arguments: Seq<Seq<char>>, option: Seq<char>, value: Seq<char>) -> bool {
    exists|i: int|
        0 <= i < arguments.len() - 1 && #[trigger] arguments[i] == option && arguments[i + 1]
            == value
}

/// Whether one argument stands before another.
pub open spec fn comes_before(arguments: Seq<Seq<char>>, first: Seq<char>, second: Seq<char>) -> bool {
    exists|i: int, j: int|
        0 <= i < j < arguments.len() && #[trigger] arguments[i] == first
            && #[trigger] arguments[j] == second
}

/// A decoder is asked for the sound of its source from its start on: one channel of 8000
/// samples a second, as numbers, with its limits on what it reads before it starts.
pub proof fn law_the_sound_is_asked_for(request: SpectrumRequestView)
    ensures
        ({
            let arguments = spectrum_argument_texts(request);
            &&& has_option(arguments, "-i"@, request.stream_url)
            &&& has_option(arguments, "-ss"@, seconds_text(request.start_ms as nat))
            &&& has_option(arguments, "-t"@, decimal_digits(14_400))
            &&& has_option(arguments, "-ac"@, "1"@)
            &&& has_option(arguments, "-ar"@, decimal_digits(8_000))
            &&& has_option(arguments, "-acodec"@, "pcm_f32le"@)
            &&& has_option(arguments, "-f"@, "f32le"@)
            &&& has_option(arguments, "-readrate"@, "1"@)
            &&& has_option(arguments, "-max_alloc"@, decimal_digits(33_554_432))
            &&& has_option(arguments, "-probesize"@, decimal_digits(1_048_576))
            &&& has_option(arguments, "-analyzeduration"@, decimal_digits(5_000_000))
            &&& has_option(arguments, "-rw_timeout"@, decimal_digits(10_000_000))
            &&& has_option(arguments, "-loglevel"@, "error"@)
            &&& comes_before(arguments, "-ss"@, "-i"@)
            &&& comes_before(arguments, "-max_alloc"@, "-i"@)
            &&& comes_before(arguments, "-readrate"@, "-i"@)
            &&& comes_before(arguments, "-i"@, "-vn"@)
            &&& comes_before(arguments, "-i"@, "-t"@)
            &&& arguments.contains("-nostdin"@)
            &&& arguments.last() == "pipe:1"@
            &&& arguments.len() == 30
        }),
{
    let arguments = spectrum_argument_texts(request);
    assert(arguments[0] == "-nostdin"@);
    assert(arguments[2] == "-loglevel"@);
    assert(arguments[4] == "-max_alloc"@);
    assert(arguments[6] == "-probesize"@);
    assert(arguments[8] == "-analyzeduration"@);
    assert(arguments[10] == "-rw_timeout"@);
    assert(arguments[12] == "-readrate"@);
    assert(arguments[14] == "-ss"@);
    assert(arguments[16] == "-i"@);
    assert(arguments[18] == "-vn"@);
    assert(arguments[19] == "-t"@);
    assert(arguments[21] == "-ac"@);
    assert(arguments[23] == "-ar"@);
    assert(arguments[25] == "-acodec"@);
    assert(arguments[27] == "-f"@);
}

/// A decoder is asked for the pictures of its source from its start on, three bytes for each
/// point, with its limits on what it reads before it starts.
pub proof fn law_the_pictures_are_asked_for(request: AnimationRequestView)
    ensures
        ({
            let arguments = argument_texts(request);
            &&& has_option(arguments, "-i"@, request.preview_url)
            &&& has_option(arguments, "-ss"@, seconds_text(request.start_ms as nat))
            &&& has_option(arguments, "-t"@, decimal_digits(14_400))
            &&& has_option(arguments, "-vf"@, filter_text(request))
            &&& has_option(arguments, "-pix_fmt"@, "rgb24"@)
            &&& has_option(arguments, "-f"@, "rawvideo"@)
            &&& has_option(arguments, "-readrate"@, "1"@)
            &&& has_option(arguments, "-max_alloc"@, decimal_digits(67_108_864))
            &&& has_option(arguments, "-max_pixels"@, decimal_digits(16_777_216))
            &&& has_option(arguments, "-probesize"@, decimal_digits(1_048_576))
            &&& has_option(arguments, "-analyzeduration"@, decimal_digits(5_000_000))
            &&& has_option(arguments, "-rw_timeout"@, decimal_digits(10_000_000))
            &&& has_option(arguments, "-loglevel"@, "error"@)
            &&& comes_before(arguments, "-ss"@, "-i"@)
            &&& comes_before(arguments, "-max_alloc"@, "-i"@)
            &&& comes_before(arguments, "-max_pixels"@, "-i"@)
            &&& comes_before(arguments, "-readrate"@, "-i"@)
            &&& comes_before(arguments, "-i"@, "-an"@)
            &&& comes_before(arguments, "-i"@, "-t"@)
            &&& arguments.contains("-nostdin"@)
            &&& arguments.last() == "pipe:1"@
            &&& arguments.len() == 30
        }),
{
    let arguments = argument_texts(request);
    assert(arguments[0] == "-nostdin"@);
    assert(arguments[2] == "-loglevel"@);
    assert(arguments[4] == "-max_alloc"@);
    assert(arguments[6] == "-probesize"@);
    assert(arguments[8] == "-analyzeduration"@);
    assert(arguments[10] == "-rw_timeout"@);
    assert(arguments[12] == "-max_pixels"@);
    assert(arguments[14] == "-readrate"@);
    assert(arguments[16] == "-ss"@);
    assert(arguments[18] == "-i"@);
    assert(arguments[20] == "-an"@);
    assert(arguments[21] == "-t"@);
    assert(arguments[23] == "-vf"@);
    assert(arguments[25] == "-pix_fmt"@);
    assert(arguments[27] == "-f"@);
}

/// Pictures are asked for as often as they are shown, in the columns of the panel and twice
/// its rows, as each cell shows two points.
pub proof fn law_pictures_have_two_points_for_a_cell(request: AnimationRequestView)
    ensures
        ({
            let size = decimal_digits(request.key.size.width as nat) + ":"@ + decimal_digits(
                (2 * request.key.size.height) as nat,
            );
            let filter = filter_text(request);
            &&& contains_part(filter, "fps="@ + decimal_digits(request.max_fps as nat))
            &&& contains_part(filter, ",scale="@ + size)
            &&& contains_part(filter, ",pad="@ + size + ":(ow-iw)/2:(oh-ih)/2"@)
        }),
{
    reveal_strlit(":force_original_aspect_ratio=decrease,pad=");
    reveal_strlit(":force_original_aspect_ratio=decrease");
    reveal_strlit(",pad=");
    let rate = decimal_digits(request.max_fps as nat);
    let width = decimal_digits(request.key.size.width as nat);
    let height = decimal_digits((2 * request.key.size.height) as nat);
    let size = width + ":"@ + height;
    let filter = filter_text(request);
    let ratio = ":force_original_aspect_ratio=decrease,pad="@;
    let end = ":(ow-iw)/2:(oh-ih)/2"@;
    assert(ratio =~= ":force_original_aspect_ratio=decrease"@ + ",pad="@);
    assert(request.key.size.height * 2 == 2 * request.key.size.height);
    let first = "fps="@ + rate;
    let second = ",scale="@ + size;
    let third = ",pad="@ + size + end;
    let kept = ":force_original_aspect_ratio=decrease"@;
    assert(filter =~= Seq::<char>::empty() + first + (second + kept + third));
    law_a_part_has_the_rest_around_it(Seq::empty(), first, second + kept + third);
    assert(filter =~= first + second + (kept + third));
    law_a_part_has_the_rest_around_it(first, second, kept + third);
    assert(filter =~= (first + second + kept) + third + Seq::<char>::empty());
    law_a_part_has_the_rest_around_it(first + second + kept, third, Seq::empty());
}

/// Moving artwork that is asked for shows nothing yet, and takes the pictures of its run
/// alone.
pub proof fn law_moving_artwork_starts_afresh(
    store: AnimationStoreView,
    key: AnimationKeyView,
    other: AnimationKeyView,
    lease: AnimationLease,
)
    requires
        store.last_lease < u64::MAX,
    ensures
        ({
            let after = store.requested(key);
            &&& after.shows(other) <==> other == key
            &&& after.slot matches Some(slot) && slot.frame is None && !slot.paused && !slot.failed
            &&& after.accepts(other, lease) <==> other == key && lease.0 == store.last_lease + 1
            &&& after.last_lease == store.last_lease + 1
        }),
{
}

/// A picture that is taken is shown and drawn; a run that pauses takes none, and goes on
/// under a new number with the picture that it had.
pub proof fn law_moving_artwork_pauses_and_goes_on(
    store: AnimationStoreView,
    key: AnimationKeyView,
    lease: AnimationLease,
    frame: Arc<ArtworkGrid>,
    other: AnimationLease,
)
    requires
        store.accepts(key, lease),
        store.last_lease < u64::MAX,
    ensures
        store.published(frame).slot matches Some(slot) && slot.frame == Some(frame) && slot.key
            == key,
        store.published(frame).accepts(key, lease),
        store.published(frame).redraw != store.redraw,
        !store.halted().accepts(key, lease),
        store.halted().shows(key),
        store.halted().slot->0.frame == store.slot->0.frame,
        store.halted().resumed().accepts(key, other) <==> other.0 == store.last_lease + 1,
        store.halted().resumed().slot->0.frame == store.slot->0.frame,
        store.halted().resumed().last_lease == store.last_lease + 1,
        store.broken().slot->0.frame is None,
        !store.broken().accepts(key, lease),
        !store.cleared().shows(key),
        store.cleared().slot is None,
        store.lease_spent().last_lease == store.last_lease + 1,
        store.lease_spent().slot == store.slot,
{
}

/// A frame that was read is shown point for point, as long as frames are to come; the last
/// one is followed by the end, and one of another size is none.
pub proof fn law_frames_are_shown_as_they_are_read(
    size: CellSize,
    left: nat,
    bytes: Vec<u8>,
    after: DecodeStage,
    action: DecodeAction,
    column: int,
    row: int,
)
    requires
        left > 0,
        decode_step(size, DecodeStage::Reading(left), DecodeEvent::FrameRead(bytes), after, action),
        0 <= column < size.width,
        0 <= row < size.height,
    ensures
        bytes@.len() == size.width * size.height * 6 && left > 1 ==> {
            &&& action matches DecodeAction::ShowThenRead(grid)
            &&& grid.cell_size() == size
            &&& grid.cell_seq()[row * size.width + column] == frame_cell(
                bytes@,
                size.width as int,
                column,
                row,
            )
        },
        bytes@.len() == size.width * size.height * 6 && left == 1 ==> {
            &&& action matches DecodeAction::ShowThenAwait(grid)
            &&& grid.cell_size() == size
            &&& grid.cell_seq()[row * size.width + column] == frame_cell(
                bytes@,
                size.width as int,
                column,
                row,
            )
        },
        bytes@.len() != size.width * size.height * 6 ==> action == DecodeAction::Kill(
            Err(AnimationError::DecodeFailed),
        ),
{
}

/// How a decoding ends: well where it was cancelled or its decoder ended well, and with the
/// reason where it did not.
pub proof fn law_a_decoding_ends_with_its_reason(
    size: CellSize,
    before: DecodeStage,
    event: DecodeEvent,
    after: DecodeStage,
    action: DecodeAction,
)
    requires
        decode_step(size, before, event, after, action),
    ensures
        event is Cancelled ==> action == DecodeAction::Kill(Ok(())),
        event is DeadlineReached ==> action == DecodeAction::Kill(
            Err(AnimationError::ResourceLimit),
        ),
        event is ReadFailed ==> action == DecodeAction::Kill(Err(AnimationError::DecodeFailed)),
        event is WaitFailed ==> action == DecodeAction::Finish(Err(AnimationError::DecodeFailed)),
        event == (DecodeEvent::Exited { success: true }) ==> action == DecodeAction::Finish(
            Ok(()),
        ),
        event == (DecodeEvent::Exited { success: false }) ==> action == DecodeAction::Finish(
            Err(AnimationError::DecodeFailed),
        ),
        event is EndOfOutput ==> action is AwaitExit && after is Waiting,
{
}

} // verus!
