//! The audio spectrum: which levels are shown, and how the decoder that makes
//! them is started, paused, moved and replaced.

use std::sync::Arc;
use vstd::prelude::*;
use vstd::string::*;

use crate::domain::{Generation, MediaId, MediaIdView};
use crate::provider::model::{append_bool, bool_text};
use crate::text::{append_decimal, decimal, decimal_digits, format_seconds, seconds_text};
use crate::ui::animation::{clamped, next_revision};

verus! {

/// Samples per second of the analysed audio.
pub const ANALYSIS_SAMPLE_RATE: u16 = 8_000;

/// Samples in one analysis window.
pub const FFT_SIZE: usize = 512;

pub const MAX_SPECTRUM_BANDS: usize = 64;

pub const MAX_SPECTRUM_LEVEL: u8 = 24;

/// The most rows that a spectrum takes on the screen.
pub const MAX_ROWS: u8 = 3;

pub const MAX_SPECTRUM_FPS: u8 = 30;

/// The longest stretch of audio that is analysed.
pub const MAX_ANALYSIS_SECONDS: u64 = 14_400;

pub const MAX_FFMPEG_ALLOC_BYTES: u64 = 33_554_432;

pub const MAX_FFMPEG_PROBE_BYTES: u64 = 1_048_576;

pub const MAX_FFMPEG_ANALYZE_MICROS: u64 = 5_000_000;

pub const FFMPEG_IO_TIMEOUT_MICROS: u64 = 10_000_000;

/// The longest time that a decoder process may run, in nanoseconds.
pub const MAX_FFMPEG_PROCESS_NANOS: u64 = 14_700_000_000_000;

/// The shortest limit that can be set on a decoder process, in nanoseconds.
pub const MIN_FFMPEG_PROCESS_NANOS: u64 = 1_000_000;

/// Bytes in one analysis window: four for each sample.
pub const PCM_FRAME_BYTES: usize = 2_048;

/// How many samples of a window may be infinite or not a number.
pub const MAX_NON_FINITE_SAMPLES: usize = 64;

/// Frequency bins above zero, up to half the sample rate.
pub const POSITIVE_BINS: usize = 256;

/// The rate at which a spectrum is shown when `max_fps` is asked for.
pub fn effective_spectrum_fps(max_fps: u8) -> (fps: u8)
    ensures
        fps == clamped(max_fps as int, 1, MAX_SPECTRUM_FPS as int),
{
    if max_fps < 1 {
        1
    } else if max_fps > MAX_SPECTRUM_FPS {
        MAX_SPECTRUM_FPS
    } else {
        max_fps
    }
}

/// How many analysis windows are read at the most: a window for each that
/// starts within a second, for every second that is analysed.
pub fn max_pcm_frame_count() -> (count: u64)
    ensures
        count == 16 * MAX_ANALYSIS_SECONDS,
        (count / MAX_ANALYSIS_SECONDS) * FFT_SIZE >= ANALYSIS_SAMPLE_RATE,
        (count / MAX_ANALYSIS_SECONDS - 1) * FFT_SIZE < ANALYSIS_SAMPLE_RATE,
{
    let samples_per_frame: u64 = FFT_SIZE as u64;
    let frames_per_second: u64 = (ANALYSIS_SAMPLE_RATE as u64 + samples_per_frame - 1)
        / samples_per_frame;
    frames_per_second * MAX_ANALYSIS_SECONDS
}

/// How a spectrum is drawn: how many bands, and how many rows high.
#[derive(Clone, Copy, Debug, Eq, Hash, PartialEq, Structural)]
pub struct SpectrumTarget {
    bands: u16,
    rows: u8,
}

impl SpectrumTarget {
    pub closed spec fn band_count(self) -> u16 {
        self.bands
    }

    pub closed spec fn row_count(self) -> u8 {
        self.rows
    }

    /// What every target keeps: band and row counts within their limits.
    #[verifier::type_invariant]
    spec fn valid(self) -> bool {
        1 <= self.bands <= MAX_SPECTRUM_BANDS && 1 <= self.rows <= MAX_ROWS
    }

    pub fn new(bands: u16, rows: u8) -> (target: Option<Self>)
        ensures
            match target {
                Some(target) => {
                    &&& 1 <= bands <= MAX_SPECTRUM_BANDS && 1 <= rows <= MAX_ROWS
                    &&& target.band_count() == bands
                    &&& target.row_count() == rows
                },
                None => !(1 <= bands <= MAX_SPECTRUM_BANDS && 1 <= rows <= MAX_ROWS),
            },
    {
        if bands >= 1 && bands as usize <= MAX_SPECTRUM_BANDS && rows >= 1 && rows <= MAX_ROWS {
            Some(SpectrumTarget { bands, rows })
        } else {
            None
        }
    }

    pub fn bands(self) -> (bands: u16)
        ensures
            bands == self.band_count(),
            1 <= bands <= MAX_SPECTRUM_BANDS,
    {
        proof {
            use_type_invariant(self);
        }
        self.bands
    }

    pub fn rows(self) -> (rows: u8)
        ensures
            rows == self.row_count(),
            1 <= rows <= MAX_ROWS,
    {
        proof {
            use_type_invariant(self);
        }
        self.rows
    }
}

/// What a spectrum belongs to: a playback attempt, a media item and a target.
#[derive(Eq, Hash, PartialEq)]
pub struct SpectrumKey {
    generation: Generation,
    media_id: MediaId,
    target: SpectrumTarget,
}

/// What a [`SpectrumKey`] says.
#[verifier::ext_equal]
pub struct SpectrumKeyView {
    pub generation: Generation,
    pub media_id: MediaIdView,
    pub target: SpectrumTarget,
}

impl View for SpectrumKey {
    type V = SpectrumKeyView;

    closed spec fn view(&self) -> SpectrumKeyView {
        SpectrumKeyView {
            generation: self.generation,
            media_id: self.media_id@,
            target: self.target,
        }
    }
}

impl Clone for SpectrumKey {
    fn clone(&self) -> (copy: Self)
        ensures
            copy == *self,
    {
        SpectrumKey {
            generation: self.generation,
            media_id: self.media_id.clone(),
            target: self.target,
        }
    }
}

/// The sizes of a target, as they are logged.
pub open spec fn target_counts(target: SpectrumTarget) -> Seq<char> {
    "band_count: "@ + decimal_digits(target.band_count() as nat) + ", row_count: "@
        + decimal_digits(target.row_count() as nat)
}

fn append_target_counts(text: &mut String, target: SpectrumTarget)
    ensures
        final(text)@ == old(text)@ + target_counts(target),
{
    text.append("band_count: ");
    append_decimal(text, target.bands() as u64);
    text.append(", row_count: ");
    append_decimal(text, target.rows() as u64);
    assert(text@ =~= old(text)@ + target_counts(target));
}

/// What may be logged of a key: its sizes, not which item it is for.
pub open spec fn key_summary(key: SpectrumKeyView) -> Seq<char> {
    "SpectrumKey { "@ + target_counts(key.target) + ", .. }"@
}

impl SpectrumKey {
    pub fn new(generation: Generation, media_id: MediaId, target: SpectrumTarget) -> (key: Self)
        ensures
            key@ == (SpectrumKeyView { generation, media_id: media_id@, target }),
    {
        SpectrumKey { generation, media_id, target }
    }

    pub fn generation(&self) -> (generation: Generation)
        ensures
            generation == self@.generation,
    {
        self.generation
    }

    pub fn media_id(&self) -> (media_id: &MediaId)
        ensures
            media_id@ == self@.media_id,
    {
        &self.media_id
    }

    pub fn target(&self) -> (target: SpectrumTarget)
        ensures
            target == self@.target,
    {
        self.target
    }

    /// Whether both keys agree in generation, media item and target.
    pub fn same(&self, other: &SpectrumKey) -> (same: bool)
        ensures
            same == (self@ == other@),
    {
        self.generation == other.generation && self.media_id.same(&other.media_id) && self.target
            == other.target
    }

    /// What may be logged of the key: its sizes, not which item it is for.
    pub fn summary(&self) -> (text: String)
        ensures
            text@ == key_summary(self@),
    {
        let mut text = String::new();
        text.append("SpectrumKey { ");
        append_target_counts(&mut text, self.target);
        text.append(", .. }");
        assert(text@ =~= key_summary(self@));
        text
    }
}

/// Whether a spectrum may have these levels.
pub open spec fn valid_levels(levels: Seq<u8>) -> bool {
    &&& 0 < levels.len() <= MAX_SPECTRUM_BANDS
    &&& forall|band: int| 0 <= band < levels.len() ==> #[trigger] levels[band]
        <= MAX_SPECTRUM_LEVEL
}

/// One level for each band.
#[derive(Eq, PartialEq)]
pub struct SpectrumFrame {
    levels: Box<[u8]>,
}

impl View for SpectrumFrame {
    type V = Seq<u8>;

    closed spec fn view(&self) -> Seq<u8> {
        self.levels@
    }
}

impl SpectrumFrame {
    /// What every frame keeps: a valid number of valid levels.
    #[verifier::type_invariant]
    spec fn valid(self) -> bool {
        valid_levels(self.levels@)
    }

    pub fn new(levels: Box<[u8]>) -> (frame: Option<Self>)
        ensures
            match frame {
                Some(frame) => valid_levels(levels@) && frame@ == levels@,
                None => !valid_levels(levels@),
            },
    {
        let count: usize = levels.len();
        if count == 0 || count > MAX_SPECTRUM_BANDS {
            return None;
        }
        let mut band: usize = 0;
        while band < count
            invariant
                count == levels@.len(),
                band <= count,
                forall|i: int| 0 <= i < band ==> #[trigger] levels@[i] <= MAX_SPECTRUM_LEVEL,
            decreases count - band,
        {
            if levels[band] > MAX_SPECTRUM_LEVEL {
                assert(!valid_levels(levels@));
                return None;
            }
            band = band + 1;
        }
        Some(SpectrumFrame { levels })
    }

    pub fn levels(&self) -> (levels: &[u8])
        ensures
            levels@ == self@,
            valid_levels(levels@),
    {
        proof {
            use_type_invariant(self);
        }
        &self.levels
    }

    /// What may be logged of the frame: how many levels, not which.
    pub fn summary(&self) -> (text: String)
        ensures
            text@ == "SpectrumFrame { level_count: "@ + decimal_digits(self@.len()) + " }"@,
    {
        let mut text = String::new();
        text.append("SpectrumFrame { level_count: ");
        append_decimal(&mut text, self.levels.len() as u64);
        text.append(" }");
        assert(text@ =~= "SpectrumFrame { level_count: "@ + decimal_digits(self@.len()) + " }"@);
        text
    }
}

/// What is shown of a spectrum.
#[derive(Eq, PartialEq)]
pub struct SpectrumPresentation {
    frame: Option<Arc<SpectrumFrame>>,
    paused: bool,
    failed: bool,
}

/// What a [`SpectrumPresentation`] says.
pub struct SpectrumPresentationView {
    pub frame: Option<Arc<SpectrumFrame>>,
    pub paused: bool,
    pub failed: bool,
}

impl View for SpectrumPresentation {
    type V = SpectrumPresentationView;

    closed spec fn view(&self) -> SpectrumPresentationView {
        SpectrumPresentationView { frame: self.frame, paused: self.paused, failed: self.failed }
    }
}

impl Clone for SpectrumPresentation {
    fn clone(&self) -> (copy: Self)
        ensures
            copy@ == self@,
    {
        SpectrumPresentation {
            frame: match &self.frame {
                Some(frame) => Some(frame.clone()),
                None => None,
            },
            paused: self.paused,
            failed: self.failed,
        }
    }
}

/// Nothing is shown, and nothing is wrong.
pub open spec fn quiet_presentation() -> SpectrumPresentationView {
    SpectrumPresentationView { frame: None, paused: false, failed: false }
}

impl SpectrumPresentation {
    pub fn quiet() -> (presentation: Self)
        ensures
            presentation@ == quiet_presentation(),
    {
        SpectrumPresentation { frame: None, paused: false, failed: false }
    }

    pub fn frame(&self) -> (frame: Option<&Arc<SpectrumFrame>>)
        ensures
            match frame {
                Some(frame) => self@.frame == Some(*frame),
                None => self@.frame is None,
            },
    {
        match &self.frame {
            Some(frame) => Some(frame),
            None => None,
        }
    }

    pub fn paused(&self) -> (paused: bool)
        ensures
            paused == self@.paused,
    {
        self.paused
    }

    pub fn failed(&self) -> (failed: bool)
        ensures
            failed == self@.failed,
    {
        self.failed
    }

    /// What may be logged of the presentation: counts and states.
    pub fn summary(&self) -> (text: String)
        ensures
            text@ == presentation_summary(self@),
    {
        let mut text = String::new();
        text.append("SpectrumPresentation { band_count: ");
        let count: Option<u64> = match &self.frame {
            Some(frame) => Some(frame.levels().len() as u64),
            None => None,
        };
        append_optional_count(&mut text, count);
        text.append(", paused: ");
        append_bool(&mut text, self.paused);
        text.append(", failed: ");
        append_bool(&mut text, self.failed);
        text.append(" }");
        assert(text@ =~= presentation_summary(self@));
        text
    }
}

/// What may be logged of a presentation: counts and states.
pub open spec fn presentation_summary(shown: SpectrumPresentationView) -> Seq<char> {
    "SpectrumPresentation { band_count: "@ + optional_count_text(
        match shown.frame {
            Some(frame) => Some(frame@.len()),
            None => None,
        },
    ) + ", paused: "@ + bool_text(shown.paused) + ", failed: "@ + bool_text(shown.failed) + " }"@
}

/// An optional number, as it is logged.
pub open spec fn optional_count_text(count: Option<nat>) -> Seq<char> {
    match count {
        Some(count) => "Some("@ + decimal_digits(count) + ")"@,
        None => "None"@,
    }
}

fn append_optional_count(text: &mut String, count: Option<u64>)
    ensures
        final(text)@ == old(text)@ + optional_count_text(
            match count {
                Some(count) => Some(count as nat),
                None => None,
            },
        ),
{
    match count {
        Some(count) => {
            text.append("Some(");
            append_decimal(text, count);
            text.append(")");
            assert(text@ =~= old(text)@ + ("Some("@ + decimal_digits(count as nat) + ")"@));
        },
        None => {
            text.append("None");
        },
    }
}

/// The right of one decoder run to publish levels.
#[derive(Clone, Copy, Debug, Eq, PartialEq, Structural)]
pub struct SpectrumLease(pub u64);

/// One run of a decoder.
pub struct SpectrumRun {
    key: SpectrumKey,
    lease: SpectrumLease,
}

/// What a [`SpectrumRun`] says.
#[verifier::ext_equal]
pub struct SpectrumRunView {
    pub key: SpectrumKeyView,
    pub lease: SpectrumLease,
}

/// What may be logged of a run: its sizes, not which item it is for.
pub open spec fn run_summary(run: SpectrumRunView) -> Seq<char> {
    "SpectrumRun { "@ + target_counts(run.key.target) + ", .. }"@
}

impl View for SpectrumRun {
    type V = SpectrumRunView;

    closed spec fn view(&self) -> SpectrumRunView {
        SpectrumRunView { key: self.key@, lease: self.lease }
    }
}

impl Clone for SpectrumRun {
    fn clone(&self) -> (copy: Self)
        ensures
            copy == *self,
    {
        SpectrumRun { key: self.key.clone(), lease: self.lease }
    }
}

impl SpectrumRun {
    pub fn lease(&self) -> (lease: SpectrumLease)
        ensures
            lease == self@.lease,
    {
        self.lease
    }

    /// What may be logged of the run: its sizes, not which item it is for.
    pub fn summary(&self) -> (text: String)
        ensures
            text@ == run_summary(self@),
    {
        let mut text = String::new();
        text.append("SpectrumRun { ");
        append_target_counts(&mut text, self.key.target);
        text.append(", .. }");
        assert(text@ =~= run_summary(self@));
        text
    }
}

struct SpectrumSlot {
    key: SpectrumKey,
    lease: SpectrumLease,
    frame: Option<Arc<SpectrumFrame>>,
    paused: bool,
    failed: bool,
}

/// The one spectrum that can be shown.
#[verifier::ext_equal]
pub struct SpectrumSlotView {
    pub run: SpectrumRunView,
    pub frame: Option<Arc<SpectrumFrame>>,
    pub paused: bool,
    pub failed: bool,
}

impl View for SpectrumSlot {
    type V = SpectrumSlotView;

    closed spec fn view(&self) -> SpectrumSlotView {
        SpectrumSlotView {
            run: SpectrumRunView { key: self.key@, lease: self.lease },
            frame: self.frame,
            paused: self.paused,
            failed: self.failed,
        }
    }
}

/// Holds the newest levels of one spectrum, and lets only the run that
/// currently decodes it publish.
pub struct SpectrumFrameStore {
    current: Option<SpectrumSlot>,
    redraw: u64,
    last_lease: u64,
}

/// The state of a [`SpectrumFrameStore`].
#[verifier::ext_equal]
pub struct SpectrumStoreView {
    /// The spectrum that is shown, if there is one.
    pub slot: Option<SpectrumSlotView>,
    /// A number that changes whenever something else is to be drawn.
    pub redraw: u64,
    /// The last lease that was given.
    pub last_lease: u64,
}

impl View for SpectrumFrameStore {
    type V = SpectrumStoreView;

    closed spec fn view(&self) -> SpectrumStoreView {
        SpectrumStoreView {
            slot: match self.current {
                Some(slot) => Some(slot@),
                None => None,
            },
            redraw: self.redraw,
            last_lease: self.last_lease,
        }
    }
}

impl SpectrumStoreView {
    /// What every store keeps: the shown spectrum holds a lease that was given
    /// and a level for each band of its target, and one that failed shows none.
    pub open spec fn wf(self) -> bool {
        self.slot matches Some(slot) ==> {
            &&& slot.run.lease.0 <= self.last_lease
            &&& slot.failed ==> slot.frame is None && !slot.paused
            &&& slot.frame matches Some(frame) ==> frame@.len()
                == slot.run.key.target.band_count()
        }
    }

    /// Whether `run` is the one that is shown.
    pub open spec fn runs(self, run: SpectrumRunView) -> bool {
        self.slot matches Some(slot) && slot.run == run
    }

    /// Whether `run` may publish levels.
    pub open spec fn accepts(self, run: SpectrumRunView) -> bool {
        self.slot matches Some(slot) && slot.run == run && !slot.paused && !slot.failed
    }

    /// Whether `run` may be paused.
    pub open spec fn can_pause(self, run: SpectrumRunView) -> bool {
        self.slot matches Some(slot) && slot.run == run && !slot.failed
    }

    /// Whether `run` may be resumed.
    pub open spec fn can_resume(self, run: SpectrumRunView) -> bool {
        self.slot matches Some(slot) && slot.run == run && slot.paused && !slot.failed
    }

    /// Whether `run` may report a failure.
    pub open spec fn can_fail(self, run: SpectrumRunView) -> bool {
        self.slot matches Some(slot) && slot.run == run && !slot.paused
    }

    /// The run that is started next for `key`.
    pub open spec fn next_run(self, key: SpectrumKeyView) -> SpectrumRunView {
        SpectrumRunView { key, lease: SpectrumLease((self.last_lease + 1) as u64) }
    }

    /// What is shown for `key`.
    pub open spec fn shown(self, key: SpectrumKeyView) -> SpectrumPresentationView {
        match self.slot {
            Some(slot) => if slot.run.key == key {
                SpectrumPresentationView {
                    frame: slot.frame,
                    paused: slot.paused,
                    failed: slot.failed,
                }
            } else {
                quiet_presentation()
            },
            None => quiet_presentation(),
        }
    }

    /// The store after a new spectrum was asked for.
    pub open spec fn requested(self, key: SpectrumKeyView) -> SpectrumStoreView {
        SpectrumStoreView {
            slot: Some(
                SpectrumSlotView {
                    run: self.next_run(key),
                    frame: None,
                    paused: false,
                    failed: false,
                },
            ),
            last_lease: (self.last_lease + 1) as u64,
            ..self
        }
    }

    /// The store that shows nothing, and is to be drawn so.
    pub open spec fn emptied(self) -> SpectrumStoreView {
        SpectrumStoreView { slot: None, redraw: next_revision(self.redraw), ..self }
    }

    /// The store after `frame` was published.
    pub open spec fn published(self, frame: Arc<SpectrumFrame>) -> SpectrumStoreView {
        SpectrumStoreView {
            slot: Some(SpectrumSlotView { frame: Some(frame), ..self.slot->0 }),
            redraw: next_revision(self.redraw),
            ..self
        }
    }

    /// The store after the shown spectrum was paused.
    pub open spec fn halted(self) -> SpectrumStoreView {
        SpectrumStoreView {
            slot: Some(SpectrumSlotView { paused: true, ..self.slot->0 }),
            redraw: next_revision(self.redraw),
            ..self
        }
    }

    /// The store after the shown spectrum was resumed under a new lease.
    pub open spec fn resumed(self) -> SpectrumStoreView {
        SpectrumStoreView {
            slot: Some(
                SpectrumSlotView {
                    run: self.next_run(self.slot->0.run.key),
                    paused: false,
                    ..self.slot->0
                },
            ),
            redraw: next_revision(self.redraw),
            last_lease: (self.last_lease + 1) as u64,
        }
    }

    /// The store after the shown spectrum failed.
    pub open spec fn broken(self) -> SpectrumStoreView {
        SpectrumStoreView {
            slot: Some(
                SpectrumSlotView { frame: None, paused: false, failed: true, ..self.slot->0 },
            ),
            redraw: next_revision(self.redraw),
            ..self
        }
    }

    /// The store after it was cleared.
    pub open spec fn cleared(self) -> SpectrumStoreView {
        if self.slot is Some {
            self.emptied()
        } else {
            self
        }
    }
}

impl Default for SpectrumFrameStore {
    fn default() -> (store: Self)
        ensures
            store@ == (SpectrumStoreView { slot: None, redraw: 0, last_lease: 0 }),
            store@.wf(),
    {
        SpectrumFrameStore::new()
    }
}

impl SpectrumFrameStore {
    pub fn new() -> (store: Self)
        ensures
            store@ == (SpectrumStoreView { slot: None, redraw: 0, last_lease: 0 }),
            store@.wf(),
    {
        SpectrumFrameStore { current: None, redraw: 0, last_lease: 0 }
    }

    /// An empty store whose leases go on after `last_lease`.
    pub fn with_last_lease(last_lease: u64) -> (store: Self)
        ensures
            store@ == (SpectrumStoreView { slot: None, redraw: 0, last_lease }),
            store@.wf(),
    {
        SpectrumFrameStore { current: None, redraw: 0, last_lease }
    }

    /// A number that changes whenever something else is to be drawn.
    pub fn redraw_revision(&self) -> (revision: u64)
        ensures
            revision == self@.redraw,
    {
        self.redraw
    }

    /// Asks for a spectrum, and gives the run whose levels are accepted. When
    /// no lease is left, nothing is shown any more.
    pub fn request(&mut self, key: SpectrumKey) -> (run: Option<SpectrumRun>)
        requires
            old(self)@.wf(),
        ensures
            final(self)@.wf(),
            match run {
                Some(run) => {
                    &&& old(self)@.last_lease < u64::MAX
                    &&& run@ == old(self)@.next_run(key@)
                    &&& final(self)@ == old(self)@.requested(key@)
                },
                None => old(self)@.last_lease == u64::MAX && final(self)@ == old(self)@.emptied(),
            },
    {
        let run_key = key.clone();
        match self.request_with_lease(key) {
            Some(lease) => Some(SpectrumRun { key: run_key, lease }),
            None => None,
        }
    }

    /// Asks for a spectrum, and gives the lease of its run.
    pub fn request_with_lease(&mut self, key: SpectrumKey) -> (lease: Option<SpectrumLease>)
        requires
            old(self)@.wf(),
        ensures
            final(self)@.wf(),
            match lease {
                Some(lease) => {
                    &&& old(self)@.last_lease < u64::MAX
                    &&& lease == old(self)@.next_run(key@).lease
                    &&& final(self)@ == old(self)@.requested(key@)
                },
                None => old(self)@.last_lease == u64::MAX && final(self)@ == old(self)@.emptied(),
            },
    {
        let lease = match self.allocate_lease() {
            Some(lease) => lease,
            None => {
                self.current = None;
                self.notify_redraw();
                assert(self@ =~= old(self)@.emptied());
                return None;
            },
        };
        self.current = Some(
            SpectrumSlot { key, lease, frame: None, paused: false, failed: false },
        );
        assert(self@ =~= old(self)@.requested(key@));
        Some(lease)
    }

    /// Publishes the levels of a run.
    pub fn publish(&mut self, run: &SpectrumRun, frame: Arc<SpectrumFrame>) -> (published: bool)
        requires
            old(self)@.wf(),
        ensures
            final(self)@.wf(),
            published == (old(self)@.accepts(run@) && frame@.len()
                == run@.key.target.band_count()),
            final(self)@ == if published {
                old(self)@.published(frame)
            } else {
                old(self)@
            },
    {
        self.publish_with_lease(&run.key, run.lease, frame)
    }

    /// Publishes levels under a lease. Frames that do not hold a level for each
    /// band, frames of a run that was replaced, and frames that come while the
    /// spectrum is paused or after it failed are dropped.
    pub fn publish_with_lease(
        &mut self,
        key: &SpectrumKey,
        lease: SpectrumLease,
        frame: Arc<SpectrumFrame>,
    ) -> (published: bool)
        requires
            old(self)@.wf(),
        ensures
            final(self)@.wf(),
            published == (old(self)@.accepts(SpectrumRunView { key: key@, lease }) && frame@.len()
                == key@.target.band_count()),
            final(self)@ == if published {
                old(self)@.published(frame)
            } else {
                old(self)@
            },
    {
        if frame.levels().len() != key.target.bands() as usize {
            return false;
        }
        let mut slot = match self.current.take() {
            Some(slot) => slot,
            None => {
                return false;
            },
        };
        if !slot.key.same(key) || slot.lease != lease || slot.paused || slot.failed {
            self.current = Some(slot);
            return false;
        }
        slot.frame = Some(frame);
        self.current = Some(slot);
        self.notify_redraw();
        assert(self@ =~= old(self)@.published(frame));
        true
    }

    /// What is shown for `key`.
    pub fn presentation(&self, key: &SpectrumKey) -> (presentation: SpectrumPresentation)
        ensures
            presentation@ == self@.shown(key@),
    {
        match &self.current {
            Some(slot) => {
                if slot.key.same(key) {
                    let frame = match &slot.frame {
                        Some(frame) => Some(Arc::clone(frame)),
                        None => None,
                    };
                    SpectrumPresentation { frame, paused: slot.paused, failed: slot.failed }
                } else {
                    SpectrumPresentation::quiet()
                }
            },
            None => SpectrumPresentation::quiet(),
        }
    }

    /// Pauses a run: its levels stay, and no others come.
    pub fn pause(&mut self, run: &SpectrumRun) -> (paused: bool)
        requires
            old(self)@.wf(),
        ensures
            final(self)@.wf(),
            paused == old(self)@.can_pause(run@),
            final(self)@ == if paused {
                old(self)@.halted()
            } else {
                old(self)@
            },
    {
        let mut slot = match self.current.take() {
            Some(slot) => slot,
            None => {
                return false;
            },
        };
        if !slot.key.same(&run.key) || slot.lease != run.lease || slot.failed {
            self.current = Some(slot);
            return false;
        }
        slot.paused = true;
        self.current = Some(slot);
        self.notify_redraw();
        assert(self@ =~= old(self)@.halted());
        true
    }

    /// Resumes a paused run as a new one. Levels of the run before are no longer
    /// accepted. When no lease is left, nothing is shown any more.
    pub fn resume(&mut self, run: &SpectrumRun) -> (resumed: Option<SpectrumRun>)
        requires
            old(self)@.wf(),
        ensures
            final(self)@.wf(),
            match resumed {
                Some(resumed) => {
                    &&& old(self)@.can_resume(run@)
                    &&& old(self)@.last_lease < u64::MAX
                    &&& resumed@ == old(self)@.next_run(run@.key)
                    &&& final(self)@ == old(self)@.resumed()
                },
                None => if old(self)@.can_resume(run@) {
                    old(self)@.last_lease == u64::MAX && final(self)@ == old(self)@.emptied()
                } else {
                    final(self)@ == old(self)@
                },
            },
    {
        let mut slot = match self.current.take() {
            Some(slot) => slot,
            None => {
                return None;
            },
        };
        if !slot.key.same(&run.key) || slot.lease != run.lease || !slot.paused || slot.failed {
            self.current = Some(slot);
            return None;
        }
        let lease = match self.allocate_lease() {
            Some(lease) => lease,
            None => {
                self.notify_redraw();
                assert(self@ =~= old(self)@.emptied());
                return None;
            },
        };
        slot.lease = lease;
        slot.paused = false;
        self.current = Some(slot);
        self.notify_redraw();
        assert(self@ =~= old(self)@.resumed());
        Some(SpectrumRun { key: run.key.clone(), lease })
    }

    /// Gives up the spectrum of a run. A run that was paused no longer can.
    pub fn fail(&mut self, run: &SpectrumRun) -> (failed: bool)
        requires
            old(self)@.wf(),
        ensures
            final(self)@.wf(),
            failed == old(self)@.can_fail(run@),
            final(self)@ == if failed {
                old(self)@.broken()
            } else {
                old(self)@
            },
    {
        let mut slot = match self.current.take() {
            Some(slot) => slot,
            None => {
                return false;
            },
        };
        if !slot.key.same(&run.key) || slot.lease != run.lease || slot.paused {
            self.current = Some(slot);
            return false;
        }
        slot.frame = None;
        slot.paused = false;
        slot.failed = true;
        self.current = Some(slot);
        self.notify_redraw();
        assert(self@ =~= old(self)@.broken());
        true
    }

    /// Shows nothing any more.
    pub fn clear(&mut self)
        ensures
            final(self)@.wf(),
            final(self)@ == old(self)@.cleared(),
    {
        if self.current.take().is_some() {
            self.notify_redraw();
        }
        assert(self@ =~= old(self)@.cleared());
    }

    fn allocate_lease(&mut self) -> (lease: Option<SpectrumLease>)
        ensures
            match lease {
                Some(lease) => {
                    &&& old(self)@.last_lease < u64::MAX
                    &&& lease.0 == old(self)@.last_lease + 1
                    &&& final(self).last_lease == old(self).last_lease + 1
                },
                None => old(self)@.last_lease == u64::MAX && final(self).last_lease == old(
                    self,
                ).last_lease,
            },
            final(self).current == old(self).current,
            final(self).redraw == old(self).redraw,
    {
        if self.last_lease == u64::MAX {
            return None;
        }
        self.last_lease = self.last_lease + 1;
        Some(SpectrumLease(self.last_lease))
    }

    fn notify_redraw(&mut self)
        ensures
            final(self).redraw == next_revision(old(self).redraw),
            final(self).current == old(self).current,
            final(self).last_lease == old(self).last_lease,
    {
        self.redraw = if self.redraw == u64::MAX {
            0
        } else {
            self.redraw + 1
        };
    }

    /// What may be logged of the store: its state, not what it shows.
    pub fn summary(&self) -> (text: String)
        ensures
            text@ == store_summary(self@),
    {
        let mut text = String::new();
        let mut bands: Option<u64> = None;
        let mut rows: Option<u64> = None;
        let mut has_frame = false;
        let mut paused = false;
        let mut failed = false;
        match &self.current {
            Some(slot) => {
                bands = Some(slot.key.target.bands() as u64);
                rows = Some(slot.key.target.rows() as u64);
                has_frame = slot.frame.is_some();
                paused = slot.paused;
                failed = slot.failed;
            },
            None => {},
        }
        text.append("SpectrumFrameStore { band_count: ");
        append_optional_count(&mut text, bands);
        text.append(", row_count: ");
        append_optional_count(&mut text, rows);
        text.append(", has_frame: ");
        append_bool(&mut text, has_frame);
        text.append(", paused: ");
        append_bool(&mut text, paused);
        text.append(", failed: ");
        append_bool(&mut text, failed);
        text.append(", .. }");
        assert(text@ =~= store_summary(self@));
        text
    }
}

/// What may be logged of a store: its state, not what it shows.
pub open spec fn store_summary(store: SpectrumStoreView) -> Seq<char> {
    "SpectrumFrameStore { band_count: "@ + optional_count_text(
        match store.slot {
            Some(slot) => Some(slot.run.key.target.band_count() as nat),
            None => None,
        },
    ) + ", row_count: "@ + optional_count_text(
        match store.slot {
            Some(slot) => Some(slot.run.key.target.row_count() as nat),
            None => None,
        },
    ) + ", has_frame: "@ + bool_text(store.slot matches Some(slot) && slot.frame is Some)
        + ", paused: "@ + bool_text(store.slot matches Some(slot) && slot.paused) + ", failed: "@
        + bool_text(store.slot matches Some(slot) && slot.failed) + ", .. }"@
}

/// Asks for the analysis of a stream.
pub struct SpectrumRequest {
    key: SpectrumKey,
    stream_url: String,
    max_fps: u8,
    start_ms: u64,
}

/// What a [`SpectrumRequest`] says.
#[verifier::ext_equal]
pub struct SpectrumRequestView {
    pub key: SpectrumKeyView,
    pub stream_url: Seq<char>,
    pub max_fps: u8,
    pub start_ms: u64,
}

impl View for SpectrumRequest {
    type V = SpectrumRequestView;

    closed spec fn view(&self) -> SpectrumRequestView {
        SpectrumRequestView {
            key: self.key@,
            stream_url: self.stream_url@,
            max_fps: self.max_fps,
            start_ms: self.start_ms,
        }
    }
}

impl Clone for SpectrumRequest {
    fn clone(&self) -> (copy: Self)
        ensures
            copy == *self,
    {
        SpectrumRequest {
            key: self.key.clone(),
            stream_url: self.stream_url.clone(),
            max_fps: self.max_fps,
            start_ms: self.start_ms,
        }
    }
}

impl SpectrumRequestView {
    /// The request at a rate within the limits.
    pub open spec fn paced(self, max_fps: u8) -> SpectrumRequestView {
        SpectrumRequestView {
            max_fps: clamped(max_fps as int, 1, MAX_SPECTRUM_FPS as int) as u8,
            ..self
        }
    }

    /// The request from another position on.
    pub open spec fn starting_at(self, start_ms: u64) -> SpectrumRequestView {
        SpectrumRequestView { start_ms, ..self }
    }
}

impl SpectrumRequest {
    pub fn new(key: SpectrumKey, stream_url: String) -> (request: Self)
        ensures
            request@ == (SpectrumRequestView {
                key: key@,
                stream_url: stream_url@,
                max_fps: MAX_SPECTRUM_FPS,
                start_ms: 0,
            }),
    {
        SpectrumRequest { key, stream_url, max_fps: MAX_SPECTRUM_FPS, start_ms: 0 }
    }

    pub fn key(&self) -> (key: &SpectrumKey)
        ensures
            key@ == self@.key,
    {
        &self.key
    }

    pub fn matches_stream_url(&self, stream_url: &String) -> (matches: bool)
        ensures
            matches == (self@.stream_url == stream_url@),
    {
        self.stream_url == *stream_url
    }

    pub fn start_ms(&self) -> (start_ms: u64)
        ensures
            start_ms == self@.start_ms,
    {
        self.start_ms
    }

    /// Whether both requests analyse the same stream for the same key.
    pub fn same_source(&self, other: &Self) -> (same: bool)
        ensures
            same == (self@.key == other@.key && self@.stream_url == other@.stream_url),
    {
        self.key.same(&other.key) && self.stream_url == other.stream_url
    }

    pub fn with_max_fps(self, max_fps: u8) -> (request: Self)
        ensures
            request@ == self@.paced(max_fps),
    {
        SpectrumRequest {
            key: self.key,
            stream_url: self.stream_url,
            max_fps: effective_spectrum_fps(max_fps),
            start_ms: self.start_ms,
        }
    }

    pub fn with_start_ms(self, start_ms: u64) -> (request: Self)
        ensures
            request@ == self@.starting_at(start_ms),
    {
        SpectrumRequest {
            key: self.key,
            stream_url: self.stream_url,
            max_fps: self.max_fps,
            start_ms,
        }
    }

    /// What may be logged of the request: neither the item nor the address.
    pub fn summary(&self) -> (text: String)
        ensures
            text@ == request_summary(self@),
    {
        let mut text = String::new();
        text.append("SpectrumRequest { ");
        append_target_counts(&mut text, self.key.target);
        text.append(", stream_url: \"[REDACTED]\", max_fps: ");
        append_decimal(&mut text, self.max_fps as u64);
        text.append(", start_ms: ");
        append_decimal(&mut text, self.start_ms);
        text.append(" }");
        assert(text@ =~= request_summary(self@));
        text
    }
}

/// What may be logged of a request: neither the item nor the address.
pub open spec fn request_summary(request: SpectrumRequestView) -> Seq<char> {
    "SpectrumRequest { "@ + target_counts(request.key.target)
        + ", stream_url: \"[REDACTED]\", max_fps: "@ + decimal_digits(request.max_fps as nat)
        + ", start_ms: "@ + decimal_digits(request.start_ms as nat) + " }"@
}

/// Why a spectrum could not be made.
#[derive(Clone, Copy, Debug, Eq, PartialEq, Structural)]
pub enum SpectrumError {
    Unavailable,
    ResourceLimit,
    DecodeFailed,
}

impl SpectrumError {
    /// The message shown for the error.
    pub fn message(&self) -> (text: &'static str)
        ensures
            text@ == match self {
                SpectrumError::Unavailable => "spectrum decoder is unavailable"@,
                SpectrumError::ResourceLimit => "spectrum analysis violated a resource limit"@,
                SpectrumError::DecodeFailed => "spectrum decoding failed"@,
            },
    {
        match self {
            SpectrumError::Unavailable => "spectrum decoder is unavailable",
            SpectrumError::ResourceLimit => "spectrum analysis violated a resource limit",
            SpectrumError::DecodeFailed => "spectrum decoding failed",
        }
    }
}

/// What is to be done after a worker was told something: whether the run that
/// was active is to be retired, and which run is to be started.
pub struct SpectrumStep {
    pub retire: bool,
    pub start: Option<(SpectrumRequest, SpectrumRun)>,
}

/// Decides which decoder run is active. Starting and retiring runs is left to
/// the caller.
pub struct SpectrumWorker {
    max_fps: u8,
    active: Option<(SpectrumRequest, SpectrumRun)>,
    paused: Option<(SpectrumRequest, SpectrumRun)>,
}

/// A run and what it was started for.
pub type SpectrumWork = (SpectrumRequestView, SpectrumRunView);

/// The state of a [`SpectrumWorker`].
#[verifier::ext_equal]
pub struct SpectrumWorkerView {
    pub max_fps: u8,
    pub active: Option<SpectrumWork>,
    pub paused: Option<SpectrumWork>,
}

/// What optional work says.
pub open spec fn optional_work(work: Option<(SpectrumRequest, SpectrumRun)>) -> Option<
    SpectrumWork,
> {
    match work {
        Some(work) => Some((work.0@, work.1@)),
        None => None,
    }
}

impl View for SpectrumWorker {
    type V = SpectrumWorkerView;

    closed spec fn view(&self) -> SpectrumWorkerView {
        SpectrumWorkerView {
            max_fps: self.max_fps,
            active: optional_work(self.active),
            paused: optional_work(self.paused),
        }
    }
}

impl SpectrumWorkerView {
    /// What every worker keeps: a rate within its limits, never both an active
    /// and a paused run, and runs for the keys that were asked for.
    pub open spec fn wf(self) -> bool {
        &&& 1 <= self.max_fps <= MAX_SPECTRUM_FPS
        &&& !(self.active is Some && self.paused is Some)
        &&& self.active matches Some(work) ==> work.1.key == work.0.key
        &&& self.paused matches Some(work) ==> work.1.key == work.0.key
    }

    /// What the worker works for.
    pub open spec fn request(self) -> Option<SpectrumRequestView> {
        match (self.active, self.paused) {
            (Some(work), _) => Some(work.0),
            (None, Some(work)) => Some(work.0),
            (None, None) => None,
        }
    }

    /// A worker with nothing to do.
    pub open spec fn idle(self) -> SpectrumWorkerView {
        SpectrumWorkerView { active: None, paused: None, ..self }
    }

    /// A worker with one active run.
    pub open spec fn running(
        self,
        request: SpectrumRequestView,
        run: SpectrumRunView,
    ) -> SpectrumWorkerView {
        SpectrumWorkerView { active: Some((request, run)), paused: None, ..self }
    }

    /// What replacing the work does to worker and store, and which step follows.
    pub open spec fn replaced(
        self,
        store: SpectrumStoreView,
        request: SpectrumRequestView,
        after: SpectrumWorkerView,
        store_after: SpectrumStoreView,
        step: SpectrumStep,
    ) -> bool {
        let paced = request.paced(self.max_fps);
        &&& step.retire == self.active is Some
        &&& if store.last_lease < u64::MAX {
            &&& optional_work(step.start) == Some((paced, store.next_run(request.key)))
            &&& store_after == store.requested(request.key)
            &&& after == self.running(paced, store.next_run(request.key))
        } else {
            &&& step.start is None
            &&& store_after == store.emptied()
            &&& after == self.idle()
        }
    }
}

impl SpectrumWorker {
    pub fn spawn(max_fps: u8) -> (worker: Self)
        ensures
            worker@.wf(),
            worker@ == (SpectrumWorkerView {
                max_fps: clamped(max_fps as int, 1, MAX_SPECTRUM_FPS as int) as u8,
                active: None,
                paused: None,
            }),
    {
        SpectrumWorker { max_fps: effective_spectrum_fps(max_fps), active: None, paused: None }
    }

    /// Replaces whatever runs by `request`, at the worker's own rate.
    pub fn replace(&mut self, store: &mut SpectrumFrameStore, request: SpectrumRequest) -> (step:
        SpectrumStep)
        requires
            old(self)@.wf(),
            old(store)@.wf(),
        ensures
            final(self)@.wf(),
            final(store)@.wf(),
            old(self)@.replaced(old(store)@, request@, final(self)@, final(store)@, step),
    {
        let retire = self.active.is_some();
        self.active = None;
        self.paused = None;
        let request = request.with_max_fps(self.max_fps);
        match store.request(request.key.clone()) {
            Some(run) => {
                self.active = Some((request.clone(), run.clone()));
                SpectrumStep { retire, start: Some((request, run)) }
            },
            None => SpectrumStep { retire, start: None },
        }
    }

    /// Pauses the active run and retires it. Its levels stay, unless it failed.
    pub fn pause(&mut self, store: &mut SpectrumFrameStore) -> (step: SpectrumStep)
        requires
            old(self)@.wf(),
            old(store)@.wf(),
        ensures
            final(self)@.wf(),
            final(store)@.wf(),
            step.start is None,
            step.retire == old(self)@.active is Some,
            match old(self)@.active {
                Some(work) => if old(store)@.can_pause(work.1) {
                    &&& final(store)@ == old(store)@.halted()
                    &&& final(self)@ == (SpectrumWorkerView {
                        active: None,
                        paused: Some(work),
                        ..old(self)@
                    })
                } else {
                    &&& final(store)@ == old(store)@
                    &&& final(self)@ == old(self)@.idle()
                },
                None => final(self)@ == old(self)@ && final(store)@ == old(store)@,
            },
    {
        match self.active.take() {
            Some(work) => {
                if store.pause(&work.1) {
                    self.paused = Some(work);
                }
                SpectrumStep { retire: true, start: None }
            },
            None => SpectrumStep { retire: false, start: None },
        }
    }

    /// Resumes a paused run at `position_ms`, as a new run.
    pub fn resume(&mut self, store: &mut SpectrumFrameStore, position_ms: u64) -> (step:
        SpectrumStep)
        requires
            old(self)@.wf(),
            old(store)@.wf(),
        ensures
            final(self)@.wf(),
            final(store)@.wf(),
            !step.retire,
            match old(self)@.paused {
                Some(work) => if !old(store)@.can_resume(work.1) {
                    &&& step.start is None
                    &&& final(store)@ == old(store)@
                    &&& final(self)@ == old(self)@.idle()
                } else if old(store)@.last_lease == u64::MAX {
                    &&& step.start is None
                    &&& final(store)@ == old(store)@.emptied()
                    &&& final(self)@ == old(self)@.idle()
                } else {
                    let request = work.0.starting_at(position_ms);
                    let run = old(store)@.next_run(work.0.key);
                    &&& optional_work(step.start) == Some((request, run))
                    &&& final(store)@ == old(store)@.resumed()
                    &&& final(self)@ == old(self)@.running(request, run)
                },
                None => {
                    &&& step.start is None
                    &&& final(store)@ == old(store)@
                    &&& final(self)@ == old(self)@
                },
            },
    {
        if self.active.is_some() {
            return SpectrumStep { retire: false, start: None };
        }
        match self.paused.take() {
            Some(work) => {
                let (request, old_run) = work;
                let request = request.with_start_ms(position_ms);
                match store.resume(&old_run) {
                    Some(run) => {
                        self.active = Some((request.clone(), run.clone()));
                        SpectrumStep { retire: false, start: Some((request, run)) }
                    },
                    None => SpectrumStep { retire: false, start: None },
                }
            },
            None => SpectrumStep { retire: false, start: None },
        }
    }

    /// Moves to another position: an active run is replaced, a paused one
    /// remembers where it goes on.
    pub fn seek(&mut self, store: &mut SpectrumFrameStore, position_ms: u64) -> (step:
        SpectrumStep)
        requires
            old(self)@.wf(),
            old(store)@.wf(),
        ensures
            final(self)@.wf(),
            final(store)@.wf(),
            match (old(self)@.active, old(self)@.paused) {
                (Some(work), _) => old(self)@.replaced(
                    old(store)@,
                    work.0.starting_at(position_ms),
                    final(self)@,
                    final(store)@,
                    step,
                ),
                (None, Some(work)) => {
                    &&& !step.retire && step.start is None
                    &&& final(store)@ == old(store)@
                    &&& final(self)@ == (SpectrumWorkerView {
                        paused: Some((work.0.starting_at(position_ms), work.1)),
                        ..old(self)@
                    })
                },
                (None, None) => {
                    &&& !step.retire && step.start is None
                    &&& final(store)@ == old(store)@
                    &&& final(self)@ == old(self)@
                },
            },
    {
        let active: Option<SpectrumRequest> = match &self.active {
            Some(work) => Some(work.0.clone()),
            None => None,
        };
        match active {
            Some(request) => self.replace(store, request.with_start_ms(position_ms)),
            None => {
                match self.paused.take() {
                    Some(work) => {
                        let (request, run) = work;
                        self.paused = Some((request.with_start_ms(position_ms), run));
                    },
                    None => {},
                }
                SpectrumStep { retire: false, start: None }
            },
        }
    }

    /// The key that the worker works for.
    pub fn active_key(&self) -> (key: Option<&SpectrumKey>)
        ensures
            match key {
                Some(key) => self@.request() matches Some(request) && request.key == key@,
                None => self@.request() is None,
            },
    {
        match &self.active {
            Some(work) => Some(&work.0.key),
            None => match &self.paused {
                Some(work) => Some(&work.0.key),
                None => None,
            },
        }
    }

    /// Whether the worker already works for what `request` asks for.
    pub fn active_request_matches(&self, request: &SpectrumRequest) -> (matches: bool)
        ensures
            matches == (self@.request() matches Some(active) && active.key == request@.key
                && active.stream_url == request@.stream_url),
    {
        match &self.active {
            Some(work) => work.0.same_source(request),
            None => match &self.paused {
                Some(work) => work.0.same_source(request),
                None => false,
            },
        }
    }

    /// Stops everything and shows nothing.
    pub fn clear(&mut self, store: &mut SpectrumFrameStore) -> (step: SpectrumStep)
        requires
            old(self)@.wf(),
        ensures
            final(self)@.wf(),
            final(store)@.wf(),
            final(self)@ == old(self)@.idle(),
            final(store)@ == old(store)@.cleared(),
            step.start is None,
            step.retire == old(self)@.active is Some,
    {
        let retire = self.active.is_some();
        self.active = None;
        self.paused = None;
        store.clear();
        SpectrumStep { retire, start: None }
    }
}

/// What a publisher does after it saw the newest output of its decoder.
#[derive(Clone, Copy, Debug, Eq, PartialEq, Structural)]
pub enum SpectrumPublisherAction {
    /// Levels were published: wait for one frame interval.
    Pace,
    /// Look for the next output at once.
    Continue,
    /// The decoder failed: stop.
    Stop,
}

/// Publishes the newest output of a decoder run.
pub fn publish_latest_spectrum(
    store: &mut SpectrumFrameStore,
    run: &SpectrumRun,
    latest: Option<Result<Arc<SpectrumFrame>, SpectrumError>>,
) -> (action: SpectrumPublisherAction)
    requires
        old(store)@.wf(),
    ensures
        final(store)@.wf(),
        match latest {
            None => action == SpectrumPublisherAction::Continue && final(store)@ == old(store)@,
            Some(Ok(frame)) => if old(store)@.accepts(run@) && frame@.len()
                == run@.key.target.band_count() {
                action == SpectrumPublisherAction::Pace && final(store)@ == old(store)@.published(
                    frame,
                )
            } else {
                action == SpectrumPublisherAction::Continue && final(store)@ == old(store)@
            },
            Some(Err(_)) => action == SpectrumPublisherAction::Stop && final(store)@ == if old(
                store,
            )@.can_fail(run@) {
                old(store)@.broken()
            } else {
                old(store)@
            },
        },
{
    match latest {
        Some(Ok(frame)) => {
            if store.publish(run, frame) {
                SpectrumPublisherAction::Pace
            } else {
                SpectrumPublisherAction::Continue
            }
        },
        Some(Err(_)) => {
            let _ = store.fail(run);
            SpectrumPublisherAction::Stop
        },
        None => SpectrumPublisherAction::Continue,
    }
}

/// A decoder that runs ffmpeg.
pub struct FfmpegSpectrumDecoder {
    executable: String,
    process_timeout_nanos: u64,
}

impl Clone for FfmpegSpectrumDecoder {
    fn clone(&self) -> (copy: Self)
        ensures
            copy.program() == self.program(),
            copy.timeout() == self.timeout(),
    {
        FfmpegSpectrumDecoder {
            executable: self.executable.clone(),
            process_timeout_nanos: self.process_timeout_nanos,
        }
    }
}

impl FfmpegSpectrumDecoder {
    pub closed spec fn program(self) -> Seq<char> {
        self.executable@
    }

    pub closed spec fn timeout(self) -> u64 {
        self.process_timeout_nanos
    }

    pub fn new(executable: String) -> (decoder: Self)
        ensures
            decoder.program() == executable@,
            decoder.timeout() == MAX_FFMPEG_PROCESS_NANOS,
    {
        FfmpegSpectrumDecoder { executable, process_timeout_nanos: MAX_FFMPEG_PROCESS_NANOS }
    }

    /// Limits the time that a process may run, within the limits that hold for
    /// every process.
    pub fn with_process_timeout(self, timeout_nanos: u64) -> (decoder: Self)
        ensures
            decoder.program() == self.program(),
            decoder.timeout() == clamped(
                timeout_nanos as int,
                MIN_FFMPEG_PROCESS_NANOS as int,
                MAX_FFMPEG_PROCESS_NANOS as int,
            ),
    {
        let limited: u64 = if timeout_nanos < MIN_FFMPEG_PROCESS_NANOS {
            MIN_FFMPEG_PROCESS_NANOS
        } else if timeout_nanos > MAX_FFMPEG_PROCESS_NANOS {
            MAX_FFMPEG_PROCESS_NANOS
        } else {
            timeout_nanos
        };
        FfmpegSpectrumDecoder { executable: self.executable, process_timeout_nanos: limited }
    }

    pub fn process_timeout_nanos(&self) -> (timeout: u64)
        ensures
            timeout == self.timeout(),
    {
        self.process_timeout_nanos
    }

    pub fn executable(&self) -> (executable: &str)
        ensures
            executable@ == self.program(),
    {
        self.executable.as_str()
    }

    /// What may be logged of the decoder: not where its program lies.
    pub fn summary(&self) -> (text: &'static str)
        ensures
            text@ == "FfmpegSpectrumDecoder { executable: [REDACTED] }"@,
    {
        "FfmpegSpectrumDecoder { executable: [REDACTED] }"
    }
}

/// What came of reading from a decoder process.
pub enum PcmRead {
    /// The window is not complete: read on.
    More,
    /// The bytes of a whole window.
    Window(Vec<u8>),
    /// The output ended between two windows.
    End,
    /// The output ended within a window, or could not be read.
    Failed,
}

/// Collects the bytes of analysis windows.
pub struct PcmWindowReader {
    filled: Vec<u8>,
}

impl PcmWindowReader {
    /// The bytes of the window that is being read.
    pub closed spec fn bytes(self) -> Seq<u8> {
        self.filled@
    }

    /// What every reader keeps: its window is not complete.
    #[verifier::type_invariant]
    spec fn incomplete(self) -> bool {
        self.filled@.len() < PCM_FRAME_BYTES
    }

    pub fn new() -> (reader: Self)
        ensures
            reader.bytes() == Seq::<u8>::empty(),
    {
        PcmWindowReader { filled: Vec::new() }
    }

    /// How many bytes the window still needs.
    pub fn missing(&self) -> (missing: usize)
        ensures
            missing == PCM_FRAME_BYTES - self.bytes().len(),
            missing > 0,
    {
        proof {
            use_type_invariant(self);
        }
        PCM_FRAME_BYTES - self.filled.len()
    }

    /// Takes the bytes that one read gave, none at the end of the output, or
    /// `None` when the read failed.
    pub fn on_read(&mut self, read: Option<Vec<u8>>) -> (outcome: PcmRead)
        requires
            read matches Some(bytes) ==> old(self).bytes().len() + bytes@.len() <= PCM_FRAME_BYTES,
        ensures
            match read {
                None => outcome is Failed && final(self).bytes() == old(self).bytes(),
                Some(bytes) => {
                    let all = old(self).bytes() + bytes@;
                    if bytes@.len() == 0 {
                        &&& final(self).bytes() == old(self).bytes()
                        &&& if old(self).bytes().len() == 0 {
                            outcome is End
                        } else {
                            outcome is Failed
                        }
                    } else if all.len() < PCM_FRAME_BYTES {
                        outcome is More && final(self).bytes() == all
                    } else {
                        &&& outcome matches PcmRead::Window(window) && window@ == all
                        &&& final(self).bytes() == Seq::<u8>::empty()
                    }
                },
            },
    {
        proof {
            use_type_invariant(&*self);
        }
        let mut bytes = match read {
            Some(bytes) => bytes,
            None => {
                return PcmRead::Failed;
            },
        };
        if bytes.len() == 0 {
            if self.filled.len() == 0 {
                return PcmRead::End;
            }
            return PcmRead::Failed;
        }
        let ghost chunk = bytes@;
        let mut filled: Vec<u8> = Vec::new();
        std::mem::swap(&mut filled, &mut self.filled);
        filled.append(&mut bytes);
        assert(filled@ =~= old(self).bytes() + chunk);
        if filled.len() < PCM_FRAME_BYTES {
            std::mem::swap(&mut filled, &mut self.filled);
            PcmRead::More
        } else {
            PcmRead::Window(filled)
        }
    }
}

/// The bits of a sample, lowest byte first.
pub open spec fn sample_bits(bytes: Seq<u8>, sample: int) -> int {
    bytes[4 * sample] + 256 * bytes[4 * sample + 1] + 65_536 * bytes[4 * sample + 2] + 16_777_216
        * bytes[4 * sample + 3]
}

/// Whether the bits are those of a finite number: one whose exponent is not all
/// ones.
pub open spec fn finite_bits(bits: int) -> bool {
    bits / 8_388_608 % 256 != 255
}

/// How many of the first samples are infinite or not a number.
pub open spec fn non_finite_count(bytes: Seq<u8>, samples: nat) -> nat
    decreases samples,
{
    if samples == 0 {
        0
    } else {
        non_finite_count(bytes, (samples - 1) as nat) + if finite_bits(
            sample_bits(bytes, samples - 1),
        ) {
            0nat
        } else {
            1nat
        }
    }
}

/// The bits of the samples of a window. Samples that are infinite or not a
/// number become zero; a window with too many of them is refused.
pub fn decode_pcm_samples(bytes: &Vec<u8>) -> (samples: Result<Vec<u32>, SpectrumError>)
    requires
        bytes@.len() == PCM_FRAME_BYTES,
    ensures
        match samples {
            Ok(samples) => {
                &&& non_finite_count(bytes@, FFT_SIZE as nat) <= MAX_NON_FINITE_SAMPLES
                &&& samples@.len() == FFT_SIZE
                &&& forall|i: int|
                    0 <= i < FFT_SIZE ==> #[trigger] samples@[i] == if finite_bits(
                        sample_bits(bytes@, i),
                    ) {
                        sample_bits(bytes@, i)
                    } else {
                        0
                    }
            },
            Err(error) => {
                &&& non_finite_count(bytes@, FFT_SIZE as nat) > MAX_NON_FINITE_SAMPLES
                &&& error == SpectrumError::DecodeFailed
            },
        },
{
    let mut samples: Vec<u32> = Vec::new();
    let mut non_finite: usize = 0;
    let mut index: usize = 0;
    while index < FFT_SIZE
        invariant
            bytes@.len() == PCM_FRAME_BYTES,
            index <= FFT_SIZE,
            samples@.len() == index,
            non_finite <= index,
            non_finite == non_finite_count(bytes@, index as nat),
            forall|i: int|
                0 <= i < index ==> #[trigger] samples@[i] == if finite_bits(
                    sample_bits(bytes@, i),
                ) {
                    sample_bits(bytes@, i)
                } else {
                    0
                },
        decreases FFT_SIZE - index,
    {
        let bits: u32 = bytes[4 * index] as u32 + 256 * bytes[4 * index + 1] as u32 + 65_536
            * bytes[4 * index + 2] as u32 + 16_777_216 * bytes[4 * index + 3] as u32;
        assert(bits == sample_bits(bytes@, index as int));
        if bits / 8_388_608 % 256 != 255 {
            samples.push(bits);
        } else {
            samples.push(0);
            non_finite = non_finite + 1;
        }
        index = index + 1;
    }
    if non_finite > MAX_NON_FINITE_SAMPLES {
        return Err(SpectrumError::DecodeFailed);
    }
    Ok(samples)
}

/// Gives each frequency bin to a band, so that no band goes empty.
pub struct BandLayout {
    bands: usize,
    starts: Vec<usize>,
}

impl BandLayout {
    pub closed spec fn band_count(self) -> nat {
        self.bands as nat
    }

    /// The first bins of the bands so far.
    pub closed spec fn first_bins(self) -> Seq<usize> {
        self.starts@
    }

    /// What every layout keeps: bands that follow each other, each with at least
    /// one bin, and at least one bin left for each band to come.
    #[verifier::type_invariant]
    spec fn valid(self) -> bool {
        &&& 1 <= self.bands <= MAX_SPECTRUM_BANDS
        &&& 1 <= self.starts@.len() <= self.bands
        &&& self.starts@[0] == 0
        &&& forall|i: int, j: int|
            0 <= i < j < self.starts@.len() ==> #[trigger] self.starts@[i]
                < #[trigger] self.starts@[j]
        &&& forall|i: int|
            0 <= i < self.starts@.len() ==> #[trigger] self.starts@[i] <= POSITIVE_BINS - (
            self.bands - i)
    }

    pub fn new(bands: usize) -> (layout: Option<Self>)
        ensures
            match layout {
                Some(layout) => {
                    &&& 1 <= bands <= MAX_SPECTRUM_BANDS
                    &&& layout.band_count() == bands
                    &&& layout.first_bins() == seq![0usize]
                },
                None => !(1 <= bands <= MAX_SPECTRUM_BANDS),
            },
    {
        if bands < 1 || bands > MAX_SPECTRUM_BANDS {
            return None;
        }
        let starts: Vec<usize> = vec![0];
        assert(starts@ =~= seq![0usize]);
        Some(BandLayout { bands, starts })
    }

    /// Starts the next band at `bin`, or as near to it as leaves a bin for the
    /// band before and for each band that follows. Gives where it starts.
    pub fn start_band(&mut self, bin: usize) -> (start: usize)
        requires
            old(self).first_bins().len() < old(self).band_count(),
        ensures
            final(self).band_count() == old(self).band_count(),
            final(self).first_bins() == old(self).first_bins().push(start),
            start == clamped(
                bin as int,
                old(self).first_bins().last() + 1,
                POSITIVE_BINS - (old(self).band_count() - old(self).first_bins().len()),
            ),
    {
        proof {
            use_type_invariant(&*self);
        }
        let boundary: usize = self.starts.len();
        let minimum: usize = self.starts[boundary - 1] + 1;
        let maximum: usize = POSITIVE_BINS - (self.bands - boundary);
        let start: usize = if bin < minimum {
            minimum
        } else if bin > maximum {
            maximum
        } else {
            bin
        };
        let mut starts: Vec<usize> = vec![0];
        std::mem::swap(&mut starts, &mut self.starts);
        starts.push(start);
        self.starts = starts;
        start
    }

    /// The band of each bin. Every band has at least one.
    pub fn finish(self) -> (bin_bands: Vec<usize>)
        requires
            self.first_bins().len() == self.band_count(),
        ensures
            bin_bands@.len() == POSITIVE_BINS,
            forall|bin: int|
                0 <= bin < POSITIVE_BINS ==> is_band_of(
                    self.first_bins(),
                    bin,
                    #[trigger] bin_bands@[bin] as int,
                ),
            forall|band: int|
                0 <= band < self.band_count() ==> bin_bands@[#[trigger] self.first_bins()[band]
                    as int] == band,
    {
        proof {
            use_type_invariant(&self);
        }
        let starts = &self.starts;
        let mut bin_bands: Vec<usize> = Vec::new();
        let mut band: usize = 0;
        let mut bin: usize = 0;
        while bin < POSITIVE_BINS
            invariant
                starts@ == self.first_bins(),
                1 <= starts@.len(),
                starts@[0] == 0,
                forall|i: int, j: int|
                    0 <= i < j < starts@.len() ==> #[trigger] starts@[i] < #[trigger] starts@[j],
                band < starts@.len(),
                bin <= POSITIVE_BINS,
                bin_bands@.len() == bin,
                bin == 0 ==> band == 0,
                bin > 0 ==> starts@[band as int] < bin,
                band + 1 < starts@.len() ==> bin <= starts@[band + 1],
                forall|b: int|
                    0 <= b < bin ==> is_band_of(starts@, b, #[trigger] bin_bands@[b] as int),
            decreases POSITIVE_BINS - bin,
        {
            if band + 1 < starts.len() && starts[band + 1] == bin {
                band = band + 1;
            }
            bin_bands.push(band);
            bin = bin + 1;
            assert(is_band_of(starts@, bin - 1, band as int));
        }
        assert forall|b: int| 0 <= b < self.band_count() implies bin_bands@[#[trigger] self.first_bins()[b]
            as int] == b by {
            let first = self.first_bins()[b] as int;
            let found = bin_bands@[first] as int;
            assert(is_band_of(starts@, first, found));
            if found < b {
                assert(starts@[found + 1] <= starts@[b]);
            }
            if found > b {
                assert(starts@[b] < starts@[found]);
            }
        }
        bin_bands
    }
}

/// Whether `bin` belongs to `band`: it lies between the band's first bin and the
/// first bin of the next.
pub open spec fn is_band_of(first_bins: Seq<usize>, bin: int, band: int) -> bool {
    &&& 0 <= band < first_bins.len()
    &&& first_bins[band] <= bin
    &&& band + 1 < first_bins.len() ==> bin < first_bins[band + 1]
}

/// What happened to a decoder process.
pub enum SpectrumDecodeEvent {
    Cancelled,
    DeadlineReached,
    /// The bytes of a window were read.
    WindowRead(Vec<u8>),
    /// The samples of a window were analysed.
    Analysed(Option<SpectrumFrame>),
    EndOfOutput,
    ReadFailed,
    Exited { success: bool },
    WaitFailed,
}

/// What is to be done with a decoder process.
pub enum SpectrumDecodeAction {
    /// Read the bytes of one window.
    ReadWindow,
    /// Analyse samples, given by their bits.
    Analyse(Vec<u32>),
    /// Show levels, then read the bytes of the next window.
    ShowThenRead(SpectrumFrame),
    /// Show the last levels, then kill the process. Once it is gone, the result
    /// stands.
    ShowThenKill(SpectrumFrame, Result<(), SpectrumError>),
    /// Wait for the process to end.
    AwaitExit,
    /// Kill the process. Once it is gone, the result stands.
    Kill(Result<(), SpectrumError>),
    /// The process is gone, and the result stands.
    Finish(Result<(), SpectrumError>),
}

/// Follows one decoder process from its start to its end.
pub struct SpectrumDecode {
    decoded: u64,
}

impl SpectrumDecode {
    /// How many windows were analysed.
    pub closed spec fn count(self) -> u64 {
        self.decoded
    }

    /// What every decoding keeps: there is room for one more window.
    #[verifier::type_invariant]
    spec fn below_limit(self) -> bool {
        self.decoded < 16 * MAX_ANALYSIS_SECONDS
    }

    /// Starts a decoding: the first thing to do is to read a window.
    pub fn start() -> (decode: Self)
        ensures
            decode.count() == 0,
    {
        SpectrumDecode { decoded: 0 }
    }

    /// Takes what happened, and says what is to be done next.
    pub fn on_event(&mut self, event: SpectrumDecodeEvent) -> (action: SpectrumDecodeAction)
        requires
            event matches SpectrumDecodeEvent::WindowRead(bytes) ==> bytes@.len()
                == PCM_FRAME_BYTES,
        ensures
            spectrum_decode_step(old(self).count(), event, final(self).count(), action),
    {
        proof {
            use_type_invariant(&*self);
        }
        match event {
            SpectrumDecodeEvent::Cancelled => SpectrumDecodeAction::Kill(Ok(())),
            SpectrumDecodeEvent::DeadlineReached => SpectrumDecodeAction::Kill(
                Err(SpectrumError::ResourceLimit),
            ),
            SpectrumDecodeEvent::WindowRead(bytes) => match decode_pcm_samples(&bytes) {
                Ok(samples) => SpectrumDecodeAction::Analyse(samples),
                Err(error) => SpectrumDecodeAction::Kill(Err(error)),
            },
            SpectrumDecodeEvent::Analysed(Some(frame)) => {
                if self.decoded + 1 >= max_pcm_frame_count() {
                    SpectrumDecodeAction::ShowThenKill(frame, Err(SpectrumError::ResourceLimit))
                } else {
                    self.decoded = self.decoded + 1;
                    SpectrumDecodeAction::ShowThenRead(frame)
                }
            },
            SpectrumDecodeEvent::Analysed(None) => SpectrumDecodeAction::Kill(
                Err(SpectrumError::DecodeFailed),
            ),
            SpectrumDecodeEvent::EndOfOutput => {
                if self.decoded == 0 {
                    SpectrumDecodeAction::Kill(Err(SpectrumError::DecodeFailed))
                } else {
                    SpectrumDecodeAction::AwaitExit
                }
            },
            SpectrumDecodeEvent::ReadFailed => SpectrumDecodeAction::Kill(
                Err(SpectrumError::DecodeFailed),
            ),
            SpectrumDecodeEvent::Exited { success } => {
                if success {
                    SpectrumDecodeAction::Finish(Ok(()))
                } else {
                    SpectrumDecodeAction::Finish(Err(SpectrumError::DecodeFailed))
                }
            },
            SpectrumDecodeEvent::WaitFailed => SpectrumDecodeAction::Finish(
                Err(SpectrumError::DecodeFailed),
            ),
        }
    }
}

/// Whether `samples` are the bits of the samples that `bytes` hold, with zero
/// for those that are infinite or not a number.
pub open spec fn are_samples(samples: Seq<u32>, bytes: Seq<u8>) -> bool {
    &&& samples.len() == FFT_SIZE
    &&& forall|i: int|
        0 <= i < FFT_SIZE ==> #[trigger] samples[i] == if finite_bits(sample_bits(bytes, i)) {
            sample_bits(bytes, i)
        } else {
            0
        }
}

/// What an event does to a decoding that has analysed `before` windows.
pub open spec fn spectrum_decode_step(
    before: u64,
    event: SpectrumDecodeEvent,
    after: u64,
    action: SpectrumDecodeAction,
) -> bool {
    match event {
        SpectrumDecodeEvent::Cancelled => after == before && action == SpectrumDecodeAction::Kill(
            Ok(()),
        ),
        SpectrumDecodeEvent::DeadlineReached => after == before && action
            == SpectrumDecodeAction::Kill(Err(SpectrumError::ResourceLimit)),
        SpectrumDecodeEvent::WindowRead(bytes) => after == before && if non_finite_count(
            bytes@,
            FFT_SIZE as nat,
        ) <= MAX_NON_FINITE_SAMPLES {
            action matches SpectrumDecodeAction::Analyse(samples) && are_samples(samples@, bytes@)
        } else {
            action == SpectrumDecodeAction::Kill(Err(SpectrumError::DecodeFailed))
        },
        SpectrumDecodeEvent::Analysed(Some(frame)) => if before + 1 < 16 * MAX_ANALYSIS_SECONDS {
            after == before + 1 && action == SpectrumDecodeAction::ShowThenRead(frame)
        } else {
            after == before && action == SpectrumDecodeAction::ShowThenKill(
                frame,
                Err(SpectrumError::ResourceLimit),
            )
        },
        SpectrumDecodeEvent::Analysed(None) => after == before && action
            == SpectrumDecodeAction::Kill(Err(SpectrumError::DecodeFailed)),
        SpectrumDecodeEvent::EndOfOutput => after == before && if before == 0 {
            action == SpectrumDecodeAction::Kill(Err(SpectrumError::DecodeFailed))
        } else {
            action is AwaitExit
        },
        SpectrumDecodeEvent::ReadFailed => after == before && action == SpectrumDecodeAction::Kill(
            Err(SpectrumError::DecodeFailed),
        ),
        SpectrumDecodeEvent::Exited { success } => after == before && action
            == SpectrumDecodeAction::Finish(
            if success {
                Ok(())
            } else {
                Err(SpectrumError::DecodeFailed)
            },
        ),
        SpectrumDecodeEvent::WaitFailed => after == before && action
            == SpectrumDecodeAction::Finish(Err(SpectrumError::DecodeFailed)),
    }
}

/// The result of a decoding whose process was killed: one that is not gone in
/// time is a resource that was not given back.
pub fn spectrum_result_after_kill(result: Result<(), SpectrumError>, reaped: bool) -> (outcome:
    Result<(), SpectrumError>)
    ensures
        outcome == if reaped {
            result
        } else {
            Err(SpectrumError::ResourceLimit)
        },
{
    if reaped {
        result
    } else {
        Err(SpectrumError::ResourceLimit)
    }
}

/// The arguments that a decoder process is started with.
pub open spec fn spectrum_argument_texts(request: SpectrumRequestView) -> Seq<Seq<char>> {
    seq![
        "-nostdin"@,
        "-hide_banner"@,
        "-loglevel"@,
        "error"@,
        "-max_alloc"@,
        decimal_digits(MAX_FFMPEG_ALLOC_BYTES as nat),
        "-probesize"@,
        decimal_digits(MAX_FFMPEG_PROBE_BYTES as nat),
        "-analyzeduration"@,
        decimal_digits(MAX_FFMPEG_ANALYZE_MICROS as nat),
        "-rw_timeout"@,
        decimal_digits(FFMPEG_IO_TIMEOUT_MICROS as nat),
        "-readrate"@,
        "1"@,
        "-ss"@,
        seconds_text(request.start_ms as nat),
        "-i"@,
        request.stream_url,
        "-vn"@,
        "-t"@,
        decimal_digits(MAX_ANALYSIS_SECONDS as nat),
        "-ac"@,
        "1"@,
        "-ar"@,
        decimal_digits(ANALYSIS_SAMPLE_RATE as nat),
        "-acodec"@,
        "pcm_f32le"@,
        "-f"@,
        "f32le"@,
        "pipe:1"@,
    ]
}

/// The arguments that a decoder process is started with. The address of the
/// stream is one argument of its own.
pub fn spectrum_ffmpeg_arguments(request: &SpectrumRequest) -> (arguments: Vec<String>)
    ensures
        crate::domain::texts(arguments@) == spectrum_argument_texts(request@),
{
    let arguments: Vec<String> = vec![
        "-nostdin".to_owned(),
        "-hide_banner".to_owned(),
        "-loglevel".to_owned(),
        "error".to_owned(),
        "-max_alloc".to_owned(),
        decimal(MAX_FFMPEG_ALLOC_BYTES),
        "-probesize".to_owned(),
        decimal(MAX_FFMPEG_PROBE_BYTES),
        "-analyzeduration".to_owned(),
        decimal(MAX_FFMPEG_ANALYZE_MICROS),
        "-rw_timeout".to_owned(),
        decimal(FFMPEG_IO_TIMEOUT_MICROS),
        "-readrate".to_owned(),
        "1".to_owned(),
        "-ss".to_owned(),
        format_seconds(request.start_ms),
        "-i".to_owned(),
        request.stream_url.clone(),
        "-vn".to_owned(),
        "-t".to_owned(),
        decimal(MAX_ANALYSIS_SECONDS),
        "-ac".to_owned(),
        "1".to_owned(),
        "-ar".to_owned(),
        decimal(ANALYSIS_SAMPLE_RATE as u64),
        "-acodec".to_owned(),
        "pcm_f32le".to_owned(),
        "-f".to_owned(),
        "f32le".to_owned(),
        "pipe:1".to_owned(),
    ];
    assert(crate::domain::texts(arguments@) =~= spectrum_argument_texts(request@));
    arguments
}

/// A run that was started before can do nothing to a spectrum that was asked
/// for or resumed after it: neither publish nor pause nor resume nor fail.
pub proof fn law_old_run_is_powerless(
    store: SpectrumStoreView,
    old_run: SpectrumRunView,
    new_key: SpectrumKeyView,
)
    requires
        store.wf(),
        old_run.lease.0 <= store.last_lease < u64::MAX,
    ensures
        !store.requested(new_key).runs(old_run),
        !store.requested(new_key).accepts(old_run),
        !store.requested(new_key).can_pause(old_run),
        !store.requested(new_key).can_resume(old_run),
        !store.requested(new_key).can_fail(old_run),
        store.slot is Some ==> !store.resumed().runs(old_run),
        store.slot is Some ==> !store.resumed().accepts(old_run),
        store.slot is Some ==> !store.resumed().can_pause(old_run),
        store.slot is Some ==> !store.resumed().can_resume(old_run),
        store.slot is Some ==> !store.resumed().can_fail(old_run),
{
}

/// Pausing keeps the levels that are shown, whatever the retiring run still
/// reports, and resuming keeps them too.
pub proof fn law_paused_levels_stay(
    store: SpectrumStoreView,
    run: SpectrumRunView,
)
    requires
        store.wf(),
        store.can_pause(run),
        store.last_lease < u64::MAX,
    ensures
        store.halted().wf(),
        store.halted().shown(run.key).frame == store.shown(run.key).frame,
        store.halted().shown(run.key).paused,
        !store.halted().accepts(run),
        !store.halted().can_fail(run),
        store.halted().can_resume(run),
        store.halted().resumed().wf(),
        store.halted().resumed().shown(run.key).frame == store.shown(run.key).frame,
        !store.halted().resumed().shown(run.key).paused,
{
}

/// A spectrum that failed shows no levels, and accepts none.
pub proof fn law_failed_spectrum_is_quiet(store: SpectrumStoreView, run: SpectrumRunView)
    requires
        store.wf(),
        store.can_fail(run),
    ensures
        store.broken().wf(),
        store.broken().shown(run.key) == (SpectrumPresentationView {
            frame: None,
            paused: false,
            failed: true,
        }),
        !store.broken().accepts(run),
        !store.broken().can_pause(run),
        !store.broken().can_resume(run),
{
}

/// Only the newest levels are kept.
pub proof fn law_newest_levels_win(
    store: SpectrumStoreView,
    first: Arc<SpectrumFrame>,
    second: Arc<SpectrumFrame>,
)
    requires
        store.slot is Some,
    ensures
        store.published(first).published(second).slot == store.published(second).slot,
{
}

/// Only the key that was asked for shows anything: one that differs in its
/// generation, its item or its target stays quiet.
pub proof fn law_other_keys_stay_quiet(store: SpectrumStoreView, key: SpectrumKeyView)
    requires
        store.slot matches Some(slot) ==> slot.run.key != key,
    ensures
        store.shown(key) == quiet_presentation(),
{
}

/// What is logged of a request, a key or a run tells neither the item nor the
/// address: it is the same whatever they are.
pub proof fn law_request_log_keeps_secrets(
    request: SpectrumRequestView,
    run: SpectrumRunView,
    media_id: MediaIdView,
    stream_url: Seq<char>,
)
    ensures
        key_summary(SpectrumKeyView { media_id, ..request.key }) == key_summary(request.key),
        run_summary(SpectrumRunView { key: SpectrumKeyView { media_id, ..run.key }, ..run })
            == run_summary(run),
        request_summary(
            SpectrumRequestView {
                key: SpectrumKeyView { media_id, ..request.key },
                stream_url,
                ..request
            },
        ) == request_summary(request),
{
}

/// What is logged of a store tells neither the item nor the levels: it is the
/// same whatever they are.
pub proof fn law_store_log_keeps_secrets(
    store: SpectrumStoreView,
    media_id: MediaIdView,
    frame: Arc<SpectrumFrame>,
)
    requires
        store.slot is Some,
        store.slot->0.frame is Some,
    ensures
        store_summary(
            SpectrumStoreView {
                slot: Some(
                    SpectrumSlotView {
                        run: SpectrumRunView {
                            key: SpectrumKeyView { media_id, ..store.slot->0.run.key },
                            ..store.slot->0.run
                        },
                        frame: Some(frame),
                        ..store.slot->0
                    },
                ),
                ..store
            },
        ) == store_summary(store),
{
}

/// What is logged of a presentation tells only how many levels there are.
pub proof fn law_presentation_log_keeps_levels(
    shown: SpectrumPresentationView,
    frame: Arc<SpectrumFrame>,
)
    requires
        shown.frame is Some,
        frame@.len() == shown.frame->0@.len(),
    ensures
        presentation_summary(SpectrumPresentationView { frame: Some(frame), ..shown })
            == presentation_summary(shown),
{
}

/// The address of a stream is one argument of its own, right behind `-i`, and
/// changes no other.
pub proof fn law_address_is_one_argument(request: SpectrumRequestView, stream_url: Seq<char>)
    ensures
        spectrum_argument_texts(SpectrumRequestView { stream_url, ..request })
            == spectrum_argument_texts(request).update(17, stream_url),
        spectrum_argument_texts(request)[16] == "-i"@,
        spectrum_argument_texts(request)[17] == request.stream_url,
{
    let other = SpectrumRequestView { stream_url, ..request };
    assert(spectrum_argument_texts(other) =~= spectrum_argument_texts(request).update(
        17,
        stream_url,
    ));
}

/// How often a spectrum is drawn changes nothing of what its decoder is asked for.
pub proof fn law_rate_does_not_reach_the_decoder(request: SpectrumRequestView, max_fps: u8)
    ensures
        spectrum_argument_texts(SpectrumRequestView { max_fps, ..request })
            == spectrum_argument_texts(request),
{
}

/// An analysis goes on only below its limit: each window that is shown and
/// followed by another counts, and the last that is allowed ends it.
pub proof fn law_analysis_is_bounded(
    before: u64,
    event: SpectrumDecodeEvent,
    after: u64,
    action: SpectrumDecodeAction,
)
    requires
        before < 16 * MAX_ANALYSIS_SECONDS,
        spectrum_decode_step(before, event, after, action),
    ensures
        after < 16 * MAX_ANALYSIS_SECONDS,
        action is ShowThenRead ==> after == before + 1,
        action !is ShowThenRead ==> after == before,
        action is ShowThenKill ==> before + 1 == 16 * MAX_ANALYSIS_SECONDS,
{
}

} // verus!
