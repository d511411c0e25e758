//! Animated artwork: which frame is shown, and how the decoder that makes the
//! frames is started, paused and replaced.

use std::sync::Arc;
use vstd::prelude::*;
use vstd::string::*;

use crate::domain::{Generation, MediaId, MediaIdView};
use crate::provider::model::{append_bool, bool_text};
use crate::text::{append_decimal, decimal, decimal_digits, format_seconds, seconds_text};
use crate::ui::artwork::{decode_rgb_frame, ArtworkGrid, CellSize};

verus! {

/// The highest rate at which frames are decoded and shown.
pub const MAX_ANIMATION_FPS: u8 = 15;

/// The longest stretch of a preview that is decoded.
pub const MAX_ANIMATION_SECONDS: u64 = 14_400;

pub const MAX_FFMPEG_ALLOC_BYTES: u64 = 67_108_864;

pub const MAX_FFMPEG_PROBE_BYTES: u64 = 1_048_576;

pub const MAX_FFMPEG_ANALYZE_MICROS: u64 = 5_000_000;

pub const MAX_FFMPEG_SOURCE_PIXELS: u64 = 16_777_216;

pub const FFMPEG_IO_TIMEOUT_MICROS: u64 = 10_000_000;

/// The longest time that a decoder process may run, in nanoseconds.
pub const MAX_FFMPEG_PROCESS_NANOS: u64 = 14_700_000_000_000;

/// The shortest limit that can be set on a decoder process, in nanoseconds.
pub const MIN_FFMPEG_PROCESS_NANOS: u64 = 1_000_000;

/// What an animation belongs to: a playback attempt, a media item and a size.
#[derive(Eq, PartialEq)]
pub struct AnimationKey {
    generation: Generation,
    media_id: MediaId,
    size: CellSize,
}

/// What an [`AnimationKey`] says.
#[verifier::ext_equal]
pub struct AnimationKeyView {
    pub generation: Generation,
    pub media_id: MediaIdView,
    pub size: CellSize,
}

impl View for AnimationKey {
    type V = AnimationKeyView;

    closed spec fn view(&self) -> AnimationKeyView {
        AnimationKeyView {
            generation: self.generation,
            media_id: self.media_id@,
            size: self.size,
        }
    }
}

impl Clone for AnimationKey {
    fn clone(&self) -> (copy: Self)
        ensures
            copy == *self,
    {
        AnimationKey {
            generation: self.generation,
            media_id: self.media_id.clone(),
            size: self.size,
        }
    }
}

impl AnimationKey {
    pub fn new(generation: Generation, media_id: MediaId, size: CellSize) -> (key: Self)
        ensures
            key@ == (AnimationKeyView { generation, media_id: media_id@, size }),
    {
        AnimationKey { generation, media_id, size }
    }

    pub fn generation(&self) -> (generation: Generation)
        ensures
            generation == self@.generation,
    {
        self.generation
    }

    pub fn media_id(&self) -> (media_id: &MediaId)
        ensures
            media_id@ == self@.media_id,
    {
        &self.media_id
    }

    pub fn size(&self) -> (size: CellSize)
        ensures
            size == self@.size,
    {
        self.size
    }

    /// Whether an animation may have the key's size.
    pub fn valid(&self) -> (valid: bool)
        ensures
            valid == self@.size.drawable(),
    {
        self.size.is_drawable()
    }

    /// What may be logged of the key: not which item it is for.
    pub fn summary(&self) -> (text: String)
        ensures
            text@ == key_summary(self@),
    {
        let mut text = String::new();
        text.append("AnimationKey { generation: Generation(");
        append_decimal(&mut text, self.generation.0);
        text.append("), media_id: \"[REDACTED]\", size: CellSize { width: ");
        append_decimal(&mut text, self.size.width as u64);
        text.append(", height: ");
        append_decimal(&mut text, self.size.height as u64);
        text.append(" } }");
        assert(text@ =~= key_summary(self@));
        text
    }

    /// Whether both keys agree in generation, media item and size.
    pub fn same(&self, other: &AnimationKey) -> (same: bool)
        ensures
            same == (self@ == other@),
    {
        self.generation == other.generation && self.media_id.same(&other.media_id) && self.size
            == other.size
    }
}

/// What may be logged of a key: not which item it is for.
pub open spec fn key_summary(key: AnimationKeyView) -> Seq<char> {
    "AnimationKey { generation: Generation("@ + decimal_digits(key.generation.0 as nat)
        + "), media_id: \"[REDACTED]\", size: CellSize { width: "@ + decimal_digits(
        key.size.width as nat,
    ) + ", height: "@ + decimal_digits(key.size.height as nat) + " } }"@
}

/// The right of one decoder run to publish frames.
#[derive(Clone, Copy, Debug, Eq, PartialEq, Structural)]
pub struct AnimationLease(pub u64);

struct AnimationSlot {
    key: AnimationKey,
    lease: AnimationLease,
    frame: Option<Arc<ArtworkGrid>>,
    paused: bool,
    failed: bool,
}

/// The one animation that can be shown.
#[verifier::ext_equal]
pub struct AnimationSlotView {
    pub key: AnimationKeyView,
    pub lease: AnimationLease,
    pub frame: Option<Arc<ArtworkGrid>>,
    pub paused: bool,
    pub failed: bool,
}

impl View for AnimationSlot {
    type V = AnimationSlotView;

    closed spec fn view(&self) -> AnimationSlotView {
        AnimationSlotView {
            key: self.key@,
            lease: self.lease,
            frame: self.frame,
            paused: self.paused,
            failed: self.failed,
        }
    }
}

/// The state of an [`AnimationFrameStore`].
#[verifier::ext_equal]
pub struct AnimationStoreView {
    /// The animation that is shown, if there is one.
    pub slot: Option<AnimationSlotView>,
    /// A number that changes whenever something new is to be drawn.
    pub redraw: u64,
    /// The last lease that was given.
    pub last_lease: u64,
}

/// Holds the newest frame of one animation, and lets only the run that
/// currently decodes it publish.
pub struct AnimationFrameStore {
    current: Option<AnimationSlot>,
    redraw: u64,
    last_lease: u64,
}

impl View for AnimationFrameStore {
    type V = AnimationStoreView;

    closed spec fn view(&self) -> AnimationStoreView {
        AnimationStoreView {
            slot: match self.current {
                Some(slot) => Some(slot@),
                None => None,
            },
            redraw: self.redraw,
            last_lease: self.last_lease,
        }
    }
}

/// `value` plus one, starting over after the largest number.
pub open spec fn next_revision(value: u64) -> u64 {
    if value == u64::MAX {
        0
    } else {
        (value + 1) as u64
    }
}

impl AnimationStoreView {
    /// What every store keeps: the shown animation can be drawn, and holds a
    /// lease that was given. What failed shows no frame.
    pub open spec fn wf(self) -> bool {
        self.slot matches Some(slot) ==> {
            &&& slot.key.size.drawable()
            &&& slot.lease.0 <= self.last_lease
            &&& slot.failed ==> slot.frame is None
            &&& slot.frame matches Some(frame) ==> frame.cell_size() == slot.key.size
        }
    }

    /// Whether the store shows `key`.
    pub open spec fn shows(self, key: AnimationKeyView) -> bool {
        self.slot matches Some(slot) && slot.key == key
    }

    /// Whether `key` is shown under `lease`.
    pub open spec fn leased(self, key: AnimationKeyView, lease: AnimationLease) -> bool {
        self.slot matches Some(slot) && slot.key == key && slot.lease == lease
    }

    /// Whether the run that holds `lease` may publish a frame for `key`.
    pub open spec fn accepts(self, key: AnimationKeyView, lease: AnimationLease) -> bool {
        self.slot matches Some(slot) && slot.key == key && slot.lease == lease && !slot.paused
            && !slot.failed
    }

    /// The store after `frame` was published.
    pub open spec fn published(self, frame: Arc<ArtworkGrid>) -> AnimationStoreView {
        AnimationStoreView {
            slot: Some(AnimationSlotView { frame: Some(frame), ..self.slot->0 }),
            redraw: next_revision(self.redraw),
            ..self
        }
    }

    /// The store after a new animation was asked for.
    pub open spec fn requested(self, key: AnimationKeyView) -> AnimationStoreView {
        AnimationStoreView {
            slot: Some(
                AnimationSlotView {
                    key,
                    lease: AnimationLease((self.last_lease + 1) as u64),
                    frame: None,
                    paused: false,
                    failed: false,
                },
            ),
            last_lease: (self.last_lease + 1) as u64,
            ..self
        }
    }

    /// The store after the shown animation was paused.
    pub open spec fn halted(self) -> AnimationStoreView {
        AnimationStoreView {
            slot: Some(AnimationSlotView { paused: true, ..self.slot->0 }),
            ..self
        }
    }

    /// The store after a lease was given to nobody.
    pub open spec fn lease_spent(self) -> AnimationStoreView {
        AnimationStoreView { last_lease: (self.last_lease + 1) as u64, ..self }
    }

    /// The store after the shown animation was resumed under a new lease.
    pub open spec fn resumed(self) -> AnimationStoreView {
        AnimationStoreView {
            slot: Some(
                AnimationSlotView {
                    lease: AnimationLease((self.last_lease + 1) as u64),
                    paused: false,
                    ..self.slot->0
                },
            ),
            last_lease: (self.last_lease + 1) as u64,
            ..self
        }
    }

    /// The store after the shown animation failed.
    pub open spec fn broken(self) -> AnimationStoreView {
        AnimationStoreView {
            slot: Some(AnimationSlotView { frame: None, failed: true, ..self.slot->0 }),
            ..self
        }
    }

    /// The store that shows nothing.
    pub open spec fn cleared(self) -> AnimationStoreView {
        AnimationStoreView { slot: None, ..self }
    }
}

impl Default for AnimationFrameStore {
    fn default() -> (store: Self)
        ensures
            store@.wf(),
            store@ == (AnimationStoreView { slot: None, redraw: 0, last_lease: 0 }),
    {
        AnimationFrameStore::new()
    }
}

impl AnimationFrameStore {
    pub fn new() -> (store: Self)
        ensures
            store@ == (AnimationStoreView { slot: None, redraw: 0, last_lease: 0 }),
            store@.wf(),
    {
        AnimationFrameStore { current: None, redraw: 0, last_lease: 0 }
    }

    /// A number that changes whenever something new is to be drawn.
    pub fn redraw_revision(&self) -> (revision: u64)
        ensures
            revision == self@.redraw,
    {
        self.redraw
    }

    /// Asks for an animation, and says whether it can be shown.
    pub fn request(&mut self, key: AnimationKey) -> (accepted: bool)
        requires
            old(self)@.wf(),
        ensures
            final(self)@.wf(),
            accepted == (key@.size.drawable() && old(self)@.last_lease < u64::MAX),
            final(self)@ == if accepted {
                old(self)@.requested(key@)
            } else if !key@.size.drawable() {
                old(self)@.cleared()
            } else {
                old(self)@
            },
    {
        self.request_with_lease(key).is_some()
    }

    /// Asks for an animation, and gives the lease under which its frames are
    /// accepted. A size that cannot be shown clears the store.
    pub fn request_with_lease(&mut self, key: AnimationKey) -> (lease: Option<AnimationLease>)
        requires
            old(self)@.wf(),
        ensures
            final(self)@.wf(),
            match lease {
                Some(lease) => {
                    &&& key@.size.drawable()
                    &&& old(self)@.last_lease < u64::MAX
                    &&& lease.0 == old(self)@.last_lease + 1
                    &&& final(self)@ == old(self)@.requested(key@)
                },
                None => {
                    &&& !key@.size.drawable() || old(self)@.last_lease == u64::MAX
                    &&& final(self)@ == if key@.size.drawable() {
                        old(self)@
                    } else {
                        old(self)@.cleared()
                    }
                },
            },
    {
        if !key.valid() {
            self.clear();
            return None;
        }
        let lease = match self.allocate_lease() {
            Some(lease) => lease,
            None => {
                return None;
            },
        };
        self.current = Some(
            AnimationSlot { key, lease, frame: None, paused: false, failed: false },
        );
        Some(lease)
    }

    /// Publishes a frame of the animation that is shown.
    pub fn publish(&mut self, key: &AnimationKey, frame: Arc<ArtworkGrid>) -> (published: bool)
        requires
            old(self)@.wf(),
        ensures
            final(self)@.wf(),
            published == (old(self)@.shows(key@) && frame.cell_size() == key@.size
                && !old(self)@.slot->0.paused && !old(self)@.slot->0.failed),
            final(self)@ == if published {
                old(self)@.published(frame)
            } else {
                old(self)@
            },
    {
        let lease = match &self.current {
            Some(slot) => {
                if !slot.key.same(key) {
                    return false;
                }
                slot.lease
            },
            None => {
                return false;
            },
        };
        self.publish_with_lease(key, lease, frame)
    }

    /// Publishes a frame under a lease. Frames of another size, of a run that
    /// was replaced, and frames that come while the animation is paused or
    /// after it failed are dropped.
    pub fn publish_with_lease(
        &mut self,
        key: &AnimationKey,
        lease: AnimationLease,
        frame: Arc<ArtworkGrid>,
    ) -> (published: bool)
        requires
            old(self)@.wf(),
        ensures
            final(self)@.wf(),
            published == (old(self)@.accepts(key@, lease) && frame.cell_size() == key@.size),
            final(self)@ == if published {
                old(self)@.published(frame)
            } else {
                old(self)@
            },
    {
        if frame.width() != key.size.width || frame.height() != key.size.height {
            return false;
        }
        let mut slot = match self.current.take() {
            Some(slot) => slot,
            None => {
                return false;
            },
        };
        if !slot.key.same(key) || slot.lease != lease || slot.paused || slot.failed {
            self.current = Some(slot);
            return false;
        }
        slot.frame = Some(frame);
        self.current = Some(slot);
        self.redraw = if self.redraw == u64::MAX {
            0
        } else {
            self.redraw + 1
        };
        assert(self@ =~= old(self)@.published(frame));
        true
    }

    /// The frame that is shown for `key`.
    pub fn presentation(&self, key: &AnimationKey) -> (frame: Option<Arc<ArtworkGrid>>)
        ensures
            frame == if self@.shows(key@) && !self@.slot->0.failed {
                self@.slot->0.frame
            } else {
                None
            },
    {
        match &self.current {
            Some(slot) => {
                if slot.key.same(key) && !slot.failed {
                    clone_frame(&slot.frame)
                } else {
                    None
                }
            },
            None => None,
        }
    }

    /// Pauses the animation of `key`: its frame stays, and no other comes.
    pub fn pause(&mut self, key: &AnimationKey) -> (paused: bool)
        requires
            old(self)@.wf(),
        ensures
            final(self)@.wf(),
            paused == (old(self)@.shows(key@) && !old(self)@.slot->0.failed),
            final(self)@ == if paused {
                old(self)@.halted()
            } else {
                old(self)@
            },
    {
        let mut slot = match self.current.take() {
            Some(slot) => slot,
            None => {
                return false;
            },
        };
        if !slot.key.same(key) || slot.failed {
            self.current = Some(slot);
            return false;
        }
        slot.paused = true;
        self.current = Some(slot);
        assert(self@ =~= old(self)@.halted());
        true
    }

    /// Resumes the animation of `key`.
    pub fn resume(&mut self, key: &AnimationKey) -> (resumed: bool)
        requires
            old(self)@.wf(),
        ensures
            final(self)@.wf(),
            resumed == (old(self)@.last_lease < u64::MAX && old(self)@.shows(key@)
                && !old(self)@.slot->0.failed),
            final(self)@ == if resumed {
                old(self)@.resumed()
            } else if old(self)@.last_lease < u64::MAX {
                old(self)@.lease_spent()
            } else {
                old(self)@
            },
    {
        self.resume_with_new_lease(key).is_some()
    }

    /// Resumes the animation of `key` under a new lease. Frames of the run
    /// before are no longer accepted.
    pub fn resume_with_new_lease(&mut self, key: &AnimationKey) -> (lease: Option<AnimationLease>)
        requires
            old(self)@.wf(),
        ensures
            final(self)@.wf(),
            match lease {
                Some(lease) => {
                    &&& old(self)@.last_lease < u64::MAX
                    &&& lease.0 == old(self)@.last_lease + 1
                    &&& old(self)@.shows(key@)
                    &&& !old(self)@.slot->0.failed
                    &&& final(self)@ == old(self)@.resumed()
                },
                None => if old(self)@.last_lease == u64::MAX {
                    final(self)@ == old(self)@
                } else {
                    &&& !(old(self)@.shows(key@) && !old(self)@.slot->0.failed)
                    &&& final(self)@ == old(self)@.lease_spent()
                },
            },
    {
        let lease = match self.allocate_lease() {
            Some(lease) => lease,
            None => {
                return None;
            },
        };
        let mut slot = match self.current.take() {
            Some(slot) => slot,
            None => {
                return None;
            },
        };
        if !slot.key.same(key) || slot.failed {
            self.current = Some(slot);
            assert(self@ =~= old(self)@.lease_spent());
            return None;
        }
        slot.lease = lease;
        slot.paused = false;
        self.current = Some(slot);
        assert(self@ =~= old(self)@.resumed());
        Some(lease)
    }

    /// Gives up the animation of `key`, so that other artwork is shown.
    pub fn fail(&mut self, key: &AnimationKey) -> (failed: bool)
        requires
            old(self)@.wf(),
        ensures
            final(self)@.wf(),
            failed == old(self)@.shows(key@),
            final(self)@ == if failed {
                old(self)@.broken()
            } else {
                old(self)@
            },
    {
        let lease = match &self.current {
            Some(slot) => {
                if !slot.key.same(key) {
                    return false;
                }
                slot.lease
            },
            None => {
                return false;
            },
        };
        self.fail_with_lease(key, lease)
    }

    /// Gives up the animation of `key`, if `lease` is the one in use.
    pub fn fail_with_lease(&mut self, key: &AnimationKey, lease: AnimationLease) -> (failed: bool)
        requires
            old(self)@.wf(),
        ensures
            final(self)@.wf(),
            failed == old(self)@.leased(key@, lease),
            final(self)@ == if failed {
                old(self)@.broken()
            } else {
                old(self)@
            },
    {
        let mut slot = match self.current.take() {
            Some(slot) => slot,
            None => {
                return false;
            },
        };
        if !slot.key.same(key) || slot.lease != lease {
            self.current = Some(slot);
            return false;
        }
        slot.frame = None;
        slot.failed = true;
        self.current = Some(slot);
        assert(self@ =~= old(self)@.broken());
        true
    }

    pub fn clear(&mut self)
        ensures
            final(self)@ == old(self)@.cleared(),
            final(self)@.wf(),
    {
        self.current = None;
    }

    fn allocate_lease(&mut self) -> (lease: Option<AnimationLease>)
        ensures
            match lease {
                Some(lease) => old(self)@.last_lease < u64::MAX && lease.0 == old(self)@.last_lease
                    + 1 && final(self)@ == old(self)@.lease_spent(),
                None => old(self)@.last_lease == u64::MAX && final(self)@ == old(self)@,
            },
            old(self)@.wf() ==> final(self)@.wf(),
    {
        if self.last_lease == u64::MAX {
            return None;
        }
        self.last_lease = self.last_lease + 1;
        Some(AnimationLease(self.last_lease))
    }

    /// What may be logged of the store: its state, not what it shows.
    pub fn summary(&self) -> (text: String)
        ensures
            text@ == store_summary(self@),
    {
        let mut text = String::new();
        text.append("AnimationFrameStore { generation: ");
        let mut has_frame = false;
        let mut paused = false;
        let mut failed = false;
        match &self.current {
            Some(slot) => {
                text.append("Some(Generation(");
                append_decimal(&mut text, slot.key.generation.0);
                text.append("))");
                has_frame = slot.frame.is_some();
                paused = slot.paused;
                failed = slot.failed;
            },
            None => {
                text.append("None");
            },
        }
        text.append(", has_frame: ");
        append_bool(&mut text, has_frame);
        text.append(", paused: ");
        append_bool(&mut text, paused);
        text.append(", failed: ");
        append_bool(&mut text, failed);
        text.append(", .. }");
        assert(text@ =~= store_summary(self@));
        text
    }
}

/// Another handle on a frame.
pub fn clone_frame(frame: &Option<Arc<ArtworkGrid>>) -> (copy: Option<Arc<ArtworkGrid>>)
    ensures
        copy == *frame,
{
    match frame {
        Some(frame) => Some(Arc::clone(frame)),
        None => None,
    }
}

/// Asks for the decoding of a preview.
#[derive(Eq, PartialEq)]
pub struct AnimationRequest {
    key: AnimationKey,
    preview_url: String,
    max_fps: u8,
    start_ms: u64,
}

/// What an [`AnimationRequest`] says.
#[verifier::ext_equal]
pub struct AnimationRequestView {
    pub key: AnimationKeyView,
    pub preview_url: Seq<char>,
    pub max_fps: u8,
    pub start_ms: u64,
}

impl View for AnimationRequest {
    type V = AnimationRequestView;

    closed spec fn view(&self) -> AnimationRequestView {
        AnimationRequestView {
            key: self.key@,
            preview_url: self.preview_url@,
            max_fps: self.max_fps,
            start_ms: self.start_ms,
        }
    }
}

impl Clone for AnimationRequest {
    fn clone(&self) -> (copy: Self)
        ensures
            copy == *self,
    {
        AnimationRequest {
            key: self.key.clone(),
            preview_url: self.preview_url.clone(),
            max_fps: self.max_fps,
            start_ms: self.start_ms,
        }
    }
}

impl AnimationRequest {
    pub fn new(key: AnimationKey, preview_url: String) -> (request: Self)
        ensures
            request@ == (AnimationRequestView {
                key: key@,
                preview_url: preview_url@,
                max_fps: 8,
                start_ms: 0,
            }),
    {
        AnimationRequest { key, preview_url, max_fps: 8, start_ms: 0 }
    }

    pub fn key(&self) -> (key: &AnimationKey)
        ensures
            key@ == self@.key,
    {
        &self.key
    }

    /// The rate at which frames are decoded.
    pub fn max_fps(&self) -> (max_fps: u8)
        ensures
            max_fps == self@.max_fps,
    {
        self.max_fps
    }

    pub fn with_max_fps(self, max_fps: u8) -> (request: Self)
        ensures
            request@ == (AnimationRequestView { max_fps, ..self@ }),
    {
        AnimationRequest {
            key: self.key,
            preview_url: self.preview_url,
            max_fps,
            start_ms: self.start_ms,
        }
    }

    pub fn with_start_ms(self, start_ms: u64) -> (request: Self)
        ensures
            request@ == (AnimationRequestView { start_ms, ..self@ }),
    {
        AnimationRequest {
            key: self.key,
            preview_url: self.preview_url,
            max_fps: self.max_fps,
            start_ms,
        }
    }

    /// What may be logged of the request: neither the item nor the address.
    pub fn summary(&self) -> (text: String)
        ensures
            text@ == request_summary(self@),
    {
        let mut text = String::new();
        text.append("AnimationRequest { key: ");
        text.append(self.key.summary().as_str());
        text.append(", preview_url: \"[REDACTED]\", max_fps: ");
        append_decimal(&mut text, self.max_fps as u64);
        text.append(", start_ms: ");
        append_decimal(&mut text, self.start_ms);
        text.append(" }");
        assert(text@ =~= request_summary(self@));
        text
    }
}

/// What may be logged of a store: its state, not what it shows.
pub open spec fn store_summary(store: AnimationStoreView) -> Seq<char> {
    "AnimationFrameStore { generation: "@ + (match store.slot {
        Some(slot) => "Some(Generation("@ + decimal_digits(slot.key.generation.0 as nat) + "))"@,
        None => "None"@,
    }) + ", has_frame: "@ + bool_text(store.slot matches Some(slot) && slot.frame is Some)
        + ", paused: "@ + bool_text(store.slot matches Some(slot) && slot.paused) + ", failed: "@
        + bool_text(store.slot matches Some(slot) && slot.failed) + ", .. }"@
}

/// What may be logged of a request: neither the item nor the address.
pub open spec fn request_summary(request: AnimationRequestView) -> Seq<char> {
    "AnimationRequest { key: "@ + key_summary(request.key)
        + ", preview_url: \"[REDACTED]\", max_fps: "@ + decimal_digits(request.max_fps as nat)
        + ", start_ms: "@ + decimal_digits(request.start_ms as nat) + " }"@
}

/// Why an animation could not be decoded.
#[derive(Clone, Copy, Debug, Eq, PartialEq, Structural)]
pub enum AnimationError {
    Unavailable,
    ResourceLimit,
    DecodeFailed,
}

impl AnimationError {
    /// The message shown for the error.
    pub fn message(&self) -> (text: &'static str)
        ensures
            text@ == match self {
                AnimationError::Unavailable => "animation decoder is unavailable"@,
                AnimationError::ResourceLimit => "animation frame violated a resource limit"@,
                AnimationError::DecodeFailed => "animation decoding failed"@,
            },
    {
        match self {
            AnimationError::Unavailable => "animation decoder is unavailable",
            AnimationError::ResourceLimit => "animation frame violated a resource limit",
            AnimationError::DecodeFailed => "animation decoding failed",
        }
    }
}

/// `value`, brought between `low` and `high`.
pub open spec fn clamped(value: int, low: int, high: int) -> int {
    if value < low {
        low
    } else if value > high {
        high
    } else {
        value
    }
}

/// What is to be done after a worker was told something: whether the run that
/// was active is to be retired, and which run is to be started.
pub struct AnimationStep {
    pub retire: bool,
    pub start: Option<(AnimationRequest, AnimationLease)>,
}

/// Decides which decoder run is active. Starting and retiring runs is left to
/// the caller.
pub struct AnimationWorker {
    max_fps: u8,
    active: Option<AnimationRequest>,
    paused: Option<AnimationRequest>,
}

/// The state of an [`AnimationWorker`].
#[verifier::ext_equal]
pub struct AnimationWorkerView {
    pub max_fps: u8,
    /// The request whose run is active.
    pub active: Option<AnimationRequestView>,
    /// The request whose run was paused.
    pub paused: Option<AnimationRequestView>,
}

/// What an optional request says.
pub open spec fn optional_request(request: Option<AnimationRequest>) -> Option<
    AnimationRequestView,
> {
    match request {
        Some(request) => Some(request@),
        None => None,
    }
}

impl View for AnimationWorker {
    type V = AnimationWorkerView;

    closed spec fn view(&self) -> AnimationWorkerView {
        AnimationWorkerView {
            max_fps: self.max_fps,
            active: optional_request(self.active),
            paused: optional_request(self.paused),
        }
    }
}

impl AnimationWorkerView {
    /// What every worker keeps: a rate within its limits, and never both an
    /// active and a paused run.
    pub open spec fn wf(self) -> bool {
        1 <= self.max_fps <= MAX_ANIMATION_FPS && !(self.active is Some && self.paused is Some)
    }

    /// The key that the worker works for.
    pub open spec fn key(self) -> Option<AnimationKeyView> {
        match (self.active, self.paused) {
            (Some(request), _) => Some(request.key),
            (None, Some(request)) => Some(request.key),
            (None, None) => None,
        }
    }
}

impl AnimationWorker {
    pub fn spawn(max_fps: u8) -> (worker: Self)
        ensures
            worker@.wf(),
            worker@ == (AnimationWorkerView {
                max_fps: clamped(max_fps as int, 1, MAX_ANIMATION_FPS as int) as u8,
                active: None,
                paused: None,
            }),
    {
        let rate: u8 = if max_fps < 1 {
            1
        } else if max_fps > MAX_ANIMATION_FPS {
            MAX_ANIMATION_FPS
        } else {
            max_fps
        };
        AnimationWorker { max_fps: rate, active: None, paused: None }
    }

    /// Replaces whatever runs by `request`, at the worker's own rate.
    pub fn replace(&mut self, store: &mut AnimationFrameStore, request: AnimationRequest) -> (step:
        AnimationStep)
        requires
            old(self)@.wf(),
            old(store)@.wf(),
        ensures
            final(self)@.wf(),
            final(store)@.wf(),
            step.retire == old(self)@.active is Some,
            ({
                let paced = AnimationRequestView { max_fps: old(self)@.max_fps, ..request@ };
                match step.start {
                    Some(start) => {
                        &&& request@.key.size.drawable()
                        &&& old(store)@.last_lease < u64::MAX
                        &&& start.0@ == paced
                        &&& final(store)@ == old(store)@.requested(request@.key)
                        &&& final(store)@.accepts(request@.key, start.1)
                        &&& final(self)@ == (AnimationWorkerView {
                            active: Some(paced),
                            paused: None,
                            ..old(self)@
                        })
                    },
                    None => {
                        &&& !request@.key.size.drawable() || old(store)@.last_lease == u64::MAX
                        &&& final(store)@ == if request@.key.size.drawable() {
                            old(store)@
                        } else {
                            old(store)@.cleared()
                        }
                        &&& final(self)@ == (AnimationWorkerView {
                            active: None,
                            paused: None,
                            ..old(self)@
                        })
                    },
                }
            }),
    {
        let retire = self.active.is_some();
        self.active = None;
        self.paused = None;
        let request = request.with_max_fps(self.max_fps);
        match store.request_with_lease(request.key.clone()) {
            Some(lease) => {
                self.active = Some(request.clone());
                AnimationStep { retire, start: Some((request, lease)) }
            },
            None => AnimationStep { retire, start: None },
        }
    }

    /// Pauses the active run. Its frame stays; the run itself is retired.
    pub fn pause(&mut self, store: &mut AnimationFrameStore) -> (step: AnimationStep)
        requires
            old(self)@.wf(),
            old(store)@.wf(),
        ensures
            final(self)@.wf(),
            final(store)@.wf(),
            step.start is None,
            step.retire == old(self)@.active is Some,
            match old(self)@.active {
                Some(request) => {
                    &&& final(self)@ == (AnimationWorkerView {
                        active: None,
                        paused: Some(request),
                        ..old(self)@
                    })
                    &&& final(store)@ == if old(store)@.shows(request.key)
                        && !old(store)@.slot->0.failed {
                        old(store)@.halted()
                    } else {
                        old(store)@
                    }
                },
                None => final(self)@ == old(self)@ && final(store)@ == old(store)@,
            },
    {
        match self.active.take() {
            Some(request) => {
                let _ = store.pause(&request.key);
                self.paused = Some(request);
                AnimationStep { retire: true, start: None }
            },
            None => AnimationStep { retire: false, start: None },
        }
    }

    /// The key that the worker works for.
    pub fn active_key(&self) -> (key: Option<&AnimationKey>)
        ensures
            match key {
                Some(key) => self@.key() == Some(key@),
                None => self@.key() is None,
            },
    {
        match &self.active {
            Some(request) => Some(&request.key),
            None => match &self.paused {
                Some(request) => Some(&request.key),
                None => None,
            },
        }
    }

    /// Resumes a paused run at `position_ms`, under a new lease.
    pub fn resume(&mut self, store: &mut AnimationFrameStore, position_ms: u64) -> (step:
        AnimationStep)
        requires
            old(self)@.wf(),
            old(store)@.wf(),
        ensures
            final(self)@.wf(),
            final(store)@.wf(),
            !step.retire,
            match old(self)@.paused {
                None => final(self)@ == old(self)@ && final(store)@ == old(store)@
                    && step.start is None,
                Some(request) => if old(store)@.last_lease == u64::MAX {
                    &&& step.start is None
                    &&& final(store)@ == old(store)@
                    &&& final(self)@ == (AnimationWorkerView { paused: None, ..old(self)@ })
                } else if !old(store)@.shows(request.key) || old(store)@.slot->0.failed {
                    &&& step.start is None
                    &&& final(store)@ == old(store)@.lease_spent()
                    &&& final(self)@ == (AnimationWorkerView { paused: None, ..old(self)@ })
                } else {
                    let moved = AnimationRequestView { start_ms: position_ms, ..request };
                    &&& step.start matches Some(start)
                    &&& start.0@ == moved
                    &&& start.1.0 == old(store)@.last_lease + 1
                    &&& final(store)@ == old(store)@.resumed()
                    &&& final(store)@.accepts(request.key, start.1)
                    &&& final(self)@ == (AnimationWorkerView {
                        active: Some(moved),
                        paused: None,
                        ..old(self)@
                    })
                },
            },
    {
        if self.active.is_some() {
            return AnimationStep { retire: false, start: None };
        }
        match self.paused.take() {
            Some(request) => {
                let request = request.with_start_ms(position_ms);
                match store.resume_with_new_lease(&request.key) {
                    Some(lease) => {
                        self.active = Some(request.clone());
                        AnimationStep { retire: false, start: Some((request, lease)) }
                    },
                    None => AnimationStep { retire: false, start: None },
                }
            },
            None => AnimationStep { retire: false, start: None },
        }
    }

    /// Stops everything and shows nothing.
    pub fn clear(&mut self, store: &mut AnimationFrameStore) -> (step: AnimationStep)
        requires
            old(self)@.wf(),
        ensures
            final(self)@.wf(),
            final(store)@.wf(),
            final(self)@ == (AnimationWorkerView { active: None, paused: None, ..old(self)@ }),
            final(store)@ == old(store)@.cleared(),
            step.start is None,
            step.retire == old(self)@.active is Some,
    {
        let retire = self.active.is_some();
        self.active = None;
        self.paused = None;
        store.clear();
        AnimationStep { retire, start: None }
    }
}

/// What a publisher does after it saw the newest output of its decoder.
#[derive(Clone, Copy, Debug, Eq, PartialEq, Structural)]
pub enum PublisherAction {
    /// A frame was published: wait for one frame interval.
    Pace,
    /// Look for the next output at once.
    Continue,
    /// The decoder failed: stop.
    Stop,
}

/// Publishes the newest output of a decoder run.
pub fn publish_latest(
    store: &mut AnimationFrameStore,
    key: &AnimationKey,
    lease: AnimationLease,
    latest: Option<Result<Arc<ArtworkGrid>, AnimationError>>,
) -> (action: PublisherAction)
    requires
        old(store)@.wf(),
    ensures
        final(store)@.wf(),
        match latest {
            None => action == PublisherAction::Continue && final(store)@ == old(store)@,
            Some(Ok(frame)) => if old(store)@.accepts(key@, lease) && frame.cell_size() == key@.size {
                action == PublisherAction::Pace && final(store)@ == old(store)@.published(frame)
            } else {
                action == PublisherAction::Continue && final(store)@ == old(store)@
            },
            Some(Err(_)) => action == PublisherAction::Stop && final(store)@ == if old(
                store,
            )@.leased(key@, lease) {
                old(store)@.broken()
            } else {
                old(store)@
            },
        },
{
    match latest {
        Some(Ok(frame)) => {
            if store.publish_with_lease(key, lease, frame) {
                PublisherAction::Pace
            } else {
                PublisherAction::Continue
            }
        },
        Some(Err(_)) => {
            let _ = store.fail_with_lease(key, lease);
            PublisherAction::Stop
        },
        None => PublisherAction::Continue,
    }
}

/// A decoder that runs ffmpeg.
pub struct FfmpegAnimationDecoder {
    executable: String,
    process_timeout_nanos: u64,
}

impl Clone for FfmpegAnimationDecoder {
    fn clone(&self) -> (copy: Self)
        ensures
            copy.program() == self.program(),
            copy.timeout() == self.timeout(),
    {
        FfmpegAnimationDecoder {
            executable: self.executable.clone(),
            process_timeout_nanos: self.process_timeout_nanos,
        }
    }
}

impl FfmpegAnimationDecoder {
    pub closed spec fn program(self) -> Seq<char> {
        self.executable@
    }

    pub closed spec fn timeout(self) -> u64 {
        self.process_timeout_nanos
    }

    /// What may be logged of the decoder: not which program it is.
    pub fn summary(&self) -> (text: &'static str)
        ensures
            text@ == "FfmpegAnimationDecoder { executable: [REDACTED] }"@,
    {
        "FfmpegAnimationDecoder { executable: [REDACTED] }"
    }

    pub fn new(executable: String) -> (decoder: Self)
        ensures
            decoder.program() == executable@,
            decoder.timeout() == MAX_FFMPEG_PROCESS_NANOS,
    {
        FfmpegAnimationDecoder { executable, process_timeout_nanos: MAX_FFMPEG_PROCESS_NANOS }
    }

    /// Limits the time that a process may run, within the limits that hold for
    /// every process.
    pub fn with_process_timeout(self, timeout_nanos: u64) -> (decoder: Self)
        ensures
            decoder.program() == self.program(),
            decoder.timeout() == clamped(
                timeout_nanos as int,
                MIN_FFMPEG_PROCESS_NANOS as int,
                MAX_FFMPEG_PROCESS_NANOS as int,
            ),
    {
        let limited: u64 = if timeout_nanos < MIN_FFMPEG_PROCESS_NANOS {
            MIN_FFMPEG_PROCESS_NANOS
        } else if timeout_nanos > MAX_FFMPEG_PROCESS_NANOS {
            MAX_FFMPEG_PROCESS_NANOS
        } else {
            timeout_nanos
        };
        FfmpegAnimationDecoder { executable: self.executable, process_timeout_nanos: limited }
    }

    pub fn process_timeout_nanos(&self) -> (timeout: u64)
        ensures
            timeout == self.timeout(),
    {
        self.process_timeout_nanos
    }

    pub fn executable(&self) -> (executable: &str)
        ensures
            executable@ == self.program(),
    {
        self.executable.as_str()
    }
}

/// What happened to a decoder process.
pub enum DecodeEvent {
    Cancelled,
    DeadlineReached,
    /// As many bytes as a frame has were read.
    FrameRead(Vec<u8>),
    EndOfOutput,
    ReadFailed,
    Exited { success: bool },
    WaitFailed,
}

/// What is to be done with a decoder process.
pub enum DecodeAction {
    /// Read the bytes of one frame.
    ReadFrame,
    /// Show a frame, then read the bytes of the next.
    ShowThenRead(ArtworkGrid),
    /// Show the last frame, then wait for the process to end.
    ShowThenAwait(ArtworkGrid),
    /// Wait for the process to end.
    AwaitExit,
    /// Kill the process. Once it is gone, the result stands.
    Kill(Result<(), AnimationError>),
    /// The process is gone, and the result stands.
    Finish(Result<(), AnimationError>),
}

/// The state of the decoding of one request.
#[verifier::ext_equal]
pub enum DecodeStage {
    /// Frames are read; so many may still come.
    Reading(nat),
    /// All output was read.
    Waiting,
}

/// Follows one decoder process from its start to its end.
pub struct AnimationDecode {
    size: CellSize,
    frames_left: u64,
    reading: bool,
}

impl AnimationDecode {
    pub closed spec fn frame_size(self) -> CellSize {
        self.size
    }

    pub closed spec fn stage(self) -> DecodeStage {
        if self.reading {
            DecodeStage::Reading(self.frames_left as nat)
        } else {
            DecodeStage::Waiting
        }
    }

    /// What every decoding keeps: frames that can be drawn, and one more to
    /// come while it reads.
    pub closed spec fn wf(self) -> bool {
        self.size.drawable() && (self.reading ==> self.frames_left > 0)
    }

    /// Starts the decoding of a request.
    pub fn start(request: &AnimationRequest) -> (started: Result<Self, AnimationError>)
        ensures
            match started {
                Ok(decode) => {
                    &&& request@.key.size.drawable()
                    &&& decode.wf()
                    &&& decode.frame_size() == request@.key.size
                    &&& decode.stage() == if request@.max_fps == 0 {
                        DecodeStage::Waiting
                    } else {
                        DecodeStage::Reading((request@.max_fps * MAX_ANIMATION_SECONDS) as nat)
                    }
                },
                Err(error) => !request@.key.size.drawable() && error
                    == AnimationError::ResourceLimit,
            },
    {
        if !request.key.valid() {
            return Err(AnimationError::ResourceLimit);
        }
        let frames_left: u64 = request.max_fps as u64 * MAX_ANIMATION_SECONDS;
        Ok(AnimationDecode { size: request.key.size, frames_left, reading: frames_left > 0 })
    }

    /// How many bytes a frame has.
    pub fn frame_bytes(&self) -> (bytes: usize)
        requires
            self.wf(),
        ensures
            bytes == self.frame_size().width * self.frame_size().height * 6,
    {
        let width: usize = self.size.width as usize;
        let height: usize = self.size.height as usize;
        assert(width * height <= 65_536) by (nonlinear_arith)
            requires
                0 <= width <= 256,
                0 <= height <= 256,
        ;
        width * height * 6
    }

    /// What is to be done first.
    pub fn first_action(&self) -> (action: DecodeAction)
        ensures
            action is ReadFrame <==> self.stage() is Reading,
            action is AwaitExit <==> self.stage() is Waiting,
    {
        if self.reading {
            DecodeAction::ReadFrame
        } else {
            DecodeAction::AwaitExit
        }
    }

    /// Takes what happened, and says what is to be done next.
    pub fn on_event(&mut self, event: DecodeEvent) -> (action: DecodeAction)
        requires
            old(self).wf(),
        ensures
            final(self).wf(),
            final(self).frame_size() == old(self).frame_size(),
            decode_step(old(self).frame_size(), old(self).stage(), event, final(self).stage(), action),
    {
        match event {
            DecodeEvent::Cancelled => DecodeAction::Kill(Ok(())),
            DecodeEvent::DeadlineReached => DecodeAction::Kill(Err(AnimationError::ResourceLimit)),
            DecodeEvent::FrameRead(bytes) => {
                if !self.reading {
                    return DecodeAction::AwaitExit;
                }
                match decode_rgb_frame(bytes.as_slice(), self.size) {
                    Ok(grid) => {
                        self.frames_left = self.frames_left - 1;
                        if self.frames_left == 0 {
                            self.reading = false;
                            DecodeAction::ShowThenAwait(grid)
                        } else {
                            DecodeAction::ShowThenRead(grid)
                        }
                    },
                    Err(_) => DecodeAction::Kill(Err(AnimationError::DecodeFailed)),
                }
            },
            DecodeEvent::EndOfOutput => {
                self.reading = false;
                DecodeAction::AwaitExit
            },
            DecodeEvent::ReadFailed => DecodeAction::Kill(Err(AnimationError::DecodeFailed)),
            DecodeEvent::Exited { success } => {
                if success {
                    DecodeAction::Finish(Ok(()))
                } else {
                    DecodeAction::Finish(Err(AnimationError::DecodeFailed))
                }
            },
            DecodeEvent::WaitFailed => DecodeAction::Finish(Err(AnimationError::DecodeFailed)),
        }
    }
}

/// Whether `grid` is the frame that `bytes` hold.
pub open spec fn is_frame(grid: ArtworkGrid, bytes: Seq<u8>, size: CellSize) -> bool {
    &&& grid.wf()
    &&& grid.cell_size() == size
    &&& forall|column: int, row: int|
        0 <= column < size.width && 0 <= row < size.height ==> #[trigger] grid.cell_seq()[row
            * size.width + column] == crate::ui::artwork::frame_cell(
            bytes,
            size.width as int,
            column,
            row,
        )
}

/// What an event does to a decoding.
pub open spec fn decode_step(
    size: CellSize,
    before: DecodeStage,
    event: DecodeEvent,
    after: DecodeStage,
    action: DecodeAction,
) -> bool {
    match event {
        DecodeEvent::Cancelled => after == before && action == DecodeAction::Kill(Ok(())),
        DecodeEvent::DeadlineReached => after == before && action == DecodeAction::Kill(
            Err(AnimationError::ResourceLimit),
        ),
        DecodeEvent::FrameRead(bytes) => match before {
            DecodeStage::Waiting => after == before && action is AwaitExit,
            DecodeStage::Reading(left) => if bytes@.len() == size.width * size.height * 6 {
                if left == 1 {
                    &&& after is Waiting
                    &&& action matches DecodeAction::ShowThenAwait(grid) && is_frame(
                        grid,
                        bytes@,
                        size,
                    )
                } else {
                    &&& after == DecodeStage::Reading((left - 1) as nat)
                    &&& action matches DecodeAction::ShowThenRead(grid) && is_frame(
                        grid,
                        bytes@,
                        size,
                    )
                }
            } else {
                after == before && action == DecodeAction::Kill(Err(AnimationError::DecodeFailed))
            },
        },
        DecodeEvent::EndOfOutput => after is Waiting && action is AwaitExit,
        DecodeEvent::ReadFailed => after == before && action == DecodeAction::Kill(
            Err(AnimationError::DecodeFailed),
        ),
        DecodeEvent::Exited { success } => after == before && action == DecodeAction::Finish(
            if success {
                Ok(())
            } else {
                Err(AnimationError::DecodeFailed)
            },
        ),
        DecodeEvent::WaitFailed => after == before && action == DecodeAction::Finish(
            Err(AnimationError::DecodeFailed),
        ),
    }
}

/// The result of a decoding whose process was killed: one that is not gone in
/// time is a resource that was not given back.
pub fn after_kill(result: Result<(), AnimationError>, reaped: bool) -> (outcome: Result<
    (),
    AnimationError,
>)
    ensures
        outcome == if reaped {
            result
        } else {
            Err(AnimationError::ResourceLimit)
        },
{
    if reaped {
        result
    } else {
        Err(AnimationError::ResourceLimit)
    }
}

/// The filter that brings a preview to the size and rate of a request.
pub open spec fn filter_text(request: AnimationRequestView) -> Seq<char> {
    let width = decimal_digits(request.key.size.width as nat);
    let height = decimal_digits((request.key.size.height * 2) as nat);
    "fps="@ + decimal_digits(request.max_fps as nat) + ",scale="@ + width + ":"@ + height
        + ":force_original_aspect_ratio=decrease,pad="@ + width + ":"@ + height
        + ":(ow-iw)/2:(oh-ih)/2"@
}

/// The arguments that a decoder process is started with.
pub open spec fn argument_texts(request: AnimationRequestView) -> Seq<Seq<char>> {
    seq![
        "-nostdin"@,
        "-hide_banner"@,
        "-loglevel"@,
        "error"@,
        "-max_alloc"@,
        decimal_digits(MAX_FFMPEG_ALLOC_BYTES as nat),
        "-probesize"@,
        decimal_digits(MAX_FFMPEG_PROBE_BYTES as nat),
        "-analyzeduration"@,
        decimal_digits(MAX_FFMPEG_ANALYZE_MICROS as nat),
        "-rw_timeout"@,
        decimal_digits(FFMPEG_IO_TIMEOUT_MICROS as nat),
        "-max_pixels"@,
        decimal_digits(MAX_FFMPEG_SOURCE_PIXELS as nat),
        "-readrate"@,
        "1"@,
        "-ss"@,
        seconds_text(request.start_ms as nat),
        "-i"@,
        request.preview_url,
        "-an"@,
        "-t"@,
        decimal_digits(MAX_ANIMATION_SECONDS as nat),
        "-vf"@,
        filter_text(request),
        "-pix_fmt"@,
        "rgb24"@,
        "-f"@,
        "rawvideo"@,
        "pipe:1"@,
    ]
}

fn filter(request: &AnimationRequest) -> (text: String)
    ensures
        text@ == filter_text(request@),
{
    let width: u64 = request.key.size.width as u64;
    let height: u64 = request.key.size.height as u64 * 2;
    let mut text = String::new();
    text.append("fps=");
    append_decimal(&mut text, request.max_fps as u64);
    text.append(",scale=");
    append_decimal(&mut text, width);
    text.append(":");
    append_decimal(&mut text, height);
    text.append(":force_original_aspect_ratio=decrease,pad=");
    append_decimal(&mut text, width);
    text.append(":");
    append_decimal(&mut text, height);
    text.append(":(ow-iw)/2:(oh-ih)/2");
    assert(text@ =~= filter_text(request@));
    text
}

/// The arguments that a decoder process is started with. The address of the
/// preview is one argument of its own.
pub fn ffmpeg_arguments(request: &AnimationRequest) -> (arguments: Vec<String>)
    ensures
        crate::domain::texts(arguments@) == argument_texts(request@),
{
    let arguments: Vec<String> = vec![
        "-nostdin".to_owned(),
        "-hide_banner".to_owned(),
        "-loglevel".to_owned(),
        "error".to_owned(),
        "-max_alloc".to_owned(),
        decimal(MAX_FFMPEG_ALLOC_BYTES),
        "-probesize".to_owned(),
        decimal(MAX_FFMPEG_PROBE_BYTES),
        "-analyzeduration".to_owned(),
        decimal(MAX_FFMPEG_ANALYZE_MICROS),
        "-rw_timeout".to_owned(),
        decimal(FFMPEG_IO_TIMEOUT_MICROS),
        "-max_pixels".to_owned(),
        decimal(MAX_FFMPEG_SOURCE_PIXELS),
        "-readrate".to_owned(),
        "1".to_owned(),
        "-ss".to_owned(),
        format_seconds(request.start_ms),
        "-i".to_owned(),
        request.preview_url.clone(),
        "-an".to_owned(),
        "-t".to_owned(),
        decimal(MAX_ANIMATION_SECONDS),
        "-vf".to_owned(),
        filter(request),
        "-pix_fmt".to_owned(),
        "rgb24".to_owned(),
        "-f".to_owned(),
        "rawvideo".to_owned(),
        "pipe:1".to_owned(),
    ];
    assert(crate::domain::texts(arguments@) =~= argument_texts(request@));
    arguments
}

/// A lease that was given before can no longer publish, fail or otherwise
/// touch an animation that was asked for or resumed after it.
pub proof fn law_old_lease_is_powerless(
    store: AnimationStoreView,
    key: AnimationKeyView,
    old_lease: AnimationLease,
    new_key: AnimationKeyView,
)
    requires
        store.wf(),
        old_lease.0 <= store.last_lease < u64::MAX,
    ensures
        !store.requested(new_key).accepts(key, old_lease),
        !store.requested(new_key).leased(key, old_lease),
        store.slot is Some ==> !store.resumed().accepts(key, old_lease),
        store.slot is Some ==> !store.resumed().leased(key, old_lease),
{
}

/// Pausing keeps the frame that is shown, and resuming does too; between the
/// two nothing is accepted.
pub proof fn law_pause_keeps_the_frame(
    store: AnimationStoreView,
    key: AnimationKeyView,
    lease: AnimationLease,
)
    requires
        store.wf(),
        store.shows(key),
        store.last_lease < u64::MAX,
    ensures
        store.halted().wf(),
        store.halted().slot->0.frame == store.slot->0.frame,
        !store.halted().accepts(key, lease),
        store.halted().resumed().wf(),
        store.halted().resumed().slot->0.frame == store.slot->0.frame,
{
}

/// What failed shows nothing and accepts nothing, not even after a pause.
pub proof fn law_failure_is_final(
    store: AnimationStoreView,
    key: AnimationKeyView,
    lease: AnimationLease,
)
    requires
        store.wf(),
        store.shows(key),
    ensures
        store.broken().wf(),
        store.broken().slot->0.frame is None,
        !store.broken().accepts(key, lease),
        !store.broken().halted().accepts(key, lease),
{
}

/// Only the newest frame is kept.
pub proof fn law_newest_frame_wins(
    store: AnimationStoreView,
    first: Arc<ArtworkGrid>,
    second: Arc<ArtworkGrid>,
)
    requires
        store.slot is Some,
    ensures
        store.published(first).published(second).slot == store.published(second).slot,
{
}

/// What is logged of a request tells neither the item nor the address: it is
/// the same whatever they are.
pub proof fn law_request_log_keeps_secrets(
    request: AnimationRequestView,
    media_id: MediaIdView,
    preview_url: Seq<char>,
)
    ensures
        key_summary(AnimationKeyView { media_id, ..request.key }) == key_summary(request.key),
        request_summary(
            AnimationRequestView {
                key: AnimationKeyView { media_id, ..request.key },
                preview_url,
                ..request
            },
        ) == request_summary(request),
{
}

/// What is logged of a store tells neither the item nor the picture: it is the
/// same whatever they are.
pub proof fn law_store_log_keeps_secrets(
    store: AnimationStoreView,
    media_id: MediaIdView,
    frame: Arc<ArtworkGrid>,
)
    requires
        store.slot is Some,
        store.slot->0.frame is Some,
    ensures
        store_summary(
            AnimationStoreView {
                slot: Some(
                    AnimationSlotView {
                        key: AnimationKeyView { media_id, ..store.slot->0.key },
                        frame: Some(frame),
                        ..store.slot->0
                    },
                ),
                ..store
            },
        ) == store_summary(store),
{
}

/// The address of a preview is one argument of its own, right behind `-i`, and
/// changes no other.
pub proof fn law_address_is_one_argument(request: AnimationRequestView, preview_url: Seq<char>)
    ensures
        argument_texts(AnimationRequestView { preview_url, ..request }) == argument_texts(
            request,
        ).update(19, preview_url),
        argument_texts(request)[18] == "-i"@,
        argument_texts(request)[19] == request.preview_url,
{
    let other = AnimationRequestView { preview_url, ..request };
    assert(argument_texts(other) =~= argument_texts(request).update(19, preview_url));
}

/// How many frames a decoding may still show.
pub open spec fn frames_to_come(stage: DecodeStage) -> nat {
    match stage {
        DecodeStage::Reading(left) => left,
        DecodeStage::Waiting => 0,
    }
}

/// Each frame that is shown uses up one of those that may come, and no event
/// brings more: a decoding shows no more frames than it was started with.
pub proof fn law_decoding_is_bounded(
    size: CellSize,
    before: DecodeStage,
    event: DecodeEvent,
    after: DecodeStage,
    action: DecodeAction,
)
    requires
        before matches DecodeStage::Reading(left) ==> left > 0,
        decode_step(size, before, event, after, action),
    ensures
        action is ShowThenRead || action is ShowThenAwait ==> frames_to_come(after) + 1
            == frames_to_come(before),
        frames_to_come(after) <= frames_to_come(before),
        after matches DecodeStage::Reading(left) ==> left > 0,
        action is ShowThenRead ==> after is Reading,
        action is ShowThenAwait ==> after is Waiting,
{
}

} // verus!
