use std::sync::Arc;

use tuneterm::domain::{Generation, MediaId};
use tuneterm::ui::animation::{
    after_kill, ffmpeg_arguments, publish_latest, AnimationDecode, AnimationError,
    AnimationFrameStore, AnimationKey, AnimationRequest, AnimationWorker, DecodeAction,
    DecodeEvent, FfmpegAnimationDecoder, PublisherAction, MAX_ANIMATION_SECONDS,
    MAX_FFMPEG_ALLOC_BYTES, MAX_FFMPEG_PROCESS_NANOS, MAX_FFMPEG_SOURCE_PIXELS,
    MIN_FFMPEG_PROCESS_NANOS,
};
use tuneterm::ui::artwork::{decode_rgb_frame, ArtworkError, ArtworkGrid, CellSize};

fn key(generation: u64, media: &str, size: CellSize) -> AnimationKey {
    AnimationKey::new(
        Generation::new(generation),
        MediaId { provider: "youtube".to_owned(), video_id: media.to_owned() },
        size,
    )
}

fn grid(size: CellSize, red: u8) -> Arc<ArtworkGrid> {
    let pixels = vec![red; usize::from(size.width) * usize::from(size.height) * 2 * 3];
    Arc::new(
        decode_rgb_frame(&pixels, size)
            .unwrap_or_else(|error| panic!("bounded test frame must decode: {error:?}")),
    )
}

fn shown_red(store: &AnimationFrameStore, key: &AnimationKey) -> Option<u8> {
    store.presentation(key).map(|frame| frame.cells()[0].foreground().red())
}

#[test]
fn newest_frame_replaces_the_only_presentation_slot() {
    let mut store = AnimationFrameStore::new();
    let key = key(1, "video-a", CellSize::new(2, 1));
    assert!(store.request(key.clone()));
    let first = grid(key.size(), 10);
    let newest = grid(key.size(), 20);

    assert!(store.publish(&key, Arc::clone(&first)));
    assert!(store.publish(&key, Arc::clone(&newest)));

    let shown = store.presentation(&key).unwrap_or_else(|| panic!("frame missing"));
    assert!(Arc::ptr_eq(&shown, &newest));
}

#[test]
fn generation_media_and_cell_size_must_all_match() {
    let mut store = AnimationFrameStore::new();
    let current = key(7, "video-a", CellSize::new(2, 1));
    assert!(store.request(current.clone()));

    for stale in [
        key(6, "video-a", CellSize::new(2, 1)),
        key(7, "video-b", CellSize::new(2, 1)),
        key(7, "video-a", CellSize::new(1, 1)),
    ] {
        assert!(!store.publish(&stale, grid(stale.size(), 1)));
    }
    assert!(store.presentation(&current).is_none());
}

#[test]
fn empty_or_oversized_targets_are_rejected() {
    let mut store = AnimationFrameStore::new();
    assert!(!store.request(key(1, "a", CellSize::new(0, 1))));
    assert!(!store.request(key(1, "a", CellSize::new(257, 1))));
    assert!(store.presentation(&key(1, "a", CellSize::new(0, 1))).is_none());
}

#[test]
fn pause_blocks_publication_and_resume_accepts_new_frames() {
    let mut store = AnimationFrameStore::new();
    let key = key(1, "video-a", CellSize::new(2, 1));
    assert!(store.request(key.clone()));
    assert!(store.publish(&key, grid(key.size(), 10)));
    store.pause(&key);

    assert!(!store.publish(&key, grid(key.size(), 20)));
    assert_eq!(shown_red(&store, &key), Some(10));

    assert!(store.resume(&key));
    assert!(store.publish(&key, grid(key.size(), 30)));
    assert_eq!(shown_red(&store, &key), Some(30));
}

#[test]
fn same_key_restart_rejects_retiring_decoder_frames_and_failures() {
    let mut store = AnimationFrameStore::new();
    let key = key(1, "video-a", CellSize::new(2, 1));
    let old_lease = store
        .request_with_lease(key.clone())
        .unwrap_or_else(|| panic!("valid request must allocate a lease"));
    assert!(store.publish_with_lease(&key, old_lease, grid(key.size(), 10)));
    assert!(store.pause(&key));
    let current_lease = store
        .resume_with_new_lease(&key)
        .unwrap_or_else(|| panic!("valid resume must allocate a lease"));

    assert!(!store.publish_with_lease(&key, old_lease, grid(key.size(), 20)));
    assert!(!store.fail_with_lease(&key, old_lease));
    assert!(store.publish_with_lease(&key, current_lease, grid(key.size(), 30)));
    assert_eq!(shown_red(&store, &key), Some(30));
}

#[test]
fn failure_clears_animation_so_static_artwork_can_fall_back() {
    let mut store = AnimationFrameStore::new();
    let key = key(1, "video-a", CellSize::new(2, 1));
    assert!(store.request(key.clone()));
    assert!(store.publish(&key, grid(key.size(), 10)));

    assert!(store.fail(&key));

    assert!(store.presentation(&key).is_none());
    assert!(!store.publish(&key, grid(key.size(), 20)));
}

#[test]
fn debug_output_redacts_media_identity_and_frame_content() {
    let mut store = AnimationFrameStore::new();
    let key = key(1, "secret-video-id", CellSize::new(2, 1));
    assert!(store.request(key));
    let debug = store.summary();
    assert!(!debug.contains("secret-video-id"));
    assert!(!debug.contains("youtube"));
}

#[test]
fn ffmpeg_uses_bounded_direct_arguments_and_one_opaque_input_argument() {
    let secret = "https://video.invalid/preview?token=secret&next=-vf";
    let request =
        AnimationRequest::new(key(1, "video-a", CellSize::new(21, 8)), secret.to_owned());
    let strings = ffmpeg_arguments(&request);

    assert_eq!(strings.iter().filter(|arg| arg.as_str() == secret).count(), 1);
    assert!(strings
        .windows(2)
        .any(|pair| pair == ["-max_alloc".to_owned(), MAX_FFMPEG_ALLOC_BYTES.to_string()]));
    assert!(strings
        .windows(2)
        .any(|pair| pair == ["-max_pixels".to_owned(), MAX_FFMPEG_SOURCE_PIXELS.to_string()]));
    assert!(strings.windows(2).any(|pair| pair == ["-rw_timeout", "10000000"]));
    assert!(strings
        .windows(2)
        .any(|pair| pair == ["-t".to_owned(), MAX_ANIMATION_SECONDS.to_string()]));
    assert!(strings.windows(2).any(|pair| pair == ["-f", "rawvideo"]));
    assert!(strings.windows(2).any(|pair| pair == ["-readrate", "1"]));
    assert!(strings.iter().all(|arg| arg != "sh" && arg != "-c"));
}

#[test]
fn ffmpeg_process_wall_clock_limit_is_injected_and_strictly_bounded() {
    let minimum = FfmpegAnimationDecoder::new("ffmpeg".to_owned()).with_process_timeout(0);
    let maximum = FfmpegAnimationDecoder::new("ffmpeg".to_owned()).with_process_timeout(u64::MAX);

    assert_eq!(minimum.process_timeout_nanos(), MIN_FFMPEG_PROCESS_NANOS);
    assert_eq!(maximum.process_timeout_nanos(), MAX_FFMPEG_PROCESS_NANOS);
}

#[test]
fn redraw_notifications_are_nonblocking_coalesced_and_ignore_stale_frames() {
    let mut store = AnimationFrameStore::new();
    let current = key(7, "video-a", CellSize::new(2, 1));
    let stale = key(6, "video-a", CellSize::new(2, 1));
    assert!(store.request(current.clone()));
    let seen = store.redraw_revision();

    for red in 0..=u8::MAX {
        assert!(store.publish(&current, grid(current.size(), red)));
    }
    assert!(!store.publish(&stale, grid(stale.size(), 1)));

    assert!(store.redraw_revision() != seen);
    assert_eq!(store.redraw_revision(), 256);
}

#[test]
fn pictures_take_two_pixels_to_a_cell() {
    let size = CellSize::new(1, 1);
    let picture = decode_rgb_frame(&[1, 2, 3, 4, 5, 6], size)
        .unwrap_or_else(|error| panic!("a picture: {error:?}"));
    let cell = picture.cell(0, 0).unwrap_or_else(|| panic!("a cell"));
    assert_eq!(cell.foreground().green(), 2);
    assert_eq!(cell.background().blue(), 6);
    assert!(picture.cell(1, 0).is_none());
    assert!(decode_rgb_frame(&[1, 2, 3], size) == Err(ArtworkError::WrongByteCount));
    assert!(decode_rgb_frame(&[], CellSize::new(0, 1)) == Err(ArtworkError::InvalidSize));
}

#[test]
fn requests_keep_frame_rates_and_redact() {
    let request =
        AnimationRequest::new(key(1, "hidden", CellSize::new(2, 1)), "https://x.invalid".to_owned());
    assert_eq!(request.max_fps(), 8);
    assert_eq!(request.clone().with_max_fps(0).max_fps(), 0);
    assert_eq!(request.clone().with_max_fps(99).max_fps(), 99);
    assert_eq!(
        request.with_start_ms(5).summary(),
        "AnimationRequest { key: AnimationKey { generation: Generation(1), \
         media_id: \"[REDACTED]\", size: CellSize { width: 2, height: 1 } }, \
         preview_url: \"[REDACTED]\", max_fps: 8, start_ms: 5 }"
    );
    assert_eq!(
        FfmpegAnimationDecoder::new("/secret/ffmpeg".to_owned()).summary(),
        "FfmpegAnimationDecoder { executable: [REDACTED] }"
    );
}

#[test]
fn decoding_follows_the_process_to_its_end() {
    let size = CellSize::new(1, 1);
    let request = AnimationRequest::new(key(1, "a", size), "https://x.invalid".to_owned());
    let mut decode =
        AnimationDecode::start(&request).unwrap_or_else(|error| panic!("it starts: {error:?}"));
    assert_eq!(decode.frame_bytes(), 6);
    assert!(matches!(decode.first_action(), DecodeAction::ReadFrame));
    assert!(matches!(
        decode.on_event(DecodeEvent::FrameRead(vec![9; 6])),
        DecodeAction::ShowThenRead(_)
    ));
    assert!(matches!(decode.on_event(DecodeEvent::EndOfOutput), DecodeAction::AwaitExit));
    assert!(matches!(
        decode.on_event(DecodeEvent::Exited { success: true }),
        DecodeAction::Finish(Ok(()))
    ));
    assert!(matches!(
        decode.on_event(DecodeEvent::Exited { success: false }),
        DecodeAction::Finish(Err(AnimationError::DecodeFailed))
    ));

    let mut stalled =
        AnimationDecode::start(&request).unwrap_or_else(|error| panic!("it starts: {error:?}"));
    assert!(matches!(
        stalled.on_event(DecodeEvent::DeadlineReached),
        DecodeAction::Kill(Err(AnimationError::ResourceLimit))
    ));
    assert!(matches!(stalled.on_event(DecodeEvent::Cancelled), DecodeAction::Kill(Ok(()))));
    assert!(matches!(
        stalled.on_event(DecodeEvent::FrameRead(vec![1; 5])),
        DecodeAction::Kill(Err(AnimationError::DecodeFailed))
    ));
    assert!(after_kill(Ok(()), true) == Ok(()));
    assert!(after_kill(Ok(()), false) != Ok(()));

    let empty =
        AnimationRequest::new(key(1, "a", CellSize::new(0, 1)), "https://x.invalid".to_owned());
    assert!(matches!(AnimationDecode::start(&empty), Err(AnimationError::ResourceLimit)));
}

#[test]
fn worker_hands_out_leases_and_keeps_the_paused_frame() {
    let mut store = AnimationFrameStore::new();
    let mut worker = AnimationWorker::spawn(4);
    let key = key(3, "a", CellSize::new(2, 1));
    let request = AnimationRequest::new(key.clone(), "https://x.invalid".to_owned());
    let first = worker.replace(&mut store, request);
    let (started, lease) = first.start.unwrap_or_else(|| panic!("a run starts"));
    assert!(!first.retire);
    assert_eq!(started.max_fps(), 4);
    assert!(matches!(
        publish_latest(&mut store, &key, lease, Some(Ok(grid(key.size(), 10)))),
        PublisherAction::Pace
    ));

    let paused = worker.pause(&mut store);
    assert!(paused.retire);
    assert_eq!(shown_red(&store, &key), Some(10));
    assert!(matches!(
        publish_latest(&mut store, &key, lease, Some(Ok(grid(key.size(), 20)))),
        PublisherAction::Continue
    ));
    assert_eq!(shown_red(&store, &key), Some(10));

    let resumed = worker.resume(&mut store, 1_500);
    let (_, fresh) = resumed.start.unwrap_or_else(|| panic!("a run starts again"));
    assert!(fresh != lease);
    assert!(matches!(
        publish_latest(&mut store, &key, fresh, Some(Err(AnimationError::DecodeFailed))),
        PublisherAction::Stop
    ));
    assert!(store.presentation(&key).is_none());

    let cleared = worker.clear(&mut store);
    assert!(cleared.retire);
    assert!(worker.active_key().is_none());
}

#[test]
fn logs_of_requests_do_not_depend_on_secrets() {
    let size = CellSize::new(2, 1);
    let one = AnimationRequest::new(key(1, "a", size), "https://one.invalid".to_owned());
    let other = AnimationRequest::new(key(1, "b", size), "https://other.invalid".to_owned());
    assert_eq!(one.summary(), other.summary());
    let mut arguments = ffmpeg_arguments(&one);
    arguments[19] = "https://other.invalid".to_owned();
    assert_eq!(arguments[18], "-i");
    assert_eq!(arguments, ffmpeg_arguments(&other));
}

#[test]
fn stores_of_frames_say_which_generation_they_hold() {
    let mut store = AnimationFrameStore::default();
    assert_eq!(
        store.summary(),
        "AnimationFrameStore { generation: None, has_frame: false, paused: false, \
         failed: false, .. }"
    );
    assert!(store.request(key(7, "a", CellSize::new(2, 1))));
    assert_eq!(
        store.summary(),
        "AnimationFrameStore { generation: Some(Generation(7)), has_frame: false, \
         paused: false, failed: false, .. }"
    );
}
