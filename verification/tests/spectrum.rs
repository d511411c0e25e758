use std::sync::Arc;

use tuneterm::domain::{Generation, MediaId};
use tuneterm::ui::spectrum::{
    decode_pcm_samples, effective_spectrum_fps, max_pcm_frame_count, publish_latest_spectrum,
    spectrum_ffmpeg_arguments, spectrum_result_after_kill, BandLayout, FfmpegSpectrumDecoder,
    PcmRead, PcmWindowReader, SpectrumDecode, SpectrumDecodeAction, SpectrumDecodeEvent,
    SpectrumError, SpectrumFrame, SpectrumFrameStore, SpectrumKey, SpectrumPresentation,
    SpectrumPublisherAction, SpectrumRequest, SpectrumTarget, SpectrumWorker, FFT_SIZE,
    MAX_ANALYSIS_SECONDS, MAX_FFMPEG_PROCESS_NANOS, MAX_SPECTRUM_BANDS, MIN_FFMPEG_PROCESS_NANOS,
    PCM_FRAME_BYTES, POSITIVE_BINS,
};

fn target(bands: u16, rows: u8) -> SpectrumTarget {
    SpectrumTarget::new(bands, rows).unwrap_or_else(|| panic!("valid spectrum target"))
}

fn key(generation: u64, media: &str, target: SpectrumTarget) -> SpectrumKey {
    SpectrumKey::new(
        Generation::new(generation),
        MediaId { provider: "youtube".to_owned(), video_id: media.to_owned() },
        target,
    )
}

fn frame(levels: &[u8]) -> Arc<SpectrumFrame> {
    Arc::new(
        SpectrumFrame::new(levels.to_vec().into_boxed_slice())
            .unwrap_or_else(|| panic!("valid spectrum frame")),
    )
}

fn spectrum_request(url: &str) -> SpectrumRequest {
    SpectrumRequest::new(key(1, "secret-media", target(8, 1)), url.to_owned())
}

#[test]
fn targets_bound_band_and_row_counts() {
    for (bands, rows) in [(1, 1), (64, 3)] {
        let target = target(bands, rows);
        assert_eq!(target.bands(), bands);
        assert_eq!(target.rows(), rows);
    }

    for (bands, rows) in [(0, 1), (65, 1), (1, 0), (1, 4)] {
        assert!(SpectrumTarget::new(bands, rows).is_none());
    }
}

#[test]
fn frames_bound_levels_and_band_count() {
    assert!(SpectrumFrame::new(Box::new([])).is_none());
    assert!(SpectrumFrame::new(vec![0; 65].into_boxed_slice()).is_none());
    assert!(SpectrumFrame::new(vec![0, 24].into_boxed_slice()).is_some());
    assert!(SpectrumFrame::new(vec![25].into_boxed_slice()).is_none());
}

#[test]
fn frame_debug_reports_only_count_and_redacts_sentinel_levels() {
    let frame = SpectrumFrame::new(vec![17, 18, 19, 20].into_boxed_slice())
        .unwrap_or_else(|| panic!("bounded levels must form a frame"));

    let debug = frame.summary();

    assert!(debug.contains("level_count"));
    for level in ["17", "18", "19", "20"] {
        assert!(!debug.contains(level));
    }
}

#[test]
fn publication_requires_exact_target_size() {
    let mut store = SpectrumFrameStore::new();
    let key = key(1, "video-a", target(3, 2));
    let run = store.request(key).unwrap_or_else(|| panic!("valid request must start a run"));

    assert!(!store.publish(&run, frame(&[1, 2])));
    assert!(!store.publish(&run, frame(&[1, 2, 3, 4])));
    assert!(store.publish(&run, frame(&[1, 2, 3])));
}

#[test]
fn newest_frame_replaces_the_capacity_one_slot() {
    let mut store = SpectrumFrameStore::new();
    let key = key(1, "video-a", target(2, 1));
    let run =
        store.request(key.clone()).unwrap_or_else(|| panic!("valid request must start a run"));
    let first = frame(&[1, 2]);
    let newest = frame(&[3, 4]);

    assert!(store.publish(&run, Arc::clone(&first)));
    assert!(store.publish(&run, Arc::clone(&newest)));

    let shown = store.presentation(&key);
    assert!(Arc::ptr_eq(shown.frame().unwrap_or_else(|| panic!("frame missing")), &newest));
}

#[test]
fn generation_media_and_target_must_all_match() {
    let mut store = SpectrumFrameStore::new();
    let current = key(7, "video-a", target(2, 1));
    let lease = store
        .request_with_lease(current.clone())
        .unwrap_or_else(|| panic!("valid request must allocate a lease"));

    for stale in [
        key(6, "video-a", target(2, 1)),
        key(7, "video-b", target(2, 1)),
        key(7, "video-a", target(2, 2)),
    ] {
        assert!(!store.publish_with_lease(&stale, lease, frame(&[1, 2])));
        assert!(store.presentation(&stale) == SpectrumPresentation::quiet());
    }
    assert!(store.presentation(&current) == SpectrumPresentation::quiet());
}

#[test]
fn pause_retains_frame_and_resume_allocates_a_fresh_lease() {
    let mut store = SpectrumFrameStore::new();
    let key = key(1, "video-a", target(2, 1));
    let old_run =
        store.request(key.clone()).unwrap_or_else(|| panic!("valid request must start a run"));
    let retained = frame(&[5, 6]);
    assert!(store.publish(&old_run, Arc::clone(&retained)));

    assert!(store.pause(&old_run));
    let paused = store.presentation(&key);
    assert!(paused.paused());
    assert!(Arc::ptr_eq(paused.frame().unwrap_or_else(|| panic!("frame retained")), &retained));

    let fresh_run =
        store.resume(&old_run).unwrap_or_else(|| panic!("valid resume must start a run"));
    assert!(old_run.lease() != fresh_run.lease());
    assert!(!store.presentation(&key).paused());
}

#[test]
fn retiring_run_failure_after_pause_preserves_the_frozen_frame() {
    let mut store = SpectrumFrameStore::new();
    let key = key(1, "video-a", target(2, 1));
    let retiring_run =
        store.request(key.clone()).unwrap_or_else(|| panic!("valid request must start a run"));
    let retained = frame(&[5, 6]);
    assert!(store.publish(&retiring_run, Arc::clone(&retained)));
    assert!(store.pause(&retiring_run));

    assert!(!store.fail(&retiring_run));
    let presentation = store.presentation(&key);
    assert!(presentation.paused());
    assert!(!presentation.failed());
    assert!(Arc::ptr_eq(
        presentation.frame().unwrap_or_else(|| panic!("paused frame retained")),
        &retained
    ));
}

#[test]
fn public_mutations_reject_an_old_same_key_run_after_restart() {
    let mut store = SpectrumFrameStore::new();
    let key = key(1, "video-a", target(2, 1));
    let old_run =
        store.request(key.clone()).unwrap_or_else(|| panic!("valid request must start a run"));
    assert!(store.pause(&old_run));
    let current_run =
        store.resume(&old_run).unwrap_or_else(|| panic!("valid resume must start a run"));

    assert!(!store.publish(&old_run, frame(&[1, 2])));
    assert!(!store.fail(&old_run));
    assert!(store.publish(&current_run, frame(&[3, 4])));
}

#[test]
fn old_same_key_run_cannot_pause_its_replacement() {
    let mut store = SpectrumFrameStore::new();
    let key = key(1, "video-a", target(2, 1));
    let old_run =
        store.request(key.clone()).unwrap_or_else(|| panic!("valid request must start a run"));
    let current_run =
        store.request(key.clone()).unwrap_or_else(|| panic!("replacement must start a run"));

    assert!(!store.pause(&old_run));
    assert!(!store.presentation(&key).paused());
    assert!(store.publish(&current_run, frame(&[3, 4])));
}

#[test]
fn old_same_key_run_cannot_resume_or_invalidate_its_replacement() {
    let mut store = SpectrumFrameStore::new();
    let key = key(1, "video-a", target(2, 1));
    let old_run =
        store.request(key.clone()).unwrap_or_else(|| panic!("valid request must start a run"));
    let current_run =
        store.request(key.clone()).unwrap_or_else(|| panic!("replacement must start a run"));
    assert!(store.pause(&current_run));

    assert!(store.resume(&old_run).is_none());
    assert!(store.presentation(&key).paused());

    let resumed_run =
        store.resume(&current_run).unwrap_or_else(|| panic!("current paused run must resume"));
    assert!(!store.publish(&current_run, frame(&[1, 2])));
    assert!(store.publish(&resumed_run, frame(&[3, 4])));
}

#[test]
fn failure_produces_a_quiet_fallback_state() {
    let mut store = SpectrumFrameStore::new();
    let key = key(1, "video-a", target(2, 1));
    let run =
        store.request(key.clone()).unwrap_or_else(|| panic!("valid request must start a run"));
    assert!(store.publish(&run, frame(&[7, 8])));

    assert!(store.fail(&run));

    let presentation = store.presentation(&key);
    assert!(presentation.frame().is_none());
    assert!(presentation.failed());
    assert!(!store.publish(&run, frame(&[9, 10])));
}

#[test]
fn lease_exhaustion_clears_a_previously_active_presentation() {
    let mut store = SpectrumFrameStore::with_last_lease(u64::MAX - 1);
    let old_key = key(1, "video-a", target(2, 1));
    let old_run =
        store.request(old_key.clone()).unwrap_or_else(|| panic!("valid request must start a run"));
    assert!(store.publish(&old_run, frame(&[7, 8])));

    assert!(store.request(key(2, "video-b", target(2, 1))).is_none());
    assert!(store.presentation(&old_key) == SpectrumPresentation::quiet());
    assert!(!store.publish(&old_run, frame(&[9, 10])));
}

#[test]
fn redraw_revisions_are_nonblocking_and_coalesced() {
    let mut store = SpectrumFrameStore::new();
    let key = key(1, "video-a", target(1, 1));
    let run = store.request(key).unwrap_or_else(|| panic!("valid request must start a run"));
    let seen = store.redraw_revision();

    for level in 0..=24 {
        assert!(store.publish(&run, frame(&[level])));
    }

    assert!(store.redraw_revision() != seen);
    assert_eq!(store.redraw_revision(), 25);
}

#[test]
fn clear_notifies_only_for_some_to_none_transition() {
    let mut store = SpectrumFrameStore::new();
    let seen = store.redraw_revision();

    store.clear();
    assert_eq!(store.redraw_revision(), seen);

    let key = key(1, "video-a", target(1, 1));
    let _run = store.request(key).unwrap_or_else(|| panic!("valid request must start a run"));
    store.clear();
    assert!(store.redraw_revision() != seen);
    assert_eq!(store.redraw_revision(), 1);

    store.clear();
    assert_eq!(store.redraw_revision(), 1);
}

#[test]
fn debug_exposes_counts_and_status_but_not_ids_or_levels() {
    let mut store = SpectrumFrameStore::new();
    let key = key(93, "secret-video-id", target(4, 2));
    let run =
        store.request(key.clone()).unwrap_or_else(|| panic!("valid request must start a run"));
    assert!(store.publish(&run, frame(&[17, 18, 19, 20])));

    let key_debug = key.summary();
    let run_debug = run.summary();
    let frame_debug = store.presentation(&key).summary();
    let store_debug = store.summary();
    for debug in [&key_debug, &run_debug, &frame_debug, &store_debug] {
        assert!(!debug.contains("secret-video-id"));
        assert!(!debug.contains("youtube"));
        assert!(!debug.contains("17"));
        assert!(!debug.contains("18"));
        assert!(!debug.contains("19"));
        assert!(!debug.contains("20"));
    }
    assert!(store_debug.contains("band_count"));
    assert!(store_debug.contains("paused"));
    assert!(store_debug.contains("failed"));
}

#[test]
fn ffmpeg_arguments_are_direct_bounded_mono_pcm_and_keep_url_opaque() {
    let secret = "https://audio.invalid/stream?token=secret&next=-vn";
    let request = spectrum_request(secret).with_start_ms(12_345).with_max_fps(15);
    let strings = spectrum_ffmpeg_arguments(&request);

    assert_eq!(strings.iter().filter(|arg| arg.as_str() == secret).count(), 1);
    for pair in [
        ["-readrate", "1"],
        ["-ss", "12.345"],
        ["-ac", "1"],
        ["-ar", "8000"],
        ["-acodec", "pcm_f32le"],
        ["-f", "f32le"],
    ] {
        assert!(strings.windows(2).any(|window| window == pair));
    }
    assert!(strings.iter().any(|arg| arg == "-vn"));
    assert_eq!(strings.last().map(String::as_str), Some("pipe:1"));
    assert!(strings.iter().all(|arg| arg != "sh" && arg != "-c"));
}

#[test]
fn ffmpeg_request_decoder_and_error_debug_are_redacted() {
    let request = spectrum_request("https://audio.invalid/stream?token=do-not-log");
    let decoder = FfmpegSpectrumDecoder::new("/secret/path/ffmpeg".to_owned());

    for debug in [
        request.summary(),
        decoder.summary().to_owned(),
        format!("{:?}", SpectrumError::DecodeFailed),
        SpectrumError::DecodeFailed.message().to_owned(),
    ] {
        assert!(!debug.contains("do-not-log"));
        assert!(!debug.contains("secret-media"));
        assert!(!debug.contains("youtube"));
        assert!(!debug.contains("secret/path"));
    }
}

#[test]
fn ffmpeg_pcm_runtime_bound_is_independent_of_render_fps() {
    assert_eq!(max_pcm_frame_count(), 16 * MAX_ANALYSIS_SECONDS);
}

#[test]
fn frame_rates_are_clamped() {
    assert_eq!(effective_spectrum_fps(0), 1);
    assert_eq!(effective_spectrum_fps(15), 15);
    assert_eq!(effective_spectrum_fps(255), 30);
}

#[test]
fn process_limits_are_clamped() {
    let shortest = FfmpegSpectrumDecoder::new("ffmpeg".to_owned()).with_process_timeout(0);
    let longest = FfmpegSpectrumDecoder::new("ffmpeg".to_owned()).with_process_timeout(u64::MAX);
    assert_eq!(shortest.process_timeout_nanos(), MIN_FFMPEG_PROCESS_NANOS);
    assert_eq!(longest.process_timeout_nanos(), MAX_FFMPEG_PROCESS_NANOS);
    assert_eq!(longest.executable(), "ffmpeg");
}

fn window_of(sample: f32) -> Vec<u8> {
    let mut bytes = Vec::new();
    for _ in 0..FFT_SIZE {
        bytes.extend_from_slice(&sample.to_le_bytes());
    }
    bytes
}

#[test]
fn samples_are_read_in_little_endian_and_few_infinities_become_silence() {
    let mut bytes = window_of(0.5);
    bytes[..4].copy_from_slice(&f32::NAN.to_le_bytes());
    let samples = decode_pcm_samples(&bytes).unwrap_or_else(|_| panic!("one bad sample is fine"));
    assert_eq!(samples[0], 0);
    assert_eq!(samples[1], 0.5f32.to_bits());
    assert_eq!(samples.len(), FFT_SIZE);

    assert!(decode_pcm_samples(&window_of(f32::INFINITY)) == Err(SpectrumError::DecodeFailed));
}

#[test]
fn windows_are_collected_from_partial_reads() {
    let mut reader = PcmWindowReader::new();
    assert_eq!(reader.missing(), PCM_FRAME_BYTES);
    assert!(matches!(reader.on_read(Some(vec![1; 2_000])), PcmRead::More));
    assert_eq!(reader.missing(), 48);
    match reader.on_read(Some(vec![2; 48])) {
        PcmRead::Window(bytes) => {
            assert_eq!(bytes.len(), PCM_FRAME_BYTES);
            assert_eq!(bytes[1_999], 1);
            assert_eq!(bytes[2_000], 2);
        }
        _ => panic!("a whole window was read"),
    }
    assert!(matches!(reader.on_read(Some(Vec::new())), PcmRead::End));

    let mut cut = PcmWindowReader::new();
    assert!(matches!(cut.on_read(Some(vec![1; 3])), PcmRead::More));
    assert!(matches!(cut.on_read(Some(Vec::new())), PcmRead::Failed));
    let mut broken = PcmWindowReader::new();
    assert!(matches!(broken.on_read(None), PcmRead::Failed));
}

#[test]
fn decoding_shows_levels_and_reaps_the_process() {
    let mut decode = SpectrumDecode::start();
    assert!(matches!(
        decode.on_event(SpectrumDecodeEvent::WindowRead(window_of(0.25))),
        SpectrumDecodeAction::Analyse(_)
    ));
    let levels = SpectrumFrame::new(vec![3, 4].into_boxed_slice());
    assert!(matches!(
        decode.on_event(SpectrumDecodeEvent::Analysed(levels)),
        SpectrumDecodeAction::ShowThenRead(_)
    ));
    assert!(matches!(
        decode.on_event(SpectrumDecodeEvent::EndOfOutput),
        SpectrumDecodeAction::AwaitExit
    ));
    assert!(matches!(
        decode.on_event(SpectrumDecodeEvent::Exited { success: true }),
        SpectrumDecodeAction::Finish(Ok(()))
    ));

    let mut silent = SpectrumDecode::start();
    assert!(matches!(
        silent.on_event(SpectrumDecodeEvent::EndOfOutput),
        SpectrumDecodeAction::Kill(Err(SpectrumError::DecodeFailed))
    ));
    assert!(matches!(
        silent.on_event(SpectrumDecodeEvent::Cancelled),
        SpectrumDecodeAction::Kill(Ok(()))
    ));
    assert!(matches!(
        silent.on_event(SpectrumDecodeEvent::DeadlineReached),
        SpectrumDecodeAction::Kill(Err(SpectrumError::ResourceLimit))
    ));
    assert!(matches!(
        silent.on_event(SpectrumDecodeEvent::WindowRead(window_of(f32::NAN))),
        SpectrumDecodeAction::Kill(Err(SpectrumError::DecodeFailed))
    ));
    assert!(spectrum_result_after_kill(Ok(()), true) == Ok(()));
    assert!(spectrum_result_after_kill(Ok(()), false) != Ok(()));
}

#[test]
fn every_band_has_a_bin_whatever_the_edges_are() {
    for bands in 1..=MAX_SPECTRUM_BANDS {
        let mut layout = BandLayout::new(bands).unwrap_or_else(|| panic!("supported band count"));
        for band in 0..bands {
            layout.start_band(band * 7);
        }
        let bin_bands = layout.finish();
        assert_eq!(bin_bands.len(), POSITIVE_BINS);
        for band in 0..bands {
            assert!(bin_bands.contains(&band), "band {band} of {bands} is empty");
        }
    }
    assert!(BandLayout::new(0).is_none());
    assert!(BandLayout::new(MAX_SPECTRUM_BANDS + 1).is_none());
}

#[test]
fn worker_starts_pauses_seeks_and_clears_runs() {
    let mut store = SpectrumFrameStore::new();
    let mut worker = SpectrumWorker::spawn(200);
    let request = SpectrumRequest::new(key(1, "a", target(2, 1)), "https://a.invalid".to_owned());
    let first = worker.replace(&mut store, request.clone());
    let (started, run) = first.start.unwrap_or_else(|| panic!("a run starts"));
    assert!(!first.retire);
    assert_eq!(started.start_ms(), 0);
    assert!(worker.active_request_matches(&request));
    assert!(store.publish(&run, frame(&[1, 2])));

    let paused = worker.pause(&mut store);
    assert!(paused.retire);
    assert!(paused.start.is_none());
    assert!(store.presentation(request.key()).paused());
    assert!(!store.publish(&run, frame(&[3, 4])));

    let sought = worker.seek(&mut store, 5_000);
    assert!(sought.start.is_none());
    assert!(store.presentation(request.key()).paused());

    let resumed = worker.resume(&mut store, 7_000);
    let (started, fresh) = resumed.start.unwrap_or_else(|| panic!("a run starts again"));
    assert_eq!(started.start_ms(), 7_000);
    assert!(!store.publish(&run, frame(&[3, 4])));
    assert!(store.publish(&fresh, frame(&[5, 6])));

    let cleared = worker.clear(&mut store);
    assert!(cleared.retire);
    assert!(worker.active_key().is_none());
    assert!(store.presentation(request.key()) == SpectrumPresentation::quiet());
}

#[test]
fn publisher_paces_continues_and_stops() {
    let mut store = SpectrumFrameStore::new();
    let key = key(1, "a", target(2, 1));
    let run = store.request(key.clone()).unwrap_or_else(|| panic!("a run starts"));
    assert!(matches!(
        publish_latest_spectrum(&mut store, &run, Some(Ok(frame(&[1, 2])))),
        SpectrumPublisherAction::Pace
    ));
    assert!(matches!(
        publish_latest_spectrum(&mut store, &run, None),
        SpectrumPublisherAction::Continue
    ));
    assert!(matches!(
        publish_latest_spectrum(&mut store, &run, Some(Err(SpectrumError::DecodeFailed))),
        SpectrumPublisherAction::Stop
    ));
    assert!(store.presentation(&key).failed());
}

#[test]
fn logs_of_spectra_do_not_depend_on_secrets() {
    let one = spectrum_request("https://one.invalid");
    let other = spectrum_request("https://other.invalid").with_max_fps(3);
    assert_eq!(one.summary(), spectrum_request("https://other.invalid").summary());
    let mut arguments = spectrum_ffmpeg_arguments(&one);
    arguments[17] = "https://other.invalid".to_owned();
    assert_eq!(arguments[16], "-i");
    assert_eq!(arguments, spectrum_ffmpeg_arguments(&other));
    let mut summaries = Vec::new();
    for (media, levels) in [("a", [1, 2]), ("b", [3, 4])] {
        let mut store = SpectrumFrameStore::new();
        let key = key(1, media, target(2, 1));
        let run =
            store.request(key.clone()).unwrap_or_else(|| panic!("valid request must start a run"));
        assert!(store.publish(&run, frame(&levels)));
        summaries.push([
            key.summary(),
            run.summary(),
            store.summary(),
            store.presentation(&key).summary(),
        ]);
    }
    assert_eq!(summaries[0], summaries[1]);
}

#[test]
fn requests_for_spectra_are_logged_without_their_address() {
    assert_eq!(
        spectrum_request("https://one.invalid").with_max_fps(3).summary(),
        "SpectrumRequest { band_count: 8, row_count: 1, stream_url: \"[REDACTED]\", \
         max_fps: 3, start_ms: 0 }"
    );
    let mut store = SpectrumFrameStore::default();
    let key = key(1, "a", target(2, 1));
    let run = store.request(key.clone()).unwrap_or_else(|| panic!("a run"));
    assert!(store.publish(&run, frame(&[1, 2])));
    let shown = store.presentation(&key);
    assert!(shown.clone() == shown);
}
