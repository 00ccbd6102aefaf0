use scribble::{
    next_infer_threshold, segment_end_samples, BufferedSegmentTranscriber, Error, Next, Opts,
    OutputType, Progress, TARGET_SAMPLE_RATE,
};

const SECOND: usize = TARGET_SAMPLE_RATE as usize;

fn opts(min_window_seconds: usize, emit_single_segments: bool) -> Opts {
    Opts {
        model_key: None,
        enable_translate_to_english: false,
        enable_voice_activity_detection: false,
        language: None,
        output_type: OutputType::Vtt,
        incremental_min_window_seconds: min_window_seconds,
        emit_single_segments,
    }
}

fn numbered(from: usize, len: usize) -> Vec<f32> {
    (from..from + len).map(|i| i as f32).collect()
}

fn transcriber() -> BufferedSegmentTranscriber<f32> {
    BufferedSegmentTranscriber::new(&opts(1, false))
}

#[test]
fn threshold_doubles_the_wait_up_to_sixteen_windows() {
    let at = |runs| next_infer_threshold(100, 10, 100_000, runs);
    assert_eq!(at(0), 110);
    assert_eq!(at(1), 110);
    assert_eq!(at(2), 120);
    assert_eq!(at(3), 140);
    assert_eq!(at(4), 180);
    assert_eq!(at(5), 260);
    assert_eq!(at(6), 260);
    assert_eq!(at(u32::MAX), 260);
}

#[test]
fn threshold_stays_within_the_cap() {
    assert_eq!(next_infer_threshold(100, 10, 105, 1), 105);
    assert_eq!(next_infer_threshold(200, 10, 105, 1), 105);
    assert_eq!(next_infer_threshold(usize::MAX, usize::MAX, usize::MAX, 5), usize::MAX);
    assert_eq!(next_infer_threshold(usize::MAX, usize::MAX, 7, 5), 7);
}

#[test]
fn segment_end_counts_160_samples_per_centisecond() {
    assert_eq!(segment_end_samples(1, 1_000_000), Ok(160));
    assert_eq!(segment_end_samples(100, 1_000_000), Ok(16_000));
    assert_eq!(segment_end_samples(250, 1_000_000), Ok(40_000));
}

#[test]
fn segment_end_stays_within_the_window() {
    assert_eq!(segment_end_samples(100, 1_000), Ok(1_000));
    assert_eq!(segment_end_samples(i64::MAX, 1_000), Ok(1_000));
    assert_eq!(segment_end_samples(100, 0), Ok(0));
}

#[test]
fn degenerate_segment_covers_one_sample() {
    assert_eq!(segment_end_samples(0, 1_000), Ok(1));
    assert_eq!(segment_end_samples(0, 0), Ok(0));
}

#[test]
fn negative_segment_end_is_an_error() {
    let err = segment_end_samples(-5, 1_000).unwrap_err();
    assert_eq!(err, Error::NegativeEndTimestamp(-5));
    assert_eq!(err.message(), "whisper returned negative end timestamp: -5");
}

#[test]
fn inference_waits_for_the_minimum_window() {
    let mut t = transcriber();
    assert_eq!(t.process_available(false), Next::Done(Progress::NoOp));
    assert_eq!(t.on_samples(&numbered(0, SECOND - 1)), Next::Done(Progress::NoOp));
    assert_eq!(t.on_samples(&numbered(SECOND - 1, 1)), Next::Infer);
    assert_eq!(t.window_len(), SECOND);
    assert_eq!(t.window(), &numbered(0, SECOND)[..]);
}

#[test]
fn minimum_window_is_at_least_one_second() {
    let mut t = BufferedSegmentTranscriber::new(&opts(0, false));
    assert_eq!(t.on_samples(&numbered(0, SECOND - 1)), Next::Done(Progress::NoOp));
    assert_eq!(t.on_samples(&numbered(0, 1)), Next::Infer);

    let mut t = BufferedSegmentTranscriber::new(&opts(2, false));
    assert_eq!(t.on_samples(&numbered(0, 2 * SECOND - 1)), Next::Done(Progress::NoOp));
    assert_eq!(t.on_samples(&numbered(0, 1)), Next::Infer);
}

#[test]
fn all_but_the_last_segment_are_final() {
    let mut t = transcriber();
    t.on_samples(&numbered(0, SECOND));
    assert_eq!(t.on_inference(false, 3), Next::Emit { count: 2, offset_samples: 0 });
    assert_eq!(t.on_emitted(false, 2, Some(50)), Ok(Next::Done(Progress::Advanced)));
    assert_eq!(t.window(), &numbered(8_000, 8_000)[..]);
    // The rest of the window is looked at again after another second of audio.
    assert_eq!(t.process_available(false), Next::Done(Progress::NoOp));
    assert_eq!(t.on_samples(&numbered(SECOND, SECOND - 1)), Next::Done(Progress::NoOp));
    assert_eq!(t.on_samples(&numbered(2 * SECOND - 1, 1)), Next::Infer);
    assert_eq!(t.window(), &numbered(8_000, 24_000)[..]);
    assert_eq!(t.on_inference(false, 2), Next::Emit { count: 1, offset_samples: 8_000 });
}

#[test]
fn single_segment_is_final_where_enabled() {
    let mut t = transcriber();
    t.on_samples(&numbered(0, SECOND));
    assert_eq!(t.on_inference(false, 1), Next::Done(Progress::NoOp));

    let mut t = BufferedSegmentTranscriber::new(&opts(1, true));
    t.on_samples(&numbered(0, SECOND));
    assert_eq!(t.on_inference(false, 1), Next::Emit { count: 1, offset_samples: 0 });
}

#[test]
fn passes_without_progress_back_off() {
    let mut t = transcriber();
    t.on_samples(&numbered(0, SECOND));
    assert_eq!(t.on_inference(false, 0), Next::Done(Progress::NoOp));
    // One more second after the first pass, two after the second.
    assert_eq!(t.on_samples(&numbered(0, SECOND - 1)), Next::Done(Progress::NoOp));
    assert_eq!(t.on_samples(&numbered(0, 1)), Next::Infer);
    assert_eq!(t.on_inference(false, 1), Next::Done(Progress::NoOp));
    assert_eq!(t.on_samples(&numbered(0, 2 * SECOND - 1)), Next::Done(Progress::NoOp));
    assert_eq!(t.on_samples(&numbered(0, 1)), Next::Infer);
    assert_eq!(t.on_inference(false, -1), Next::Done(Progress::NoOp));
    assert_eq!(t.on_samples(&numbered(0, 4 * SECOND - 1)), Next::Done(Progress::NoOp));
    assert_eq!(t.on_samples(&numbered(0, 1)), Next::Infer);
}

#[test]
fn emitting_resets_the_backoff() {
    let mut t = transcriber();
    t.on_samples(&numbered(0, SECOND));
    t.on_inference(false, 0);
    t.on_samples(&numbered(0, SECOND));
    t.on_inference(false, 0);
    t.on_samples(&numbered(0, 2 * SECOND));
    assert_eq!(t.on_inference(false, 2), Next::Emit { count: 1, offset_samples: 0 });
    assert_eq!(t.on_emitted(false, 1, Some(400)), Ok(Next::Done(Progress::Advanced)));
    assert_eq!(t.window_len(), 0);
    assert_eq!(t.on_samples(&numbered(0, SECOND)), Next::Infer);
    t.on_inference(false, 0);
    assert_eq!(t.on_samples(&numbered(0, SECOND)), Next::Infer);
}

#[test]
fn full_window_is_flushed_whole() {
    let mut t = transcriber();
    assert_eq!(t.on_samples(&numbered(0, 30 * SECOND)), Next::Infer);
    assert_eq!(t.on_inference(false, 1), Next::Emit { count: 1, offset_samples: 0 });
    assert_eq!(t.on_emitted(false, 1, Some(2_900)), Ok(Next::Done(Progress::Advanced)));
    assert_eq!(t.window(), &numbered(29 * SECOND, SECOND)[..]);
    // After a forced flush the minimum window suffices again.
    assert_eq!(t.process_available(false), Next::Infer);
}

#[test]
fn full_window_without_segments_is_dropped() {
    let mut t = transcriber();
    assert_eq!(t.on_samples(&numbered(0, 30 * SECOND)), Next::Infer);
    assert_eq!(t.on_inference(false, 0), Next::Done(Progress::Advanced));
    assert_eq!(t.window_len(), 0);
    assert_eq!(t.process_available(false), Next::Done(Progress::NoOp));
    // What comes next is placed behind the dropped window.
    assert_eq!(t.on_samples(&numbered(30 * SECOND, SECOND)), Next::Infer);
    assert_eq!(t.window(), &numbered(30 * SECOND, SECOND)[..]);
    assert_eq!(t.on_inference(false, 2), Next::Emit { count: 1, offset_samples: 30 * SECOND });
}

#[test]
fn window_stays_bounded_over_silence() {
    let mut t = transcriber();
    for round in 0..200usize {
        if t.on_samples(&numbered(round * SECOND, SECOND)) == Next::Infer {
            t.on_inference(false, 0);
        }
        assert!(t.window_len() < 30 * SECOND);
    }
}

#[test]
fn reset_forgets_the_window_and_keeps_the_time() {
    let mut t = transcriber();
    t.on_samples(&numbered(0, 3 * SECOND));
    t.on_inference(false, 0);
    t.reset();
    assert_eq!(t.window_len(), 0);
    assert_eq!(t.process_available(true), Next::Done(Progress::NoOp));
    assert_eq!(t.on_samples(&numbered(3 * SECOND, SECOND)), Next::Infer);
    assert_eq!(t.window(), &numbered(3 * SECOND, SECOND)[..]);
    assert_eq!(t.on_inference(true, 1), Next::Emit { count: 1, offset_samples: 3 * SECOND });
}

#[test]
fn window_of_one_second_less_than_the_cap_is_not_forced() {
    let mut t = transcriber();
    t.on_samples(&numbered(0, 29 * SECOND));
    assert_eq!(t.on_inference(false, 0), Next::Done(Progress::NoOp));
    assert_eq!(t.process_available(false), Next::Done(Progress::NoOp));
    assert_eq!(t.on_samples(&numbered(0, SECOND)), Next::Infer);
}

#[test]
fn end_of_stream_takes_the_whole_window() {
    let mut t = transcriber();
    t.on_samples(&numbered(0, 100));
    assert_eq!(t.process_available(false), Next::Done(Progress::NoOp));
    assert_eq!(t.process_available(true), Next::Infer);
    assert_eq!(t.on_inference(true, 2), Next::Emit { count: 2, offset_samples: 0 });
    assert_eq!(t.on_emitted(true, 2, Some(0)), Ok(Next::Done(Progress::Advanced)));
    assert_eq!(t.window_len(), 0);
    assert_eq!(t.process_available(true), Next::Done(Progress::NoOp));
    t.on_samples(&numbered(0, 1));
    assert_eq!(t.on_inference(true, 1), Next::Emit { count: 1, offset_samples: 100 });
}

#[test]
fn finish_forgets_what_is_left() {
    let mut t = transcriber();
    t.on_samples(&numbered(0, SECOND));
    assert_eq!(t.on_inference(true, 0), Next::Done(Progress::NoOp));
    t.finish();
    assert_eq!(t.window_len(), 0);
    assert!(t.window().is_empty());
    assert_eq!(t.process_available(true), Next::Done(Progress::NoOp));
}

#[test]
fn missing_or_misplaced_last_segment_leaves_the_window() {
    let mut t = transcriber();
    t.on_samples(&numbered(0, SECOND));
    let err = t.on_emitted(false, 3, None).unwrap_err();
    assert_eq!(err, Error::MissingSegment(2));
    assert_eq!(err.message(), "whisper segment 2 was missing");
    let err = t.on_emitted(false, 3, Some(-1)).unwrap_err();
    assert_eq!(err, Error::NegativeEndTimestamp(-1));
    assert_eq!(t.window(), &numbered(0, SECOND)[..]);
    assert_eq!(t.process_available(false), Next::Infer);
}

#[test]
fn no_sample_is_lost_over_many_rounds() {
    let mut t = transcriber();
    let mut heard: Vec<f32> = Vec::new();
    let mut position = 0;
    for round in 0..60usize {
        let chunk = numbered(heard.len(), 1 + 997 * (round % 13));
        heard.extend_from_slice(&chunk);
        if t.on_samples(&chunk) != Next::Infer {
            assert_eq!(t.window(), &heard[position..]);
            continue;
        }
        match t.on_inference(false, (round % 4) as i32) {
            Next::Emit { count, offset_samples } => {
                assert_eq!(offset_samples, position);
                let cs = 17 * (round as i64 % 5);
                let expected = segment_end_samples(cs, t.window_len()).unwrap();
                assert!(expected >= 1);
                assert_eq!(t.on_emitted(false, count, Some(cs)), Ok(Next::Done(Progress::Advanced)));
                position += expected;
            }
            other => assert_eq!(other, Next::Done(Progress::NoOp)),
        }
        assert_eq!(t.window(), &heard[position..]);
    }
    assert!(position > 0);
}
