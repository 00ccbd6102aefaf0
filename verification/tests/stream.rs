use scribble::{
    BufferedSegmentTranscriber, Drain, Next, Opts, OutputType, Progress, Routed, WhisperStream,
};

fn stream(filtered: bool) -> WhisperStream<f32> {
    let opts = Opts {
        model_key: None,
        enable_translate_to_english: false,
        enable_voice_activity_detection: filtered,
        language: None,
        output_type: OutputType::Json,
        incremental_min_window_seconds: 1,
        emit_single_segments: false,
    };
    WhisperStream { inner: BufferedSegmentTranscriber::new(&opts), filtered }
}

#[test]
fn unfiltered_samples_are_buffered() {
    let mut s = stream(false);
    assert_eq!(s.on_samples(&[0.5; 10]), Routed::Buffered(Next::Done(Progress::NoOp)));
    assert_eq!(s.on_samples(&[0.25; 16_000]), Routed::Buffered(Next::Infer));
    assert_eq!(s.inner.window_len(), 16_010);
}

#[test]
fn filtered_samples_go_to_the_filter_first() {
    let mut s = stream(true);
    assert_eq!(s.on_samples(&[0.5; 16_000]), Routed::Filter);
    assert_eq!(s.inner.window_len(), 0);
}

#[test]
fn filter_is_drained_until_it_has_nothing_to_give() {
    let mut s = stream(true);
    assert_eq!(
        s.drain(Some(&[0.5; 16_000]), false),
        Drain::Fed { next: Next::Infer, again: true }
    );
    assert_eq!(s.inner.window(), &[0.5f32; 16_000][..]);
    assert_eq!(s.drain(Some(&[]), false), Drain::Stop);
    assert_eq!(s.drain(None, false), Drain::Stop);
    assert_eq!(s.inner.window_len(), 16_000);
}

#[test]
fn flushed_filter_is_looked_at_once() {
    let mut s = stream(true);
    assert_eq!(
        s.drain(Some(&[0.5; 3]), true),
        Drain::Fed { next: Next::Done(Progress::NoOp), again: false }
    );
    assert_eq!(s.inner.window_len(), 3);
}

#[test]
fn reset_forgets_what_was_heard() {
    let mut s = stream(true);
    s.drain(Some(&[0.5; 16_000]), false);
    s.reset();
    assert_eq!(s.inner.window_len(), 0);
    assert!(s.filtered);
    assert_eq!(s.on_samples(&[0.25; 10]), Routed::Filter);

    let mut s = stream(false);
    s.on_samples(&[0.5; 16_000]);
    s.reset();
    assert_eq!(s.inner.window_len(), 0);
    assert_eq!(s.on_samples(&[0.25; 10]), Routed::Buffered(Next::Done(Progress::NoOp)));
    assert_eq!(s.inner.window(), &[0.25f32; 10][..]);
}

#[test]
fn nothing_is_left_after_the_end_of_a_filtered_stream() {
    let mut s = stream(true);
    s.drain(Some(&[0.5; 16_000]), false);
    assert_eq!(s.inner.on_inference(false, 2), Next::Emit { count: 1, offset_samples: 0 });
    assert_eq!(s.inner.on_emitted(false, 1, Some(50)), Ok(Next::Done(Progress::Advanced)));
    // The end: what the filter still gives, the last pass, and what is left then.
    assert_eq!(
        s.drain(Some(&[0.25; 100]), true),
        Drain::Fed { next: Next::Done(Progress::NoOp), again: false }
    );
    assert_eq!(s.inner.process_available(true), Next::Infer);
    assert_eq!(s.inner.window_len(), 8_100);
    assert_eq!(s.inner.on_inference(true, 2), Next::Emit { count: 2, offset_samples: 8_000 });
    assert_eq!(s.inner.on_emitted(true, 2, Some(10)), Ok(Next::Done(Progress::Advanced)));
    s.inner.finish();
    assert_eq!(s.inner.window_len(), 0);
    assert_eq!(s.inner.process_available(true), Next::Done(Progress::NoOp));
    assert_eq!(s.inner.process_available(false), Next::Done(Progress::NoOp));
    s.drain(Some(&[0.75; 1]), true);
    assert_eq!(s.inner.on_inference(true, 1), Next::Emit { count: 1, offset_samples: 16_100 });
}
