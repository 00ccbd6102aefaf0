use scribble::{Backend, BackendStream, Error, Opts, OutputType};

/// Writes the number of samples it was given.
struct Counting;

struct CountingStream<'a> {
    heard: usize,
    out: &'a mut Vec<usize>,
}

impl BackendStream<f32> for CountingStream<'_> {
    fn on_samples(&mut self, samples: &[f32]) -> Result<bool, Error> {
        self.heard += samples.len();
        Ok(true)
    }

    fn finish(&mut self) -> Result<(), Error> {
        self.out.push(self.heard);
        Ok(())
    }
}

impl Backend<f32, Vec<usize>> for Counting {
    type Stream<'a> = CountingStream<'a>;

    fn transcribe_full(
        &self,
        _opts: &Opts,
        encoder: &mut Vec<usize>,
        samples: &[f32],
    ) -> Result<(), Error> {
        encoder.push(samples.len());
        Ok(())
    }

    fn create_stream<'a>(
        &'a self,
        _opts: &'a Opts,
        encoder: &'a mut Vec<usize>,
    ) -> Result<CountingStream<'a>, Error> {
        Ok(CountingStream { heard: 0, out: encoder })
    }
}

#[test]
fn backends_of_others_can_be_plugged_in() {
    let opts = Opts {
        model_key: None,
        enable_translate_to_english: false,
        enable_voice_activity_detection: false,
        language: None,
        output_type: OutputType::Json,
        incremental_min_window_seconds: 1,
        emit_single_segments: false,
    };
    let mut out = Vec::new();
    Counting.transcribe_full(&opts, &mut out, &[0.0; 3]).unwrap();
    let mut stream = Counting.create_stream(&opts, &mut out).unwrap();
    assert_eq!(stream.on_samples(&[0.0; 5]), Ok(true));
    // Without an implementation of their own these do nothing.
    assert!(stream.last_vad_speech_instant().is_none());
    stream.reset();
    assert_eq!(stream.heard, 5);
    stream.finish().unwrap();
    assert_eq!(out, vec![3, 5]);
}
