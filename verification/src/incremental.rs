//! Incremental, segment-driven transcription over a growing sample buffer.
//!
//! A [`BufferedSegmentTranscriber`] buffers decoded mono samples, says when the buffer is
//! worth an inference pass, decides how many of the segments that the pass returned are
//! final, and advances the buffer by the end of the last of those. Running the inference
//! and writing the segments is the caller's part: every decision is a method that takes
//! what the caller found and returns what is to be done [`Next`].
//!
//! The samples themselves are never looked at, so their type is a parameter.
use vstd::arithmetic::power2::{lemma2_to64, pow2};
use vstd::prelude::*;
use vstd::slice::slice_subrange;

use crate::audio::TARGET_SAMPLE_RATE;
use crate::error::{Error, ErrorView};
use crate::opts::Opts;

verus! {

/// Cap, in seconds of audio, on the window before progress is forced.
///
/// While inference keeps returning at most one segment, audio is accumulated up to this cap;
/// then whatever is available is emitted, and where there is nothing to emit the window is
/// passed over, so that memory does not grow without bound.
pub const DEFAULT_MAX_BUFFER_SECONDS: usize = 30;

/// Largest exponent of the backoff after inference passes without progress: the wait grows
/// up to 16 times the minimum window.
pub const MAX_BACKOFF_SHIFT: u32 = 4;

/// The smaller of two integers.
pub open spec fn min_int(a: int, b: int) -> int {
    if a <= b {
        a
    } else {
        b
    }
}

/// How many minimum windows of further audio are waited for after the given number of
/// passes without progress: 1 after the first, then twice as many after each, at most 16.
pub open spec fn backoff_factor(no_progress_runs: int) -> int {
    let shift = if no_progress_runs <= 1 {
        0
    } else {
        min_int(no_progress_runs - 1, MAX_BACKOFF_SHIFT as int)
    };
    pow2(shift as nat) as int
}

/// The window length at which inference is tried again: further audio by the backoff, but
/// not beyond the length at which progress is forced anyway.
pub open spec fn infer_threshold(
    current_len: int,
    min_window: int,
    max_window: int,
    no_progress_runs: int,
) -> int {
    min_int(current_len + min_window * backoff_factor(no_progress_runs), max_window)
}

/// The window length at which inference is tried again after `no_progress_runs` passes
/// without progress, the last of them on a window of `current_len` samples.
pub fn next_infer_threshold(
    current_len: usize,
    min_window_samples: usize,
    max_window_samples: usize,
    no_progress_runs: u32,
) -> (threshold: usize)
    ensures
        threshold == infer_threshold(
            current_len as int,
            min_window_samples as int,
            max_window_samples as int,
            no_progress_runs as int,
        ),
{
    let waited: u32 = no_progress_runs.saturating_sub(1);
    let shift: u32 = if waited < MAX_BACKOFF_SHIFT {
        waited
    } else {
        MAX_BACKOFF_SHIFT
    };
    let factor: usize = 1usize << shift;
    proof {
        lemma2_to64();
        assert(shift <= 4 ==> 1usize << shift == (if shift == 0 {
            1usize
        } else if shift == 1 {
            2usize
        } else if shift == 2 {
            4usize
        } else if shift == 3 {
            8usize
        } else {
            16usize
        })) by (bit_vector);
        assert(factor == backoff_factor(no_progress_runs as int));
    }
    let step: usize = match min_window_samples.checked_mul(factor) {
        Some(step) => step,
        None => usize::MAX,
    };
    let proposed: usize = current_len.saturating_add(step);
    if proposed < max_window_samples {
        proposed
    } else {
        max_window_samples
    }
}

/// How many of `available` samples a segment covers that ends `cs` centiseconds into them:
/// at least one, so that a degenerate segment still makes progress, and at most all.
pub open spec fn samples_until(cs: int, available: int) -> int {
    let samples = min_int(cs * TARGET_SAMPLE_RATE, usize::MAX as int) / 100;
    min_int(
        if samples == 0 {
            1
        } else {
            samples
        },
        available,
    )
}

/// The samples that a segment covers, or why its end is not accepted.
pub open spec fn segment_end(end_timestamp_cs: i64, available: int) -> Result<int, ErrorView> {
    if end_timestamp_cs < 0 {
        Err(ErrorView::NegativeEndTimestamp(end_timestamp_cs))
    } else if end_timestamp_cs > usize::MAX {
        Err(ErrorView::EndTimestampTooLarge)
    } else {
        Ok(samples_until(end_timestamp_cs as int, available))
    }
}

/// The number of samples that a segment covers which ends `end_timestamp_cs` centiseconds
/// into a window of `available_samples` samples.
pub fn segment_end_samples(end_timestamp_cs: i64, available_samples: usize) -> (r: Result<
    usize,
    Error,
>)
    ensures
        match r {
            Ok(samples) => segment_end(end_timestamp_cs, available_samples as int) == Ok::<
                int,
                ErrorView,
            >(samples as int),
            Err(error) => segment_end(end_timestamp_cs, available_samples as int) == Err::<
                int,
                ErrorView,
            >(error@),
        },
{
    if end_timestamp_cs < 0 {
        return Err(Error::NegativeEndTimestamp(end_timestamp_cs));
    }
    let cs: usize = match end_timestamp_cs.try_into() {
        Ok(cs) => cs,
        Err(_) => {
            return Err(Error::EndTimestampTooLarge);
        },
    };
    let scaled: usize = match cs.checked_mul(TARGET_SAMPLE_RATE as usize) {
        Some(scaled) => scaled,
        None => usize::MAX,
    };
    let mut end_samples: usize = scaled / 100;
    if end_samples == 0 {
        end_samples = 1;
    }
    if end_samples > available_samples {
        end_samples = available_samples;
    }
    Ok(end_samples)
}

/// How many of `dead` samples before a window of `window_len` samples are kept when the buffer
/// may drop them: none once they are a second of audio or half of the buffer, else all.
pub open spec fn compacted(dead: int, window_len: int) -> int {
    if dead >= TARGET_SAMPLE_RATE || dead >= (dead + window_len) / 2 {
        0
    } else {
        dead
    }
}

/// Whether a round of processing moved the window.
#[derive(Debug, Clone, Copy, PartialEq, Eq, Structural)]
pub enum Progress {
    /// The window is where it was.
    NoOp,
    /// The window was advanced, past the segments that were emitted or past all of it.
    Advanced,
}

/// What is to be done next in a round of processing.
#[derive(Debug, Clone, Copy, PartialEq, Eq, Structural)]
pub enum Next {
    /// Nothing: the round is over.
    Done(Progress),
    /// Run inference on the window and report the number of segments to
    /// [`BufferedSegmentTranscriber::on_inference`].
    Infer,
    /// Write the first `count` segments, in order, with their times moved by
    /// `offset_samples` samples, and report the end of the last of them to
    /// [`BufferedSegmentTranscriber::on_emitted`].
    Emit {
        /// How many segments are final.
        count: usize,
        /// Where in the stream the window starts.
        offset_samples: usize,
    },
}

/// A streaming buffer that decides when to infer, what to emit and how far to advance.
pub struct BufferedSegmentTranscriber<S> {
    min_window_samples: usize,
    max_window_samples: usize,
    next_infer_at_samples: usize,
    no_progress_runs: u32,
    emit_single_segments: bool,
    // The window is what follows `head`. Advancing moves `head`, and the samples before it
    // are dropped now and then.
    samples: Vec<S>,
    head: usize,
    // Samples advanced past since the beginning of the stream.
    advanced_samples: usize,
}

/// What a [`BufferedSegmentTranscriber`] stands for.
#[verifier::ext_equal]
pub struct Transcriber<S> {
    /// The samples that are still to be transcribed.
    pub window: Seq<S>,
    /// The number of samples of the stream before the window.
    pub advanced: int,
    /// The shortest window on which inference is run before the end of the stream.
    pub min_window: int,
    /// The length of the window at which progress is forced.
    pub max_window: int,
    /// The length of the window at which inference is tried again.
    pub next_infer_at: int,
    /// Passes without progress since the window last moved.
    pub no_progress_runs: int,
    /// A single segment is emitted, too.
    pub emit_single: bool,
}

impl<S> Transcriber<S> {
    /// Whatever inference returns is emitted: the stream is over, or the window is full.
    pub open spec fn force_flush(self, end_of_stream: bool) -> bool {
        end_of_stream || self.window.len() >= self.max_window
    }

    /// Inference is run now: there is something to run it on, it is long enough, and it has
    /// grown as far as the last pass asked for; at the end of the stream the first suffices.
    pub open spec fn inference_due(self, end_of_stream: bool) -> bool {
        &&& self.window.len() > 0
        &&& end_of_stream || self.window.len() >= self.min_window
        &&& self.force_flush(end_of_stream) || self.window.len() >= self.next_infer_at
    }

    /// How many of `n` segments are final: all of them in a forced flush; otherwise all but
    /// the last, which further audio may change, or a single one where that is enabled.
    pub open spec fn final_segments(self, end_of_stream: bool, n: int) -> int {
        if n <= 0 {
            0
        } else if self.force_flush(end_of_stream) {
            n
        } else if n >= 2 {
            n - 1
        } else if self.emit_single {
            1
        } else {
            0
        }
    }

    /// After `samples` were appended.
    pub open spec fn with_samples(self, samples: Seq<S>) -> Self {
        Transcriber { window: self.window + samples, ..self }
    }

    /// After a pass that made no progress and was not forced: a longer wait.
    pub open spec fn backed_off(self) -> Self {
        let runs = min_int(self.no_progress_runs + 1, u32::MAX as int);
        Transcriber {
            no_progress_runs: runs,
            next_infer_at: infer_threshold(
                self.window.len() as int,
                self.min_window,
                self.max_window,
                runs,
            ),
            ..self
        }
    }

    /// After the whole window was passed over without a segment.
    pub open spec fn discarded(self) -> Self {
        Transcriber {
            window: Seq::empty(),
            advanced: self.advanced + self.window.len(),
            no_progress_runs: 0,
            next_infer_at: self.min_window,
            ..self
        }
    }

    /// The window is passed over: it is full, the stream goes on, and a pass on it returned
    /// no segment.
    pub open spec fn nothing_to_emit(self, end_of_stream: bool, n: int) -> bool {
        !end_of_stream && self.window.len() >= self.max_window && n <= 0
    }

    /// After a pass that returned `n` segments, before any of them is written.
    pub open spec fn after_inference(self, end_of_stream: bool, n: int) -> Self {
        if self.nothing_to_emit(end_of_stream, n) {
            self.discarded()
        } else if self.final_segments(end_of_stream, n) == 0 && !self.force_flush(end_of_stream) {
            self.backed_off()
        } else {
            self
        }
    }

    /// How much of the window goes with segments that end after `end_samples` samples: at
    /// the end of the stream all of it.
    pub open spec fn consumed(self, end_of_stream: bool, end_samples: int) -> int {
        if end_of_stream {
            self.window.len() as int
        } else {
            end_samples
        }
    }

    /// After segments were written that end after `end_samples` samples.
    pub open spec fn advanced_past(self, end_of_stream: bool, end_samples: int) -> Self {
        let consumed = self.consumed(end_of_stream, end_samples);
        Transcriber {
            window: self.window.skip(consumed),
            advanced: self.advanced + consumed,
            no_progress_runs: 0,
            next_infer_at: if self.force_flush(end_of_stream) {
                self.min_window
            } else {
                self.window.len() - consumed + self.min_window
            },
            ..self
        }
    }

    /// After the end of the stream: what is still in the window is not transcribed.
    pub open spec fn finished(self) -> Self {
        Transcriber { window: Seq::empty(), ..self }
    }
}

/// The buffer at the start of a stream: windows of at least the seconds that `opts` asks for,
/// which are one or more, and of at most the cap.
pub open spec fn empty_transcriber<S>(opts: Opts) -> Transcriber<S> {
    let seconds = if opts.incremental_min_window_seconds == 0 {
        1
    } else {
        opts.incremental_min_window_seconds as int
    };
    Transcriber {
        window: Seq::empty(),
        advanced: 0,
        min_window: TARGET_SAMPLE_RATE * seconds,
        max_window: TARGET_SAMPLE_RATE * DEFAULT_MAX_BUFFER_SECONDS,
        next_infer_at: TARGET_SAMPLE_RATE * seconds,
        no_progress_runs: 0,
        emit_single: opts.emit_single_segments,
    }
}

impl<S> View for BufferedSegmentTranscriber<S> {
    type V = Transcriber<S>;

    closed spec fn view(&self) -> Transcriber<S> {
        Transcriber {
            window: self.samples@.skip(self.head as int),
            advanced: self.advanced_samples as int,
            min_window: self.min_window_samples as int,
            max_window: self.max_window_samples as int,
            next_infer_at: self.next_infer_at_samples as int,
            no_progress_runs: self.no_progress_runs as int,
            emit_single: self.emit_single_segments,
        }
    }
}

impl<S> BufferedSegmentTranscriber<S> {
    /// The window lies within the buffer, and the length of the stream can be counted.
    pub closed spec fn inv(&self) -> bool {
        &&& self.head <= self.samples@.len()
        &&& self.advanced_samples + self.samples@.len() - self.head <= usize::MAX
        &&& self.max_window_samples == TARGET_SAMPLE_RATE * DEFAULT_MAX_BUFFER_SECONDS
    }

    /// How many samples are kept that lie before the window.
    pub closed spec fn dead_samples(&self) -> int {
        self.head as int
    }

    /// An empty buffer with the windows that `opts` asks for.
    pub fn new(opts: &Opts) -> (r: Self)
        requires
            opts.incremental_min_window_seconds * TARGET_SAMPLE_RATE <= usize::MAX,
        ensures
            r.inv(),
            r@ == empty_transcriber::<S>(*opts),
    {
        let min_window_seconds: usize = if opts.incremental_min_window_seconds < 1 {
            1
        } else {
            opts.incremental_min_window_seconds
        };
        let min_window_samples: usize = TARGET_SAMPLE_RATE as usize * min_window_seconds;
        BufferedSegmentTranscriber {
            min_window_samples,
            max_window_samples: TARGET_SAMPLE_RATE as usize * DEFAULT_MAX_BUFFER_SECONDS,
            next_infer_at_samples: min_window_samples,
            no_progress_runs: 0,
            emit_single_segments: opts.emit_single_segments,
            samples: Vec::new(),
            head: 0,
            advanced_samples: 0,
        }
    }

    /// The samples that are still to be transcribed.
    pub fn window(&self) -> (r: &[S])
        requires
            self.inv(),
        ensures
            r@ == self@.window,
    {
        slice_subrange(self.samples.as_slice(), self.head, self.samples.len())
    }

    /// The number of samples that are still to be transcribed.
    pub fn window_len(&self) -> (r: usize)
        requires
            self.inv(),
        ensures
            r == self@.window.len(),
    {
        self.samples.len().saturating_sub(self.head)
    }

    /// Drops the samples before the window once they are a second of audio or half of the
    /// buffer. The window stays what it is.
    fn maybe_compact(&mut self)
        requires
            old(self).inv(),
        ensures
            final(self).inv(),
            final(self)@ == old(self)@,
            final(self).dead_samples() == compacted(
                old(self).dead_samples(),
                old(self)@.window.len() as int,
            ),
    {
        if self.head == 0 {
            return;
        }
        let should_compact = self.head >= TARGET_SAMPLE_RATE as usize || self.head
            >= self.samples.len() / 2;
        if should_compact {
            let window = self.samples.split_off(self.head);
            self.samples = window;
            self.head = 0;
        }
        assert(self@.window == old(self)@.window);
    }

    /// Appends a chunk of samples and says whether that makes inference due.
    pub fn on_samples(&mut self, samples: &[S]) -> (next: Next) where S: Copy
        requires
            old(self).inv(),
            old(self)@.advanced + old(self)@.window.len() + samples@.len() <= usize::MAX,
        ensures
            final(self).inv(),
            final(self)@ == old(self)@.with_samples(samples@),
            final(self).dead_samples() == old(self).dead_samples(),
            next == (if final(self)@.inference_due(false) {
                Next::Infer
            } else {
                Next::Done(Progress::NoOp)
            }),
    {
        let ghost before = self.samples@;
        for i in 0..samples.len()
            invariant
                self.samples@ == before + samples@.take(i as int),
                *self == (BufferedSegmentTranscriber { samples: self.samples, ..*old(self) }),
        {
            self.samples.push(samples[i]);
            assert(samples@.take(i + 1) == samples@.take(i as int).push(samples@[i as int]));
        }
        proof {
            assert(samples@.take(samples@.len() as int) == samples@);
            assert(self@.window == old(self)@.window + samples@);
        }
        self.process_available(false)
    }

    /// Starts a round of processing: says whether inference is to be run on the window.
    pub fn process_available(&self, end_of_stream: bool) -> (next: Next)
        requires
            self.inv(),
        ensures
            next == (if self@.inference_due(end_of_stream) {
                Next::Infer
            } else {
                Next::Done(Progress::NoOp)
            }),
    {
        let win_len = self.window_len();
        if win_len == 0 {
            return Next::Done(Progress::NoOp);
        }
        if !end_of_stream && win_len < self.min_window_samples {
            return Next::Done(Progress::NoOp);
        }
        // Not on every small chunk: only once the window has grown by what the last pass asked
        // for, or when flushing.
        let force_flush = end_of_stream || win_len >= self.max_window_samples;
        if !force_flush && win_len < self.next_infer_at_samples {
            return Next::Done(Progress::NoOp);
        }
        Next::Infer
    }

    /// Goes on after inference returned `n_segments` segments: either the final ones are to be
    /// written, or none of them is final, and inference is put off. A full window without a
    /// segment is passed over.
    pub fn on_inference(&mut self, end_of_stream: bool, n_segments: i32) -> (next: Next)
        requires
            old(self).inv(),
        ensures
            final(self).inv(),
            final(self)@ == old(self)@.after_inference(end_of_stream, n_segments as int),
            final(self).dead_samples() == (if old(self)@.nothing_to_emit(
                end_of_stream,
                n_segments as int,
            ) {
                0
            } else {
                old(self).dead_samples()
            }),
            if old(self)@.nothing_to_emit(end_of_stream, n_segments as int) {
                next == Next::Done(Progress::Advanced)
            } else if old(self)@.final_segments(end_of_stream, n_segments as int) == 0 {
                next == Next::Done(Progress::NoOp)
            } else {
                next matches Next::Emit { count, offset_samples } && count
                    == old(self)@.final_segments(end_of_stream, n_segments as int)
                    && offset_samples == old(self)@.advanced
            },
    {
        let win_len = self.window_len();
        let force_flush = end_of_stream || win_len >= self.max_window_samples;
        let emit_count: usize = if n_segments <= 0 {
            0
        } else if force_flush {
            n_segments as usize
        } else if n_segments >= 2 {
            n_segments as usize - 1
        } else if self.emit_single_segments {
            1
        } else {
            0
        };
        if emit_count > 0 {
            return Next::Emit { count: emit_count, offset_samples: self.advanced_samples };
        }
        if force_flush && !end_of_stream {
            self.reset();
            return Next::Done(Progress::Advanced);
        }
        if !force_flush {
            self.no_progress_runs = self.no_progress_runs.saturating_add(1);
            self.next_infer_at_samples =
            next_infer_threshold(
                win_len,
                self.min_window_samples,
                self.max_window_samples,
                self.no_progress_runs,
            );
        }
        Next::Done(Progress::NoOp)
    }

    /// Goes on after the first `count` segments were written: advances the window past the
    /// end of the last of them, which inference gives in centiseconds, if it has that segment.
    pub fn on_emitted(
        &mut self,
        end_of_stream: bool,
        count: usize,
        last_end_timestamp_cs: Option<i64>,
    ) -> (r: Result<Next, Error>)
        requires
            old(self).inv(),
            old(self)@.inference_due(end_of_stream),
            count > 0,
        ensures
            final(self).inv(),
            match last_end_timestamp_cs {
                None => {
                    &&& final(self)@ == old(self)@
                    &&& r matches Err(error) && error@ == ErrorView::MissingSegment(
                        (count - 1) as usize,
                    )
                },
                Some(cs) => match segment_end(cs, old(self)@.window.len() as int) {
                    Err(reason) => {
                        &&& final(self)@ == old(self)@
                        &&& r matches Err(error) && error@ == reason
                    },
                    Ok(end_samples) => {
                        &&& final(self)@ == old(self)@.advanced_past(end_of_stream, end_samples)
                        &&& r == Ok::<Next, Error>(Next::Done(Progress::Advanced))
                    },
                },
            },
            final(self).dead_samples() == (if r is Err {
                old(self).dead_samples()
            } else if end_of_stream {
                old(self).dead_samples() + old(self)@.window.len()
            } else {
                compacted(
                    old(self).dead_samples() + final(self)@.advanced - old(self)@.advanced,
                    final(self)@.window.len() as int,
                )
            }),
    {
        let win_len = self.window_len();
        let force_flush = end_of_stream || win_len >= self.max_window_samples;
        let end_timestamp_cs = match last_end_timestamp_cs {
            Some(cs) => cs,
            None => {
                return Err(Error::MissingSegment(count - 1));
            },
        };
        let end_samples = match segment_end_samples(end_timestamp_cs, win_len) {
            Ok(end_samples) => end_samples,
            Err(error) => {
                return Err(error);
            },
        };
        if end_of_stream {
            // The flush at the end of the stream is a single pass: it takes the whole window.
            self.head = self.samples.len();
            self.advanced_samples = self.advanced_samples + win_len;
        } else {
            assert(self.head + end_samples <= self.samples.len());
            self.head = self.head + end_samples;
            self.advanced_samples = self.advanced_samples + end_samples;
            self.maybe_compact();
        }
        self.no_progress_runs = 0;
        // Wait for more audio before the next pass, unless this one was forced.
        if !force_flush {
            self.next_infer_at_samples = self.window_len() + self.min_window_samples;
        } else {
            self.next_infer_at_samples = self.min_window_samples;
        }
        Ok(Next::Done(Progress::Advanced))
    }

    /// Passes over the window, for a new utterance: nothing that was heard so far is
    /// transcribed any more.
    pub fn reset(&mut self)
        requires
            old(self).inv(),
        ensures
            final(self).inv(),
            final(self)@ == old(self)@.discarded(),
            final(self).dead_samples() == 0,
    {
        let win_len = self.window_len();
        self.samples.clear();
        self.head = 0;
        self.advanced_samples = self.advanced_samples + win_len;
        self.no_progress_runs = 0;
        self.next_infer_at_samples = self.min_window_samples;
    }

    /// Ends the stream, after its last round of processing: nothing is left to transcribe.
    pub fn finish(&mut self)
        requires
            old(self).inv(),
        ensures
            final(self).inv(),
            final(self)@ == old(self)@.finished(),
            final(self).dead_samples() == 0,
    {
        self.samples.clear();
        self.head = 0;
    }
}

} // verus!
