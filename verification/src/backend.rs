//! Pluggable speech recognition.
use std::time::Instant;
use vstd::prelude::*;

use crate::error::Error;
use crate::opts::Opts;

verus! {

/// `std::time::Instant`, a point in time. It is handed through and never looked into.
#[verifier::external_type_specification]
#[verifier::external_body]
pub struct ExInstant(Instant);

/// A speech recognition backend, which turns mono samples at the target sample rate into
/// segments that it writes to an encoder.
///
/// `S` is the type of a sample and `E` that of the encoder. A backend does not close the
/// encoder: its lifecycle is the caller's.
pub trait Backend<S, E: ?Sized> {
    /// The state of a streaming transcription.
    type Stream<'a>: BackendStream<S> where Self: 'a, E: 'a;

    /// Transcribes a contiguous buffer of samples.
    fn transcribe_full(&self, opts: &Opts, encoder: &mut E, samples: &[S]) -> Result<(), Error>;

    /// Starts a transcription that takes samples incrementally.
    fn create_stream<'a>(&'a self, opts: &'a Opts, encoder: &'a mut E) -> Result<
        Self::Stream<'a>,
        Error,
    >;
}

/// A streaming transcription.
pub trait BackendStream<S>: Sized {
    /// Consumes a chunk of mono samples; `Ok(false)` asks to stop early.
    fn on_samples(&mut self, samples: &[S]) -> Result<bool, Error>;

    /// Flushes the stream and emits any final segments.
    fn finish(&mut self) -> Result<(), Error>;

    /// When voice activity detection last heard speech. A backend without it never did.
    fn last_vad_speech_instant(&self) -> (r: Option<Instant>)
        default_ensures
            r is None,
    {
        None
    }

    /// Forgets the audio heard so far, for a new utterance. A backend that keeps none has
    /// nothing to do.
    fn reset(&mut self)
        default_ensures
            *final(self) == *old(self),
    {
    }
}

} // verus!
