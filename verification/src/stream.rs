//! The streaming state of a backend: an optional voice activity filter in front of the
//! segment buffer.
use vstd::prelude::*;

use crate::incremental::{BufferedSegmentTranscriber, Next, Progress, Transcriber};

verus! {

/// Where the samples of a stream went.
#[derive(Debug, Clone, Copy, PartialEq, Eq, Structural)]
pub enum Routed {
    /// They are to be pushed through the voice activity filter, which is then to be drained.
    Filter,
    /// They were buffered; this is to be done next.
    Buffered(Next),
}

/// What is to be done after a look at the output of the voice activity filter.
#[derive(Debug, Clone, Copy, PartialEq, Eq, Structural)]
pub enum Drain {
    /// The filter has nothing more to give.
    Stop,
    /// The output was buffered: it is to be taken off the filter, then `next` is to be done.
    Fed {
        /// What is to be done with the buffer.
        next: Next,
        /// The filter is to be looked at once more after that.
        again: bool,
    },
}

/// Streaming state: the segment buffer, and whether a voice activity filter stands in front
/// of it.
pub struct WhisperStream<S> {
    /// The segment buffer.
    pub inner: BufferedSegmentTranscriber<S>,
    /// Samples go through the voice activity filter first.
    pub filtered: bool,
}

/// What is to be done with a buffer that stands for `buffer`, to which samples were just
/// appended.
pub open spec fn next_after_append<S>(buffer: Transcriber<S>) -> Next {
    if buffer.inference_due(false) {
        Next::Infer
    } else {
        Next::Done(Progress::NoOp)
    }
}

impl<S> WhisperStream<S> {
    /// Takes a chunk of samples: buffers it, or hands it on to the voice activity filter.
    pub fn on_samples(&mut self, samples: &[S]) -> (routed: Routed) where S: Copy
        requires
            old(self).inner.inv(),
            !old(self).filtered ==> old(self).inner@.advanced + old(self).inner@.window.len()
                + samples@.len() <= usize::MAX,
        ensures
            final(self).inner.inv(),
            final(self).filtered == old(self).filtered,
            if old(self).filtered {
                &&& final(self).inner@ == old(self).inner@
                &&& routed == Routed::Filter
            } else {
                &&& final(self).inner@ == old(self).inner@.with_samples(samples@)
                &&& routed == Routed::Buffered(next_after_append(final(self).inner@))
            },
    {
        if self.filtered {
            Routed::Filter
        } else {
            Routed::Buffered(self.inner.on_samples(samples))
        }
    }

    /// Takes what the voice activity filter has to give. While the stream runs the filter is
    /// emptied; when it is flushed at the end, it is looked at once.
    pub fn drain(&mut self, remainder: Option<&[S]>, flushing: bool) -> (drain: Drain) where S: Copy
        requires
            old(self).inner.inv(),
            remainder matches Some(chunk) ==> old(self).inner@.advanced
                + old(self).inner@.window.len() + chunk@.len() <= usize::MAX,
        ensures
            final(self).inner.inv(),
            final(self).filtered == old(self).filtered,
            match remainder {
                Some(chunk) if chunk@.len() > 0 => {
                    &&& final(self).inner@ == old(self).inner@.with_samples(chunk@)
                    &&& drain == (Drain::Fed {
                        next: next_after_append(final(self).inner@),
                        again: !flushing,
                    })
                },
                _ => {
                    &&& final(self).inner@ == old(self).inner@
                    &&& drain == Drain::Stop
                },
            },
    {
        match remainder {
            Some(chunk) => {
                if chunk.is_empty() {
                    return Drain::Stop;
                }
                Drain::Fed { next: self.inner.on_samples(chunk), again: !flushing }
            },
            None => Drain::Stop,
        }
    }

    /// Clears the audio that was heard so far, for a new utterance, so that it is not
    /// transcribed again with what comes. What the voice activity filter holds back is to be
    /// dropped with it.
    pub fn reset(&mut self)
        requires
            old(self).inner.inv(),
        ensures
            final(self).inner.inv(),
            final(self).inner@ == old(self).inner@.discarded(),
            final(self).inner@.window.len() == 0,
            final(self).filtered == old(self).filtered,
    {
        self.inner.reset();
    }
}

} // verus!
