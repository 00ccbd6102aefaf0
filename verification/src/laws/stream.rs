//! Laws of a stream with a voice activity filter in front of its segment buffer, and of how its
//! samples are received.
use std::sync::mpsc::{Receiver, RecvError};
use vstd::prelude::*;

use crate::error::Error;
use crate::incremental::{Next, Progress};
use crate::laws::buffer::{same_buffer, same_settings};
use crate::samples_rx::{chunk_or_disconnected, receive, FilteredSamples, SamplesRx};
use crate::stream::{Drain, Routed, WhisperStream};

verus! {

/// Samples that are to be filtered go to the filter: the buffer stays as it is, so that nothing is
/// transcribed of them but what the filter gives back.
pub proof fn filtered_samples_are_not_buffered<S: Copy>(samples: &[S])
    ensures
        forall|t: &mut WhisperStream<S>, routed: Routed|
            #[trigger] call_ensures(WhisperStream::<S>::on_samples, (t, samples), routed)
                && t.filtered ==> {
                &&& routed == Routed::Filter
                &&& (*final(t)).filtered
                &&& same_buffer(t.inner@, (*final(t)).inner@)
            },
        forall|t: &mut WhisperStream<S>|
            t.inner.inv() && t.filtered ==> #[trigger] call_requires(
                WhisperStream::<S>::on_samples,
                (t, samples),
            ),
{
}

/// Samples that are not to be filtered are appended to the buffer, all of them, and a pass is due
/// by the length of the window alone.
pub proof fn unfiltered_samples_are_buffered<S: Copy>(samples: &[S])
    ensures
        forall|t: &mut WhisperStream<S>, routed: Routed|
            #[trigger] call_ensures(WhisperStream::<S>::on_samples, (t, samples), routed)
                && !t.filtered ==> {
                let before = t.inner@;
                let now = (*final(t)).inner@;
                let len = before.window.len() + samples@.len();
                &&& !(*final(t)).filtered
                &&& same_settings(before, now)
                &&& now.window == before.window + samples@
                &&& now.advanced == before.advanced
                &&& now.next_infer_at == before.next_infer_at
                &&& now.no_progress_runs == before.no_progress_runs
                &&& routed == Routed::Buffered(Next::Infer) <==> {
                    &&& len > 0
                    &&& len >= before.min_window
                    &&& len >= before.next_infer_at || len >= before.max_window
                }
                &&& routed == Routed::Buffered(Next::Infer) || routed == Routed::Buffered(
                    Next::Done(Progress::NoOp),
                )
            },
        forall|t: &mut WhisperStream<S>|
            t.inner.inv() && t.inner@.advanced + t.inner@.window.len() + samples@.len()
                <= usize::MAX ==> #[trigger] call_requires(
                WhisperStream::<S>::on_samples,
                (t, samples),
            ),
{
}

/// What the filter gives is appended to the buffer, all of it, and a pass is due by the length of
/// the window alone. While the stream runs the filter is then looked at again; once it is flushed
/// it is not.
pub proof fn filter_output_is_buffered<S: Copy>(chunk: &[S], flushing: bool)
    requires
        chunk@.len() > 0,
    ensures
        forall|t: &mut WhisperStream<S>, drain: Drain|
            #[trigger] call_ensures(WhisperStream::<S>::drain, (t, Some(chunk), flushing), drain)
                ==> {
                let before = t.inner@;
                let now = (*final(t)).inner@;
                let len = before.window.len() + chunk@.len();
                &&& (*final(t)).filtered == t.filtered
                &&& same_settings(before, now)
                &&& now.window == before.window + chunk@
                &&& now.advanced == before.advanced
                &&& now.next_infer_at == before.next_infer_at
                &&& now.no_progress_runs == before.no_progress_runs
                &&& drain matches Drain::Fed { next, again } && {
                    &&& again <==> !flushing
                    &&& next == Next::Infer <==> {
                        &&& len >= before.min_window
                        &&& len >= before.next_infer_at || len >= before.max_window
                    }
                    &&& next == Next::Infer || next == Next::Done(Progress::NoOp)
                }
            },
        forall|t: &mut WhisperStream<S>|
            t.inner.inv() && t.inner@.advanced + t.inner@.window.len() + chunk@.len() <= usize::MAX
                ==> #[trigger] call_requires(
                WhisperStream::<S>::drain,
                (t, Some(chunk), flushing),
            ),
{
}

/// A filter that gives nothing, or an empty chunk, ends the look at it and changes nothing.
pub proof fn empty_filter_ends_the_look<S: Copy>(chunk: &[S], flushing: bool)
    requires
        chunk@.len() == 0,
    ensures
        forall|t: &mut WhisperStream<S>, drain: Drain|
            #[trigger] call_ensures(WhisperStream::<S>::drain, (t, None, flushing), drain) ==> {
                &&& drain == Drain::Stop
                &&& (*final(t)).filtered == t.filtered
                &&& same_buffer(t.inner@, (*final(t)).inner@)
            },
        forall|t: &mut WhisperStream<S>, drain: Drain|
            #[trigger] call_ensures(WhisperStream::<S>::drain, (t, Some(chunk), flushing), drain)
                ==> {
                &&& drain == Drain::Stop
                &&& (*final(t)).filtered == t.filtered
                &&& same_buffer(t.inner@, (*final(t)).inner@)
            },
        forall|t: &mut WhisperStream<S>|
            t.inner.inv() ==> #[trigger] call_requires(
                WhisperStream::<S>::drain,
                (t, None, flushing),
            ),
{
}

/// A reset forgets what the buffer heard, moves its place behind that, and keeps the settings and
/// the filter.
pub proof fn reset_keeps_the_filter<S>(done: ())
    ensures
        forall|t: &mut WhisperStream<S>|
            #[trigger] call_ensures(WhisperStream::<S>::reset, (t,), done) ==> {
                let now = (*final(t)).inner@;
                &&& (*final(t)).filtered == t.filtered
                &&& same_settings(t.inner@, now)
                &&& now.window.len() == 0
                &&& now.advanced == t.inner@.advanced + t.inner@.window.len()
                &&& now.next_infer_at == t.inner@.min_window
                &&& now.no_progress_runs == 0
            },
        forall|t: &mut WhisperStream<S>|
            t.inner.inv() ==> #[trigger] call_requires(WhisperStream::<S>::reset, (t,)),
{
}

/// A chunk that was received is handed on as it is, and only a channel that is disconnected is an
/// error.
pub proof fn received_chunk_is_handed_on<S>(
    received: Result<Vec<S>, RecvError>,
    r: Result<Vec<S>, Error>,
)
    requires
        call_ensures(chunk_or_disconnected::<S>, (received,), r),
    ensures
        received matches Ok(chunk) ==> (r matches Ok(handed) && handed@ == chunk@),
        received is Err ==> (r matches Err(error) && error is ChannelDisconnected),
        call_requires(chunk_or_disconnected::<S>, (received,)),
{
}

/// What the decoder's channel gives is handed on, and the source stays what it is.
pub proof fn decoder_output_is_handed_on<S, V: FilteredSamples<S>>(rx: Receiver<Vec<S>>)
    ensures
        forall|t: &mut SamplesRx<S, V>, r: Result<Vec<S>, Error>|
            #[trigger] call_ensures(SamplesRx::<S, V>::recv, (t,), r) && *t == (SamplesRx::<
                S,
                V,
            >::Plain(rx)) ==> {
                &&& *final(t) == *t
                &&& exists|received: Result<Vec<S>, RecvError>|
                    {
                        &&& #[trigger] call_ensures(receive::<S>, (&rx,), received)
                        &&& match received {
                            Ok(chunk) => r matches Ok(handed) && handed@ == chunk@,
                            Err(_) => r matches Err(error) && error is ChannelDisconnected,
                        }
                    }
            },
{
}

/// What a filtered source gives is handed on, be it a chunk or an error, and the source goes on
/// from where that left it.
pub proof fn filtered_output_is_handed_on<S, V: FilteredSamples<S>>(before: V)
    ensures
        forall|t: &mut SamplesRx<S, V>, r: Result<Vec<S>, Error>|
            #[trigger] call_ensures(SamplesRx::<S, V>::recv, (t,), r) && *t == (SamplesRx::<
                S,
                V,
            >::Vad(before)) ==> exists|filtered: &mut V|
                {
                    &&& *filtered == before
                    &&& *final(t) == SamplesRx::<S, V>::Vad(*final(filtered))
                    &&& #[trigger] call_ensures(V::recv, (filtered,), r)
                },
{
}

} // verus!
