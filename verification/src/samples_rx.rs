//! A receiver of decoded samples.
//!
//! It keeps the transcription loop simple: pull a chunk of samples, hand it to the backend,
//! repeat until the input ends. A source that filters by voice activity is received from in
//! the same way as the decoder itself.
use std::sync::mpsc::{Receiver, RecvError};
use vstd::prelude::*;

use crate::error::{Error, ErrorView};

verus! {

/// `std::sync::mpsc::Receiver`, the receiving end of a channel.
#[verifier::external_type_specification]
#[verifier::external_body]
#[verifier::reject_recursive_types(T)]
pub struct ExReceiver<T>(Receiver<T>);

/// `std::sync::mpsc::RecvError`, the one reason why nothing was received: the channel is
/// disconnected.
#[verifier::external_type_specification]
#[verifier::external_body]
pub struct ExRecvError(RecvError);

/// `Receiver::recv`: waits for the next chunk. Which one comes, and whether one does, is up to
/// whoever sends, so nothing is said of the result.
#[verifier::external_body]
fn channel_recv<S>(rx: &Receiver<Vec<S>>) -> (r: Result<Vec<S>, RecvError>) {
    rx.recv()
}

/// A source of chunks of samples that were filtered by voice activity.
pub trait FilteredSamples<S> {
    /// Waits for the next chunk of samples.
    fn recv(&mut self) -> Result<Vec<S>, Error>;
}

/// A source of chunks of samples.
#[verifier::reject_recursive_types(S)]
pub enum SamplesRx<S, V> {
    /// The output channel of the decoder.
    Plain(Receiver<Vec<S>>),
    /// The same, filtered by voice activity.
    Vad(V),
}

/// Waits for the next chunk of the decoder's output. Which one comes, and whether one does, is up
/// to the decoder.
pub fn receive<S>(rx: &Receiver<Vec<S>>) -> (r: Result<Vec<S>, RecvError>) {
    channel_recv(rx)
}

/// `r` is what comes of having received that: the chunk, or an error where the channel was
/// disconnected.
pub open spec fn is_handed_on<S>(
    received: Result<Vec<S>, RecvError>,
    r: Result<Vec<S>, Error>,
) -> bool {
    match received {
        Ok(chunk) => r == Ok::<Vec<S>, Error>(chunk),
        Err(_) => r matches Err(error) && error@ == ErrorView::ChannelDisconnected,
    }
}

/// What is received is handed on; a disconnected channel is an error.
pub fn chunk_or_disconnected<S>(received: Result<Vec<S>, RecvError>) -> (r: Result<Vec<S>, Error>)
    ensures
        is_handed_on(received, r),
{
    match received {
        Ok(chunk) => Ok(chunk),
        Err(_) => Err(Error::ChannelDisconnected),
    }
}

impl<S, V: FilteredSamples<S>> SamplesRx<S, V> {
    /// Waits for the next chunk of samples. The end of the input is an error, not a value.
    pub fn recv(&mut self) -> (r: Result<Vec<S>, Error>)
        ensures
            match *old(self) {
                SamplesRx::Plain(rx) => {
                    &&& *final(self) == *old(self)
                    &&& exists|received: Result<Vec<S>, RecvError>|
                        {
                            &&& #[trigger] call_ensures(receive::<S>, (&rx,), received)
                            &&& is_handed_on(received, r)
                        }
                },
                SamplesRx::Vad(before) => exists|filtered: &mut V|
                    {
                        &&& *filtered == before
                        &&& *final(self) == SamplesRx::<S, V>::Vad(*final(filtered))
                        &&& #[trigger] call_ensures(V::recv, (filtered,), r)
                    },
            },
    {
        match self {
            SamplesRx::Plain(rx) => chunk_or_disconnected(receive(rx)),
            SamplesRx::Vad(filtered) => filtered.recv(),
        }
    }
}

} // verus!
