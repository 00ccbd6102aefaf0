use std::sync::mpsc;

use scribble::samples_rx::receive;
use scribble::{Error, FilteredSamples, SamplesRx};

/// Hands out its chunks, then reports its own error.
struct Filtered(Vec<Vec<f32>>);

impl FilteredSamples<f32> for Filtered {
    fn recv(&mut self) -> Result<Vec<f32>, Error> {
        self.0.pop().ok_or(Error::Outside("filter ran dry".to_string()))
    }
}

#[test]
fn samples_rx_plain_reports_disconnect_as_error() {
    let (tx, rx) = mpsc::channel::<Vec<f32>>();
    drop(tx);
    let mut rx: SamplesRx<f32, Filtered> = SamplesRx::Plain(rx);
    let err = rx.recv().unwrap_err();
    assert!(err
        .message()
        .contains("decoder output channel disconnected"));
}

#[test]
fn plain_chunks_come_in_order_before_the_disconnect() {
    let (tx, rx) = mpsc::channel::<Vec<f32>>();
    tx.send(vec![0.5, 1.0]).unwrap();
    tx.send(vec![]).unwrap();
    drop(tx);
    let mut rx: SamplesRx<f32, Filtered> = SamplesRx::Plain(rx);
    assert_eq!(rx.recv(), Ok(vec![0.5, 1.0]));
    assert_eq!(rx.recv(), Ok(vec![]));
    assert_eq!(rx.recv(), Err(Error::ChannelDisconnected));
}

#[test]
fn filtered_chunks_and_errors_are_handed_on() {
    let mut rx: SamplesRx<f32, Filtered> = SamplesRx::Vad(Filtered(vec![vec![2.0]]));
    assert_eq!(rx.recv(), Ok(vec![2.0]));
    assert_eq!(
        rx.recv(),
        Err(Error::Outside("filter ran dry".to_string()))
    );
}

#[test]
fn chunks_are_received_as_they_were_sent() {
    let (tx, rx) = mpsc::channel::<Vec<f32>>();
    tx.send(vec![0.25, -1.0]).unwrap();
    drop(tx);
    assert_eq!(receive(&rx), Ok(vec![0.25, -1.0]));
    assert!(receive(&rx).is_err());
}
