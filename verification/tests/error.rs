use scribble::Error;

#[test]
fn numbers_in_messages_are_decimal() {
    let negative = |cs| Error::NegativeEndTimestamp(cs).message();
    assert_eq!(negative(-1), "whisper returned negative end timestamp: -1");
    assert_eq!(negative(i64::MIN), format!("whisper returned negative end timestamp: {}", i64::MIN));
    assert_eq!(negative(-1_234_567_890), "whisper returned negative end timestamp: -1234567890");
    let missing = |i| Error::MissingSegment(i).message();
    assert_eq!(missing(0), "whisper segment 0 was missing");
    assert_eq!(missing(10), "whisper segment 10 was missing");
    assert_eq!(missing(usize::MAX), format!("whisper segment {} was missing", usize::MAX));
}

#[test]
fn fixed_messages() {
    assert_eq!(
        Error::EndTimestampTooLarge.message(),
        "whisper end timestamp did not fit in usize"
    );
    assert_eq!(
        Error::ChannelDisconnected.message(),
        "decoder output channel disconnected"
    );
    assert_eq!(Error::ProbeFailed.message(), "failed to probe media stream");
    assert_eq!(Error::NoAudioTrack.message(), "no audio track found");
}
