use scribble::media::check_media;
use scribble::{
    pick_default_track, probe_source_and_pick_default_track, validate_media_prefix, Error, Status,
    Track,
};

/// A WAV file with one channel of 16-bit samples.
fn wav(sample_rate: u32, samples: &[i16]) -> Vec<u8> {
    let data: Vec<u8> = samples.iter().flat_map(|s| s.to_le_bytes()).collect();
    let mut out = Vec::new();
    out.extend_from_slice(b"RIFF");
    out.extend_from_slice(&(36 + data.len() as u32).to_le_bytes());
    out.extend_from_slice(b"WAVEfmt ");
    out.extend_from_slice(&16u32.to_le_bytes());
    out.extend_from_slice(&1u16.to_le_bytes());
    out.extend_from_slice(&1u16.to_le_bytes());
    out.extend_from_slice(&sample_rate.to_le_bytes());
    out.extend_from_slice(&(sample_rate * 2).to_le_bytes());
    out.extend_from_slice(&2u16.to_le_bytes());
    out.extend_from_slice(&16u16.to_le_bytes());
    out.extend_from_slice(b"data");
    out.extend_from_slice(&(data.len() as u32).to_le_bytes());
    out.extend_from_slice(&data);
    out
}

fn track(id: u32, codec: &str, sample_rate: Option<u32>) -> Track {
    Track { id, codec: codec.to_string(), sample_rate }
}

#[test]
fn wav_is_recognised() {
    let bytes = wav(16_000, &[0, 1, -1, 2]);
    assert_eq!(validate_media_prefix(&bytes), Ok(()));
    assert_eq!(
        probe_source_and_pick_default_track(&bytes, None),
        Ok(track(0, "0x108", Some(16_000)))
    );
    assert_eq!(
        probe_source_and_pick_default_track(&wav(44_100, &[0]), Some("wav")),
        Ok(track(0, "0x108", Some(44_100)))
    );
}

#[test]
fn wav_is_recognised_by_its_first_bytes() {
    let bytes = wav(16_000, &[7; 4_000]);
    assert_eq!(validate_media_prefix(&bytes[..1_000]), Ok(()));
}

#[test]
fn bytes_that_are_no_media_are_unsupported() {
    let err = validate_media_prefix(b"this is not a media file").unwrap_err();
    assert_eq!(err.status, Status::UnsupportedMediaType);
    assert_eq!(err.status.code(), 415);
    assert_eq!(
        err.message,
        "unsupported or unrecognized media container: failed to probe media stream"
    );
    assert_eq!(
        probe_source_and_pick_default_track(b"", None),
        Err(Error::ProbeFailed)
    );
}

#[test]
fn first_track_with_codec_and_sample_rate_is_picked() {
    let tracks = vec![
        track(1, "0x0", Some(48_000)),
        track(2, "0x108", None),
        track(3, "0x1003", Some(44_100)),
        track(4, "0x108", Some(16_000)),
    ];
    assert_eq!(pick_default_track(tracks), Ok(track(3, "0x1003", Some(44_100))));
}

#[test]
fn container_without_audio_is_unsupported() {
    assert_eq!(pick_default_track(vec![]), Err(Error::NoAudioTrack));
    let picked = pick_default_track(vec![track(1, "0x0", Some(8_000)), track(2, "0x1", None)]);
    assert_eq!(picked, Err(Error::NoAudioTrack));
    let err = check_media(picked).unwrap_err();
    assert_eq!(err.status, Status::UnsupportedMediaType);
    assert_eq!(
        err.message,
        "unsupported or unrecognized media container: no audio track found"
    );
}
