use scribble::server::{answer_request, query_opts};
use scribble::{
    models, transcribe, AppError, Error, OutputType, PathStatus, Status, Track, TranscribeQuery,
    WhisperBackend,
};

fn query(output: Option<&str>) -> TranscribeQuery {
    TranscribeQuery {
        output: output.map(|o| o.to_string()),
        model_key: None,
        enable_vad: None,
        translate_to_english: None,
        language: None,
    }
}

fn audio() -> Result<Track, Error> {
    Ok(Track { id: 1, codec: "0x108".to_string(), sample_rate: Some(16_000) })
}

#[test]
fn query_without_anything_gets_the_defaults() {
    let opts = query_opts(query(None)).unwrap();
    assert_eq!(opts.model_key, None);
    assert!(!opts.enable_translate_to_english);
    assert!(!opts.enable_voice_activity_detection);
    assert_eq!(opts.language, None);
    assert_eq!(opts.output_type, OutputType::Vtt);
    assert_eq!(opts.incremental_min_window_seconds, 1);
    assert!(!opts.emit_single_segments);
}

#[test]
fn query_is_mapped_field_by_field() {
    let opts = query_opts(TranscribeQuery {
        output: Some("JSON".to_string()),
        model_key: Some("large.bin".to_string()),
        enable_vad: Some(true),
        translate_to_english: Some(false),
        language: Some("es".to_string()),
    })
    .unwrap();
    assert_eq!(opts.model_key.as_deref(), Some("large.bin"));
    assert!(!opts.enable_translate_to_english);
    assert!(opts.enable_voice_activity_detection);
    assert_eq!(opts.language.as_deref(), Some("es"));
    assert_eq!(opts.output_type, OutputType::Json);
}

#[test]
fn unknown_output_type_is_a_bad_request() {
    let err = query_opts(query(Some("srt"))).unwrap_err();
    assert_eq!(err.status, Status::BadRequest);
    assert_eq!(err.status.code(), 400);
    assert_eq!(err.message, "unknown output type 'srt' (expected 'json' or 'vtt')");
}

#[test]
fn media_is_refused_before_the_query() {
    let err = answer_request(Err(Error::ProbeFailed), query(Some("srt"))).unwrap_err();
    assert_eq!(err.status, Status::UnsupportedMediaType);
    let err = answer_request(audio(), query(Some("srt"))).unwrap_err();
    assert_eq!(err.status, Status::BadRequest);
    assert!(answer_request(audio(), query(None)).is_ok());
}

#[test]
fn request_with_other_bytes_than_media_is_unsupported() {
    let err = transcribe(b"plain text, and not very long", query(None)).unwrap_err();
    assert_eq!(err.status, Status::UnsupportedMediaType);
}

#[test]
fn request_that_cannot_be_probed_is_unsupported() {
    // A WAVE file without a sample rate.
    let mut bytes = b"RIFF\x2C\0\0\0WAVEfmt \x10\0\0\0\x01\0\x01\0".to_vec();
    bytes.extend_from_slice(&[0, 0, 0, 0, 0, 0, 0, 0, 2, 0, 16, 0]);
    bytes.extend_from_slice(b"data\x08\0\0\0\0\0\0\0\0\0\0\0");
    let err = transcribe(&bytes, query(Some("srt"))).unwrap_err();
    assert_eq!(err.status, Status::UnsupportedMediaType);
    bytes[24] = 1;
    let err = transcribe(&bytes, query(Some("srt"))).unwrap_err();
    assert_eq!(err.status, Status::BadRequest);
    assert!(transcribe(&bytes, query(None)).is_ok());
}

#[test]
fn refusals_carry_their_message() {
    let err = AppError::bad_request("why".to_string());
    assert_eq!((err.status, err.message.as_str()), (Status::BadRequest, "why"));
    let err = AppError::unsupported_media("why not".to_string());
    assert_eq!(
        (err.status, err.message.as_str()),
        (Status::UnsupportedMediaType, "why not")
    );
}

#[test]
fn models_are_listed() {
    let paths = vec!["m/small.bin".to_string(), "m/base.bin".to_string()];
    let backend = WhisperBackend::new(&paths, "vad.bin", PathStatus::File, |_: &String| Ok(()))
        .ok()
        .unwrap();
    let listed = models(&backend);
    assert_eq!(listed.default_model_key, "small.bin");
    assert_eq!(listed.model_keys, vec!["base.bin", "small.bin"]);
    assert_eq!(listed.vad_model_path, "vad.bin");
}
