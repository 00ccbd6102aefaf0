use scribble::{input_at, input_not_opened, Input, OutputType, Params};

fn params() -> Params {
    Params {
        model_path: "model.bin".to_string(),
        vad_model_path: "vad.bin".to_string(),
        input: "-".to_string(),
        output_type: OutputType::Json,
        enable_voice_activity_detection: true,
        enable_translation_to_english: false,
        language: Some("en".to_string()),
    }
}

#[test]
fn parameters_are_mapped_to_options() {
    let opts = params().opts();
    assert_eq!(opts.model_key, None);
    assert!(!opts.enable_translate_to_english);
    assert!(opts.enable_voice_activity_detection);
    assert_eq!(opts.language.as_deref(), Some("en"));
    assert_eq!(opts.output_type, OutputType::Json);
    assert_eq!(opts.incremental_min_window_seconds, 1);
    assert!(!opts.emit_single_segments);
}

#[test]
fn dash_is_the_standard_input() {
    assert_eq!(input_at("-"), Input::Stdin);
    assert_eq!(input_at("--"), Input::File);
    assert_eq!(input_at("./-"), Input::File);
    assert_eq!(input_at(""), Input::File);
}

#[test]
fn input_that_cannot_be_opened_is_named() {
    let err = input_not_opened("definitely-not-a-real-file");
    assert_eq!(err.message(), "failed to open input file: definitely-not-a-real-file");
}
