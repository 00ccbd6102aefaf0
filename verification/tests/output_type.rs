use scribble::{parse_output_type, Error, OutputType};

#[test]
fn parse_output_type_defaults_to_vtt() -> Result<(), Error> {
    assert!(matches!(parse_output_type(None)?, OutputType::Vtt));
    Ok(())
}

#[test]
fn parse_output_type_accepts_known_values_case_insensitively() -> Result<(), Error> {
    assert!(matches!(
        parse_output_type(Some(" json "))?,
        OutputType::Json
    ));
    assert!(matches!(parse_output_type(Some("VTT"))?, OutputType::Vtt));
    Ok(())
}

#[test]
fn parse_output_type_rejects_unknown_value() {
    let err = parse_output_type(Some("nope")).unwrap_err();
    assert!(err.message().contains("unknown output type"));
}

#[test]
fn unknown_output_type_is_named_as_it_was_compared() {
    let err = parse_output_type(Some("\u{2003} SRT\t\n")).unwrap_err();
    assert_eq!(err, Error::UnknownOutputType("srt".to_string()));
    assert_eq!(err.message(), "unknown output type 'srt' (expected 'json' or 'vtt')");
    let err = parse_output_type(Some("")).unwrap_err();
    assert_eq!(err, Error::UnknownOutputType(String::new()));
    // Only ASCII letters change their case.
    let err = parse_output_type(Some("\u{c4}Z")).unwrap_err();
    assert_eq!(err, Error::UnknownOutputType("\u{c4}z".to_string()));
}

#[test]
fn every_white_space_character_is_trimmed() {
    for c in ('\0'..=char::MAX).filter(|c| c.is_whitespace()) {
        let padded = format!("{c}json{c}{c}");
        assert_eq!(parse_output_type(Some(&padded)), Ok(OutputType::Json));
    }
    let listed = ('\0'..=char::MAX).filter(|c| c.is_whitespace()).count();
    assert_eq!(listed, 25);
}

#[test]
fn white_space_within_a_name_counts() {
    assert!(parse_output_type(Some("j son")).is_err());
    assert!(parse_output_type(Some("json\0")).is_err());
}

#[test]
fn content_types_name_the_format() {
    assert_eq!(OutputType::Json.content_type(), "application/json; charset=utf-8");
    assert_eq!(OutputType::Vtt.content_type(), "text/vtt; charset=utf-8");
}
