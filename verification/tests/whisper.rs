use scribble::text::file_name;
use scribble::whisper::{admission_key, check_vad_path, model_key, NamedModel};
use scribble::{Error, FileName, Opts, OutputType, PathStatus, WhisperBackend};

type Backend = WhisperBackend<String>;

fn opts(model_key: Option<&str>) -> Opts {
    Opts {
        model_key: model_key.map(|k| k.to_string()),
        enable_translate_to_english: false,
        enable_voice_activity_detection: true,
        language: None,
        output_type: OutputType::Json,
        incremental_min_window_seconds: 1,
        emit_single_segments: false,
    }
}

fn paths(paths: &[&str]) -> Vec<String> {
    paths.iter().map(|p| p.to_string()).collect()
}

fn backend(model_paths: &[&str]) -> Result<Backend, Error> {
    WhisperBackend::new(&paths(model_paths), "vad.bin", PathStatus::File, |path: &String| {
        if path.contains("broken") {
            Err(format!("cannot load {path}"))
        } else {
            Ok(format!("model at {path}"))
        }
    })
}

fn key(path: &str) -> Result<String, Error> {
    Backend::model_key_from_path(path)
}

#[test]
fn key_is_its_own_key() {
    for path in ["/models/a:b.bin", "models/ggml-tiny.bin", "./x/large/", "x/...", "m/a\\b.bin"] {
        let k = key(path).unwrap();
        assert!(!k.is_empty() && !k.contains('/'));
        assert_eq!(key(&k), Ok(k.clone()));
        assert_eq!(key(&format!("/other/{k}")), Ok(k));
    }
    assert_eq!(key("/models/a:b.bin"), Ok("a:b.bin".to_string()));
}

#[test]
fn key_is_decided_by_the_file_name_of_the_path() {
    let paths =
        ["models/a.bin", "models/..", "", "/", "x/ /", "a\\b.bin", "c:x", "\\\\host\\share", "x/."];
    for path in paths {
        let named = match file_name(path) {
            FileName::Name(name) => Some(name),
            _ => None,
        };
        match key(path) {
            Ok(k) => assert_eq!(Some(k), named),
            Err(Error::ModelPathWithoutFileName(_)) => assert_eq!(named, None),
            Err(_) => assert!(named.unwrap().trim().is_empty()),
        }
    }
    assert!(matches!(file_name("models/a.bin"), FileName::Name(name) if name == "a.bin"));
    assert!(matches!(file_name("models/.."), FileName::Missing));
}

#[test]
fn key_is_the_file_name_of_the_path() {
    assert_eq!(key("ggml-tiny.bin"), Ok("ggml-tiny.bin".to_string()));
    assert_eq!(key("./models/ggml-tiny.bin"), Ok("ggml-tiny.bin".to_string()));
    assert_eq!(key("/models/ggml-tiny.bin"), Ok("ggml-tiny.bin".to_string()));
    assert_eq!(key("models/large/"), Ok("large".to_string()));
    assert_eq!(key("models/large/.//./"), Ok("large".to_string()));
    assert_eq!(key("models/.."), Err(Error::ModelPathWithoutFileName("models/..".to_string())));
    assert_eq!(key("models/..."), Ok("...".to_string()));
    assert_eq!(key("models/a."), Ok("a.".to_string()));
    assert_eq!(key("models/ x "), Ok(" x ".to_string()));
}

#[test]
fn path_without_a_name_has_no_key() {
    for path in ["", "/", ".", "..", "./", "./.", "/.", "a/..", "/.."] {
        let err = key(path).unwrap_err();
        assert_eq!(err, Error::ModelPathWithoutFileName(path.to_string()));
        assert_eq!(
            err.message(),
            format!("model path '{path}' does not have a filename")
        );
    }
}

#[test]
fn blank_file_name_is_no_key() {
    let err = key("models/ \t").unwrap_err();
    assert_eq!(err, Error::ModelFileNameEmpty("models/ \t".to_string()));
    assert_eq!(err.message(), "model filename for path 'models/ \t' is empty");
}

#[test]
fn file_name_that_is_not_unicode_is_no_key() {
    let err = model_key("m", FileName::NotUnicode).unwrap_err();
    assert_eq!(err, Error::ModelFileNameNotUnicode("m".to_string()));
    assert_eq!(err.message(), "model filename for path 'm' is not valid UTF-8");
    assert_eq!(
        model_key("m", FileName::Missing),
        Err(Error::ModelPathWithoutFileName("m".to_string()))
    );
    assert_eq!(model_key("m", FileName::Name("n".to_string())), Ok("n".to_string()));
}

#[test]
fn keys_that_are_taken_are_not_admitted() {
    let models = vec![NamedModel { key: "a".to_string(), context: 1 }];
    let name = |n: &str| FileName::Name(n.to_string());
    assert_eq!(admission_key(&models, "x/b", name("b")), Ok("b".to_string()));
    assert_eq!(
        admission_key(&models, "x/a", name("a")),
        Err(Error::DuplicateModelKey("a".to_string(), "x/a".to_string()))
    );
    assert_eq!(admission_key(&models, " ", name("b")), Err(Error::ModelPathMissing));
}

#[test]
fn vad_path_must_name_a_file() {
    assert_eq!(check_vad_path("vad.bin", PathStatus::File), Ok(()));
    let err = check_vad_path(" \n", PathStatus::File).unwrap_err();
    assert_eq!(err, Error::VadModelPathMissing);
    assert_eq!(err.message(), "VAD model path must be provided");
    let err = check_vad_path("vad.bin", PathStatus::Absent).unwrap_err();
    assert_eq!(err, Error::VadModelNotFound("vad.bin".to_string()));
    assert_eq!(err.message(), "VAD model not found at 'vad.bin'");
    let err = check_vad_path("dir", PathStatus::NotAFile).unwrap_err();
    assert_eq!(err, Error::VadModelNotAFile("dir".to_string()));
    assert_eq!(err.message(), "VAD model path is not a file: 'dir'");
}

#[test]
fn backend_without_a_vad_model_loads_nothing() {
    let loaded = WhisperBackend::new(
        &paths(&["a.bin"]),
        "vad.bin",
        PathStatus::Absent,
        |_: &String| -> Result<u8, String> { panic!("loaded a model") },
    );
    assert_eq!(loaded.err(), Some(Error::VadModelNotFound("vad.bin".to_string())));
}

#[test]
fn first_model_is_the_default() {
    let b = backend(&["m/small.bin", "m/base.bin", "m/large.bin"]).ok().unwrap();
    assert_eq!(b.default_model_key(), "small.bin");
    assert_eq!(b.context(), "model at m/small.bin");
    assert_eq!(b.vad_model_path(), "vad.bin");
    assert_eq!(b.selected_model_key(&opts(None)), Ok("small.bin"));
    assert_eq!(b.selected_context(&opts(None)).unwrap(), "model at m/small.bin");
}

#[test]
fn keys_are_listed_in_ascending_order() {
    let b = backend(&["small.bin", "base.bin", "large.bin", "Base.bin", "\u{e9}"]).ok().unwrap();
    assert_eq!(b.model_keys(), vec!["Base.bin", "base.bin", "large.bin", "small.bin", "\u{e9}"]);
    assert_eq!(
        b.available_model_keys(),
        "Base.bin, base.bin, large.bin, small.bin, \u{e9}"
    );
    let b = backend(&["only.bin"]).ok().unwrap();
    assert_eq!(b.model_keys(), vec!["only.bin"]);
    assert_eq!(b.available_model_keys(), "only.bin");
}

#[test]
fn every_listed_key_selects_its_own_model() {
    let b = backend(&["x/small.bin", "y/base.bin", "z/large.bin"]).ok().unwrap();
    for (key, path) in [
        ("small.bin", "x/small.bin"),
        ("base.bin", "y/base.bin"),
        ("large.bin", "z/large.bin"),
    ] {
        assert!(b.model_keys().contains(&key.to_string()));
        assert_eq!(b.selected_model_key(&opts(Some(key))), Ok(key));
        assert_eq!(
            b.selected_context(&opts(Some(key))).unwrap(),
            &format!("model at {path}")
        );
    }
}

#[test]
fn unknown_key_is_refused_with_the_list_of_keys() {
    let b = backend(&["small.bin", "base.bin"]).ok().unwrap();
    let err = b.selected_context(&opts(Some("tiny.bin"))).unwrap_err();
    assert_eq!(
        err.message(),
        "unknown model key 'tiny.bin' (available: base.bin, small.bin)"
    );
    assert_eq!(b.selected_model_key(&opts(Some("tiny.bin"))), Err(err));
}

#[test]
fn duplicate_file_names_are_refused() {
    let err = backend(&["a/m.bin", "b/n.bin", "c/m.bin"]).err().unwrap();
    assert_eq!(
        err,
        Error::DuplicateModelKey("m.bin".to_string(), "c/m.bin".to_string())
    );
    assert_eq!(err.message(), "duplicate model key 'm.bin' derived from path 'c/m.bin'");
}

#[test]
fn blank_model_path_is_refused() {
    let err = backend(&["a.bin", "  "]).err().unwrap();
    assert_eq!(err, Error::ModelPathMissing);
    assert_eq!(err.message(), "model path must be provided");
}

#[test]
fn backend_without_models_is_refused() {
    let err = backend(&[]).err().unwrap();
    assert_eq!(err, Error::NoModels);
    assert_eq!(err.message(), "at least one whisper model must be provided");
}

#[test]
fn loading_stops_at_the_first_error() {
    let err = backend(&["a.bin", "broken.bin", "a.bin"]).err().unwrap();
    assert_eq!(err, Error::Outside("cannot load broken.bin".to_string()));
    assert_eq!(err.message(), "cannot load broken.bin");
    let err = backend(&["a.bin", "x/a.bin", "broken.bin"]).err().unwrap();
    assert_eq!(err, Error::DuplicateModelKey("a.bin".to_string(), "x/a.bin".to_string()));
}

#[test]
fn nothing_is_transcribed_without_samples() {
    let b = backend(&["a.bin"]).ok().unwrap();
    let none: [f32; 0] = [];
    assert_eq!(b.transcribe_full(&opts(Some("unknown")), &none), Ok(None));
    assert_eq!(
        b.transcribe_full(&opts(None), &[0.5f32]).unwrap().unwrap(),
        "model at a.bin"
    );
    assert!(b.transcribe_full(&opts(Some("unknown")), &[0.5f32]).is_err());
}

#[test]
fn streams_start_empty_with_the_selected_model() {
    let b = backend(&["a.bin", "b.bin"]).ok().unwrap();
    let selected = opts(Some("b.bin"));
    let (context, stream) = b.create_stream::<f32>(&selected).ok().unwrap();
    assert_eq!(context, "model at b.bin");
    assert!(stream.filtered);
    assert_eq!(stream.inner.window_len(), 0);
    let err = b.create_stream::<f32>(&opts(Some("c.bin"))).err().unwrap();
    assert_eq!(err.message(), "unknown model key 'c.bin' (available: a.bin, b.bin)");
}
