# scribble

The decisions of a streaming transcriber, written in Rust and verified with Verus.

A transcriber decodes media to mono samples, runs a speech recognition model on a growing window
of them, and writes the segments that the model returns, as JSON or WebVTT. The library in `src/`
holds what is decided on the way:

- `incremental`: when a window of samples is worth an inference pass, which of the returned
  segments are final, and how far the window then advances;
- `stream`: the voice activity filter in front of that window;
- `whisper`: how models are named, loaded, listed and selected;
- `prefix`, `media`, `output_type`, `server`, `app_error`: what is looked at of a request before it
  is served, and how it is refused;
- `container`: on which bytes the recognition of a media container comes to an end;
- `cli`: the options of the command line tool;
- `backend`, `samples_rx`, `opts`, `error`, `text`: the interfaces, options, errors and strings that
  the others share;
- `laws`: what holds of the library as a whole.

Samples and loaded models are never looked into, so their types are parameters of the library.

What the proofs rest on besides Verus is marked `external_body` in `text`, `media`, `samples_rx` and
`backend`: calls of the standard library and of symphonia, each with a comment that says what is
claimed of it.

`app/` holds the two programs around the library: reading, decoding, inference, encoding and HTTP.
`tests/` runs the library on concrete values.
