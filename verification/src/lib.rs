//! `scribble`: the decisions of a streaming transcriber, verified.
//!
//! A transcriber decodes media to mono samples, runs a speech recognition model on a growing
//! window of them, and writes the segments that the model returns. This library holds what is
//! decided on the way: when a window is worth an inference pass, which segments are final and
//! how far the window then advances, how models are named, loaded and selected, what is looked
//! at of a request before it is served and how it is refused. Reading, inference and writing
//! are the caller's: they hand in plain values and get plain values back.
//!
//! Every function states in its contract what it returns or changes, over the mathematical
//! model of its type; [`laws`] holds what follows for the library as a whole.
pub mod app_error;
pub mod audio;
pub mod backend;
pub mod cli;
pub mod container;
pub mod error;
pub mod incremental;
pub mod laws;
pub mod media;
pub mod opts;
pub mod output_type;
pub mod prefix;
pub mod samples_rx;
pub mod server;
pub mod stream;
pub mod text;
pub mod whisper;

pub use crate::app_error::{AppError, Status};
pub use crate::audio::TARGET_SAMPLE_RATE;
pub use crate::backend::{Backend, BackendStream};
pub use crate::cli::{input_at, input_not_opened, Input, Params};
pub use crate::container::can_be_probed;
pub use crate::error::Error;
pub use crate::incremental::{
    next_infer_threshold, segment_end_samples, BufferedSegmentTranscriber, Next, Progress,
};
pub use crate::media::{
    pick_default_track, probe_source_and_pick_default_track, validate_media_prefix, Track,
};
pub use crate::opts::Opts;
pub use crate::output_type::{parse_output_type, OutputType};
pub use crate::prefix::{Prefix, PrefixProbe, MAX_PROBE_BYTES};
pub use crate::samples_rx::{FilteredSamples, SamplesRx};
pub use crate::server::{models, transcribe, ModelsResponse, TranscribeQuery};
pub use crate::stream::{Drain, Routed, WhisperStream};
pub use crate::text::FileName;
pub use crate::whisper::{PathStatus, WhisperBackend};
