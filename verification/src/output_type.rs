//! Output formats, and the names by which requests ask for them.
use vstd::prelude::*;
use vstd::string::*;

use crate::error::{Error, ErrorView};
use crate::text::{ascii_lowercase, same_text, to_ascii_lowercase, trim, trimmed};

verus! {

/// Format in which transcription segments are written.
#[derive(Debug, Clone, Copy, PartialEq, Eq, Structural)]
pub enum OutputType {
    /// A JSON array of segments.
    Json,
    /// A WebVTT document.
    Vtt,
}

impl OutputType {
    /// The name by which a request asks for the format.
    pub open spec fn name(self) -> Seq<char> {
        match self {
            OutputType::Json => "json"@,
            OutputType::Vtt => "vtt"@,
        }
    }

    /// The media type in which a response announces the format.
    pub open spec fn media_type(self) -> Seq<char> {
        match self {
            OutputType::Json => "application/json; charset=utf-8"@,
            OutputType::Vtt => "text/vtt; charset=utf-8"@,
        }
    }

    /// The value of the `Content-Type` header of a response in this format.
    pub fn content_type(&self) -> (r: &'static str)
        ensures
            r@ == self.media_type(),
    {
        match self {
            OutputType::Json => "application/json; charset=utf-8",
            OutputType::Vtt => "text/vtt; charset=utf-8",
        }
    }
}

/// A requested name as it is compared: without the white space around it, in lower case.
pub open spec fn normalized(raw: Seq<char>) -> Seq<char> {
    ascii_lowercase(trimmed(raw))
}

/// The format that is asked for: WebVTT where nothing is, otherwise the one of that name, if
/// there is one.
pub open spec fn requested_output_type(output: Option<Seq<char>>) -> Result<OutputType, ErrorView> {
    match output {
        None => Ok(OutputType::Vtt),
        Some(raw) => if normalized(raw) == OutputType::Json.name() {
            Ok(OutputType::Json)
        } else if normalized(raw) == OutputType::Vtt.name() {
            Ok(OutputType::Vtt)
        } else {
            Err(ErrorView::UnknownOutputType(normalized(raw)))
        },
    }
}

/// Reads the output format that a request asks for.
pub fn parse_output_type(output: Option<&str>) -> (r: Result<OutputType, Error>)
    ensures
        ({
            let asked = match output {
                None => None,
                Some(raw) => Some(raw@),
            };
            match r {
                Ok(output_type) => requested_output_type(asked) == Ok::<OutputType, ErrorView>(
                    output_type,
                ),
                Err(error) => requested_output_type(asked) == Err::<OutputType, ErrorView>(error@),
            }
        }),
{
    match output {
        None => Ok(OutputType::Vtt),
        Some(raw) => {
            let name = to_ascii_lowercase(trim(raw));
            if same_text(name.as_str(), "json") {
                Ok(OutputType::Json)
            } else if same_text(name.as_str(), "vtt") {
                proof {
                    reveal_strlit("json");
                    reveal_strlit("vtt");
                }
                Ok(OutputType::Vtt)
            } else {
                Err(Error::UnknownOutputType(name))
            }
        },
    }
}

} // verus!
