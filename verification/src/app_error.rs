//! The answers to requests that are refused.
use vstd::prelude::*;

verus! {

/// The status of the answer to a request that is refused.
#[derive(Debug, Clone, Copy, PartialEq, Eq, Structural)]
pub enum Status {
    /// The request itself is faulty.
    BadRequest,
    /// What the request carries is not media that can be transcribed.
    UnsupportedMediaType,
}

impl Status {
    /// The number of the status in HTTP.
    pub fn code(&self) -> (r: u16)
        ensures
            r == match self {
                Status::BadRequest => 400u16,
                Status::UnsupportedMediaType => 415u16,
            },
    {
        match self {
            Status::BadRequest => 400,
            Status::UnsupportedMediaType => 415,
        }
    }
}

/// The answer to a request that is refused.
#[derive(Debug, PartialEq, Eq)]
pub struct AppError {
    /// The status of the answer.
    pub status: Status,
    /// What the client is told.
    pub message: String,
}

/// An [`AppError`] whose strings are sequences of characters.
pub struct AppErrorView {
    pub status: Status,
    pub message: Seq<char>,
}

impl View for AppError {
    type V = AppErrorView;

    open spec fn view(&self) -> AppErrorView {
        AppErrorView { status: self.status, message: self.message@ }
    }
}

impl AppError {
    /// Refuses a faulty request.
    pub fn bad_request(message: String) -> (r: Self)
        ensures
            r@ == (AppErrorView { status: Status::BadRequest, message: message@ }),
    {
        AppError { status: Status::BadRequest, message }
    }

    /// Refuses media that cannot be transcribed.
    pub fn unsupported_media(message: String) -> (r: Self)
        ensures
            r@ == (AppErrorView { status: Status::UnsupportedMediaType, message: message@ }),
    {
        AppError { status: Status::UnsupportedMediaType, message }
    }
}

} // verus!
