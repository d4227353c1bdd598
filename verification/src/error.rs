//! What can go wrong while talking to the sound server.

use vstd::prelude::*;

verus! {

/// `std::io::Error`, carried through unopened.
#[verifier::external_type_specification]
#[verifier::external_body]
pub struct ExIoError(std::io::Error);

/// `std::string::FromUtf8Error`, carried through unopened.
#[verifier::external_type_specification]
#[verifier::external_body]
pub struct ExFromUtf8Error(std::string::FromUtf8Error);

/// Why an operation on the sound server failed.
#[derive(Debug)]
pub enum AudioError {
    /// `pactl info` could not be run or did not succeed.
    BackendUnavailable,
    /// A `pactl` command failed; its error output.
    CommandFailed(String),
    /// A `pactl` command printed text that is not UTF-8.
    Utf8(std::string::FromUtf8Error),
    /// A `pactl` command could not be started.
    Io(std::io::Error),
    /// Fewer than two sinks are available to combine.
    NotEnoughSinks,
    /// No module of ours was found to unload.
    CombinedNotFound,
}

/// The text that describes an error to the user.
pub open spec fn error_text(e: AudioError) -> Seq<char> {
    match e {
        AudioError::BackendUnavailable => "pactl / PulseAudio/PipeWire backend not available"@,
        AudioError::CommandFailed(detail) => "command failed: "@ + detail@,
        AudioError::Utf8(_) => "UTF-8 error"@,
        AudioError::Io(_) => "IO error"@,
        AudioError::NotEnoughSinks => "not enough sinks to create a combined sink"@,
        AudioError::CombinedNotFound => "combined sink not found"@,
    }
}

impl AudioError {
    /// The text that describes this error to the user.
    pub fn message(&self) -> (m: String)
        ensures
            m@ == error_text(*self),
    {
        match self {
            AudioError::BackendUnavailable => String::from_str(
                "pactl / PulseAudio/PipeWire backend not available",
            ),
            AudioError::CommandFailed(detail) => String::from_str("command failed: ").concat(
                detail.as_str(),
            ),
            AudioError::Utf8(_) => String::from_str("UTF-8 error"),
            AudioError::Io(_) => String::from_str("IO error"),
            AudioError::NotEnoughSinks => String::from_str(
                "not enough sinks to create a combined sink",
            ),
            AudioError::CombinedNotFound => String::from_str("combined sink not found"),
        }
    }
}

} // verus!
