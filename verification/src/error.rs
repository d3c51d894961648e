//! The failures that the collector reports to its caller.

use vstd::prelude::*;
use vstd::string::StringExecFns;

verus! {

/// A failure of a collection request. Each variant carries the text of its
/// cause.
#[derive(Debug, Clone, PartialEq, Eq)]
pub enum GitMetricsError {
    /// A file or directory operation on the cache failed.
    IoError(String),
    /// The cache payload could not be encoded.
    SerializationError(String),
    /// The tool ran and exited with a failure; carries what it wrote to its
    /// error stream.
    CommandError(String),
    /// Anything else: a tool that could not be started, a malformed record,
    /// a cache file dated in the future.
    Other(String),
}

/// What a `GitMetricsError` holds, as mathematical values.
pub enum ErrorView {
    IoError(Seq<char>),
    SerializationError(Seq<char>),
    CommandError(Seq<char>),
    Other(Seq<char>),
}

impl View for GitMetricsError {
    type V = ErrorView;

    open spec fn view(&self) -> ErrorView {
        match self {
            GitMetricsError::IoError(cause) => ErrorView::IoError(cause@),
            GitMetricsError::SerializationError(cause) => ErrorView::SerializationError(cause@),
            GitMetricsError::CommandError(cause) => ErrorView::CommandError(cause@),
            GitMetricsError::Other(cause) => ErrorView::Other(cause@),
        }
    }
}

impl ErrorView {
    /// The human-readable message: the cause behind a prefix that names the
    /// kind of failure.
    pub open spec fn message(self) -> Seq<char> {
        match self {
            ErrorView::IoError(cause) => "IO error: "@ + cause,
            ErrorView::SerializationError(cause) => "Serialization error: "@ + cause,
            ErrorView::CommandError(cause) => "Command error: "@ + cause,
            ErrorView::Other(cause) => cause,
        }
    }
}

impl GitMetricsError {
    /// The human-readable message of the failure.
    pub fn message(&self) -> (r: String)
        ensures
            r@ == self@.message(),
    {
        match self {
            GitMetricsError::IoError(cause) => String::from_str("IO error: ").concat(
                cause.as_str(),
            ),
            GitMetricsError::SerializationError(cause) => String::from_str(
                "Serialization error: ",
            ).concat(cause.as_str()),
            GitMetricsError::CommandError(cause) => String::from_str("Command error: ").concat(
                cause.as_str(),
            ),
            GitMetricsError::Other(cause) => cause.clone(),
        }
    }
}

} // verus!
