//! The two ways in which taking the inventory fails.
use vstd::prelude::*;

verus! {

/// Why the inventory could not be taken.
#[derive(Debug, Clone, PartialEq, Eq)]
pub enum PlatformError {
    /// The host does not run Linux.
    Unsupported(String),
    /// A tool that is needed could not be started or reported failure, or
    /// what it printed names no usable device.
    CommandFailed(String),
}

/// A `PlatformError` as a mathematical value.
pub enum ErrorModel {
    Unsupported(Seq<char>),
    CommandFailed(Seq<char>),
}

impl ErrorModel {
    /// The explanation that the error carries.
    pub open spec fn detail(self) -> Seq<char> {
        match self {
            ErrorModel::Unsupported(detail) => detail,
            ErrorModel::CommandFailed(detail) => detail,
        }
    }

    /// The line that reports the error: its kind, a colon, its explanation.
    pub open spec fn message(self) -> Seq<char> {
        match self {
            ErrorModel::Unsupported(detail) => "Unsupported platform: "@ + detail,
            ErrorModel::CommandFailed(detail) => "Command failed: "@ + detail,
        }
    }
}

impl View for PlatformError {
    type V = ErrorModel;

    open spec fn view(&self) -> ErrorModel {
        match self {
            PlatformError::Unsupported(detail) => ErrorModel::Unsupported(detail@),
            PlatformError::CommandFailed(detail) => ErrorModel::CommandFailed(detail@),
        }
    }
}

impl PlatformError {
    /// The line that reports the error.
    pub fn message(&self) -> (line: String)
        ensures
            line@ == self@.message(),
    {
        match self {
            PlatformError::Unsupported(detail) => String::from_str("Unsupported platform: ").concat(
                detail.as_str(),
            ),
            PlatformError::CommandFailed(detail) => String::from_str("Command failed: ").concat(
                detail.as_str(),
            ),
        }
    }
}

} // verus!
