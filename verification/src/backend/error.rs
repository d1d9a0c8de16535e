use vstd::prelude::*;
use vstd::string::*;

verus! {

/// Why a backend operation failed.
#[derive(Debug)]
pub enum BackendError {
    /// An underlying read or write failed; `message` says what was attempted,
    /// `error` what the system reported.
    IoError { message: String, error: String },
    /// A remote endpoint could not be reached.
    ConnectionError(String),
    /// The backend cannot do what was asked.
    UnsupportedOperation(String),
    /// The path does not exist.
    NotFound(String),
    /// The path exists but is of the wrong kind.
    InvalidPath(String),
    /// Source and destination digests differ.
    ChecksumMismatch { expected: String, actual: String },
    /// Anything else.
    Other(String),
}

impl BackendError {
    /// The one-line diagnostic of this error.
    pub open spec fn display_text(&self) -> Seq<char> {
        match self {
            BackendError::IoError { message, error } => "IO error: "@ + message@ + " ("@ + error@
                + ")"@,
            BackendError::ConnectionError(msg) => "Connection error: "@ + msg@,
            BackendError::UnsupportedOperation(msg) => "Unsupported operation: "@ + msg@,
            BackendError::NotFound(path) => "Path not found: "@ + path@,
            BackendError::InvalidPath(path) => "Invalid path: "@ + path@,
            BackendError::ChecksumMismatch { expected, actual } => "Checksum mismatch: expected "@
                + expected@ + ", got "@ + actual@,
            BackendError::Other(msg) => "Error: "@ + msg@,
        }
    }

    /// Renders the error as a one-line diagnostic.
    pub fn to_string(&self) -> (text: String)
        ensures
            text@ == self.display_text(),
    {
        match self {
            BackendError::IoError { message, error } => {
                let mut text = String::from_str("IO error: ");
                text.append(message.as_str());
                text.append(" (");
                text.append(error.as_str());
                text.append(")");
                text
            },
            BackendError::ConnectionError(msg) => {
                let mut text = String::from_str("Connection error: ");
                text.append(msg.as_str());
                text
            },
            BackendError::UnsupportedOperation(msg) => {
                let mut text = String::from_str("Unsupported operation: ");
                text.append(msg.as_str());
                text
            },
            BackendError::NotFound(path) => {
                let mut text = String::from_str("Path not found: ");
                text.append(path.as_str());
                text
            },
            BackendError::InvalidPath(path) => {
                let mut text = String::from_str("Invalid path: ");
                text.append(path.as_str());
                text
            },
            BackendError::ChecksumMismatch { expected, actual } => {
                let mut text = String::from_str("Checksum mismatch: expected ");
                text.append(expected.as_str());
                text.append(", got ");
                text.append(actual.as_str());
                text
            },
            BackendError::Other(msg) => {
                let mut text = String::from_str("Error: ");
                text.append(msg.as_str());
                text
            },
        }
    }
}

} // verus!
