use vstd::prelude::*;
use vstd::string::StringExecFns;

verus! {

/// The failures that the node reports.
#[derive(Debug, Clone)]
pub enum SynkError {
    /// Disk I/O or lock failure.
    Storage(String),
    /// Bind or accept failure.
    Network(String),
    /// Malformed configuration.
    Config(String),
    /// Malformed or unencodable JSON snapshot.
    Serialization(String),
    /// Generic I/O failure.
    Io(String),
}

/// The human-readable text of an error: its kind, then its detail.
pub open spec fn error_text(e: SynkError) -> Seq<char> {
    match e {
        SynkError::Storage(s) => "Storage error: "@ + s@,
        SynkError::Network(s) => "Network error: "@ + s@,
        SynkError::Config(s) => "Configuration error: "@ + s@,
        SynkError::Serialization(s) => "Serialization error: "@ + s@,
        SynkError::Io(s) => "IO error: "@ + s@,
    }
}

impl SynkError {
    /// The human-readable text of this error.
    pub fn message(&self) -> (r: String)
        ensures
            r@ == error_text(*self),
    {
        match self {
            SynkError::Storage(s) => String::from_str("Storage error: ").concat(s.as_str()),
            SynkError::Network(s) => String::from_str("Network error: ").concat(s.as_str()),
            SynkError::Config(s) => String::from_str("Configuration error: ").concat(s.as_str()),
            SynkError::Serialization(s) => String::from_str("Serialization error: ").concat(
                s.as_str(),
            ),
            SynkError::Io(s) => String::from_str("IO error: ").concat(s.as_str()),
        }
    }
}

} // verus!
