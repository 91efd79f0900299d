//! The error type shared by every fallible operation.

use vstd::prelude::*;

verus! {

/// Everything that can go wrong in this library.
#[derive(Debug, Clone, PartialEq, Eq)]
pub enum Error {
    /// A required input was absent or empty; holds the input name.
    MissingRequiredInput(String),
    /// A boolean input was not one of the YAML 1.2 core-schema spellings.
    InvalidBool { name: String, value: String },
    /// An input could not be parsed into the requested type.
    ParseInput { name: String, reason: String },
    /// The variable name is reserved by the runner (`GITHUB_*`, `RUNNER_*`,
    /// `NODE_OPTIONS`); holds the name.
    ReservedName(String),
    /// The job summary would exceed the 1 MiB limit; holds the byte count.
    SummaryTooLarge { bytes: usize },
    /// The heredoc delimiter occurs in the key or the value; holds the key.
    DelimiterCollision(String),
    /// An I/O operation failed; holds its description.
    Io(String),
}

/// The result type of this library's fallible operations.
pub type Result<T> = core::result::Result<T, Error>;

} // verus!
