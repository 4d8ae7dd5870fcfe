//! The kinds of failure that the library tells apart.

use vstd::prelude::*;

verus! {

/// What went wrong, by kind.
#[derive(Debug, Clone, Copy, PartialEq, Eq, Structural)]
pub enum ErrorKind {
    /// A required external binary is missing or cannot be run.
    ToolchainUnavailable,
    /// An external binary ended with a failure.
    ToolchainFailed,
    /// The expected line was not in the binary's output.
    ToolchainUnparseable,
    /// The transcoder gave no loudness summary: nothing was measured.
    MeasurementUnavailable,
    /// The store refused a query or a write.
    StoreFailed,
    /// A lookup by a unique field found nothing.
    NotFound,
    /// Reading, writing or locking the journal failed.
    JournalIO,
    /// The HTTP client failed or the answer was no success.
    NetworkFailed,
    /// A downloaded archive did not have the expected SHA-256.
    ChecksumMismatch,
    /// An empty URL, a malformed configuration, a save path that is no
    /// directory.
    InvalidInput,
}

impl ErrorKind {
    /// The words under which the UI is told of a failure of this kind.
    pub open spec fn words(self) -> Seq<char> {
        match self {
            ErrorKind::ToolchainUnavailable => "toolchain unavailable"@,
            ErrorKind::ToolchainFailed => "toolchain failed"@,
            ErrorKind::ToolchainUnparseable => "toolchain output not understood"@,
            ErrorKind::MeasurementUnavailable => "Integrated LUFS not found in ffmpeg output"@,
            ErrorKind::StoreFailed => "store failed"@,
            ErrorKind::NotFound => "not found"@,
            ErrorKind::JournalIO => "journal i/o failed"@,
            ErrorKind::NetworkFailed => "network failed"@,
            ErrorKind::ChecksumMismatch => "sha256 mismatch"@,
            ErrorKind::InvalidInput => "invalid input"@,
        }
    }

    /// The words for a failure of this kind.
    pub fn describe(&self) -> (s: &'static str)
        ensures
            s@ == self.words(),
    {
        match self {
            ErrorKind::ToolchainUnavailable => "toolchain unavailable",
            ErrorKind::ToolchainFailed => "toolchain failed",
            ErrorKind::ToolchainUnparseable => "toolchain output not understood",
            ErrorKind::MeasurementUnavailable => "Integrated LUFS not found in ffmpeg output",
            ErrorKind::StoreFailed => "store failed",
            ErrorKind::NotFound => "not found",
            ErrorKind::JournalIO => "journal i/o failed",
            ErrorKind::NetworkFailed => "network failed",
            ErrorKind::ChecksumMismatch => "sha256 mismatch",
            ErrorKind::InvalidInput => "invalid input",
        }
    }
}

} // verus!
